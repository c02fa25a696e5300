//! Color values. Parsing a CSS color string is delegated to the `css_color`
//! crate; the parsed value is carried through the style model opaquely and
//! never inspected by the engine itself.

use vstd::prelude::*;

verus! {

#[verifier::external_type_specification]
#[verifier::external_body]
pub struct ExSrgb(css_color::Srgb);

/// What `css_color::Srgb::from_str` returns for the given characters:
/// `Some` of the parsed sRGB value on a well-formed CSS color string,
/// `None` otherwise.
pub uninterp spec fn color_of(s: Seq<char>) -> Option<css_color::Srgb>;

/// Relies on `css_color::Srgb::from_str`: parses a CSS color string
/// (a named color, `#`-hex, `rgb()`/`rgba()`, `hsl()`/`hsla()` or `hwb()`)
/// into an sRGB value; the result depends on the characters alone.
#[verifier::external_body]
pub fn parse_color(s: &str) -> (r: Option<css_color::Srgb>)
    ensures
        r == color_of(s@),
{
    <css_color::Srgb as core::str::FromStr>::from_str(s).ok()
}

} // verus!
