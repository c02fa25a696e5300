//! The typed style model: the keyword enums (`Position`, `Display`,
//! `FontFamily`), the `Declaration` record of properties this engine
//! understands, and the property-value resolver that maps a property name to
//! a mutation of an in-progress declaration.

use vstd::prelude::*;

use crate::chars::{chars_of, is_whitespace_char, is_ws_char, str_eq};
use crate::color::color_of;
use crate::color::parse_color;
use crate::dimension::{dimension_from_chars, spec_dimension, Dimension};

verus! {

/// How an element is positioned. Parsed case-sensitively from the CSS
/// keyword; unparseable values fall back to `Static`.
#[derive(Debug, Clone, Copy, PartialEq, Eq, Structural)]
pub enum Position {
    /// Default. The element renders in the order it appears in the document
    /// flow.
    Static,
    /// The element is positioned relative to its normal position.
    Relative,
    /// The element is positioned relative to a positioned (not static)
    /// parent element.
    Absolute,
    /// The element is positioned relative to the browser window.
    Fixed,
    /// The element is positioned based on the scrolling position of a parent
    /// element.
    Sticky,
}

impl Default for Position {
    /// The default position keyword, `static`.
    fn default() -> (r: Self)
        ensures
            r == Position::Static,
    {
        Position::Static
    }
}

/// The `Position` a CSS keyword names, if any.
pub open spec fn spec_position_from(k: Seq<char>) -> Option<Position> {
    if k == "static"@ {
        Some(Position::Static)
    } else if k == "relative"@ {
        Some(Position::Relative)
    } else if k == "absolute"@ {
        Some(Position::Absolute)
    } else if k == "fixed"@ {
        Some(Position::Fixed)
    } else if k == "sticky"@ {
        Some(Position::Sticky)
    } else {
        None
    }
}

impl Position {
    /// Parses a position keyword, case-sensitively.
    pub fn from_keyword(s: &str) -> (r: Option<Position>)
        ensures
            r == spec_position_from(s@),
    {
        if str_eq(s, "static") {
            Some(Position::Static)
        } else if str_eq(s, "relative") {
            Some(Position::Relative)
        } else if str_eq(s, "absolute") {
            Some(Position::Absolute)
        } else if str_eq(s, "fixed") {
            Some(Position::Fixed)
        } else if str_eq(s, "sticky") {
            Some(Position::Sticky)
        } else {
            None
        }
    }
}

/// The display mode of an element. Parsed case-sensitively from the CSS
/// keyword; unparseable values fall back to `Block`.
#[derive(Debug, Clone, Copy, PartialEq, Eq, Structural)]
pub enum Display {
    Block,
    Inline,
    InlineBlock,
    Flex,
    InlineFlex,
    Grid,
    InlineGrid,
    FlowRoot,
    /// The CSS keyword `none`: the element generates no box at all.
    NotDisplayed,
    Contents,
}

impl Default for Display {
    /// The default display keyword, `block`.
    fn default() -> (r: Self)
        ensures
            r == Display::Block,
    {
        Display::Block
    }
}

/// The `Display` a CSS keyword names, if any.
pub open spec fn spec_display_from(k: Seq<char>) -> Option<Display> {
    if k == "block"@ {
        Some(Display::Block)
    } else if k == "inline"@ {
        Some(Display::Inline)
    } else if k == "inline-block"@ {
        Some(Display::InlineBlock)
    } else if k == "flex"@ {
        Some(Display::Flex)
    } else if k == "inline-flex"@ {
        Some(Display::InlineFlex)
    } else if k == "grid"@ {
        Some(Display::Grid)
    } else if k == "inline-grid"@ {
        Some(Display::InlineGrid)
    } else if k == "flow-root"@ {
        Some(Display::FlowRoot)
    } else if k == "none"@ {
        Some(Display::NotDisplayed)
    } else if k == "contents"@ {
        Some(Display::Contents)
    } else {
        None
    }
}

impl Display {
    /// Parses a display keyword, case-sensitively.
    pub fn from_keyword(s: &str) -> (r: Option<Display>)
        ensures
            r == spec_display_from(s@),
    {
        if str_eq(s, "block") {
            Some(Display::Block)
        } else if str_eq(s, "inline") {
            Some(Display::Inline)
        } else if str_eq(s, "inline-block") {
            Some(Display::InlineBlock)
        } else if str_eq(s, "flex") {
            Some(Display::Flex)
        } else if str_eq(s, "inline-flex") {
            Some(Display::InlineFlex)
        } else if str_eq(s, "grid") {
            Some(Display::Grid)
        } else if str_eq(s, "inline-grid") {
            Some(Display::InlineGrid)
        } else if str_eq(s, "flow-root") {
            Some(Display::FlowRoot)
        } else if str_eq(s, "none") {
            Some(Display::NotDisplayed)
        } else if str_eq(s, "contents") {
            Some(Display::Contents)
        } else {
            None
        }
    }
}

/// A font family: one of the CSS generic families, or a custom family name.
#[derive(Debug, Clone, PartialEq, Eq)]
pub enum FontFamily {
    /// Glyphs have finishing strokes, flared or tapering ends, or actual
    /// serifed endings.
    Serif,
    /// Glyphs have stroke endings that are plain.
    SansSerif,
    /// All glyphs have the same fixed width.
    Monospace,
    /// Glyphs generally have joining strokes or other cursive
    /// characteristics.
    Cursive,
    /// Primarily decorative fonts with playful representations of
    /// characters.
    Fantasy,
    /// The default user interface font of the platform.
    SystemUi,
    /// The default user interface serif font.
    UiSerif,
    /// The default user interface sans-serif font.
    UiSansSerif,
    /// The default user interface monospace font.
    UiMonospace,
    /// The default user interface font with rounded features.
    UiRounded,
    /// A font for mathematics: superscript and subscript, brackets that
    /// cross several lines, nested expressions.
    Math,
    /// A font specifically designed to render emoji.
    Emoji,
    /// A style of Chinese characters between serif-style Song and
    /// cursive-style Kai forms.
    Fangsong,
    /// A named font family taken verbatim from the stylesheet.
    Custom(String),
}

/// The mathematical value of a `FontFamily`: the same variants, with a
/// custom name as a character sequence.
pub ghost enum FontFamilyView {
    Serif,
    SansSerif,
    Monospace,
    Cursive,
    Fantasy,
    SystemUi,
    UiSerif,
    UiSansSerif,
    UiMonospace,
    UiRounded,
    Math,
    Emoji,
    Fangsong,
    Custom(Seq<char>),
}

impl View for FontFamily {
    type V = FontFamilyView;

    open spec fn view(&self) -> FontFamilyView {
        match self {
            FontFamily::Serif => FontFamilyView::Serif,
            FontFamily::SansSerif => FontFamilyView::SansSerif,
            FontFamily::Monospace => FontFamilyView::Monospace,
            FontFamily::Cursive => FontFamilyView::Cursive,
            FontFamily::Fantasy => FontFamilyView::Fantasy,
            FontFamily::SystemUi => FontFamilyView::SystemUi,
            FontFamily::UiSerif => FontFamilyView::UiSerif,
            FontFamily::UiSansSerif => FontFamilyView::UiSansSerif,
            FontFamily::UiMonospace => FontFamilyView::UiMonospace,
            FontFamily::UiRounded => FontFamilyView::UiRounded,
            FontFamily::Math => FontFamilyView::Math,
            FontFamily::Emoji => FontFamilyView::Emoji,
            FontFamily::Fangsong => FontFamilyView::Fangsong,
            FontFamily::Custom(s) => FontFamilyView::Custom(s@),
        }
    }
}

impl Default for FontFamily {
    /// The default generic family, `serif`.
    fn default() -> (r: Self)
        ensures
            r@ == FontFamilyView::Serif,
    {
        FontFamily::Serif
    }
}

/// The `FontFamily` a CSS keyword names; an unrecognized keyword becomes a
/// custom family carrying the text verbatim.
pub open spec fn spec_font_family_from(k: Seq<char>) -> FontFamilyView {
    if k == "serif"@ {
        FontFamilyView::Serif
    } else if k == "sans-serif"@ {
        FontFamilyView::SansSerif
    } else if k == "monospace"@ {
        FontFamilyView::Monospace
    } else if k == "cursive"@ {
        FontFamilyView::Cursive
    } else if k == "fantasy"@ {
        FontFamilyView::Fantasy
    } else if k == "system-ui"@ {
        FontFamilyView::SystemUi
    } else if k == "ui-serif"@ {
        FontFamilyView::UiSerif
    } else if k == "ui-sans-serif"@ {
        FontFamilyView::UiSansSerif
    } else if k == "ui-monospace"@ {
        FontFamilyView::UiMonospace
    } else if k == "ui-rounded"@ {
        FontFamilyView::UiRounded
    } else if k == "math"@ {
        FontFamilyView::Math
    } else if k == "emoji"@ {
        FontFamilyView::Emoji
    } else if k == "fangsong"@ {
        FontFamilyView::Fangsong
    } else {
        FontFamilyView::Custom(k)
    }
}

impl FontFamily {
    /// Parses a font-family keyword, case-sensitively; anything else becomes
    /// `Custom` of the text itself.
    pub fn from_keyword(s: &str) -> (r: FontFamily)
        ensures
            r@ == spec_font_family_from(s@),
    {
        if str_eq(s, "serif") {
            FontFamily::Serif
        } else if str_eq(s, "sans-serif") {
            FontFamily::SansSerif
        } else if str_eq(s, "monospace") {
            FontFamily::Monospace
        } else if str_eq(s, "cursive") {
            FontFamily::Cursive
        } else if str_eq(s, "fantasy") {
            FontFamily::Fantasy
        } else if str_eq(s, "system-ui") {
            FontFamily::SystemUi
        } else if str_eq(s, "ui-serif") {
            FontFamily::UiSerif
        } else if str_eq(s, "ui-sans-serif") {
            FontFamily::UiSansSerif
        } else if str_eq(s, "ui-monospace") {
            FontFamily::UiMonospace
        } else if str_eq(s, "ui-rounded") {
            FontFamily::UiRounded
        } else if str_eq(s, "math") {
            FontFamily::Math
        } else if str_eq(s, "emoji") {
            FontFamily::Emoji
        } else if str_eq(s, "fangsong") {
            FontFamily::Fangsong
        } else {
            FontFamily::Custom(s.to_owned())
        }
    }

    /// A copy of this font family.
    pub fn duplicate(&self) -> (r: FontFamily)
        ensures
            r@ == self@,
    {
        match self {
            FontFamily::Serif => FontFamily::Serif,
            FontFamily::SansSerif => FontFamily::SansSerif,
            FontFamily::Monospace => FontFamily::Monospace,
            FontFamily::Cursive => FontFamily::Cursive,
            FontFamily::Fantasy => FontFamily::Fantasy,
            FontFamily::SystemUi => FontFamily::SystemUi,
            FontFamily::UiSerif => FontFamily::UiSerif,
            FontFamily::UiSansSerif => FontFamily::UiSansSerif,
            FontFamily::UiMonospace => FontFamily::UiMonospace,
            FontFamily::UiRounded => FontFamily::UiRounded,
            FontFamily::Math => FontFamily::Math,
            FontFamily::Emoji => FontFamily::Emoji,
            FontFamily::Fangsong => FontFamily::Fangsong,
            FontFamily::Custom(s) => FontFamily::Custom(s.clone()),
        }
    }
}

/// Selects between parsing a regular stylesheet and the engine's built-in
/// default stylesheet, whose theme keywords are substituted before values
/// are resolved.
#[derive(Debug, Clone, Copy, PartialEq, Eq, Structural)]
pub enum ParserMode {
    /// Parse regular CSS text.
    Normal,
    /// Parse the built-in default stylesheet.
    DefaultCss,
}

/// CSS rule declaration for one or multiple selectors: the resolved set of
/// style property values this engine understands. Margin indices are ordered
/// top, right, bottom, left.
#[derive(Debug, Clone, PartialEq)]
pub struct Declaration {
    pub display: Display,
    pub position: Position,
    pub color: Option<css_color::Srgb>,
    pub background_color: Option<css_color::Srgb>,
    pub font_family: Option<FontFamily>,
    pub margin: [Option<Dimension>; 4],
}

/// The mathematical value of a `Declaration`.
#[verifier::ext_equal]
pub ghost struct DeclView {
    pub display: Display,
    pub position: Position,
    pub color: Option<css_color::Srgb>,
    pub background_color: Option<css_color::Srgb>,
    pub font_family: Option<FontFamilyView>,
    pub margin: Seq<Option<Dimension>>,
}

impl View for Declaration {
    type V = DeclView;

    open spec fn view(&self) -> DeclView {
        DeclView {
            display: self.display,
            position: self.position,
            color: self.color,
            background_color: self.background_color,
            font_family: match self.font_family {
                Some(f) => Some(f@),
                None => None,
            },
            margin: self.margin@,
        }
    }
}

/// The declaration with every property unset: default display and position,
/// no colors, no font family, no margins.
pub open spec fn spec_default_decl() -> DeclView {
    DeclView {
        display: Display::Block,
        position: Position::Static,
        color: None,
        background_color: None,
        font_family: None,
        margin: seq![None, None, None, None],
    }
}

impl Default for Declaration {
    /// The all-unset declaration; constructing it never fails.
    fn default() -> (r: Self)
        ensures
            r@ == spec_default_decl(),
    {
        let r = Declaration {
            display: Display::Block,
            position: Position::Static,
            color: None,
            background_color: None,
            font_family: None,
            margin: [None, None, None, None],
        };
        proof {
            assert(r@.margin =~= spec_default_decl().margin);
            assert(r@ =~= spec_default_decl());
        }
        r
    }
}

impl Declaration {
    /// A copy of this declaration.
    pub fn duplicate(&self) -> (r: Declaration)
        ensures
            r@ == self@,
    {
        let r = Declaration {
            display: self.display,
            position: self.position,
            color: self.color,
            background_color: self.background_color,
            font_family: match &self.font_family {
                Some(f) => Some(f.duplicate()),
                None => None,
            },
            margin: [self.margin[0], self.margin[1], self.margin[2], self.margin[3]],
        };
        proof {
            assert(r@.margin =~= self@.margin);
            assert(r@ =~= self@);
        }
        r
    }
}

/// The fixed set of internal theme keywords of the default stylesheet, each
/// replaced by a literal CSS color keyword; anything else passes through.
pub open spec fn spec_replace_browser_keyword(v: Seq<char>) -> Seq<char> {
    if v == "DfTextColor"@ {
        "black"@
    } else if v == "DfPageBackgroundColor"@ {
        "white"@
    } else if v == "DfButtonBorderColor"@ {
        "gray"@
    } else if v == "DfInputPlaceholderTextColor"@ {
        "gray"@
    } else if v == "DfButtonBackgroundColor"@ {
        "lightgray"@
    } else if v == "DfButtonTextColor"@ {
        "black"@
    } else if v == "DfLinkColor"@ {
        "lightblue"@
    } else if v == "DfVisitedColor"@ {
        "purple"@
    } else if v == "DfActiveColor"@ {
        "blue"@
    } else if v == "DfMarkBackgroundColor"@ {
        "lightgray"@
    } else if v == "DfMarkTextColor"@ {
        "yellow"@
    } else if v == "DfFieldsetBorderColor"@ {
        "black"@
    } else {
        v
    }
}

/// Substitutes the theme keywords of the built-in default stylesheet with
/// literal CSS color keywords.
pub(crate) fn replace_browser_keyword<'a>(value: &'a str) -> (r: &'a str)
    ensures
        r@ == spec_replace_browser_keyword(value@),
{
    if str_eq(value, "DfTextColor") {
        "black"
    } else if str_eq(value, "DfPageBackgroundColor") {
        "white"
    } else if str_eq(value, "DfButtonBorderColor") {
        "gray"
    } else if str_eq(value, "DfInputPlaceholderTextColor") {
        "gray"
    } else if str_eq(value, "DfButtonBackgroundColor") {
        "lightgray"
    } else if str_eq(value, "DfButtonTextColor") {
        "black"
    } else if str_eq(value, "DfLinkColor") {
        "lightblue"
    } else if str_eq(value, "DfVisitedColor") {
        "purple"
    } else if str_eq(value, "DfActiveColor") {
        "blue"
    } else if str_eq(value, "DfMarkBackgroundColor") {
        "lightgray"
    } else if str_eq(value, "DfMarkTextColor") {
        "yellow"
    } else if str_eq(value, "DfFieldsetBorderColor") {
        "black"
    } else {
        value
    }
}

/// The whitespace-splitter's fold: position `i` of `s`, the token being
/// built, and the tokens finished so far.
pub open spec fn split_ws_from(
    s: Seq<char>,
    i: int,
    cur: Seq<char>,
    acc: Seq<Seq<char>>,
) -> Seq<Seq<char>>
    decreases s.len() - i,
{
    if i < 0 || i >= s.len() {
        if cur.len() > 0 {
            acc.push(cur)
        } else {
            acc
        }
    } else if is_ws_char(s[i]) {
        if cur.len() > 0 {
            split_ws_from(s, i + 1, Seq::empty(), acc.push(cur))
        } else {
            split_ws_from(s, i + 1, cur, acc)
        }
    } else {
        split_ws_from(s, i + 1, cur.push(s[i]), acc)
    }
}

/// The maximal whitespace-free runs of `s`, in order.
pub open spec fn spec_split_ws(s: Seq<char>) -> Seq<Seq<char>> {
    split_ws_from(s, 0, Seq::empty(), Seq::empty())
}

/// Splits `v` on whitespace into its maximal whitespace-free runs.
fn split_ws_chars(v: &Vec<char>) -> (r: Vec<Vec<char>>)
    ensures
        r.deep_view() == spec_split_ws(v@),
{
    let mut acc: Vec<Vec<char>> = Vec::new();
    let mut cur: Vec<char> = Vec::new();
    let mut i: usize = 0;
    proof {
        assert(acc.deep_view() =~~= Seq::<Seq<char>>::empty());
    }
    while i < v.len()
        invariant
            i <= v@.len(),
            split_ws_from(v@, i as int, cur@, acc.deep_view()) == spec_split_ws(v@),
        decreases v@.len() - i,
    {
        let c = v[i];
        if is_whitespace_char(c) {
            if cur.len() > 0 {
                let ghost prev = acc.deep_view();
                let ghost curv = cur@;
                acc.push(cur);
                proof {
                    assert(acc.deep_view() =~~= prev.push(curv));
                }
                cur = Vec::new();
            }
        } else {
            cur.push(c);
        }
        i = i + 1;
    }
    if cur.len() > 0 {
        let ghost prev = acc.deep_view();
        let ghost curv = cur@;
        acc.push(cur);
        proof {
            assert(acc.deep_view() =~~= prev.push(curv));
        }
    }
    acc
}

/// The margins after a `margin` shorthand with the given tokens: the first
/// at most four tokens set the top, right, bottom and left margin in that
/// order; indices not covered keep their previous value.
pub open spec fn spec_margins_after(
    m: Seq<Option<Dimension>>,
    toks: Seq<Seq<char>>,
) -> Seq<Option<Dimension>> {
    Seq::new(
        4,
        |i: int|
            if 0 <= i < toks.len() {
                Some(spec_dimension(toks[i]))
            } else {
                m[i]
            },
    )
}

/// The effect of one property on a declaration: the name-to-effect table of
/// the resolver. In default-stylesheet mode the value's theme keyword is
/// substituted first. An unknown property name leaves the declaration
/// unchanged.
pub open spec fn spec_apply_property(
    d: DeclView,
    name: Seq<char>,
    raw_value: Seq<char>,
    mode: ParserMode,
) -> DeclView {
    let value = if mode is DefaultCss {
        spec_replace_browser_keyword(raw_value)
    } else {
        raw_value
    };
    if name == "display"@ {
        DeclView {
            display: match spec_display_from(value) {
                Some(x) => x,
                None => Display::Block,
            },
            ..d
        }
    } else if name == "position"@ {
        DeclView {
            position: match spec_position_from(value) {
                Some(x) => x,
                None => Position::Static,
            },
            ..d
        }
    } else if name == "color"@ {
        DeclView { color: color_of(value), ..d }
    } else if name == "background-color"@ {
        DeclView { background_color: color_of(value), ..d }
    } else if name == "font-family"@ {
        DeclView { font_family: Some(spec_font_family_from(value)), ..d }
    } else if name == "margin"@ {
        DeclView { margin: spec_margins_after(d.margin, spec_split_ws(value)), ..d }
    } else if name == "margin-top"@ {
        DeclView { margin: d.margin.update(0, Some(spec_dimension(value))), ..d }
    } else if name == "margin-right"@ {
        DeclView { margin: d.margin.update(1, Some(spec_dimension(value))), ..d }
    } else if name == "margin-bottom"@ {
        DeclView { margin: d.margin.update(2, Some(spec_dimension(value))), ..d }
    } else if name == "margin-left"@ {
        DeclView { margin: d.margin.update(3, Some(spec_dimension(value))), ..d }
    } else {
        d
    }
}

/// A property name outside the resolver's table has no effect at all: the
/// declaration after it is the declaration before it.
pub proof fn lemma_unknown_property_noop(
    d: DeclView,
    name: Seq<char>,
    value: Seq<char>,
    mode: ParserMode,
)
    requires
        name != "display"@,
        name != "position"@,
        name != "color"@,
        name != "background-color"@,
        name != "font-family"@,
        name != "margin"@,
        name != "margin-top"@,
        name != "margin-right"@,
        name != "margin-bottom"@,
        name != "margin-left"@,
    ensures
        spec_apply_property(d, name, value, mode) == d,
{
}

/// Applies one `name: value` property to the declaration, following the
/// resolver table; stylesheet and inline parsing share this function, so the
/// two agree on every property's meaning.
pub(crate) fn apply_declaration_property(
    decl: &mut Declaration,
    name: &str,
    value: &str,
    mode: ParserMode,
)
    ensures
        final(decl)@ == spec_apply_property(old(decl)@, name@, value@, mode),
{
    let value2 = match mode {
        ParserMode::DefaultCss => replace_browser_keyword(value),
        ParserMode::Normal => value,
    };
    proof {
        assert(value2@ == if mode is DefaultCss {
            spec_replace_browser_keyword(value@)
        } else {
            value@
        });
    }
    if str_eq(name, "display") {
        decl.display = match Display::from_keyword(value2) {
            Some(x) => x,
            None => Display::Block,
        };
    } else if str_eq(name, "position") {
        decl.position = match Position::from_keyword(value2) {
            Some(x) => x,
            None => Position::Static,
        };
    } else if str_eq(name, "color") {
        decl.color = parse_color(value2);
    } else if str_eq(name, "background-color") {
        decl.background_color = parse_color(value2);
    } else if str_eq(name, "font-family") {
        decl.font_family = Some(FontFamily::from_keyword(value2));
    } else if str_eq(name, "margin") {
        let cs = chars_of(value2);
        let toks = split_ws_chars(&cs);
        let m0 = if toks.len() > 0 {
            Some(dimension_from_chars(&toks[0]))
        } else {
            decl.margin[0]
        };
        let m1 = if toks.len() > 1 {
            Some(dimension_from_chars(&toks[1]))
        } else {
            decl.margin[1]
        };
        let m2 = if toks.len() > 2 {
            Some(dimension_from_chars(&toks[2]))
        } else {
            decl.margin[2]
        };
        let m3 = if toks.len() > 3 {
            Some(dimension_from_chars(&toks[3]))
        } else {
            decl.margin[3]
        };
        decl.margin = [m0, m1, m2, m3];
        proof {
            let tv = toks.deep_view();
            assert(tv.len() == toks@.len());
            if toks@.len() > 0 {
                assert(tv[0] =~= toks@[0]@);
            }
            if toks@.len() > 1 {
                assert(tv[1] =~= toks@[1]@);
            }
            if toks@.len() > 2 {
                assert(tv[2] =~= toks@[2]@);
            }
            if toks@.len() > 3 {
                assert(tv[3] =~= toks@[3]@);
            }
            assert(decl@.margin =~= spec_margins_after(
                old(decl)@.margin,
                spec_split_ws(value2@),
            ));
        }
    } else if str_eq(name, "margin-top") {
        let cs = chars_of(value2);
        decl.margin = [
            Some(dimension_from_chars(&cs)),
            decl.margin[1],
            decl.margin[2],
            decl.margin[3],
        ];
        proof {
            assert(decl@.margin =~= old(decl)@.margin.update(
                0,
                Some(spec_dimension(value2@)),
            ));
        }
    } else if str_eq(name, "margin-right") {
        let cs = chars_of(value2);
        decl.margin = [
            decl.margin[0],
            Some(dimension_from_chars(&cs)),
            decl.margin[2],
            decl.margin[3],
        ];
        proof {
            assert(decl@.margin =~= old(decl)@.margin.update(
                1,
                Some(spec_dimension(value2@)),
            ));
        }
    } else if str_eq(name, "margin-bottom") {
        let cs = chars_of(value2);
        decl.margin = [
            decl.margin[0],
            decl.margin[1],
            Some(dimension_from_chars(&cs)),
            decl.margin[3],
        ];
        proof {
            assert(decl@.margin =~= old(decl)@.margin.update(
                2,
                Some(spec_dimension(value2@)),
            ));
        }
    } else if str_eq(name, "margin-left") {
        let cs = chars_of(value2);
        decl.margin = [
            decl.margin[0],
            decl.margin[1],
            decl.margin[2],
            Some(dimension_from_chars(&cs)),
        ];
        proof {
            assert(decl@.margin =~= old(decl)@.margin.update(
                3,
                Some(spec_dimension(value2@)),
            ));
        }
    }
    proof {
        assert(decl@ =~= spec_apply_property(old(decl)@, name@, value@, mode));
    }
}

} // verus!

