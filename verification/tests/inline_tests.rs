use css_color::Srgb;
use dragonfly::{Declaration, Display, FontFamily, Position};
use dragonfly::{Dimension, Scalar, Unit};

fn rgb(r: u8, g: u8, b: u8) -> Srgb {
    Srgb::new(r as f32 / 255., g as f32 / 255., b as f32 / 255., 1.0)
}

#[test]
fn inline_round_trip() {
    let style = Declaration::from_inline("position: absolute; color: red;");
    let mut expected = Declaration::default();
    expected.position = Position::Absolute;
    expected.color = Some(rgb(255, 0, 0));
    assert_eq!(style, expected);
}

#[test]
fn inline_partial_input() {
    let style = Declaration::from_inline("color: yellow");
    let mut expected = Declaration::default();
    expected.color = Some(rgb(255, 255, 0));
    assert_eq!(style, expected);
}

#[test]
fn unknown_property_is_a_no_op() {
    let with_unknown = Declaration::from_inline("flibber: 3; color: blue;");
    let without = Declaration::from_inline("color: blue;");
    assert_eq!(with_unknown, without);
    assert_eq!(with_unknown.color, Some(rgb(0, 0, 255)));
}

#[test]
fn margin_shorthand() {
    let style = Declaration::from_inline("margin: 1px 2px 3px 4px;");
    for (i, n) in [1u64, 2, 3, 4].iter().enumerate() {
        let d = style.margin[i].expect("margin side set");
        assert_eq!(d.number, Scalar { num: *n, den: 1 });
        assert_eq!(d.unit, Unit::Absolute(Scalar { num: *n, den: 1 }));
    }
}

#[test]
fn margin_shorthand_partial() {
    let style = Declaration::from_inline("margin: 5px;");
    assert_eq!(
        style.margin[0],
        Some(Dimension {
            number: Scalar { num: 5, den: 1 },
            unit: Unit::Absolute(Scalar { num: 5, den: 1 }),
        })
    );
    assert_eq!(style.margin[1], None);
    assert_eq!(style.margin[2], None);
    assert_eq!(style.margin[3], None);
}

#[test]
fn margin_single_sides() {
    let style = Declaration::from_inline("margin-left: 2px; margin-top: 3px");
    assert_eq!(style.margin[0].unwrap().number, Scalar { num: 3, den: 1 });
    assert_eq!(style.margin[3].unwrap().number, Scalar { num: 2, den: 1 });
    assert_eq!(style.margin[1], None);
    assert_eq!(style.margin[2], None);
}

#[test]
fn display_keywords() {
    assert_eq!(Declaration::from_inline("display: flex;").display, Display::Flex);
    assert_eq!(Declaration::from_inline("display: inline-block;").display, Display::InlineBlock);
    assert_eq!(Declaration::from_inline("display: none;").display, Display::NotDisplayed);
    // an unparseable value falls back to the default
    assert_eq!(Declaration::from_inline("display: zigzag;").display, Display::Block);
}

#[test]
fn position_fallback_is_static() {
    assert_eq!(Declaration::from_inline("position: sticky;").position, Position::Sticky);
    // case-sensitive: an unknown keyword falls back to the default
    assert_eq!(Declaration::from_inline("position: ABSOLUTE;").position, Position::Static);
}

#[test]
fn font_family_keyword_and_custom() {
    assert_eq!(
        Declaration::from_inline("font-family: sans-serif;").font_family,
        Some(FontFamily::SansSerif)
    );
    assert_eq!(
        Declaration::from_inline("font-family: Comic Sans;").font_family,
        Some(FontFamily::Custom(String::from("Comic Sans")))
    );
}

#[test]
fn unparseable_color_stays_unset() {
    assert_eq!(Declaration::from_inline("color: notacolor;").color, None);
    assert_eq!(Declaration::from_inline("background-color: ;").background_color, None);
}

#[test]
fn rgb_function_value_is_captured_whole() {
    let style = Declaration::from_inline("color: rgb(255, 255, 255);");
    assert_eq!(style.color, Some(rgb(255, 255, 255)));
}

#[test]
fn later_duplicate_property_wins() {
    let style = Declaration::from_inline("color: red; color: blue;");
    assert_eq!(style.color, Some(rgb(0, 0, 255)));
}

#[test]
fn value_runs_to_the_end_of_the_segment() {
    // the segment splits at its first colon; the value is everything after it
    let style = Declaration::from_inline("font-family: a:b");
    assert_eq!(style.font_family, Some(FontFamily::Custom(String::from("a:b"))));
}
