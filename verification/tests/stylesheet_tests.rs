use css_color::Srgb;
use dragonfly::{CssParser, Declaration, Display, GlobalStyle, ParserMode};

fn rgb(r: u8, g: u8, b: u8) -> Srgb {
    Srgb::new(r as f32 / 255., g as f32 / 255., b as f32 / 255., 1.0)
}

#[test]
fn stylesheet_rule_extraction() {
    let style = GlobalStyle::from_css("p { color: red; } div { display: flex; }", ParserMode::Normal);
    assert_eq!(style.rules.len(), 2);
    assert_eq!(style.rules[0].0, "p");
    assert_eq!(style.rules[1].0, "div");
    assert_eq!(style.rules[0].1.color, Some(rgb(255, 0, 0)));
    assert_eq!(style.rules[1].1.display, Display::Flex);
    // the in-progress declaration is not reset between rules: the second
    // rule still carries the first rule's color
    assert_eq!(style.rules[1].1.color, Some(rgb(255, 0, 0)));
}

#[test]
fn brace_depth_robustness() {
    let style = GlobalStyle::from_css("p { color: red; } }", ParserMode::Normal);
    assert_eq!(style.rules.len(), 1);
    assert_eq!(style.rules[0].0, "p");
    assert_eq!(style.rules[0].1.color, Some(rgb(255, 0, 0)));
}

#[test]
fn comments_are_stripped_before_parsing() {
    let style = GlobalStyle::from_css("p {/* who cares */ color:/**/red; }", ParserMode::Normal);
    assert_eq!(style.rules.len(), 1);
    assert_eq!(style.rules[0].1.color, Some(rgb(255, 0, 0)));
}

#[test]
fn unclosed_rule_is_discarded() {
    let style = GlobalStyle::from_css("p { color: red;", ParserMode::Normal);
    assert_eq!(style.rules.len(), 0);
}

#[test]
fn default_css_mode_substitutes_theme_keywords() {
    let style = GlobalStyle::from_css(
        "body { color: DfTextColor; background-color: DfPageBackgroundColor; }",
        ParserMode::DefaultCss,
    );
    assert_eq!(style.rules.len(), 1);
    assert_eq!(style.rules[0].1.color, Some(rgb(0, 0, 0)));
    assert_eq!(style.rules[0].1.background_color, Some(rgb(255, 255, 255)));
}

#[test]
fn normal_mode_keeps_theme_keywords_verbatim() {
    let style = GlobalStyle::from_css("body { color: DfTextColor; }", ParserMode::Normal);
    assert_eq!(style.rules.len(), 1);
    // css_color does not know the theme keyword, so the property stays unset
    assert_eq!(style.rules[0].1.color, None);
}

#[test]
fn default_css_has_a_body_rule() {
    let style = GlobalStyle::default_css();
    assert!(!style.rules.is_empty());
    let body = style.rules.iter().find(|(sel, _)| sel == "body").expect("body rule");
    assert_eq!(body.1.color, Some(rgb(0, 0, 0)));
    assert_eq!(body.1.background_color, Some(rgb(255, 255, 255)));
}

#[test]
fn parser_new_then_parse_matches_from_css() {
    let mut parser = CssParser::new("p { display: grid; }", ParserMode::Normal);
    let style = parser.parse();
    assert_eq!(style.rules.len(), 1);
    assert_eq!(style.rules[0].1.display, Display::Grid);
}

#[test]
fn add_rule_appends_in_order() {
    let mut style = GlobalStyle::default();
    style.add_rule("p", Declaration::default());
    style.add_rule("div", Declaration::default());
    assert_eq!(style.rules.len(), 2);
    assert_eq!(style.rules[0].0, "p");
    assert_eq!(style.rules[1].0, "div");
}

#[test]
fn empty_selector_tokens_are_skipped() {
    // stray punctuation at depth zero consumes one character and commits no
    // rule
    let style = GlobalStyle::from_css("@; p { color: red; }", ParserMode::Normal);
    assert_eq!(style.rules.len(), 1);
    assert_eq!(style.rules[0].0, "p");
}

#[test]
fn inner_braces_are_tracked() {
    // a nested brace scope closes back to the recorded depth before the rule
    // commits
    let style = GlobalStyle::from_css("p { color: red; { display: flex; } }", ParserMode::Normal);
    assert_eq!(style.rules.len(), 1);
    assert_eq!(style.rules[0].0, "p");
    // the value at depth two is consumed but not resolved
    assert_eq!(style.rules[0].1.display, Display::Block);
}
