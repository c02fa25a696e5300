use css_color::Srgb;
use dragonfly::{DOMNode, HtmlNode, Layout, Position};

fn element(name: &str, attrs: Vec<(String, String)>, children: Vec<HtmlNode>) -> HtmlNode {
    HtmlNode::Element { name: String::from(name), attrs, children }
}

fn rgb(r: u8, g: u8, b: u8) -> Srgb {
    Srgb::new(r as f32 / 255., g as f32 / 255., b as f32 / 255., 1.0)
}

#[test]
fn root_merge_invariant() {
    let doc = HtmlNode::Other {
        children: vec![element(
            "html",
            vec![],
            vec![element("body", vec![], vec![element("p", vec![], vec![])])],
        )],
    };
    let layout = Layout::compute(&doc);
    let html_nodes = layout.arena.iter().filter(|n| n.node.name == "html").count();
    assert_eq!(html_nodes, 1);
    assert_eq!(layout.arena[0].node.name, "html");
    assert_eq!(layout.arena.len(), 3);
    assert_eq!(layout.arena[1].node.name, "body");
    assert_eq!(layout.arena[2].node.name, "p");
    // children point at their parents
    assert_eq!(layout.arena[1].parent, 0);
    assert_eq!(layout.arena[2].parent, 1);
}

#[test]
fn nested_html_element_still_merges_into_root() {
    let doc = element("html", vec![], vec![element("html", vec![], vec![])]);
    let layout = Layout::compute(&doc);
    let html_nodes = layout.arena.iter().filter(|n| n.node.name == "html").count();
    assert_eq!(html_nodes, 1);
    assert_eq!(layout.arena.len(), 1);
}

#[test]
fn style_attribute_is_resolved() {
    let doc = element(
        "div",
        vec![
            (String::from("lang"), String::from("en")),
            (String::from("style"), String::from("color: red; position: relative;")),
        ],
        vec![],
    );
    let layout = Layout::compute(&doc);
    assert_eq!(layout.arena.len(), 2);
    let div = &layout.arena[1].node;
    assert_eq!(div.name, "div");
    // every attribute is copied verbatim
    assert_eq!(div.attrs.len(), 2);
    assert_eq!(div.attrs[0], (String::from("lang"), String::from("en")));
    let style = div.style.as_ref().expect("style resolved");
    assert_eq!(style.color, Some(rgb(255, 0, 0)));
    assert_eq!(style.position, Position::Relative);
}

#[test]
fn text_nodes_attach_to_parent_with_collapsed_text() {
    let doc = element(
        "p",
        vec![],
        vec![HtmlNode::Text { text: String::from("hello   there\n world") }],
    );
    let layout = Layout::compute(&doc);
    assert_eq!(layout.arena.len(), 3);
    let text = &layout.arena[2].node;
    assert_eq!(text.name, "");
    assert_eq!(text.text, "hello there world");
    assert_eq!(layout.arena[2].parent, 1);
}

#[test]
fn other_nodes_pass_children_through() {
    let doc = HtmlNode::Other {
        children: vec![
            HtmlNode::Other { children: vec![element("a", vec![], vec![])] },
            element("b", vec![], vec![]),
        ],
    };
    let layout = Layout::compute(&doc);
    assert_eq!(layout.arena.len(), 3);
    assert_eq!(layout.arena[1].node.name, "a");
    assert_eq!(layout.arena[2].node.name, "b");
    assert_eq!(layout.arena[1].parent, 0);
    assert_eq!(layout.arena[2].parent, 0);
}

#[test]
fn default_layout_has_root_and_default_stylesheet() {
    let layout = Layout::default();
    assert_eq!(layout.arena.len(), 1);
    assert_eq!(layout.arena[0].node.name, "html");
    assert_eq!(layout.root_id(), 0);
    assert!(!layout.style.rules.is_empty());
}

#[test]
fn dom_node_text_and_bounds() {
    let mut node = DOMNode::new("p");
    assert_eq!(node.name, "p");
    node.set_text("a  b");
    assert_eq!(node.text, "a b");

    let widths: Vec<u64> = vec![7, 2, 9];
    assert_eq!(node.bounds(&widths), 18);

    let t = DOMNode::text_node("x\t\ty");
    assert_eq!(t.text, "x y");
    assert_eq!(t.name, "");

    let root = DOMNode::root();
    assert_eq!(root.name, "html");
    assert_eq!(root.text, "");
}

#[test]
fn bounds_saturates_at_the_largest_width() {
    let mut node = DOMNode::default();
    node.set_text("ab");
    let widths: Vec<u64> = vec![u64::MAX, 5];
    assert_eq!(node.bounds(&widths), u64::MAX);
}
