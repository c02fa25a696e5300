//! The layout tree builder: walks an externally parsed document tree
//! depth-first, creates one arena entry per node, resolves each element's
//! inline style through the CSS parser, and keeps a single root. An element
//! named `html` overwrites the root entry in place instead of being appended
//! as a child — that merge is an explicit invariant of the tree.

use vstd::prelude::*;

use crate::chars::str_eq;
use crate::dom::{attrs_view, spec_collapse_ws, spec_empty_dom_node, DOMNode, DomNodeView};
use crate::style::{DeclView, Declaration, ParserMode};
use crate::stylesheet::{spec_from_css, spec_parse_inline, GlobalStyle, DEFAULT_CSS};

verus! {

/// One node of an externally parsed document: an element with a tag name, an
/// attribute list and children; a text node; or any other node (a comment,
/// the document root) whose children are still walked.
#[derive(Debug, PartialEq)]
pub enum HtmlNode {
    Element { name: String, attrs: Vec<(String, String)>, children: Vec<HtmlNode> },
    Text { text: String },
    Other { children: Vec<HtmlNode> },
}

/// One arena entry of the layout tree: a node and the index of its parent.
/// The root is its own parent.
#[derive(Debug, Clone, PartialEq)]
pub struct LayoutNode {
    pub node: DOMNode,
    pub parent: usize,
}

/// The mathematical value of a `LayoutNode`.
#[verifier::ext_equal]
pub ghost struct LayoutNodeView {
    pub node: DomNodeView,
    pub parent: int,
}

impl View for LayoutNode {
    type V = LayoutNodeView;

    open spec fn view(&self) -> LayoutNodeView {
        LayoutNodeView { node: self.node@, parent: self.parent as int }
    }
}

/// The resolved style of an element: its last `style` attribute parsed as an
/// inline style, or unset when it has none. Every other attribute is copied
/// verbatim with no interpretation.
pub open spec fn spec_style_of_attrs(attrs: Seq<(Seq<char>, Seq<char>)>) -> Option<DeclView>
    decreases attrs.len(),
{
    if attrs.len() == 0 {
        None
    } else if attrs.last().0 == "style"@ {
        Some(spec_parse_inline(attrs.last().1))
    } else {
        spec_style_of_attrs(attrs.drop_last())
    }
}

/// The layout node an element becomes: its tag name, a copy of its
/// attributes, and its inline style resolved.
pub open spec fn spec_element_dom(name: Seq<char>, attrs: Seq<(Seq<char>, Seq<char>)>) -> DomNodeView {
    DomNodeView { name, attrs, style: spec_style_of_attrs(attrs), ..spec_empty_dom_node() }
}

/// The layout node a text node becomes: bare, with the text collapsed.
pub open spec fn spec_text_dom(text: Seq<char>) -> DomNodeView {
    DomNodeView { text: spec_collapse_ws(text), ..spec_empty_dom_node() }
}

/// Adding one node to the arena: a node named `html` overwrites the root
/// entry in place (keeping the root's parent) and yields the root index;
/// any other node is appended under the given parent.
pub open spec fn spec_add_node(arena: Seq<LayoutNodeView>, dn: DomNodeView, parent: int) -> (
    Seq<LayoutNodeView>,
    int,
) {
    if dn.name == "html"@ {
        (arena.update(0, LayoutNodeView { node: dn, parent: arena[0].parent }), 0)
    } else {
        (arena.push(LayoutNodeView { node: dn, parent }), arena.len() as int)
    }
}

/// The arena after walking one document node depth-first: an element is
/// added (children under it), a text node is appended to the parent, any
/// other node only passes its children through.
pub open spec fn spec_build(arena: Seq<LayoutNodeView>, node: HtmlNode, parent: int) -> Seq<
    LayoutNodeView,
>
    decreases node, 1int,
{
    match node {
        HtmlNode::Element { name, attrs, children } => {
            let added = spec_add_node(arena, spec_element_dom(name@, attrs_view(attrs@)), parent);
            spec_build_list(added.0, children, 0, added.1)
        },
        HtmlNode::Text { text } => arena.push(
            LayoutNodeView { node: spec_text_dom(text@), parent },
        ),
        HtmlNode::Other { children } => spec_build_list(arena, children, 0, parent),
    }
}

/// The arena after walking the children from index `i` on, in order.
pub open spec fn spec_build_list(
    arena: Seq<LayoutNodeView>,
    children: Vec<HtmlNode>,
    i: int,
    parent: int,
) -> Seq<LayoutNodeView>
    decreases children, children@.len() - i,
{
    if i < 0 || i >= children@.len() {
        arena
    } else {
        spec_build_list(spec_build(arena, children@[i], parent), children, i + 1, parent)
    }
}

/// Exactly the root entry bears the root element's name: a node of the
/// arena is named `html` if and only if it is entry zero.
pub open spec fn root_only_html(arena: Seq<LayoutNodeView>) -> bool {
    arena.len() >= 1 && (forall|j: int|
        0 <= j < arena.len() ==> (((#[trigger] arena[j]).node.name == "html"@) <==> j == 0))
}

proof fn lemma_add_node_root_only(arena: Seq<LayoutNodeView>, dn: DomNodeView, parent: int)
    requires
        root_only_html(arena),
    ensures
        root_only_html(spec_add_node(arena, dn, parent).0),
        spec_add_node(arena, dn, parent).0.len() >= arena.len(),
{
}

proof fn lemma_build_root_only(arena: Seq<LayoutNodeView>, node: HtmlNode, parent: int)
    requires
        root_only_html(arena),
    ensures
        root_only_html(spec_build(arena, node, parent)),
        spec_build(arena, node, parent).len() >= arena.len(),
    decreases node, 1int,
{
    match node {
        HtmlNode::Element { name, attrs, children } => {
            let added = spec_add_node(arena, spec_element_dom(name@, attrs_view(attrs@)), parent);
            lemma_add_node_root_only(arena, spec_element_dom(name@, attrs_view(attrs@)), parent);
            lemma_build_list_root_only(added.0, children, 0, added.1);
        },
        HtmlNode::Text { text } => {
            reveal_strlit("html");
            assert("html"@.len() == 4);
            assert(spec_text_dom(text@).name.len() == 0);
        },
        HtmlNode::Other { children } => {
            lemma_build_list_root_only(arena, children, 0, parent);
        },
    }
}

proof fn lemma_build_list_root_only(
    arena: Seq<LayoutNodeView>,
    children: Vec<HtmlNode>,
    i: int,
    parent: int,
)
    requires
        root_only_html(arena),
    ensures
        root_only_html(spec_build_list(arena, children, i, parent)),
        spec_build_list(arena, children, i, parent).len() >= arena.len(),
    decreases children, children@.len() - i,
{
    if 0 <= i < children@.len() {
        lemma_build_root_only(arena, children@[i], parent);
        lemma_build_list_root_only(spec_build(arena, children@[i], parent), children, i + 1, parent);
    }
}

/// The arena a fresh layout starts with: the bare root entry, named `html`,
/// its own parent.
pub open spec fn spec_initial_arena() -> Seq<LayoutNodeView> {
    seq![
        LayoutNodeView {
            node: (DomNodeView { name: "html"@, ..spec_empty_dom_node() }),
            parent: 0,
        },
    ]
}

/// Root merge invariant: building a layout tree from any document yields an
/// arena in which exactly one entry — the root — bears the root element's
/// name `html`, never two: an element named `html` overwrites the root in
/// place instead of being appended.
pub proof fn lemma_root_merge_invariant(doc: HtmlNode)
    ensures
        root_only_html(spec_build(spec_initial_arena(), doc, 0)),
{
    let ia = spec_initial_arena();
    assert(ia.len() == 1);
    assert(ia[0].node.name == "html"@);
    assert(root_only_html(ia));
    lemma_build_root_only(ia, doc, 0);
}

/// The computed layout tree: a flat arena of positioned, styled nodes
/// (children refer to parents by index, the root is entry zero) together
/// with the stylesheet in force.
#[derive(Debug, PartialEq)]
pub struct Layout {
    /// The node arena. Has a root node by default.
    pub arena: Vec<LayoutNode>,
    root_id: usize,
    pub style: GlobalStyle,
}

/// The mathematical value of a `Layout`.
#[verifier::ext_equal]
pub ghost struct LayoutView {
    pub arena: Seq<LayoutNodeView>,
    pub root: int,
    pub style: Seq<(Seq<char>, DeclView)>,
}

impl View for Layout {
    type V = LayoutView;

    closed spec fn view(&self) -> LayoutView {
        LayoutView {
            arena: self.arena@.map_values(|n: LayoutNode| n@),
            root: self.root_id as int,
            style: self.style@,
        }
    }
}

impl Default for Layout {
    /// A layout holding only the root entry, with the built-in default
    /// stylesheet.
    fn default() -> (r: Self)
        ensures
            r@.arena == spec_initial_arena(),
            r@.root == 0,
            r@.style == spec_from_css(DEFAULT_CSS@, ParserMode::DefaultCss),
    {
        let mut arena: Vec<LayoutNode> = Vec::new();
        arena.push(LayoutNode { node: DOMNode::root(), parent: 0 });
        let r = Layout { arena, root_id: 0, style: GlobalStyle::default_css() };
        proof {
            assert(r@.arena =~= spec_initial_arena());
        }
        r
    }
}

impl Layout {
    /// The index of the root entry.
    pub fn root_id(&self) -> (r: usize)
        ensures
            r as int == self@.root,
    {
        self.root_id
    }

    /// Builds the layout tree of a parsed document: a depth-first walk
    /// mirroring the source tree, from a fresh root-only arena.
    pub fn compute(document: &HtmlNode) -> (r: Layout)
        ensures
            r@.arena == spec_build(spec_initial_arena(), *document, 0),
            r@.root == 0,
            r@.style == spec_from_css(DEFAULT_CSS@, ParserMode::DefaultCss),
            root_only_html(r@.arena),
    {
        let mut layout = Layout::default();
        layout.compute_node(document, 0);
        proof {
            lemma_root_merge_invariant(*document);
        }
        layout
    }

    /// Walks one document node and its children, adding their layout nodes
    /// under the given parent.
    #[verifier::loop_isolation(false)]
    fn compute_node(&mut self, html_node: &HtmlNode, parent: usize)
        requires
            old(self)@.arena.len() >= 1,
        ensures
            final(self)@.arena == spec_build(old(self)@.arena, *html_node, parent as int),
            final(self)@.root == old(self)@.root,
            final(self)@.style == old(self)@.style,
            final(self)@.arena.len() >= old(self)@.arena.len(),
        decreases *html_node,
    {
        match html_node {
            HtmlNode::Element { name, attrs, children } => {
                let new_parent = self.handle_element(name.as_str(), attrs, parent);
                let ghost after_el = self@.arena;
                let ghost np = new_parent as int;
                let mut i: usize = 0;
                while i < children.len()
                    invariant
                        i <= children@.len(),
                        self@.arena.len() >= after_el.len() >= 1,
                        self@.root == old(self)@.root,
                        self@.style == old(self)@.style,
                        spec_build_list(self@.arena, *children, i as int, np) == spec_build_list(
                            after_el,
                            *children,
                            0,
                            np,
                        ),
                    decreases children@.len() - i,
                {
                    proof {
                        assert((*html_node)->Element_children == *children);
                        assert(decreases_to!(*html_node => (*html_node)->Element_children));
                        assert(decreases_to!(*children => children@));
                        assert(decreases_to!(children@ => children@[i as int]));
                    }
                    self.compute_node(&children[i], new_parent);
                    i = i + 1;
                }
            },
            HtmlNode::Text { text } => {
                let node = DOMNode::text_node(text.as_str());
                self.arena.push(LayoutNode { node, parent });
                proof {
                    assert(self@.arena =~= old(self)@.arena.push(
                        LayoutNodeView { node: spec_text_dom(text@), parent: parent as int },
                    ));
                }
            },
            HtmlNode::Other { children } => {
                let ghost before = self@.arena;
                let mut i: usize = 0;
                while i < children.len()
                    invariant
                        i <= children@.len(),
                        self@.arena.len() >= before.len() >= 1,
                        self@.root == old(self)@.root,
                        self@.style == old(self)@.style,
                        spec_build_list(self@.arena, *children, i as int, parent as int)
                            == spec_build_list(before, *children, 0, parent as int),
                    decreases children@.len() - i,
                {
                    proof {
                        assert((*html_node)->Other_children == *children);
                        assert(decreases_to!(*html_node => (*html_node)->Other_children));
                        assert(decreases_to!(*children => children@));
                        assert(decreases_to!(children@ => children@[i as int]));
                    }
                    self.compute_node(&children[i], parent);
                    i = i + 1;
                }
            },
        }
    }

    /// Builds the layout node of one element — tag name, attribute copies,
    /// resolved inline style — and adds it to the arena.
    fn handle_element(&mut self, name: &str, attrs: &Vec<(String, String)>, parent: usize) -> (id:
        usize)
        requires
            old(self)@.arena.len() >= 1,
        ensures
            final(self)@.arena == spec_add_node(
                old(self)@.arena,
                spec_element_dom(name@, attrs_view(attrs@)),
                parent as int,
            ).0,
            id as int == spec_add_node(
                old(self)@.arena,
                spec_element_dom(name@, attrs_view(attrs@)),
                parent as int,
            ).1,
            final(self)@.root == old(self)@.root,
            final(self)@.style == old(self)@.style,
            final(self)@.arena.len() >= old(self)@.arena.len(),
            (id as int) < final(self)@.arena.len(),
    {
        let mut node = DOMNode::new(name);
        let mut i: usize = 0;
        while i < attrs.len()
            invariant
                i <= attrs@.len(),
                node@ == (DomNodeView {
                    name: name@,
                    attrs: attrs_view(attrs@.take(i as int)),
                    style: spec_style_of_attrs(attrs_view(attrs@.take(i as int))),
                    ..spec_empty_dom_node()
                }),
            decreases attrs@.len() - i,
        {
            let ghost prev_attrs = node.attrs@;
            let (k, v) = &attrs[i];
            node.attrs.push((k.clone(), v.clone()));
            if str_eq(k.as_str(), "style") {
                node.style = Some(Declaration::from_inline(v.as_str()));
            }
            proof {
                assert(attrs_view(attrs@.take(i as int + 1)).drop_last() =~= attrs_view(
                    attrs@.take(i as int),
                ));
                assert(node.attrs@[i as int].0@ == attrs@[i as int].0@);
                assert(node.attrs@[i as int].1@ == attrs@[i as int].1@);
                assert forall|j: int| 0 <= j < i as int + 1 implies attrs_view(node.attrs@)[j]
                    == attrs_view(attrs@.take(i as int + 1))[j] by {
                    if j < i as int {
                        assert(attrs_view(node.attrs@)[j] == (node.attrs@[j].0@, node.attrs@[j].1@));
                        assert(node.attrs@[j] == prev_attrs[j]);
                        assert(attrs_view(prev_attrs)[j] == (prev_attrs[j].0@, prev_attrs[j].1@));
                        assert(attrs_view(prev_attrs) == attrs_view(attrs@.take(i as int)));
                        assert(attrs_view(attrs@.take(i as int))[j] == attrs_view(
                            attrs@.take(i as int + 1),
                        )[j]);
                    }
                }
                assert(node@.attrs =~= attrs_view(attrs@.take(i as int + 1)));
                assert(node@ =~= (DomNodeView {
                    name: name@,
                    attrs: attrs_view(attrs@.take(i as int + 1)),
                    style: spec_style_of_attrs(attrs_view(attrs@.take(i as int + 1))),
                    ..spec_empty_dom_node()
                }));
            }
            i = i + 1;
        }
        proof {
            assert(attrs@.take(attrs@.len() as int) =~= attrs@);
            assert(node@ =~= spec_element_dom(name@, attrs_view(attrs@)));
        }
        self.add_node(node, parent)
    }

    /// Adds one layout node to the arena: a node named `html` overwrites the
    /// root entry in place (the single-root invariant), any other node is
    /// appended under the given parent.
    fn add_node(&mut self, node: DOMNode, parent: usize) -> (id: usize)
        requires
            old(self)@.arena.len() >= 1,
        ensures
            final(self)@.arena == spec_add_node(old(self)@.arena, node@, parent as int).0,
            id as int == spec_add_node(old(self)@.arena, node@, parent as int).1,
            final(self)@.root == old(self)@.root,
            final(self)@.style == old(self)@.style,
            final(self)@.arena.len() >= old(self)@.arena.len(),
            (id as int) < final(self)@.arena.len(),
    {
        let ghost nv = node@;
        if str_eq(node.name.as_str(), "html") {
            let p0 = self.arena[0].parent;
            self.arena[0] = LayoutNode { node, parent: p0 };
            proof {
                assert(self@.arena =~= old(self)@.arena.update(
                    0,
                    LayoutNodeView { node: nv, parent: old(self)@.arena[0].parent },
                ));
            }
            0
        } else {
            self.arena.push(LayoutNode { node, parent });
            proof {
                assert(self@.arena =~= old(self)@.arena.push(
                    LayoutNodeView { node: nv, parent: parent as int },
                ));
            }
            self.arena.len() - 1
        }
    }
}

} // verus!
