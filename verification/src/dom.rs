//! One element's resolved, positioned representation in the layout tree: a
//! node carrying its tag name, a copy of its attributes, its inline style
//! resolved to a `Declaration`, and a position.

use vstd::prelude::*;

use crate::chars::{chars_of, is_ws_char, is_whitespace_char, string_of};
use crate::normalize::emit;
use crate::style::{DeclView, Declaration};
use crate::stylesheet::spec_parse_inline;

verus! {

/// A two-dimensional point, in pixels.
#[derive(Debug, Clone, Copy, PartialEq, Eq, Structural)]
pub struct Pos2 {
    pub x: i64,
    pub y: i64,
}

impl Pos2 {
    pub fn new(x: i64, y: i64) -> (r: Pos2)
        ensures
            r == (Pos2 { x, y }),
    {
        Pos2 { x, y }
    }
}

/// One node of the layout tree.
#[derive(Debug, Clone, PartialEq)]
pub struct DOMNode {
    pub pos: Pos2,
    pub name: String,
    pub attrs: Vec<(String, String)>,
    pub id: String,
    pub style: Option<Declaration>,
    /// Node text, if it is a text node. This is NOT the inner text of the
    /// node; it is a part of the inner text of another node.
    pub text: String,
}

/// The mathematical value of a `DOMNode`.
#[verifier::ext_equal]
pub ghost struct DomNodeView {
    pub pos: Pos2,
    pub name: Seq<char>,
    pub attrs: Seq<(Seq<char>, Seq<char>)>,
    pub id: Seq<char>,
    pub style: Option<DeclView>,
    pub text: Seq<char>,
}

/// The attribute list as pairs of character sequences.
pub open spec fn attrs_view(a: Seq<(String, String)>) -> Seq<(Seq<char>, Seq<char>)> {
    a.map_values(|p: (String, String)| (p.0@, p.1@))
}

impl View for DOMNode {
    type V = DomNodeView;

    open spec fn view(&self) -> DomNodeView {
        DomNodeView {
            pos: self.pos,
            name: self.name@,
            attrs: attrs_view(self.attrs@),
            id: self.id@,
            style: match self.style {
                Some(d) => Some(d@),
                None => None,
            },
            text: self.text@,
        }
    }
}

/// The empty node: at the origin, unnamed, without attributes, style or
/// text.
pub open spec fn spec_empty_dom_node() -> DomNodeView {
    DomNodeView {
        pos: Pos2 { x: 0, y: 0 },
        name: Seq::empty(),
        attrs: Seq::empty(),
        id: Seq::empty(),
        style: None,
        text: Seq::empty(),
    }
}

impl Default for DOMNode {
    /// The empty node.
    fn default() -> (r: Self)
        ensures
            r@ == spec_empty_dom_node(),
    {
        let r = DOMNode {
            pos: Pos2 { x: 0, y: 0 },
            name: String::new(),
            attrs: Vec::new(),
            id: String::new(),
            style: None,
            text: String::new(),
        };
        proof {
            assert(r@.attrs =~= spec_empty_dom_node().attrs);
            assert(r@ =~= spec_empty_dom_node());
        }
        r
    }
}

/// Text with every run of consecutive whitespace characters collapsed into
/// one plain space, scanning from position `i`.
pub open spec fn collapse_from(s: Seq<char>, i: int) -> Seq<char>
    decreases s.len() - i,
{
    if i < 0 || i >= s.len() {
        Seq::empty()
    } else {
        let rest = collapse_from(s, i + 1);
        if i > 0 && is_ws_char(s[i]) && is_ws_char(s[i - 1]) {
            rest
        } else {
            seq![emit(s[i])] + rest
        }
    }
}

/// Text with whitespace runs collapsed, each to a single space.
pub open spec fn spec_collapse_ws(s: Seq<char>) -> Seq<char> {
    collapse_from(s, 0)
}

/// The per-character advance widths summed, saturating at the largest
/// representable width.
pub open spec fn sum_widths(s: Seq<u64>) -> int
    decreases s.len(),
{
    if s.len() == 0 {
        0
    } else {
        sum_widths(s.drop_last()) + s.last()
    }
}

impl DOMNode {
    /// A new node with an element name.
    pub fn new(name: &str) -> (r: Self)
        ensures
            r@ == (DomNodeView { name: name@, ..spec_empty_dom_node() }),
    {
        let r = DOMNode {
            pos: Pos2 { x: 0, y: 0 },
            name: name.to_owned(),
            attrs: Vec::new(),
            id: String::new(),
            style: None,
            text: String::new(),
        };
        proof {
            assert(r@.attrs =~= spec_empty_dom_node().attrs);
            assert(r@ =~= (DomNodeView { name: name@, ..spec_empty_dom_node() }));
        }
        r
    }

    /// A text node holding the given text, whitespace collapsed.
    pub fn text_node(text: &str) -> (r: Self)
        ensures
            r@ == (DomNodeView { text: spec_collapse_ws(text@), ..spec_empty_dom_node() }),
    {
        let mut node = DOMNode::default();
        node.set_text(text);
        node
    }

    /// Updates the node text to the given text with runs of consecutive
    /// whitespace collapsed to single spaces.
    ///
    /// Only do this on a text node; this is not meant for setting the inner
    /// text of an element node.
    pub fn set_text(&mut self, text: &str)
        ensures
            final(self)@ == (DomNodeView { text: spec_collapse_ws(text@), ..old(self)@ }),
    {
        let cs = chars_of(text);
        let mut out: Vec<char> = Vec::new();
        let mut i: usize = 0;
        while i < cs.len()
            invariant
                cs@ == text@,
                i <= cs@.len(),
                spec_collapse_ws(text@) == out@ + collapse_from(cs@, i as int),
            decreases cs@.len() - i,
        {
            let ghost prev = out@;
            let c = cs[i];
            if !(i > 0 && is_whitespace_char(c) && is_whitespace_char(cs[i - 1])) {
                if is_whitespace_char(c) {
                    out.push(' ');
                } else {
                    out.push(c);
                }
                proof {
                    assert(out@ =~= prev + seq![emit(cs@[i as int])]);
                    assert(prev + (seq![emit(cs@[i as int])] + collapse_from(cs@, i + 1)) =~= out@
                        + collapse_from(cs@, i + 1));
                }
            }
            i = i + 1;
        }
        self.text = string_of(&out);
        proof {
            assert(self@ =~= (DomNodeView { text: spec_collapse_ws(text@), ..old(self)@ }));
        }
    }

    /// The root `html` node.
    pub fn root() -> (r: Self)
        ensures
            r@ == (DomNodeView { name: "html"@, ..spec_empty_dom_node() }),
    {
        let mut node = DOMNode::default();
        node.name = String::from_str("html");
        proof {
            assert(node@ =~= (DomNodeView { name: "html"@, ..spec_empty_dom_node() }));
        }
        node
    }

    /// The width of this node's text, as the sum of the given per-character
    /// advance widths, saturating at the largest representable width. The
    /// widths come from whatever text-metrics capability the caller uses,
    /// one per character of the node text.
    pub fn bounds(&self, advances: &Vec<u64>) -> (w: u64)
        requires
            advances@.len() == self@.text.len(),
        ensures
            w as int == if sum_widths(advances@) <= u64::MAX {
                sum_widths(advances@)
            } else {
                u64::MAX as int
            },
    {
        let mut acc: u64 = 0;
        let mut i: usize = 0;
        proof {
            assert(advances@.take(0) =~= Seq::<u64>::empty());
        }
        while i < advances.len()
            invariant
                i <= advances@.len(),
                acc as int == if sum_widths(advances@.take(i as int)) <= u64::MAX {
                    sum_widths(advances@.take(i as int))
                } else {
                    u64::MAX as int
                },
            decreases advances@.len() - i,
        {
            let a = advances[i];
            proof {
                assert(advances@.take(i as int + 1).drop_last() =~= advances@.take(i as int));
                assert(advances@.take(i as int + 1).last() == advances@[i as int]);
                lemma_sum_widths_nonneg(advances@.take(i as int));
            }
            acc = if acc <= u64::MAX - a {
                acc + a
            } else {
                u64::MAX
            };
            i = i + 1;
        }
        proof {
            assert(advances@.take(advances@.len() as int) =~= advances@);
        }
        acc
    }
}

proof fn lemma_sum_widths_nonneg(s: Seq<u64>)
    ensures
        sum_widths(s) >= 0,
    decreases s.len(),
{
    if s.len() > 0 {
        lemma_sum_widths_nonneg(s.drop_last());
    }
}

} // verus!
