//! A minimal stylesheet engine: a hand-written CSS tokenizer/parser that turns
//! raw stylesheet text into a typed style model, and a tree-building pass that
//! attaches resolved style declarations and positions to each element of a
//! parsed document, producing a layout tree.

pub mod chars;
pub mod color;
pub mod dimension;
pub mod dom;
pub mod layout;
pub mod normalize;
pub mod style;
pub mod stylesheet;

pub use dimension::{Dimension, Scalar, Unit};
pub use dom::{DOMNode, Pos2};
pub use layout::{HtmlNode, Layout, LayoutNode};
pub use normalize::remove_comments_and_extra_whitespace;
pub use style::{Declaration, Display, FontFamily, ParserMode, Position};
pub use stylesheet::{CssParser, GlobalStyle};
