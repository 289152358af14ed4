//! A small templating engine: a document tree of tags, comments and text,
//! a renderer that writes the tree as markup, and a parser for a
//! parenthesised, Lisp-like notation that builds such trees.
pub mod document;
pub mod laws;
pub mod markup;
pub mod parse;

pub use document::{Comment, Content, Html, IntoContent, IntoStr, Render, RenderError, Str, Tag};
pub use parse::{hteaml, ErrorKind, ParseError, Slot, Token};
