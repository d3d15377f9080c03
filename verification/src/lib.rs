//! A recursive-descent parser for a compact, whitespace-tolerant markup
//! language: a tree of tagged elements with `#id`/`.class` selectors,
//! `(key: value)` attribute lists, and nested or textual bodies — together
//! with an HTML rendering of the parsed tree.
//!
//! The grammar is stated once, as specification functions over the input's
//! characters (`grammar`), and the executable parser (`scan`, `parsing`,
//! `api`) is proved to compute exactly those functions.  Laws that hold of
//! all inputs — complete identifier consumption, determinism, comment
//! permissiveness — are proved in `laws`.

pub mod api;
pub mod ast;
pub mod error;
pub mod grammar;
pub mod html;
pub mod laws;
pub mod parsing;
pub mod scan;

pub use api::anyparen;
pub use api::parse;
pub use ast::Attribute;
pub use ast::Attributes;
pub use ast::Body;
pub use ast::Element;
pub use ast::IdOrClass;
pub use ast::Ident;
pub use ast::KeywordEof;
pub use ast::Node;
pub use ast::StringInline;
pub use error::ErrorKind;
pub use error::ParseError;
pub use html::escape;
pub use html::indent;
pub use html::to_html;
pub use html::to_html_node;
pub use html::OutputConfig;
