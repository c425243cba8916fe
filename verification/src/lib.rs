//! Building documents in the ROFF format, such as manual pages.
//!
//! ROFF is a family of Unix text-formatting languages, implemented by the
//! `nroff`, `troff` and `groff` programs, among others. A [`Roff`] is an
//! abstract representation of a document in that format: control lines and
//! text lines, kept as the caller gave them and escaped when the document is
//! rendered, so that no text can be mistaken for control syntax.

pub mod document;
pub mod escape;
pub mod fragment;
pub mod inline;
pub mod line;
pub mod oracle;
pub mod page;
pub mod preamble;
pub mod span;
pub mod text;
pub mod title;

pub use document::{Roff, RoffBuilder};
pub use inline::{bold, italic, line_break, roman, Inline};
