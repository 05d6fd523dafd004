//! Renders a book's chapters, each already parsed into a markdown document
//! tree, into a structured intermediate representation of roff formatting
//! primitives (bold and italic runs, paragraphs, indented examples,
//! hyperlinks, line breaks) that a downstream formatter serializes as
//! manual-page text.
//!
//! The core is a single-pass, context-sensitive tree walk: a small state
//! machine that remembers the significant kind of the most recently visited
//! node and decides, for every text-bearing node, which roff construct to
//! emit.

pub mod ast;
pub mod book;
pub mod convert;
pub mod output;

pub use ast::MarkdownNode;
pub use ast::MdNode;
pub use ast::NodeKind;
pub use book::mdbook_to_roff;
pub use book::mdbook_to_roff_chapters;
pub use book::Book;
pub use book::BookItem;
pub use book::Chapter;
pub use book::Document;
pub use book::Section;
pub use convert::markdown_to_roff;
pub use convert::Parser;
pub use output::OutputNode;
pub use output::OutputView;
