//! Structural queries over concrete syntax trees.
//!
//! A query such as `(call args: (expr_args _* (atom)@name _*))` is compiled
//! into a [`pattern::Pattern`] by [`compile::compile`], matched against every
//! node of a [`tree::SyntaxNode`] in document order by [`engine::matches`],
//! and what it captured is written out, with start rows and source text, by
//! [`report::report`]. [`driver::query_file`] does the last two for one file.
//!
//! The library does not parse source files: a tree is built by whoever has a
//! parser, node by node, with [`tree::SyntaxNode::new`] and its builders.
//! Kinds and field names are plain strings, so no grammar is compiled in.
//!
//! Every function is verified against a contract over mathematical values:
//! [`tree::NodeView`] for trees, [`pattern::PatternView`] for patterns,
//! sequences of [`engine::CaptureView`] for matches. The modules [`laws`] and
//! [`render`] hold what is proved of the engine and of the compiler as a
//! whole.
pub mod compile;
pub mod driver;
pub mod engine;
pub mod laws;
pub mod pattern;
pub mod render;
pub mod report;
pub mod tree;
