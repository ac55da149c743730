//! A compiler from a small document-markup language to HTML.
//!
//! A document is compiled in three steps. Preprocessing resolves the
//! directives of the source by rewriting its text ([`preproc`] resolves them
//! in the order in which they stand, [`preprocess`] stage by stage; both run
//! the loop of [`pipeline`]). Parsing
//! turns the markup that is left into a tree ([`parse`]). Code generation
//! renders the tree to HTML ([`code_gen`]). Escape protection ([`escape`])
//! keeps the characters that the author escaped out of the way of all three
//! and puts them back at the end. [`compile`] runs the three steps in a row
//! and tells a driver which file to read next.
//!
//! Every function states what it returns over the mathematical value of its
//! arguments, and every error is a value ([`error::Diagnostic`]): the library
//! neither prints nor exits, and it reads no file. The few calls into other crates stand in
//! [`outside`].

pub mod code_gen;
pub mod compile;
pub mod error;
pub mod escape;
pub mod files;
pub mod format;
pub mod ipa_trans;
pub mod lang_util;
pub mod macros;
pub mod outside;
pub mod parse;
pub mod pipeline;
pub mod postprocess;
pub mod preproc;
pub mod preprocess;
pub mod special_ffmt;
pub mod text;
pub mod unicode;
