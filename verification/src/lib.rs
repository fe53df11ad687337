//! Lexical-analysis front end for a small Go-like language.
//!
//! The scanner turns a byte source into a stream of classified tokens,
//! one per call, under the maximal-munch rule. Every token and every
//! lexical error is pinned down by the spec-level scan function in
//! [`scan`], which the executable scanner in [`lexer`] is proved to
//! follow exactly; the laws in [`laws`] hold of every run.
//!
//! Opening and reading the source file is the host program's work:
//! the scanner takes exclusive ownership of the bytes it is handed
//! and reports a lexical error, rather than stopping the process, so
//! the consumer decides how to fail.

pub mod argparse;
pub mod laws;
pub mod lexer;
pub mod parser;
pub mod scan;
pub mod token;
