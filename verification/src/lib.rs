//! Front end of a small expression language: a lexical scanner that turns
//! source text into a stream of classified tokens, and a recursive-descent
//! parser that builds an expression tree from that stream.
//!
//! Both components are specified against mathematical models: the scanner
//! against a functional description of one left-to-right pass over the
//! source characters, the parser against a functional description of the
//! precedence-climbing grammar over the token sequence.

pub mod error;
pub mod expr;
pub mod parser;
pub mod scanner;
pub mod token;
