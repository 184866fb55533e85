//! A small expression language: scanning source text into tokens, parsing
//! tokens into a syntax tree by recursive descent, and evaluating the tree.
//!
//! - `token`: token kinds, literal values, tokens and the reserved words.
//! - `scanner`: source text to tokens.
//! - `expression`: the syntax tree and its visitors.
//! - `parser`: tokens to a syntax tree.
//! - `interpreter`: a syntax tree to a value.
//! - `ast_printer`: a syntax tree as text.
//! - `pipeline`: a line of source text to a value or a diagnostic.
//! - `number`: order, equality and negation of numbers.
//! - `text`: character classes and strings.
//!
//! Numbers are double-precision values held by their IEEE-754 binary64
//! encoding. Ordering, equality and negation of numbers are computed on the
//! encoding itself; reading a decimal literal, the four arithmetic operations
//! and printing a number are done by functions that the caller supplies.

pub mod ast_printer;
pub mod expression;
pub mod interpreter;
pub mod number;
pub mod parser;
pub mod pipeline;
pub mod scanner;
pub mod text;
pub mod token;
