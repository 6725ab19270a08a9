//! A front end for the C language: a tokenizer and a recursive-descent parser
//! that turn source text into an abstract syntax tree.
//!
//! Every executable function carries a contract over a mathematical model of
//! its data: a source text is a sequence of characters, a token sequence is a
//! sequence of token views, and each syntax tree has a view in which text is a
//! sequence of characters and every collection is a sequence.

pub mod util;
pub mod tokenizer;
pub mod text;
pub mod lexical;
pub mod parser;
