//! Parsing of TDX-style indicator formulas: a lexer, a Pratt parser and the
//! verified building blocks of formula evaluation.
#![allow(unused_imports)]

pub mod ast;
pub mod builtins;
pub mod chars;
pub mod decimal;
pub mod diagnostics;
pub mod environment;
pub mod formula_laws;
pub mod lexer;
pub mod lexer_laws;
pub mod parser;
pub mod plan;
pub mod parser_laws;
pub mod text_laws;
pub mod token;
pub mod windows;
