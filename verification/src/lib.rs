use vstd::prelude::*;

/// The syntax tree: spans, types, expressions, statements and programs.
pub mod ast;
/// Text helpers: decimal digits, UTF-8 widths and decimal literals.
pub mod text;
/// Lexical tokens and their debug text.
pub mod token;
/// The lexer: source text to tokens with byte ranges.
pub mod lexer;
/// The grammar as spec functions over tokens.
pub mod grammar;
/// The recursive-descent parser, proved against the grammar.
pub mod parser;
/// Nested variable scopes.
pub mod scope;
/// Type rules: compatibility, C types and inference.
pub mod typing;
/// C text of expressions.
pub mod emit;
/// C text of statements and the checks on calls.
pub mod emit_stmt;
/// C text of whole programs.
pub mod codegen;
/// Reading sources, merging imported programs and front-end messages.
pub mod driver;
/// How operators, conversions and words are spelled from source to C.
pub mod spelling;

verus! {

} // verus!
