//! A lexical scanner for a small scripting language.
//!
//! [`scanner::Scanner`] turns source text into a sequence of [`token::Token`]s
//! that always ends with an end-of-input token. Malformed input never stops a
//! scan: it is recorded as a [`diagnostic::Diagnostic`] and scanning resumes
//! with the next character.
//!
//! What a scan produces is defined in [`grammar`] as a mathematical function
//! of the text, and the scanner is proved to compute exactly that function.

pub mod chars;
pub mod diagnostic;
pub mod grammar;
pub mod scanner;
pub mod theorems;
pub mod token;
