//! A scanner for a small scripting language: it turns a source text into
//! tokens, or reports the first place where it cannot.
//!
//! `lexical` says what the tokens of a text are, `scanner` reads them, and
//! `theorems` states what holds of them.

pub mod characters;
pub mod error;
pub mod lemmas;
pub mod lexical;
pub mod object;
pub mod scanner;
pub mod text;
pub mod theorems;
pub mod token;
pub mod token_type;
