use vstd::prelude::*;

verus! {

/// The error that `str::parse` reports when a text is not a number. Nothing is
/// known of its contents here; a value of it is only carried along.
#[verifier::external_type_specification]
#[verifier::external_body]
pub struct ExParseFloatError(std::num::ParseFloatError);

/// Why a source text could not be turned into tokens.
#[derive(Debug, PartialEq, Eq)]
pub enum LoxError {
    /// A character that starts no token.
    UnexpectedCharacter(char),
    /// A string literal whose closing quote is missing.
    UnterminatedString,
    /// A number literal that denotes no number. The scanner never reports it:
    /// it hands numbers out as numerals, and this variant is for whoever
    /// converts them.
    ParseFloatError(std::num::ParseFloatError),
}

} // verus!
