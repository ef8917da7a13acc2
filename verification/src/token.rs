use vstd::prelude::*;
use crate::object::Object;
use crate::object::ObjectView;
use crate::token_type::TokenType;

verus! {

/// A classified piece of the source: its kind, the text that it was written
/// as, the value that it denotes if it is a literal, and the line that it
/// ends on.
#[derive(Debug, Clone, PartialEq)]
pub struct Token {
    token_type: TokenType,
    lexeme: String,
    literal: Option<Object>,
    line: u32,
}

/// What a `Token` holds.
pub struct TokenView {
    pub token_type: TokenType,
    pub lexeme: Seq<char>,
    pub literal: Option<ObjectView>,
    pub line: nat,
}

/// What an optional value holds.
pub open spec fn literal_view(literal: Option<Object>) -> Option<ObjectView> {
    match literal {
        Some(value) => Some(value@),
        None => None,
    }
}

/// What each token of `tokens` holds, in order.
pub open spec fn token_views(tokens: Seq<Token>) -> Seq<TokenView> {
    tokens.map_values(|token: Token| token@)
}

impl View for Token {
    type V = TokenView;

    closed spec fn view(&self) -> TokenView {
        TokenView {
            token_type: self.token_type,
            lexeme: self.lexeme@,
            literal: literal_view(self.literal),
            line: self.line as nat,
        }
    }
}

impl Token {
    pub fn new(
        token_type: TokenType,
        lexeme: String,
        literal: Option<Object>,
        line: u32,
    ) -> (token: Self)
        ensures
            token@ == (TokenView {
                token_type,
                lexeme: lexeme@,
                literal: literal_view(literal),
                line: line as nat,
            }),
    {
        Self { token_type, lexeme, literal, line }
    }

    /// The kind of the token.
    pub fn token_type(&self) -> (token_type: TokenType)
        ensures
            token_type == self@.token_type,
    {
        self.token_type
    }

    /// The text that the token was written as.
    pub fn lexeme(&self) -> (lexeme: &str)
        ensures
            lexeme@ == self@.lexeme,
    {
        self.lexeme.as_str()
    }

    /// The value that the token denotes, if it is a literal.
    pub fn literal(&self) -> (literal: Option<&Object>)
        ensures
            literal matches Some(value) ==> self@.literal == Some(value@),
            literal is None ==> self@.literal is None,
    {
        self.literal.as_ref()
    }

    /// The line that the token ends on, counted from 1.
    pub fn line(&self) -> (line: u32)
        ensures
            line == self@.line,
    {
        self.line
    }
}

} // verus!
