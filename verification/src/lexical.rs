use vstd::prelude::*;
use crate::characters::alphanumeric;
use crate::characters::is_ascii;
use crate::characters::is_blank;
use crate::characters::is_digit;
use crate::error::LoxError;
use crate::lemmas::lemma_lexeme_within;
use crate::object::ObjectView;
use crate::text::spells;
use crate::token::TokenView;
use crate::token_type::TokenType;

verus! {

/// The token that a punctuation character is, on its own.
pub open spec fn punctuation(c: char) -> Option<TokenType> {
    if c == '(' {
        Some(TokenType::LeftParen)
    } else if c == ')' {
        Some(TokenType::RightParen)
    } else if c == '{' {
        Some(TokenType::LeftBrace)
    } else if c == '}' {
        Some(TokenType::RightBrace)
    } else if c == ',' {
        Some(TokenType::Comma)
    } else if c == '.' {
        Some(TokenType::Dot)
    } else if c == '-' {
        Some(TokenType::Minus)
    } else if c == '+' {
        Some(TokenType::Plus)
    } else if c == ';' {
        Some(TokenType::Semicolon)
    } else if c == '*' {
        Some(TokenType::Star)
    } else if c == '/' {
        Some(TokenType::Slash)
    } else {
        None
    }
}

/// The two tokens that an operator character starts.
pub struct Operator {
    /// The token that the character is alone.
    pub alone: TokenType,
    /// The token that it is with `=` behind it.
    pub with_equal: TokenType,
}

/// The tokens that `c` starts, if it is an operator character.
pub open spec fn operator(c: char) -> Option<Operator> {
    if c == '!' {
        Some(Operator { alone: TokenType::Bang, with_equal: TokenType::BangEqual })
    } else if c == '=' {
        Some(Operator { alone: TokenType::Equal, with_equal: TokenType::EqualEqual })
    } else if c == '<' {
        Some(Operator { alone: TokenType::Less, with_equal: TokenType::LessEqual })
    } else if c == '>' {
        Some(Operator { alone: TokenType::Greater, with_equal: TokenType::GreaterEqual })
    } else {
        None
    }
}

/// The reserved word that `word` spells, if it spells one.
pub open spec fn keyword(word: Seq<char>) -> Option<TokenType> {
    if word == "and"@ {
        Some(TokenType::And)
    } else if word == "class"@ {
        Some(TokenType::Class)
    } else if word == "else"@ {
        Some(TokenType::Else)
    } else if word == "false"@ {
        Some(TokenType::False)
    } else if word == "for"@ {
        Some(TokenType::For)
    } else if word == "fun"@ {
        Some(TokenType::Fun)
    } else if word == "if"@ {
        Some(TokenType::If)
    } else if word == "nil"@ {
        Some(TokenType::Nil)
    } else if word == "or"@ {
        Some(TokenType::Or)
    } else if word == "print"@ {
        Some(TokenType::Print)
    } else if word == "return"@ {
        Some(TokenType::Return)
    } else if word == "super"@ {
        Some(TokenType::Super)
    } else if word == "this"@ {
        Some(TokenType::This)
    } else if word == "true"@ {
        Some(TokenType::True)
    } else if word == "var"@ {
        Some(TokenType::Var)
    } else if word == "while"@ {
        Some(TokenType::While)
    } else {
        None
    }
}

/// The kind of the token that `word` is: its reserved word, or an identifier.
pub open spec fn word_type(word: Seq<char>) -> TokenType {
    match keyword(word) {
        Some(reserved) => reserved,
        None => TokenType::Identifier,
    }
}

/// The kind of the token that the characters of `chars` from `from` up to
/// `to` spell: a reserved word, or an identifier.
pub fn classify_word(chars: &Vec<char>, from: usize, to: usize) -> (token_type: TokenType)
    requires
        from <= to <= chars.len(),
    ensures
        token_type == word_type(chars@.subrange(from as int, to as int)),
{
    if spells(chars, from, to, "and") {
        TokenType::And
    } else if spells(chars, from, to, "class") {
        TokenType::Class
    } else if spells(chars, from, to, "else") {
        TokenType::Else
    } else if spells(chars, from, to, "false") {
        TokenType::False
    } else if spells(chars, from, to, "for") {
        TokenType::For
    } else if spells(chars, from, to, "fun") {
        TokenType::Fun
    } else if spells(chars, from, to, "if") {
        TokenType::If
    } else if spells(chars, from, to, "nil") {
        TokenType::Nil
    } else if spells(chars, from, to, "or") {
        TokenType::Or
    } else if spells(chars, from, to, "print") {
        TokenType::Print
    } else if spells(chars, from, to, "return") {
        TokenType::Return
    } else if spells(chars, from, to, "super") {
        TokenType::Super
    } else if spells(chars, from, to, "this") {
        TokenType::This
    } else if spells(chars, from, to, "true") {
        TokenType::True
    } else if spells(chars, from, to, "var") {
        TokenType::Var
    } else if spells(chars, from, to, "while") {
        TokenType::While
    } else {
        TokenType::Identifier
    }
}

/// How many newlines `text` holds.
pub open spec fn newlines(text: Seq<char>) -> nat
    decreases text.len(),
{
    if text.len() == 0 {
        0
    } else {
        newlines(text.drop_last()) + if text.last() == '\n' {
            1nat
        } else {
            0nat
        }
    }
}

/// The length of the stretch of characters of the kind `of` that stands in
/// `src` from `from` on: it goes up to the first character that is not of the
/// kind, or up to the end where all are.
pub open spec fn stretch(src: Seq<char>, from: int, of: spec_fn(char) -> bool) -> nat
    decreases src.len() - from,
{
    if 0 <= from < src.len() && of(src[from]) {
        1 + stretch(src, from + 1, of)
    } else {
        0
    }
}

/// How many digits stand in `src` from `from` on, without a gap.
pub open spec fn digits(src: Seq<char>, from: int) -> nat {
    stretch(src, from, |c: char| is_digit(c))
}

/// How many letters and numerals stand in `src` from `from` on, without a gap.
pub open spec fn alphanumerics(src: Seq<char>, from: int) -> nat {
    stretch(src, from, |c: char| alphanumeric(c))
}

/// How many characters stand in `src` from `from` on before the next double
/// quote, or before the end where none follows.
pub open spec fn unquoted(src: Seq<char>, from: int) -> nat {
    stretch(src, from, |c: char| c != '"')
}

/// Where the number ends whose first digit stands at `pos`: behind its
/// digits, and behind the point and the digits of a fraction where a point
/// and a digit follow them.
pub open spec fn number_end(src: Seq<char>, pos: int) -> int {
    let whole = pos + 1 + digits(src, pos + 1);
    if whole + 1 < src.len() && src[whole] == '.' && is_digit(src[whole + 1]) {
        whole + 1 + digits(src, whole + 1)
    } else {
        whole
    }
}

/// Whether `text` is a numeral: one digit or more, which a point and one
/// digit or more may follow.
pub open spec fn is_numeral(text: Seq<char>) -> bool {
    let whole = digits(text, 0) as int;
    &&& whole >= 1
    &&& whole == text.len() || {
        &&& whole < text.len()
        &&& text[whole] == '.'
        &&& digits(text, whole + 1) >= 1
        &&& whole + 1 + digits(text, whole + 1) == text.len()
    }
}

/// What stands at a position of the source.
pub enum Lexeme {
    /// A token of kind `token_type` that denotes `literal` and ends before `end`.
    Token { token_type: TokenType, literal: Option<ObjectView>, end: int },
    /// A blank, which ends before `end`.
    Blank { end: int },
    /// Nothing that can be read: the scan fails with `error`, having read up to `end`.
    Error { error: LoxError, end: int },
}

/// What stands in `src` at `pos`, a position before its end.
///
/// A punctuation character is a token. An operator character is a token
/// together with the `=` behind it, or alone. A string literal goes from a
/// double quote to the next one and denotes the text between them; without a
/// next one it cannot be read. A digit starts a number, which denotes its
/// numeral. Any other character of the ASCII range starts a word, which goes
/// on as far as letters and numerals follow. No other character can be read.
pub open spec fn lexeme_at(src: Seq<char>, pos: int) -> Lexeme {
    let c = src[pos];
    if punctuation(c) is Some {
        Lexeme::Token { token_type: punctuation(c)->0, literal: None, end: pos + 1 }
    } else if operator(c) is Some {
        if pos + 1 < src.len() && src[pos + 1] == '=' {
            Lexeme::Token { token_type: operator(c)->0.with_equal, literal: None, end: pos + 2 }
        } else {
            Lexeme::Token { token_type: operator(c)->0.alone, literal: None, end: pos + 1 }
        }
    } else if is_blank(c) {
        Lexeme::Blank { end: pos + 1 }
    } else if c == '"' {
        let close = pos + 1 + unquoted(src, pos + 1);
        if close < src.len() {
            Lexeme::Token {
                token_type: TokenType::String,
                literal: Some(ObjectView::String(src.subrange(pos + 1, close))),
                end: close + 1,
            }
        } else {
            Lexeme::Error { error: LoxError::UnterminatedString, end: close }
        }
    } else if is_digit(c) {
        let end = number_end(src, pos);
        Lexeme::Token {
            token_type: TokenType::Number,
            literal: Some(ObjectView::Number(src.subrange(pos, end))),
            end,
        }
    } else if is_ascii(c) {
        let end = pos + 1 + alphanumerics(src, pos + 1);
        Lexeme::Token { token_type: word_type(src.subrange(pos, end)), literal: None, end }
    } else {
        Lexeme::Error { error: LoxError::UnexpectedCharacter(c), end: pos + 1 }
    }
}

/// Where a lexeme ends, whatever it is.
pub open spec fn lexeme_end(lexeme: Lexeme) -> int {
    match lexeme {
        Lexeme::Token { end, .. } => end,
        Lexeme::Blank { end } => end,
        Lexeme::Error { end, .. } => end,
    }
}

/// How many lines end within the lexeme at `pos`: one in a newline, and in a
/// string literal as many as there are newlines behind its opening quote and
/// before its closing one, or before the end where it is not closed. Within
/// any other lexeme no line is counted.
pub open spec fn line_breaks(src: Seq<char>, pos: int) -> nat {
    if src[pos] == '\n' {
        1
    } else if src[pos] == '"' {
        newlines(src.subrange(pos + 1, pos + 1 + unquoted(src, pos + 1)))
    } else {
        0
    }
}

/// The token that marks the end of the source, which ends on line `line`.
pub open spec fn end_token(line: nat) -> TokenView {
    TokenView { token_type: TokenType::Eof, lexeme: Seq::empty(), literal: None, line }
}

/// A run over the source: the tokens that it read, where the last lexeme
/// starts that it read, if it read one, where it stopped and on which line,
/// and the error that stopped it before the end, if one did.
pub struct Scan {
    pub tokens: Seq<TokenView>,
    pub last: Option<int>,
    pub end: int,
    pub line: nat,
    pub error: Option<LoxError>,
}

/// The run over `src` that starts at `pos` on line `line`: it reads one
/// lexeme after the other and stops at the first error, or at the end. A token
/// is on the line that it ends on.
pub open spec fn scan_from(src: Seq<char>, pos: int, line: nat) -> Scan
    decreases src.len() - pos,
    via scan_from_terminates
{
    if 0 <= pos < src.len() {
        let line_after = line + line_breaks(src, pos);
        match lexeme_at(src, pos) {
            Lexeme::Token { token_type, literal, end } => {
                let token = TokenView {
                    token_type,
                    lexeme: src.subrange(pos, end),
                    literal,
                    line: line_after,
                };
                let rest = scan_from(src, end, line_after);
                Scan {
                    tokens: seq![token] + rest.tokens,
                    last: if rest.last is Some {
                        rest.last
                    } else {
                        Some(pos)
                    },
                    end: rest.end,
                    line: rest.line,
                    error: rest.error,
                }
            },
            Lexeme::Blank { end } => {
                let rest = scan_from(src, end, line_after);
                Scan {
                    tokens: rest.tokens,
                    last: if rest.last is Some {
                        rest.last
                    } else {
                        Some(pos)
                    },
                    end: rest.end,
                    line: rest.line,
                    error: rest.error,
                }
            },
            Lexeme::Error { error, end } => Scan {
                tokens: Seq::empty(),
                last: Some(pos),
                end,
                line: line_after,
                error: Some(error),
            },
        }
    } else {
        Scan { tokens: Seq::empty(), last: None, end: pos, line, error: None }
    }
}

#[via_fn]
proof fn scan_from_terminates(src: Seq<char>, pos: int, line: nat) {
    if 0 <= pos < src.len() {
        lemma_lexeme_within(src, pos);
    }
}

/// The tokens of `src`, the end token last, or the first error in it. Lines
/// are counted from 1.
pub open spec fn scan(src: Seq<char>) -> Result<Seq<TokenView>, LoxError> {
    let run = scan_from(src, 0, 1);
    match run.error {
        Some(error) => Err(error),
        None => Ok(run.tokens.push(end_token(run.line))),
    }
}

} // verus!
