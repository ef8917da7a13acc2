use vstd::prelude::*;
use crate::error::LoxError;
use crate::lexical::alphanumerics;
use crate::lexical::classify_word;
use crate::lexical::digits;
use crate::lexical::end_token;
use crate::lexical::lexeme_at;
use crate::lemmas::lemma_line_breaks_within;
use crate::lemmas::lemma_newlines_concat;
use crate::lemmas::lemma_newlines_split;
use crate::lexical::line_breaks;
use crate::lexical::newlines;
use crate::lexical::number_end;
use crate::lexical::scan;
use crate::lexical::scan_from;
use crate::lexical::unquoted;
use crate::lexical::word_type;
use crate::lexical::Lexeme;
use crate::lexical::Scan;
use crate::object::Object;
use crate::object::ObjectView;
use crate::text::chars_of;
use crate::characters::is_ascii_char;
use crate::characters::is_ascii_digit;
use crate::text::string_of;
use crate::token::literal_view;
use crate::token::token_views;
use crate::token::Token;
use crate::token::TokenView;
use crate::token_type::TokenType;

verus! {

/// Turns a source text into tokens, in one pass from its start to its end.
pub struct Scanner {
    source: Vec<char>,
    tokens: Vec<Token>,
    start: usize,
    current: usize,
    line: u32,
}

/// What a `Scanner` holds: the source, the tokens read so far, the position
/// where the lexeme starts that it read last, the position that it has read
/// up to, and the line that this position lies on.
pub struct ScannerView {
    pub source: Seq<char>,
    pub tokens: Seq<TokenView>,
    pub start: int,
    pub current: int,
    pub line: nat,
}

impl View for Scanner {
    type V = ScannerView;

    closed spec fn view(&self) -> ScannerView {
        ScannerView {
            source: self.source@,
            tokens: token_views(self.tokens@),
            start: self.start as int,
            current: self.current as int,
            line: self.line as nat,
        }
    }
}

impl ScannerView {
    /// What holds of a scanner at any time: it stands within its source,
    /// behind the start of the lexeme that it read last; its lines are
    /// counted from 1; and the lines that are left to count fit its line
    /// counter, which has 32 bits.
    pub open spec fn wf(self) -> bool {
        &&& 0 <= self.start <= self.current <= self.source.len()
        &&& 1 <= self.line
        &&& self.line + newlines(self.source.skip(self.current)) <= u32::MAX
    }

    /// What a scanner holds that has read nothing of `source` yet.
    pub open spec fn fresh(source: Seq<char>) -> ScannerView {
        ScannerView { source, tokens: Seq::empty(), start: 0, current: 0, line: 1 }
    }

    /// What the scanner holds once it has read the lexeme at its position:
    /// it stands behind the lexeme, on the line where the lexeme ends, and
    /// has one token more if the lexeme is one.
    pub open spec fn after_lexeme(self) -> ScannerView {
        let line = self.line + line_breaks(self.source, self.current);
        match lexeme_at(self.source, self.current) {
            Lexeme::Token { token_type, literal, end } => ScannerView {
                source: self.source,
                tokens: self.tokens.push(
                    TokenView {
                        token_type,
                        lexeme: self.source.subrange(self.current, end),
                        literal,
                        line,
                    },
                ),
                start: self.current,
                current: end,
                line,
            },
            Lexeme::Blank { end } => ScannerView {
                source: self.source,
                tokens: self.tokens,
                start: self.current,
                current: end,
                line,
            },
            Lexeme::Error { error, end } => ScannerView {
                source: self.source,
                tokens: self.tokens,
                start: self.current,
                current: end,
                line,
            },
        }
    }

    /// Whether the lexeme at the scanner's position can be read, and the
    /// error where it cannot.
    pub open spec fn lexeme_result(self) -> Result<(), LoxError> {
        match lexeme_at(self.source, self.current) {
            Lexeme::Error { error, end } => Err(error),
            _ => Ok(()),
        }
    }

    /// The run that is left to the scanner: from its position to the first
    /// error, or to the end of the source.
    pub open spec fn run(self) -> Scan {
        scan_from(self.source, self.current, self.line)
    }

    /// What the scanner holds once it has scanned: it has read the tokens of
    /// its run and stands where the run stopped. Where no error stopped the
    /// run, that is the end of the source, and the end token is the last.
    pub open spec fn after_scan(self) -> ScannerView {
        let run = self.run();
        ScannerView {
            source: self.source,
            tokens: match run.error {
                None => (self.tokens + run.tokens).push(end_token(run.line)),
                Some(_) => self.tokens + run.tokens,
            },
            start: match run.last {
                Some(start) => start,
                None => self.start,
            },
            current: run.end,
            line: run.line,
        }
    }

    /// What a scan hands out: all the tokens that the scanner then holds, or
    /// the error that stopped its run.
    pub open spec fn scan_result(self) -> Result<Seq<TokenView>, LoxError> {
        match self.run().error {
            None => Ok(self.after_scan().tokens),
            Some(error) => Err(error),
        }
    }

    /// Reading one lexeme and scanning on from behind it is scanning from
    /// before it; an error in that lexeme ends the scan.
    pub proof fn lemma_scan_unfolds(self)
        requires
            0 <= self.current < self.source.len(),
        ensures
            self.lexeme_result() matches Err(error) ==> self.after_scan() == self.after_lexeme()
                && self.run().error == Some(error),
            self.lexeme_result() is Ok ==> self.after_scan() == self.after_lexeme().after_scan()
                && self.run().error == self.after_lexeme().run().error,
    {
        let next = self.after_lexeme();
        match lexeme_at(self.source, self.current) {
            Lexeme::Token { token_type, literal, end } => {
                assert(self.tokens + self.run().tokens =~= next.tokens + next.run().tokens);
            },
            Lexeme::Blank { end } => {},
            Lexeme::Error { error, end } => {
            },
        }
    }
}

/// What a scan handed out, each token by what it holds.
pub open spec fn handed_out(result: Result<&Vec<Token>, LoxError>) -> Result<
    Seq<TokenView>,
    LoxError,
> {
    match result {
        Ok(tokens) => Ok(token_views(tokens@)),
        Err(error) => Err(error),
    }
}

/// Whether the lines of `source` can be numbered: the line counter has 32
/// bits, and lines are counted from 1.
pub open spec fn countable(source: Seq<char>) -> bool {
    1 + newlines(source) <= u32::MAX
}

impl Scanner {
    /// Whether a scanner can be made for `source`: whether its lines can be
    /// numbered.
    pub fn can_scan(source: &str) -> (fits: bool)
        ensures
            fits == countable(source@),
    {
        let mut lines: u32 = 1;
        for c in it: source.chars()
            invariant
                it.seq() == source@,
                lines == 1 + newlines(it.seq().take(it.index())),
        {
            proof {
                let at = it.index();
                assert(source@.take(at + 1).drop_last() =~= source@.take(at));
                assert(source@ =~= source@.take(at + 1) + source@.skip(at + 1));
                lemma_newlines_concat(source@.take(at + 1), source@.skip(at + 1));
            }
            if c == '\n' {
                if lines == u32::MAX {
                    return false;
                }
                lines += 1;
            }
        }
        assert(source@.take(source@.len() as int) =~= source@);
        true
    }

    /// A scanner for `source` that has read nothing of it yet.
    pub fn new(source: String) -> (scanner: Self)
        requires
            countable(source@),
        ensures
            scanner@.wf(),
            scanner@ == ScannerView::fresh(source@),
    {
        let scanner = Self {
            source: chars_of(source.as_str()),
            tokens: Vec::new(),
            start: 0,
            current: 0,
            line: 1,
        };
        assert(scanner.source@.skip(0) =~= source@);
        assert(token_views(scanner.tokens@) =~= Seq::empty());
        scanner
    }

    /// Whether the scanner has read all of its source.
    fn is_at_end(&self) -> (at_end: bool)
        ensures
            at_end == (self.current >= self.source.len()),
    {
        self.current >= self.source.len()
    }

    /// The character at the scanner's position, or `'\0'` at the end.
    fn peek(&self) -> (c: char)
        ensures
            c == if self.current < self.source.len() {
                self.source@[self.current as int]
            } else {
                '\0'
            },
    {
        if self.is_at_end() {
            return '\0';
        }
        self.source[self.current]
    }

    /// The character behind the one at the scanner's position, or `'\0'`
    /// where the source ends before it.
    fn peek_next(&self) -> (c: char)
        ensures
            c == if self.current + 1 < self.source.len() {
                self.source@[self.current + 1]
            } else {
                '\0'
            },
    {
        if self.current >= self.source.len() || self.current + 1 >= self.source.len() {
            return '\0';
        }
        self.source[self.current + 1]
    }

    /// Reads the character at the scanner's position.
    fn advance(&mut self) -> (c: char)
        requires
            old(self).current < old(self).source.len(),
        ensures
            c == old(self).source@[old(self).current as int],
            *final(self) == (Scanner { current: (old(self).current + 1) as usize, ..*old(self) }),
    {
        self.current += 1;
        self.source[self.current - 1]
    }

    /// Reads the character at the scanner's position if it is `expected`.
    fn match_char(&mut self, expected: char) -> (matched: bool)
        ensures
            matched == (old(self).current < old(self).source.len() && old(self).source@[old(
                self,
            ).current as int] == expected),
            *final(self) == if matched {
                Scanner { current: (old(self).current + 1) as usize, ..*old(self) }
            } else {
                *old(self)
            },
    {
        if self.is_at_end() {
            return false;
        }
        if self.source[self.current] != expected {
            return false;
        }
        self.current += 1;
        true
    }

    /// The token of the text from the start of the lexeme up to the
    /// scanner's position, on the scanner's line.
    fn make_token(&self, token_type: TokenType, literal: Option<Object>) -> (token: Token)
        requires
            self.start <= self.current <= self.source.len(),
        ensures
            token@ == (TokenView {
                token_type,
                lexeme: self.source@.subrange(self.start as int, self.current as int),
                literal: literal_view(literal),
                line: self.line as nat,
            }),
    {
        let text = string_of(&self.source, self.start, self.current);
        Token::new(token_type, text, literal, self.line)
    }

    /// Reads the rest of a word, whose first character has been read: the
    /// letters and numerals that follow it.
    fn identifier(&mut self) -> (result: Result<Token, LoxError>)
        requires
            old(self).start < old(self).current <= old(self).source.len(),
        ensures
            *final(self) == (Scanner {
                current: (old(self).current + alphanumerics(
                    old(self).source@,
                    old(self).current as int,
                )) as usize,
                ..*old(self)
            }),
            old(self).current + alphanumerics(old(self).source@, old(self).current as int) <= old(
                self,
            ).source.len(),
            result matches Ok(token) && token@ == (TokenView {
                token_type: word_type(
                    final(self).source@.subrange(
                        final(self).start as int,
                        final(self).current as int,
                    ),
                ),
                lexeme: final(self).source@.subrange(
                    final(self).start as int,
                    final(self).current as int,
                ),
                literal: None,
                line: final(self).line as nat,
            }),
    {
        while !self.is_at_end() && self.peek().is_alphanumeric()
            invariant
                self.start < self.current <= self.source.len(),
                *self == (Scanner { current: self.current, ..*old(self) }),
                self.current + alphanumerics(self.source@, self.current as int) == old(
                    self,
                ).current + alphanumerics(old(self).source@, old(self).current as int),
            decreases self.source.len() - self.current,
        {
            self.advance();
        }
        let token_type = classify_word(&self.source, self.start, self.current);
        Ok(self.make_token(token_type, None))
    }

    /// Reads the rest of a string literal, whose opening quote has been
    /// read: up to the closing quote, counting the lines that end before it.
    fn string(&mut self) -> (result: Result<Token, LoxError>)
        requires
            old(self).start + 1 == old(self).current <= old(self).source.len(),
            old(self).line + newlines(old(self).source@.skip(old(self).current as int))
                <= u32::MAX,
        ensures
            ({
                let src = old(self).source@;
                let open = old(self).current as int;
                let close = open + unquoted(src, open);
                let line = (old(self).line + newlines(src.subrange(open, close))) as nat;
                if close < src.len() {
                    &&& *final(self) == (Scanner {
                        current: (close + 1) as usize,
                        line: line as u32,
                        ..*old(self)
                    })
                    &&& close + 1 <= usize::MAX
                    &&& line <= u32::MAX
                    &&& result matches Ok(token)
                    &&& token@ == (TokenView {
                        token_type: TokenType::String,
                        lexeme: src.subrange(old(self).start as int, close + 1),
                        literal: Some(ObjectView::String(src.subrange(open, close))),
                        line,
                    })
                } else {
                    &&& *final(self) == (Scanner {
                        current: close as usize,
                        line: line as u32,
                        ..*old(self)
                    })
                    &&& close == src.len()
                    &&& line <= u32::MAX
                    &&& result == Err::<Token, LoxError>(LoxError::UnterminatedString)
                }
            }),
    {
        while self.peek() != '"' && !self.is_at_end()
            invariant
                self.start < old(self).current <= self.current <= self.source.len(),
                *self == (Scanner { current: self.current, line: self.line, ..*old(self) }),
                self.current + unquoted(self.source@, self.current as int) == old(self).current
                    + unquoted(old(self).source@, old(self).current as int),
                self.line == old(self).line + newlines(
                    self.source@.subrange(old(self).current as int, self.current as int),
                ),
                self.line + newlines(self.source@.skip(self.current as int)) <= u32::MAX,
            decreases self.source.len() - self.current,
        {
            proof {
                let src = self.source@;
                let at = self.current as int;
                lemma_newlines_split(src, at, at + 1);
                assert(src.subrange(old(self).current as int, at + 1).drop_last()
                    =~= src.subrange(old(self).current as int, at));
            }
            if self.peek() == '\n' {
                self.line += 1;
            }
            self.advance();
        }
        if self.is_at_end() {
            return Err(LoxError::UnterminatedString);
        }
        self.advance();
        let value = string_of(&self.source, self.start + 1, self.current - 1);
        Ok(self.make_token(TokenType::String, Some(Object::String(value))))
    }

    /// Reads the rest of a number, whose first digit has been read. The
    /// token denotes the numeral as it is written.
    fn number(&mut self) -> (result: Result<Token, LoxError>)
        requires
            old(self).start + 1 == old(self).current <= old(self).source.len(),
        ensures
            *final(self) == (Scanner {
                current: number_end(old(self).source@, old(self).start as int) as usize,
                ..*old(self)
            }),
            old(self).current <= number_end(old(self).source@, old(self).start as int) <= old(
                self,
            ).source.len(),
            result matches Ok(token) && token@ == (TokenView {
                token_type: TokenType::Number,
                lexeme: final(self).source@.subrange(
                    final(self).start as int,
                    final(self).current as int,
                ),
                literal: Some(
                    ObjectView::Number(
                        final(self).source@.subrange(
                            final(self).start as int,
                            final(self).current as int,
                        ),
                    ),
                ),
                line: final(self).line as nat,
            }),
    {
        while is_ascii_digit(self.peek())
            invariant
                self.start < self.current <= self.source.len(),
                *self == (Scanner { current: self.current, ..*old(self) }),
                self.current + digits(self.source@, self.current as int) == old(self).current
                    + digits(old(self).source@, old(self).current as int),
            decreases self.source.len() - self.current,
        {
            self.advance();
        }
        if self.peek() == '.' && is_ascii_digit(self.peek_next()) {
            self.advance();
            while is_ascii_digit(self.peek())
                invariant
                    self.start < self.current <= self.source.len(),
                    *self == (Scanner { current: self.current, ..*old(self) }),
                    self.current + digits(self.source@, self.current as int) == number_end(
                        old(self).source@,
                        old(self).start as int,
                    ),
                decreases self.source.len() - self.current,
            {
                self.advance();
            }
        }
        let value = string_of(&self.source, self.start, self.current);
        Ok(self.make_token(TokenType::Number, Some(Object::Number(value))))
    }

    /// Reads the lexeme at the scanner's position, and keeps its token if it
    /// is one.
    fn scan_token(&mut self) -> (result: Result<(), LoxError>)
        requires
            old(self)@.wf(),
            old(self).start == old(self).current < old(self).source.len(),
        ensures
            final(self)@.wf(),
            final(self)@ == old(self)@.after_lexeme(),
            result == old(self)@.lexeme_result(),
    {
        proof {
            let src = self.source@;
            let at = self.current as int;
            lemma_line_breaks_within(src, at);
            lemma_newlines_split(src, at, at + 1);
        }
        let c = self.advance();
        let res = match c {
            '(' => self.make_token(TokenType::LeftParen, None),
            ')' => self.make_token(TokenType::RightParen, None),
            '{' => self.make_token(TokenType::LeftBrace, None),
            '}' => self.make_token(TokenType::RightBrace, None),
            ',' => self.make_token(TokenType::Comma, None),
            '.' => self.make_token(TokenType::Dot, None),
            '-' => self.make_token(TokenType::Minus, None),
            '+' => self.make_token(TokenType::Plus, None),
            ';' => self.make_token(TokenType::Semicolon, None),
            '*' => self.make_token(TokenType::Star, None),
            '/' => self.make_token(TokenType::Slash, None),
            '!' => {
                if self.match_char('=') {
                    self.make_token(TokenType::BangEqual, None)
                } else {
                    self.make_token(TokenType::Bang, None)
                }
            },
            '=' => {
                if self.match_char('=') {
                    self.make_token(TokenType::EqualEqual, None)
                } else {
                    self.make_token(TokenType::Equal, None)
                }
            },
            '<' => {
                if self.match_char('=') {
                    self.make_token(TokenType::LessEqual, None)
                } else {
                    self.make_token(TokenType::Less, None)
                }
            },
            '>' => {
                if self.match_char('=') {
                    self.make_token(TokenType::GreaterEqual, None)
                } else {
                    self.make_token(TokenType::Greater, None)
                }
            },
            ' ' | '\r' | '\t' => return Ok(()),
            '\n' => {
                self.line += 1;
                return Ok(());
            },
            '"' => self.string()?,
            _ => {
                if is_ascii_digit(c) {
                    self.number()?
                } else if is_ascii_char(c) {
                    self.identifier()?
                } else {
                    return Err(LoxError::UnexpectedCharacter(c));
                }
            },
        };
        self.tokens.push(res);
        assert(token_views(self.tokens@) =~= token_views(old(self).tokens@).push(res@));
        Ok(())
    }

    /// Scans the source from the scanner's position on and hands out all the
    /// tokens that the scanner then holds, the end token last. The first
    /// lexeme that cannot be read ends the scan with its error, and the
    /// scanner stands behind what it read of that lexeme.
    ///
    /// From a scanner that has read nothing yet this gives the tokens of the
    /// source, or the first error in it.
    pub fn scan_tokens(&mut self) -> (result: Result<&Vec<Token>, LoxError>)
        requires
            old(self)@.wf(),
        ensures
            final(self)@.wf(),
            final(self)@ == old(self)@.after_scan(),
            handed_out(result) == old(self)@.scan_result(),
            old(self)@ == ScannerView::fresh(old(self)@.source) ==> handed_out(result) == scan(
                old(self)@.source,
            ),
    {
        while !self.is_at_end()
            invariant
                self@.wf(),
                self@.after_scan() == old(self)@.after_scan(),
                self@.run().error == old(self)@.run().error,
            decreases self.source.len() - self.current,
        {
            self.start = self.current;
            proof {
                self@.lemma_scan_unfolds();
            }
            self.scan_token()?;
        }
        self.tokens.push(Token::new(TokenType::Eof, String::new(), None, self.line));
        assert(token_views(self.tokens@) =~= old(self)@.after_scan().tokens);
        Ok(&self.tokens)
    }
}

} // verus!
