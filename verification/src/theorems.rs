use vstd::prelude::*;
use crate::characters::is_ascii;
use crate::characters::is_blank;
use crate::characters::is_digit;
use crate::error::LoxError;
use crate::lemmas::lemma_lexeme_within;
use crate::lemmas::lemma_line_breaks_within;
use crate::lemmas::lemma_newlines_single;
use crate::lemmas::lemma_newlines_split;
use crate::lemmas::lemma_stretch;
use crate::lemmas::lemma_stretch_of_piece;
use crate::lexical::digits;
use crate::lexical::end_token;
use crate::lexical::is_numeral;
use crate::lexical::lexeme_at;
use crate::lexical::lexeme_end;
use crate::lexical::line_breaks;
use crate::lexical::newlines;
use crate::lexical::number_end;
use crate::lexical::operator;
use crate::lexical::punctuation;
use crate::lexical::scan;
use crate::lexical::scan_from;
use crate::lexical::unquoted;
use crate::lexical::Lexeme;
use crate::lexical::Scan;
use crate::object::ObjectView;
use crate::scanner::ScannerView;
use crate::token::TokenView;
use crate::token_type::TokenType;

verus! {

/// No token that a run reads is the end token.
pub proof fn lemma_run_without_end_token(src: Seq<char>, pos: int, line: nat)
    ensures
        forall|i: int|
            0 <= i < scan_from(src, pos, line).tokens.len() ==> (#[trigger] scan_from(
                src,
                pos,
                line,
            ).tokens[i]).token_type != TokenType::Eof,
    decreases src.len() - pos,
{
    if 0 <= pos < src.len() {
        lemma_lexeme_within(src, pos);
        lemma_run_without_end_token(
            src,
            lexeme_end(lexeme_at(src, pos)),
            line + line_breaks(src, pos),
        );
    }
}

/// The tokens of a source end with the end token, and hold it once: it is
/// the last of them, with no text and no value, and no token before it is
/// an end token.
pub proof fn theorem_end_token_last_and_once(src: Seq<char>)
    ensures
        scan(src) matches Ok(tokens) ==> {
            &&& tokens.len() >= 1
            &&& tokens.last() == end_token(tokens.last().line)
            &&& forall|i: int|
                0 <= i < tokens.len() - 1 ==> (#[trigger] tokens[i]).token_type != TokenType::Eof
        },
{
    lemma_run_without_end_token(src, 0, 1);
}

/// A run over blanks alone reads no token, reaches the end, and counts the
/// newlines that it passes.
pub proof fn lemma_run_over_blanks(src: Seq<char>, pos: int, line: nat)
    requires
        0 <= pos <= src.len(),
        forall|i: int| pos <= i < src.len() ==> is_blank(#[trigger] src[i]),
    ensures
        scan_from(src, pos, line) == (Scan {
            tokens: Seq::empty(),
            last: if pos < src.len() {
                Some(src.len() - 1)
            } else {
                None
            },
            end: src.len() as int,
            line: line + newlines(src.skip(pos)),
            error: None,
        }),
    decreases src.len() - pos,
{
    if pos < src.len() {
        lemma_newlines_split(src, pos, pos + 1);
        lemma_newlines_single(src[pos]);
        assert(src.subrange(pos, pos + 1) =~= seq![src[pos]]);
        lemma_run_over_blanks(src, pos + 1, line + line_breaks(src, pos));
    }
}

/// A source of spaces, tabs, carriage returns and newlines alone has the end
/// token for its only token, on the line whose number is one more than the
/// number of newlines in the source.
pub proof fn theorem_blank_source(src: Seq<char>)
    requires
        forall|i: int| 0 <= i < src.len() ==> is_blank(#[trigger] src[i]),
    ensures
        scan(src) == Ok::<Seq<TokenView>, LoxError>(seq![end_token(1 + newlines(src))]),
{
    lemma_run_over_blanks(src, 0, 1);
    assert(src.skip(0) =~= src);
}

/// A scanner that has read nothing of its source hands out the tokens of the
/// source, or the first error in it.
pub proof fn theorem_fresh_scan(src: Seq<char>)
    ensures
        ScannerView::fresh(src).scan_result() == scan(src),
{
}

/// Scanning the same source twice gives the same both times: two scanners
/// that have read nothing of it hand out the same tokens, or the same error,
/// and hold the same afterwards.
pub proof fn theorem_scan_repeatable(src: Seq<char>, first: ScannerView, second: ScannerView)
    requires
        first == ScannerView::fresh(src),
        second == ScannerView::fresh(src),
    ensures
        first.scan_result() == second.scan_result(),
        first.after_scan() == second.after_scan(),
        first.scan_result() == scan(src),
{
}

/// Whether a run that starts at `from` reads a lexeme that starts at `to`, or
/// starts there itself: no error stops it before.
pub open spec fn reaches(src: Seq<char>, from: int, to: int) -> bool
    decreases src.len() - from,
    via reaches_terminates
{
    if from == to {
        true
    } else if 0 <= from < to && from < src.len() {
        match lexeme_at(src, from) {
            Lexeme::Token { token_type, literal, end } => reaches(src, end, to),
            Lexeme::Blank { end } => reaches(src, end, to),
            Lexeme::Error { error, end } => false,
        }
    } else {
        false
    }
}

#[via_fn]
proof fn reaches_terminates(src: Seq<char>, from: int, to: int) {
    if 0 <= from < src.len() {
        lemma_lexeme_within(src, from);
    }
}

/// The first lexeme that cannot be read ends the scan with its error: a run
/// that reaches such a lexeme is stopped by that error, wherever it started.
pub proof fn theorem_first_error_stops(src: Seq<char>, from: int, line: nat, at: int)
    requires
        0 <= from,
        0 <= at < src.len(),
        reaches(src, from, at),
        lexeme_at(src, at) is Error,
    ensures
        scan_from(src, from, line).error == Some(lexeme_at(src, at)->error),
    decreases src.len() - from,
{
    if from != at {
        lemma_lexeme_within(src, from);
        theorem_first_error_stops(
            src,
            lexeme_end(lexeme_at(src, from)),
            line + line_breaks(src, from),
            at,
        );
    }
}

/// A character outside the ASCII range, where a lexeme would start, ends the
/// scan: the source has no tokens, and the error names the character.
pub proof fn theorem_unexpected_character(src: Seq<char>, at: int)
    requires
        0 <= at < src.len(),
        reaches(src, 0, at),
        !is_ascii(src[at]),
    ensures
        scan(src) == Err::<Seq<TokenView>, LoxError>(LoxError::UnexpectedCharacter(src[at])),
{
    theorem_first_error_stops(src, 0, 1, at);
}

/// A string literal that no double quote closes before the end of the source
/// ends the scan: the source has no tokens, and the error says so.
pub proof fn theorem_unterminated_string(src: Seq<char>, at: int)
    requires
        0 <= at < src.len(),
        reaches(src, 0, at),
        src[at] == '"',
        forall|i: int| at < i < src.len() ==> #[trigger] src[i] != '"',
    ensures
        scan(src) == Err::<Seq<TokenView>, LoxError>(LoxError::UnterminatedString),
{
    lemma_stretch(src, at + 1, |c: char| c != '"');
    theorem_first_error_stops(src, 0, 1, at);
}

/// Reading a lexeme leaves a scanner as a scanner is at any time.
pub proof fn theorem_lexeme_keeps_well_formed(scanner: ScannerView)
    requires
        scanner.wf(),
        scanner.current < scanner.source.len(),
    ensures
        scanner.after_lexeme().wf(),
        scanner.current < scanner.after_lexeme().current,
{
    lemma_lexeme_within(scanner.source, scanner.current);
    lemma_line_breaks_within(scanner.source, scanner.current);
}

/// Scanning leaves a scanner as a scanner is at any time, whether or not an
/// error stops it; where none does, the scanner then stands at the end of
/// its source.
pub proof fn theorem_scan_keeps_well_formed(scanner: ScannerView)
    requires
        scanner.wf(),
    ensures
        scanner.after_scan().wf(),
        scanner.run().error is None ==> scanner.after_scan().current == scanner.source.len(),
    decreases scanner.source.len() - scanner.current,
{
    if scanner.current < scanner.source.len() {
        theorem_lexeme_keeps_well_formed(scanner);
        if scanner.lexeme_result() is Ok {
            theorem_scan_keeps_well_formed(scanner.after_lexeme());
        }
    }
}

/// A run starts on a line and ends on that line or a later one; every token
/// that it reads is on a line between the two, and no token is on a line
/// before that of a token read earlier.
pub proof fn theorem_lines_ascend(src: Seq<char>, pos: int, line: nat)
    ensures
        line <= scan_from(src, pos, line).line,
        forall|i: int|
            0 <= i < scan_from(src, pos, line).tokens.len() ==> line <= (#[trigger] scan_from(
                src,
                pos,
                line,
            ).tokens[i]).line <= scan_from(src, pos, line).line,
        forall|i: int, j: int|
            0 <= i <= j < scan_from(src, pos, line).tokens.len() ==> (#[trigger] scan_from(
                src,
                pos,
                line,
            ).tokens[i]).line <= (#[trigger] scan_from(src, pos, line).tokens[j]).line,
    decreases src.len() - pos,
{
    if 0 <= pos < src.len() {
        lemma_lexeme_within(src, pos);
        theorem_lines_ascend(src, lexeme_end(lexeme_at(src, pos)), line + line_breaks(src, pos));
    }
}

/// Whether a token is as the scanner makes them. A number denotes the
/// numeral that it was written as. A string is written between two double
/// quotes and denotes the text between them, which holds no double quote.
/// The end token has no text. Every other token has a text and denotes
/// nothing.
pub open spec fn well_formed(token: TokenView) -> bool {
    match token.token_type {
        TokenType::Number => {
            &&& token.literal == Some(ObjectView::Number(token.lexeme))
            &&& is_numeral(token.lexeme)
        },
        TokenType::String => {
            &&& token.literal matches Some(ObjectView::String(text))
            &&& token.lexeme == seq!['"'] + text + seq!['"']
            &&& !text.contains('"')
        },
        TokenType::Eof => token.literal is None && token.lexeme.len() == 0,
        _ => token.literal is None && token.lexeme.len() >= 1,
    }
}

/// The token of the lexeme at `pos` is as the scanner makes them, whatever
/// its line.
pub proof fn lemma_lexeme_well_formed(src: Seq<char>, pos: int, line: nat)
    requires
        0 <= pos < src.len(),
    ensures
        lexeme_at(src, pos) matches Lexeme::Token { token_type, literal, end } ==> well_formed(
            TokenView { token_type, lexeme: src.subrange(pos, end), literal, line },
        ),
{
    lemma_lexeme_within(src, pos);
    let c = src[pos];
    if punctuation(c) is None && operator(c) is None && !is_blank(c) {
        if c == '"' {
            let close = pos + 1 + unquoted(src, pos + 1);
            lemma_stretch(src, pos + 1, |c: char| c != '"');
            if close < src.len() {
                let text = src.subrange(pos + 1, close);
                assert(src.subrange(pos, close + 1) =~= seq!['"'] + text + seq!['"']);
                assert(forall|i: int| 0 <= i < text.len() ==> text[i] != '"');
            }
        } else if is_digit(c) {
            let end = number_end(src, pos);
            let whole = pos + 1 + digits(src, pos + 1);
            lemma_stretch_of_piece(src, pos, end, pos, |c: char| is_digit(c));
            if whole < end {
                lemma_stretch_of_piece(src, pos, end, whole + 1, |c: char| is_digit(c));
            }
        }
    }
}

/// Every token that a run reads is as the scanner makes them.
pub proof fn lemma_run_well_formed(src: Seq<char>, pos: int, line: nat)
    ensures
        forall|i: int|
            0 <= i < scan_from(src, pos, line).tokens.len() ==> well_formed(
                #[trigger] scan_from(src, pos, line).tokens[i],
            ),
    decreases src.len() - pos,
{
    if 0 <= pos < src.len() {
        lemma_lexeme_within(src, pos);
        lemma_lexeme_well_formed(src, pos, line + line_breaks(src, pos));
        lemma_run_well_formed(src, lexeme_end(lexeme_at(src, pos)), line + line_breaks(src, pos));
    }
}

/// Every token of a source is as the scanner makes them: only numbers and
/// strings denote a value, a number the numeral that it was written as, and
/// a string the text between its quotes.
pub proof fn theorem_tokens_well_formed(src: Seq<char>)
    ensures
        scan(src) matches Ok(tokens) ==> forall|i: int|
            0 <= i < tokens.len() ==> well_formed(#[trigger] tokens[i]),
{
    lemma_run_well_formed(src, 0, 1);
}

} // verus!
