use vstd::prelude::*;
use crate::characters::alphanumeric;
use crate::characters::is_digit;
use crate::lexical::digits;
use crate::lexical::lexeme_at;
use crate::lexical::lexeme_end;
use crate::lexical::line_breaks;
use crate::lexical::newlines;
use crate::lexical::stretch;
use crate::lexical::unquoted;

verus! {

/// The newlines of a text are those of its front and those of its back.
pub proof fn lemma_newlines_concat(front: Seq<char>, back: Seq<char>)
    ensures
        newlines(front + back) == newlines(front) + newlines(back),
    decreases back.len(),
{
    if back.len() > 0 {
        assert((front + back).drop_last() =~= front + back.drop_last());
        lemma_newlines_concat(front, back.drop_last());
    }
}

/// The newlines from `from` on are those up to `to` and those from `to` on.
pub proof fn lemma_newlines_split(src: Seq<char>, from: int, to: int)
    requires
        0 <= from <= to <= src.len(),
    ensures
        newlines(src.skip(from)) == newlines(src.subrange(from, to)) + newlines(src.skip(to)),
{
    assert(src.skip(from) =~= src.subrange(from, to) + src.skip(to));
    lemma_newlines_concat(src.subrange(from, to), src.skip(to));
}

/// A text of one character holds one newline or none.
pub proof fn lemma_newlines_single(c: char)
    ensures
        newlines(seq![c]) == if c == '\n' {
            1nat
        } else {
            0nat
        },
{
    assert(newlines(seq![c].drop_last()) == 0);
}

/// A stretch ends within the source. It holds characters of its kind alone,
/// and the character behind it, if there is one, is not of the kind: the
/// stretch is as long as it can be.
pub proof fn lemma_stretch(src: Seq<char>, from: int, of: spec_fn(char) -> bool)
    requires
        0 <= from <= src.len(),
    ensures
        from + stretch(src, from, of) <= src.len(),
        forall|i: int| from <= i < from + stretch(src, from, of) ==> of(#[trigger] src[i]),
        from + stretch(src, from, of) < src.len() ==> !of(src[from + stretch(src, from, of)]),
    decreases src.len() - from,
{
    if from < src.len() && of(src[from]) {
        lemma_stretch(src, from + 1, of);
    }
}

/// The stretch that stands at a place in a piece of the source is the stretch
/// that stands there in the source, as far as the piece goes.
pub proof fn lemma_stretch_of_piece(
    src: Seq<char>,
    from: int,
    to: int,
    at: int,
    of: spec_fn(char) -> bool,
)
    requires
        0 <= from <= at <= to <= src.len(),
    ensures
        stretch(src.subrange(from, to), at - from, of) == if stretch(src, at, of) <= to - at {
            stretch(src, at, of)
        } else {
            (to - at) as nat
        },
    decreases to - at,
{
    if at < to && of(src[at]) {
        lemma_stretch_of_piece(src, from, to, at + 1, of);
    }
}

/// Every lexeme holds at least one character and ends within the source.
pub proof fn lemma_lexeme_within(src: Seq<char>, pos: int)
    requires
        0 <= pos < src.len(),
    ensures
        pos < lexeme_end(lexeme_at(src, pos)) <= src.len(),
{
    lemma_stretch(src, pos + 1, |c: char| c != '"');
    lemma_stretch(src, pos + 1, |c: char| alphanumeric(c));
    lemma_stretch(src, pos + 1, |c: char| is_digit(c));
    let whole = pos + 1 + digits(src, pos + 1);
    if whole + 1 < src.len() {
        lemma_stretch(src, whole + 1, |c: char| is_digit(c));
    }
}

/// The lines that end within a lexeme are among those that end from its start
/// on, and none of them ends behind it.
pub proof fn lemma_line_breaks_within(src: Seq<char>, pos: int)
    requires
        0 <= pos < src.len(),
    ensures
        line_breaks(src, pos) + newlines(src.skip(lexeme_end(lexeme_at(src, pos)))) <= newlines(
            src.skip(pos),
        ),
{
    let end = lexeme_end(lexeme_at(src, pos));
    lemma_lexeme_within(src, pos);
    lemma_newlines_split(src, pos, end);
    if src[pos] == '"' {
        let close = pos + 1 + unquoted(src, pos + 1);
        assert(src.subrange(pos, end) =~= src.subrange(pos, pos + 1) + src.subrange(pos + 1, close)
            + src.subrange(close, end));
        lemma_newlines_concat(
            src.subrange(pos, pos + 1) + src.subrange(pos + 1, close),
            src.subrange(close, end),
        );
        lemma_newlines_concat(src.subrange(pos, pos + 1), src.subrange(pos + 1, close));
    }
}

} // verus!
