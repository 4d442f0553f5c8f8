//! The lines of an assembly source and the tokens of a line.
//!
//! A source is split into lines at every newline; what follows the last
//! newline is a line if it is not empty. In a line, everything from the
//! first `#` on is comment. Blanks, tabs, carriage returns and commas
//! separate tokens; a parenthesis and a colon are tokens of their own.
use vstd::prelude::*;

verus! {

/// A range of positions in a text: from the first, up to the second.
pub type Span = (usize, usize);

/// The end of the line that begins at `from`: the position of the next
/// newline, or the end of the text.
pub open spec fn line_end(text: Seq<u8>, from: int) -> int
    decreases text.len() - from,
{
    if from >= text.len() {
        text.len() as int
    } else if text[from] == 10 {
        from
    } else {
        line_end(text, from + 1)
    }
}

/// The lines of the text from `from` on.
pub open spec fn lines_from(text: Seq<u8>, from: int) -> Seq<(int, int)>
    decreases text.len() - from,
{
    if from < 0 || from >= text.len() {
        Seq::empty()
    } else {
        let end = line_end(text, from);
        seq![(from, end)] + lines_from(
            text,
            if from <= end < text.len() {
                end + 1
            } else {
                text.len() as int
            },
        )
    }
}

/// A line ends at or behind its beginning, and inside the text.
pub proof fn lemma_line_end(text: Seq<u8>, from: int)
    requires
        0 <= from <= text.len(),
    ensures
        from <= line_end(text, from) <= text.len(),
        line_end(text, from) < text.len() ==> text[line_end(text, from)] == 10,
    decreases text.len() - from,
{
    if from < text.len() && text[from] != 10 {
        lemma_line_end(text, from + 1);
    }
}

/// Finds the end of the line that begins at `from`.
pub fn find_line_end(text: &[u8], from: usize) -> (end: usize)
    requires
        from <= text@.len(),
    ensures
        end == line_end(text@, from as int),
        from <= end <= text@.len(),
{
    let mut i: usize = from;
    while i < text.len() && text[i] != 10
        invariant
            from <= i <= text@.len(),
            line_end(text@, from as int) == line_end(text@, i as int),
        decreases text@.len() - i,
    {
        i = i + 1;
    }
    i
}

/// The spans of an executable list as pairs of integers.
pub open spec fn spans_view(spans: Seq<Span>) -> Seq<(int, int)> {
    Seq::new(spans.len(), |i: int| (spans[i].0 as int, spans[i].1 as int))
}

/// Splits a text into lines.
pub fn split_lines(text: &[u8]) -> (lines: Vec<Span>)
    ensures
        spans_view(lines@) == lines_from(text@, 0),
        forall|i: int|
            0 <= i < lines@.len() ==> (#[trigger] lines@[i]).0 <= lines@[i].1 <= text@.len(),
{
    let mut lines: Vec<Span> = Vec::new();
    let mut from: usize = 0;
    while from < text.len()
        invariant
            from <= text@.len(),
            lines_from(text@, 0) == spans_view(lines@) + lines_from(text@, from as int),
            forall|i: int|
                0 <= i < lines@.len() ==> (#[trigger] lines@[i]).0 <= lines@[i].1 <= text@.len(),
        decreases text@.len() - from,
    {
        let end: usize = find_line_end(text, from);
        let ghost before = spans_view(lines@);
        lines.push((from, end));
        assert(spans_view(lines@) =~= before + seq![(from as int, end as int)]);
        let next: usize = if end < text.len() {
            end + 1
        } else {
            end
        };
        assert(before + lines_from(text@, from as int) =~= spans_view(lines@) + lines_from(
            text@,
            next as int,
        ));
        from = next;
    }
    assert(spans_view(lines@) + Seq::<(int, int)>::empty() =~= spans_view(lines@));
    lines
}

/// The position of the first `#` from `from` on, or `end` where there is
/// none before `end`.
pub open spec fn code_end(text: Seq<u8>, from: int, end: int) -> int
    decreases end - from,
{
    if from >= end {
        end
    } else if text[from] == 35 {
        from
    } else {
        code_end(text, from + 1, end)
    }
}

/// Finds where the comment of a line begins.
pub fn find_code_end(text: &[u8], from: usize, end: usize) -> (at: usize)
    requires
        from <= end <= text@.len(),
    ensures
        at == code_end(text@, from as int, end as int),
        from <= at <= end,
{
    let mut i: usize = from;
    while i < end && text[i] != 35
        invariant
            from <= i <= end,
            end <= text@.len(),
            code_end(text@, from as int, end as int) == code_end(text@, i as int, end as int),
        decreases end - i,
    {
        i = i + 1;
    }
    i
}

/// Whether a byte separates tokens: a blank, a tab, a carriage return or a
/// comma.
pub open spec fn is_separator(b: u8) -> bool {
    b == 32 || b == 9 || b == 13 || b == 44
}

/// Whether a byte is a token of its own: a parenthesis or a colon.
pub open spec fn is_single(b: u8) -> bool {
    b == 40 || b == 41 || b == 58
}

/// Where the word that begins at `from` ends: at the next separator or
/// single, or at `end`.
pub open spec fn word_end(text: Seq<u8>, from: int, end: int) -> int
    decreases end - from,
{
    if from >= end {
        end
    } else if is_separator(text[from]) || is_single(text[from]) {
        from
    } else {
        word_end(text, from + 1, end)
    }
}

/// The tokens of the text between `from` and `end`.
pub open spec fn tokens_from(text: Seq<u8>, from: int, end: int) -> Seq<(int, int)>
    decreases end - from,
{
    if from < 0 || from >= end || from >= text.len() {
        Seq::empty()
    } else if is_separator(text[from]) {
        tokens_from(text, from + 1, end)
    } else if is_single(text[from]) {
        seq![(from, from + 1)] + tokens_from(text, from + 1, end)
    } else {
        let at = word_end(text, from + 1, end);
        seq![(from, at)] + tokens_from(
            text,
            if from < at <= end {
                at
            } else {
                end
            },
            end,
        )
    }
}

/// Finds the end of the word that begins before `from`.
fn find_word_end(text: &[u8], from: usize, end: usize) -> (at: usize)
    requires
        from <= end <= text@.len(),
    ensures
        at == word_end(text@, from as int, end as int),
        from <= at <= end,
{
    let mut i: usize = from;
    while i < end && !(text[i] == 32 || text[i] == 9 || text[i] == 13 || text[i] == 44 || text[i]
        == 40 || text[i] == 41 || text[i] == 58)
        invariant
            from <= i <= end,
            end <= text@.len(),
            word_end(text@, from as int, end as int) == word_end(text@, i as int, end as int),
        decreases end - i,
    {
        i = i + 1;
    }
    i
}

/// Splits the text between `from` and `end` into tokens.
pub fn split_tokens(text: &[u8], from: usize, end: usize) -> (tokens: Vec<Span>)
    requires
        from <= end <= text@.len(),
    ensures
        spans_view(tokens@) == tokens_from(text@, from as int, end as int),
        forall|i: int|
            0 <= i < tokens@.len() ==> from <= (#[trigger] tokens@[i]).0 < tokens@[i].1 <= end,
{
    let mut tokens: Vec<Span> = Vec::new();
    let mut i: usize = from;
    while i < end
        invariant
            from <= i <= end,
            end <= text@.len(),
            tokens_from(text@, from as int, end as int) == spans_view(tokens@) + tokens_from(
                text@,
                i as int,
                end as int,
            ),
            forall|j: int|
                0 <= j < tokens@.len() ==> from <= (#[trigger] tokens@[j]).0 < tokens@[j].1
                    <= end,
        decreases end - i,
    {
        let b: u8 = text[i];
        let ghost before = spans_view(tokens@);
        let ghost rest = tokens_from(text@, i as int, end as int);
        if b == 32 || b == 9 || b == 13 || b == 44 {
            i = i + 1;
        } else if b == 40 || b == 41 || b == 58 {
            tokens.push((i, i + 1));
            assert(spans_view(tokens@) =~= before + seq![(i as int, i as int + 1)]);
            assert(before + rest =~= spans_view(tokens@) + tokens_from(
                text@,
                i as int + 1,
                end as int,
            ));
            i = i + 1;
        } else {
            let at: usize = find_word_end(text, i + 1, end);
            tokens.push((i, at));
            assert(spans_view(tokens@) =~= before + seq![(i as int, at as int)]);
            assert(before + rest =~= spans_view(tokens@) + tokens_from(
                text@,
                at as int,
                end as int,
            ));
            i = at;
        }
    }
    assert(spans_view(tokens@) + Seq::<(int, int)>::empty() =~= spans_view(tokens@));
    tokens
}

} // verus!
