//! The tokens of a description.
//!
//! Blanks, tabs and line ends separate tokens. A remark runs from `//` to
//! the end of its line; so does a section title, which begins with `:=`. A
//! word is a run of letters, digits, underscores and dots. The operators
//! `=>`, `->`, `==`, `!=`, `&&` and `||` are tokens of two bytes; any other
//! byte is a token of its own.
use vstd::prelude::*;
use crate::assembler::lexer::{find_line_end, lemma_line_end, line_end, spans_view, Span};

verus! {

/// Whether a byte separates tokens.
pub open spec fn is_blank(b: u8) -> bool {
    b == 32 || b == 9 || b == 13 || b == 10
}

/// Whether a byte can stand in a word: a letter, a digit, an underscore or a
/// dot.
pub open spec fn in_word(b: u8) -> bool {
    (48 <= b <= 57) || (65 <= b <= 90) || (97 <= b <= 122) || b == 95 || b == 46
}

/// Whether two bytes begin a remark or a section title.
pub open spec fn begins_remark(a: u8, b: u8) -> bool {
    (a == 47 && b == 47) || (a == 58 && b == 61)
}

/// Whether two bytes are an operator.
pub open spec fn is_operator(a: u8, b: u8) -> bool {
    ((a == 61 || a == 45) && b == 62) || ((a == 61 || a == 33) && b == 61) || (a == 38 && b == 38)
        || (a == 124 && b == 124)
}

/// Where the word that holds the byte before `from` ends.
pub open spec fn word_end(text: Seq<u8>, from: int) -> int
    decreases text.len() - from,
{
    if from < 0 || from >= text.len() {
        text.len() as int
    } else if !in_word(text[from]) {
        from
    } else {
        word_end(text, from + 1)
    }
}

/// Where the token that begins at `from` ends, or where what is to be
/// skipped there ends.
pub open spec fn piece_end(text: Seq<u8>, from: int) -> int {
    let a = text[from];
    if is_blank(a) {
        from + 1
    } else if from + 1 < text.len() && begins_remark(a, text[from + 1]) {
        line_end(text, from)
    } else if in_word(a) {
        word_end(text, from + 1)
    } else if from + 1 < text.len() && is_operator(a, text[from + 1]) {
        from + 2
    } else {
        from + 1
    }
}

/// Whether a token begins at `from`, and not a blank or a remark.
pub open spec fn begins_token(text: Seq<u8>, from: int) -> bool {
    !is_blank(text[from]) && !(from + 1 < text.len() && begins_remark(text[from], text[from + 1]))
}

/// The tokens of the text from `from` on.
pub open spec fn tokens_from(text: Seq<u8>, from: int) -> Seq<(int, int)>
    decreases text.len() - from,
{
    if from < 0 || from >= text.len() {
        Seq::empty()
    } else {
        let end = piece_end(text, from);
        let next = if from < end <= text.len() {
            end
        } else {
            text.len() as int
        };
        if begins_token(text, from) {
            seq![(from, end)] + tokens_from(text, next)
        } else {
            tokens_from(text, next)
        }
    }
}

/// Finds the end of a word.
fn find_word_end(text: &[u8], from: usize) -> (at: usize)
    requires
        from <= text@.len(),
    ensures
        at == word_end(text@, from as int),
        from <= at <= text@.len(),
{
    let mut i: usize = from;
    while i < text.len() && ((48 <= text[i] && text[i] <= 57) || (65 <= text[i] && text[i] <= 90)
        || (97 <= text[i] && text[i] <= 122) || text[i] == 95 || text[i] == 46)
        invariant
            from <= i <= text@.len(),
            word_end(text@, from as int) == word_end(text@, i as int),
        decreases text@.len() - i,
    {
        i = i + 1;
    }
    i
}

/// Finds the end of the piece that begins at `from`.
fn find_piece_end(text: &[u8], from: usize) -> (end: usize)
    requires
        from < text@.len(),
    ensures
        end == piece_end(text@, from as int),
        from < end <= text@.len(),
{
    let a: u8 = text[from];
    if a == 32 || a == 9 || a == 13 || a == 10 {
        return from + 1;
    }
    if from + 1 < text.len() {
        let b: u8 = text[from + 1];
        if (a == 47 && b == 47) || (a == 58 && b == 61) {
            proof {
                lemma_line_end(text@, from as int);
                lemma_line_end(text@, from as int + 1);
            }
            return find_line_end(text, from);
        }
    }
    if (48 <= a && a <= 57) || (65 <= a && a <= 90) || (97 <= a && a <= 122) || a == 95 || a
        == 46 {
        return find_word_end(text, from + 1);
    }
    if from + 1 < text.len() {
        let b: u8 = text[from + 1];
        if ((a == 61 || a == 45) && b == 62) || ((a == 61 || a == 33) && b == 61) || (a == 38 && b
            == 38) || (a == 124 && b == 124) {
            return from + 2;
        }
    }
    from + 1
}

/// Splits a text into tokens.
pub fn split(text: &[u8]) -> (tokens: Vec<Span>)
    ensures
        spans_view(tokens@) == tokens_from(text@, 0),
        forall|i: int|
            0 <= i < tokens@.len() ==> (#[trigger] tokens@[i]).0 < tokens@[i].1 <= text@.len(),
{
    let mut tokens: Vec<Span> = Vec::new();
    let mut i: usize = 0;
    while i < text.len()
        invariant
            i <= text@.len(),
            tokens_from(text@, 0) == spans_view(tokens@) + tokens_from(text@, i as int),
            forall|j: int|
                0 <= j < tokens@.len() ==> (#[trigger] tokens@[j]).0 < tokens@[j].1 <= text@.len(),
        decreases text@.len() - i,
    {
        let end: usize = find_piece_end(text, i);
        let a: u8 = text[i];
        let ghost before = spans_view(tokens@);
        let skipped: bool = a == 32 || a == 9 || a == 13 || a == 10 || (i + 1 < text.len() && ((a
            == 47 && text[i + 1] == 47) || (a == 58 && text[i + 1] == 61)));
        if !skipped {
            tokens.push((i, end));
            assert(spans_view(tokens@) =~= before + seq![(i as int, end as int)]);
            assert(before + tokens_from(text@, i as int) =~= spans_view(tokens@) + tokens_from(
                text@,
                end as int,
            ));
        }
        i = end;
    }
    assert(spans_view(tokens@) + Seq::<(int, int)>::empty() =~= spans_view(tokens@));
    tokens
}

} // verus!
