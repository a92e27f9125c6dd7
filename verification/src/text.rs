//! Text as the compositor reads it: lines in input order, each a sequence of
//! characters, and the widest of them.

use vstd::prelude::*;
use vstd::std_specs::iter::IteratorSpec;

verus! {

/// The character that ends a line.
pub const LINE_BREAK: char = '\n';

/// The lines of a text: the stretches between line breaks, in order. A text
/// with `n` line breaks has `n + 1` lines, so the empty text is one empty
/// line, and a text that ends in a line break ends in an empty line.
pub open spec fn split_lines(text: Seq<char>) -> Seq<Seq<char>>
    decreases text.len(),
{
    if text.len() == 0 {
        seq![Seq::<char>::empty()]
    } else {
        let before = split_lines(text.drop_last());
        if text.last() == LINE_BREAK {
            before.push(Seq::<char>::empty())
        } else {
            before.update(before.len() - 1, before.last().push(text.last()))
        }
    }
}

/// Length of the longest line; zero where there is no line.
pub open spec fn max_line_len(lines: Seq<Seq<char>>) -> nat
    decreases lines.len(),
{
    if lines.len() == 0 {
        0
    } else {
        let before = max_line_len(lines.drop_last());
        if lines.last().len() > before {
            lines.last().len()
        } else {
            before
        }
    }
}

/// The rows of a vector of vectors, as sequences.
pub open spec fn rows_view<T>(rows: Vec<Vec<T>>) -> Seq<Seq<T>> {
    Seq::new(rows@.len(), |i: int| rows@[i]@)
}

/// A text has at least one line.
pub proof fn lemma_split_lines_nonempty(text: Seq<char>)
    ensures
        split_lines(text).len() >= 1,
    decreases text.len(),
{
    if text.len() > 0 {
        lemma_split_lines_nonempty(text.drop_last());
    }
}

/// Every character of every line is a character of the text, and none of
/// them is a line break.
pub proof fn lemma_split_lines_characters(text: Seq<char>, line: int, index: int)
    requires
        0 <= line < split_lines(text).len(),
        0 <= index < split_lines(text)[line].len(),
    ensures
        text.contains(split_lines(text)[line][index]),
        split_lines(text)[line][index] != LINE_BREAK,
    decreases text.len(),
{
    if text.len() > 0 {
        let shorter = text.drop_last();
        let before = split_lines(shorter);
        lemma_split_lines_nonempty(shorter);
        if text.last() != LINE_BREAK && line == before.len() - 1 && index == before.last().len() {
        } else {
            lemma_split_lines_characters(shorter, line, index);
            let c = split_lines(text)[line][index];
            let k = choose|k: int| 0 <= k < shorter.len() && shorter[k] == c;
            assert(text[k] == c);
        }
    }
}

/// No line is longer than the longest.
pub proof fn lemma_max_line_len_bounds(lines: Seq<Seq<char>>, line: int)
    requires
        0 <= line < lines.len(),
    ensures
        lines[line].len() <= max_line_len(lines),
    decreases lines.len(),
{
    if line < lines.len() - 1 {
        lemma_max_line_len_bounds(lines.drop_last(), line);
    }
}

/// The characters of a string, in order.
pub fn text_chars(text: &str) -> (chars: Vec<char>)
    ensures
        chars@ == text@,
{
    broadcast use vstd::string::group_string_axioms;

    let mut chars: Vec<char> = Vec::new();
    let mut rest = text.chars();
    loop
        invariant
            rest.obeys_prophetic_iter_laws(),
            rest.decrease() is Some,
            chars@.len() <= text@.len(),
            chars@ == text@.take(chars@.len() as int),
            rest.remaining() == text@.skip(chars@.len() as int),
        ensures
            chars@ == text@,
        decreases rest.decrease()->0,
    {
        match rest.next() {
            Some(c) => {
                chars.push(c);
            },
            None => {
                break ;
            },
        }
    }
    chars
}

/// Splits a text into its lines.
pub fn text_lines(text: &[char]) -> (lines: Vec<Vec<char>>)
    ensures
        rows_view(lines) == split_lines(text@),
{
    let mut lines: Vec<Vec<char>> = Vec::new();
    let mut current: Vec<char> = Vec::new();
    let mut k: usize = 0;
    while k < text.len()
        invariant
            k <= text.len(),
            rows_view(lines).push(current@) == split_lines(text@.take(k as int)),
        decreases text.len() - k,
    {
        let c = text[k];
        proof {
            let longer = text@.take(k + 1);
            assert(longer.drop_last() == text@.take(k as int));
        }
        let ghost before = rows_view(lines).push(current@);
        if c == LINE_BREAK {
            lines.push(current);
            current = Vec::new();
        } else {
            current.push(c);
            assert(rows_view(lines).push(current@) == before.update(
                before.len() - 1,
                before.last().push(c),
            ));
        }
        k = k + 1;
    }
    lines.push(current);
    assert(text@.take(text.len() as int) == text@);
    lines
}

/// Length of the longest line; zero where there is no line.
pub fn max_line_length(lines: &Vec<Vec<char>>) -> (longest: usize)
    ensures
        longest == max_line_len(rows_view(*lines)),
{
    let mut longest: usize = 0;
    let mut k: usize = 0;
    while k < lines.len()
        invariant
            k <= lines.len(),
            longest == max_line_len(rows_view(*lines).take(k as int)),
        decreases lines.len() - k,
    {
        proof {
            let longer = rows_view(*lines).take(k + 1);
            assert(longer.drop_last() == rows_view(*lines).take(k as int));
        }
        if lines[k].len() > longest {
            longest = lines[k].len();
        }
        k = k + 1;
    }
    assert(rows_view(*lines).take(lines.len() as int) == rows_view(*lines));
    longest
}

} // verus!
