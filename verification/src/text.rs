//! Characters, runs of characters of one class, and positions in a text.

use crate::lexer::Location;
use vstd::prelude::*;

verus! {

/// ASCII whitespace: space, tab, line feed, form feed, carriage return.
pub open spec fn is_space(c: char) -> bool {
    c == ' ' || c == '\t' || c == '\n' || c == '\x0C' || c == '\r'
}

/// ASCII decimal digit.
pub open spec fn is_digit(c: char) -> bool {
    '0' <= c <= '9'
}

/// The classes of characters that texts are cut by.
#[derive(Clone, Copy, Debug, PartialEq, Eq)]
pub enum CharClass {
    /// Anything but whitespace.
    Word,
    /// A decimal digit.
    Digit,
}

impl CharClass {
    /// Whether `c` belongs to the class.
    pub open spec fn holds(self, c: char) -> bool {
        match self {
            CharClass::Word => !is_space(c),
            CharClass::Digit => is_digit(c),
        }
    }

    /// Tests whether `c` belongs to the class.
    pub fn test(self, c: char) -> (r: bool)
        ensures
            r == self.holds(c),
    {
        match self {
            CharClass::Word => !(c == ' ' || c == '\t' || c == '\n' || c == '\x0C' || c == '\r'),
            CharClass::Digit => '0' <= c && c <= '9',
        }
    }
}

/// A half-open range `start..end` of positions in a text, counted in characters.
#[derive(Clone, Copy, Debug, PartialEq, Eq)]
pub struct Span {
    pub start: usize,
    pub end: usize,
}

impl Span {
    /// The characters of `text` that the span covers.
    pub open spec fn of(self, text: Seq<char>) -> Seq<char> {
        text.subrange(self.start as int, self.end as int)
    }
}

/// Where the run of `class` characters that holds position `pos` stops: the first position
/// from `pos` on whose character is not of the class, or the end of the text.
pub open spec fn run_end(text: Seq<char>, class: CharClass, pos: int) -> int
    decreases text.len() - pos,
{
    if 0 <= pos < text.len() && class.holds(text[pos]) {
        run_end(text, class, pos + 1)
    } else {
        pos
    }
}

/// The maximal runs of `class` characters that start at `pos` or later, from left to right.
pub open spec fn runs_from(text: Seq<char>, class: CharClass, pos: int) -> Seq<Span>
    decreases text.len() - pos,
    via runs_from_decreases
{
    if pos < 0 || pos >= text.len() {
        Seq::empty()
    } else if !class.holds(text[pos]) {
        runs_from(text, class, pos + 1)
    } else {
        seq![Span { start: pos as usize, end: run_end(text, class, pos) as usize }] + runs_from(
            text,
            class,
            run_end(text, class, pos),
        )
    }
}

#[via_fn]
proof fn runs_from_decreases(text: Seq<char>, class: CharClass, pos: int) {
    if 0 <= pos < text.len() && class.holds(text[pos]) {
        lemma_run_end(text, class, pos + 1);
    }
}

/// The maximal runs of `class` characters in `text`, from left to right.
pub open spec fn runs(text: Seq<char>, class: CharClass) -> Seq<Span> {
    runs_from(text, class, 0)
}

/// A run stops at or after its start, within the text, at a character that is not of the
/// class, and holds only characters of the class.
pub proof fn lemma_run_end(text: Seq<char>, class: CharClass, pos: int)
    requires
        0 <= pos <= text.len(),
    ensures
        pos <= run_end(text, class, pos) <= text.len(),
        forall|i: int| pos <= i < run_end(text, class, pos) ==> class.holds(#[trigger] text[i]),
        run_end(text, class, pos) < text.len() ==> !class.holds(text[run_end(text, class, pos)]),
    decreases text.len() - pos,
{
    if pos < text.len() && class.holds(text[pos]) {
        lemma_run_end(text, class, pos + 1);
    }
}

/// Cuts `chars` into its maximal runs of `class` characters.
pub fn split_runs(chars: &Vec<char>, class: CharClass) -> (spans: Vec<Span>)
    ensures
        spans@ == runs(chars@, class),
{
    let mut spans: Vec<Span> = Vec::new();
    let mut pos: usize = 0;
    while pos < chars.len()
        invariant
            pos <= chars.len(),
            spans@ + runs_from(chars@, class, pos as int) == runs(chars@, class),
        decreases chars.len() - pos,
    {
        if class.test(chars[pos]) {
            let start = pos;
            while pos < chars.len() && class.test(chars[pos])
                invariant
                    start <= pos <= chars.len(),
                    run_end(chars@, class, start as int) == run_end(chars@, class, pos as int),
                decreases chars.len() - pos,
            {
                pos = pos + 1;
            }
            spans.push(Span { start, end: pos });
        } else {
            pos = pos + 1;
        }
    }
    spans
}

/// What holds of the runs from `pos` on: each lies at or after `pos` and within the text,
/// is not empty, holds only characters of the class and cannot be extended to the right,
/// nor to the left but for a run that starts at `pos` itself; and each run stops before the
/// next one starts.
pub proof fn lemma_runs_from(text: Seq<char>, class: CharClass, pos: int)
    requires
        0 <= pos <= text.len() <= usize::MAX,
    ensures
        forall|k: int|
            0 <= k < runs_from(text, class, pos).len() ==> {
                let span = #[trigger] runs_from(text, class, pos)[k];
                &&& pos <= span.start < span.end <= text.len()
                &&& span.end == run_end(text, class, span.start as int)
                &&& class.holds(text[span.start as int])
                &&& span.start == pos || !class.holds(text[span.start - 1])
            },
        forall|j: int, k: int|
            0 <= j < k < runs_from(text, class, pos).len() ==> runs_from(text, class, pos)[j].end
                < runs_from(text, class, pos)[k].start,
    decreases text.len() - pos,
{
    if pos >= text.len() {
        assert(runs_from(text, class, pos).len() == 0);
    } else if !class.holds(text[pos]) {
        lemma_runs_from(text, class, pos + 1);
        assert(runs_from(text, class, pos) == runs_from(text, class, pos + 1));
    } else {
        let end = run_end(text, class, pos);
        lemma_run_end(text, class, pos + 1);
        lemma_runs_from(text, class, end);
        let first = Span { start: pos as usize, end: end as usize };
        let rest = runs_from(text, class, end);
        let all = runs_from(text, class, pos);
        assert(all == seq![first] + rest);
        assert forall|k: int| 0 <= k < all.len() implies {
            let span = #[trigger] all[k];
            &&& pos <= span.start < span.end <= text.len()
            &&& span.end == run_end(text, class, span.start as int)
            &&& class.holds(text[span.start as int])
            &&& span.start == pos || !class.holds(text[span.start - 1])
        } by {
            if k > 0 {
                assert(all[k] == rest[k - 1]);
            }
        }
        assert forall|j: int, k: int| 0 <= j < k < all.len() implies all[j].end
            < all[k].start by {
            assert(all[k] == rest[k - 1]);
            if j > 0 {
                assert(all[j] == rest[j - 1]);
            }
        }
    }
}

/// The line that position `pos` of `text` is on: one more than the line feeds before it.
pub open spec fn line_at(text: Seq<char>, pos: int) -> int
    decreases pos,
{
    if pos <= 0 {
        1
    } else if text[pos - 1] == '\n' {
        line_at(text, pos - 1) + 1
    } else {
        line_at(text, pos - 1)
    }
}

/// The column of position `pos` of `text`: one more than the characters between the start
/// of its line and it.
pub open spec fn col_at(text: Seq<char>, pos: int) -> int
    decreases pos,
{
    if pos <= 0 || text[pos - 1] == '\n' {
        1
    } else {
        col_at(text, pos - 1) + 1
    }
}

/// Line and column of position `pos` of `text`.
pub open spec fn location_at(text: Seq<char>, pos: int) -> Location {
    Location { line: line_at(text, pos) as usize, col: col_at(text, pos) as usize }
}

/// Lines and columns start at 1 and grow by at most one with each character.
pub proof fn lemma_position_bounds(text: Seq<char>, pos: int)
    requires
        0 <= pos,
    ensures
        1 <= line_at(text, pos) <= pos + 1,
        1 <= col_at(text, pos) <= pos + 1,
    decreases pos,
{
    if pos > 0 {
        lemma_position_bounds(text, pos - 1);
    }
}

/// The location of position `to`, given that of an earlier position `from`.
pub fn advance(chars: &Vec<char>, from: usize, at: Location, to: usize) -> (r: Location)
    requires
        from <= to < chars.len(),
        at == location_at(chars@, from as int),
    ensures
        r == location_at(chars@, to as int),
{
    let mut pos: usize = from;
    let mut line: usize = at.line;
    let mut col: usize = at.col;
    proof {
        lemma_position_bounds(chars@, from as int);
    }
    while pos < to
        invariant
            from <= pos <= to < chars.len(),
            line == line_at(chars@, pos as int),
            col == col_at(chars@, pos as int),
        decreases to - pos,
    {
        proof {
            lemma_position_bounds(chars@, pos as int);
        }
        if chars[pos] == '\n' {
            line = line + 1;
            col = 1;
        } else {
            col = col + 1;
        }
        pos = pos + 1;
    }
    Location { line, col }
}

/// The characters of `input`.
pub fn collect_chars(input: &str) -> (chars: Vec<char>)
    ensures
        chars@ == input@,
{
    let mut chars: Vec<char> = Vec::new();
    for c in it: input.chars()
        invariant
            it.seq() == input@,
            chars@ == input@.take(it.index() as int),
    {
        chars.push(c);
    }
    chars
}

/// Whether the characters that `span` covers are those of `word`.
pub fn spells(chars: &Vec<char>, span: Span, word: &str) -> (r: bool)
    requires
        span.start <= span.end <= chars.len(),
    ensures
        r == (span.of(chars@) == word@),
{
    let mut pos: usize = span.start;
    for c in it: word.chars()
        invariant
            it.seq() == word@,
            span.start <= pos <= span.end <= chars.len(),
            pos - span.start == it.index(),
            it.index() <= word@.len(),
            chars@.subrange(span.start as int, pos as int) == word@.take(it.index() as int),
    {
        if pos == span.end || chars[pos] != c {
            return false;
        }
        pos = pos + 1;
    }
    proof {
        assert(word@.take(word@.len() as int) =~= word@);
    }
    pos == span.end
}

} // verus!
