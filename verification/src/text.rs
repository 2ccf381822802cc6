//! Source text with line bookkeeping: maps absolute character offsets to
//! line numbers and line-start offsets, for diagnostic rendering.  Lines are
//! newline-delimited; a position lies on line `k` (counting from zero) when
//! exactly `k` newlines precede it.

use vstd::prelude::*;

verus! {

/// Newlines strictly before `pos`.
pub open spec fn newlines_before(text: Seq<char>, pos: int) -> nat
    decreases pos,
{
    if 0 < pos <= text.len() {
        newlines_before(text, pos - 1) + (if text[pos - 1] == '\n' {
            1nat
        } else {
            0nat
        })
    } else {
        0
    }
}

/// Characters from `pos` up to the next newline or the end of the text.
pub open spec fn line_len_at(text: Seq<char>, pos: int) -> nat
    decreases text.len() - pos,
{
    if 0 <= pos < text.len() && text[pos] != '\n' {
        1 + line_len_at(text, pos + 1)
    } else {
        0
    }
}

/// The start offset of line `index`: each line starts right after the
/// newline that ends the line before it.
pub open spec fn spec_line_start(text: Seq<char>, index: int) -> int
    decreases index,
{
    if index <= 0 {
        0
    } else {
        let prev = spec_line_start(text, index - 1);
        prev + line_len_at(text, prev) + 1
    }
}

/// How many lines start at or after `pos` (a final line without a trailing
/// newline counts).
pub open spec fn lines_from(text: Seq<char>, pos: int) -> nat
    decreases
            (if pos <= text.len() {
                text.len() - pos
            } else {
                0int
            }),
        via lines_from_decreases
{
    if 0 <= pos < text.len() {
        1 + lines_from(text, pos + line_len_at(text, pos) + 1)
    } else {
        0
    }
}

#[via_fn]
proof fn lines_from_decreases(text: Seq<char>, pos: int) {
    if 0 <= pos < text.len() {
        lemma_line_len_bound(text, pos);
    }
}

/// The number of lines of the text.
pub open spec fn line_count(text: Seq<char>) -> nat {
    lines_from(text, 0)
}

/// The text of line `index`.
pub open spec fn spec_line(text: Seq<char>, index: int) -> Seq<char> {
    let start = spec_line_start(text, index);
    text.subrange(start, start + line_len_at(text, start))
}

/// A line never reaches past the end of the text.
pub proof fn lemma_line_len_bound(text: Seq<char>, pos: int)
    requires
        0 <= pos <= text.len(),
    ensures
        pos + line_len_at(text, pos) <= text.len(),
    decreases text.len() - pos,
{
    if pos < text.len() && text[pos] != '\n' {
        lemma_line_len_bound(text, pos + 1);
    }
}

/// Wraps raw input and answers line lookups against it.
pub struct SourceText {
    text: String,
}

impl SourceText {
    /// The characters of the wrapped input.
    pub closed spec fn spec_text(self) -> Seq<char> {
        self.text@
    }

    /// The wrapped text leaves room for one-past-the-end offsets.
    pub closed spec fn wf(self) -> bool {
        self.text@.len() < usize::MAX
    }

    pub fn new(text: String) -> (r: Self)
        requires
            text@.len() < usize::MAX,
        ensures
            r.spec_text() == text@,
            r.wf(),
    {
        Self { text }
    }

    /// The length of the wrapped text, in characters.
    pub fn text_length(&self) -> (r: usize)
        ensures
            r == self.spec_text().len(),
    {
        self.text.as_str().unicode_len()
    }

    /// How many lines the text has.
    pub fn count_lines(&self) -> (r: usize)
        requires
            self.wf(),
        ensures
            r == line_count(self.spec_text()),
    {
        let ghost text = self.spec_text();
        let len = self.text.as_str().unicode_len();
        let mut start: usize = 0;
        let mut count: usize = 0;
        while start < len
            invariant
                self.wf(),
                text == self.spec_text(),
                len == text.len(),
                count <= start <= len + 1,
                lines_from(text, start as int) + count == line_count(text),
            decreases len + 1 - start,
        {
            let step = self.line_length_at(start);
            start = start + step + 1;
            count = count + 1;
        }
        count
    }

    /// The zero-based line number the given offset lies on: the number of
    /// newlines before it.
    pub fn line_index(&self, position: usize) -> (r: usize)
        requires
            position <= self.spec_text().len(),
        ensures
            r == newlines_before(self.spec_text(), position as int),
    {
        let ghost text = self.spec_text();
        let mut count: usize = 0;
        let mut i: usize = 0;
        while i < position
            invariant
                i <= position <= text.len(),
                text == self.spec_text(),
                count == newlines_before(text, i as int),
                count <= i,
            decreases position - i,
        {
            let c = self.text.as_str().get_char(i);
            if c == '\n' {
                count = count + 1;
            }
            i = i + 1;
        }
        count
    }

    /// The number of characters from `pos` to the next newline or the end.
    fn line_length_at(&self, pos: usize) -> (r: usize)
        requires
            pos <= self.spec_text().len(),
        ensures
            r == line_len_at(self.spec_text(), pos as int),
            pos + r <= self.spec_text().len(),
    {
        let ghost text = self.spec_text();
        proof {
            lemma_line_len_bound(text, pos as int);
        }
        let len = self.text.as_str().unicode_len();
        let mut i: usize = pos;
        while i < len && self.text.as_str().get_char(i) != '\n'
            invariant
                pos <= i <= len,
                len == text.len(),
                text == self.spec_text(),
                line_len_at(text, pos as int) == (i - pos) + line_len_at(text, i as int),
            decreases len - i,
        {
            i = i + 1;
        }
        i - pos
    }

    /// The start offset of line `index`; defined for every line the text
    /// has, and for the position just past a final trailing newline.
    pub fn line_start(&self, index: usize) -> (r: usize)
        requires
            self.wf(),
            index <= line_count(self.spec_text()),
        ensures
            r == spec_line_start(self.spec_text(), index as int),
            lines_from(self.spec_text(), r as int) + index == line_count(self.spec_text()),
    {
        let ghost text = self.spec_text();
        let mut start: usize = 0;
        let mut k: usize = 0;
        while k < index
            invariant
                k <= index,
                self.wf(),
                text == self.spec_text(),
                start == spec_line_start(text, k as int),
                start <= text.len() + 1,
                lines_from(text, start as int) + k == line_count(text),
                index <= line_count(text),
            decreases index - k,
        {
            proof {
                assert(lines_from(text, start as int) >= 1);
                assert(start < text.len());
            }
            let step = self.line_length_at(start);
            start = start + step + 1;
            k = k + 1;
        }
        start
    }

    /// The text of line `index`, without its newline.
    pub fn get_line(&self, index: usize) -> (r: &str)
        requires
            self.wf(),
            index < line_count(self.spec_text()),
        ensures
            r@ == spec_line(self.spec_text(), index as int),
    {
        let ghost text = self.spec_text();
        let start = self.line_start(index);
        proof {
            assert(lines_from(text, start as int) >= 1);
        }
        let length = self.line_length_at(start);
        self.text.as_str().substring_char(start, start + length)
    }
}

} // verus!
