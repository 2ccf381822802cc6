//! Renders diagnostics against source text: the highlighted span with up to
//! eight columns of context on each side, a caret underline sized to the
//! span, and an indented `+-- <message>` line.

use super::{Diagnostic, DiagnosticView};
use crate::text::{
    line_count, line_len_at, newlines_before, spec_line, spec_line_start, SourceText,
};
use vstd::prelude::*;

verus! {

/// Columns of context kept on either side of the highlighted span.
pub const PREFIX_LENGTH: usize = 8;

/// `n` spaces.
pub open spec fn spaces(n: nat) -> Seq<char> {
    Seq::new(n, |i: int| ' ')
}

/// `n` caret marks.
pub open spec fn carets(n: nat) -> Seq<char> {
    Seq::new(n, |i: int| '^')
}

/// The smaller of two values.
pub open spec fn min_int(a: int, b: int) -> int {
    if a <= b {
        a
    } else {
        b
    }
}

/// A diagnostic can be rendered when its span is not inverted and starts on
/// a line the text actually has, within that line; anything else is a
/// contract violation by the producer, not tolerated by the renderer.
pub open spec fn renderable(text: Seq<char>, d: DiagnosticView) -> bool {
    let line_index = newlines_before(text, d.span.start);
    let line_start = spec_line_start(text, line_index as int);
    &&& d.span.start <= d.span.end
    &&& d.span.start <= text.len()
    &&& line_index < line_count(text)
    &&& line_start <= d.span.start
    &&& d.span.start - line_start <= line_len_at(text, line_start)
}

/// The three pieces of the quoted source line: up to eight columns before
/// the span, the span itself (clipped to the line), and up to eight columns
/// after it.
pub open spec fn spec_text_spans(line: Seq<char>, column: int, span_length: int) -> (
    Seq<char>,
    Seq<char>,
    Seq<char>,
) {
    let prefix_start = if column - 8 >= 0 {
        column - 8
    } else {
        0
    };
    let suffix_start = min_int(column + span_length, line.len() as int);
    let suffix_end = min_int(suffix_start + 8, line.len() as int);
    (
        line.subrange(prefix_start, column),
        line.subrange(column, suffix_start),
        line.subrange(suffix_start, suffix_end),
    )
}

/// The caret underline and its continuation bar, indented to the span's
/// column (at most eight).
pub open spec fn spec_pointer(span_length: nat, indent: nat) -> (Seq<char>, Seq<char>) {
    (spaces(indent) + carets(span_length), spaces(indent) + "|"@)
}

/// The `+-- <message>` line under the pointer.
pub open spec fn spec_error_message(message: Seq<char>, indent: nat) -> Seq<char> {
    spaces(indent) + "+-- "@ + message
}

/// The full rendering of one diagnostic: the quoted line pieces, the caret
/// underline, the bar and the message, newline-separated.
pub open spec fn spec_stringify(text: Seq<char>, d: DiagnosticView) -> Seq<char> {
    let line_index = newlines_before(text, d.span.start);
    let line = spec_line(text, line_index as int);
    let line_start = spec_line_start(text, line_index as int);
    let column = d.span.start - line_start;
    let span_length = d.span.end - d.span.start;
    let pieces = spec_text_spans(line, column, span_length);
    let indent = min_int(8, column) as nat;
    let pointer = spec_pointer(span_length as nat, indent);
    pieces.0 + pieces.1 + pieces.2 + "\n"@ + pointer.0 + "\n"@ + pointer.1 + "\n"@
        + spec_error_message(d.message, indent)
}

/// Renders a set of diagnostics against the text they were reported on.
pub struct DiagnosticPrinter<'a> {
    text: &'a SourceText,
    diagnostics: &'a Vec<Diagnostic>,
}

impl<'a> DiagnosticPrinter<'a> {
    /// The source the diagnostics point into.
    pub closed spec fn source(self) -> Seq<char> {
        self.text.spec_text()
    }

    /// The diagnostics to render.
    pub closed spec fn diags(self) -> Seq<DiagnosticView> {
        self.diagnostics@.map_values(|d: Diagnostic| d@)
    }

    pub closed spec fn wf(self) -> bool {
        self.text.wf()
    }

    pub fn new(text: &'a SourceText, diagnostics: &'a Vec<Diagnostic>) -> (r: Self)
        requires
            text.wf(),
        ensures
            r.wf(),
            r.source() == text.spec_text(),
            r.diags() == diagnostics@.map_values(|d: Diagnostic| d@),
    {
        Self { text, diagnostics }
    }

    /// Renders one diagnostic, or nothing where its span does not lie on a
    /// line of the text (a producer-side contract violation).
    pub fn stringify_diagnostics(&self, diagnostic: &Diagnostic) -> (r: Option<String>)
        requires
            self.wf(),
        ensures
            match r {
                Some(s) => renderable(self.source(), diagnostic@) && s@ == spec_stringify(
                    self.source(),
                    diagnostic@,
                ),
                None => !renderable(self.source(), diagnostic@),
            },
    {
        if diagnostic.span.start > diagnostic.span.end {
            return None;
        }
        if diagnostic.span.start > self.text.text_length() {
            return None;
        }
        let line_index = self.text.line_index(diagnostic.span.start);
        if line_index >= self.text.count_lines() {
            return None;
        }
        let line_start = self.text.line_start(line_index);
        if line_start > diagnostic.span.start {
            return None;
        }
        let line = self.text.get_line(line_index);
        let column = diagnostic.span.start - line_start;
        proof {
            let text = self.source();
            let ls = spec_line_start(text, line_index as int);
            crate::text::lemma_line_len_bound(text, ls);
            assert(line@.len() == line_len_at(text, ls));
        }
        if column > line.unicode_len() {
            return None;
        }

        let (prefix, span, suffix) = Self::text_spans(diagnostic, line, column);
        let indent = if column < PREFIX_LENGTH {
            column
        } else {
            PREFIX_LENGTH
        };
        let (pointers, pointer_line) = Self::format_pointer(diagnostic, indent);
        let error_message = Self::format_error_message(diagnostic, indent);
        let rendered = String::from_str(prefix)
            .concat(span)
            .concat(suffix)
            .concat("\n")
            .concat(pointers.as_str())
            .concat("\n")
            .concat(pointer_line.as_str())
            .concat("\n")
            .concat(error_message.as_str());
        Some(rendered)
    }

    /// The `+-- <message>` line, indented to the span's column.
    fn format_error_message(diagnostic: &Diagnostic, indent: usize) -> (r: String)
        ensures
            r@ == spec_error_message(diagnostic.message@, indent as nat),
    {
        spaces_string(indent).concat("+-- ").concat(diagnostic.message.as_str())
    }

    /// The caret underline, one caret per character of the span, and the
    /// continuation bar under it.
    fn format_pointer(diagnostic: &Diagnostic, indent: usize) -> (r: (String, String))
        requires
            diagnostic.span.start <= diagnostic.span.end,
        ensures
            (r.0@, r.1@) == spec_pointer(
                (diagnostic.span@.end - diagnostic.span@.start) as nat,
                indent as nat,
            ),
    {
        let pointers = spaces_string(indent).concat(carets_string(diagnostic.span.length()).as_str());
        let pointer_line = spaces_string(indent).concat("|");
        (pointers, pointer_line)
    }

    /// Slices the quoted line into prefix, highlighted span and suffix.
    fn text_spans(diagnostic: &Diagnostic, line: &'a str, column: usize) -> (r: (
        &'a str,
        &'a str,
        &'a str,
    ))
        requires
            diagnostic.span.start <= diagnostic.span.end,
            column <= line@.len(),
        ensures
            (r.0@, r.1@, r.2@) == spec_text_spans(
                line@,
                column as int,
                diagnostic.span@.end - diagnostic.span@.start,
            ),
    {
        let length = diagnostic.span.length();
        let line_len = line.unicode_len();
        let prefix_start = if column >= PREFIX_LENGTH {
            column - PREFIX_LENGTH
        } else {
            0
        };
        let span_end = if length <= line_len - column {
            column + length
        } else {
            line_len
        };
        let suffix_end = if line_len - span_end >= PREFIX_LENGTH {
            span_end + PREFIX_LENGTH
        } else {
            line_len
        };

        let prefix = line.substring_char(prefix_start, column);
        let span = line.substring_char(column, span_end);
        let suffix = line.substring_char(span_end, suffix_end);
        (prefix, span, suffix)
    }
}

/// A string of `n` spaces.
fn spaces_string(n: usize) -> (r: String)
    ensures
        r@ == spaces(n as nat),
{
    let mut out = String::new();
    let mut i: usize = 0;
    while i < n
        invariant
            i <= n,
            out@ == spaces(i as nat),
        decreases n - i,
    {
        out.append(" ");
        proof {
            reveal_strlit(" ");
            assert(out@ =~= spaces((i + 1) as nat));
        }
        i = i + 1;
    }
    out
}

/// A string of `n` caret marks.
fn carets_string(n: usize) -> (r: String)
    ensures
        r@ == carets(n as nat),
{
    let mut out = String::new();
    let mut i: usize = 0;
    while i < n
        invariant
            i <= n,
            out@ == carets(i as nat),
        decreases n - i,
    {
        out.append("^");
        proof {
            reveal_strlit("^");
            assert(out@ =~= carets((i + 1) as nat));
        }
        i = i + 1;
    }
    out
}

} // verus!
