//! Diagnostics and the byte-offset to line/column mapping.

use vstd::prelude::*;

verus! {

/// How severe a reported style issue is. The style rules of this engine only
/// ever warn.
#[derive(Clone, Copy, PartialEq, Eq, Structural, Debug)]
pub enum DiagnosticSeverity {
    Warning,
}

/// A reported style issue: a position range in line/column coordinates
/// relative to the current document text, a severity, the tag of the engine
/// that produced it, and a human-readable message.
#[derive(Clone, PartialEq, Debug)]
pub struct Diagnostic {
    pub start_line: usize,
    pub start_col: usize,
    pub end_line: usize,
    pub end_col: usize,
    pub severity: DiagnosticSeverity,
    pub source_tag: String,
    pub message: String,
}

/// The mathematical image of a `Diagnostic`.
#[verifier::ext_equal]
pub struct DiagInfo {
    pub start_line: int,
    pub start_col: int,
    pub end_line: int,
    pub end_col: int,
    pub severity: DiagnosticSeverity,
    pub source_tag: Seq<char>,
    pub message: Seq<char>,
}

impl View for Diagnostic {
    type V = DiagInfo;

    open spec fn view(&self) -> DiagInfo {
        DiagInfo {
            start_line: self.start_line as int,
            start_col: self.start_col as int,
            end_line: self.end_line as int,
            end_col: self.end_col as int,
            severity: self.severity,
            source_tag: self.source_tag@,
            message: self.message@,
        }
    }
}

/// The images of a sequence of diagnostics.
pub open spec fn diags_view(s: Seq<Diagnostic>) -> Seq<DiagInfo> {
    s.map_values(|d: Diagnostic| d@)
}

/// The zero-based line number of byte offset `off`: the count of newline
/// bytes strictly before it.
pub open spec fn line_of(src: Seq<u8>, off: int) -> int
    decreases off,
{
    if off <= 0 {
        0
    } else if src[off - 1] == 10u8 {
        line_of(src, off - 1) + 1
    } else {
        line_of(src, off - 1)
    }
}

/// The byte offset at which the line containing offset `off` starts: zero, or
/// one past the last newline byte strictly before `off`.
pub open spec fn line_start_of(src: Seq<u8>, off: int) -> int
    decreases off,
{
    if off <= 0 {
        0
    } else if src[off - 1] == 10u8 {
        off
    } else {
        line_start_of(src, off - 1)
    }
}

/// How many UTF-16 code units the UTF-8 encoded character introduced by byte
/// `b` occupies: a continuation byte introduces none, a four-byte lead
/// encodes a supplementary character (two code units), every other byte
/// introduces a character of the basic plane (one code unit).
pub open spec fn utf16_units_of_byte(b: u8) -> int {
    if 0x80u8 <= b < 0xC0u8 {
        0
    } else if b >= 0xF0u8 {
        2
    } else {
        1
    }
}

/// The length of `src[lo..hi)` in UTF-16 code units.
pub open spec fn utf16_len(src: Seq<u8>, lo: int, hi: int) -> int
    decreases hi - lo,
{
    if lo >= hi {
        0
    } else {
        utf16_len(src, lo, hi - 1) + utf16_units_of_byte(src[hi - 1])
    }
}

/// A range in UTF-16 code units is never negative and at most twice its byte
/// length.
pub proof fn lemma_utf16_len_bounds(src: Seq<u8>, lo: int, hi: int)
    requires
        lo <= hi,
    ensures
        0 <= utf16_len(src, lo, hi) <= 2 * (hi - lo),
    decreases hi - lo,
{
    if lo < hi {
        lemma_utf16_len_bounds(src, lo, hi - 1);
    }
}

/// The zero-based column of byte offset `off` within its line, counted in
/// UTF-16 code units of the text between the line start and the offset.
pub open spec fn col_of(src: Seq<u8>, off: int) -> int {
    utf16_len(src, line_start_of(src, off), off)
}

/// A line starts at or before every offset it contains.
pub proof fn lemma_line_start_bounds(src: Seq<u8>, off: int)
    requires
        off >= 0,
    ensures
        0 <= line_start_of(src, off) <= off,
    decreases off,
{
    if off > 0 && src[off - 1] != 10u8 {
        lemma_line_start_bounds(src, off - 1);
    }
}

/// Maps a byte offset into `source` to its zero-based (line, UTF-16 column)
/// coordinates.
pub fn line_col_at(source: &[u8], offset: usize) -> (r: (usize, usize))
    requires
        offset <= source@.len(),
        2 * offset <= usize::MAX as int,
    ensures
        r.0 == line_of(source@, offset as int),
        r.1 == col_of(source@, offset as int),
{
    let mut line: usize = 0;
    let mut line_start: usize = 0;
    let mut col: usize = 0;
    let mut i: usize = 0;
    while i < offset
        invariant
            0 <= i <= offset,
            offset <= source@.len(),
            2 * offset <= usize::MAX as int,
            line == line_of(source@, i as int),
            line_start == line_start_of(source@, i as int),
            col == utf16_len(source@, line_start as int, i as int),
            line <= i,
            line_start <= i,
            col <= 2 * i,
        decreases offset - i,
    {
        let b = source[i];
        if b == 10u8 {
            line = line + 1;
            line_start = i + 1;
            col = 0;
        } else if 0x80u8 <= b && b < 0xC0u8 {
            // a continuation byte extends the current character
        } else if b >= 0xF0u8 {
            col = col + 2;
        } else {
            col = col + 1;
        }
        i = i + 1;
    }
    (line, col)
}

} // verus!
