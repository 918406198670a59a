//! Rendering a source span as a display-ready snippet: line and column
//! numbers, the source line's text, and a caret marker line. Positions
//! are byte offsets into the source, as the lexer's spans are.

use vstd::prelude::*;

use crate::lexer::chars_of;
use crate::token::Span;
use vstd::string::StringSliceAdditionalSpecFns;

verus! {

/// A rendered source snippet around a byte span.
#[derive(Debug)]
pub struct Snippet {
    pub line: usize,
    pub column: usize,
    pub source_line: String,
    pub marker_line: String,
}

/// How many line feeds occur strictly before `upto`.
pub open spec fn count_nl(bs: Seq<u8>, upto: int) -> int
    decreases upto,
{
    if upto <= 0 || upto > bs.len() {
        0
    } else {
        count_nl(bs, upto - 1) + (if bs[upto - 1] == '\n' as u8 {
            1int
        } else {
            0int
        })
    }
}

/// The byte index at which the line containing `pos` starts: just past
/// the last line feed before `pos`, or the start of the text.
pub open spec fn line_start_s(bs: Seq<u8>, pos: int) -> int
    decreases pos,
{
    if pos <= 0 {
        0
    } else if bs[pos - 1] == '\n' as u8 {
        pos
    } else {
        line_start_s(bs, pos - 1)
    }
}

/// The byte index at which the line starting at `from` ends: the next
/// line feed, or the end of the text.
pub open spec fn line_end_s(bs: Seq<u8>, from: int) -> int
    decreases bs.len() - from,
{
    if from < 0 || from >= bs.len() {
        bs.len() as int
    } else if bs[from] == '\n' as u8 {
        from
    } else {
        line_end_s(bs, from + 1)
    }
}

/// What `String::from_utf8_lossy` reads out of a byte sequence; a
/// function of the bytes alone.
pub uninterp spec fn lossy_chars(bs: Seq<u8>) -> Seq<char>;

/// Relies on `String::from_utf8_lossy`: the result depends on the bytes
/// alone, and ASCII bytes decode to exactly their characters.
#[verifier::external_body]
fn lossy_string(bytes: &[u8]) -> (r: String)
    ensures
        r@ == lossy_chars(bytes@),
        (forall|i: int| 0 <= i < bytes@.len() ==> bytes@[i] < 128) ==> r@ == chars_of(bytes@),
{
    String::from_utf8_lossy(bytes).into_owned()
}

/// Builds a one-line source snippet and caret marker for the given byte
/// span: its 1-based line and column, the text of that line, and a
/// marker line of spaces and carets under the spanned bytes, clipped to
/// the line and at least one caret wide.
#[verifier::loop_isolation(false)]
pub fn render_snippet(src: &str, span: &Span) -> (snippet: Snippet)
    requires
        span.start <= src.spec_bytes().len(),
        span.start < usize::MAX,
    ensures
        ({
            let bs = src.spec_bytes();
            let ls = line_start_s(bs, span.start as int);
            let le = line_end_s(bs, span.start as int);
            let col = span.start - ls + 1;
            let clipped = if span.end > span.start + 1 {
                span.end as int
            } else {
                span.start + 1
            };
            let endx = if clipped < le {
                clipped
            } else {
                le
            };
            let width: int = if endx - span.start > 0 {
                endx - span.start
            } else {
                1
            };
            &&& snippet.line == 1 + count_nl(bs, span.start as int)
            &&& snippet.column == col
            &&& snippet.source_line@ == lossy_chars(bs.subrange(ls, le))
            &&& snippet.marker_line@ == Seq::new((col - 1) as nat, |i: int| ' ') + Seq::new(
                width as nat,
                |i: int| '^',
            )
        }),
{
    let bytes = src.as_bytes();
    let ghost bs = src.spec_bytes();
    let start = span.start;
    let mut line_no: usize = 1;
    let mut line_start: usize = 0;
    let mut i: usize = 0;
    while i < start
        invariant
            i <= start,
            line_no == 1 + count_nl(bs, i as int),
            line_no <= 1 + i,
            line_start <= i,
            line_start == line_start_s(bs, i as int),
        decreases start - i,
    {
        if bytes[i] == '\n' as u8 {
            line_no = line_no + 1;
            line_start = i + 1;
        }
        i = i + 1;
    }
    let mut line_end: usize = line_start;
    while line_end < bytes.len() && bytes[line_end] != '\n' as u8
        invariant
            line_start <= line_end <= bs.len(),
            line_end_s(bs, line_start as int) == line_end_s(bs, line_end as int),
        decreases bs.len() - line_end,
    {
        line_end = line_end + 1;
    }
    proof {
        assert(line_end_s(bs, line_start as int) == line_end);
        assert(line_end_s(bs, start as int) == line_end) by {
            lemma_line_end_from_start(bs, start as int, line_start as int);
        }
    }
    let source_line = lossy_string(&bytes[line_start..line_end]);
    let column = start - line_start + 1;
    let clipped = if span.end > start + 1 {
        span.end
    } else {
        start + 1
    };
    let endx = if clipped < line_end {
        clipped
    } else {
        line_end
    };
    let width: usize = if endx > start {
        endx - start
    } else {
        1
    };
    let mut marker: Vec<u8> = Vec::new();
    let mut j: usize = 0;
    while j < column - 1
        invariant
            j <= column - 1,
            marker@ =~= Seq::new(j as nat, |k: int| ' ' as u8),
        decreases column - 1 - j,
    {
        marker.push(' ' as u8);
        j = j + 1;
        proof {
            assert(marker@ =~= Seq::new(j as nat, |k: int| ' ' as u8));
        }
    }
    let mut k: usize = 0;
    while k < width
        invariant
            k <= width,
            marker@ =~= Seq::new((column - 1) as nat, |k2: int| ' ' as u8) + Seq::new(
                k as nat,
                |k2: int| '^' as u8,
            ),
        decreases width - k,
    {
        marker.push('^' as u8);
        k = k + 1;
        proof {
            assert(marker@ =~= Seq::new((column - 1) as nat, |k2: int| ' ' as u8) + Seq::new(
                k as nat,
                |k2: int| '^' as u8,
            ));
        }
    }
    let marker_line = crate::lexer::ascii_string(marker.as_slice());
    proof {
        assert(chars_of(marker@) =~= Seq::new((column - 1) as nat, |i2: int| ' ') + Seq::new(
            width as nat,
            |i2: int| '^',
        ));
    }
    Snippet { line: line_no, column, source_line, marker_line }
}

/// The first line feed at or after the line start is also the first at
/// or after any position inside the line.
proof fn lemma_line_end_from_start(bs: Seq<u8>, pos: int, ls: int)
    requires
        0 <= ls <= pos <= bs.len(),
        ls == line_start_s(bs, pos),
    ensures
        line_end_s(bs, ls) == line_end_s(bs, pos),
    decreases pos - ls,
{
    if ls < pos {
        assert(!(bs[pos - 1] == '\n' as u8)) by {
            lemma_line_start_no_nl(bs, pos, pos - 1);
        }
        lemma_line_end_from_start(bs, pos - 1, ls);
        assert(line_end_s(bs, pos - 1) == line_end_s(bs, pos)) by {
            lemma_line_end_step(bs, pos - 1);
        }
    }
}

/// There is no line feed between a position's line start and the
/// position itself.
proof fn lemma_line_start_no_nl(bs: Seq<u8>, pos: int, i: int)
    requires
        0 <= i < pos <= bs.len(),
        line_start_s(bs, pos) <= i,
    ensures
        bs[i] != '\n' as u8,
    decreases pos,
{
    if i == pos - 1 {
        if bs[pos - 1] == '\n' as u8 {
            assert(line_start_s(bs, pos) == pos);
        }
    } else {
        if bs[pos - 1] == '\n' as u8 {
            assert(line_start_s(bs, pos) == pos);
        } else {
            lemma_line_start_no_nl(bs, pos - 1, i);
        }
    }
}

/// Scanning for the end of line moves forward over one byte that is not
/// a line feed.
proof fn lemma_line_end_step(bs: Seq<u8>, i: int)
    requires
        0 <= i < bs.len(),
        bs[i] != '\n' as u8,
    ensures
        line_end_s(bs, i) == line_end_s(bs, i + 1),
{
}

} // verus!
