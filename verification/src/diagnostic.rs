//! The diagnostic renderer: a message and a range of a source text become
//! an annotated excerpt.
//!
//! The excerpt opens with the message. Then each line of the source that
//! the range touches is shown in full, with a line below it that marks the
//! covered part with carets. A range that covers nothing is marked with a
//! single caret where it stands.
//!
//! ```text
//! error: unexpected token
//! SELECT 1 FROM
//!          ^^^^
//! ```
use vstd::prelude::*;
use crate::text::{c_text, nul_free, string_callback, Continuation};

verus! {

pub const NEWLINE: u8 = 10;

pub const SPACE: u8 = 32;

pub const CARET: u8 = 94;

/// Why a range cannot be annotated.
#[derive(Clone, Copy, Debug, PartialEq, Eq, Structural)]
pub enum RangeError {
    /// The range starts after its end.
    Inverted,
    /// The range ends beyond the end of the text.
    OutOfBounds,
}

/// The words that open an excerpt: `error: `.
pub open spec fn error_prefix() -> Seq<u8> {
    seq![101u8, 114u8, 114u8, 111u8, 114u8, 58u8, 32u8]
}

/// Where the line begins that holds the position `pos`.
pub open spec fn line_start(src: Seq<u8>, pos: int) -> int
    decreases pos,
{
    if pos <= 0 {
        0
    } else if src[pos - 1] == NEWLINE {
        pos
    } else {
        line_start(src, pos - 1)
    }
}

/// Where the line ends that holds the position `pos`: at its line break,
/// or at the end of the text.
pub open spec fn line_end(src: Seq<u8>, pos: int) -> int
    decreases src.len() - pos,
{
    if pos >= src.len() {
        src.len() as int
    } else if src[pos] == NEWLINE {
        pos
    } else {
        line_end(src, pos + 1)
    }
}

/// The byte `b`, `n` times.
pub open spec fn repeated(b: u8, n: int) -> Seq<u8> {
    Seq::new(n as nat, |i: int| b)
}

/// The line of marks below the source line from `ls` to `le`: blanks up to
/// the part of the line that the range covers, and a caret for each byte
/// of that part; one caret where the part is empty.
pub open spec fn underline(ls: int, le: int, start: int, end: int) -> Seq<u8> {
    let from = if start > ls {
        start
    } else {
        ls
    };
    let to = if end < le {
        end
    } else {
        le
    };
    let width = if to > from {
        to - from
    } else {
        1
    };
    repeated(SPACE, from - ls) + repeated(CARET, width)
}

/// The source line that begins at `ls`, and the line of marks below it.
pub open spec fn row(src: Seq<u8>, ls: int, start: int, end: int) -> Seq<u8> {
    let le = line_end(src, ls);
    src.subrange(ls, le).push(NEWLINE) + underline(ls, le, start, end).push(NEWLINE)
}

/// The rows from the line that begins at `ls` down to the last line that
/// the range reaches into.
pub open spec fn excerpt(src: Seq<u8>, ls: int, start: int, end: int) -> Seq<u8>
    decreases src.len() - ls,
{
    let le = line_end(src, ls);
    if le >= src.len() || end <= le + 1 {
        row(src, ls, start, end)
    } else {
        proof {
            lemma_line_end_bounds(src, ls);
        }
        row(src, ls, start, end) + excerpt(src, le + 1, start, end)
    }
}

/// The annotated excerpt for a message and the range from `start` to `end`
/// of a source text.
pub open spec fn annotated(src: Seq<u8>, message: Seq<u8>, start: int, end: int) -> Seq<u8> {
    (error_prefix() + message).push(NEWLINE) + excerpt(src, line_start(src, start), start, end)
}

/// A line ends at or after every position in it, within the text.
pub proof fn lemma_line_end_bounds(src: Seq<u8>, pos: int)
    requires
        pos <= src.len(),
    ensures
        pos <= line_end(src, pos) <= src.len(),
        0 <= pos ==> forall|k: int| pos <= k < line_end(src, pos) ==> src[k] != NEWLINE,
        line_end(src, pos) < src.len() ==> src[line_end(src, pos)] == NEWLINE,
    decreases src.len() - pos,
{
    if pos < src.len() && src[pos] != NEWLINE {
        lemma_line_end_bounds(src, pos + 1);
    }
}

/// A line begins at or before every position in it, and holds no line
/// break before that position.
pub proof fn lemma_line_start_bounds(src: Seq<u8>, pos: int)
    requires
        0 <= pos <= src.len(),
    ensures
        0 <= line_start(src, pos) <= pos,
        forall|k: int| line_start(src, pos) <= k < pos ==> src[k] != NEWLINE,
        line_start(src, pos) > 0 ==> src[line_start(src, pos) - 1] == NEWLINE,
    decreases pos,
{
    if pos > 0 && src[pos - 1] != NEWLINE {
        lemma_line_start_bounds(src, pos - 1);
    }
}

/// Two positions with no line break between them are on one line.
proof fn lemma_same_line_end(src: Seq<u8>, a: int, b: int)
    requires
        0 <= a <= b <= src.len(),
        forall|k: int| a <= k < b ==> src[k] != NEWLINE,
    ensures
        line_end(src, a) == line_end(src, b),
    decreases b - a,
{
    if a < b {
        lemma_same_line_end(src, a + 1, b);
    }
}

/// Where the line begins that holds `pos`.
fn find_line_start(input: &[u8], pos: usize) -> (ls: usize)
    requires
        pos <= input@.len(),
    ensures
        ls == line_start(input@, pos as int),
        ls <= pos,
{
    let mut i = pos;
    while i > 0 && input[i - 1] != NEWLINE
        invariant
            i <= pos <= input@.len(),
            line_start(input@, pos as int) == line_start(input@, i as int),
        decreases i,
    {
        i -= 1;
    }
    i
}

/// Where the line ends that holds `pos`.
fn find_line_end(input: &[u8], pos: usize) -> (le: usize)
    requires
        pos <= input@.len(),
    ensures
        le == line_end(input@, pos as int),
        pos <= le <= input@.len(),
{
    let mut i = pos;
    while i < input.len() && input[i] != NEWLINE
        invariant
            pos <= i <= input@.len(),
            line_end(input@, pos as int) == line_end(input@, i as int),
        decreases input@.len() - i,
    {
        i += 1;
    }
    i
}

/// Appends the bytes of `bytes` from `from` to `to`.
fn push_range(out: &mut Vec<u8>, bytes: &[u8], from: usize, to: usize)
    requires
        from <= to <= bytes@.len(),
    ensures
        final(out)@ == old(out)@ + bytes@.subrange(from as int, to as int),
{
    let mut i = from;
    while i < to
        invariant
            from <= i <= to <= bytes@.len(),
            out@ == old(out)@ + bytes@.subrange(from as int, i as int),
        decreases to - i,
    {
        out.push(bytes[i]);
        assert(out@ =~= old(out)@ + bytes@.subrange(from as int, i + 1));
        i += 1;
    }
    assert(out@ =~= old(out)@ + bytes@.subrange(from as int, to as int));
}

/// Appends the byte `b`, `n` times.
fn push_repeated(out: &mut Vec<u8>, b: u8, n: usize)
    ensures
        final(out)@ == old(out)@ + repeated(b, n as int),
{
    let mut i: usize = 0;
    while i < n
        invariant
            i <= n,
            out@ == old(out)@ + repeated(b, i as int),
        decreases n - i,
    {
        out.push(b);
        assert(out@ =~= old(out)@ + repeated(b, i + 1));
        i += 1;
    }
    assert(out@ =~= old(out)@ + repeated(b, n as int));
}

/// Appends the source line that begins at `ls` and the line of marks below
/// it, and returns where the source line ends.
fn push_row(out: &mut Vec<u8>, input: &[u8], ls: usize, start: usize, end: usize) -> (le: usize)
    requires
        ls <= input@.len(),
    ensures
        final(out)@ == old(out)@ + row(input@, ls as int, start as int, end as int),
        le == line_end(input@, ls as int),
        ls <= le <= input@.len(),
{
    let le = find_line_end(input, ls);
    push_range(out, input, ls, le);
    out.push(NEWLINE);
    let from = if start > ls {
        start
    } else {
        ls
    };
    let to = if end < le {
        end
    } else {
        le
    };
    let width = if to > from {
        to - from
    } else {
        1
    };
    push_repeated(out, SPACE, from - ls);
    push_repeated(out, CARET, width);
    out.push(NEWLINE);
    assert(out@ =~= old(out)@ + row(input@, ls as int, start as int, end as int));
    le
}

/// Renders the annotated excerpt for a message and the range from `start`
/// to `end` of a source text, both counted in bytes. A range that starts
/// after its end or ends beyond the text is an error: it is never moved
/// into the text. A range that covers nothing is still shown.
pub fn endb_annotate_input_with_error(input: &[u8], message: &[u8], start: usize, end: usize) -> (out:
    Result<Vec<u8>, RangeError>)
    ensures
        start > end ==> out == Err::<Vec<u8>, RangeError>(RangeError::Inverted),
        start <= end && end > input@.len() ==> out == Err::<Vec<u8>, RangeError>(
            RangeError::OutOfBounds,
        ),
        start <= end <= input@.len() ==> (out matches Ok(text) && text@ == annotated(
            input@,
            message@,
            start as int,
            end as int,
        ) && text@.len() > message@.len()),
{
    if start > end {
        return Err(RangeError::Inverted);
    }
    if end > input.len() {
        return Err(RangeError::OutOfBounds);
    }
    let mut out: Vec<u8> = Vec::new();
    out.push(101u8);
    out.push(114u8);
    out.push(114u8);
    out.push(111u8);
    out.push(114u8);
    out.push(58u8);
    out.push(32u8);
    assert(out@ =~= error_prefix());
    push_range(&mut out, message, 0, message.len());
    assert(message@.subrange(0, message@.len() as int) =~= message@);
    out.push(NEWLINE);
    let ghost head = out@;
    let first = find_line_start(input, start);
    let mut ls = first;
    loop
        invariant
            start <= end <= input@.len(),
            ls <= input@.len(),
            head == (error_prefix() + message@).push(NEWLINE),
            first == line_start(input@, start as int),
            out@.len() >= head.len(),
            out@ + excerpt(input@, ls as int, start as int, end as int) == head + excerpt(
                input@,
                first as int,
                start as int,
                end as int,
            ),
        decreases input@.len() - ls,
    {
        let ghost before = out@;
        let le = push_row(&mut out, input, ls, start, end);
        if le >= input.len() || end <= le + 1 {
            assert(out@ =~= before + excerpt(input@, ls as int, start as int, end as int));
            return Ok(out);
        }
        assert(out@ + excerpt(input@, le + 1, start as int, end as int) =~= before + excerpt(
            input@,
            ls as int,
            start as int,
            end as int,
        ));
        ls = le + 1;
    }
}

/// Hands a rendered report to the host: the report to the success
/// continuation where rendering went well, the cause to the error
/// continuation where it did not, each in boundary form.
pub fn endb_render_json_error_report(rendered: Result<Vec<u8>, Vec<u8>>) -> (call: Continuation)
    requires
        rendered matches Ok(report) ==> nul_free(report@),
        rendered matches Err(cause) ==> nul_free(cause@),
    ensures
        rendered matches Ok(report) ==> (call matches Continuation::Success(text) && text@
            == c_text(report@)),
        rendered matches Err(cause) ==> (call matches Continuation::Error(text) && text@ == c_text(
            cause@,
        )),
{
    match rendered {
        Ok(report) => Continuation::Success(string_callback(report)),
        Err(cause) => Continuation::Error(string_callback(cause)),
    }
}

/// A range that covers nothing is shown as the line it stands in and one
/// caret below its position.
pub proof fn lemma_zero_width_excerpt(src: Seq<u8>, message: Seq<u8>, at: int)
    requires
        0 <= at <= src.len(),
    ensures
        annotated(src, message, at, at) == (error_prefix() + message).push(NEWLINE) + src.subrange(
            line_start(src, at),
            line_end(src, at),
        ).push(NEWLINE) + repeated(SPACE, at - line_start(src, at)).push(CARET).push(NEWLINE),
        annotated(src, message, at, at).len() >= message.len() + 11,
{
    let ls = line_start(src, at);
    lemma_line_start_bounds(src, at);
    lemma_same_line_end(src, ls, at);
    lemma_line_end_bounds(src, at);
    let le = line_end(src, ls);
    assert(underline(ls, le, at, at) =~= repeated(SPACE, at - ls).push(CARET));
    assert(excerpt(src, ls, at, at) == row(src, ls, at, at));
    assert(annotated(src, message, at, at) =~= (error_prefix() + message).push(NEWLINE)
        + src.subrange(ls, le).push(NEWLINE) + repeated(SPACE, at - ls).push(CARET).push(NEWLINE));
}

} // verus!
