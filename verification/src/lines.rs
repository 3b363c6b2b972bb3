//! Cutting a text into its lines.
//!
//! A line ends at a line feed, or at a carriage return directly followed by a
//! line feed; neither belongs to the line. The last line needs no ending: a
//! text that ends with one holds the same lines as the text without it. A
//! carriage return that no line feed follows is part of its line.

use vstd::prelude::*;
use vstd::std_specs::iter::IteratorSpec;

verus! {

/// Trusted: `String::push` of the standard library appends the given character
/// to the end of the string and changes nothing else of it.
pub assume_specification[ String::push ](s: &mut String, ch: char)
    ensures
        final(s)@ == old(s)@.push(ch),
;

/// The position of the first line feed of `text`, or the length of `text`
/// where it holds none.
pub open spec fn first_line_feed(text: Seq<char>) -> nat
    decreases text.len(),
{
    if text.len() == 0 || text[0] == '\n' {
        0
    } else {
        1 + first_line_feed(text.drop_first())
    }
}

/// `line` without the carriage return at its end, if it has one.
pub open spec fn without_carriage_return(line: Seq<char>) -> Seq<char> {
    if line.len() > 0 && line.last() == '\r' {
        line.drop_last()
    } else {
        line
    }
}

/// The lines of `text`, in the order in which they stand in it.
pub open spec fn lines_of(text: Seq<char>) -> Seq<Seq<char>>
    decreases text.len(),
{
    if text.len() == 0 {
        Seq::empty()
    } else {
        let end = first_line_feed(text) as int;
        if end >= text.len() {
            seq![text]
        } else {
            seq![without_carriage_return(text.take(end))] + lines_of(text.skip(end + 1))
        }
    }
}

/// Whether `line` can stand as one line of a text: it holds no line feed and
/// does not end with a carriage return.
pub open spec fn is_line(line: Seq<char>) -> bool {
    &&& forall|j: int| 0 <= j < line.len() ==> line[j] != '\n'
    &&& line.len() > 0 ==> line.last() != '\r'
}

/// The text that holds each of `lines` in order, each followed by a line feed.
pub open spec fn written(lines: Seq<Seq<char>>) -> Seq<char>
    decreases lines.len(),
{
    if lines.len() == 0 {
        Seq::empty()
    } else {
        lines[0].push('\n') + written(lines.drop_first())
    }
}

/// The text that holds each of `lines` in order with a line feed between one
/// and the next, and none after the last.
pub open spec fn joined(lines: Seq<Seq<char>>) -> Seq<char> {
    if lines.len() == 0 {
        Seq::empty()
    } else {
        written(lines.drop_last()) + lines.last()
    }
}

/// `first_line_feed` is a position of `text` or its length, no line feed
/// stands before it, and where it is a position a line feed stands at it.
pub proof fn lemma_first_line_feed(text: Seq<char>)
    ensures
        first_line_feed(text) <= text.len(),
        forall|j: int| 0 <= j < first_line_feed(text) ==> text[j] != '\n',
        first_line_feed(text) < text.len() ==> text[first_line_feed(text) as int] == '\n',
    decreases text.len(),
{
    if text.len() != 0 && text[0] != '\n' {
        let rest = text.drop_first();
        lemma_first_line_feed(rest);
        assert forall|j: int| 0 <= j < first_line_feed(text) implies text[j] != '\n' by {
            if j > 0 {
                assert(text[j] == rest[j - 1]);
            }
        }
    }
}

/// A position with no line feed before it, which is the length of `text` or
/// holds a line feed, is `first_line_feed(text)`.
pub proof fn lemma_first_line_feed_is(text: Seq<char>, end: int)
    requires
        0 <= end <= text.len(),
        forall|j: int| 0 <= j < end ==> text[j] != '\n',
        end < text.len() ==> text[end] == '\n',
    ensures
        first_line_feed(text) == end,
{
    lemma_first_line_feed(text);
}

/// No line of a text holds a line feed.
pub proof fn lemma_lines_hold_no_line_feed(text: Seq<char>)
    ensures
        forall|i: int, j: int|
            0 <= i < lines_of(text).len() && 0 <= j < lines_of(text)[i].len() ==> lines_of(
                text,
            )[i][j] != '\n',
    decreases text.len(),
{
    if text.len() != 0 {
        lemma_first_line_feed(text);
        let end = first_line_feed(text) as int;
        if end < text.len() {
            let rest = text.skip(end + 1);
            lemma_lines_hold_no_line_feed(rest);
            assert forall|i: int, j: int|
                0 <= i < lines_of(text).len() && 0 <= j < lines_of(text)[i].len() implies lines_of(
                text,
            )[i][j] != '\n' by {
                if i > 0 {
                    assert(lines_of(text)[i] == lines_of(rest)[i - 1]);
                }
            }
        }
    }
}

/// A text that was written line by line reads back as the same lines in the
/// same order: the lines of `written(lines)` are `lines`.
pub proof fn lemma_written_lines_read_back(lines: Seq<Seq<char>>)
    requires
        forall|i: int| 0 <= i < lines.len() ==> is_line(#[trigger] lines[i]),
    ensures
        lines_of(written(lines)) == lines,
    decreases lines.len(),
{
    if lines.len() > 0 {
        let first = lines[0];
        let others = lines.drop_first();
        let text = written(lines);
        assert forall|i: int| 0 <= i < others.len() implies is_line(#[trigger] others[i]) by {
            assert(others[i] == lines[i + 1]);
        }
        lemma_written_lines_read_back(others);
        lemma_first_line_feed_is(text, first.len() as int);
        assert(text.take(first.len() as int) =~= first);
        assert(text.skip(first.len() as int + 1) =~= written(others));
    }
}

/// A line feed at the end of a text adds no line: where `text` is not empty
/// and ends neither with a line feed nor with a carriage return, it holds the
/// same lines with a line feed after it as without.
pub proof fn lemma_final_line_feed_adds_no_line(text: Seq<char>)
    requires
        text.len() > 0,
        text.last() != '\n',
        text.last() != '\r',
    ensures
        lines_of(text.push('\n')) == lines_of(text),
    decreases text.len(),
{
    let longer = text.push('\n');
    let end = first_line_feed(text) as int;
    lemma_first_line_feed(text);
    lemma_first_line_feed_is(longer, end);
    assert(longer.take(end) =~= text.take(end));
    if end < text.len() {
        let rest = text.skip(end + 1);
        assert(longer.skip(end + 1) =~= rest.push('\n'));
        lemma_final_line_feed_adds_no_line(rest);
    } else {
        assert(text.take(end) =~= text);
        assert(lines_of(longer.skip(end + 1)).len() == 0);
    }
}

/// A carriage return and a line feed at the end of a text add no line: where
/// `text` is not empty and does not end with a line feed, it holds the same
/// lines with the two after it as without.
pub proof fn lemma_final_line_ending_adds_no_line(text: Seq<char>)
    requires
        text.len() > 0,
        text.last() != '\n',
    ensures
        lines_of(text.push('\r').push('\n')) == lines_of(text),
    decreases text.len(),
{
    let longer = text.push('\r').push('\n');
    let end = first_line_feed(text) as int;
    lemma_first_line_feed(text);
    if end < text.len() {
        let rest = text.skip(end + 1);
        lemma_first_line_feed_is(longer, end);
        assert(longer.take(end) =~= text.take(end));
        assert(longer.skip(end + 1) =~= rest.push('\r').push('\n'));
        lemma_final_line_ending_adds_no_line(rest);
    } else {
        lemma_first_line_feed_is(longer, end + 1);
        assert(longer.take(end + 1) =~= text.push('\r'));
        assert(text.push('\r').drop_last() =~= text);
        assert(lines_of(longer.skip(end + 2)).len() == 0);
    }
}

/// Writing one more line puts it, with its line feed, after what was written.
proof fn lemma_written_push(lines: Seq<Seq<char>>, line: Seq<char>)
    ensures
        written(lines.push(line)) == written(lines) + line.push('\n'),
    decreases lines.len(),
{
    let longer = lines.push(line);
    if lines.len() == 0 {
        assert(longer.drop_first() =~= lines);
    } else {
        assert(longer.drop_first() =~= lines.drop_first().push(line));
        lemma_written_push(lines.drop_first(), line);
    }
}

/// Lines that were written with a line feed between them and none after the
/// last read back as the same lines in the same order, where the last of
/// them is not empty: the lines of `joined(lines)` are `lines`.
pub proof fn lemma_joined_lines_read_back(lines: Seq<Seq<char>>)
    requires
        forall|i: int| 0 <= i < lines.len() ==> is_line(#[trigger] lines[i]),
        lines.len() > 0 ==> lines.last().len() > 0,
    ensures
        lines_of(joined(lines)) == lines,
{
    if lines.len() > 0 {
        let text = joined(lines);
        assert(text.last() == lines.last().last());
        lemma_final_line_feed_adds_no_line(text);
        lemma_written_push(lines.drop_last(), lines.last());
        assert(lines.drop_last().push(lines.last()) =~= lines);
        lemma_written_lines_read_back(lines);
    }
}

/// No character of a text is lost to its lines, and none moves: where no
/// carriage return stands directly before a line feed, writing the lines of
/// `text` gives `text` again, with a line feed after it if it had none.
pub proof fn lemma_lines_rebuild_text(text: Seq<char>)
    requires
        forall|j: int| 0 < j < text.len() && #[trigger] text[j] == '\n' ==> text[j - 1] != '\r',
    ensures
        written(lines_of(text)) == if text.len() == 0 || text.last() == '\n' {
            text
        } else {
            text.push('\n')
        },
    decreases text.len(),
{
    if text.len() != 0 {
        let end = first_line_feed(text) as int;
        lemma_first_line_feed(text);
        if end < text.len() {
            let first = text.take(end);
            let rest = text.skip(end + 1);
            assert(without_carriage_return(first) == first);
            assert forall|j: int| 0 < j < rest.len() && #[trigger] rest[j] == '\n' implies rest[j
                - 1] != '\r' by {
                assert(rest[j] == text[end + 1 + j]);
            }
            lemma_lines_rebuild_text(rest);
            assert(lines_of(text).drop_first() =~= lines_of(rest));
            assert(first.push('\n') + rest =~= text);
        } else {
            assert(written(lines_of(text).drop_first()).len() == 0);
        }
    }
}

/// Cuts `content` into its lines.
pub fn split_lines(content: &str) -> (lines: Vec<String>)
    ensures
        lines.deep_view() == lines_of(content@),
{
    let mut lines: Vec<String> = Vec::new();
    let mut current = String::new();
    // A carriage return was read that is not yet known to end a line.
    let mut held_back = false;
    let mut chars = content.chars();
    let ghost mut start: int = 0;
    let ghost mut seen: int = 0;
    proof {
        assert(content@.skip(0) =~= content@);
    }
    loop
        invariant_except_break
            0 <= start <= seen <= content@.len(),
            chars.remaining() == content@.skip(seen),
            forall|j: int| start <= j < seen ==> content@[j] != '\n',
            content@.subrange(start, seen) == if held_back {
                current@.push('\r')
            } else {
                current@
            },
            !held_back && current@.len() > 0 ==> current@.last() != '\r',
            lines_of(content@) == lines.deep_view() + lines_of(content@.skip(start)),
        ensures
            lines.deep_view() == lines_of(content@),
        decreases content@.len() - seen,
    {
        let ghost before = content@.subrange(start, seen);
        match chars.next() {
            Some(c) => {
                if c == '\n' {
                    proof {
                        let rest = content@.skip(start);
                        lemma_first_line_feed_is(rest, seen - start);
                        assert(rest.take(seen - start) =~= before);
                        assert(without_carriage_return(before) =~= current@);
                        assert(rest.skip(seen - start + 1) =~= content@.skip(seen + 1));
                        assert(lines_of(rest) == seq![current@] + lines_of(
                            content@.skip(seen + 1),
                        ));
                    }
                    lines.push(current);
                    current = String::new();
                    held_back = false;
                    proof {
                        assert(lines_of(content@) =~= lines.deep_view() + lines_of(
                            content@.skip(seen + 1),
                        ));
                        start = seen + 1;
                    }
                } else if c == '\r' {
                    if held_back {
                        current.push('\r');
                    }
                    held_back = true;
                } else {
                    if held_back {
                        current.push('\r');
                        held_back = false;
                    }
                    current.push(c);
                }
                proof {
                    seen = seen + 1;
                }
            },
            None => {
                let ghost rest = content@.skip(start);
                if held_back {
                    current.push('\r');
                }
                if !current.as_str().is_empty() {
                    proof {
                        lemma_first_line_feed_is(rest, rest.len() as int);
                    }
                    lines.push(current);
                }
                break;
            },
        }
    }
    lines
}

} // verus!
