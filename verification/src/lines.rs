//! Line-oriented text handled as bytes: joining values into one export
//! text, one per line, and splitting a loaded text back into lines.
//! Splitting accepts either a bare line feed or a carriage return followed
//! by a line feed as the separator, so files written on either convention
//! load the same way.

use vstd::prelude::*;

verus! {

/// The line separator byte.
pub const LINE_FEED: u8 = 10;

/// The byte dropped from a line end when the text uses two-byte separators.
pub const CARRIAGE_RETURN: u8 = 13;

/// The line with one trailing carriage return dropped, if it has one.
pub open spec fn strip_cr(line: Seq<u8>) -> Seq<u8> {
    if line.len() >= 1 && line[line.len() - 1] == CARRIAGE_RETURN {
        line.drop_last()
    } else {
        line
    }
}

/// The index of the first line feed in `text`, or `text.len()` if there is
/// none.
pub open spec fn find_line_feed(text: Seq<u8>) -> int
    decreases text.len(),
{
    if text.len() == 0 {
        0
    } else if text[0] == LINE_FEED {
        0
    } else {
        1 + find_line_feed(text.drop_first())
    }
}

/// `find_line_feed` points at the first line feed: everything before it is
/// not a line feed, and it is in bounds exactly when a line feed exists.
pub proof fn lemma_find_line_feed_spec(text: Seq<u8>)
    ensures
        0 <= find_line_feed(text) <= text.len(),
        find_line_feed(text) < text.len() ==> text[find_line_feed(text)] == LINE_FEED,
        forall|j: int| 0 <= j < find_line_feed(text) ==> text[j] != LINE_FEED,
    decreases text.len(),
{
    if text.len() == 0 {
    } else if text[0] == LINE_FEED {
    } else {
        lemma_find_line_feed_spec(text.drop_first());
        assert forall|j: int| 0 <= j < find_line_feed(text) implies text[j] != LINE_FEED by {
            if j >= 1 {
                assert(text.drop_first()[j - 1] == text[j]);
            }
        }
    }
}

/// Conversely, an index with no line feed before it, and a line feed (or
/// the text end) at it, is where `find_line_feed` points.
pub proof fn lemma_find_line_feed_at(text: Seq<u8>, k: int)
    requires
        0 <= k <= text.len(),
        forall|j: int| 0 <= j < k ==> text[j] != LINE_FEED,
        k < text.len() ==> text[k] == LINE_FEED,
    ensures
        find_line_feed(text) == k,
{
    lemma_find_line_feed_spec(text);
    let f = find_line_feed(text);
    if f < k {
        assert(text[f] != LINE_FEED);
    }
    if k < f {
        assert(text[k] != LINE_FEED);
    }
}

/// The lines of a text: split at every line feed, a trailing carriage
/// return on each piece belonging to the separator.  A text with no line
/// feed is one line; an empty text is one empty line.
pub open spec fn split_lines_spec(text: Seq<u8>) -> Seq<Seq<u8>>
    decreases text.len(),
    via split_lines_spec_decreases
{
    let i = find_line_feed(text);
    if i == text.len() {
        seq![strip_cr(text)]
    } else {
        seq![strip_cr(text.take(i))] + split_lines_spec(text.skip(i + 1))
    }
}

#[via_fn]
proof fn split_lines_spec_decreases(text: Seq<u8>) {
    lemma_find_line_feed_spec(text);
}

/// The lines joined by single line feeds: the export text, one value per
/// line, with no separator after the last line.
pub open spec fn render_lines_spec(lines: Seq<Seq<u8>>) -> Seq<u8>
    decreases lines.len(),
{
    if lines.len() == 0 {
        Seq::empty()
    } else if lines.len() == 1 {
        lines[0]
    } else {
        lines[0] + seq![LINE_FEED] + render_lines_spec(lines.drop_first())
    }
}

/// Rendering one more line appends one separator and the line.
proof fn lemma_render_lines_push(lines: Seq<Seq<u8>>, line: Seq<u8>)
    requires
        lines.len() >= 1,
    ensures
        render_lines_spec(lines.push(line)) == render_lines_spec(lines) + seq![LINE_FEED] + line,
    decreases lines.len(),
{
    if lines.len() == 1 {
        assert(lines.push(line).drop_first() =~= seq![line]);
        assert(render_lines_spec(seq![line]) == line);
        assert(lines.push(line)[0] == lines[0]);
        assert(render_lines_spec(lines.push(line)) == lines[0] + seq![LINE_FEED] + line);
    } else {
        lemma_render_lines_push(lines.drop_first(), line);
        assert(lines.push(line).drop_first() =~= lines.drop_first().push(line));
        assert(render_lines_spec(lines) + seq![LINE_FEED] + line =~= lines[0] + seq![LINE_FEED]
            + (render_lines_spec(lines.drop_first()) + seq![LINE_FEED] + line));
    }
}

/// A line that survives the round trip: it holds no separator byte, and
/// does not end in a carriage return (which splitting would take for part
/// of a two-byte separator).
pub open spec fn line_clean(line: Seq<u8>) -> bool {
    (forall|j: int| 0 <= j < line.len() ==> line[j] != LINE_FEED) && (line.len() >= 1
        ==> line[line.len() - 1] != CARRIAGE_RETURN)
}

/// Round trip: rendering one or more clean lines and splitting the text
/// again reproduces exactly the same lines.
pub proof fn lemma_split_render_round_trip(lines: Seq<Seq<u8>>)
    requires
        lines.len() >= 1,
        forall|i: int| 0 <= i < lines.len() ==> line_clean(#[trigger] lines[i]),
    ensures
        split_lines_spec(render_lines_spec(lines)) == lines,
    decreases lines.len(),
{
    let text = render_lines_spec(lines);
    let first = lines[0];
    assert(line_clean(first));
    if lines.len() == 1 {
        lemma_find_line_feed_at(text, text.len() as int);
        assert(strip_cr(text) == text);
        assert(split_lines_spec(text) =~= lines);
    } else {
        let rest = lines.drop_first();
        let tail = render_lines_spec(rest);
        assert(text == first + seq![LINE_FEED] + tail);
        assert forall|j: int| 0 <= j < first.len() implies text[j] != LINE_FEED by {
            assert(text[j] == first[j]);
        }
        assert(text[first.len() as int] == LINE_FEED);
        lemma_find_line_feed_at(text, first.len() as int);
        let i = find_line_feed(text);
        assert(i == first.len());
        assert(text.take(i) =~= first);
        assert(strip_cr(first) == first);
        assert(text.skip(i + 1) =~= tail);
        assert(forall|k: int| 0 <= k < rest.len() ==> line_clean(#[trigger] rest[k]));
        lemma_split_render_round_trip(rest);
        assert(split_lines_spec(text) == seq![first] + rest);
        assert(seq![first] + rest =~= lines);
    }
}

/// Joins the lines with single line feeds, no separator after the last.
pub fn render_lines(lines: &Vec<Vec<u8>>) -> (r: Vec<u8>)
    ensures
        r@ == render_lines_spec(lines.deep_view()),
{
    let ghost all = lines.deep_view();
    let mut out: Vec<u8> = Vec::new();
    let mut i: usize = 0;
    while i < lines.len()
        invariant
            0 <= i <= lines@.len(),
            all == lines.deep_view(),
            all.len() == lines@.len(),
            out@ == render_lines_spec(all.take(i as int)),
        decreases lines@.len() - i,
    {
        if i > 0 {
            out.push(LINE_FEED);
        }
        let line: &Vec<u8> = &lines[i];
        let ghost mid = out@;
        let mut m: usize = 0;
        while m < line.len()
            invariant
                0 <= m <= line@.len(),
                out@ == mid + line@.take(m as int),
            decreases line@.len() - m,
        {
            out.push(line[m]);
            assert(mid + line@.take(m as int) + seq![line@[m as int]] =~= mid + line@.take(
                m as int + 1,
            ));
            m = m + 1;
        }
        proof {
            assert(line@.take(line@.len() as int) =~= line@);
            assert(all[i as int] == lines@[i as int].deep_view());
            assert(lines@[i as int].deep_view() =~= line@);
            assert(all.take(i as int + 1) =~= all.take(i as int).push(all[i as int]));
            if i == 0 {
                assert(render_lines_spec(all.take(1)) == all.take(1)[0]);
                assert(out@ =~= line@);
            } else {
                lemma_render_lines_push(all.take(i as int), all[i as int]);
                assert(out@ =~= render_lines_spec(all.take(i as int)) + seq![LINE_FEED] + line@);
            }
        }
        i = i + 1;
    }
    proof {
        assert(all.take(all.len() as int) =~= all);
    }
    out
}

/// Splits a text into its lines at each line feed, dropping one carriage
/// return from the end of each piece: both bare line feeds and two-byte
/// separators are accepted.
pub fn split_lines(text: &Vec<u8>) -> (r: Vec<Vec<u8>>)
    ensures
        r.deep_view() == split_lines_spec(text@),
{
    let mut out: Vec<Vec<u8>> = Vec::new();
    let ghost mut done: Seq<Seq<u8>> = Seq::empty();
    let mut start: usize = 0;
    proof {
        assert(text@.skip(0) =~= text@);
        assert(done + split_lines_spec(text@) =~= split_lines_spec(text@));
    }
    loop
        invariant_except_break
            done + split_lines_spec(text@.skip(start as int)) == split_lines_spec(text@),
        invariant
            0 <= start <= text@.len(),
            done.len() == out@.len(),
            forall|k: int| 0 <= k < done.len() ==> out@[k].deep_view() == done[k],
        ensures
            done == split_lines_spec(text@),
            done.len() == out@.len(),
            forall|k: int| 0 <= k < done.len() ==> out@[k].deep_view() == done[k],
        decreases text@.len() - start,
    {
        let ghost remaining = text@.skip(start as int);
        let mut j: usize = start;
        while j < text.len() && text[j] != LINE_FEED
            invariant
                start <= j <= text@.len(),
                forall|k: int| start <= k < j ==> text@[k] != LINE_FEED,
            decreases text@.len() - j,
        {
            j = j + 1;
        }
        let mut line: Vec<u8> = Vec::new();
        let mut m: usize = start;
        while m < j
            invariant
                start <= m <= j <= text@.len(),
                line@ == text@.subrange(start as int, m as int),
            decreases j - m,
        {
            line.push(text[m]);
            assert(text@.subrange(start as int, m as int) + seq![text@[m as int]]
                =~= text@.subrange(start as int, m as int + 1));
            m = m + 1;
        }
        if line.len() >= 1 && line[line.len() - 1] == CARRIAGE_RETURN {
            line.pop();
        }
        let ghost piece = text@.subrange(start as int, j as int);
        proof {
            assert(line@ == strip_cr(piece));
            assert forall|k: int| 0 <= k < j - start implies remaining[k] != LINE_FEED by {
                assert(remaining[k] == text@[start + k]);
            }
            if j < text@.len() {
                assert(remaining[j - start] == text@[j as int]);
            }
            lemma_find_line_feed_at(remaining, j - start);
            assert(remaining.take(j - start) =~= piece);
        }
        out.push(line);
        proof {
            done = done.push(line@);
            assert forall|k: int| 0 <= k < done.len() implies out@[k].deep_view() == done[k] by {
                assert(out@[k].deep_view() =~= out@[k]@);
            }
        }
        if j < text.len() {
            proof {
                assert(remaining.skip(j - start + 1) =~= text@.skip(j as int + 1));
                assert(split_lines_spec(remaining) == seq![strip_cr(piece)] + split_lines_spec(
                    text@.skip(j as int + 1),
                ));
                assert(done + split_lines_spec(text@.skip(j as int + 1)) =~= split_lines_spec(
                    text@,
                ));
            }
            start = j + 1;
        } else {
            proof {
                assert(strip_cr(remaining) == strip_cr(piece)) by {
                    assert(remaining =~= piece);
                }
                assert(split_lines_spec(remaining) =~= seq![strip_cr(piece)]);
                assert(done =~= split_lines_spec(text@));
            }
            break;
        }
    }
    proof {
        assert(out.deep_view() =~= done);
    }
    out
}

} // verus!
