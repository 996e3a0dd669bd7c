//! What holds of the rows of every frame: the separator stands in one
//! column, each marked line is followed by its carets, and the text depends
//! on nothing but the input.

use crate::decimal::{
    digit_count, lemma_decimal_chars, lemma_decimal_len, lemma_digit_count_monotonic,
};
use crate::frame::{
    frame_rows, frame_text, gutter_width, layout_rows, line_rows, marker_glyphs, marker_row,
    repeated, row_prefix, separator, source_row,
};
use crate::markers::{resolve, Layout};
use crate::span::{CodeFrameOptions, NodeLocation};
use vstd::prelude::*;

verus! {

/// `row` holds the separator in the three columns from `column` on, and no
/// bar in front of it.
pub open spec fn separator_at(row: Seq<char>, column: nat) -> bool {
    &&& column + 3 <= row.len()
    &&& row.subrange(column as int, column as int + 3) == separator()
    &&& forall|k: int| 0 <= k < column ==> row[k] != '|'
}

/// The row of a line whose number fits the gutter has the separator right
/// behind the gutter.
pub proof fn lemma_source_row_separator(i: nat, text: Seq<char>, marked: bool, width: nat)
    requires
        digit_count(i) <= width,
    ensures
        separator_at(source_row(i, text, marked, width), 2 + width),
{
    let row = source_row(i, text, marked, width);
    lemma_decimal_len(i);
    assert(row.subrange(2 + width as int, 5 + width as int) =~= separator());
    assert forall|k: int| 0 <= k < 2 + width implies row[k] != '|' by {
        if 2 <= k < 2 + digit_count(i) {
            lemma_decimal_chars(i, k - 2);
        }
    }
}

/// A row of carets has the separator right behind the gutter.
pub proof fn lemma_marker_row_separator(width: nat, column: nat, length: nat)
    ensures
        separator_at(marker_row(width, column, length), 2 + width),
{
    let row = marker_row(width, column, length);
    assert(row.subrange(2 + width as int, 5 + width as int) =~= separator());
}

/// Each row for a line whose number fits the gutter has the separator right
/// behind the gutter.
pub proof fn lemma_line_rows_separator(
    lines: Seq<Seq<char>>,
    markers: Map<nat, (nat, nat)>,
    i: int,
    width: nat,
    k: int,
)
    requires
        0 <= i,
        digit_count(i as nat) <= width,
        0 <= k < line_rows(lines, markers, i, width).len(),
    ensures
        separator_at(line_rows(lines, markers, i, width)[k], 2 + width),
{
    let marked = markers.contains_key(i as nat);
    if k == 0 {
        lemma_source_row_separator(i as nat, lines[i], marked, width);
    } else {
        assert(marked && k == 1);
        lemma_marker_row_separator(width, markers[i as nat].0, markers[i as nat].1);
    }
}

/// In a gutter made for the number `limit`, each row of a range of lines up
/// to `limit` has the separator right behind the gutter.
pub proof fn lemma_frame_rows_separator(
    lines: Seq<Seq<char>>,
    markers: Map<nat, (nat, nat)>,
    start: int,
    end: int,
    limit: nat,
    k: int,
)
    requires
        0 <= start,
        end <= limit,
        0 <= k < frame_rows(lines, markers, start, end, gutter_width(limit)).len(),
    ensures
        separator_at(
            frame_rows(lines, markers, start, end, gutter_width(limit))[k],
            2 + gutter_width(limit),
        ),
    decreases end - start,
{
    let width = gutter_width(limit);
    let head = frame_rows(lines, markers, start, end - 1, width);
    let tail = line_rows(lines, markers, end - 1, width);
    assert(frame_rows(lines, markers, start, end, width) == head + tail);
    if k < head.len() {
        lemma_frame_rows_separator(lines, markers, start, end - 1, limit, k);
        assert((head + tail)[k] == head[k]);
    } else {
        lemma_digit_count_monotonic((end - 1) as nat, limit);
        lemma_line_rows_separator(lines, markers, end - 1, width, k - head.len());
        assert((head + tail)[k] == tail[k - head.len()]);
    }
}

/// Every row of a frame, caret rows included, has the separator in the same
/// column: right behind the gutter, with no bar in front of it.
pub proof fn lemma_gutter_aligned(lines: Seq<Seq<char>>, layout: Layout, k: int)
    requires
        0 <= k < layout_rows(lines, layout).len(),
    ensures
        separator_at(layout_rows(lines, layout)[k], 2 + gutter_width(layout.end)),
{
    lemma_frame_rows_separator(
        lines,
        layout.markers,
        layout.start as int,
        layout.end as int,
        layout.end,
        k,
    );
}

/// How many carets `row` holds.
pub open spec fn caret_count(row: Seq<char>) -> nat
    decreases row.len(),
{
    if row.len() == 0 {
        0
    } else {
        caret_count(row.drop_last()) + if row.last() == '^' {
            1nat
        } else {
            0nat
        }
    }
}

/// The carets of two texts in a row are those of the one and of the other.
pub proof fn lemma_caret_count_concat(a: Seq<char>, b: Seq<char>)
    ensures
        caret_count(a + b) == caret_count(a) + caret_count(b),
    decreases b.len(),
{
    if b.len() == 0 {
        assert(a + b =~= a);
    } else {
        lemma_caret_count_concat(a, b.drop_last());
        assert((a + b).drop_last() =~= a + b.drop_last());
    }
}

/// A run of one character holds as many carets as it is long if the
/// character is the caret, and none otherwise.
pub proof fn lemma_caret_count_repeated(c: char, n: nat)
    ensures
        caret_count(repeated(c, n)) == if c == '^' {
            n
        } else {
            0
        },
    decreases n,
{
    if n > 0 {
        lemma_caret_count_repeated(c, (n - 1) as nat);
        assert(repeated(c, n).drop_last() =~= repeated(c, (n - 1) as nat));
    }
}

/// The row of carets for a run holds one caret for each column of the run,
/// and one for an empty run.
pub proof fn lemma_marker_row_carets(width: nat, column: nat, length: nat)
    ensures
        caret_count(marker_row(width, column, length)) == if length >= 1 {
            length
        } else {
            1
        },
{
    let carets: nat = if length >= 1 {
        length
    } else {
        1
    };
    let gutter = row_prefix(false) + repeated(' ', width) + separator();
    lemma_caret_count_concat(row_prefix(false), repeated(' ', width));
    lemma_caret_count_concat(row_prefix(false) + repeated(' ', width), separator());
    lemma_caret_count_concat(gutter, marker_glyphs(column, length));
    lemma_caret_count_concat(repeated(' ', column), repeated('^', carets));
    lemma_caret_count_repeated(' ', width);
    lemma_caret_count_repeated(' ', column);
    lemma_caret_count_repeated('^', carets);
    assert(caret_count(row_prefix(false)) == 0) by {
        reveal_with_fuel(caret_count, 3);
    }
    assert(caret_count(separator()) == 0) by {
        reveal_with_fuel(caret_count, 4);
    }
}

/// A range of lines gives the rows of its first part, then those of the rest.
pub proof fn lemma_frame_rows_split(
    lines: Seq<Seq<char>>,
    markers: Map<nat, (nat, nat)>,
    start: int,
    mid: int,
    end: int,
    width: nat,
)
    requires
        start <= mid <= end,
    ensures
        frame_rows(lines, markers, start, end, width) == frame_rows(
            lines,
            markers,
            start,
            mid,
            width,
        ) + frame_rows(lines, markers, mid, end, width),
    decreases end - mid,
{
    let head = frame_rows(lines, markers, start, mid, width);
    if mid < end {
        lemma_frame_rows_split(lines, markers, start, mid, end - 1, width);
        let last = line_rows(lines, markers, end - 1, width);
        let rest = frame_rows(lines, markers, mid, end - 1, width);
        assert((head + rest) + last =~= head + (rest + last));
    } else {
        assert(head + Seq::<Seq<char>>::empty() =~= head);
    }
}

/// Each marked line that a frame shows is followed by its row of carets,
/// which holds one caret for each column of the line's run, and one for an
/// empty run.
pub proof fn lemma_marked_line_rows(lines: Seq<Seq<char>>, layout: Layout, i: nat)
    requires
        layout.start <= i < layout.end,
        layout.markers.contains_key(i),
    ensures
        ({
            let rows = layout_rows(lines, layout);
            let width = gutter_width(layout.end);
            let k = frame_rows(
                lines,
                layout.markers,
                layout.start as int,
                i as int,
                width,
            ).len() as int;
            &&& k + 1 < rows.len()
            &&& rows[k] == source_row(i, lines[i as int], true, width)
            &&& rows[k + 1] == marker_row(width, layout.markers[i].0, layout.markers[i].1)
            &&& caret_count(rows[k + 1]) == if layout.markers[i].1 >= 1 {
                layout.markers[i].1
            } else {
                1
            }
        }),
{
    let width = gutter_width(layout.end);
    let start = layout.start as int;
    let end = layout.end as int;
    let line = i as int;
    let head = frame_rows(lines, layout.markers, start, line, width);
    let here = frame_rows(lines, layout.markers, start, line + 1, width);
    let rest = frame_rows(lines, layout.markers, line + 1, end, width);
    lemma_frame_rows_split(lines, layout.markers, start, line + 1, end, width);
    assert(here == head + line_rows(lines, layout.markers, line, width));
    assert(layout_rows(lines, layout) == here + rest);
    lemma_marker_row_carets(width, layout.markers[i].0, layout.markers[i].1);
}

/// The text of a frame is a function of what the lines say, of the span and
/// of the context: two renderings of the same input are the same text.
pub proof fn lemma_same_input_same_text(
    lines: Seq<Seq<char>>,
    again: Seq<Seq<char>>,
    loc: NodeLocation,
    options: CodeFrameOptions,
)
    requires
        lines.len() == again.len(),
        forall|i: int| 0 <= i < lines.len() ==> lines[i] == again[i],
    ensures
        frame_text(lines, resolve(lines, loc, options)) == frame_text(
            again,
            resolve(again, loc, options),
        ),
{
    assert(lines =~= again);
}

} // verus!
