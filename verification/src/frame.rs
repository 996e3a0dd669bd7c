//! The frame renderer: numbered source lines, a gutter of constant width, and
//! a row of carets under each marked line.

use crate::decimal::{count_digits, decimal, digit_count, push_decimal};
use crate::markers::{marker_lines, resolve, Layout, MarkerLines};
use crate::span::{check_span, span_check, CodeFrameOptions, FrameError, NodeLocation};
use vstd::prelude::*;

verus! {

broadcast use vstd::std_specs::hash::group_hash_axioms;

/// The character `c`, `n` times.
pub open spec fn repeated(c: char, n: nat) -> Seq<char> {
    Seq::new(n, |i: int| c)
}

/// The width of the line-number column: one more than the digits of the
/// largest number that could stand in it.
pub open spec fn gutter_width(end: nat) -> nat {
    digit_count(end) + 1
}

/// The line number `i`, filled up with spaces behind it to `width` columns.
pub open spec fn number_cell(i: nat, width: nat) -> Seq<char> {
    decimal(i) + repeated(
        ' ',
        if digit_count(i) <= width {
            (width - digit_count(i)) as nat
        } else {
            0
        },
    )
}

/// The two columns in front of the gutter: `> ` on a marked line, blank
/// otherwise.
pub open spec fn row_prefix(marked: bool) -> Seq<char> {
    if marked {
        seq!['>', ' ']
    } else {
        seq![' ', ' ']
    }
}

/// What stands between the gutter and the text of a row.
pub open spec fn separator() -> Seq<char> {
    seq![' ', '|', ' ']
}

/// The row that shows line `i` of the source.
pub open spec fn source_row(i: nat, text: Seq<char>, marked: bool, width: nat) -> Seq<char> {
    row_prefix(marked) + number_cell(i, width) + separator() + text
}

/// The carets of one marked line: blank up to `column`, then one caret for
/// each column of the run, and a single caret for an empty run.
pub open spec fn marker_glyphs(column: nat, length: nat) -> Seq<char> {
    repeated(' ', column) + repeated(
        '^',
        if length >= 1 {
            length
        } else {
            1
        },
    )
}

/// The row under a marked line: a blank gutter, then the carets.
pub open spec fn marker_row(width: nat, column: nat, length: nat) -> Seq<char> {
    row_prefix(false) + repeated(' ', width) + separator() + marker_glyphs(column, length)
}

/// The rows for line `i`: the line itself and, if it is marked, its carets.
pub open spec fn line_rows(
    lines: Seq<Seq<char>>,
    markers: Map<nat, (nat, nat)>,
    i: int,
    width: nat,
) -> Seq<Seq<char>> {
    if markers.contains_key(i as nat) {
        seq![
            source_row(i as nat, lines[i], true, width),
            marker_row(width, markers[i as nat].0, markers[i as nat].1),
        ]
    } else {
        seq![source_row(i as nat, lines[i], false, width)]
    }
}

/// The rows for the lines `start..end`, in ascending order of line.
pub open spec fn frame_rows(
    lines: Seq<Seq<char>>,
    markers: Map<nat, (nat, nat)>,
    start: int,
    end: int,
    width: nat,
) -> Seq<Seq<char>>
    decreases end - start,
{
    if end <= start {
        Seq::empty()
    } else {
        frame_rows(lines, markers, start, end - 1, width) + line_rows(
            lines,
            markers,
            end - 1,
            width,
        )
    }
}

/// The rows with a newline between each two, and none at the end.
pub open spec fn join_rows(rows: Seq<Seq<char>>) -> Seq<char>
    decreases rows.len(),
{
    if rows.len() == 0 {
        Seq::empty()
    } else if rows.len() == 1 {
        rows[0]
    } else {
        join_rows(rows.drop_last()) + seq!['\n'] + rows.last()
    }
}

/// The rows of the frame that `layout` describes over `lines`.
pub open spec fn layout_rows(lines: Seq<Seq<char>>, layout: Layout) -> Seq<Seq<char>> {
    frame_rows(
        lines,
        layout.markers,
        layout.start as int,
        layout.end as int,
        gutter_width(layout.end),
    )
}

/// The text of the frame that `layout` describes over `lines`.
pub open spec fn frame_text(lines: Seq<Seq<char>>, layout: Layout) -> Seq<char> {
    join_rows(layout_rows(lines, layout))
}

/// Joining one more row to a sequence of rows puts a newline in front of it,
/// unless it is the first.
pub proof fn lemma_join_rows_push(rows: Seq<Seq<char>>, row: Seq<char>)
    ensures
        join_rows(rows.push(row)) == if rows.len() == 0 {
            row
        } else {
            join_rows(rows) + seq!['\n'] + row
        },
{
    assert(rows.push(row).drop_last() =~= rows);
}

/// Every line of a range contributes at least one row.
pub proof fn lemma_frame_rows_len(
    lines: Seq<Seq<char>>,
    markers: Map<nat, (nat, nat)>,
    start: int,
    end: int,
    width: nat,
)
    requires
        start <= end,
    ensures
        end - start <= frame_rows(lines, markers, start, end, width).len() <= 2 * (end - start),
    decreases end - start,
{
    if start < end {
        lemma_frame_rows_len(lines, markers, start, end - 1, width);
    }
}

/// Appends `glyph`, a text of one character, `count` times.
fn push_run(out: &mut String, glyph: &str, count: usize)
    requires
        glyph@.len() == 1,
    ensures
        final(out)@ == old(out)@ + repeated(glyph@[0], count as nat),
{
    let mut done: usize = 0;
    assert(out@ =~= old(out)@ + repeated(glyph@[0], 0));
    while done < count
        invariant
            glyph@.len() == 1,
            done <= count,
            out@ == old(out)@ + repeated(glyph@[0], done as nat),
        decreases count - done,
    {
        out.append(glyph);
        done = done + 1;
        assert(out@ =~= old(out)@ + repeated(glyph@[0], done as nat));
    }
}

/// Appends the row that shows line `i` with the text `text`.
fn push_source_row(out: &mut String, i: usize, text: &str, marked: bool, width: usize)
    ensures
        final(out)@ == old(out)@ + source_row(i as nat, text@, marked, width as nat),
{
    proof {
        reveal_strlit("> ");
        reveal_strlit("  ");
        reveal_strlit(" ");
        reveal_strlit(" | ");
    }
    let prefix = if marked {
        "> "
    } else {
        "  "
    };
    let padding = width.saturating_sub(count_digits(i));
    out.append(prefix);
    push_decimal(out, i);
    push_run(out, " ", padding);
    out.append(" | ");
    out.append(text);
    assert(out@ =~= old(out)@ + source_row(i as nat, text@, marked, width as nat));
}

/// Appends the row of carets for a run of `length` columns from `column`.
fn push_marker_row(out: &mut String, width: usize, column: usize, length: usize)
    ensures
        final(out)@ == old(out)@ + marker_row(width as nat, column as nat, length as nat),
{
    proof {
        reveal_strlit("  ");
        reveal_strlit(" ");
        reveal_strlit(" | ");
        reveal_strlit("^");
    }
    let carets = if length >= 1 {
        length
    } else {
        1
    };
    out.append("  ");
    push_run(out, " ", width);
    out.append(" | ");
    push_run(out, " ", column);
    push_run(out, "^", carets);
    assert(out@ =~= old(out)@ + marker_row(width as nat, column as nat, length as nat));
}

/// Renders the lines `layout.start..layout.end` of `lines`: each as a
/// numbered row, each marked one with `> ` in front and a row of carets
/// under it, joined by newlines.
pub fn render_frame(lines: &[&str], layout: &MarkerLines) -> (text: String)
    requires
        layout.end <= lines@.len(),
    ensures
        text@ == frame_text(lines.deep_view(), layout@),
{
    let width = count_digits(layout.end) + 1;
    let ghost source = lines.deep_view();
    let ghost markers = layout@.markers;
    let mut text = String::new();
    let mut i: usize = layout.start;
    while i < layout.end
        invariant
            layout.end <= lines@.len(),
            source == lines.deep_view(),
            markers == layout@.markers,
            width == gutter_width(layout.end as nat),
            layout.start <= i,
            i <= layout.end || i == layout.start,
            text@ == join_rows(
                frame_rows(source, markers, layout.start as int, i as int, width as nat),
            ),
        decreases layout.end - i,
    {
        let ghost before = frame_rows(source, markers, layout.start as int, i as int, width as nat);
        proof {
            lemma_frame_rows_len(source, markers, layout.start as int, i as int, width as nat);
        }
        if i > layout.start {
            proof {
                reveal_strlit("\n");
            }
            text.append("\n");
        }
        match layout.marker_lines.get(&i) {
            Some(marker) => {
                let ghost row = source_row(i as nat, source[i as int], true, width as nat);
                let ghost carets = marker_row(width as nat, marker.0 as nat, marker.1 as nat);
                push_source_row(&mut text, i, lines[i], true, width);
                proof {
                    reveal_strlit("\n");
                }
                text.append("\n");
                push_marker_row(&mut text, width, marker.0, marker.1);
                proof {
                    lemma_join_rows_push(before, row);
                    lemma_join_rows_push(before.push(row), carets);
                    assert(before.push(row).push(carets) =~= before + line_rows(
                        source,
                        markers,
                        i as int,
                        width as nat,
                    ));
                    assert(text@ =~= join_rows(before.push(row).push(carets)));
                }
            },
            None => {
                let ghost row = source_row(i as nat, source[i as int], false, width as nat);
                push_source_row(&mut text, i, lines[i], false, width);
                proof {
                    lemma_join_rows_push(before, row);
                    assert(before.push(row) =~= before + line_rows(
                        source,
                        markers,
                        i as int,
                        width as nat,
                    ));
                    assert(text@ =~= join_rows(before.push(row)));
                }
            },
        }
        i = i + 1;
    }
    text
}

/// Renders the code frame for the span `loc` in `lines`: the lines from
/// `context_window.lines_above` before the span's first line up to, and
/// without, the line `context_window.lines_below` past its last line, as far
/// as the source has them. Each line that the span touches is marked with
/// `> ` and underlined with carets; a start column beyond the end of the
/// first of several lines counts as the end of that line.
pub fn code_frame(lines: &[&str], loc: NodeLocation, context_window: CodeFrameOptions) -> (text:
    String)
    requires
        loc.fits(lines@.len()),
    ensures
        text@ == frame_text(lines.deep_view(), resolve(lines.deep_view(), loc, context_window)),
{
    let layout = marker_lines(lines, loc, context_window);
    render_frame(lines, &layout)
}

/// Renders the code frame for `loc` in `lines` as `code_frame` does, after
/// checking that `loc` is a span of `lines`: an empty source and a span that
/// is not one of the source are refused.
pub fn try_code_frame(
    lines: &[&str],
    loc: NodeLocation,
    context_window: CodeFrameOptions,
) -> (outcome: Result<String, FrameError>)
    ensures
        match outcome {
            Ok(text) => loc.fits(lines@.len()) && text@ == frame_text(
                lines.deep_view(),
                resolve(lines.deep_view(), loc, context_window),
            ),
            Err(error) => span_check(lines@.len(), loc) == Err::<(), FrameError>(error),
        },
{
    match check_span(lines.len(), &loc) {
        Ok(()) => Ok(code_frame(lines, loc, context_window)),
        Err(error) => Err(error),
    }
}

} // verus!
