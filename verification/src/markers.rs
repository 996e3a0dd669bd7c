//! The span resolver: which lines a frame shows, and where the carets go on
//! each line that the span touches.

use crate::span::{CodeFrameOptions, NodeLocation};
use std::collections::HashMap;
use vstd::prelude::*;
use vstd::utf8::encode_utf8;

verus! {

broadcast use vstd::std_specs::hash::group_hash_axioms;

/// The length of a line as columns count it: the bytes of its UTF-8 text.
pub open spec fn byte_len(text: Seq<char>) -> nat {
    encode_utf8(text).len()
}

/// What a frame shows: the half-open range `start..end` of line indices, and
/// for each marked line the column where its carets begin and how many
/// columns they stand for.
pub struct Layout {
    pub start: nat,
    pub end: nat,
    pub markers: Map<nat, (nat, nat)>,
}

/// The range of lines to show and the caret runs, as computed for one span.
#[derive(Debug)]
pub struct MarkerLines {
    pub start: usize,
    pub end: usize,
    pub marker_lines: HashMap<usize, (usize, usize)>,
}

impl View for MarkerLines {
    type V = Layout;

    open spec fn view(&self) -> Layout {
        Layout {
            start: self.start as nat,
            end: self.end as nat,
            markers: Map::new(
                |i: nat| i <= usize::MAX && self.marker_lines@.contains_key(i as usize),
                |i: nat|
                    (
                        self.marker_lines@[i as usize].0 as nat,
                        self.marker_lines@[i as usize].1 as nat,
                    ),
            ),
        }
    }
}

/// The first line shown: `lines_above` lines before the span, or the first
/// line of the source where there are not that many.
pub open spec fn display_start(loc: NodeLocation, options: CodeFrameOptions) -> nat {
    if loc.start.line >= options.lines_above {
        (loc.start.line - options.lines_above) as nat
    } else {
        0
    }
}

/// One past the last line shown: `lines_below` past the index of the span's
/// last line, or the end of the source where that lies beyond it.
pub open spec fn display_end(line_count: nat, loc: NodeLocation, options: CodeFrameOptions) -> nat {
    if loc.end.line + options.lines_below <= line_count {
        (loc.end.line + options.lines_below) as nat
    } else {
        line_count
    }
}

/// The caret run on line `i` of a span that touches it, as start column and
/// length.
///
/// A span within one line runs from its start column to its end column. A
/// span over several lines runs from its start column to the end of its first
/// line, over the whole of each line in between, and from column zero to its
/// end column on its last line. A start column beyond the end of the first
/// line counts as the end of that line.
pub open spec fn marker_at(lines: Seq<Seq<char>>, loc: NodeLocation, i: int) -> (nat, nat) {
    if loc.start.line == loc.end.line {
        (loc.start.column as nat, (loc.end.column - loc.start.column) as nat)
    } else if i == loc.start.line {
        let width = byte_len(lines[i]);
        let column = if loc.start.column <= width {
            loc.start.column as nat
        } else {
            width
        };
        (column, (width - column) as nat)
    } else if i == loc.end.line {
        (0, loc.end.column as nat)
    } else {
        (0, byte_len(lines[i]))
    }
}

/// The caret runs of a span: one for each line it touches, none elsewhere.
pub open spec fn span_markers(lines: Seq<Seq<char>>, loc: NodeLocation) -> Map<nat, (nat, nat)> {
    Map::new(|i: nat| loc.touches(i as int), |i: nat| marker_at(lines, loc, i as int))
}

/// The layout of the frame for `loc` in `lines` with the context `options`.
pub open spec fn resolve(
    lines: Seq<Seq<char>>,
    loc: NodeLocation,
    options: CodeFrameOptions,
) -> Layout {
    Layout {
        start: display_start(loc, options),
        end: display_end(lines.len(), loc, options),
        markers: span_markers(lines, loc),
    }
}

/// The window of lines stays within the source, however large the context
/// asked for: it starts at or before the span, at no negative index, and ends
/// at or before the end of the source. For a span of the source it is a
/// range, its start not after its end.
pub proof fn lemma_window_within_source(
    line_count: nat,
    loc: NodeLocation,
    options: CodeFrameOptions,
)
    ensures
        0 <= display_start(loc, options) <= loc.start.line,
        display_end(line_count, loc, options) <= line_count,
        loc.fits(line_count) ==> display_start(loc, options) <= display_end(
            line_count,
            loc,
            options,
        ),
{
}

/// With no context above and none below, the window runs from the first line
/// of the span up to, and without, its last line: every line shown is one
/// that the span touches and carries a caret run.
pub proof fn lemma_zero_window_shows_span_lines_only(
    lines: Seq<Seq<char>>,
    loc: NodeLocation,
    options: CodeFrameOptions,
)
    requires
        loc.fits(lines.len()),
        options.lines_above == 0,
        options.lines_below == 0,
    ensures
        resolve(lines, loc, options).start == loc.start.line,
        resolve(lines, loc, options).end == loc.end.line,
        forall|i: nat|
            resolve(lines, loc, options).start <= i < resolve(lines, loc, options).end ==> loc.touches(
                i as int,
            ) && #[trigger] resolve(lines, loc, options).markers.contains_key(i),
{
}

/// The caret run for line `i` of `lines`, which the span `loc` touches.
fn marker_for_line(lines: &[&str], loc: &NodeLocation, i: usize) -> (marker: (usize, usize))
    requires
        loc.fits(lines@.len()),
        loc.touches(i as int),
    ensures
        (marker.0 as nat, marker.1 as nat) == marker_at(lines.deep_view(), *loc, i as int),
{
    if loc.start.line == loc.end.line {
        (loc.start.column, loc.end.column - loc.start.column)
    } else if i == loc.start.line {
        let width = lines[i].as_bytes().len();
        let column = if loc.start.column <= width {
            loc.start.column
        } else {
            width
        };
        (column, width - column)
    } else if i == loc.end.line {
        (0, loc.end.column)
    } else {
        (0, lines[i].as_bytes().len())
    }
}

/// Resolves a span against the source: the window of lines to show, clamped
/// to the source, and the caret run of each line that the span touches.
pub fn marker_lines(lines: &[&str], loc: NodeLocation, options: CodeFrameOptions) -> (layout:
    MarkerLines)
    requires
        loc.fits(lines@.len()),
    ensures
        layout@ == resolve(lines.deep_view(), loc, options),
        layout.start <= loc.start.line,
        layout.start <= layout.end <= lines@.len(),
{
    let line_count = lines.len();
    let start = loc.start.line.saturating_sub(options.lines_above);
    let reach = loc.end.line.saturating_add(options.lines_below);
    let end = if line_count < reach {
        line_count
    } else {
        reach
    };
    let mut markers: HashMap<usize, (usize, usize)> = HashMap::new();
    let mut i: usize = loc.start.line;
    while i <= loc.end.line
        invariant
            loc.fits(lines@.len()),
            line_count == lines@.len(),
            loc.start.line <= i <= loc.end.line + 1,
            forall|k: usize| markers@.contains_key(k) <==> loc.start.line <= k < i,
            forall|k: usize|
                loc.start.line <= k < i ==> (#[trigger] markers@[k].0 as nat, markers@[k].1 as nat)
                    == marker_at(lines.deep_view(), loc, k as int),
        decreases loc.end.line + 1 - i,
    {
        let marker = marker_for_line(lines, &loc, i);
        markers.insert(i, marker);
        i = i + 1;
    }
    let layout = MarkerLines { start, end, marker_lines: markers };
    assert(layout@.markers =~= span_markers(lines.deep_view(), loc));
    layout
}

} // verus!
