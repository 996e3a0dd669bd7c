//! Positions, spans and the context window.

use vstd::prelude::*;

verus! {

/// A position in the source. Lines and columns both count from zero.
#[derive(Clone, Copy, Debug)]
pub struct Location {
    pub line: usize,
    pub column: usize,
}

/// The stretch of source between two positions that a frame points at.
#[derive(Clone, Copy, Debug)]
pub struct NodeLocation {
    pub start: Location,
    pub end: Location,
}

/// How many lines of context to show around the span.
#[derive(Clone, Copy, Debug)]
pub struct CodeFrameOptions {
    pub lines_above: usize,
    pub lines_below: usize,
}

impl NodeLocation {
    /// The start does not come after the end in document order.
    pub open spec fn in_order(&self) -> bool {
        self.start.line < self.end.line || (self.start.line == self.end.line && self.start.column
            <= self.end.column)
    }

    /// The span is in order and its last line is one of `line_count` lines.
    pub open spec fn fits(&self, line_count: nat) -> bool {
        self.in_order() && self.end.line < line_count
    }

    /// The span touches line `i`.
    pub open spec fn touches(&self, i: int) -> bool {
        self.start.line <= i <= self.end.line
    }
}

/// Why a span cannot be framed.
#[derive(Clone, Copy, Debug, PartialEq, Eq)]
pub enum FrameError {
    /// The source has no lines.
    EmptySource,
    /// The span is not a span of the source. `line` is the index of the line
    /// at fault: the span's last line where the source has no such line,
    /// else its first line, whose position comes after the span's end.
    InvalidSpan { line: usize },
}

/// Whether `loc` is a span of a source of `line_count` lines, and the error
/// where it is not.
pub open spec fn span_check(line_count: nat, loc: NodeLocation) -> Result<(), FrameError> {
    if line_count == 0 {
        Err(FrameError::EmptySource)
    } else if loc.end.line >= line_count {
        Err(FrameError::InvalidSpan { line: loc.end.line })
    } else if !loc.in_order() {
        Err(FrameError::InvalidSpan { line: loc.start.line })
    } else {
        Ok(())
    }
}

/// Checks that `loc` is a span of a source of `line_count` lines.
pub fn check_span(line_count: usize, loc: &NodeLocation) -> (checked: Result<(), FrameError>)
    ensures
        checked == span_check(line_count as nat, *loc),
        checked is Ok <==> loc.fits(line_count as nat),
{
    if line_count == 0 {
        Err(FrameError::EmptySource)
    } else if loc.end.line >= line_count {
        Err(FrameError::InvalidSpan { line: loc.end.line })
    } else if loc.start.line > loc.end.line || (loc.start.line == loc.end.line && loc.start.column
        > loc.end.column) {
        Err(FrameError::InvalidSpan { line: loc.start.line })
    } else {
        Ok(())
    }
}

} // verus!
