//! Renders a code frame: an excerpt of source text around a span, with a
//! line-number gutter, a `>` in front of each line the span touches and a row
//! of carets under the columns it covers.

pub mod decimal;
pub mod frame;
pub mod markers;
pub mod shape;
pub mod span;

pub use crate::frame::{code_frame, render_frame, try_code_frame};
pub use crate::markers::{marker_lines, MarkerLines};
pub use crate::span::{check_span, CodeFrameOptions, FrameError, Location, NodeLocation};
