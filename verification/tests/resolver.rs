use code_frame::decimal::{count_digits, push_decimal};
use code_frame::{
    check_span, marker_lines, render_frame, try_code_frame, CodeFrameOptions, FrameError,
    Location, MarkerLines, NodeLocation,
};
use std::collections::HashMap;

fn span(start: (usize, usize), end: (usize, usize)) -> NodeLocation {
    NodeLocation {
        start: Location { line: start.0, column: start.1 },
        end: Location { line: end.0, column: end.1 },
    }
}

fn window(lines_above: usize, lines_below: usize) -> CodeFrameOptions {
    CodeFrameOptions { lines_above, lines_below }
}

#[test]
fn point_span_has_one_marker_of_length_zero() {
    let lines = ["abc"];
    let layout = marker_lines(&lines, span((0, 1), (0, 1)), window(0, 0));
    assert_eq!(layout.marker_lines.len(), 1);
    assert_eq!(layout.marker_lines.get(&0), Some(&(1, 0)));
    assert_eq!((layout.start, layout.end), (0, 0));
    assert_eq!(render_frame(&lines, &layout), "");

    let shown = MarkerLines { start: 0, end: 1, marker_lines: layout.marker_lines };
    assert_eq!(render_frame(&lines, &shown), "> 0  | abc\n     |  ^");
}

#[test]
fn range_span_within_one_line() {
    let lines = ["println!(\"Hello, world!\")"];
    let layout = marker_lines(&lines, span((0, 0), (0, 7)), window(3, 3));
    assert_eq!((layout.start, layout.end), (0, 1));
    assert_eq!(layout.marker_lines.len(), 1);
    assert_eq!(layout.marker_lines.get(&0), Some(&(0, 7)));
}

#[test]
fn span_over_two_lines_of_ten() {
    let lines = [
        "line zero",
        "line one",
        "line two",
        "    let value = compute();",
        "    finish(value);",
        "line five",
        "line six",
        "line seven",
        "line eight",
        "line nine",
    ];
    let layout = marker_lines(&lines, span((3, 4), (4, 11)), window(10, 10));
    assert_eq!((layout.start, layout.end), (0, 10));
    assert_eq!(layout.marker_lines.len(), 2);
    assert_eq!(layout.marker_lines.get(&3), Some(&(4, lines[3].len() - 4)));
    assert_eq!(layout.marker_lines.get(&3), Some(&(4, 22)));
    assert_eq!(layout.marker_lines.get(&4), Some(&(0, 11)));
    for line in [0, 1, 2, 5, 6, 7, 8, 9] {
        assert_eq!(layout.marker_lines.get(&line), None);
    }
}

#[test]
fn span_over_three_lines_marks_the_middle_line_whole() {
    let lines = ["first", "second line", "third", "fourth"];
    let layout = marker_lines(&lines, span((0, 2), (2, 4)), window(0, 0));
    assert_eq!(layout.marker_lines.len(), 3);
    assert_eq!(layout.marker_lines.get(&0), Some(&(2, 3)));
    assert_eq!(layout.marker_lines.get(&1), Some(&(0, 11)));
    assert_eq!(layout.marker_lines.get(&2), Some(&(0, 4)));
    assert_eq!(layout.marker_lines.get(&3), None);
}

#[test]
fn window_is_clamped_to_the_source() {
    let lines = ["a", "b", "c", "d", "e"];
    let layout = marker_lines(&lines, span((2, 0), (2, 1)), window(usize::MAX, usize::MAX));
    assert_eq!((layout.start, layout.end), (0, 5));
    let layout = marker_lines(&lines, span((2, 0), (3, 1)), window(1, 1));
    assert_eq!((layout.start, layout.end), (1, 4));
    let layout = marker_lines(&lines, span((4, 0), (4, 1)), window(7, 7));
    assert_eq!((layout.start, layout.end), (0, 5));
}

#[test]
fn window_of_zero_runs_from_first_to_last_line_of_the_span() {
    let lines = ["a", "b", "c", "d", "e"];
    let layout = marker_lines(&lines, span((1, 0), (3, 1)), window(0, 0));
    assert_eq!((layout.start, layout.end), (1, 3));
    for line in layout.start..layout.end {
        assert!(layout.marker_lines.contains_key(&line));
    }
}

#[test]
fn start_column_past_the_line_is_clamped() {
    let lines = ["ab", "cdef"];
    let layout = marker_lines(&lines, span((0, 9), (1, 2)), window(0, 0));
    assert_eq!(layout.marker_lines.get(&0), Some(&(2, 0)));
    assert_eq!(layout.marker_lines.get(&1), Some(&(0, 2)));
}

#[test]
fn columns_past_the_line_are_kept_within_one_line() {
    let lines = ["ab"];
    let layout = marker_lines(&lines, span((0, 5), (0, 8)), window(0, 0));
    assert_eq!(layout.marker_lines.get(&0), Some(&(5, 3)));
}

#[test]
fn render_frame_takes_any_layout() {
    let lines = ["zero", "one", "two"];
    let mut markers = HashMap::new();
    markers.insert(0, (1, 2));
    markers.insert(2, (0, 0));
    let layout = MarkerLines { start: 0, end: 3, marker_lines: markers };
    assert_eq!(
        render_frame(&lines, &layout),
        "> 0  | zero\n     |  ^^\n  1  | one\n> 2  | two\n     | ^"
    );
    let empty = MarkerLines { start: 2, end: 1, marker_lines: HashMap::new() };
    assert_eq!(render_frame(&lines, &empty), "");
}

#[test]
fn empty_source_is_refused() {
    let lines: [&str; 0] = [];
    assert_eq!(
        try_code_frame(&lines, span((0, 0), (0, 0)), window(1, 1)),
        Err(FrameError::EmptySource)
    );
    assert_eq!(check_span(0, &span((0, 0), (0, 0))), Err(FrameError::EmptySource));
}

#[test]
fn span_past_the_last_line_is_refused() {
    let lines = ["a", "b"];
    assert_eq!(
        try_code_frame(&lines, span((1, 0), (2, 0)), window(1, 1)),
        Err(FrameError::InvalidSpan { line: 2 })
    );
    assert_eq!(
        check_span(2, &span((5, 0), (4, 0))),
        Err(FrameError::InvalidSpan { line: 4 })
    );
}

#[test]
fn span_that_ends_before_it_starts_is_refused() {
    let lines = ["a", "b", "c"];
    assert_eq!(
        try_code_frame(&lines, span((2, 0), (1, 0)), window(1, 1)),
        Err(FrameError::InvalidSpan { line: 2 })
    );
    assert_eq!(
        try_code_frame(&lines, span((1, 4), (1, 3)), window(1, 1)),
        Err(FrameError::InvalidSpan { line: 1 })
    );
}

#[test]
fn span_of_the_source_is_framed() {
    let lines = ["a", "b", "c"];
    assert_eq!(check_span(3, &span((1, 0), (2, 0))), Ok(()));
    assert_eq!(
        try_code_frame(&lines, span((1, 0), (1, 1)), window(1, 1)),
        Ok(String::from("  0  | a\n> 1  | b\n     | ^"))
    );
}

#[test]
fn decimal_notation() {
    let mut text = String::from("n=");
    push_decimal(&mut text, 0);
    assert_eq!(text, "n=0");
    text.push(',');
    push_decimal(&mut text, 7);
    text.push(',');
    push_decimal(&mut text, 10);
    text.push(',');
    push_decimal(&mut text, 12345);
    text.push(',');
    push_decimal(&mut text, 9_007_199_254_740_993);
    assert_eq!(text, "n=0,7,10,12345,9007199254740993");

    let mut largest = String::new();
    push_decimal(&mut largest, usize::MAX);
    assert_eq!(largest, usize::MAX.to_string());
}

#[test]
fn digit_counts() {
    assert_eq!(count_digits(0), 1);
    assert_eq!(count_digits(9), 1);
    assert_eq!(count_digits(10), 2);
    assert_eq!(count_digits(99), 2);
    assert_eq!(count_digits(100), 3);
    assert_eq!(count_digits(usize::MAX), usize::MAX.to_string().len());
}
