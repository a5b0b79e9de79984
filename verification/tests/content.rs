use superconsole::Dimensions;
use superconsole::Direction;
use superconsole::Line;
use superconsole::Lines;
use superconsole::Span;

#[test]
fn test_saturating_sub_axes() {
    let d = Dimensions::new(5, 3);
    assert_eq!(d.saturating_sub(1, Direction::Vertical), Dimensions::new(5, 2));
    assert_eq!(d.saturating_sub(4, Direction::Vertical), Dimensions::new(5, 0));
    assert_eq!(d.saturating_sub(9, Direction::Horizontal), Dimensions::new(0, 3));
}

#[test]
fn test_line_display_length() {
    let mut line = Line::new();
    line.push_span(Span::new(String::from("hello")));
    line.push_span(Span::new(String::from(", world")));
    assert_eq!(line.len(), 12);
    assert_eq!(Line::from_text(String::from("")).len(), 0);
}

#[test]
fn test_span_display_length_counts_chars() {
    // Display length is measured in characters, not bytes.
    let span = Span::new(String::from("ä"));
    assert_eq!(span.len(), 1);
}

#[test]
fn test_lines_exceeds_boundary() {
    let mut lines = Lines::new();
    lines.push(Line::from_text(String::from("12345")));
    lines.push(Line::from_text(String::from("12345")));
    assert!(lines.exceeds(9));
    assert!(!lines.exceeds(10));
}

#[test]
fn test_lines_render_drains_fifo() {
    let mut lines = Lines::new();
    lines.push(Line::from_text(String::from("a")));
    lines.push(Line::from_text(String::from("b")));
    lines.push(Line::from_text(String::from("c")));

    let mut buffer = Vec::new();
    lines.render(&mut buffer, Some(2));
    assert_eq!(buffer, b"a\nb\n".to_vec());
    assert_eq!(lines.len(), 1);

    let mut rest = Vec::new();
    lines.render(&mut rest, None);
    assert_eq!(rest, b"c\n".to_vec());
    assert!(lines.is_empty());
}

#[test]
fn test_line_render_concatenates_spans() {
    let mut line = Line::new();
    line.push_span(Span::new(String::from("ab")));
    line.push_span(Span::new(String::from("cd")));
    let mut buffer = Vec::new();
    line.render(&mut buffer);
    assert_eq!(buffer, b"abcd\n".to_vec());
}

#[test]
fn test_lines_duplicate_is_equal() {
    let mut lines = Lines::new();
    lines.push(Line::from_text(String::from("one")));
    lines.push(Line::from_text(String::from("two")));
    let copy = lines.duplicate();
    let mut a = Vec::new();
    let mut b = Vec::new();
    let mut lines = lines;
    let mut copy = copy;
    lines.render(&mut a, None);
    copy.render(&mut b, None);
    assert_eq!(a, b);
}
