use pms::codec::{parse_lines, render_lines};

#[test]
fn parse_empty_text() {
    assert_eq!(parse_lines(""), Vec::<String>::new());
}

#[test]
fn parse_single_line_no_newline() {
    assert_eq!(parse_lines("A"), vec!["A".to_string()]);
}

#[test]
fn parse_single_line_with_newline() {
    assert_eq!(parse_lines("A\n"), vec!["A".to_string()]);
}

#[test]
fn parse_strips_carriage_return() {
    assert_eq!(parse_lines("A\r\nB\r\n"), vec!["A".to_string(), "B".to_string()]);
}

#[test]
fn parse_last_line_unterminated() {
    assert_eq!(parse_lines("A\nB"), vec!["A".to_string(), "B".to_string()]);
}

#[test]
fn parse_lone_newline_is_empty_line() {
    assert_eq!(parse_lines("\n"), vec!["".to_string()]);
}

#[test]
fn parse_keeps_empty_middle_line() {
    assert_eq!(
        parse_lines("A\n\nB\n"),
        vec!["A".to_string(), "".to_string(), "B".to_string()]
    );
}

#[test]
fn render_empty_list() {
    assert_eq!(render_lines(&Vec::new()), "");
}

#[test]
fn render_two_names() {
    assert_eq!(
        render_lines(&vec!["A".to_string(), "B".to_string()]),
        "A\nB\n"
    );
}

#[test]
fn render_then_parse_round_trip() {
    let names = vec!["Alpha".to_string(), "Beta".to_string(), "Gamma".to_string()];
    let text = render_lines(&names);
    assert_eq!(parse_lines(&text), names);
}
