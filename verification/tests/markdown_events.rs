use codex_logic::markdown_events::markdown_event_lines;

#[test]
fn heading_and_text_events() {
    let lines = markdown_event_lines("# Title\n\nSome *text*.\n");
    assert!(lines.len() > 3);
    assert!(lines[0].starts_with("Start(Heading"));
    assert!(lines.iter().any(|line| line.contains("Text(Borrowed(\"Title\"))")));
    assert!(lines.iter().any(|line| line.starts_with("Start(Emphasis")));
}

#[test]
fn empty_input_has_no_events() {
    assert!(markdown_event_lines("").is_empty());
}
