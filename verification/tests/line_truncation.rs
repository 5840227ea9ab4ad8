use codex_logic::line_truncation::truncate_line_to_width;
use codex_logic::line_truncation::truncate_line_with_ellipsis_if_overflow;
use codex_logic::line_truncation::StyledLine;
use codex_logic::line_truncation::StyledSpan;
use ratatui::layout::Alignment;
use ratatui::style::Color;
use ratatui::style::Style;

fn line(parts: &[(&str, Style)]) -> StyledLine<Style, Alignment> {
    StyledLine {
        spans: parts
            .iter()
            .map(|(text, style)| StyledSpan {
                content: text.to_string(),
                style: *style,
            })
            .collect(),
        style: Style::new().fg(Color::Green),
        alignment: Some(Alignment::Center),
    }
}

fn parts(line: &StyledLine<Style, Alignment>) -> Vec<(String, Style)> {
    line.spans
        .iter()
        .map(|span| (span.content.clone(), span.style))
        .collect()
}

fn red() -> Style {
    Style::new().fg(Color::Red)
}

fn blue() -> Style {
    Style::new().fg(Color::Blue)
}

#[test]
fn truncation_keeps_whole_spans_that_fit_and_cuts_the_next() {
    let input = line(&[("hello", red()), (" world", blue())]);
    let out = truncate_line_to_width(input, 8);
    assert_eq!(
        parts(&out),
        vec![("hello".to_string(), red()), (" wo".to_string(), blue())]
    );
}

#[test]
fn truncation_to_zero_width_keeps_nothing() {
    let input = line(&[("", red()), ("abc", blue())]);
    let out = truncate_line_to_width(input, 0);
    assert!(out.spans.is_empty());
}

#[test]
fn truncation_measures_wide_characters() {
    let input = line(&[("日本語", red())]);
    let out = truncate_line_to_width(input, 5);
    assert_eq!(parts(&out), vec![("日本".to_string(), red())]);
    let input = line(&[("ab", red()), ("日", blue())]);
    let out = truncate_line_to_width(input, 3);
    assert_eq!(parts(&out), vec![("ab".to_string(), red())]);
}

#[test]
fn ellipsis_only_when_the_line_overflows() {
    let input = line(&[("short", red())]);
    let out = truncate_line_with_ellipsis_if_overflow(input, 5);
    assert_eq!(parts(&out), vec![("short".to_string(), red())]);

    let input = line(&[("hello", red()), (" world", blue())]);
    let out = truncate_line_with_ellipsis_if_overflow(input, 8);
    assert_eq!(
        parts(&out),
        vec![
            ("hello".to_string(), red()),
            (" w".to_string(), blue()),
            ("…".to_string(), blue()),
        ]
    );
}

#[test]
fn ellipsis_alone_gets_the_default_style() {
    let input = line(&[("日本", red())]);
    let out = truncate_line_with_ellipsis_if_overflow(input, 2);
    assert_eq!(parts(&out), vec![("…".to_string(), Style::default())]);
}

#[test]
fn ellipsis_with_zero_width_keeps_nothing() {
    let input = line(&[("abc", red())]);
    let out = truncate_line_with_ellipsis_if_overflow(input, 0);
    assert!(out.spans.is_empty());
}

#[test]
fn control_characters_take_no_columns_when_a_span_is_cut() {
    let input = line(&[("ab", red()), ("\u{7}cd", blue())]);
    let out = truncate_line_to_width(input, 3);
    assert_eq!(
        parts(&out),
        vec![("ab".to_string(), red()), ("\u{7}c".to_string(), blue())]
    );
}

#[test]
fn a_fitting_line_keeps_its_own_style_and_alignment() {
    let input = line(&[("fits", red())]);
    let out = truncate_line_with_ellipsis_if_overflow(input, 10);
    assert_eq!(out.alignment, Some(Alignment::Center));
    assert_eq!(out.style, Style::new().fg(Color::Green));

    let input = line(&[("does not fit", red())]);
    let out = truncate_line_with_ellipsis_if_overflow(input, 4);
    assert_eq!(out.alignment, None);
    assert_eq!(out.style, Style::default());
    assert_eq!(
        parts(&out),
        vec![("doe".to_string(), red()), ("…".to_string(), red())]
    );
}

#[test]
fn a_cut_line_has_the_default_style_and_no_alignment() {
    let input = line(&[("hello", red())]);
    let out = truncate_line_to_width(input, 3);
    assert_eq!(out.style, Style::default());
    assert_eq!(out.alignment, None);
    assert_eq!(parts(&out), vec![("hel".to_string(), red())]);
}
