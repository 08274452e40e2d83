use galaxc::diagnostics::render::{render_diagnostic, summary_line, Underline};
use galaxc::diagnostics::{Diagnostic, DiagnosticKind, Span};

#[test]
fn one_line_span_is_underlined() {
    let source = "let x = 42\nlet y = x +\n";
    let d = Diagnostic::error("bad".to_string()).with_span(Span::new(4, 5)).with_file("t.gxc");
    let r = render_diagnostic(&d, source);
    assert_eq!(r.kind, DiagnosticKind::Error);
    assert_eq!(r.message, "bad");
    let ex = r.excerpt.expect("has an excerpt");
    assert_eq!(ex.location, "t.gxc:1:5");
    assert_eq!(ex.gutter_width, 1);
    assert_eq!(ex.lines.len(), 1);
    assert_eq!(ex.lines[0].number, 1);
    assert_eq!(ex.lines[0].text, "let x = 42");
    assert_eq!(ex.lines[0].underline, Some(Underline { indent: 4, width: 1 }));
}

#[test]
fn multi_line_span_is_underlined_on_both_ends() {
    let source = "let x = 42\nlet y = x +\n";
    let d = Diagnostic::warning("spans".to_string())
        .with_span(Span::new(8, 19))
        .with_note("a note".to_string())
        .with_help("some help".to_string());
    let r = render_diagnostic(&d, source);
    let ex = r.excerpt.expect("has an excerpt");
    assert_eq!(ex.location, "<input>:1:9");
    assert_eq!(ex.lines.len(), 2);
    assert_eq!(ex.lines[0].underline, Some(Underline { indent: 8, width: 2 }));
    assert_eq!(ex.lines[1].number, 2);
    assert_eq!(ex.lines[1].underline, Some(Underline { indent: 0, width: 8 }));
    assert_eq!(r.notes, vec!["a note"]);
    assert_eq!(r.help.as_deref(), Some("some help"));
}

#[test]
fn no_span_no_excerpt() {
    let d = Diagnostic::error("plain".to_string());
    let r = render_diagnostic(&d, "x");
    assert!(r.excerpt.is_none());
    assert!(r.notes.is_empty());
    assert!(r.help.is_none());
}

#[test]
fn summary_counts_errors_and_warnings() {
    let e = || Diagnostic::error("e".to_string());
    let w = || Diagnostic::warning("w".to_string());
    assert_eq!(summary_line(&vec![e(), w(), e()]).as_deref(), Some("2 errors, 1 warning"));
    assert_eq!(summary_line(&vec![w()]).as_deref(), Some("1 warning"));
    assert_eq!(summary_line(&vec![e()]).as_deref(), Some("1 error"));
    assert_eq!(summary_line(&vec![]), None);
}
