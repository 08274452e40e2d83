use galaxc::diagnostics::{SourceLocation, Span};

#[test]
fn span_merge() {
    let a = Span::new(5, 10);
    let b = Span::new(8, 15);
    let merged = a.merge(b);
    assert_eq!(merged.start, 5);
    assert_eq!(merged.end, 15);
}

#[test]
fn source_location_single_line() {
    let src = "let x = 42";
    let loc = SourceLocation::from_offset(src, 4, "test.gxc");
    assert_eq!(loc.line, 1);
    assert_eq!(loc.column, 5);
}

#[test]
fn source_location_multiline() {
    let src = "line one\nline two\nline three";
    let loc = SourceLocation::from_offset(src, 14, "test.gxc");
    assert_eq!(loc.line, 2);
    assert_eq!(loc.column, 6);
}
