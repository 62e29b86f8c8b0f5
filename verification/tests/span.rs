use austral_lib::span::{Span, SpanContext, SpanLocation};

#[test]
fn positions_count_from_one() {
    assert!(SpanLocation::new(0, 1).is_none());
    assert!(SpanLocation::new(1, 0).is_none());
    let first = SpanLocation::new(1, 1).unwrap();
    assert_eq!((first.line, first.column), (1, 1));
    let start = SpanLocation::default();
    assert_eq!((start.line, start.column), (1, 1));
}

#[test]
fn positions_are_ordered_by_line_then_column() {
    let a = SpanLocation::new(2, 7).unwrap();
    let b = SpanLocation::new(3, 1).unwrap();
    let c = SpanLocation::new(3, 4).unwrap();
    assert!(a.precedes(&b));
    assert!(b.precedes(&c));
    assert!(a.precedes(&a));
    assert!(!c.precedes(&b));
    assert!(!b.precedes(&a));
}

#[test]
fn a_span_holds_its_file_and_its_ends() {
    let context = SpanContext { path: Some("Test.aum".to_string()) };
    let start = SpanLocation::new(1, 5).unwrap();
    let end = SpanLocation::new(2, 1).unwrap();
    let span = Span::new(context, start..end);
    assert_eq!(span.context().path, Some("Test.aum".to_string()));
    assert_eq!((span.start().line, span.start().column), (1, 5));
    assert_eq!((span.end().line, span.end().column), (2, 1));
    let blank = Span::default();
    assert_eq!(blank.context().path, None);
    assert_eq!((blank.end().line, blank.end().column), (1, 1));
}
