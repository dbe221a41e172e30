use grezi::source::{CharRange, LiteralError, LiteralPart, StringLiteral};

fn range(sl: usize, sc: usize, el: usize, ec: usize, b: std::ops::Range<usize>) -> CharRange {
    CharRange { start_line: sl, start_character: sc, end_line: el, end_character: ec, byte_range: b }
}

#[test]
fn ranges_relative_to_another() {
    let inner = range(5, 3, 7, 2, 40..70);
    let outer = range(4, 9, 9, 0, 30..90);
    let r = inner.sub(outer);
    assert_eq!((r.start_line, r.start_character, r.end_line, r.end_character), (1, 3, 3, 2));
    assert_eq!(r.byte_range, 10..40);
}

#[test]
fn narrowing_a_range() {
    let mut r = range(2, 4, 2, 20, 100..116);
    r.narrow_to(3, 5);
    assert_eq!(r.byte_range, 103..108);
    assert_eq!((r.start_character, r.end_character), (7, 12));
    assert_eq!((r.start_line, r.end_line), (2, 2));
}

#[test]
fn cloned_range_is_equal() {
    let r = range(1, 2, 3, 4, 5..6);
    let c = r.clone();
    assert_eq!((c.start_line, c.start_character, c.end_line, c.end_character), (1, 2, 3, 4));
    assert_eq!(c.byte_range, 5..6);
}

#[test]
fn single_piece_literals() {
    let mut errors = Vec::new();
    let l = StringLiteral::parse_from_parts(&vec![LiteralPart::Content("hello".into())], &mut errors);
    assert!(matches!(l, StringLiteral::FullContent(_)));
    assert_eq!(l.as_str(), "hello");
    let raw = StringLiteral::parse_from_parts(&vec![LiteralPart::RawContent("a\\b".into())], &mut errors);
    assert_eq!(raw.as_str(), "a\\b");
    let esc = StringLiteral::parse_from_parts(&vec![LiteralPart::Escape("\\\"".into())], &mut errors);
    assert_eq!(esc.as_str(), "\"");
    assert!(errors.is_empty());
}

#[test]
fn assembled_literals() {
    let mut errors = Vec::new();
    let parts = vec![
        LiteralPart::Content("say ".into()),
        LiteralPart::Escape("\\\"".into()),
        LiteralPart::Content("hi".into()),
        LiteralPart::Escape("\\\"".into()),
    ];
    let l = StringLiteral::parse_from_parts(&parts, &mut errors);
    assert!(matches!(l, StringLiteral::Escaped(_)));
    assert_eq!(l.as_str(), "say \"hi\"");
    assert!(!l.is_empty());
    assert!(errors.is_empty());
}

#[test]
fn rejected_pieces() {
    let mut errors = Vec::new();
    let parts = vec![
        LiteralPart::Other,
        LiteralPart::RawContent("x".into()),
        LiteralPart::Content("y".into()),
    ];
    let l = StringLiteral::parse_from_parts(&parts, &mut errors);
    assert_eq!(l.as_str(), "y");
    assert_eq!(errors, vec![LiteralError::ExpectedContent, LiteralError::ExpectedContent]);
    let empty = StringLiteral::parse_from_parts(&vec![LiteralPart::Content(String::new())], &mut errors);
    assert!(empty.is_empty());
}
