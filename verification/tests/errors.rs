use grezi::errors::{ErrsWithSource, ParseError, Severity};
use grezi::source::CharRange;
use grezi::syntax::NodeKind;

fn at(line: usize) -> CharRange {
    CharRange { start_line: line, start_character: 0, end_line: line, end_character: 3, byte_range: 0..3 }
}

#[test]
fn long_names_are_only_warnings() {
    let mut errs: ErrsWithSource<&str> = ErrsWithSource::new();
    assert!(!errs.has_errors());
    errs.append_error(ParseError::LongName(at(0)), "first");
    assert_eq!(ParseError::LongName(at(0)).severity(), Some(Severity::Warning));
    assert!(!errs.has_errors());
    errs.append_error(ParseError::Syntax(at(1), "Expected a name"), "second");
    assert!(errs.has_errors());
    assert_eq!(errs.errors.len(), 2);
}

#[test]
fn the_first_source_is_kept() {
    let mut errs: ErrsWithSource<String> = ErrsWithSource::new();
    errs.append_error(ParseError::IoError, "one".to_string());
    errs.append_error(ParseError::Missing(at(2), "Missing a value"), "two".to_string());
    assert_eq!(errs.source.as_deref(), Some("one"));
    assert!(errs.has_errors());
}

#[test]
fn where_problems_lie() {
    assert!(ParseError::IoError.char_range().is_none());
    assert_eq!(ParseError::IoError.severity(), None);
    let bad = ParseError::BadNode(at(4), NodeKind::Obj, "Expected a slide");
    assert_eq!(bad.char_range().unwrap().start_line, 4);
    assert_eq!(bad.severity(), None);
    let color = ParseError::ColorSyntax { range: at(5), expected_none: true };
    assert_eq!(color.char_range().unwrap().start_line, 5);
    assert_eq!(ParseError::Viewbox(at(6), "Too many".into()).char_range().unwrap().start_line, 6);
}
