use grezi::args::{FitParser, RangeParser};
use grezi::strings::{parse_usize, split_str, str_eq};

#[test]
fn page_ranges() {
    assert_eq!(RangeParser.parse("6..8"), Ok(5..8));
    assert_eq!(RangeParser.parse("6"), Ok(5..6));
    assert_eq!(RangeParser.parse("1..1"), Ok(0..1));
    assert_eq!(RangeParser.parse("0"), Ok(0..0));
    assert_eq!(RangeParser.parse("+3..+4"), Ok(2..4));
    assert_eq!(RangeParser.parse("2..5..9"), Ok(1..5));
}

#[test]
fn page_range_errors() {
    assert_eq!(RangeParser.parse(""), Err(()));
    assert_eq!(RangeParser.parse("a..3"), Err(()));
    assert_eq!(RangeParser.parse("3.."), Err(()));
    assert_eq!(RangeParser.parse("..3"), Err(()));
    assert_eq!(RangeParser.parse("-1"), Err(()));
    assert_eq!(RangeParser.parse("99999999999999999999999"), Err(()));
}

#[test]
fn size_requests() {
    let r = FitParser.split_request("1920x1080!");
    assert!(r.keep_size);
    assert_eq!(r.name, "1920x1080");
    assert_eq!(r.width, "1920");
    assert_eq!(r.height.as_deref(), Some("1080"));

    let r = FitParser.split_request("512");
    assert!(!r.keep_size);
    assert_eq!(r.name, "512");
    assert_eq!(r.width, "512");
    assert_eq!(r.height, None);

    let r = FitParser.split_request("a4!");
    assert!(r.keep_size);
    assert_eq!(r.name, "a4");
    assert_eq!(r.height, None);

    let r = FitParser.split_request("");
    assert!(!r.keep_size);
    assert_eq!(r.width, "");
}

#[test]
fn unsigned_numbers() {
    assert_eq!(parse_usize("0"), Some(0));
    assert_eq!(parse_usize("42"), Some(42));
    assert_eq!(parse_usize("+7"), Some(7));
    assert_eq!(parse_usize("007"), Some(7));
    assert_eq!(parse_usize(""), None);
    assert_eq!(parse_usize("+"), None);
    assert_eq!(parse_usize("4 2"), None);
    assert_eq!(parse_usize("-3"), None);
    assert_eq!(parse_usize(&usize::MAX.to_string()), Some(usize::MAX));
    assert_eq!(parse_usize("184467440737095516160"), None);
}

#[test]
fn splitting_and_comparing() {
    assert_eq!(split_str("a:b::c", ':'), vec!["a", "b", "", "c"]);
    assert_eq!(split_str("", ':'), vec![""]);
    assert_eq!(split_str(":", ':'), vec!["", ""]);
    assert!(str_eq("grezi", "grezi"));
    assert!(!str_eq("grezi", "grez"));
    assert!(!str_eq("a", "b"));
}
