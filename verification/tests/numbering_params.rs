use grezi::numbering::{ListType, ListNumberer, ListNumbering, ListStyle};
use grezi::params::{parse_highlight_locations, parse_index, ValueError};

fn ordered(numbering: ListNumbering, style: ListStyle, start: u64) -> ListNumberer {
    ListNumberer::new(ListType::Ordered { numbering, style, start })
}

#[test]
fn bullets_do_not_count() {
    let mut n = ListNumberer::new(ListType::Unordered);
    assert_eq!(n.next(), "•");
    assert_eq!(n.next(), "•");
    assert_eq!(n.at, 0);
    let mut t = ListNumberer::new(ListType::Task);
    assert_eq!(t.next(), "•");
    assert_eq!(t.at, 0);
}

#[test]
fn decimal_items_count_from_start() {
    let mut n = ordered(ListNumbering::Decimal, ListStyle::Period, 1);
    assert_eq!(n.next(), "1.");
    assert_eq!(n.next(), "2.");
    assert_eq!(n.next(), "3.");
    assert_eq!(n.at, 3);
    let mut m = ordered(ListNumbering::Decimal, ListStyle::Paren, 9);
    assert_eq!(m.next(), "9)");
    assert_eq!(m.next(), "10)");
    let mut z = ordered(ListNumbering::Decimal, ListStyle::ParenParen, 0);
    assert_eq!(z.next(), "(0)");
}

#[test]
fn letters_count_from_zero() {
    let mut n = ordered(ListNumbering::AlphaLower, ListStyle::Period, 0);
    assert_eq!(n.next(), "a.");
    assert_eq!(n.next(), "b.");
    let mut m = ordered(ListNumbering::AlphaUpper, ListStyle::Paren, 25);
    assert_eq!(m.next(), "Z)");
    assert_eq!(m.next(), "AA)");
    assert_eq!(m.next(), "AB)");
    let mut k = ordered(ListNumbering::AlphaLower, ListStyle::ParenParen, 701);
    assert_eq!(k.next(), "(zz)");
    assert_eq!(k.next(), "(aaa)");
}

#[test]
fn roman_numerals() {
    let mut n = ordered(ListNumbering::RomanUpper, ListStyle::Period, 4);
    assert_eq!(n.next(), "IV.");
    assert_eq!(n.next(), "V.");
    let mut m = ordered(ListNumbering::RomanLower, ListStyle::Paren, 9);
    assert_eq!(m.next(), "ix)");
    assert_eq!(m.next(), "x)");
}

#[test]
fn highlight_locations() {
    let mut errors = Vec::new();
    assert_eq!(parse_highlight_locations("2:1:5", &mut errors), Some([2, 1, 5]));
    assert_eq!(parse_highlight_locations("1:5", &mut errors), Some([0, 1, 5]));
    assert_eq!(parse_highlight_locations("5", &mut errors), Some([0, 0, 5]));
    assert_eq!(parse_highlight_locations("9:2:1:5", &mut errors), Some([2, 1, 5]));
    assert!(errors.is_empty());
    assert_eq!(parse_highlight_locations("", &mut errors), None);
    assert!(errors.is_empty());
}

#[test]
fn highlight_location_errors() {
    let mut errors = Vec::new();
    assert_eq!(parse_highlight_locations("x:1:y", &mut errors), Some([0, 1, 0]));
    assert_eq!(errors, vec![ValueError::NotAnInteger, ValueError::NotAnInteger]);
    errors.clear();
    assert_eq!(parse_highlight_locations("3:", &mut errors), Some([0, 3, 0]));
    assert_eq!(errors, vec![ValueError::NotAnInteger]);
}

#[test]
fn subbox_indices() {
    let mut errors = Vec::new();
    assert_eq!(parse_index(Some("3"), &mut errors), 3);
    assert!(errors.is_empty());
    assert_eq!(parse_index(Some("three"), &mut errors), 0);
    assert_eq!(errors, vec![ValueError::NotAnIndex]);
    errors.clear();
    assert_eq!(parse_index(None, &mut errors), 0);
    assert_eq!(errors, vec![ValueError::MissingIndex]);
}
