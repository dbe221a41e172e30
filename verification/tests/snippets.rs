use grezi::positions::{LspRange, Position};
use grezi::snippets::{expand_change, snippet_expansions};

fn at(line: u32, character: u32) -> LspRange {
    LspRange {
        start: Position { line, character },
        end: Position { line, character },
    }
}

#[test]
fn slide_snippet_expands_in_place() {
    let e = expand_change("{}", at(2, 4), "{}", "{\n    ..,\n}[]").unwrap();
    assert_eq!(e.range.start, Position { line: 2, character: 4 });
    assert_eq!(e.range.end, Position { line: 2, character: 6 });
    assert_eq!(e.new_text, "{\n    ..,\n}[]");
}

#[test]
fn leading_white_space_shifts_the_edit() {
    let e = expand_change("  {}  ", at(1, 3), "{}", "X").unwrap();
    assert_eq!(e.range.start, Position { line: 1, character: 5 });
    assert_eq!(e.range.end, Position { line: 1, character: 7 });
    assert_eq!(e.new_text, "X");
}

#[test]
fn shift_counts_bytes_of_unicode_white_space() {
    let e = expand_change("\u{A0}^", at(0, 0), "^", "ViewBox: Size[0] ^\n]").unwrap();
    assert_eq!(e.range.start, Position { line: 0, character: 2 });
    assert_eq!(e.range.end, Position { line: 0, character: 3 });
}

#[test]
fn other_text_is_not_expanded() {
    assert!(expand_change("{", at(0, 0), "{}", "X").is_none());
    assert!(expand_change("a{}", at(0, 0), "{}", "X").is_none());
    assert!(expand_change("", at(0, 0), "{}", "X").is_none());
}

#[test]
fn object_snippet_among_all() {
    let edits = snippet_expansions("()", at(3, 1));
    assert_eq!(edits.len(), 1);
    assert_eq!(edits[0].new_text, "Object: Paragraph(\n)");
    assert_eq!(edits[0].range.start, Position { line: 3, character: 1 });
    assert_eq!(edits[0].range.end, Position { line: 3, character: 3 });
}

#[test]
fn viewbox_snippets_among_all() {
    let edits = snippet_expansions(" > ", at(0, 10));
    assert_eq!(edits.len(), 1);
    assert_eq!(edits[0].new_text, "ViewBox: Size[0] >\n]");
    assert_eq!(edits[0].range.start, Position { line: 0, character: 11 });
    let edits = snippet_expansions("^", at(0, 0));
    assert_eq!(edits.len(), 1);
    assert_eq!(edits[0].new_text, "ViewBox: Size[0] ^\n]");
}

#[test]
fn plain_typing_expands_nothing() {
    assert!(snippet_expansions("hello", at(0, 0)).is_empty());
    assert!(snippet_expansions("{ }", at(0, 0)).is_empty());
}
