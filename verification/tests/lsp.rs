use grezi::folding::{checked_folding_ranges, folding_ranges, FoldingRangeKind};
use grezi::formatting::{arrive, finish, revisit, TextEdit, WhitespaceEdit};
use grezi::positions::{
    byte_pos_from_char_pos, byte_range_from_char_range, char_pos_from_byte_pos,
    char_range_from_byte_range, LspRange, Point, Position, PositionError, SourceRange,
    SyntaxPoint, SyntaxRange,
};
use grezi::source::CharRange;
use grezi::tokens::{checked_semantic_tokens, semantic_tokens, Capture, SemanticToken};
use ropey::Rope;

fn span(sr: u32, sc: u32, er: u32, ec: u32) -> SyntaxRange {
    SyntaxRange {
        start_point: SyntaxPoint { row: sr, col: sc },
        end_point: SyntaxPoint { row: er, col: ec },
        start_byte: 0,
        end_byte: 0,
    }
}

fn pos(line: u32, character: u32) -> Position {
    Position { line, character }
}

fn lsp(sl: u32, sc: u32, el: u32, ec: u32) -> LspRange {
    LspRange { start: pos(sl, sc), end: pos(el, ec) }
}

#[test]
fn byte_and_char_positions() {
    let rope = Rope::from_str("ab\nçd\n");
    assert_eq!(char_pos_from_byte_pos(Point { row: 1, column: 0 }, &rope), Ok((1, 0)));
    assert_eq!(char_pos_from_byte_pos(Point { row: 1, column: 2 }, &rope), Ok((1, 1)));
    assert_eq!(char_pos_from_byte_pos(Point { row: 1, column: 1 }, &rope), Ok((1, 0)));
    assert_eq!(char_pos_from_byte_pos(Point { row: 1, column: 40 }, &rope), Err(PositionError::ColumnOutOfRange));
    assert_eq!(char_pos_from_byte_pos(Point { row: 7, column: 0 }, &rope), Err(PositionError::MissingLine(7)));
    assert_eq!(byte_pos_from_char_pos((1, 1), &rope), Ok(Point { row: 1, column: 2 }));
    assert_eq!(byte_pos_from_char_pos((0, 2), &rope), Ok(Point { row: 0, column: 2 }));
    assert_eq!(byte_pos_from_char_pos((1, 9), &rope), Err(PositionError::ColumnOutOfRange));
    assert_eq!(byte_pos_from_char_pos((3, 0), &rope), Err(PositionError::MissingLine(3)));
}

#[test]
fn char_ranges_of_spans() {
    let rope = Rope::from_str("ab\nçd\n");
    let r = CharRange::new(
        SourceRange {
            start_byte: 3,
            end_byte: 6,
            start_point: Point { row: 1, column: 0 },
            end_point: Point { row: 1, column: 3 },
        },
        &rope,
    )
    .unwrap();
    assert_eq!((r.start_line, r.start_character, r.end_line, r.end_character), (1, 0, 1, 2));
    assert_eq!(r.byte_range, 3..6);
    let missing = CharRange::new(
        SourceRange {
            start_byte: 0,
            end_byte: 1,
            start_point: Point { row: 0, column: 0 },
            end_point: Point { row: 9, column: 0 },
        },
        &rope,
    );
    assert_eq!(missing.err(), Some(PositionError::MissingLine(9)));
}

#[test]
fn protocol_ranges() {
    let rope = Rope::from_str("ab cd\nçf\n");
    assert_eq!(char_range_from_byte_range(span(1, 0, 1, 3), &rope), Ok(lsp(1, 0, 1, 2)));
    assert_eq!(char_range_from_byte_range(span(1, 0, 4, 0), &rope), Err(()));
    let back = byte_range_from_char_range(lsp(1, 1, 1, 2), &rope).unwrap();
    assert_eq!(back.start_point, SyntaxPoint { row: 1, col: 2 });
    assert_eq!(back.end_point, SyntaxPoint { row: 1, col: 3 });
    assert_eq!((back.start_byte, back.end_byte), (8, 9));
    assert_eq!(byte_range_from_char_range(lsp(0, 0, 5, 0), &rope), Err(()));
}

fn cap(range: SyntaxRange, token_type: u32, has_modifier: bool) -> Capture {
    Capture { range, token_type, has_modifier }
}

fn tok(delta_line: u32, delta_start: u32, length: u32, token_type: u32, bits: u32) -> SemanticToken {
    SemanticToken { delta_line, delta_start, length, token_type, token_modifiers_bitset: bits }
}

#[test]
fn tokens_are_relative_to_the_previous_one() {
    let rope = Rope::from_str("ab cd\nef\n");
    let captures = vec![
        cap(span(0, 0, 0, 2), 1, false),
        cap(span(0, 3, 0, 5), 2, true),
        cap(span(0, 3, 0, 5), 2, true),
        cap(span(0, 3, 1, 2), 3, false),
        cap(span(2, 0, 2, 0), 4, false),
    ];
    let tokens = semantic_tokens(&rope, &captures).unwrap();
    assert_eq!(
        tokens,
        vec![
            tok(0, 0, 2, 1, 0),
            tok(0, 3, 2, 2, 1),
            tok(0, 0, 3, 3, 0),
            tok(1, 0, 2, 3, 0),
            tok(1, 0, 0, 4, 0),
        ]
    );
    assert_eq!(checked_semantic_tokens(&rope, &captures), Some(Some(tokens)));
}

#[test]
fn tokens_need_the_bytes_they_name() {
    let rope = Rope::from_str("ab cd\nef\n");
    let captures = vec![cap(span(0, 50, 1, 0), 1, false)];
    assert_eq!(semantic_tokens(&rope, &captures), None);
    let past_end = vec![cap(span(1, 0, 9, 0), 1, false)];
    assert_eq!(checked_semantic_tokens(&rope, &past_end), None);
    assert_eq!(semantic_tokens(&rope, &vec![]), Some(vec![]));
}

#[test]
fn folds_end_a_line_early() {
    let rope = Rope::from_str("a {\n  b\n}\n");
    let folds = folding_ranges(&rope, &vec![span(0, 2, 2, 1)]).unwrap();
    assert_eq!(folds.len(), 1);
    assert_eq!(folds[0].start_line, 0);
    assert_eq!(folds[0].start_character, Some(2));
    assert_eq!(folds[0].end_line, 1);
    assert_eq!(folds[0].end_character, None);
    assert_eq!(folds[0].kind, Some(FoldingRangeKind::Region));
    assert_eq!(folding_ranges(&rope, &vec![span(0, 0, 1, 40)]), None);
    assert_eq!(checked_folding_ranges(&rope, &vec![span(0, 0, 0, 1)]), None);
    assert_eq!(checked_folding_ranges(&rope, &vec![span(0, 2, 2, 1)]), Some(Some(folds)));
}

fn edit(e: &TextEdit) -> (LspRange, &str) {
    (e.range, e.new_text.as_str())
}

#[test]
fn arriving_at_whitespace() {
    let rope = Rope::from_str("a b\nc\n");
    let ws = span(0, 1, 0, 2);
    let a = arrive(&rope, WhitespaceEdit::Delete, ws, true, " ", "b").unwrap();
    assert_eq!(a.edit.as_ref().map(edit), Some((lsp(0, 1, 0, 2), "")));
    assert!(!a.collapse);
    let a = arrive(&rope, WhitespaceEdit::Assert(" "), ws, true, " ", "b").unwrap();
    assert!(a.edit.is_none());
    let a = arrive(&rope, WhitespaceEdit::Assert("\n\n"), ws, true, " ", "b").unwrap();
    assert_eq!(a.edit.as_ref().map(edit), Some((lsp(0, 1, 0, 2), "\n\n")));
    let a = arrive(&rope, WhitespaceEdit::Trailing(";"), ws, true, " ", "b").unwrap();
    assert_eq!(a.edit.as_ref().map(edit), Some((lsp(0, 1, 0, 2), ";")));
    let a = arrive(&rope, WhitespaceEdit::Trailing("b"), ws, true, " ", "b").unwrap();
    assert_eq!(a.edit.as_ref().map(edit), Some((lsp(0, 1, 0, 2), "")));
}

#[test]
fn arriving_at_other_nodes() {
    let rope = Rope::from_str("a b\nc\n");
    let node = span(0, 2, 0, 3);
    let a = arrive(&rope, WhitespaceEdit::Delete, node, false, "b", "").unwrap();
    assert!(a.edit.is_none());
    assert!(a.collapse);
    let a = arrive(&rope, WhitespaceEdit::Assert(" "), node, false, "b", "").unwrap();
    assert_eq!(a.edit.as_ref().map(edit), Some((lsp(0, 2, 0, 2), " ")));
    let a = arrive(&rope, WhitespaceEdit::Trailing("b"), node, false, "b", "").unwrap();
    assert!(a.edit.is_none());
    let a = arrive(&rope, WhitespaceEdit::Trailing(","), node, false, "b", "").unwrap();
    assert_eq!(a.edit.as_ref().map(edit), Some((lsp(0, 2, 0, 2), ",")));
    assert!(arrive(&rope, WhitespaceEdit::Delete, span(0, 0, 8, 0), true, "", "").is_err());
}

fn text_edit(r: LspRange, t: &str) -> TextEdit {
    TextEdit { range: r, new_text: t.to_string() }
}

#[test]
fn revisiting_whitespace() {
    let rope = Rope::from_str("a  b\n");
    let last = span(0, 1, 0, 3);

    let mut edits = vec![text_edit(lsp(0, 0, 0, 0), "x")];
    revisit(&rope, WhitespaceEdit::Assert("  "), last, "  ", true, &mut edits).unwrap();
    assert!(edits.is_empty());

    let mut edits = vec![text_edit(lsp(0, 1, 0, 3), "")];
    revisit(&rope, WhitespaceEdit::Assert(" "), last, "  ", true, &mut edits).unwrap();
    assert_eq!(edits.iter().map(edit).collect::<Vec<_>>(), vec![(lsp(0, 1, 0, 3), " ")]);

    let mut edits = vec![];
    revisit(&rope, WhitespaceEdit::Assert(" "), last, "  ", false, &mut edits).unwrap();
    assert_eq!(edits.iter().map(edit).collect::<Vec<_>>(), vec![(lsp(0, 1, 0, 3), " ")]);

    let mut edits = vec![];
    assert!(revisit(&rope, WhitespaceEdit::Assert(" "), span(0, 0, 6, 0), "  ", false, &mut edits).is_err());
    assert!(edits.is_empty());

    let mut edits = vec![text_edit(lsp(0, 1, 0, 3), "\n")];
    revisit(&rope, WhitespaceEdit::Delete, last, "  ", true, &mut edits).unwrap();
    assert_eq!(edits.iter().map(edit).collect::<Vec<_>>(), vec![(lsp(0, 1, 0, 3), "")]);

    let mut edits = vec![text_edit(lsp(0, 1, 0, 1), "\n")];
    revisit(&rope, WhitespaceEdit::Delete, last, "", true, &mut edits).unwrap();
    assert!(edits.is_empty());

    let mut edits = vec![text_edit(lsp(0, 1, 0, 1), "\n")];
    revisit(&rope, WhitespaceEdit::Delete, last, "", false, &mut edits).unwrap();
    assert_eq!(edits.len(), 1);
}

#[test]
fn finishing_a_pass() {
    let rope = Rope::from_str("a\nb");
    let mut edits = vec![text_edit(lsp(0, 0, 0, 1), "z")];
    finish(&rope, true, false, "\n", span(0, 1, 1, 0), &mut edits).unwrap();
    assert!(edits.is_empty());

    let mut edits = vec![];
    finish(&rope, false, false, "b", span(1, 0, 1, 1), &mut edits).unwrap();
    assert_eq!(edits.iter().map(edit).collect::<Vec<_>>(), vec![(lsp(1, 1, 1, 1), "\n")]);

    let mut edits = vec![];
    finish(&rope, false, true, "\n\n", span(0, 1, 1, 1), &mut edits).unwrap();
    assert_eq!(edits.iter().map(edit).collect::<Vec<_>>(), vec![(lsp(0, 1, 1, 1), "\n")]);

    let mut edits = vec![];
    assert!(finish(&rope, false, false, "b", span(5, 0, 5, 1), &mut edits).is_err());
    assert!(edits.is_empty());
}

fn decode(tokens: &[SemanticToken]) -> Vec<(u32, u32)> {
    let mut at = (0u32, 0u32);
    let mut out = Vec::new();
    for t in tokens {
        at = if t.delta_line == 0 { (at.0, at.1 + t.delta_start) } else { (at.0 + t.delta_line, t.delta_start) };
        out.push(at);
    }
    out
}

#[test]
fn decoding_tokens_gives_line_positions() {
    let rope = Rope::from_str("ab cd\nef gh\nij\n");
    let captures = vec![
        cap(span(0, 0, 0, 2), 1, false),
        cap(span(1, 0, 2, 1), 2, false),
        cap(span(2, 1, 2, 2), 3, false),
        cap(span(3, 0, 3, 0), 4, false),
    ];
    let tokens = semantic_tokens(&rope, &captures).unwrap();
    assert_eq!(decode(&tokens), vec![(0, 0), (1, 0), (2, 0), (2, 1), (3, 0)]);
}

#[test]
fn a_span_after_a_multi_line_span_on_its_last_line_is_misplaced() {
    let rope = Rope::from_str("abcdefgh\nabcdefgh\n");
    let captures = vec![cap(span(0, 2, 1, 3), 1, false), cap(span(1, 5, 1, 7), 2, false)];
    let tokens = semantic_tokens(&rope, &captures).unwrap();
    // The second span starts at column 5, but its start is counted from
    // column 2, where the span before it started.
    assert_eq!(decode(&tokens), vec![(0, 2), (1, 0), (1, 3)]);
}

#[test]
fn character_and_byte_columns_convert_back_and_forth() {
    let rope = Rope::from_str("aé€b\nx");
    for ch in 0..=4usize {
        let p = byte_pos_from_char_pos((0, ch), &rope).unwrap();
        assert_eq!(p.row, 0);
        assert_eq!(char_pos_from_byte_pos(p, &rope).unwrap(), (0, ch));
    }
    assert_eq!(byte_pos_from_char_pos((0, 3), &rope).unwrap().column, 6);
    assert_eq!(
        byte_pos_from_char_pos((2, 0), &rope),
        Err(PositionError::MissingLine(2))
    );
    assert_eq!(
        char_pos_from_byte_pos(Point { row: 2, column: 0 }, &rope),
        Err(PositionError::MissingLine(2))
    );
}
