use grezi::incremental::slide_node_id;
use grezi::positions::{LspRange, Position, SyntaxPoint, SyntaxRange};
use grezi::symbols::{document_symbols, SymbolKind, TopNode};
use ropey::Rope;

fn span(sr: u32, sc: u32, er: u32, ec: u32) -> SyntaxRange {
    SyntaxRange {
        start_point: SyntaxPoint { row: sr, col: sc },
        end_point: SyntaxPoint { row: er, col: ec },
        start_byte: 0,
        end_byte: 0,
    }
}

fn lsp(sl: u32, sc: u32, el: u32, ec: u32) -> LspRange {
    LspRange { start: Position { line: sl, character: sc }, end: Position { line: el, character: ec } }
}

#[test]
fn symbols_of_a_document() {
    let rope = Rope::from_str("main: Size[0] ^\n]\ntitle: Paragraph(\n)\n{\n}\n[\n]\n{\n}\n");
    let nodes = vec![
        TopNode::Viewbox { range: span(0, 0, 1, 1), name: Some((span(0, 0, 0, 4), "main".into(), "Size[0]".into())) },
        TopNode::Object { range: span(2, 0, 3, 1), name: Some((span(2, 0, 2, 5), "title".into())), detail: Some("Paragraph".into()) },
        TopNode::Slide(span(4, 0, 5, 1)),
        TopNode::Other,
        TopNode::Actions { range: span(6, 0, 7, 1), first: Some(span(6, 0, 6, 1)) },
        TopNode::Slide(span(8, 0, 9, 1)),
    ];
    let mut symbols = Vec::new();
    assert_eq!(document_symbols(&rope, &nodes, &mut symbols), Some(()));
    let names: Vec<&str> = symbols.iter().map(|s| s.name.as_str()).collect();
    assert_eq!(names, vec!["main", "title", "Slide 1", "Actions", "Slide 3"]);
    let kinds: Vec<SymbolKind> = symbols.iter().map(|s| s.kind).collect();
    assert_eq!(
        kinds,
        vec![SymbolKind::Variable, SymbolKind::Object, SymbolKind::Function, SymbolKind::Array, SymbolKind::Function]
    );
    assert_eq!(symbols[0].detail.as_deref(), Some("Size[0]"));
    assert_eq!(symbols[1].detail.as_deref(), Some("Paragraph"));
    assert_eq!(symbols[2].detail, None);
    assert_eq!(symbols[0].range, lsp(0, 0, 1, 1));
    assert_eq!(symbols[0].selection_range, lsp(0, 0, 0, 4));
    assert_eq!(symbols[2].selection_range, lsp(4, 0, 5, 1));
}

#[test]
fn symbols_stop_at_a_node_that_lacks_one() {
    let rope = Rope::from_str("{\n}\n");
    let nodes = vec![
        TopNode::Slide(span(0, 0, 1, 1)),
        TopNode::Object { range: span(0, 0, 1, 1), name: None, detail: None },
        TopNode::Slide(span(0, 0, 1, 1)),
    ];
    let mut symbols = Vec::new();
    assert_eq!(document_symbols(&rope, &nodes, &mut symbols), None);
    assert_eq!(symbols.len(), 1);
    let out_of_rope = vec![TopNode::Slide(span(0, 0, 9, 0))];
    let mut more = Vec::new();
    assert_eq!(document_symbols(&rope, &out_of_rope, &mut more), None);
    assert!(more.is_empty());
}

#[test]
fn slide_node_ids() {
    assert_eq!(slide_node_id(&vec![3, 4, 5], 2), 7);
    assert_eq!(slide_node_id(&vec![3], 2), 3);
    assert_eq!(slide_node_id(&vec![], 2), 0);
    assert_eq!(slide_node_id(&vec![usize::MAX, 2], 2), 1);
}

use grezi::symbols::{checked_rename, goto_declaration, prepare_rename, references, rename, MatchedNode};

fn m(range: SyntaxRange, text: &str) -> MatchedNode {
    MatchedNode { range, text: text.to_string() }
}

#[test]
fn references_and_declarations() {
    let rope = Rope::from_str("box: Size[0] ^\n]\n{ box: box[0] }\n");
    let matches = vec![m(span(0, 0, 0, 3), "box"), m(span(2, 2, 2, 5), "box"), m(span(2, 7, 2, 10), "box"), m(span(2, 0, 2, 1), "{")];
    assert_eq!(
        references(&rope, &matches, "box"),
        Some(vec![lsp(0, 0, 0, 3), lsp(2, 2, 2, 5), lsp(2, 7, 2, 10)])
    );
    assert_eq!(references(&rope, &matches, "nothing"), Some(vec![]));
    let bad = vec![m(span(9, 0, 9, 1), "box")];
    assert_eq!(references(&rope, &bad, "box"), None);

    let declarations = vec![m(span(0, 0, 0, 3), "box"), m(span(2, 2, 2, 5), "box")];
    assert_eq!(goto_declaration(&rope, &declarations, "box"), Some(lsp(0, 0, 0, 3)));
    assert_eq!(goto_declaration(&rope, &declarations, "other"), None);
}

#[test]
fn renaming() {
    let rope = Rope::from_str("box: Size[0] ^\n]\n{ box: box[0] }\n");
    assert_eq!(prepare_rename(&rope, Some((span(0, 0, 0, 3), true))), Some(lsp(0, 0, 0, 3)));
    assert_eq!(prepare_rename(&rope, Some((span(0, 0, 0, 3), false))), None);
    assert_eq!(prepare_rename(&rope, None), None);

    let matches = vec![m(span(0, 0, 0, 3), "box"), m(span(2, 7, 2, 10), "box"), m(span(2, 2, 2, 5), "boxes")];
    let edits = rename(&rope, &matches, "box", "frame");
    let got: Vec<(LspRange, &str)> = edits.iter().map(|e| (e.range, e.new_text.as_str())).collect();
    assert_eq!(got, vec![(lsp(0, 0, 0, 3), "frame"), (lsp(2, 7, 2, 10), "frame")]);
    assert!(checked_rename(&rope, &matches, "box", "frame").is_some());
    let bad = vec![m(span(9, 0, 9, 1), "box")];
    assert!(checked_rename(&rope, &bad, "box", "frame").is_none());
}
