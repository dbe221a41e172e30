use grezi::cursor::FormattingCursor;
use grezi::formatter::{format_code, format_obj_param};
use grezi::formatting::{TextEdit, WhitespaceEdit};
use grezi::positions::{Position, SyntaxPoint, SyntaxRange};
use grezi::syntax::{NodeKind, SyntaxNode, SyntaxTree};
use ropey::Rope;

struct Spec {
    kind: NodeKind,
    start: usize,
    end: usize,
    broken: bool,
    children: Vec<Spec>,
}

fn leaf(kind: NodeKind, start: usize, end: usize) -> Spec {
    Spec { kind, start, end, broken: false, children: vec![] }
}

fn node(kind: NodeKind, start: usize, end: usize, children: Vec<Spec>) -> Spec {
    Spec { kind, start, end, broken: false, children }
}

fn point(src: &str, byte: usize) -> SyntaxPoint {
    let before = &src[..byte];
    let row = before.matches('\n').count() as u32;
    let col = match before.rfind('\n') {
        Some(i) => (byte - i - 1) as u32,
        None => byte as u32,
    };
    SyntaxPoint { row, col }
}

fn push(src: &str, spec: &Spec, parent: Option<usize>, nodes: &mut Vec<SyntaxNode>) -> usize {
    let index = nodes.len();
    nodes.push(SyntaxNode {
        kind: spec.kind,
        range: SyntaxRange {
            start_point: point(src, spec.start),
            end_point: point(src, spec.end),
            start_byte: spec.start as u32,
            end_byte: spec.end as u32,
        },
        id: nodes.len() + 1,
        named: true,
        extra: false,
        error: spec.broken,
        missing: false,
        parent,
        first_child: None,
        next_sibling: None,
    });
    let mut previous: Option<usize> = None;
    for child in &spec.children {
        let c = push(src, child, Some(index), nodes);
        match previous {
            Some(p) => nodes[p].next_sibling = Some(c),
            None => nodes[index].first_child = Some(c),
        }
        previous = Some(c);
    }
    index
}

fn tree(src: &str, root: Spec) -> SyntaxTree {
    let mut nodes = Vec::new();
    push(src, &root, None, &mut nodes);
    SyntaxTree { nodes }
}

fn edit(line: u32, character: u32, text: &str) -> (Position, Position, String) {
    let p = Position { line, character };
    (p, p, text.to_string())
}

fn simple(edits: &[TextEdit]) -> Vec<(Position, Position, String)> {
    edits
        .iter()
        .map(|e| (e.range.start, e.range.end, e.new_text.clone()))
        .collect()
}

fn register_tree(src: &str, spaced: bool) -> SyntaxTree {
    let param = if spaced {
        node(NodeKind::ObjParam, 1, 11, vec![
            leaf(NodeKind::Other, 1, 7),
            leaf(NodeKind::Colon, 7, 8),
            leaf(NodeKind::Whitespace, 8, 9),
            leaf(NodeKind::Other, 9, 11),
        ])
    } else {
        node(NodeKind::ObjParam, 1, 10, vec![leaf(NodeKind::Other, 1, 7), leaf(NodeKind::Colon, 7, 8), leaf(NodeKind::Other, 8, 10)])
    };
    let end = if spaced { 12 } else { 11 };
    tree(
        src,
        node(NodeKind::SourceFile, 0, end + 1, vec![
            node(NodeKind::Register, 0, end, vec![leaf(NodeKind::Other, 0, 1), param, leaf(NodeKind::Other, end - 1, end)]),
            leaf(NodeKind::Whitespace, end, end + 1),
        ]),
    )
}

#[test]
fn register_gets_a_space_after_its_colon() {
    let src = "<MARGIN:50>\n";
    let t = register_tree(src, false);
    assert!(t.is_well_formed());
    let edits = format_code(&Rope::from_str(src), &t).unwrap();
    assert_eq!(simple(&edits), vec![edit(0, 8, " ")]);
}

#[test]
fn formatted_register_is_left_alone() {
    let src = "<MARGIN: 50>\n";
    let t = register_tree(src, true);
    assert!(t.is_well_formed());
    let edits = format_code(&Rope::from_str(src), &t).unwrap();
    assert!(edits.is_empty());
}

fn object_tree(src: &str) -> SyntaxTree {
    tree(
        src,
        node(NodeKind::SourceFile, 0, 12, vec![
            node(NodeKind::Obj, 0, 11, vec![
                leaf(NodeKind::Other, 0, 1),
                leaf(NodeKind::Colon, 1, 2),
                node(NodeKind::ObjInner, 2, 11, vec![
                    leaf(NodeKind::Other, 2, 6),
                    leaf(NodeKind::Other, 6, 7),
                    node(NodeKind::ObjParam, 7, 10, vec![leaf(NodeKind::Other, 7, 8), leaf(NodeKind::Colon, 8, 9), leaf(NodeKind::Other, 9, 10)]),
                    leaf(NodeKind::RParen, 10, 11),
                ]),
            ]),
            leaf(NodeKind::Whitespace, 11, 12),
        ]),
    )
}

#[test]
fn object_parameters_go_one_per_line() {
    let src = "A:Rect(x:1)\n";
    let t = object_tree(src);
    assert!(t.is_well_formed());
    let edits = format_code(&Rope::from_str(src), &t).unwrap();
    assert_eq!(
        simple(&edits),
        vec![
            edit(0, 2, " "),
            edit(0, 7, "\n    "),
            edit(0, 9, " "),
            edit(0, 10, ","),
            edit(0, 10, "\n"),
        ]
    );
}

#[test]
fn missing_final_newline_is_added() {
    let src = "<M:1>";
    let t = tree(
        src,
        node(NodeKind::SourceFile, 0, 5, vec![node(NodeKind::Register, 0, 5, vec![
            leaf(NodeKind::Other, 0, 1),
            node(NodeKind::ObjParam, 1, 4, vec![leaf(NodeKind::Other, 1, 2), leaf(NodeKind::Colon, 2, 3), leaf(NodeKind::Other, 3, 4)]),
            leaf(NodeKind::Other, 4, 5),
        ])]),
    );
    assert!(t.is_well_formed());
    let edits = format_code(&Rope::from_str(src), &t).unwrap();
    assert_eq!(simple(&edits), vec![edit(0, 3, " "), edit(0, 5, "\n")]);
}

#[test]
fn broken_node_fails_formatting() {
    let src = "<MARGIN:50>\n";
    let mut t = register_tree(src, false);
    t.nodes[3].error = true;
    assert!(t.is_well_formed());
    assert!(format_code(&Rope::from_str(src), &t).is_err());
}

#[test]
fn unknown_item_fails_formatting() {
    let src = "x\n";
    let t = tree(src, node(NodeKind::SourceFile, 0, 2, vec![leaf(NodeKind::Other, 0, 1), leaf(NodeKind::Whitespace, 1, 2)]));
    assert!(t.is_well_formed());
    assert!(format_code(&Rope::from_str(src), &t).is_err());
}

#[test]
fn malformed_links_are_detected() {
    let src = "<MARGIN:50>\n";
    let mut t = register_tree(src, false);
    t.nodes[1].first_child = None;
    assert!(!t.is_well_formed());
    let mut t = register_tree(src, false);
    t.nodes[2].next_sibling = Some(1);
    assert!(!t.is_well_formed());
}

#[test]
fn cursor_deletes_whitespace_it_passes() {
    let src = "[ 1]";
    let t = tree(
        src,
        node(NodeKind::SourceFile, 0, 4, vec![node(NodeKind::IndexParser, 0, 4, vec![
            leaf(NodeKind::Other, 0, 1),
            leaf(NodeKind::Whitespace, 1, 2),
            leaf(NodeKind::Other, 2, 3),
            leaf(NodeKind::Other, 3, 4),
        ])]),
    );
    let rope = Rope::from_str(src);
    let mut c = FormattingCursor::new(&t);
    assert_eq!(c.goto_first_child(WhitespaceEdit::Delete, NodeKind::SourceFile, &rope), Ok(true));
    assert_eq!(c.goto_first_child(WhitespaceEdit::Delete, NodeKind::IndexParser, &rope), Ok(true));
    assert_eq!(c.goto_next_sibling(WhitespaceEdit::Delete, &rope), Ok(true));
    assert_eq!(c.node().kind, NodeKind::Other);
    assert_eq!(c.node().range.start_byte, 2);
    assert!(c.edited);
    assert_eq!(
        simple(&c.edits),
        vec![(Position { line: 0, character: 1 }, Position { line: 0, character: 2 }, String::new())]
    );
    assert!(c.goto_parent());
    assert_eq!(c.node().kind, NodeKind::IndexParser);
    // A parameter is not what the cursor is at: formatting one fails.
    assert_eq!(format_obj_param(&rope, &mut c), Err(()));
}
