use grezi::parse_cursor::{CursorError, GrzCursor};
use grezi::positions::{SyntaxPoint, SyntaxRange};
use grezi::source::StringLiteral;
use grezi::syntax::{NodeKind, SyntaxNode, SyntaxTree};
use ropey::Rope;

#[derive(Clone, Copy)]
struct Flags {
    named: bool,
    extra: bool,
    error: bool,
    missing: bool,
}

const NAMED: Flags = Flags { named: true, extra: false, error: false, missing: false };
const ANON: Flags = Flags { named: false, extra: false, error: false, missing: false };
const EXTRA: Flags = Flags { named: true, extra: true, error: false, missing: false };

struct Spec {
    kind: NodeKind,
    start: u32,
    end: u32,
    flags: Flags,
    children: Vec<Spec>,
}

fn n(kind: NodeKind, start: u32, end: u32, flags: Flags, children: Vec<Spec>) -> Spec {
    Spec { kind, start, end, flags, children }
}

fn push(spec: &Spec, parent: Option<usize>, nodes: &mut Vec<SyntaxNode>) -> usize {
    let index = nodes.len();
    nodes.push(SyntaxNode {
        kind: spec.kind,
        range: SyntaxRange {
            start_point: SyntaxPoint { row: 0, col: spec.start },
            end_point: SyntaxPoint { row: 0, col: spec.end },
            start_byte: spec.start,
            end_byte: spec.end,
        },
        id: 100 + index,
        named: spec.flags.named,
        extra: spec.flags.extra,
        error: spec.flags.error,
        missing: spec.flags.missing,
        parent,
        first_child: None,
        next_sibling: None,
    });
    let mut previous: Option<usize> = None;
    for child in &spec.children {
        let c = push(child, Some(index), nodes);
        match previous {
            Some(p) => nodes[p].next_sibling = Some(c),
            None => nodes[index].first_child = Some(c),
        }
        previous = Some(c);
    }
    index
}

// "(a /*c*/ b)": 0 obj, 1 "(", 2 a, 3 comment, 4 b, 5 ")"
fn sample(a_flags: Flags) -> SyntaxTree {
    let mut nodes = Vec::new();
    push(
        &n(NodeKind::Obj, 0, 11, NAMED, vec![
            n(NodeKind::Other, 0, 1, ANON, vec![]),
            n(NodeKind::Identifier, 1, 2, a_flags, vec![]),
            n(NodeKind::Comment, 3, 8, EXTRA, vec![]),
            n(NodeKind::Identifier, 9, 10, NAMED, vec![]),
            n(NodeKind::Other, 10, 11, ANON, vec![]),
        ]),
        None,
        &mut nodes,
    );
    SyntaxTree { nodes }
}

fn rope() -> Rope {
    Rope::from_str("(a /*c*/ b)")
}

#[test]
fn first_child_skips_anonymous_and_extra_nodes() {
    let t = sample(NAMED);
    assert!(t.is_well_formed());
    let r = rope();
    let mut errors = Vec::new();
    let mut c = GrzCursor::new(&t);
    let mut child = c.goto_first_child(NodeKind::Obj, &r, &mut errors).unwrap().unwrap();
    assert_eq!(child.at, 2);
    assert_eq!(child.root, 0);
    assert_eq!(child.goto_next_sibling(&r, &mut errors), Ok(true));
    assert_eq!(child.at, 4);
    assert_eq!(child.goto_next_sibling(&r, &mut errors), Ok(false));
    assert_eq!(child.at, 5);
    assert!(errors.is_empty());
    assert_eq!(c.at, 0);
}

#[test]
fn raw_walks_stop_at_anonymous_nodes() {
    let t = sample(NAMED);
    let r = rope();
    let mut errors = Vec::new();
    let mut c = GrzCursor::new(&t);
    let mut child = c.goto_first_child_raw(NodeKind::Obj, &r, &mut errors).unwrap().unwrap();
    assert_eq!(child.at, 1);
    assert_eq!(child.goto_next_sibling_raw(&r, &mut errors), Ok(true));
    assert_eq!(child.at, 2);
    assert_eq!(child.goto_next_sibling_raw(&r, &mut errors), Ok(true));
    assert_eq!(child.at, 4);
    assert_eq!(child.rope_slice(&r), Some("b".to_string()));
}

#[test]
fn wrong_kind_is_reported_as_bad_node() {
    let t = sample(NAMED);
    let r = rope();
    let mut errors = Vec::new();
    let mut c = GrzCursor::new(&t);
    assert!(c.goto_first_child(NodeKind::Slide, &r, &mut errors).is_err());
    assert_eq!(errors.len(), 1);
    match &errors[0] {
        CursorError::BadNode(range, kind) => {
            assert_eq!(*kind, NodeKind::Obj);
            assert_eq!((range.start_character, range.end_character), (0, 11));
        },
        other => panic!("unexpected {:?}", other),
    }
}

#[test]
fn broken_nodes_are_reported() {
    let t = sample(Flags { error: true, ..NAMED });
    let r = rope();
    let mut errors = Vec::new();
    let mut c = GrzCursor::new(&t);
    assert!(c.goto_first_child(NodeKind::Obj, &r, &mut errors).is_err());
    match &errors[0] {
        CursorError::Syntax(range) => assert_eq!(range.byte_range, 1..2),
        other => panic!("unexpected {:?}", other),
    }
    let t = sample(Flags { missing: true, ..NAMED });
    let mut errors = Vec::new();
    let mut c = GrzCursor::new(&t);
    assert!(c.goto_first_child(NodeKind::Obj, &r, &mut errors).is_err());
    assert!(matches!(errors[0], CursorError::Missing(_)));
}

#[test]
fn cursor_never_leaves_its_root() {
    let t = sample(NAMED);
    let r = rope();
    let mut errors = Vec::new();
    let mut c = GrzCursor::from_node(2, &t);
    assert_eq!(c.goto_next_sibling(&r, &mut errors), Ok(false));
    assert_eq!(c.at, 2);
}

#[test]
fn child_existence() {
    let t = sample(NAMED);
    assert!(GrzCursor::new(&t).first_child_exists());
    assert!(GrzCursor::new(&t).first_child_raw_exists());
    assert!(!GrzCursor::from_node(1, &t).first_child_raw_exists());
    let mut nodes = Vec::new();
    push(&n(NodeKind::Obj, 0, 2, NAMED, vec![n(NodeKind::Other, 0, 1, ANON, vec![])]), None, &mut nodes);
    let t = SyntaxTree { nodes };
    assert!(!GrzCursor::new(&t).first_child_exists());
    assert!(GrzCursor::new(&t).first_child_raw_exists());
}

#[test]
fn id_sums_the_first_children() {
    let t = sample(NAMED);
    let r = rope();
    let mut errors = Vec::new();
    let mut c = GrzCursor::new(&t);
    assert_eq!(c.id(2, NodeKind::Obj, &r, &mut errors), Ok(101 + 102));
    assert_eq!(c.id(10, NodeKind::Obj, &r, &mut errors), Ok(101 + 102 + 104));
    assert_eq!(c.id(0, NodeKind::Obj, &r, &mut errors), Ok(0));
    assert!(errors.is_empty());
    let mut leaf = GrzCursor::from_node(2, &t);
    assert_eq!(leaf.id(3, NodeKind::Identifier, &r, &mut errors), Ok(0));
}

#[test]
fn raw_walk_past_extra_children_moves_to_parent() {
    let mut nodes = Vec::new();
    push(
        &n(NodeKind::Obj, 0, 5, NAMED, vec![n(NodeKind::ObjInner, 0, 5, NAMED, vec![
            n(NodeKind::Comment, 0, 5, EXTRA, vec![]),
        ])]),
        None,
        &mut nodes,
    );
    let t = SyntaxTree { nodes };
    let r = Rope::from_str("/*x*/");
    let mut errors = Vec::new();
    let mut c = GrzCursor::new(&t);
    let mut inner = c.goto_first_child(NodeKind::Obj, &r, &mut errors).unwrap().unwrap();
    assert_eq!(inner.at, 1);
    assert_eq!(inner.root, 0);
    assert!(inner.goto_first_child_raw(NodeKind::ObjInner, &r, &mut errors).unwrap().is_none());
    assert_eq!(inner.at, 0);
    let mut own = GrzCursor::from_node(1, &t);
    assert!(own.goto_first_child_raw(NodeKind::ObjInner, &r, &mut errors).unwrap().is_none());
    assert_eq!(own.at, 1);
    assert!(errors.is_empty());
}

fn literal_tree(pieces: Vec<(NodeKind, u32, u32)>, end: u32) -> SyntaxTree {
    let mut children = vec![n(NodeKind::Other, 0, 1, ANON, vec![])];
    for (kind, s, e) in pieces {
        children.push(n(kind, s, e, NAMED, vec![]));
    }
    children.push(n(NodeKind::Other, end - 1, end, ANON, vec![]));
    let mut nodes = Vec::new();
    push(&n(NodeKind::StringLiteral, 0, end, NAMED, children), None, &mut nodes);
    SyntaxTree { nodes }
}

fn literal(l: &StringLiteral) -> (bool, String) {
    match l {
        StringLiteral::FullContent(s) => (true, s.clone()),
        StringLiteral::Escaped(s) => (false, s.clone()),
    }
}

#[test]
fn string_literal_joins_its_pieces() {
    let src = "\"a\\\"b\"";
    let t = literal_tree(
        vec![(NodeKind::StringContent, 1, 2), (NodeKind::EscapeSequence, 2, 4), (NodeKind::StringContent, 4, 5)],
        6,
    );
    assert!(t.is_well_formed());
    let r = Rope::from_str(src);
    let mut errors = Vec::new();
    let mut c = GrzCursor::new(&t);
    let l = c.node_to_string_literal(&r, &mut errors).unwrap();
    assert_eq!(literal(&l), (false, "a\"b".to_string()));
    assert!(errors.is_empty());
}

#[test]
fn single_piece_literal_is_taken_as_it_stands() {
    let t = literal_tree(vec![(NodeKind::StringContent, 1, 4)], 5);
    let r = Rope::from_str("\"abc\"");
    let mut errors = Vec::new();
    let l = GrzCursor::new(&t).node_to_string_literal(&r, &mut errors).unwrap();
    assert_eq!(literal(&l), (true, "abc".to_string()));
    let t = literal_tree(vec![], 2);
    let l = GrzCursor::new(&t).node_to_string_literal(&Rope::from_str("\"\""), &mut errors).unwrap();
    assert_eq!(literal(&l), (false, String::new()));
    assert!(errors.is_empty());
}

#[test]
fn other_pieces_are_reported() {
    let t = literal_tree(vec![(NodeKind::StringContent, 1, 2), (NodeKind::Identifier, 2, 3), (NodeKind::RawStringContent, 3, 4)], 5);
    let r = Rope::from_str("\"abc\"");
    let mut errors = Vec::new();
    let l = GrzCursor::new(&t).node_to_string_literal(&r, &mut errors).unwrap();
    assert_eq!(literal(&l), (false, "a".to_string()));
    assert_eq!(errors.len(), 2);
    assert!(matches!(errors[0], CursorError::BadNode(_, NodeKind::Identifier)));
    assert!(matches!(errors[1], CursorError::BadNode(_, NodeKind::RawStringContent)));
}

#[test]
fn numbers_and_names_read_as_their_text() {
    let mut nodes = Vec::new();
    push(&n(NodeKind::NumberLiteral, 0, 2, NAMED, vec![]), None, &mut nodes);
    let t = SyntaxTree { nodes };
    let mut errors = Vec::new();
    let l = GrzCursor::new(&t).node_to_string_literal(&Rope::from_str("42"), &mut errors).unwrap();
    assert_eq!(literal(&l), (true, "42".to_string()));
    let mut nodes = Vec::new();
    push(&n(NodeKind::Comment, 0, 2, NAMED, vec![]), None, &mut nodes);
    let t = SyntaxTree { nodes };
    let l = GrzCursor::new(&t).node_to_string_literal(&Rope::from_str("42"), &mut errors).unwrap();
    assert_eq!(literal(&l), (false, String::new()));
    assert!(matches!(errors[0], CursorError::BadNode(_, NodeKind::Comment)));
}
