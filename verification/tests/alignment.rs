use grezi::alignment::{
    anchor, anchor_label, marker_from_char, parse_alignment, parse_alignment_from_chars,
    Align2, AlignmentError, AxisAlign, EdgeNode, Marker,
};

fn a(x: AxisAlign, y: AxisAlign) -> Align2 {
    Align2 { x, y }
}

#[test]
fn markers_from_characters() {
    assert_eq!(marker_from_char('^'), Some(Marker::Up));
    assert_eq!(marker_from_char('_'), Some(Marker::Down));
    assert_eq!(marker_from_char('<'), Some(Marker::Left));
    assert_eq!(marker_from_char('>'), Some(Marker::Right));
    assert_eq!(marker_from_char('.'), Some(Marker::Dot));
    assert_eq!(marker_from_char('|'), None);
    assert_eq!(marker_from_char('x'), None);
}

#[test]
fn corner_and_edge_anchors() {
    assert_eq!(anchor(Marker::Up, Marker::Left), a(AxisAlign::Min, AxisAlign::Min));
    assert_eq!(anchor(Marker::Down, Marker::Right), a(AxisAlign::Max, AxisAlign::Max));
    assert_eq!(anchor(Marker::Up, Marker::Up), a(AxisAlign::Center, AxisAlign::Min));
    assert_eq!(anchor(Marker::Left, Marker::Left), a(AxisAlign::Min, AxisAlign::Center));
    assert_eq!(anchor(Marker::Dot, Marker::Dot), a(AxisAlign::Center, AxisAlign::Center));
    assert_eq!(anchor(Marker::Dot, Marker::Down), a(AxisAlign::Center, AxisAlign::Max));
}

#[test]
fn conflicting_markers_centre() {
    assert_eq!(anchor(Marker::Up, Marker::Down), a(AxisAlign::Center, AxisAlign::Center));
    assert_eq!(anchor(Marker::Left, Marker::Right), a(AxisAlign::Center, AxisAlign::Center));
}

#[test]
fn anchor_order_does_not_matter() {
    let all = [Marker::Up, Marker::Down, Marker::Left, Marker::Right, Marker::Dot];
    for m in all {
        for n in all {
            assert_eq!(anchor(m, n), anchor(n, m));
        }
    }
}

fn text(t: &str) -> ((Option<Align2>, bool), Vec<AlignmentError>) {
    let mut errors = Vec::new();
    let r = parse_alignment_from_chars(t, &mut errors);
    (r, errors)
}

fn node(n: EdgeNode) -> ((Option<Align2>, bool), Vec<AlignmentError>) {
    let mut errors = Vec::new();
    let r = parse_alignment(n, &mut errors);
    (r, errors)
}

#[test]
fn alignment_text() {
    assert_eq!(text("^<"), ((Some(a(AxisAlign::Min, AxisAlign::Min)), false), vec![]));
    assert_eq!(text(">_ and more"), ((Some(a(AxisAlign::Max, AxisAlign::Max)), false), vec![]));
    assert_eq!(text("|"), ((None, true), vec![]));
    assert_eq!(text("|^"), ((None, true), vec![]));
    assert_eq!(text(""), ((None, false), vec![AlignmentError::ExpectedMarkerOrBar]));
    assert_eq!(text("x^"), ((None, false), vec![AlignmentError::ExpectedMarkerOrBar]));
    assert_eq!(text("^"), ((None, false), vec![AlignmentError::ExpectedMarker]));
    assert_eq!(text("^x"), ((None, false), vec![AlignmentError::ExpectedMarker]));
}

#[test]
fn malformed_alignments_add_to_the_errors_already_reported() {
    let mut errors = vec![AlignmentError::ExpectedMarker];
    assert_eq!(parse_alignment_from_chars("?", &mut errors), (None, false));
    assert_eq!(errors, vec![AlignmentError::ExpectedMarker, AlignmentError::ExpectedMarkerOrBar]);
}

#[test]
fn alignment_nodes() {
    assert_eq!(node(EdgeNode::Bar), ((None, true), vec![]));
    assert_eq!(
        node(EdgeNode::Direction(Some(Marker::Right), Some(Marker::Up))),
        ((Some(a(AxisAlign::Max, AxisAlign::Min)), false), vec![])
    );
    assert_eq!(
        node(EdgeNode::Direction(Some(Marker::Right), None)),
        ((None, false), vec![AlignmentError::ExpectedMarker])
    );
    assert_eq!(node(EdgeNode::Other), ((None, false), vec![AlignmentError::ExpectedMarkerOrBar]));
}

#[test]
fn labels_read_back() {
    let axes = [AxisAlign::Min, AxisAlign::Center, AxisAlign::Max];
    for x in axes {
        for y in axes {
            let label = anchor_label(a(x, y));
            assert_eq!(label.chars().count(), 2);
            assert_eq!(text(label), ((Some(a(x, y)), false), vec![]));
        }
    }
    assert_eq!(anchor_label(a(AxisAlign::Min, AxisAlign::Max)), "<_");
    assert_eq!(anchor_label(a(AxisAlign::Center, AxisAlign::Center)), "..");
}

#[test]
fn error_messages() {
    assert_eq!(
        AlignmentError::ExpectedMarker.message(),
        "Expected one of `^`, `_`, `<`, `>`, or `.`"
    );
    assert_eq!(
        AlignmentError::ExpectedMarkerOrBar.message(),
        "Expected one of `|`, `^`, `_`, `<`, `>`, or `.`"
    );
}

#[test]
fn node_and_text_readers_agree() {
    for text in ["|", "^<", "_.", "^", "x", "", "<<", "^x"] {
        let chars: Vec<char> = text.chars().collect();
        let node = if chars.is_empty() {
            EdgeNode::Other
        } else if chars[0] == '|' {
            EdgeNode::Bar
        } else if marker_from_char(chars[0]).is_none() {
            EdgeNode::Other
        } else {
            EdgeNode::Direction(marker_from_char(chars[0]), chars.get(1).and_then(|c| marker_from_char(*c)))
        };
        assert_eq!(self::node(node), self::text(text), "{text}");
    }
}
