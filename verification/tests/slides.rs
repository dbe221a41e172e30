use grezi::alignment::{Align2, AlignmentError, AxisAlign, EdgeNode, Marker};
use grezi::incremental::{
    find_slide_index_for_edit, react_to_document, ChangeOutcome, DocumentEvent, EditTarget,
};
use grezi::navigation::FileOwnerMessage;
use grezi::slide::{ObjPositions, ObjState, Slide, SlideObj, SlideVb, VbIdentifier, ViewboxRef};

fn named(name: &str, subbox: usize) -> SlideVb {
    SlideVb::Viewbox(ViewboxRef { vb_name: VbIdentifier::Named(name.to_string()), subbox })
}

fn placement(vb: &Option<SlideVb>) -> Option<(String, usize)> {
    match vb {
        Some(SlideVb::Viewbox(ViewboxRef { vb_name: VbIdentifier::Named(n), subbox })) => {
            Some((n.clone(), *subbox))
        }
        Some(_) => Some((String::from("<other>"), 0)),
        None => None,
    }
}

fn aligned(x: AxisAlign, y: AxisAlign) -> Option<Align2> {
    Some(Align2 { x, y })
}

fn obj(viewbox: Option<SlideVb>, from: Option<Align2>, to: Option<Align2>, state: ObjState) -> SlideObj {
    SlideObj {
        viewbox,
        vb_from: None,
        positions: ObjPositions { from_alignment: from, to_alignment: to, state },
    }
}

#[test]
fn new_object_enters_where_it_is_placed() {
    let mut o = obj(Some(named("main", 1)), None, aligned(AxisAlign::Min, AxisAlign::Min), ObjState::OnScreen);
    o.resolve_from_other(None);
    assert_eq!(o.positions.state, ObjState::Entering);
    assert_eq!(placement(&o.vb_from), Some(("main".to_string(), 1)));
    assert_eq!(placement(&o.viewbox), Some(("main".to_string(), 1)));
    assert_eq!(o.positions.from_alignment, None);
    assert!(o.has_unresolved_implicit(false));
    assert!(!o.has_unresolved_implicit(true));
}

#[test]
fn staying_object_inherits_from_previous_slide() {
    let prev = SlideObj {
        viewbox: Some(named("left", 0)),
        vb_from: Some(named("left", 0)),
        positions: ObjPositions {
            from_alignment: aligned(AxisAlign::Center, AxisAlign::Center),
            to_alignment: aligned(AxisAlign::Max, AxisAlign::Min),
            state: ObjState::OnScreen,
        },
    };
    let mut o = obj(None, None, None, ObjState::OnScreen);
    o.resolve_from_other(Some(&prev));
    assert_eq!(o.positions.state, ObjState::OnScreen);
    assert_eq!(o.positions.from_alignment, aligned(AxisAlign::Max, AxisAlign::Min));
    assert_eq!(o.positions.to_alignment, aligned(AxisAlign::Max, AxisAlign::Min));
    assert_eq!(placement(&o.viewbox), Some(("left".to_string(), 0)));
    assert_eq!(placement(&o.vb_from), Some(("left".to_string(), 0)));
    assert!(!o.has_unresolved_implicit(false));
}

#[test]
fn moving_object_comes_from_previous_placement() {
    let prev = obj(Some(named("left", 0)), None, aligned(AxisAlign::Min, AxisAlign::Center), ObjState::OnScreen);
    let mut o = obj(Some(named("right", 2)), None, aligned(AxisAlign::Max, AxisAlign::Center), ObjState::OnScreen);
    o.resolve_from_other(Some(&prev));
    assert_eq!(placement(&o.vb_from), Some(("left".to_string(), 0)));
    assert_eq!(placement(&o.viewbox), Some(("right".to_string(), 2)));
    assert_eq!(o.positions.from_alignment, aligned(AxisAlign::Min, AxisAlign::Center));
    assert_eq!(o.positions.to_alignment, aligned(AxisAlign::Max, AxisAlign::Center));
}

#[test]
fn exiting_object_leaves_from_where_it_was() {
    let prev = obj(Some(named("main", 0)), None, aligned(AxisAlign::Center, AxisAlign::Max), ObjState::OnScreen);
    let mut o = obj(None, aligned(AxisAlign::Min, AxisAlign::Min), None, ObjState::Exiting);
    o.resolve_from_other(Some(&prev));
    assert_eq!(o.positions.state, ObjState::Exiting);
    assert_eq!(o.positions.to_alignment, aligned(AxisAlign::Min, AxisAlign::Min));
    assert_eq!(o.positions.from_alignment, aligned(AxisAlign::Center, AxisAlign::Max));
    assert_eq!(placement(&o.viewbox), Some(("main".to_string(), 0)));
}

#[test]
fn predecessor_that_left_does_not_count() {
    let prev = obj(Some(named("main", 0)), None, aligned(AxisAlign::Min, AxisAlign::Min), ObjState::Exiting);
    let mut o = obj(None, None, None, ObjState::OnScreen);
    o.resolve_from_other(Some(&prev));
    assert_eq!(o.positions.state, ObjState::Entering);
    assert_eq!(o.viewbox.is_none(), true);
    assert_eq!(o.positions.to_alignment, None);
}

#[test]
fn slide_objects_keep_their_order() {
    let mut slide = Slide::default();
    assert!(slide.insert_object("a".into(), obj(Some(named("v", 0)), None, None, ObjState::Entering)).is_none());
    assert!(slide.insert_object("b".into(), obj(Some(named("w", 0)), None, None, ObjState::Exiting)).is_none());
    let replaced = slide.insert_object("a".into(), obj(Some(named("v", 1)), None, None, ObjState::OnScreen));
    assert_eq!(replaced.map(|o| o.positions.state), Some(ObjState::Entering));
    assert_eq!(slide.object("a").map(|o| o.positions.state), Some(ObjState::OnScreen));
    assert!(slide.object("c").is_none());
    assert!(slide.uses_viewbox(&"v".to_string()));
    assert!(slide.uses_viewbox(&"w".to_string()));
    assert!(!slide.uses_viewbox(&"x".to_string()));
}

#[test]
fn next_slide_keeps_what_stays() {
    let mut slide = Slide::default();
    slide.insert_object(
        "a".into(),
        SlideObj {
            viewbox: Some(named("v", 1)),
            vb_from: Some(named("u", 0)),
            positions: ObjPositions {
                from_alignment: aligned(AxisAlign::Min, AxisAlign::Min),
                to_alignment: aligned(AxisAlign::Max, AxisAlign::Max),
                state: ObjState::Entering,
            },
        },
    );
    slide.insert_object("gone".into(), obj(Some(named("v", 0)), None, None, ObjState::Exiting));
    slide.make_action();
    assert!(slide.object("gone").is_none());
    let a = slide.object("a").unwrap();
    assert_eq!(a.positions.state, ObjState::OnScreen);
    assert_eq!(a.positions.from_alignment, aligned(AxisAlign::Max, AxisAlign::Max));
    assert_eq!(a.positions.to_alignment, aligned(AxisAlign::Max, AxisAlign::Max));
    assert_eq!(placement(&a.vb_from), Some(("v".to_string(), 1)));
    slide.make_action();
    let again = slide.object("a").unwrap();
    assert_eq!(again.positions.from_alignment, aligned(AxisAlign::Max, AxisAlign::Max));
    assert_eq!(placement(&again.viewbox), Some(("v".to_string(), 1)));
}

#[test]
fn placements_and_subboxes() {
    let mut vb = named("main", 0);
    assert!(vb.eq(&"main".to_string()));
    assert!(!vb.eq(&"other".to_string()));
    vb.set_subbox(3);
    assert_eq!(placement(&Some(vb)), Some(("main".to_string(), 3)));
    let size = SlideVb::Viewbox(ViewboxRef { vb_name: VbIdentifier::Size, subbox: 0 });
    assert!(!size.eq(&"Size".to_string()));
    assert!(VbIdentifier::Named("x".into()).eq(&"x".to_string()));
    assert!(!VbIdentifier::Size.eq(&"x".to_string()));
}

#[test]
fn reading_edges() {
    let mut p = ObjPositions::default();
    let mut errors = Vec::new();
    let exiting = p.parse(Some(EdgeNode::Direction(Some(Marker::Up), Some(Marker::Left))), None, &mut errors);
    assert!(!exiting);
    assert_eq!(p.to_alignment, aligned(AxisAlign::Min, AxisAlign::Min));
    assert_eq!(p.from_alignment, None);

    let mut q = ObjPositions::default();
    let exiting = q.parse(
        Some(EdgeNode::Direction(Some(Marker::Dot), Some(Marker::Dot))),
        Some(EdgeNode::Bar),
        &mut errors,
    );
    assert!(exiting);
    assert_eq!(q.from_alignment, aligned(AxisAlign::Center, AxisAlign::Center));
    assert_eq!(q.to_alignment, None);
    assert!(errors.is_empty());

    let mut r = ObjPositions::default();
    r.parse(Some(EdgeNode::Other), Some(EdgeNode::Direction(None, Some(Marker::Up))), &mut errors);
    assert_eq!(errors, vec![AlignmentError::ExpectedMarkerOrBar, AlignmentError::ExpectedMarker]);
    assert_eq!(r.to_alignment, None);
}

#[test]
fn debug_spelling_of_positions() {
    let p = ObjPositions {
        from_alignment: aligned(AxisAlign::Min, AxisAlign::Min),
        to_alignment: aligned(AxisAlign::Max, AxisAlign::Max),
        state: ObjState::OnScreen,
    };
    assert_eq!(p.debug_string(), "\"^<>_\"");
    let q = ObjPositions { state: ObjState::Exiting, ..p };
    assert_eq!(q.debug_string(), "\"^<|\"");
    assert_eq!(ObjPositions::default().debug_string(), "\"\"");
}

fn slides() -> Vec<(u64, Slide)> {
    let mut first = Slide::default();
    first.insert_object("title".into(), obj(Some(named("top", 0)), None, None, ObjState::Entering));
    let mut second = Slide::default();
    second.insert_object("title".into(), obj(Some(named("top", 0)), None, None, ObjState::Exiting));
    second.insert_object("body".into(), obj(Some(named("bottom", 0)), None, None, ObjState::Entering));
    let mut third = Slide::default();
    third.insert_object("body".into(), obj(Some(named("bottom", 1)), None, None, ObjState::OnScreen));
    vec![(10, first), (20, second), (30, third)]
}

#[test]
fn slide_for_an_edited_slide() {
    let s = slides();
    assert_eq!(find_slide_index_for_edit(&s, &EditTarget::Slide(Some(20)), 0), Some(1));
    assert_eq!(find_slide_index_for_edit(&s, &EditTarget::Slide(Some(99)), 0), None);
    assert_eq!(find_slide_index_for_edit(&s, &EditTarget::Slide(None), 0), None);
    assert_eq!(find_slide_index_for_edit(&s, &EditTarget::Other, 0), None);
}

#[test]
fn slide_for_an_edited_viewbox() {
    let s = slides();
    let bottom = EditTarget::Viewbox(Some("bottom".into()));
    assert_eq!(find_slide_index_for_edit(&s, &bottom, 2), Some(2));
    assert_eq!(find_slide_index_for_edit(&s, &bottom, 0), Some(1));
    assert_eq!(find_slide_index_for_edit(&s, &bottom, 5), None);
    let nowhere = EditTarget::Viewbox(Some("side".into()));
    assert_eq!(find_slide_index_for_edit(&s, &nowhere, 0), None);
}

#[test]
fn slide_for_an_edited_object() {
    let s = slides();
    let title = EditTarget::Object(Some("title".into()));
    assert_eq!(find_slide_index_for_edit(&s, &title, 0), Some(0));
    // On the second slide the title is leaving, so the first slide that has it is chosen.
    assert_eq!(find_slide_index_for_edit(&s, &title, 1), Some(0));
    assert_eq!(find_slide_index_for_edit(&s, &title, 2), Some(0));
    let body = EditTarget::Object(Some("body".into()));
    assert_eq!(find_slide_index_for_edit(&s, &body, 2), Some(2));
    assert_eq!(find_slide_index_for_edit(&s, &body, 0), Some(1));
    assert_eq!(find_slide_index_for_edit(&s, &EditTarget::Object(None), 0), None);
}

fn change(parsed: bool, has_errors: bool, edited_slide: Option<usize>) -> ChangeOutcome {
    ChangeOutcome { parsed, has_errors, edited_slide }
}

#[test]
fn opened_document_starts_at_first_slide_when_clean() {
    let (i, m) = react_to_document(5, &DocumentEvent::Opened { parsed_with_errors: Some(false) });
    assert_eq!(i, 5);
    assert_eq!(m, Some(FileOwnerMessage::Index { index: 0, reset_time: true }));
    let (_, m) = react_to_document(5, &DocumentEvent::Opened { parsed_with_errors: Some(true) });
    assert_eq!(m, None);
    let (_, m) = react_to_document(5, &DocumentEvent::Opened { parsed_with_errors: None });
    assert_eq!(m, None);
}

#[test]
fn saved_document_shows_current_slide_again() {
    let (i, m) = react_to_document(3, &DocumentEvent::Saved { parsed_with_errors: Some(false) });
    assert_eq!(i, 3);
    assert_eq!(m, Some(FileOwnerMessage::Index { index: 3, reset_time: true }));
    let (_, m) = react_to_document(3, &DocumentEvent::Saved { parsed_with_errors: Some(true) });
    assert_eq!(m, None);
}

#[test]
fn changes_follow_the_slide_edited_last() {
    let outcomes = vec![change(true, false, Some(2)), change(false, true, Some(7)), change(true, false, None)];
    let (i, m) = react_to_document(0, &DocumentEvent::Changed { outcomes });
    assert_eq!(i, 2);
    assert_eq!(m, Some(FileOwnerMessage::Index { index: 2, reset_time: false }));
    let outcomes = vec![change(true, true, Some(4))];
    let (i, m) = react_to_document(1, &DocumentEvent::Changed { outcomes });
    assert_eq!(i, 4);
    assert_eq!(m, None);
    let (i, m) = react_to_document(6, &DocumentEvent::Changed { outcomes: vec![] });
    assert_eq!(i, 6);
    assert_eq!(m, Some(FileOwnerMessage::Index { index: 6, reset_time: false }));
}

#[test]
fn resolving_twice_changes_nothing() {
    let prev = obj(Some(named("left", 0)), None, aligned(AxisAlign::Min, AxisAlign::Center), ObjState::OnScreen);
    let mut once = obj(Some(named("right", 2)), None, None, ObjState::OnScreen);
    once.resolve_from_other(Some(&prev));
    let mut twice = once.clone();
    twice.resolve_from_other(Some(&prev));
    assert_eq!(twice.positions, once.positions);
    assert_eq!(placement(&twice.viewbox), placement(&once.viewbox));
    assert_eq!(placement(&twice.vb_from), placement(&once.vb_from));
}

#[test]
fn leaving_object_without_alignments_gets_a_target_the_second_time() {
    let prev = obj(Some(named("main", 0)), None, aligned(AxisAlign::Center, AxisAlign::Max), ObjState::OnScreen);
    let mut o = obj(None, None, None, ObjState::Exiting);
    o.resolve_from_other(Some(&prev));
    assert_eq!(o.positions.to_alignment, None);
    o.resolve_from_other(Some(&prev));
    assert_eq!(o.positions.to_alignment, aligned(AxisAlign::Center, AxisAlign::Max));
}
