use grezi::alignment::{EdgeNode, Marker};
use grezi::placement::{ObjectSyntax, PlacementError, PlacementSyntax, VbNameSyntax, VbRefSyntax};
use grezi::slide::{ObjState, SlideVb, VbIdentifier, ViewboxRef};
use grezi::slideshow::{parse_slides, TopLevel};

fn goto(name: &str, index: &str) -> Option<PlacementSyntax> {
    Some(PlacementSyntax::Goto(Some(VbRefSyntax {
        name: VbNameSyntax::Named(name.to_string()),
        index: Some(index.to_string()),
    })))
}

fn obj(name: &str, placement: Option<PlacementSyntax>, edge: Option<(Option<EdgeNode>, Option<EdgeNode>)>) -> ObjectSyntax {
    ObjectSyntax { name: name.to_string(), placement, origin: None, edge }
}

fn both(a: Marker, b: Marker) -> Option<(Option<EdgeNode>, Option<EdgeNode>)> {
    Some((
        Some(EdgeNode::Direction(Some(a), Some(b))),
        Some(EdgeNode::Direction(Some(a), Some(b))),
    ))
}

fn subbox_of(vb: &Option<SlideVb>) -> Option<(String, usize)> {
    match vb {
        Some(SlideVb::Viewbox(ViewboxRef { vb_name: VbIdentifier::Named(n), subbox })) => Some((n.clone(), *subbox)),
        _ => None,
    }
}

#[test]
fn slides_build_on_each_other() {
    let items = vec![
        TopLevel::Viewbox("main".into(), 2),
        TopLevel::Other,
        TopLevel::Slide(vec![obj("title", goto("main", "0"), both(Marker::Up, Marker::Up))]),
        TopLevel::Slide(vec![
            obj("title", Some(PlacementSyntax::Stay), None),
            obj("body", goto("main", "1"), both(Marker::Dot, Marker::Dot)),
        ]),
    ];
    let mut errors = Vec::new();
    let slides = parse_slides(&items, &mut errors);
    assert_eq!(slides.len(), 2);
    assert!(errors.is_empty());
    let title = slides[1].object("title").unwrap();
    assert_eq!(title.positions.state, ObjState::OnScreen);
    assert_eq!(subbox_of(&title.viewbox), Some(("main".to_string(), 0)));
    let body = slides[1].object("body").unwrap();
    assert_eq!(body.positions.state, ObjState::Entering);
    assert_eq!(subbox_of(&body.viewbox), Some(("main".to_string(), 1)));
}

#[test]
fn viewboxes_count_from_where_they_are_defined() {
    let items = vec![
        TopLevel::Slide(vec![obj("a", goto("late", "0"), both(Marker::Up, Marker::Up))]),
        TopLevel::Viewbox("late".into(), 1),
        TopLevel::Viewbox("late".into(), 5),
        TopLevel::Slide(vec![obj("a", goto("late", "3"), both(Marker::Up, Marker::Up))]),
        TopLevel::Bad,
    ];
    let mut errors = Vec::new();
    let slides = parse_slides(&items, &mut errors);
    assert_eq!(slides.len(), 2);
    // The first slide comes before the viewbox; the second checks the
    // sub-box against the first definition, which has one sub-box.
    assert_eq!(
        errors,
        vec![PlacementError::UnknownViewbox, PlacementError::UnknownSubbox, PlacementError::NotTopLevel]
    );
}

#[test]
fn actions_keep_what_stays_on_screen() {
    let items = vec![
        TopLevel::CreateEdges(true),
        TopLevel::Viewbox("main".into(), 2),
        TopLevel::Slide(vec![
            obj("a", goto("main", "0"), both(Marker::Up, Marker::Up)),
            obj("b", goto("main", "1"), both(Marker::Up, Marker::Up)),
        ]),
        TopLevel::Actions(vec![obj("b", None, Some((Some(EdgeNode::Bar), None)))]),
    ];
    let mut errors = Vec::new();
    let slides = parse_slides(&items, &mut errors);
    assert!(errors.is_empty());
    assert_eq!(slides.len(), 2);
    assert!(slides[0].create_edges);
    assert!(slides[1].object("b").is_none());
    let a = slides[1].object("a").unwrap();
    assert_eq!(a.positions.state, ObjState::OnScreen);
    assert_eq!(subbox_of(&a.vb_from), Some(("main".to_string(), 0)));
}
