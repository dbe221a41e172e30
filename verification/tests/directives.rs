use grezi::alignment::{Align2, AlignmentError, AxisAlign};
use grezi::directives::{
    action_kind, build_object, highlight_region, line_anchor, object_kind, object_param, parse_bool,
    register_key, ActionKind, AnchorError, ObjectKind, ObjectParam, RegisterKey,
};
use grezi::text::Align;

#[test]
fn object_kinds() {
    assert_eq!(object_kind("Rect"), Some(ObjectKind::Rect));
    assert_eq!(object_kind("Image"), Some(ObjectKind::Image));
    assert_eq!(object_kind("Header"), Some(ObjectKind::Header));
    assert_eq!(object_kind("Paragraph"), Some(ObjectKind::Paragraph));
    assert_eq!(object_kind("rect"), None);
    assert_eq!(object_kind("Circle"), None);
}

#[test]
fn object_parameters() {
    assert_eq!(object_param(ObjectKind::Rect, "color", "red"), ObjectParam::Color);
    assert_eq!(object_param(ObjectKind::Rect, "height", "0.5"), ObjectParam::Height);
    assert_eq!(object_param(ObjectKind::Rect, "value", "x"), ObjectParam::Ignored);
    assert_eq!(object_param(ObjectKind::Image, "tint", "x"), ObjectParam::Tint);
    assert_eq!(object_param(ObjectKind::Image, "scale", "2"), ObjectParam::Scale);
    assert_eq!(object_param(ObjectKind::Image, "value", "a.png"), ObjectParam::Value);
    assert_eq!(object_param(ObjectKind::Image, "color", "x"), ObjectParam::Ignored);
    assert_eq!(object_param(ObjectKind::Header, "code", "x"), ObjectParam::Value);
    assert_eq!(object_param(ObjectKind::Paragraph, "value", "x"), ObjectParam::Value);
    assert_eq!(object_param(ObjectKind::Paragraph, "language", "rust"), ObjectParam::Language);
    assert_eq!(
        object_param(ObjectKind::Paragraph, "align", "justified"),
        ObjectParam::Align(Some(Align::Justified))
    );
    assert_eq!(
        object_param(ObjectKind::Header, "align", "end"),
        ObjectParam::Align(Some(Align::End))
    );
    assert_eq!(object_param(ObjectKind::Header, "align", "middle"), ObjectParam::Align(None));
    assert_eq!(object_param(ObjectKind::Header, "font_family"
        , "serif"), ObjectParam::FontFamily);
    assert_eq!(object_param(ObjectKind::Header, "font_size", "12"), ObjectParam::FontSize);
    assert_eq!(object_param(ObjectKind::Header, "line_height", "2"), ObjectParam::LineHeight);
    assert_eq!(object_param(ObjectKind::Header, "color", "x"), ObjectParam::Color);
    assert_eq!(object_param(ObjectKind::Header, "height", "x"), ObjectParam::Ignored);
}

#[test]
fn register_keys() {
    assert_eq!(register_key(Some("MARGIN")), RegisterKey::Margin);
    assert_eq!(register_key(Some("MARGIN_PER")), RegisterKey::MarginPer);
    assert_eq!(register_key(Some("BACKGROUND")), RegisterKey::Background);
    assert_eq!(register_key(Some("CREATE_EDGES")), RegisterKey::CreateEdges);
    assert_eq!(register_key(Some("FLEX")), RegisterKey::Flex);
    assert_eq!(register_key(Some("INVERT")), RegisterKey::Invert);
    assert_eq!(register_key(Some("margin")), RegisterKey::Unknown);
    assert_eq!(register_key(None), RegisterKey::MissingKey);
}

#[test]
fn truth_values() {
    assert_eq!(parse_bool("true"), Some(true));
    assert_eq!(parse_bool("false"), Some(false));
    assert_eq!(parse_bool("True"), None);
    assert_eq!(parse_bool("1"), None);
    assert_eq!(parse_bool(""), None);
}

#[test]
fn action_names() {
    assert_eq!(action_kind("highlight"), Some(ActionKind::Highlight));
    assert_eq!(action_kind("line"), Some(ActionKind::Line));
    assert_eq!(action_kind("speaker_notes"), Some(ActionKind::SpeakerNotes));
    assert_eq!(action_kind("next"), Some(ActionKind::Next));
    assert_eq!(action_kind("stagger"), Some(ActionKind::Stagger));
    assert_eq!(action_kind("time"), Some(ActionKind::Time));
    assert_eq!(action_kind("wait"), None);
}

#[test]
fn line_anchors() {
    let centre = Align2 { x: AxisAlign::Center, y: AxisAlign::Center };
    let mut errors = Vec::new();
    assert_eq!(
        line_anchor(Some("^>"), &mut errors),
        Align2 { x: AxisAlign::Max, y: AxisAlign::Min }
    );
    assert!(errors.is_empty());

    assert_eq!(line_anchor(Some("|"), &mut errors), centre);
    assert_eq!(errors, vec![AnchorError::ExitBar]);

    errors.clear();
    assert_eq!(line_anchor(Some("^"), &mut errors), centre);
    assert_eq!(
        errors,
        vec![AnchorError::Alignment(AlignmentError::ExpectedMarker), AnchorError::ExitBar]
    );

    errors.clear();
    assert_eq!(line_anchor(None, &mut errors), centre);
    assert_eq!(errors, vec![AnchorError::MissingLiteral]);
}

#[test]
fn highlight_regions() {
    assert_eq!(highlight_region(Some([0, 1, 2]), Some([3, 4, 5])), Some([[0, 1, 2], [3, 4, 5]]));
    assert_eq!(highlight_region(Some([0, 1, 2]), None), None);
    assert_eq!(highlight_region(None, Some([0, 1, 2])), None);
}

fn params(ps: &[(&str, &str)]) -> Vec<(String, String)> {
    ps.iter().map(|(k, v)| (k.to_string(), v.to_string())).collect()
}

#[test]
fn building_a_text_object_keeps_the_last_value() {
    let ps = params(&[
        ("value", "first"),
        ("font_size", "12"),
        ("code", "second"),
        ("align", "middle"),
        ("language", "rust"),
        ("color", "red"),
        ("unknown", "x"),
        ("align", "center"),
    ]);
    let b = build_object("Paragraph", &ps).unwrap();
    assert_eq!(b.kind, ObjectKind::Paragraph);
    assert_eq!(b.value.as_deref(), Some("second"));
    assert_eq!(b.language, "rust");
    assert_eq!(b.align, Align::Center);
    assert_eq!(
        b.deferred,
        vec![(1, ObjectParam::FontSize), (3, ObjectParam::Align(None)), (5, ObjectParam::Color)]
    );
}

#[test]
fn building_images_and_rectangles() {
    let b = build_object("Image", &params(&[("value", "a.png"), ("tint", "blue"), ("height", "3")])).unwrap();
    assert_eq!(b.value, None);
    assert_eq!(b.deferred, vec![(0, ObjectParam::Value), (1, ObjectParam::Tint)]);
    let r = build_object("Rect", &params(&[("height", "3"), ("value", "x")])).unwrap();
    assert_eq!(r.deferred, vec![(0, ObjectParam::Height)]);
    assert_eq!(r.align, Align::Left);
    assert!(build_object("Circle", &params(&[("value", "x")])).is_none());
}
