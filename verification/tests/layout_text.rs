use grezi::layout::{Direction, Flex};
use grezi::text::{Attrs, Color32, Family, Modifier, Stretch, Style, Weight};

#[test]
fn direction_markers() {
    assert_eq!(Direction::try_from('^'), Ok(Direction::Vertical));
    assert_eq!(Direction::try_from('_'), Ok(Direction::Vertical));
    assert_eq!(Direction::try_from('<'), Ok(Direction::Horizontal));
    assert_eq!(Direction::try_from('>'), Ok(Direction::Horizontal));
    assert_eq!(Direction::try_from('x'), Err(()));
    assert_eq!(Direction::default(), Direction::Vertical);
}

#[test]
fn flex_names() {
    assert_eq!(Flex::from_str("legacy"), Ok(Flex::Legacy));
    assert_eq!(Flex::from_str("start"), Ok(Flex::Start));
    assert_eq!(Flex::from_str("end"), Ok(Flex::End));
    assert_eq!(Flex::from_str("center"), Ok(Flex::Center));
    assert_eq!(Flex::from_str("space-between"), Ok(Flex::SpaceBetween));
    assert_eq!(Flex::from_str("space-around"), Ok(Flex::SpaceAround));
    assert_eq!(Flex::from_str("Center"), Err(()));
    assert_eq!(Flex::from_str(""), Err(()));
    assert_eq!(Flex::default(), Flex::Legacy);
}

#[test]
fn fontstr_generic_family_and_options() {
    let mut attrs = Attrs::default();
    attrs.apply_fontstr("monospace:bold:italic:condensed");
    assert!(matches!(attrs.family, Family::Monospace));
    assert_eq!(attrs.weight, Weight(700));
    assert_eq!(attrs.style, Style::Italic);
    assert_eq!(attrs.stretch, Stretch::Condensed);
    assert_eq!(attrs.color, Color32 { r: 255, g: 255, b: 255, a: 255 });
}

#[test]
fn fontstr_named_family_and_unknown_options() {
    let mut attrs = Attrs::default();
    attrs.apply_fontstr("Fira Code:nonsense:thin:normal");
    match &attrs.family {
        Family::Name(n) => assert_eq!(n, "Fira Code"),
        other => panic!("unexpected family {:?}", other),
    }
    assert_eq!(attrs.weight, Weight(100));
    assert_eq!(attrs.style, Style::Normal);
    assert_eq!(attrs.stretch, Stretch::Normal);
}

#[test]
fn fontstr_later_options_win() {
    let mut attrs = Attrs::default();
    attrs.apply_fontstr("serif:bold:light:expanded:ultraexpanded");
    assert!(matches!(attrs.family, Family::Serif));
    assert_eq!(attrs.weight, Weight(300));
    assert_eq!(attrs.stretch, Stretch::UltraExpanded);
}

#[test]
fn fontstr_empty_is_a_named_empty_family() {
    let mut attrs = Attrs::default();
    attrs.apply_fontstr("");
    match &attrs.family {
        Family::Name(n) => assert_eq!(n, ""),
        other => panic!("unexpected family {:?}", other),
    }
}

#[test]
fn modifiers() {
    let mut attrs = Attrs::default();
    attrs.apply_modifier(Modifier::Weight(Weight(900)));
    attrs.apply_modifier(Modifier::Style(Style::Oblique));
    let red = Color32 { r: 255, g: 0, b: 0, a: 255 };
    attrs.apply_modifier(Modifier::Color(red));
    attrs.apply_modifier(Modifier::Strikethrough);
    assert_eq!(attrs.weight, Weight(900));
    assert_eq!(attrs.style, Style::Oblique);
    assert_eq!(attrs.color, red);
    assert!(matches!(attrs.family, Family::SansSerif));
}
