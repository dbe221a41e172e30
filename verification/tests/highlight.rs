use grezi::highlight::{format_highlighted, HighlightEvent};
use grezi::sections::TextParagraph;
use grezi::text::{Attrs, Color32, Modifier, Weight};
use ropey::Rope;

fn event(offset: u32, refresh: bool, highlights: Vec<usize>) -> HighlightEvent {
    HighlightEvent { offset, refresh, highlights }
}

fn red() -> Color32 {
    Color32 { r: 255, g: 0, b: 0, a: 255 }
}

fn theme() -> Vec<Vec<Modifier>> {
    vec![vec![Modifier::Weight(Weight(700))], vec![Modifier::Color(red())]]
}

fn empty_paragraph() -> TextParagraph {
    TextParagraph { rich_text: Vec::new(), heading_level: None }
}

#[test]
fn events_split_code_into_styled_runs() {
    let mut p = empty_paragraph();
    let events = vec![event(0, false, vec![0]), event(2, true, vec![]), event(3, false, vec![1])];
    let ok = format_highlighted(&Rope::from_str("ab cd"), &events, &theme(), &Attrs::default(), &mut p);
    assert!(ok);
    let texts: Vec<&str> = p.rich_text.iter().map(|r| r.0.as_str()).collect();
    assert_eq!(texts, vec!["ab", " ", "cd"]);
    assert_eq!(p.rich_text[0].1.weight, Weight(700));
    assert_eq!(p.rich_text[1].1.weight, Weight(400));
    assert_eq!(p.rich_text[1].1.color, Color32 { r: 255, g: 255, b: 255, a: 255 });
    assert_eq!(p.rich_text[2].1.color, red());
    assert_eq!(p.rich_text[2].1.weight, Weight(400));
}

#[test]
fn events_at_one_offset_stack_their_highlights() {
    let mut p = empty_paragraph();
    let events = vec![event(0, false, vec![0]), event(0, false, vec![1])];
    assert!(format_highlighted(&Rope::from_str("x"), &events, &theme(), &Attrs::default(), &mut p));
    assert_eq!(p.rich_text.len(), 1);
    assert_eq!(p.rich_text[0].0, "x");
    assert_eq!(p.rich_text[0].1.weight, Weight(700));
    assert_eq!(p.rich_text[0].1.color, red());
}

#[test]
fn no_events_make_one_plain_run() {
    let mut p = empty_paragraph();
    assert!(format_highlighted(&Rope::from_str("héllo"), &vec![], &theme(), &Attrs::default(), &mut p));
    assert_eq!(p.rich_text.len(), 1);
    assert_eq!(p.rich_text[0].0, "héllo");
}

#[test]
fn events_going_backwards_fail_keeping_earlier_runs() {
    let mut p = empty_paragraph();
    let events = vec![event(2, false, vec![]), event(1, false, vec![])];
    assert!(!format_highlighted(&Rope::from_str("abc"), &events, &theme(), &Attrs::default(), &mut p));
    assert_eq!(p.rich_text.len(), 1);
    assert_eq!(p.rich_text[0].0, "ab");
}

#[test]
fn run_splitting_a_character_fails() {
    let mut p = empty_paragraph();
    let events = vec![event(2, false, vec![])];
    assert!(!format_highlighted(&Rope::from_str("héllo"), &events, &theme(), &Attrs::default(), &mut p));
    assert!(p.rich_text.is_empty());
}

#[test]
fn empty_code_makes_no_runs() {
    let mut p = empty_paragraph();
    assert!(format_highlighted(&Rope::from_str(""), &vec![event(0, false, vec![0])], &theme(), &Attrs::default(), &mut p));
    assert!(p.rich_text.is_empty());
}
