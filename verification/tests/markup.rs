use grezi::markup::{format_block, BlockKind, MarkupEvent, InlineSpan};
use grezi::text::{Attrs, Color32, Family, Style, Weight};

fn texts(runs: &[(String, Attrs)]) -> Vec<&str> {
    runs.iter().map(|(t, _)| t.as_str()).collect()
}

#[test]
fn plain_text_and_typography() {
    let events = vec![
        MarkupEvent::LeftDoubleQuote,
        MarkupEvent::Str("Hi".into()),
        MarkupEvent::RightDoubleQuote,
        MarkupEvent::Softbreak,
        MarkupEvent::EmDash,
        MarkupEvent::Ellipsis,
        MarkupEvent::Hardbreak,
        MarkupEvent::Str("end".into()),
        MarkupEvent::EndBlock,
    ];
    let mut runs = Vec::new();
    let read = format_block(BlockKind::Paragraph, &events, 0, &Attrs::default(), &mut runs);
    assert_eq!(read, events.len());
    assert_eq!(texts(&runs), vec!["“Hi” —…\nend"]);
    assert!(matches!(runs[0].1.family, Family::SansSerif));
}

#[test]
fn styled_spans_start_runs() {
    let events = vec![
        MarkupEvent::Str("a ".into()),
        MarkupEvent::Start(InlineSpan::Strong),
        MarkupEvent::Str("b".into()),
        MarkupEvent::End(InlineSpan::Strong),
        MarkupEvent::Start(InlineSpan::Emphasis),
        MarkupEvent::Str("c".into()),
        MarkupEvent::End(InlineSpan::Emphasis),
        MarkupEvent::EndBlock,
    ];
    let mut runs = Vec::new();
    format_block(BlockKind::Paragraph, &events, 0, &Attrs::default(), &mut runs);
    // The run opened by the end of the emphasis stays empty and is dropped.
    assert_eq!(texts(&runs), vec!["a ", "b", "", "c"]);
    assert_eq!(runs[1].1.weight, Weight(700));
    assert_eq!(runs[2].1.weight, Weight(400));
    assert_eq!(runs[3].1.style, Style::Italic);
}

#[test]
fn colours_of_edits_and_marks() {
    let events = vec![
        MarkupEvent::Start(InlineSpan::Insert),
        MarkupEvent::Str("new".into()),
        MarkupEvent::End(InlineSpan::Insert),
        MarkupEvent::Start(InlineSpan::Delete),
        MarkupEvent::Str("old".into()),
        MarkupEvent::End(InlineSpan::Delete),
        MarkupEvent::Start(InlineSpan::Mark),
        MarkupEvent::Str("hot".into()),
        MarkupEvent::End(InlineSpan::Mark),
        MarkupEvent::Str(".".into()),
        MarkupEvent::EndBlock,
    ];
    let mut runs = Vec::new();
    format_block(BlockKind::Paragraph, &events, 0, &Attrs::default(), &mut runs);
    assert_eq!(texts(&runs), vec!["new", "", "old", "", "hot", "."]);
    assert_eq!(runs[0].1.color, Color32 { r: 0, g: 255, b: 0, a: 255 });
    assert_eq!(runs[2].1.color, Color32 { r: 255, g: 0, b: 0, a: 255 });
    assert_eq!(runs[4].1.color, Color32 { r: 61, g: 61, b: 53, a: 12 });
    assert_eq!(runs[5].1.color, Color32 { r: 255, g: 255, b: 255, a: 255 });
}

#[test]
fn code_blocks_are_monospace_and_spans_unsupported_are_ignored() {
    let events = vec![
        MarkupEvent::Start(InlineSpan::Unsupported),
        MarkupEvent::Str("let x = 1;".into()),
        MarkupEvent::End(InlineSpan::Unsupported),
        MarkupEvent::Other,
        MarkupEvent::EndBlock,
    ];
    let mut runs = Vec::new();
    format_block(BlockKind::CodeBlock, &events, 0, &Attrs::default(), &mut runs);
    assert_eq!(texts(&runs), vec!["let x = 1;"]);
    assert!(matches!(runs[0].1.family, Family::Monospace));
}

#[test]
fn emoji_shortcodes() {
    let events = vec![
        MarkupEvent::Str("ok ".into()),
        MarkupEvent::Symbol("smile".into()),
        MarkupEvent::Symbol("no-such-emoji".into()),
        MarkupEvent::EndBlock,
    ];
    let mut runs = Vec::new();
    format_block(BlockKind::Heading(1), &events, 0, &Attrs::default(), &mut runs);
    assert_eq!(texts(&runs), vec!["ok 😄"]);
}

#[test]
fn highlighted_code_adds_its_runs() {
    let mut red = Attrs::default();
    red.color = Color32 { r: 255, g: 0, b: 0, a: 255 };
    let events = vec![
        MarkupEvent::Str("see ".into()),
        MarkupEvent::Highlighted { runs: vec![("fn".into(), red.clone())], success: true },
        MarkupEvent::Str(" here".into()),
        MarkupEvent::EndBlock,
    ];
    let mut runs = Vec::new();
    format_block(BlockKind::Paragraph, &events, 0, &Attrs::default(), &mut runs);
    assert_eq!(texts(&runs), vec!["see ", "fn here"]);

    let failed = vec![
        MarkupEvent::Highlighted { runs: vec![], success: false },
        MarkupEvent::Str("raw".into()),
        MarkupEvent::EndBlock,
    ];
    let mut runs = Vec::new();
    format_block(BlockKind::Paragraph, &failed, 0, &Attrs::default(), &mut runs);
    assert_eq!(texts(&runs), vec!["raw"]);
    assert!(matches!(runs[0].1.family, Family::Monospace));
}

#[test]
fn reading_stops_after_the_block() {
    let events = vec![
        MarkupEvent::Str("one".into()),
        MarkupEvent::EndBlock,
        MarkupEvent::Str("two".into()),
    ];
    let mut runs = vec![("before".to_string(), Attrs::default())];
    let read = format_block(BlockKind::Paragraph, &events, 0, &Attrs::default(), &mut runs);
    assert_eq!(read, 2);
    assert_eq!(texts(&runs), vec!["beforeone"]);

    let unfinished = vec![MarkupEvent::Str("x".into())];
    let mut runs = Vec::new();
    assert_eq!(format_block(BlockKind::Paragraph, &unfinished, 0, &Attrs::default(), &mut runs), 1);
    assert_eq!(texts(&runs), vec!["x"]);
}
