use grezi::djot::{
    code_requests, djot_events, djot_job, format_djot_text, resolve_events, DjotContainer, DjotEvent,
};
use grezi::markup::{BlockContainer, BlockKind, InlineSpan, MarkupEvent};
use grezi::numbering::{ListNumbering, ListStyle, ListType};
use grezi::sections::{TextParagraph, TextSection};
use grezi::text::{Attrs, Family, Weight};

fn text(p: &TextParagraph) -> String {
    p.rich_text.iter().map(|(t, _)| t.as_str()).collect::<Vec<_>>().join("|")
}

fn describe(job: &[TextSection]) -> String {
    let mut out = Vec::new();
    for s in job {
        match s {
            TextSection::Paragraph(p) => match p.heading_level {
                Some(l) => out.push(format!("h{}[{}]", l, text(p))),
                None => out.push(format!("p[{}]", text(p))),
            },
            TextSection::Blockquote(inner) => out.push(format!("quote{{{}}}", describe(inner))),
            TextSection::List(items) => {
                let items: Vec<String> = items
                    .iter()
                    .map(|(m, body)| format!("{}:{}", text(m), describe(body)))
                    .collect();
                out.push(format!("list{{{}}}", items.join(";")))
            }
        }
    }
    out.join(" ")
}

fn layout(value: &str) -> String {
    describe(&format_djot_text(value, &Attrs::default(), vec![]).expect("laid out"))
}

#[test]
fn hello_is_one_paragraph() {
    assert_eq!(layout("hello"), "p[hello]");
}

#[test]
fn the_parser_reports_a_document_and_its_paragraph() {
    let events = djot_events("hi");
    assert_eq!(events.len(), 5);
    assert!(matches!(events[0], DjotEvent::Start(DjotContainer::Other, None)));
    assert!(matches!(events[1], DjotEvent::Start(DjotContainer::Leaf(BlockKind::Paragraph), None)));
    assert!(matches!(&events[2], DjotEvent::Text(MarkupEvent::Str(s)) if s == "hi"));
    assert!(matches!(events[3], DjotEvent::End(DjotContainer::Leaf(BlockKind::Paragraph))));
    assert!(matches!(events[4], DjotEvent::End(DjotContainer::Other)));
}

#[test]
fn headings_and_strong_text() {
    let job = format_djot_text("# Title\n\nHello *world*", &Attrs::default(), vec![]).unwrap();
    assert_eq!(describe(&job), "h1[Title] p[Hello |world]");
    match &job[1] {
        TextSection::Paragraph(p) => assert_eq!(p.rich_text[1].1.weight, Weight(700)),
        _ => panic!("expected a paragraph"),
    }
}

#[test]
fn typographic_marks_become_characters() {
    assert_eq!(layout("a -- b --- c..."), "p[a – b — c…]");
}

#[test]
fn block_quotes_and_ordered_lists() {
    assert_eq!(layout("> quoted\n\nafter"), "quote{p[quoted]} p[after]");
    assert_eq!(layout("3. three\n4. four\n"), "list{3.:p[three];4.:p[four]}");
    assert_eq!(layout("- a\n- b\n"), "list{•:p[a];•:p[b]}");
}

#[test]
fn code_blocks_go_to_the_highlighter() {
    let value = "```rust\n  fn main() {}\n```\n";
    let requests = code_requests(value, &Attrs::default());
    assert_eq!(requests.len(), 1);
    assert_eq!(requests[0].0, "fn main() {}");
    assert_eq!(requests[0].1, "rust");
    assert!(matches!(requests[0].2.family, Family::Monospace));
    let done = format_djot_text(value, &Attrs::default(), vec![(vec![("fn".into(), Attrs::default())], true)]);
    assert_eq!(describe(&done.unwrap()), "p[fn]");
    let failed = format_djot_text(value, &Attrs::default(), vec![(vec![], false)]);
    assert_eq!(describe(&failed.unwrap()), "p[]");
    assert!(format_djot_text(value, &Attrs::default(), vec![]).is_none());
}

#[test]
fn code_blocks_without_a_language_are_monospace_text() {
    assert!(code_requests("```\nplain\n```\n", &Attrs::default()).is_empty());
    let job = format_djot_text("```\nplain\n```\n", &Attrs::default(), vec![]).unwrap();
    match &job[0] {
        TextSection::Paragraph(p) => {
            assert_eq!(p.rich_text[0].0, "plain\n");
            assert!(matches!(p.rich_text[0].1.family, Family::Monospace));
        }
        _ => panic!("expected a paragraph"),
    }
}

#[test]
fn code_spans_with_a_language_go_to_the_highlighter() {
    let value = "say `x + 1`{lang=rust} now";
    let requests = code_requests(value, &Attrs::default());
    assert_eq!(requests.len(), 1);
    assert_eq!((requests[0].0.as_str(), requests[0].1.as_str()), ("x + 1", "rust"));
    let job = format_djot_text(value, &Attrs::default(), vec![(vec![("x".into(), Attrs::default())], true)]);
    assert_eq!(describe(&job.unwrap()), "p[say |x| now]");
    let plain = layout("say `x` now");
    assert_eq!(plain, "p[say |x| now]");
}

#[test]
fn code_without_its_text_is_refused() {
    let raw = vec![
        DjotEvent::Start(DjotContainer::Leaf(BlockKind::CodeBlock), Some("rust".into())),
        DjotEvent::End(DjotContainer::Leaf(BlockKind::CodeBlock)),
    ];
    assert!(resolve_events(raw, vec![(vec![], true)]).is_none());
    let empty_language = vec![
        DjotEvent::Start(DjotContainer::Leaf(BlockKind::CodeBlock), Some(String::new())),
        DjotEvent::End(DjotContainer::Leaf(BlockKind::CodeBlock)),
    ];
    let resolved = resolve_events(empty_language, vec![]).unwrap();
    assert!(matches!(resolved[0], MarkupEvent::StartBlock(BlockKind::CodeBlock)));
    assert!(matches!(resolved[1], MarkupEvent::EndBlock));
}

fn ordered(start: u64) -> DjotContainer {
    DjotContainer::Block(BlockContainer::List(ListType::Ordered {
        numbering: ListNumbering::Decimal,
        style: ListStyle::Period,
        start,
    }))
}

fn item(t: &str) -> Vec<DjotEvent> {
    vec![
        DjotEvent::Start(DjotContainer::Block(BlockContainer::ListItem), None),
        DjotEvent::Start(DjotContainer::Leaf(BlockKind::Paragraph), None),
        DjotEvent::Text(MarkupEvent::Str(t.into())),
        DjotEvent::End(DjotContainer::Leaf(BlockKind::Paragraph)),
        DjotEvent::End(DjotContainer::Block(BlockContainer::ListItem)),
    ]
}

#[test]
fn a_list_may_start_at_the_largest_number_with_one_item() {
    let mut raw = vec![DjotEvent::Start(ordered(u64::MAX), None)];
    raw.extend(item("last"));
    raw.push(DjotEvent::End(ordered(u64::MAX)));
    raw.push(DjotEvent::Start(DjotContainer::Leaf(BlockKind::Paragraph), None));
    raw.push(DjotEvent::Text(MarkupEvent::Str("a longer text after the list".into())));
    raw.push(DjotEvent::End(DjotContainer::Leaf(BlockKind::Paragraph)));
    let job = djot_job(raw, &Attrs::default(), vec![]).unwrap();
    assert_eq!(describe(&job), "list{18446744073709551615.:p[last]} p[a longer text after the list]");
}

#[test]
fn a_list_numbering_past_the_largest_number_is_refused() {
    let mut raw = vec![DjotEvent::Start(ordered(u64::MAX), None)];
    raw.extend(item("last"));
    raw.extend(item("past"));
    raw.push(DjotEvent::End(ordered(u64::MAX)));
    assert!(djot_job(raw, &Attrs::default(), vec![]).is_none());
}

#[test]
fn inline_spans_of_the_parser() {
    let events = djot_events("_it_ {+ins+}");
    assert!(events.iter().any(|e| matches!(e, DjotEvent::Start(DjotContainer::Inline(InlineSpan::Emphasis), None))));
    assert!(events.iter().any(|e| matches!(e, DjotEvent::End(DjotContainer::Inline(InlineSpan::Insert)))));
}

#[test]
fn code_spans_in_strong_text_are_highlighted_from_bold() {
    let requests = code_requests("*bold `x`{lang=rust}* `y`{lang=c}", &Attrs::default());
    assert_eq!(requests.len(), 2);
    assert_eq!(requests[0].0, "x");
    assert_eq!(requests[0].2.weight, Weight(700));
    assert!(matches!(requests[0].2.family, Family::Monospace));
    assert_eq!(requests[1].0, "y");
    assert_eq!(requests[1].2.weight, Attrs::default().weight);
}
