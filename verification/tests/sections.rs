use grezi::markup::{BlockContainer, BlockKind, InlineSpan, MarkupEvent};
use grezi::numbering::{ListType, ListNumbering, ListStyle};
use grezi::sections::{format_djot, highlighted_job, TextParagraph, TextSection};
use grezi::text::{Attrs, Weight};

fn text(p: &TextParagraph) -> String {
    p.rich_text.iter().map(|(t, _)| t.as_str()).collect::<Vec<_>>().join("|")
}

fn describe(job: &[TextSection]) -> String {
    let mut out = Vec::new();
    for s in job {
        match s {
            TextSection::Paragraph(p) => match p.heading_level {
                Some(l) => out.push(format!("h{}[{}]", l, text(p))),
                None => out.push(format!("p[{}]", text(p))),
            },
            TextSection::Blockquote(inner) => out.push(format!("quote{{{}}}", describe(inner))),
            TextSection::List(items) => {
                let items: Vec<String> = items
                    .iter()
                    .map(|(m, body)| format!("{}:{}", text(m), describe(body)))
                    .collect();
                out.push(format!("list{{{}}}", items.join(";")))
            }
        }
    }
    out.join(" ")
}

fn para(t: &str) -> Vec<MarkupEvent> {
    vec![MarkupEvent::StartBlock(BlockKind::Paragraph), MarkupEvent::Str(t.into()), MarkupEvent::EndBlock]
}

fn ordered(start: u64) -> BlockContainer {
    BlockContainer::List(ListType::Ordered { numbering: ListNumbering::Decimal, style: ListStyle::Period, start })
}

fn item(body: Vec<MarkupEvent>) -> Vec<MarkupEvent> {
    let mut v = vec![MarkupEvent::StartContainer(BlockContainer::ListItem)];
    v.extend(body);
    v.push(MarkupEvent::EndContainer(BlockContainer::ListItem));
    v
}

#[test]
fn paragraphs_and_headings() {
    let mut events = vec![
        MarkupEvent::StartBlock(BlockKind::Heading(2)),
        MarkupEvent::Str("Title".into()),
        MarkupEvent::EndBlock,
        MarkupEvent::StartBlock(BlockKind::Paragraph),
        MarkupEvent::Str("Hello ".into()),
        MarkupEvent::Start(InlineSpan::Strong),
        MarkupEvent::Str("world".into()),
        MarkupEvent::End(InlineSpan::Strong),
        MarkupEvent::EndBlock,
    ];
    events.push(MarkupEvent::Other);
    let job = format_djot(&events, &Attrs::default());
    assert_eq!(describe(&job), "h2[Title] p[Hello |world]");
    match &job[1] {
        TextSection::Paragraph(p) => assert_eq!(p.rich_text[1].1.weight, Weight(700)),
        _ => panic!("expected a paragraph"),
    }
}

#[test]
fn block_quotes_nest() {
    let mut events = vec![MarkupEvent::StartContainer(BlockContainer::Blockquote)];
    events.extend(para("quoted"));
    events.push(MarkupEvent::StartContainer(BlockContainer::Blockquote));
    events.extend(para("deeper"));
    events.push(MarkupEvent::EndContainer(BlockContainer::Blockquote));
    events.push(MarkupEvent::EndContainer(BlockContainer::Blockquote));
    events.extend(para("after"));
    let job = format_djot(&events, &Attrs::default());
    assert_eq!(describe(&job), "quote{p[quoted] quote{p[deeper]}} p[after]");
}

#[test]
fn numbered_lists_with_nested_bullets() {
    let mut events = vec![MarkupEvent::StartContainer(ordered(3))];
    events.extend(item(para("three")));
    let mut nested = para("four");
    nested.push(MarkupEvent::StartContainer(BlockContainer::List(ListType::Unordered)));
    nested.extend(item(para("dot")));
    nested.extend(item(para("dot")));
    nested.push(MarkupEvent::EndContainer(BlockContainer::List(ListType::Unordered)));
    events.extend(item(nested));
    events.push(MarkupEvent::EndContainer(ordered(3)));
    events.extend(para("end"));
    let job = format_djot(&events, &Attrs::default());
    assert_eq!(
        describe(&job),
        "list{3.:p[three];4.:p[four] list{•:p[dot];•:p[dot]}} p[end]"
    );
}

#[test]
fn unsupported_containers_pass_their_blocks_through() {
    let mut events = vec![MarkupEvent::StartContainer(BlockContainer::Other)];
    events.extend(para("in a div"));
    events.push(MarkupEvent::EndContainer(BlockContainer::Other));
    events.push(MarkupEvent::StartContainer(BlockContainer::ListItem));
    events.extend(para("stray item"));
    events.push(MarkupEvent::EndContainer(BlockContainer::ListItem));
    let job = format_djot(&events, &Attrs::default());
    assert_eq!(describe(&job), "p[in a div] p[stray item]");
}

#[test]
fn task_list_items_are_dropped() {
    let mut events = vec![MarkupEvent::StartContainer(BlockContainer::List(ListType::Task))];
    events.push(MarkupEvent::StartContainer(BlockContainer::TaskListItem));
    events.extend(para("todo"));
    events.push(MarkupEvent::EndContainer(BlockContainer::TaskListItem));
    events.push(MarkupEvent::EndContainer(BlockContainer::List(ListType::Task)));
    events.extend(para("next"));
    let job = format_djot(&events, &Attrs::default());
    assert_eq!(describe(&job), "list{} p[next]");
}

#[test]
fn highlighted_code_objects() {
    let job = highlighted_job(vec![("fn".into(), Attrs::default())], true, "fn main", &Attrs::default());
    assert_eq!(describe(&job), "p[fn]");
    let job = highlighted_job(vec![], false, "fn main", &Attrs::default());
    assert_eq!(describe(&job), "p[fn main]");
}

#[test]
fn code_blocks_with_a_language() {
    let events = vec![
        MarkupEvent::StartBlock(BlockKind::CodeBlock),
        MarkupEvent::HighlightedBlock { runs: vec![("let".into(), Attrs::default()), ("".into(), Attrs::default())], success: true },
        MarkupEvent::EndBlock,
    ];
    let job = format_djot(&events, &Attrs::default());
    // A highlighted block ends where the highlighter did: its runs are kept as made.
    assert_eq!(describe(&job), "p[let|]");
    let failed = vec![
        MarkupEvent::StartBlock(BlockKind::CodeBlock),
        MarkupEvent::HighlightedBlock { runs: vec![], success: false },
        MarkupEvent::EndBlock,
    ];
    assert_eq!(describe(&format_djot(&failed, &Attrs::default())), "p[]");
}
