use vstd::prelude::*;

use crate::markup::{
    block_start, format_block, run_block, run_views, BlockContainer, BlockKind, MarkupEvent, RunView,
};
use crate::numbering::{item_marker, ListType, ListNumberer};
use crate::text::Attrs;

verus! {

/// A paragraph of laid-out text: its runs, and the level of the heading
/// it is, if it is one (which sets its size).
#[derive(Debug)]
pub struct TextParagraph {
    pub rich_text: Vec<(String, Attrs)>,
    pub heading_level: Option<u16>,
}

/// A section of the text of an object: a paragraph, a block quote of
/// sections, or a list whose items each have a marker and sections.
#[derive(Debug)]
pub enum TextSection {
    Paragraph(TextParagraph),
    Blockquote(Vec<TextSection>),
    List(Vec<(TextParagraph, Vec<TextSection>)>),
}

/// One step of walking the sections of a text in order: paragraphs, and
/// the beginnings and ends of quotes, lists and list items (with the
/// runs of the item's marker).
pub enum SectionToken {
    Paragraph(Seq<RunView>, Option<u16>),
    BeginQuote,
    EndQuote,
    BeginList,
    Item(Seq<RunView>),
    EndItem,
    EndList,
}

/// The walk of a sequence of sections.
pub open spec fn job_tokens(v: Seq<TextSection>) -> Seq<SectionToken>
    decreases v,
{
    if v.len() == 0 {
        Seq::empty()
    } else {
        job_tokens(v.subrange(0, v.len() - 1)) + section_tokens(v[v.len() - 1])
    }
}

/// The walk of one section.
pub open spec fn section_tokens(s: TextSection) -> Seq<SectionToken>
    decreases s,
{
    match s {
        TextSection::Paragraph(p) => seq![SectionToken::Paragraph(run_views(p.rich_text@), p.heading_level)],
        TextSection::Blockquote(inner) => seq![SectionToken::BeginQuote] + job_tokens(inner@) + seq![SectionToken::EndQuote],
        TextSection::List(items) => seq![SectionToken::BeginList] + items_tokens(items@) + seq![SectionToken::EndList],
    }
}

/// The walk of the items of a list.
pub open spec fn items_tokens(items: Seq<(TextParagraph, Vec<TextSection>)>) -> Seq<SectionToken>
    decreases items,
{
    if items.len() == 0 {
        Seq::empty()
    } else {
        let last = items[items.len() - 1];
        items_tokens(items.subrange(0, items.len() - 1)) + seq![SectionToken::Item(run_views(last.0.rich_text@))]
            + job_tokens(last.1@) + seq![SectionToken::EndItem]
    }
}

/// Appending a section appends its walk.
proof fn lemma_job_push(v: Seq<TextSection>, x: TextSection)
    ensures
        job_tokens(v.push(x)) == job_tokens(v) + section_tokens(x),
{
    assert(v.push(x).subrange(0, v.len() as int) =~= v);
}

/// Appending an item appends its walk.
proof fn lemma_items_push(v: Seq<(TextParagraph, Vec<TextSection>)>, x: (TextParagraph, Vec<TextSection>))
    ensures
        items_tokens(v.push(x)) == items_tokens(v) + seq![SectionToken::Item(run_views(x.0.rich_text@))]
            + job_tokens(x.1@) + seq![SectionToken::EndItem],
{
    assert(v.push(x).subrange(0, v.len() as int) =~= v);
}

/// The heading level of a block, if it is a heading.
pub open spec fn level_of(k: BlockKind) -> Option<u16> {
    match k {
        BlockKind::Heading(l) => Some(l),
        _ => None,
    }
}

/// The walk of the sections read from position `pos` on, until the end
/// of the container `stop` (or of the events), and the position after
/// the last event read. Blocks of text become paragraphs; block quotes and
/// lists become sections of their own; other containers, list items
/// outside a list and everything else are passed over.
pub open spec fn job_reading(es: Seq<MarkupEvent>, pos: int, stop: Option<BlockContainer>, d: Attrs) -> (Seq<SectionToken>, int)
    decreases es.len() - pos, 2int,
{
    if pos < 0 || pos >= es.len() {
        (Seq::empty(), pos)
    } else {
        match es[pos] {
            MarkupEvent::StartContainer(c) => {
                let first = container_reading(es, pos + 1, c, d);
                if pos < first.1 <= es.len() {
                    let rest = job_reading(es, first.1, stop, d);
                    (first.0 + rest.0, rest.1)
                } else {
                    first
                }
            },
            MarkupEvent::StartBlock(k) => {
                let r = run_block(block_start(k, d, Seq::empty()), es, pos + 1, d);
                let first = seq![SectionToken::Paragraph(r.0.runs, level_of(k))];
                if pos < r.1 <= es.len() {
                    let rest = job_reading(es, r.1, stop, d);
                    (first + rest.0, rest.1)
                } else {
                    (first, r.1)
                }
            },
            MarkupEvent::EndContainer(c) => if stop == Some(c) {
                (Seq::empty(), pos + 1)
            } else {
                job_reading(es, pos + 1, stop, d)
            },
            _ => job_reading(es, pos + 1, stop, d),
        }
    }
}

/// The walk of what a container of blocks starting at position `q`
/// holds, and the position after it.
pub open spec fn container_reading(es: Seq<MarkupEvent>, q: int, c: BlockContainer, d: Attrs) -> (Seq<SectionToken>, int)
    decreases es.len() - q, 3int,
{
    match c {
        BlockContainer::Blockquote => {
            let inner = job_reading(es, q, Some(BlockContainer::Blockquote), d);
            (seq![SectionToken::BeginQuote] + inner.0 + seq![SectionToken::EndQuote], inner.1)
        },
        BlockContainer::List(kind) => {
            let items = list_reading(es, q, kind, 0, d);
            (seq![SectionToken::BeginList] + items.0 + seq![SectionToken::EndList], items.1)
        },
        _ => (Seq::empty(), q),
    }
}

/// The walk of the items of a list read from position `q` on, `at` items
/// having been numbered, until the end of a list; each item gets the next
/// marker of the list (bullets do not count).
pub open spec fn list_reading(es: Seq<MarkupEvent>, q: int, kind: ListType, at: nat, d: Attrs) -> (Seq<SectionToken>, int)
    decreases es.len() - q, 0int,
{
    if q < 0 || q >= es.len() {
        (Seq::empty(), q)
    } else {
        match es[q] {
            MarkupEvent::StartContainer(BlockContainer::ListItem) => {
                let item = job_reading(es, q + 1, Some(BlockContainer::ListItem), d);
                let first = seq![SectionToken::Item(seq![(item_marker(kind, at as u64), d)])] + item.0
                    + seq![SectionToken::EndItem];
                if q < item.1 <= es.len() {
                    let rest = list_reading(
                        es,
                        item.1,
                        kind,
                        if kind is Ordered { at + 1 } else { at },
                        d,
                    );
                    (first + rest.0, rest.1)
                } else {
                    (first, item.1)
                }
            },
            MarkupEvent::EndContainer(BlockContainer::List(_)) => (Seq::empty(), q + 1),
            _ => list_reading(es, q + 1, kind, at, d),
        }
    }
}

/// Whether every list that reading from position `pos` on (until the end
/// of `stop`) numbers can number all of its items: an ordered list starting
/// at `start` numbers its `at`-th item as `start + at`, which must fit.
pub open spec fn job_fits(es: Seq<MarkupEvent>, pos: int, stop: Option<BlockContainer>, d: Attrs) -> bool
    decreases es.len() - pos, 2int,
{
    if pos < 0 || pos >= es.len() {
        true
    } else {
        match es[pos] {
            MarkupEvent::StartContainer(c) => {
                let first = container_reading(es, pos + 1, c, d);
                &&& container_fits(es, pos + 1, c, d)
                &&& (pos < first.1 <= es.len() ==> job_fits(es, first.1, stop, d))
            },
            MarkupEvent::StartBlock(k) => {
                let r = run_block(block_start(k, d, Seq::empty()), es, pos + 1, d);
                pos < r.1 <= es.len() ==> job_fits(es, r.1, stop, d)
            },
            MarkupEvent::EndContainer(c) => if stop == Some(c) {
                true
            } else {
                job_fits(es, pos + 1, stop, d)
            },
            _ => job_fits(es, pos + 1, stop, d),
        }
    }
}

/// Whether the lists that reading a container of blocks starting at
/// position `q` numbers can number all of their items.
pub open spec fn container_fits(es: Seq<MarkupEvent>, q: int, c: BlockContainer, d: Attrs) -> bool
    decreases es.len() - q, 3int,
{
    match c {
        BlockContainer::Blockquote => job_fits(es, q, Some(BlockContainer::Blockquote), d),
        BlockContainer::List(kind) => list_fits(es, q, kind, 0, d),
        _ => true,
    }
}

/// Whether a list read from position `q` on, `at` items having been
/// numbered, can number all of its items, and the lists inside them theirs.
pub open spec fn list_fits(es: Seq<MarkupEvent>, q: int, kind: ListType, at: nat, d: Attrs) -> bool
    decreases es.len() - q, 0int,
{
    if q < 0 || q >= es.len() {
        true
    } else {
        match es[q] {
            MarkupEvent::StartContainer(BlockContainer::ListItem) => {
                let item = job_reading(es, q + 1, Some(BlockContainer::ListItem), d);
                &&& (kind matches ListType::Ordered { start, .. } ==> start + at <= u64::MAX && at < u64::MAX)
                &&& job_fits(es, q + 1, Some(BlockContainer::ListItem), d)
                &&& (q < item.1 <= es.len() ==> list_fits(
                    es,
                    item.1,
                    kind,
                    if kind is Ordered { at + 1 } else { at },
                    d,
                ))
            },
            MarkupEvent::EndContainer(BlockContainer::List(_)) => true,
            _ => list_fits(es, q + 1, kind, at, d),
        }
    }
}

/// Whether laying out the whole of the events numbers every list item
/// without overflow.
pub open spec fn lists_fit(es: Seq<MarkupEvent>, d: Attrs) -> bool {
    job_fits(es, 0, None, d)
}

/// Reads sections from position `pos` on until the end of `stop` (see
/// `job_reading`); `None` where a list would number an item past the
/// largest number.
fn read_job(events: &Vec<MarkupEvent>, pos: usize, stop: Option<BlockContainer>, defaults: &Attrs) -> (r: Option<(
    Vec<TextSection>,
    usize,
)>)
    requires
        pos <= events@.len(),
    ensures
        r is Some <==> job_fits(events@, pos as int, stop, *defaults),
        r matches Some(x) ==> {
            &&& job_tokens(x.0@) == job_reading(events@, pos as int, stop, *defaults).0
            &&& x.1 == job_reading(events@, pos as int, stop, *defaults).1
            &&& pos <= x.1 <= events@.len()
        },
    decreases events@.len() - pos, 2int,
{
    let ghost es = events@;
    let mut job: Vec<TextSection> = Vec::new();
    let mut p: usize = pos;
    while p < events.len()
        invariant
            es == events@,
            pos <= p <= es.len(),
            job_fits(es, pos as int, stop, *defaults) == job_fits(es, p as int, stop, *defaults),
            job_reading(es, pos as int, stop, *defaults) == (
                job_tokens(job@) + job_reading(es, p as int, stop, *defaults).0,
                job_reading(es, p as int, stop, *defaults).1,
            ),
        decreases es.len() - p,
    {
        let ghost before = job@;
        match &events[p] {
            MarkupEvent::StartContainer(c) => {
                match read_container(events, p + 1, *c, defaults, &mut job) {
                    Some(q) => {
                        p = q;
                    },
                    None => {
                        return None;
                    },
                }
            },
            MarkupEvent::StartBlock(k) => {
                let mut runs: Vec<(String, Attrs)> = Vec::new();
                let q = format_block(*k, events, p + 1, defaults, &mut runs);
                let level = match k {
                    BlockKind::Heading(l) => Some(*l),
                    _ => None,
                };
                let para = TextSection::Paragraph(TextParagraph { rich_text: runs, heading_level: level });
                job.push(para);
                proof {
                    lemma_job_push(before, para);
                }
                p = q;
            },
            MarkupEvent::EndContainer(c) => {
                let stops = match stop {
                    Some(s) => *c == s,
                    None => false,
                };
                if stops {
                    assert(job_tokens(job@) + Seq::<SectionToken>::empty() =~= job_tokens(job@));
                    return Some((job, p + 1));
                }
                p = p + 1;
            },
            _ => {
                p = p + 1;
            },
        }
    }
    assert(job_tokens(job@) + Seq::<SectionToken>::empty() =~= job_tokens(job@));
    Some((job, p))
}

/// Reads what a container of blocks starting at position `q` holds into
/// `job` (see `container_reading`); `None` where a list in it would
/// number an item past the largest number.
fn read_container(
    events: &Vec<MarkupEvent>,
    q: usize,
    c: BlockContainer,
    defaults: &Attrs,
    job: &mut Vec<TextSection>,
) -> (next: Option<usize>)
    requires
        q <= events@.len(),
    ensures
        next is Some <==> container_fits(events@, q as int, c, *defaults),
        next matches Some(n) ==> {
            &&& job_tokens(final(job)@) == job_tokens(old(job)@) + container_reading(
                events@,
                q as int,
                c,
                *defaults,
            ).0
            &&& n == container_reading(events@, q as int, c, *defaults).1
            &&& q <= n <= events@.len()
        },
    decreases events@.len() - q, 3int,
{
    let ghost before = job@;
    match c {
        BlockContainer::Blockquote => {
            let (inner, p) = match read_job(events, q, Some(BlockContainer::Blockquote), defaults) {
                Some(x) => x,
                None => {
                    return None;
                },
            };
            let sec = TextSection::Blockquote(inner);
            job.push(sec);
            proof {
                lemma_job_push(before, sec);
            }
            Some(p)
        },
        BlockContainer::List(kind) => {
            let (items, p) = match read_list(events, q, kind, defaults) {
                Some(x) => x,
                None => {
                    return None;
                },
            };
            let sec = TextSection::List(items);
            job.push(sec);
            proof {
                lemma_job_push(before, sec);
            }
            Some(p)
        },
        _ => {
            assert(job_tokens(job@) + Seq::<SectionToken>::empty() =~= job_tokens(job@));
            Some(q)
        },
    }
}

/// Reads the items of a list from position `q` on (see `list_reading`);
/// `None` where an item would be numbered past the largest number.
fn read_list(events: &Vec<MarkupEvent>, q: usize, kind: ListType, defaults: &Attrs) -> (r: Option<(
    Vec<(TextParagraph, Vec<TextSection>)>,
    usize,
)>)
    requires
        q <= events@.len(),
    ensures
        r is Some <==> list_fits(events@, q as int, kind, 0, *defaults),
        r matches Some(x) ==> {
            &&& items_tokens(x.0@) == list_reading(events@, q as int, kind, 0, *defaults).0
            &&& x.1 == list_reading(events@, q as int, kind, 0, *defaults).1
            &&& q <= x.1 <= events@.len()
        },
    decreases events@.len() - q, 1int,
{
    let ghost es = events@;
    let mut items: Vec<(TextParagraph, Vec<TextSection>)> = Vec::new();
    let mut numberer = ListNumberer::new(kind);
    let mut p: usize = q;
    while p < events.len()
        invariant
            es == events@,
            q <= p <= es.len(),
            numberer.list_kind == kind,
            list_fits(es, q as int, kind, 0, *defaults) == list_fits(
                es,
                p as int,
                kind,
                numberer.at as nat,
                *defaults,
            ),
            list_reading(es, q as int, kind, 0, *defaults) == (
                items_tokens(items@) + list_reading(es, p as int, kind, numberer.at as nat, *defaults).0,
                list_reading(es, p as int, kind, numberer.at as nat, *defaults).1,
            ),
        decreases es.len() - p,
    {
        let ghost before = items@;
        match &events[p] {
            MarkupEvent::StartContainer(BlockContainer::ListItem) => {
                let ghost at = numberer.at;
                if let ListType::Ordered { start, .. } = kind {
                    if numberer.at == u64::MAX || start > u64::MAX - numberer.at {
                        return None;
                    }
                }
                let marker = numberer.next();
                let (item, next) = match read_job(events, p + 1, Some(BlockContainer::ListItem), defaults) {
                    Some(x) => x,
                    None => {
                        return None;
                    },
                };
                let mark = TextParagraph { rich_text: vec![(marker, defaults.clone())], heading_level: None };
                assert(run_views(mark.rich_text@) =~= seq![(item_marker(kind, at), *defaults)]);
                let entry = (mark, item);
                items.push(entry);
                proof {
                    lemma_items_push(before, entry);
                }
                p = next;
            },
            MarkupEvent::EndContainer(BlockContainer::List(_)) => {
                assert(items_tokens(items@) + Seq::<SectionToken>::empty() =~= items_tokens(items@));
                return Some((items, p + 1));
            },
            _ => {
                p = p + 1;
            },
        }
    }
    assert(items_tokens(items@) + Seq::<SectionToken>::empty() =~= items_tokens(items@));
    Some((items, p))
}

/// Lays out the text markup of an object into sections (see
/// `job_reading`, read to the end of the events).
pub fn format_djot(events: &Vec<MarkupEvent>, defaults: &Attrs) -> (job: Vec<TextSection>)
    requires
        lists_fit(events@, *defaults),
    ensures
        job_tokens(job@) == job_reading(events@, 0, None, *defaults).0,
{
    match read_job(events, 0, None, defaults) {
        Some(x) => x.0,
        None => {
            assert(false);
            Vec::new()
        },
    }
}

/// Lays out the text markup of an object into sections, where every list
/// can number its items; `None` where one cannot.
pub fn format_djot_checked(events: &Vec<MarkupEvent>, defaults: &Attrs) -> (job: Option<Vec<TextSection>>)
    ensures
        job is Some <==> lists_fit(events@, *defaults),
        job matches Some(j) ==> job_tokens(j@) == job_reading(events@, 0, None, *defaults).0,
{
    match read_job(events, 0, None, defaults) {
        Some(x) => Some(x.0),
        None => None,
    }
}

/// The text of a code object with a language: one paragraph of the runs
/// the syntax highlighter made, followed, where it failed, by the whole
/// code in the default attributes.
pub fn highlighted_job(runs: Vec<(String, Attrs)>, success: bool, code: &str, defaults: &Attrs) -> (job: Vec<TextSection>)
    ensures
        job_tokens(job@) == seq![
            SectionToken::Paragraph(
                run_views(runs@) + if success {
                    Seq::empty()
                } else {
                    seq![(code@, *defaults)]
                },
                None,
            ),
        ],
{
    let mut rich_text = runs;
    if !success {
        let ghost before = rich_text@;
        rich_text.push((code.to_owned(), defaults.clone()));
        assert(run_views(rich_text@) =~= run_views(before) + seq![(code@, *defaults)]);
    } else {
        assert(run_views(rich_text@) + Seq::<RunView>::empty() =~= run_views(rich_text@));
    }
    let para = TextSection::Paragraph(TextParagraph { rich_text, heading_level: None });
    let job = vec![para];
    proof {
        lemma_job_push(Seq::empty(), para);
        assert(job@ =~= Seq::<TextSection>::empty().push(para));
        assert(job_tokens(Seq::<TextSection>::empty()) =~= Seq::<SectionToken>::empty());
    }
    job
}

} // verus!
