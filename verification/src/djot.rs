//! Reading djot text: the parser's events, the code in them that goes to
//! the syntax highlighter, and the sections the text lays out into.

use vstd::prelude::*;

use crate::markup::{apply_event, block_attrs, format_step, BlockContainer, BlockKind, FormatState, InlineSpan, MarkupEvent};
use crate::numbering::{ListNumbering, ListStyle};
use crate::sections::{format_djot_checked, job_reading, job_tokens, lists_fit, TextSection};
use crate::snippets::{trim_text, trimmed};
use crate::text::{Attrs, Family};

verus! {

#[verifier::external_type_specification]
#[verifier::external_body]
pub struct ExDjotParserEvent<'s>(jotdown::Event<'s>);

#[verifier::external_type_specification]
#[verifier::external_body]
pub struct ExDjotContainer<'s>(jotdown::Container<'s>);

#[verifier::external_type_specification]
#[verifier::external_body]
pub struct ExDjotListKind(jotdown::ListKind);

#[verifier::external_type_specification]
#[verifier::external_body]
pub struct ExDjotNumbering(jotdown::OrderedListNumbering);

#[verifier::external_type_specification]
#[verifier::external_body]
pub struct ExDjotStyle(jotdown::OrderedListStyle);

/// What a container of the djot parser is to the layout.
#[derive(Debug, Clone, Copy, PartialEq, Eq, Structural)]
pub enum DjotContainer {
    /// A container of blocks.
    Block(BlockContainer),
    /// A block of text.
    Leaf(BlockKind),
    /// An inline span.
    Inline(InlineSpan),
    /// The document itself.
    Other,
}

/// An event of the djot parser.
#[derive(Debug, Clone)]
pub enum DjotEvent {
    /// The start of a container, with the language of its code: a code
    /// block's language (empty where it has none), or the `lang`
    /// attribute of a code span.
    Start(DjotContainer, Option<String>),
    /// The end of a container.
    End(DjotContainer),
    /// Text, a symbol or a typographic event.
    Text(MarkupEvent),
}

/// What the djot parser reports of a text, event by event.
pub uninterp spec fn djot_markup(text: Seq<char>) -> Seq<DjotEvent>;

/// The events of djot text.
///
/// Runs `jotdown::Parser` over the text and converts each event it yields,
/// in order; the result is named by `djot_markup`.
#[verifier::external_body]
pub fn djot_events(text: &str) -> (events: Vec<DjotEvent>)
    ensures
        events@ == djot_markup(text@),
{
    let mut events = Vec::new();
    for e in jotdown::Parser::new(text) {
        events.push(djot_event(e));
    }
    events
}

/// Converts one event of the parser (part of `djot_events`).
#[verifier::external_body]
fn djot_event(e: jotdown::Event) -> DjotEvent {
    match e {
        jotdown::Event::Start(c, a) => {
            let lang: Option<String> = match a.get_value("lang") {
                Some(v) => Some(v.parts().collect()),
                None => None,
            };
            DjotEvent::Start(djot_container(&c), djot_language(&c, lang))
        },
        jotdown::Event::End(c) => DjotEvent::End(djot_container(&c)),
        jotdown::Event::Str(s) => DjotEvent::Text(MarkupEvent::Str(s.to_string())),
        jotdown::Event::Symbol(s) => DjotEvent::Text(MarkupEvent::Symbol(s.to_string())),
        e => DjotEvent::Text(djot_mark(e)),
    }
}

/// Converts a typographic event of the parser (part of `djot_events`).
#[verifier::external_body]
fn djot_mark(e: jotdown::Event) -> MarkupEvent {
    match e {
        jotdown::Event::LeftSingleQuote => MarkupEvent::LeftSingleQuote,
        jotdown::Event::RightSingleQuote => MarkupEvent::RightSingleQuote,
        jotdown::Event::LeftDoubleQuote => MarkupEvent::LeftDoubleQuote,
        jotdown::Event::RightDoubleQuote => MarkupEvent::RightDoubleQuote,
        jotdown::Event::Ellipsis => MarkupEvent::Ellipsis,
        jotdown::Event::EnDash => MarkupEvent::EnDash,
        jotdown::Event::EmDash => MarkupEvent::EmDash,
        jotdown::Event::NonBreakingSpace => MarkupEvent::NonBreakingSpace,
        jotdown::Event::Softbreak => MarkupEvent::Softbreak,
        jotdown::Event::Hardbreak => MarkupEvent::Hardbreak,
        jotdown::Event::ThematicBreak(_) => MarkupEvent::ThematicBreak,
        _ => MarkupEvent::Other,
    }
}

/// Converts a container of blocks of the parser, or hands the container
/// on (part of `djot_events`).
#[verifier::external_body]
fn djot_container(c: &jotdown::Container) -> DjotContainer {
    match c {
        jotdown::Container::Blockquote => DjotContainer::Block(BlockContainer::Blockquote),
        jotdown::Container::List { kind, .. } => DjotContainer::Block(BlockContainer::List(djot_list_kind(*kind))),
        jotdown::Container::ListItem => DjotContainer::Block(BlockContainer::ListItem),
        jotdown::Container::TaskListItem { .. } => DjotContainer::Block(BlockContainer::TaskListItem),
        jotdown::Container::DescriptionList | jotdown::Container::DescriptionDetails
        | jotdown::Container::Footnote { .. } | jotdown::Container::Table
        | jotdown::Container::TableRow { .. } | jotdown::Container::Section { .. }
        | jotdown::Container::Div { .. } => DjotContainer::Block(BlockContainer::Other),
        _ => djot_leaf(c),
    }
}

/// Converts a block of text of the parser, or hands the container on
/// (part of `djot_events`).
#[verifier::external_body]
fn djot_leaf(c: &jotdown::Container) -> DjotContainer {
    match c {
        jotdown::Container::Paragraph => DjotContainer::Leaf(BlockKind::Paragraph),
        jotdown::Container::Heading { level, .. } => DjotContainer::Leaf(BlockKind::Heading(*level)),
        jotdown::Container::CodeBlock { .. } => DjotContainer::Leaf(BlockKind::CodeBlock),
        jotdown::Container::TableCell { .. } | jotdown::Container::Caption
        | jotdown::Container::DescriptionTerm | jotdown::Container::LinkDefinition { .. }
        | jotdown::Container::RawBlock { .. } => DjotContainer::Leaf(BlockKind::Other),
        _ => djot_inline(c),
    }
}

/// Converts an inline container of the parser (part of `djot_events`).
#[verifier::external_body]
fn djot_inline(c: &jotdown::Container) -> DjotContainer {
    match c {
        jotdown::Container::Verbatim => DjotContainer::Inline(InlineSpan::Verbatim),
        jotdown::Container::Insert => DjotContainer::Inline(InlineSpan::Insert),
        jotdown::Container::Delete => DjotContainer::Inline(InlineSpan::Delete),
        jotdown::Container::Mark => DjotContainer::Inline(InlineSpan::Mark),
        jotdown::Container::Strong => DjotContainer::Inline(InlineSpan::Strong),
        jotdown::Container::Emphasis => DjotContainer::Inline(InlineSpan::Emphasis),
        jotdown::Container::Span | jotdown::Container::Link(..) | jotdown::Container::Image(..)
        | jotdown::Container::Math { .. } | jotdown::Container::RawInline { .. }
        | jotdown::Container::Subscript
        | jotdown::Container::Superscript => DjotContainer::Inline(InlineSpan::Unsupported),
        _ => DjotContainer::Other,
    }
}

/// Converts the kind of a list of the parser (part of `djot_events`).
#[verifier::external_body]
fn djot_list_kind(k: jotdown::ListKind) -> crate::numbering::ListType {
    match k {
        jotdown::ListKind::Unordered(_) => crate::numbering::ListType::Unordered,
        jotdown::ListKind::Task(_) => crate::numbering::ListType::Task,
        jotdown::ListKind::Ordered { numbering, style, start } => crate::numbering::ListType::Ordered {
            numbering: djot_numbering(numbering),
            style: djot_style(style),
            start,
        },
    }
}

/// Converts the numbering of an ordered list (part of `djot_events`).
#[verifier::external_body]
fn djot_numbering(n: jotdown::OrderedListNumbering) -> ListNumbering {
    match n {
        jotdown::OrderedListNumbering::Decimal => ListNumbering::Decimal,
        jotdown::OrderedListNumbering::AlphaLower => ListNumbering::AlphaLower,
        jotdown::OrderedListNumbering::AlphaUpper => ListNumbering::AlphaUpper,
        jotdown::OrderedListNumbering::RomanLower => ListNumbering::RomanLower,
        jotdown::OrderedListNumbering::RomanUpper => ListNumbering::RomanUpper,
    }
}

/// Converts the style of an ordered list (part of `djot_events`).
#[verifier::external_body]
fn djot_style(s: jotdown::OrderedListStyle) -> ListStyle {
    match s {
        jotdown::OrderedListStyle::Period => ListStyle::Period,
        jotdown::OrderedListStyle::Paren => ListStyle::Paren,
        jotdown::OrderedListStyle::ParenParen => ListStyle::ParenParen,
    }
}

/// The language of the code a container starts: a code block's language,
/// or for a code span the parts of its `lang` attribute, joined (part of
/// `djot_events`).
#[verifier::external_body]
fn djot_language(c: &jotdown::Container, lang: Option<String>) -> Option<String> {
    match c {
        jotdown::Container::CodeBlock { language } => Some(language.to_string()),
        jotdown::Container::Verbatim => lang,
        _ => None,
    }
}

/// What a highlighter made of a piece of code: the runs it added, and
/// whether it succeeded.
pub type CodeOutcome = (Vec<(String, Attrs)>, bool);

/// What an event of the parser is to the layout, where it starts no code
/// for the highlighter.
pub open spec fn plain_event(e: DjotEvent) -> MarkupEvent {
    match e {
        DjotEvent::Text(m) => m,
        DjotEvent::Start(c, _) => match c {
            DjotContainer::Block(b) => MarkupEvent::StartContainer(b),
            DjotContainer::Leaf(k) => MarkupEvent::StartBlock(k),
            DjotContainer::Inline(s) => MarkupEvent::Start(s),
            DjotContainer::Other => MarkupEvent::Other,
        },
        DjotEvent::End(c) => match c {
            DjotContainer::Block(b) => MarkupEvent::EndContainer(b),
            DjotContainer::Leaf(_) => MarkupEvent::EndBlock,
            DjotContainer::Inline(s) => MarkupEvent::End(s),
            DjotContainer::Other => MarkupEvent::Other,
        },
    }
}

/// Whether an event starts code for the highlighter: a code block with a
/// language, or a code span with a `lang` attribute.
pub open spec fn starts_code(e: DjotEvent) -> bool {
    match e {
        DjotEvent::Start(DjotContainer::Leaf(BlockKind::CodeBlock), Some(l)) => l@.len() > 0,
        DjotEvent::Start(DjotContainer::Inline(InlineSpan::Verbatim), Some(_)) => true,
        _ => false,
    }
}

/// Whether an event is a string of text.
pub open spec fn is_str(e: DjotEvent) -> bool {
    e matches DjotEvent::Text(MarkupEvent::Str(_))
}

/// The events that code with its highlighting stands for: a code block
/// starts and gets the highlighted runs; a code span gets them.
pub open spec fn highlighted_events(e: DjotEvent, out: CodeOutcome) -> Seq<MarkupEvent> {
    if e is Start && e->Start_0 is Leaf {
        seq![
            MarkupEvent::StartBlock(BlockKind::CodeBlock),
            MarkupEvent::HighlightedBlock { runs: out.0, success: out.1 },
        ]
    } else {
        seq![MarkupEvent::Highlighted { runs: out.0, success: out.1 }]
    }
}

/// Events put before the events of an outcome, if there are any.
pub open spec fn prepend(p: Seq<MarkupEvent>, r: Option<Seq<MarkupEvent>>) -> Option<Seq<MarkupEvent>> {
    match r {
        Some(t) => Some(p + t),
        None => None,
    }
}

/// The events the layout reads, the outcomes of highlighting the code in
/// `raw` taken in order: each start of code, with the string that follows
/// it, becomes the events of its outcome; every other event stands for
/// itself. `None` where a start of code is not followed by a string, or
/// the outcomes run out.
pub open spec fn resolve_code(raw: Seq<DjotEvent>, outs: Seq<CodeOutcome>) -> Option<Seq<MarkupEvent>>
    decreases raw.len(),
{
    if raw.len() == 0 {
        Some(Seq::empty())
    } else if !starts_code(raw[0]) {
        prepend(seq![plain_event(raw[0])], resolve_code(raw.drop_first(), outs))
    } else if raw.len() >= 2 && is_str(raw[1]) && outs.len() > 0 {
        prepend(
            highlighted_events(raw[0], outs[0]),
            resolve_code(raw.subrange(2, raw.len() as int), outs.drop_first()),
        )
    } else {
        None
    }
}

/// The attributes of text after an event, from those before it: a block
/// starts from the attributes of its kind; a styled span, and its end,
/// change them as formatting does.
pub open spec fn attrs_after(a: Attrs, e: DjotEvent, d: Attrs) -> Attrs {
    match e {
        DjotEvent::Start(DjotContainer::Leaf(k), _) => block_attrs(k, d),
        DjotEvent::Start(DjotContainer::Inline(s), _) => format_step(
            FormatState { runs: Seq::empty(), attrs: a, done: false },
            MarkupEvent::Start(s),
            d,
        ).attrs,
        DjotEvent::End(DjotContainer::Inline(s)) => format_step(
            FormatState { runs: Seq::empty(), attrs: a, done: false },
            MarkupEvent::End(s),
            d,
        ).attrs,
        _ => a,
    }
}

/// The code of `raw` that goes to the highlighter, in order, the text
/// before it having the attributes `a`: each piece with its language and
/// the attributes the highlighter starts from (those of the text the
/// code starts, in a monospace font). The code of a block is trimmed of
/// surrounding white space.
pub open spec fn code_requests_of(raw: Seq<DjotEvent>, a: Attrs, d: Attrs) -> Seq<(Seq<char>, Seq<char>, Attrs)>
    decreases raw.len(),
{
    if raw.len() == 0 {
        Seq::empty()
    } else if starts_code(raw[0]) && raw.len() >= 2 && is_str(raw[1]) {
        let code = raw[1]->Text_0->Str_0@;
        let piece = if raw[0]->Start_0 is Leaf {
            trimmed(code)
        } else {
            code
        };
        let base = attrs_after(a, raw[0], d);
        seq![(piece, raw[0]->Start_1->Some_0@, base)] + code_requests_of(
            raw.subrange(2, raw.len() as int),
            base,
            d,
        )
    } else {
        code_requests_of(raw.drop_first(), attrs_after(a, raw[0], d), d)
    }
}

/// A request as its code, language and attributes.
pub open spec fn request_view(p: (String, String, Attrs)) -> (Seq<char>, Seq<char>, Attrs) {
    (p.0@, p.1@, p.2)
}

/// Whether every start of code is followed by the string of its code.
pub open spec fn code_paired(raw: Seq<DjotEvent>) -> bool {
    forall|i: int| 0 <= i < raw.len() && #[trigger] starts_code(raw[i]) ==> i + 1 < raw.len() && is_str(raw[i + 1])
}

/// Highlighting each piece of code that the requests list is enough: where
/// every start of code is followed by its string, as many outcomes as there
/// are requests let the events be read.
pub proof fn lemma_requests_suffice(raw: Seq<DjotEvent>, outs: Seq<CodeOutcome>, a: Attrs, d: Attrs)
    requires
        code_paired(raw),
        outs.len() >= code_requests_of(raw, a, d).len(),
    ensures
        resolve_code(raw, outs) is Some,
    decreases raw.len(),
{
    if raw.len() > 0 {
        if starts_code(raw[0]) {
            assert(1 < raw.len() && is_str(raw[1]));
            let rest = raw.subrange(2, raw.len() as int);
            assert forall|i: int| 0 <= i < rest.len() && #[trigger] starts_code(rest[i]) implies i + 1 < rest.len()
                && is_str(rest[i + 1]) by {
                assert(rest[i] == raw[i + 2]);
                assert(starts_code(raw[i + 2]));
                assert(rest[i + 1] == raw[i + 3]);
            }
            lemma_requests_suffice(rest, outs.drop_first(), attrs_after(a, raw[0], d), d);
        } else {
            let rest = raw.drop_first();
            assert forall|i: int| 0 <= i < rest.len() && #[trigger] starts_code(rest[i]) implies i + 1 < rest.len()
                && is_str(rest[i + 1]) by {
                assert(rest[i] == raw[i + 1]);
                assert(starts_code(raw[i + 1]));
                assert(rest[i + 1] == raw[i + 2]);
            }
            if is_str(raw[0]) {
                assert(!starts_code(raw[0]));
            }
            lemma_requests_suffice(rest, outs, attrs_after(a, raw[0], d), d);
        }
    }
}

/// Whether an event starts code for the highlighter, and whether that code
/// is a block.
fn code_start(e: &DjotEvent) -> (r: (bool, bool))
    ensures
        r.0 == starts_code(*e),
        r.1 == (*e is Start && e->Start_0 is Leaf),
{
    match e {
        DjotEvent::Start(DjotContainer::Leaf(BlockKind::CodeBlock), Some(l)) => (
            l.as_str().unicode_len() > 0,
            true,
        ),
        DjotEvent::Start(DjotContainer::Leaf(_), _) => (false, true),
        DjotEvent::Start(DjotContainer::Inline(InlineSpan::Verbatim), Some(_)) => (true, false),
        _ => (false, false),
    }
}

/// What an event is to the layout on its own.
fn plain(e: DjotEvent) -> (m: MarkupEvent)
    ensures
        m == plain_event(e),
{
    match e {
        DjotEvent::Text(m) => m,
        DjotEvent::Start(c, _) => match c {
            DjotContainer::Block(b) => MarkupEvent::StartContainer(b),
            DjotContainer::Leaf(k) => MarkupEvent::StartBlock(k),
            DjotContainer::Inline(s) => MarkupEvent::Start(s),
            DjotContainer::Other => MarkupEvent::Other,
        },
        DjotEvent::End(c) => match c {
            DjotContainer::Block(b) => MarkupEvent::EndContainer(b),
            DjotContainer::Leaf(_) => MarkupEvent::EndBlock,
            DjotContainer::Inline(s) => MarkupEvent::End(s),
            DjotContainer::Other => MarkupEvent::Other,
        },
    }
}

/// The events the layout reads of the parser's events, with the outcomes
/// of highlighting their code in order (see `resolve_code`).
pub fn resolve_events(raw: Vec<DjotEvent>, outcomes: Vec<CodeOutcome>) -> (r: Option<Vec<MarkupEvent>>)
    ensures
        r matches Some(v) ==> resolve_code(raw@, outcomes@) == Some(v@),
        r is None ==> resolve_code(raw@, outcomes@) is None,
{
    let ghost raw0 = raw@;
    let ghost outs0 = outcomes@;
    let mut rest = raw;
    let mut outs = outcomes;
    let mut out: Vec<MarkupEvent> = Vec::new();
    let mut paired = true;
    assert(out@ + Seq::<MarkupEvent>::empty() =~= out@);
    while paired && rest.len() > 0
        invariant
            paired ==> resolve_code(raw0, outs0) == prepend(out@, resolve_code(rest@, outs@)),
            !paired ==> resolve_code(raw0, outs0) is None,
        decreases rest@.len(),
    {
        let ghost r0 = rest@;
        let ghost o0 = outs@;
        let ghost before = out@;
        let (is_code, is_block) = code_start(&rest[0]);
        let e = rest.remove(0);
        assert(rest@ =~= r0.drop_first());
        if is_code {
            if rest.len() > 0 && outs.len() > 0 && matches!(rest[0], DjotEvent::Text(MarkupEvent::Str(_))) {
                let _code = rest.remove(0);
                assert(rest@ =~= r0.subrange(2, r0.len() as int));
                let o = outs.remove(0);
                assert(outs@ =~= o0.drop_first());
                let (runs, success) = o;
                if is_block {
                    out.push(MarkupEvent::StartBlock(BlockKind::CodeBlock));
                    out.push(MarkupEvent::HighlightedBlock { runs, success });
                } else {
                    out.push(MarkupEvent::Highlighted { runs, success });
                }
                let ghost added = highlighted_events(e, o);
                assert(out@ =~= before + added);
                proof {
                    let t = resolve_code(rest@, outs@);
                    if t is Some {
                        assert(before + (added + t->Some_0) =~= out@ + t->Some_0);
                    }
                }
            } else {
                assert(resolve_code(r0, o0) is None);
                paired = false;
            }
        } else {
            let m = plain(e);
            out.push(m);
            assert(out@ =~= before + seq![m]);
            proof {
                let t = resolve_code(rest@, outs@);
                if t is Some {
                    assert(before + (seq![m] + t->Some_0) =~= out@ + t->Some_0);
                }
            }
        }
    }
    if !paired {
        return None;
    }
    assert(out@ + Seq::<MarkupEvent>::empty() =~= out@);
    Some(out)
}

/// Changes the attributes of text as an event does (see `attrs_after`).
fn step_attrs(a: &mut Attrs, e: &DjotEvent, d: &Attrs)
    ensures
        *final(a) == attrs_after(*old(a), *e, *d),
{
    match e {
        DjotEvent::Start(DjotContainer::Leaf(k), _) => {
            let mut b = d.clone();
            if *k == BlockKind::CodeBlock {
                b.family = Family::Monospace;
            }
            *a = b;
        },
        DjotEvent::Start(DjotContainer::Inline(s), _) => {
            let mut scratch: Vec<(String, Attrs)> = Vec::new();
            assert(crate::markup::run_views(scratch@) =~= Seq::empty());
            apply_event(&mut scratch, a, &MarkupEvent::Start(*s), d);
        },
        DjotEvent::End(DjotContainer::Inline(s)) => {
            let mut scratch: Vec<(String, Attrs)> = Vec::new();
            assert(crate::markup::run_views(scratch@) =~= Seq::empty());
            apply_event(&mut scratch, a, &MarkupEvent::End(*s), d);
        },
        _ => {},
    }
}

/// The code of the parser's events that goes to the highlighter (see
/// `code_requests_of`, from the default attributes).
pub fn requests_of_events(raw: &Vec<DjotEvent>, defaults: &Attrs) -> (r: Vec<(String, String, Attrs)>)
    ensures
        r@.map_values(|p: (String, String, Attrs)| request_view(p)) == code_requests_of(raw@, *defaults, *defaults),
{
    let mut r: Vec<(String, String, Attrs)> = Vec::new();
    let mut a = defaults.clone();
    let mut i: usize = 0;
    assert(raw@.subrange(0, raw@.len() as int) =~= raw@);
    assert(r@.map_values(|p: (String, String, Attrs)| request_view(p)) + code_requests_of(raw@, a, *defaults)
        =~= code_requests_of(raw@, a, *defaults));
    while i < raw.len()
        invariant
            i <= raw@.len(),
            code_requests_of(raw@, *defaults, *defaults) == r@.map_values(
                |p: (String, String, Attrs)| request_view(p),
            ) + code_requests_of(raw@.subrange(i as int, raw@.len() as int), a, *defaults),
        decreases raw@.len() - i,
    {
        let ghost tail = raw@.subrange(i as int, raw@.len() as int);
        let ghost before = r@;
        let ghost a0 = a;
        let (is_code, is_block) = code_start(&raw[i]);
        step_attrs(&mut a, &raw[i], defaults);
        if is_code && i + 1 < raw.len() {
            if let DjotEvent::Text(MarkupEvent::Str(code)) = &raw[i + 1] {
                if let DjotEvent::Start(_, Some(lang)) = &raw[i] {
                    let piece = if is_block {
                        trim_text(code.as_str())
                    } else {
                        String::from_str(code.as_str())
                    };
                    let req = (piece, String::from_str(lang.as_str()), a.clone());
                    r.push(req);
                    assert(tail.subrange(2, tail.len() as int) =~= raw@.subrange(i + 2, raw@.len() as int));
                    assert(r@.map_values(|p: (String, String, Attrs)| request_view(p)) =~= before.map_values(
                        |p: (String, String, Attrs)| request_view(p),
                    ).push(request_view(req)));
                    i = i + 2;
                    continue;
                }
            }
        }
        assert(tail.drop_first() =~= raw@.subrange(i + 1, raw@.len() as int));
        i = i + 1;
    }
    assert(raw@.subrange(i as int, raw@.len() as int) =~= Seq::<DjotEvent>::empty());
    assert(r@.map_values(|p: (String, String, Attrs)| request_view(p)) + Seq::<(Seq<char>, Seq<char>, Attrs)>::empty()
        =~= r@.map_values(|p: (String, String, Attrs)| request_view(p)));
    r
}

/// Lays out the parser's events of a text into sections, with the
/// outcomes of highlighting their code in order: `None` where a start of
/// code has no string after it, the outcomes run out, or a list would
/// number an item past the largest number.
pub fn djot_job(raw: Vec<DjotEvent>, defaults: &Attrs, outcomes: Vec<CodeOutcome>) -> (job: Option<
    Vec<TextSection>,
>)
    ensures
        match resolve_code(raw@, outcomes@) {
            Some(es) => if lists_fit(es, *defaults) {
                job matches Some(j) && job_tokens(j@) == job_reading(es, 0, None, *defaults).0
            } else {
                job is None
            },
            None => job is None,
        },
{
    match resolve_events(raw, outcomes) {
        Some(events) => format_djot_checked(&events, defaults),
        None => None,
    }
}

/// The code of djot text that goes to the highlighter, in order: each
/// piece with its language and the attributes the highlighter starts from.
pub fn code_requests(value: &str, defaults: &Attrs) -> (r: Vec<(String, String, Attrs)>)
    ensures
        r@.map_values(|p: (String, String, Attrs)| request_view(p)) == code_requests_of(
            djot_markup(value@),
            *defaults,
            *defaults,
        ),
{
    let raw = djot_events(value);
    requests_of_events(&raw, defaults)
}

/// Lays out djot text into sections, with the outcomes of highlighting its
/// code (see `code_requests`) in order: `None` where a start of code has
/// no string after it, the outcomes run out, or a list would number an
/// item past the largest number.
pub fn format_djot_text(value: &str, defaults: &Attrs, outcomes: Vec<CodeOutcome>) -> (job: Option<
    Vec<TextSection>,
>)
    ensures
        match resolve_code(djot_markup(value@), outcomes@) {
            Some(es) => if lists_fit(es, *defaults) {
                job matches Some(j) && job_tokens(j@) == job_reading(es, 0, None, *defaults).0
            } else {
                job is None
            },
            None => job is None,
        },
{
    djot_job(djot_events(value), defaults, outcomes)
}

} // verus!
