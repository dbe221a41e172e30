use vstd::prelude::*;

use crate::numbering::ListType;
use crate::text::{Attrs, Color32, Family, Style, Weight};

verus! {

/// An inline span of the text markup that changes how text looks.
#[derive(Debug, Clone, Copy, PartialEq, Eq, Structural)]
pub enum InlineSpan {
    /// Code, in a monospace font.
    Verbatim,
    /// Inserted text, in green.
    Insert,
    /// Deleted text, in red.
    Delete,
    /// Marked text, highlighted.
    Mark,
    /// Strong text, in bold.
    Strong,
    /// Emphasised text, in italics.
    Emphasis,
    /// Spans, links, maths, images, raw inlines, sub- and superscripts,
    /// which change nothing.
    Unsupported,
}

/// A container of blocks in the text markup.
#[derive(Debug, Clone, Copy, PartialEq, Eq, Structural)]
pub enum BlockContainer {
    Blockquote,
    List(ListType),
    ListItem,
    TaskListItem,
    /// Description lists and their details, footnotes, tables and their
    /// rows, sections and divs: their blocks are read as if they stood
    /// outside them.
    Other,
}

/// An event of the text markup, as the markup parser reports it.
#[derive(Debug, Clone)]
pub enum MarkupEvent {
    LeftSingleQuote,
    LeftDoubleQuote,
    RightSingleQuote,
    RightDoubleQuote,
    Ellipsis,
    EmDash,
    EnDash,
    Softbreak,
    NonBreakingSpace,
    Hardbreak,
    ThematicBreak,
    Str(String),
    /// A `:shortcode:` symbol.
    Symbol(String),
    Start(InlineSpan),
    /// A code span with a language, handed to the syntax highlighter: the
    /// runs it added, and whether it succeeded.
    Highlighted { runs: Vec<(String, Attrs)>, success: bool },
    /// The code of a code block with a language, handed to the syntax
    /// highlighter: the runs it added, and whether it succeeded (which
    /// ends the block).
    HighlightedBlock { runs: Vec<(String, Attrs)>, success: bool },
    End(InlineSpan),
    /// The end of the block being formatted.
    EndBlock,
    /// The start of a container of blocks.
    StartContainer(BlockContainer),
    /// The end of a container of blocks.
    EndContainer(BlockContainer),
    /// The start of a block of text.
    StartBlock(BlockKind),
    Other,
}

/// The kind of block being formatted.
#[derive(Debug, Clone, Copy, PartialEq, Eq, Structural)]
pub enum BlockKind {
    Paragraph,
    /// A heading of the given level.
    Heading(u16),
    /// A code block, in a monospace font.
    CodeBlock,
    Other,
}

/// A run of text with its attributes, by its characters.
pub type RunView = (Seq<char>, Attrs);

/// The views of runs.
pub open spec fn run_views(v: Seq<(String, Attrs)>) -> Seq<RunView> {
    v.map_values(|r: (String, Attrs)| (r.0@, r.1))
}

/// What `emojis` gives for a shortcode: the emoji's text, if it knows one.
pub uninterp spec fn emoji_for(shortcode: Seq<char>) -> Option<Seq<char>>;

/// The emoji of a shortcode.
///
/// Calls `emojis::get_by_shortcode` and takes the emoji's text; the result
/// is named by `emoji_for`.
#[verifier::external_body]
fn emoji(shortcode: &str) -> (r: Option<String>)
    ensures
        r matches Some(s) ==> emoji_for(shortcode@) == Some(s@),
        r is None ==> emoji_for(shortcode@) is None,
{
    match emojis::get_by_shortcode(shortcode) {
        Some(e) => Some(e.as_str().to_owned()),
        None => None,
    }
}

/// The state of formatting a block: the runs so far, the attributes of
/// new text, and whether the block has ended.
pub struct FormatState {
    pub runs: Seq<RunView>,
    pub attrs: Attrs,
    pub done: bool,
}

/// Runs with text appended to the last run, starting a run with `attrs`
/// if there is none.
pub open spec fn append_text(runs: Seq<RunView>, attrs: Attrs, t: Seq<char>) -> Seq<RunView> {
    if runs.len() == 0 {
        seq![(t, attrs)]
    } else {
        runs.update(runs.len() - 1, (runs.last().0 + t, runs.last().1))
    }
}

/// Runs with a new, empty run with `attrs` started.
pub open spec fn new_run(runs: Seq<RunView>, attrs: Attrs) -> Seq<RunView> {
    runs.push((Seq::empty(), attrs))
}

/// The colour of inserted text.
pub open spec fn insert_color() -> Color32 {
    Color32 { r: 0, g: 255, b: 0, a: 255 }
}

/// The colour of deleted text.
pub open spec fn delete_color() -> Color32 {
    Color32 { r: 255, g: 0, b: 0, a: 255 }
}

/// The colour of marked text.
pub open spec fn mark_color() -> Color32 {
    Color32 { r: 61, g: 61, b: 53, a: 12 }
}

/// The character a typographic event stands for.
pub open spec fn event_char(e: MarkupEvent) -> Option<char> {
    match e {
        MarkupEvent::LeftSingleQuote => Some('‘'),
        MarkupEvent::LeftDoubleQuote => Some('“'),
        MarkupEvent::RightSingleQuote => Some('’'),
        MarkupEvent::RightDoubleQuote => Some('”'),
        MarkupEvent::Ellipsis => Some('…'),
        MarkupEvent::EmDash => Some('—'),
        MarkupEvent::EnDash => Some('–'),
        MarkupEvent::Softbreak | MarkupEvent::NonBreakingSpace => Some(' '),
        MarkupEvent::Hardbreak | MarkupEvent::ThematicBreak => Some('\n'),
        _ => None,
    }
}

/// One step of formatting a block: text goes into the last run; a styled
/// span changes the attributes and starts a run, and its end restores the
/// default for what it changed and starts a run; the end of the block
/// drops a trailing empty run.
pub open spec fn format_step(s: FormatState, e: MarkupEvent, defaults: Attrs) -> FormatState {
    if s.done {
        s
    } else if event_char(e) is Some {
        FormatState { runs: append_text(s.runs, s.attrs, seq![event_char(e)->0]), ..s }
    } else {
        match e {
            MarkupEvent::Str(t) => FormatState { runs: append_text(s.runs, s.attrs, t@), ..s },
            MarkupEvent::Symbol(code) => match emoji_for(code@) {
                Some(t) => FormatState { runs: append_text(s.runs, s.attrs, t), ..s },
                None => s,
            },
            MarkupEvent::Start(span) => {
                let a = s.attrs;
                let attrs = match span {
                    InlineSpan::Verbatim => Attrs { family: Family::Monospace, ..a },
                    InlineSpan::Insert => Attrs { color: insert_color(), ..a },
                    InlineSpan::Delete => Attrs { color: delete_color(), ..a },
                    InlineSpan::Mark => Attrs { color: mark_color(), ..a },
                    InlineSpan::Strong => Attrs { weight: Weight(700), ..a },
                    InlineSpan::Emphasis => Attrs { style: Style::Italic, ..a },
                    InlineSpan::Unsupported => a,
                };
                if span == InlineSpan::Unsupported {
                    s
                } else {
                    FormatState { runs: new_run(s.runs, attrs), attrs, done: false }
                }
            },
            MarkupEvent::Highlighted { runs, success } => {
                let added = s.runs + run_views(runs@);
                if success {
                    FormatState { runs: added, attrs: Attrs { family: defaults.family, ..s.attrs }, done: false }
                } else {
                    let attrs = Attrs { family: Family::Monospace, ..s.attrs };
                    FormatState { runs: new_run(added, attrs), attrs, done: false }
                }
            },
            MarkupEvent::HighlightedBlock { runs, success } => FormatState {
                runs: s.runs + run_views(runs@),
                attrs: s.attrs,
                done: success,
            },
            MarkupEvent::End(span) => {
                let a = s.attrs;
                let attrs = match span {
                    InlineSpan::Verbatim => Attrs { family: defaults.family, ..a },
                    InlineSpan::Insert | InlineSpan::Delete | InlineSpan::Mark => Attrs {
                        color: defaults.color,
                        ..a
                    },
                    InlineSpan::Strong => Attrs { weight: defaults.weight, ..a },
                    InlineSpan::Emphasis => Attrs { style: defaults.style, ..a },
                    InlineSpan::Unsupported => a,
                };
                if span == InlineSpan::Unsupported {
                    s
                } else {
                    FormatState { runs: new_run(s.runs, attrs), attrs, done: false }
                }
            },
            MarkupEvent::EndBlock => {
                let runs = append_text(s.runs, s.attrs, Seq::empty());
                FormatState {
                    runs: if runs.last().0.len() == 0 { runs.drop_last() } else { runs },
                    attrs: s.attrs,
                    done: true,
                }
            },
            _ => s,
        }
    }
}

/// A styled span changes one attribute of the text inside it, and its end
/// gives the text after it that attribute's default back, leaving every
/// other attribute as it was before the span: code is monospace, inserted
/// text green, deleted text red, marked text highlighted, strong text bold
/// (700), emphasised text italic. Each start and end begins a new run.
pub proof fn lemma_span_restores(s: FormatState, span: InlineSpan, d: Attrs)
    requires
        !s.done,
        span != InlineSpan::Unsupported,
    ensures
        ({
            let t = format_step(s, MarkupEvent::Start(span), d);
            let u = format_step(t, MarkupEvent::End(span), d);
            &&& !t.done && !u.done
            &&& t.runs == s.runs.push((Seq::<char>::empty(), t.attrs))
            &&& u.runs == t.runs.push((Seq::<char>::empty(), u.attrs))
            &&& span == InlineSpan::Verbatim ==> t.attrs == Attrs { family: Family::Monospace, ..s.attrs }
                && u.attrs == Attrs { family: d.family, ..s.attrs }
            &&& span == InlineSpan::Insert ==> t.attrs == Attrs {
                color: Color32 { r: 0, g: 255, b: 0, a: 255 },
                ..s.attrs
            } && u.attrs == Attrs { color: d.color, ..s.attrs }
            &&& span == InlineSpan::Delete ==> t.attrs == Attrs {
                color: Color32 { r: 255, g: 0, b: 0, a: 255 },
                ..s.attrs
            } && u.attrs == Attrs { color: d.color, ..s.attrs }
            &&& span == InlineSpan::Mark ==> t.attrs == Attrs {
                color: Color32 { r: 61, g: 61, b: 53, a: 12 },
                ..s.attrs
            } && u.attrs == Attrs { color: d.color, ..s.attrs }
            &&& span == InlineSpan::Strong ==> t.attrs == Attrs { weight: Weight(700), ..s.attrs }
                && u.attrs == Attrs { weight: d.weight, ..s.attrs }
            &&& span == InlineSpan::Emphasis ==> t.attrs == Attrs { style: Style::Italic, ..s.attrs }
                && u.attrs == Attrs { style: d.style, ..s.attrs }
        }),
{
}

/// Text after the end of a code span is in the default font family,
/// whatever the state before it.
pub proof fn lemma_code_span_end_restores_family(s: FormatState, d: Attrs)
    requires
        !s.done,
    ensures
        format_step(s, MarkupEvent::End(InlineSpan::Verbatim), d).attrs.family == d.family,
        !format_step(s, MarkupEvent::End(InlineSpan::Verbatim), d).done,
{
}

/// Formats events from position `i` on until the block ends: the state
/// then, and the position after the last event read.
pub open spec fn run_block(s: FormatState, es: Seq<MarkupEvent>, i: int, defaults: Attrs) -> (FormatState, int)
    decreases es.len() - i,
{
    if i < 0 || i >= es.len() {
        (s, i)
    } else {
        let t = format_step(s, es[i], defaults);
        if t.done {
            (t, i + 1)
        } else {
            run_block(t, es, i + 1, defaults)
        }
    }
}

/// The attributes a block starts with.
pub open spec fn block_attrs(kind: BlockKind, defaults: Attrs) -> Attrs {
    if kind == BlockKind::CodeBlock {
        Attrs { family: Family::Monospace, ..defaults }
    } else {
        defaults
    }
}

/// The state a block starts formatting in, after the runs it already has.
pub open spec fn block_start(kind: BlockKind, defaults: Attrs, runs: Seq<(String, Attrs)>) -> FormatState {
    FormatState { runs: run_views(runs), attrs: block_attrs(kind, defaults), done: false }
}

/// Appends text to the last run, starting one with `attrs` if there is none.
fn push_text(runs: &mut Vec<(String, Attrs)>, attrs: &Attrs, t: &str)
    ensures
        run_views(final(runs)@) == append_text(run_views(old(runs)@), *attrs, t@),
{
    if runs.len() == 0 {
        runs.push((String::from_str(t), attrs.clone()));
        assert(run_views(runs@) =~= append_text(run_views(old(runs)@), *attrs, t@));
    } else {
        let last = runs.pop().unwrap();
        let (mut text, a) = last;
        text.append(t);
        runs.push((text, a));
        assert(run_views(runs@) =~= append_text(run_views(old(runs)@), *attrs, t@));
    }
}

/// Starts a new, empty run with `attrs`.
fn start_run(runs: &mut Vec<(String, Attrs)>, attrs: &Attrs)
    ensures
        run_views(final(runs)@) == new_run(run_views(old(runs)@), *attrs),
{
    runs.push((String::new(), attrs.clone()));
    assert(run_views(runs@) =~= new_run(run_views(old(runs)@), *attrs));
}

/// Appends runs, in order.
fn append_runs(runs: &mut Vec<(String, Attrs)>, added: &Vec<(String, Attrs)>)
    ensures
        run_views(final(runs)@) == run_views(old(runs)@) + run_views(added@),
{
    let mut k: usize = 0;
    let ghost base = run_views(runs@);
    assert(added@.take(0) =~= Seq::<(String, Attrs)>::empty());
    assert(run_views(added@.take(0)) =~= Seq::<RunView>::empty());
    assert(base + run_views(added@.take(0)) =~= base);
    while k < added.len()
        invariant
            k <= added@.len(),
            run_views(runs@) == base + run_views(added@.take(k as int)),
            base == run_views(old(runs)@),
        decreases added@.len() - k,
    {
        let (t, a) = &added[k];
        let pair = (t.clone(), a.clone());
        let ghost before = runs@;
        runs.push(pair);
        assert(added@.take(k + 1) =~= added@.take(k as int).push(added@[k as int]));
        assert(runs@ =~= before.push(pair));
        assert(run_views(runs@) =~= run_views(before).push((pair.0@, pair.1)));
        assert(run_views(added@.take(k + 1)) =~= run_views(added@.take(k as int)).push(
            (added@[k as int].0@, added@[k as int].1),
        ));
        k = k + 1;
    }
    assert(added@.take(added@.len() as int) =~= added@);
}

/// Applies one event to the runs and attributes of a block being
/// formatted; returns whether the block ended.
pub(crate) fn apply_event(runs: &mut Vec<(String, Attrs)>, attrs: &mut Attrs, ev: &MarkupEvent, defaults: &Attrs) -> (ended: bool)
    ensures
        run_views(final(runs)@) == format_step(
            FormatState { runs: run_views(old(runs)@), attrs: *old(attrs), done: false },
            *ev,
            *defaults,
        ).runs,
        *final(attrs) == format_step(
            FormatState { runs: run_views(old(runs)@), attrs: *old(attrs), done: false },
            *ev,
            *defaults,
        ).attrs,
        ended == format_step(
            FormatState { runs: run_views(old(runs)@), attrs: *old(attrs), done: false },
            *ev,
            *defaults,
        ).done,
{
    proof {
        reveal_strlit("‘");
        reveal_strlit("“");
        reveal_strlit("’");
        reveal_strlit("”");
        reveal_strlit("…");
        reveal_strlit("—");
        reveal_strlit("–");
        reveal_strlit(" ");
        reveal_strlit("\n");
        reveal_strlit("");
        assert("‘"@ =~= seq!['‘']);
        assert("“"@ =~= seq!['“']);
        assert("’"@ =~= seq!['’']);
        assert("”"@ =~= seq!['”']);
        assert("…"@ =~= seq!['…']);
        assert("—"@ =~= seq!['—']);
        assert("–"@ =~= seq!['–']);
        assert(" "@ =~= seq![' ']);
        assert("\n"@ =~= seq!['\n']);
    }
    match ev {
        MarkupEvent::LeftSingleQuote => push_text(runs, attrs, "‘"),
        MarkupEvent::LeftDoubleQuote => push_text(runs, attrs, "“"),
        MarkupEvent::RightSingleQuote => push_text(runs, attrs, "’"),
        MarkupEvent::RightDoubleQuote => push_text(runs, attrs, "”"),
        MarkupEvent::Ellipsis => push_text(runs, attrs, "…"),
        MarkupEvent::EmDash => push_text(runs, attrs, "—"),
        MarkupEvent::EnDash => push_text(runs, attrs, "–"),
        MarkupEvent::Softbreak | MarkupEvent::NonBreakingSpace => push_text(runs, attrs, " "),
        MarkupEvent::Hardbreak | MarkupEvent::ThematicBreak => push_text(runs, attrs, "\n"),
        MarkupEvent::Str(t) => push_text(runs, attrs, t.as_str()),
        MarkupEvent::Symbol(code) => {
            if let Some(e) = emoji(code.as_str()) {
                push_text(runs, attrs, e.as_str());
            }
        },
        MarkupEvent::Start(span) => {
            match span {
                InlineSpan::Verbatim => attrs.family = Family::Monospace,
                InlineSpan::Insert => attrs.color = Color32 { r: 0, g: 255, b: 0, a: 255 },
                InlineSpan::Delete => attrs.color = Color32 { r: 255, g: 0, b: 0, a: 255 },
                InlineSpan::Mark => attrs.color = Color32 { r: 61, g: 61, b: 53, a: 12 },
                InlineSpan::Strong => attrs.weight = Weight(700),
                InlineSpan::Emphasis => attrs.style = Style::Italic,
                InlineSpan::Unsupported => {},
            }
            if *span != InlineSpan::Unsupported {
                start_run(runs, attrs);
            }
        },
        MarkupEvent::Highlighted { runs: added, success } => {
            append_runs(runs, added);
            if *success {
                attrs.family = defaults.family.clone();
            } else {
                attrs.family = Family::Monospace;
                start_run(runs, attrs);
            }
        },
        MarkupEvent::HighlightedBlock { runs: added, success } => {
            append_runs(runs, added);
            if *success {
                return true;
            }
        },
        MarkupEvent::End(span) => {
            match span {
                InlineSpan::Verbatim => attrs.family = defaults.family.clone(),
                InlineSpan::Insert | InlineSpan::Delete | InlineSpan::Mark => attrs.color =
                    defaults.color,
                InlineSpan::Strong => attrs.weight = defaults.weight,
                InlineSpan::Emphasis => attrs.style = defaults.style,
                InlineSpan::Unsupported => {},
            }
            if *span != InlineSpan::Unsupported {
                start_run(runs, attrs);
            }
        },
        MarkupEvent::EndBlock => {
            push_text(runs, attrs, "");
            assert(run_views(runs@).len() == runs@.len());
            let ghost pushed = run_views(runs@);
            let ghost full = runs@;
            let last = runs.pop().unwrap();
            assert(runs@ =~= full.drop_last());
            assert(run_views(runs@) =~= pushed.drop_last());
            assert(pushed.last() == (last.0@, last.1));
            if last.0.as_str().unicode_len() != 0 {
                runs.push(last);
                assert(runs@ =~= full);
            }
            return true;
        },
        _ => {},
    }
    assert(!format_step(
        FormatState { runs: run_views(old(runs)@), attrs: *old(attrs), done: false },
        *ev,
        *defaults,
    ).done);
    false
}

/// Formats the events of one block, from position `from` on, into runs of
/// text appended to `runs`: typographic events and strings become text,
/// emoji shortcodes their emoji, styled spans change the attributes of the
/// text inside them, and highlighted code adds its runs. Reading stops
/// after the end of the block. Returns the position after the last event
/// read.
pub fn format_block(
    kind: BlockKind,
    events: &Vec<MarkupEvent>,
    from: usize,
    defaults: &Attrs,
    runs: &mut Vec<(String, Attrs)>,
) -> (next: usize)
    requires
        from <= events@.len(),
    ensures
        ({
            let r = run_block(block_start(kind, *defaults, old(runs)@), events@, from as int, *defaults);
            &&& run_views(final(runs)@) == r.0.runs
            &&& next == r.1
        }),
        from <= next <= events@.len(),
        from < events@.len() ==> from < next,
{
    let ghost s0 = block_start(kind, *defaults, runs@);
    let mut attrs = defaults.clone();
    if kind == BlockKind::CodeBlock {
        attrs.family = Family::Monospace;
    }
    let n = events.len();
    let mut i: usize = from;
    while i < n
        invariant
            n == events@.len(),
            from <= i <= n,
            s0 == block_start(kind, *defaults, old(runs)@),
            run_block(s0, events@, from as int, *defaults) == run_block(
                FormatState { runs: run_views(runs@), attrs, done: false },
                events@,
                i as int,
                *defaults,
            ),
        decreases n - i,
    {
        let ended = apply_event(runs, &mut attrs, &events[i], defaults);
        if ended {
            return i + 1;
        }
        i = i + 1;
    }
    n
}

} // verus!
