use vstd::prelude::*;

use crate::markup::{run_views, RunView};
use crate::rope::{len_bytes, rope_byte_count, rope_span_text, span_text};
use crate::sections::TextParagraph;
use crate::text::{modified, Attrs, Modifier};

verus! {

/// One event of a syntax highlighter: the byte offset where it happens,
/// whether it drops the highlights in force, and the highlights it adds,
/// each by its index into the theme.
pub struct HighlightEvent {
    pub offset: u32,
    pub refresh: bool,
    pub highlights: Vec<usize>,
}

/// An event as its offset, whether it refreshes, and its highlights.
pub type EventView = (u32, bool, Seq<usize>);

/// The views of events.
pub open spec fn event_views(v: Seq<HighlightEvent>) -> Seq<EventView> {
    v.map_values(|e: HighlightEvent| (e.offset, e.refresh, e.highlights@))
}

/// A theme: for each highlight, the modifiers it applies.
pub open spec fn theme_view(v: Seq<Vec<Modifier>>) -> Seq<Seq<Modifier>> {
    v.map_values(|m: Vec<Modifier>| m@)
}

/// The attributes after each of a list of modifiers in turn.
pub open spec fn with_modifiers(a: Attrs, mods: Seq<Modifier>) -> Attrs
    decreases mods.len(),
{
    if mods.len() == 0 {
        a
    } else {
        modified(with_modifiers(a, mods.drop_last()), mods.last())
    }
}

/// The attributes under the highlights in force: the theme's modifiers of
/// each highlight applied in turn, oldest highlight first.
pub open spec fn highlighted(a: Attrs, stack: Seq<usize>, theme: Seq<Seq<Modifier>>) -> Attrs
    decreases stack.len(),
{
    if stack.len() == 0 {
        a
    } else {
        with_modifiers(highlighted(a, stack.drop_last(), theme), theme[stack.last() as int])
    }
}

/// The offset of the highlighter's next event; the largest offset once
/// there are none.
pub open spec fn next_offset(events: Seq<EventView>, k: int) -> u32 {
    if 0 <= k < events.len() {
        events[k].0
    } else {
        u32::MAX
    }
}

/// The text of the bytes from `start` to `end` of the rope, if they are a
/// span of it.
pub open spec fn bytes_text(r: ropey::Rope, start: u32, end: u32) -> Option<Seq<char>> {
    rope_span_text(r, start as int, end as int)
}

/// Highlighting from byte `pos` on, the events before the `k`-th taken and
/// `stack` in force: where `pos` is the offset of the next event, that
/// event is taken (a refresh replaces the highlights in force, any other
/// event adds to them); then the text up to the next event (or to the end
/// of the text, `len`) becomes a run with the attributes of the
/// highlights in force. The flag is `false` where the events go backwards
/// or a run's bytes are not a span of the text.
pub open spec fn highlight_from(
    r: ropey::Rope,
    len: u32,
    events: Seq<EventView>,
    theme: Seq<Seq<Modifier>>,
    defaults: Attrs,
    pos: u32,
    k: int,
    stack: Seq<usize>,
    runs: Seq<RunView>,
) -> (bool, Seq<RunView>)
    decreases u32::MAX - pos, events.len() - k,
{
    if pos >= len {
        (true, runs)
    } else {
        let taken = 0 <= k < events.len() && pos == events[k].0;
        let k1 = if taken {
            k + 1
        } else {
            k
        };
        let stack1 = if taken {
            if events[k].1 {
                events[k].2
            } else {
                stack + events[k].2
            }
        } else {
            stack
        };
        let next = next_offset(events, k1);
        let pos1: u32 = if next == u32::MAX {
            len
        } else {
            next
        };
        if pos1 == pos {
            highlight_from(r, len, events, theme, defaults, pos1, k1, stack1, runs)
        } else if pos1 < pos {
            (false, runs)
        } else {
            match bytes_text(r, pos, pos1) {
                None => (false, runs),
                Some(t) => highlight_from(
                    r,
                    len,
                    events,
                    theme,
                    defaults,
                    pos1,
                    k1,
                    stack1,
                    runs.push((t, highlighted(defaults, stack1, theme))),
                ),
            }
        }
    }
}

/// Whether every highlight of every event has a place in the theme.
pub open spec fn highlights_in_theme(events: Seq<EventView>, theme_len: int) -> bool {
    forall|i: int, j: int|
        0 <= i < events.len() && 0 <= j < events[i].2.len() ==> #[trigger] events[i].2[j]
            < theme_len
}

/// Applies modifiers in turn.
fn apply_modifiers(attrs: &mut Attrs, mods: &Vec<Modifier>)
    ensures
        *final(attrs) == with_modifiers(*old(attrs), mods@),
{
    let ghost a0 = *attrs;
    let mut i: usize = 0;
    assert(mods@.take(0) =~= Seq::<Modifier>::empty());
    while i < mods.len()
        invariant
            i <= mods.len(),
            *attrs == with_modifiers(a0, mods@.take(i as int)),
        decreases mods.len() - i,
    {
        assert(mods@.take(i + 1).drop_last() =~= mods@.take(i as int));
        attrs.apply_modifier(mods[i]);
        i = i + 1;
    }
    assert(mods@.take(mods.len() as int) =~= mods@);
}

/// Applies the theme's modifiers of each highlight in force, in turn.
fn apply_highlights(attrs: &mut Attrs, stack: &Vec<usize>, theme: &Vec<Vec<Modifier>>)
    requires
        forall|j: int| 0 <= j < stack.len() ==> #[trigger] stack[j] < theme.len(),
    ensures
        *final(attrs) == highlighted(*old(attrs), stack@, theme_view(theme@)),
{
    let ghost a0 = *attrs;
    let mut i: usize = 0;
    assert(stack@.take(0) =~= Seq::<usize>::empty());
    while i < stack.len()
        invariant
            i <= stack.len(),
            forall|j: int| 0 <= j < stack.len() ==> #[trigger] stack[j] < theme.len(),
            *attrs == highlighted(a0, stack@.take(i as int), theme_view(theme@)),
        decreases stack.len() - i,
    {
        assert(stack@.take(i + 1).drop_last() =~= stack@.take(i as int));
        apply_modifiers(attrs, &theme[stack[i]]);
        i = i + 1;
    }
    assert(stack@.take(stack.len() as int) =~= stack@);
}

/// Turns highlighted code into runs of the paragraph (see
/// `highlight_from`): `value` is the code, `events` what the highlighter
/// reports on it, `theme` the modifiers of each highlight. Whether it
/// succeeded; the runs made before a failure stay.
pub fn format_highlighted(
    value: &ropey::Rope,
    events: &Vec<HighlightEvent>,
    theme: &Vec<Vec<Modifier>>,
    default_attrs: &Attrs,
    paragraph: &mut TextParagraph,
) -> (ok: bool)
    requires
        highlights_in_theme(event_views(events@), theme.len() as int),
    ensures
        ({
            let (b, runs) = highlight_from(
                *value,
                rope_byte_count(*value) as u32,
                event_views(events@),
                theme_view(theme@),
                *default_attrs,
                0,
                0,
                Seq::empty(),
                Seq::empty(),
            );
            &&& ok == b
            &&& run_views(final(paragraph).rich_text@) == run_views(old(paragraph).rich_text@)
                + runs
        }),
        final(paragraph).heading_level == old(paragraph).heading_level,
{
    let ghost evs = event_views(events@);
    let ghost th = theme_view(theme@);
    let ghost before = run_views(paragraph.rich_text@);
    let len = len_bytes(value) as u32;
    let mut pos: u32 = 0;
    let mut k: usize = 0;
    let mut stack: Vec<usize> = Vec::new();
    let ghost mut added: Seq<RunView> = Seq::empty();
    let ghost target = highlight_from(*value, len, evs, th, *default_attrs, 0, 0, Seq::empty(), Seq::empty());
    assert(before + added =~= before);
    while pos < len
        invariant
            k <= events.len(),
            evs == event_views(events@),
            th == theme_view(theme@),
            len == rope_byte_count(*value) as u32,
            highlights_in_theme(evs, theme.len() as int),
            forall|j: int| 0 <= j < stack.len() ==> #[trigger] stack[j] < theme.len(),
            run_views(paragraph.rich_text@) == before + added,
            paragraph.heading_level == old(paragraph).heading_level,
            target == highlight_from(*value, len, evs, th, *default_attrs, pos, k as int, stack@, added),
            target == highlight_from(
                *value,
                rope_byte_count(*value) as u32,
                event_views(events@),
                theme_view(theme@),
                *default_attrs,
                0,
                0,
                Seq::empty(),
                Seq::empty(),
            ),
            before == run_views(old(paragraph).rich_text@),
        decreases u32::MAX - pos, events.len() - k,
    {
        let ghost pos0 = pos;
        let ghost k0 = k as int;
        let ghost stack0 = stack@;
        let taken = k < events.len() && pos == events[k].offset;
        if taken {
            if events[k].refresh {
                stack = Vec::new();
            }
            let hs = &events[k].highlights;
            let mut j: usize = 0;
            let ghost base = stack@;
            assert(base + hs@.take(0) =~= base);
            while j < hs.len()
                invariant
                    j <= hs.len(),
                    k < events.len(),
                    hs == events[k as int].highlights,
                    highlights_in_theme(evs, theme.len() as int),
                    evs == event_views(events@),
                    forall|i: int| 0 <= i < base.len() ==> #[trigger] base[i] < theme.len(),
                    stack@ == base + hs@.take(j as int),
                decreases hs.len() - j,
            {
                assert(evs[k as int].2[j as int] == hs@[j as int]);
                assert(hs@.take(j + 1) =~= hs@.take(j as int).push(hs@[j as int]));
                stack.push(hs[j]);
                j = j + 1;
            }
            assert(hs@.take(hs.len() as int) =~= hs@);
            k = k + 1;
        }
        assert(taken ==> stack@ == (if evs[k0].1 {
            evs[k0].2
        } else {
            stack0 + evs[k0].2
        }));
        let start = pos;
        pos = if k < events.len() {
            events[k].offset
        } else {
            u32::MAX
        };
        if pos == u32::MAX {
            pos = len;
        }
        proof {
            let taken_s = 0 <= k0 < evs.len() && pos0 == evs[k0].0;
            assert(taken == taken_s);
            let next = next_offset(evs, k as int);
            assert(pos == (if next == u32::MAX { len } else { next }));
        }
        if pos == start {
            continue;
        }
        if pos < start {
            assert(target == (false, added));
            return false;
        }
        let mut attrs = default_attrs.clone();
        apply_highlights(&mut attrs, &stack, theme);
        let text = match span_text(value, start as usize, pos as usize) {
            Some(t) => t,
            None => {
                assert(target == (false, added));
                return false;
            },
        };
        let ghost prev = paragraph.rich_text@;
        let ghost run: RunView = (text@, attrs);
        paragraph.rich_text.push((text, attrs));
        proof {
            assert(run_views(paragraph.rich_text@) =~= run_views(prev).push(run));
            added = added.push(run);
            assert(run_views(paragraph.rich_text@) =~= before + added);
        }
    }
    assert(added =~= target.1);
    true
}

} // verus!
