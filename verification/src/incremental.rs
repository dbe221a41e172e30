use vstd::prelude::*;

use crate::navigation::FileOwnerMessage;
use crate::slide::{carried_over, has_key, keys_distinct, shown_in, Slide};

verus! {

/// The top-level node of the document that an edit ended in, with what
/// identifies it (`None` where that could not be read).
#[derive(Debug, Clone)]
pub enum EditTarget {
    /// A slide, by the identifier of its node.
    Slide(Option<u64>),
    /// A viewbox definition, by its name.
    Viewbox(Option<String>),
    /// An object definition, by its name.
    Object(Option<String>),
    /// Anything else.
    Other,
}

/// Whether some object of the slide is placed in the named viewbox.
pub open spec fn slide_uses(s: Slide, name: Seq<char>) -> bool {
    exists|i: int| 0 <= i < s.entries().len() && shown_in(#[trigger] s.entries()[i].1, name)
}

/// Whether the slide holds an object of that name that is entering or on
/// screen.
pub open spec fn slide_shows(s: Slide, name: Seq<char>) -> bool {
    exists|i: int|
        0 <= i < s.entries().len() && #[trigger] s.entries()[i].0 == name && carried_over(
            s.entries()[i].1,
        )
}

/// Whether the slide at position `i` is one the edit concerns.
pub open spec fn concerns(slides: Seq<(u64, Slide)>, target: EditTarget, i: int) -> bool {
    match target {
        EditTarget::Slide(Some(id)) => slides[i].0 == id,
        EditTarget::Viewbox(Some(name)) => slide_uses(slides[i].1, name@),
        EditTarget::Object(Some(name)) => has_key(slides[i].1.entries(), name@),
        _ => false,
    }
}

/// Whether the edit concerns the slide being shown, so that it stays.
pub open spec fn concerns_current(slides: Seq<(u64, Slide)>, target: EditTarget, current: int) -> bool {
    match target {
        EditTarget::Viewbox(Some(name)) => slide_uses(slides[current].1, name@),
        EditTarget::Object(Some(name)) => slide_shows(slides[current].1, name@),
        _ => false,
    }
}

/// Whether `i` is the first position of a slide the edit concerns.
pub open spec fn first_concerned(slides: Seq<(u64, Slide)>, target: EditTarget, i: int) -> bool {
    &&& 0 <= i < slides.len()
    &&& concerns(slides, target, i)
    &&& forall|j: int| 0 <= j < i ==> !concerns(slides, target, j)
}

/// Whether the target names what it stands for.
pub open spec fn identified(target: EditTarget) -> bool {
    match target {
        EditTarget::Slide(id) => id is Some,
        EditTarget::Viewbox(name) => name is Some,
        EditTarget::Object(name) => name is Some,
        EditTarget::Other => false,
    }
}

/// Whether the slide at position `i` is one the edit concerns.
fn concerns_slide(slides: &Vec<(u64, Slide)>, target: &EditTarget, i: usize) -> (r: bool)
    requires
        i < slides@.len(),
    ensures
        r == concerns(slides@, *target, i as int),
{
    match target {
        EditTarget::Slide(Some(id)) => slides[i].0 == *id,
        EditTarget::Viewbox(Some(name)) => slides[i].1.uses_viewbox(name),
        EditTarget::Object(Some(name)) => slides[i].1.object(name.as_str()).is_some(),
        _ => false,
    }
}

/// The slide to show after an edit: the current one where the edit
/// concerns it (a viewbox it places objects in, or an object it shows),
/// else the first slide the edit concerns; `None` where the edit concerns
/// no slide, the target is not identified, or (for viewboxes and objects)
/// the current slide does not exist.
pub fn find_slide_index_for_edit(
    slides: &Vec<(u64, Slide)>,
    target: &EditTarget,
    current_index: usize,
) -> (r: Option<usize>)
    requires
        forall|i: int| 0 <= i < slides@.len() ==> keys_distinct(#[trigger] slides@[i].1.entries()),
    ensures
        !identified(*target) ==> r is None,
        identified(*target) && !(target is Slide) && current_index >= slides@.len() ==> r is None,
        identified(*target) && !(target is Slide) && current_index < slides@.len() && concerns_current(
            slides@,
            *target,
            current_index as int,
        ) ==> r == Some(current_index),
        identified(*target) && (target is Slide || (current_index < slides@.len()
            && !concerns_current(slides@, *target, current_index as int))) ==> match r {
            Some(i) => first_concerned(slides@, *target, i as int),
            None => forall|j: int| 0 <= j < slides@.len() ==> !concerns(slides@, *target, j),
        },
{
    match target {
        EditTarget::Slide(None) | EditTarget::Viewbox(None) | EditTarget::Object(None)
        | EditTarget::Other => return None,
        EditTarget::Slide(Some(_)) => {},
        EditTarget::Viewbox(Some(name)) => {
            if current_index >= slides.len() {
                return None;
            }
            if slides[current_index].1.uses_viewbox(name) {
                return Some(current_index);
            }
        },
        EditTarget::Object(Some(name)) => {
            if current_index >= slides.len() {
                return None;
            }
            match slides[current_index].1.object(name.as_str()) {
                Some(obj) => {
                    proof {
                        let e = slides@[current_index as int].1.entries();
                        let k = choose|k: int| 0 <= k < e.len() && e[k].0 == name@ && e[k].1 == *obj;
                        assert forall|m: int|
                            0 <= m < e.len() && #[trigger] e[m].0 == name@ implies m == k by {
                            assert(keys_distinct(e));
                        }
                    }
                    if obj.positions.state == crate::slide::ObjState::Entering
                        || obj.positions.state == crate::slide::ObjState::OnScreen {
                        return Some(current_index);
                    }
                },
                None => {},
            }
        },
    }
    let mut i: usize = 0;
    while i < slides.len()
        invariant
            i <= slides@.len(),
            identified(*target),
            target is Slide || (current_index < slides@.len() && !concerns_current(
                slides@,
                *target,
                current_index as int,
            )),
            forall|j: int| 0 <= j < i ==> !concerns(slides@, *target, j),
        decreases slides.len() - i,
    {
        if concerns_slide(slides, target, i) {
            return Some(i);
        }
        i = i + 1;
    }
    None
}

/// The sum of identifiers, wrapping around past `usize::MAX`.
pub open spec fn wrapping_sum(ids: Seq<usize>) -> int
    decreases ids.len(),
{
    if ids.len() == 0 {
        0
    } else {
        let s = wrapping_sum(ids.drop_last()) + ids.last();
        if s > usize::MAX {
            s - (usize::MAX + 1)
        } else {
            s
        }
    }
}

/// The identifier a slide is known by: the sum, wrapping around, of the
/// identifiers of its first `depth` named children (zero where it has
/// none).
pub fn slide_node_id(child_ids: &Vec<usize>, depth: usize) -> (id: u64)
    ensures
        id == wrapping_sum(child_ids@.take(if depth < child_ids@.len() { depth as int } else { child_ids@.len() as int })),
{
    let n = if depth < child_ids.len() { depth } else { child_ids.len() };
    let mut id: usize = 0;
    let mut k: usize = 0;
    assert(child_ids@.take(0) =~= Seq::<usize>::empty());
    while k < n
        invariant
            n <= child_ids@.len(),
            k <= n,
            id == wrapping_sum(child_ids@.take(k as int)),
        decreases n - k,
    {
        assert(child_ids@.take(k + 1).drop_last() =~= child_ids@.take(k as int));
        id = id.wrapping_add(child_ids[k]);
        k = k + 1;
    }
    id as u64
}

/// How one change of a document went: whether the document parsed after
/// it, whether the parse found errors, and the slide its first edit falls
/// in, where one was found.
#[derive(Debug, Clone, Copy, PartialEq, Eq, Structural)]
pub struct ChangeOutcome {
    pub parsed: bool,
    pub has_errors: bool,
    pub edited_slide: Option<usize>,
}

/// What happened to a document, as the language server learns it.
#[derive(Debug, Clone)]
pub enum DocumentEvent {
    /// The editor opened it; whether it parsed with errors (`None`: it
    /// did not parse).
    Opened { parsed_with_errors: Option<bool> },
    /// It was saved, or changed on disk; likewise.
    Saved { parsed_with_errors: Option<bool> },
    /// The editor changed it, one change after another.
    Changed { outcomes: Vec<ChangeOutcome> },
}

/// The slide shown after changes, from `current`: each change that parsed
/// moves to the slide its first edit falls in, where one was found.
pub open spec fn slide_after_changes(current: usize, outcomes: Seq<ChangeOutcome>) -> usize
    decreases outcomes.len(),
{
    if outcomes.len() == 0 {
        current
    } else {
        let before = slide_after_changes(current, outcomes.drop_last());
        let o = outcomes.last();
        if o.parsed && o.edited_slide is Some {
            o.edited_slide->0
        } else {
            before
        }
    }
}

/// Whether some change parsed with errors.
pub open spec fn changes_have_errors(outcomes: Seq<ChangeOutcome>) -> bool {
    exists|i: int| 0 <= i < outcomes.len() && #[trigger] outcomes[i].parsed && outcomes[i].has_errors
}

/// The server's reaction to what happened to a document, from the slide
/// shown: the slide it now follows, and the message it sends the viewer.
/// An opened document that parsed cleanly starts at the first slide; a
/// saved one that parsed cleanly shows the current slide again; both
/// restart the clock. After changes the server follows the slide edited
/// last and, unless a change parsed with errors, shows it without
/// restarting the clock.
pub open spec fn reaction_to(current: usize, event: DocumentEvent) -> (usize, Option<FileOwnerMessage>) {
    match event {
        DocumentEvent::Opened { parsed_with_errors } => (
            current,
            if parsed_with_errors == Some(false) {
                Some(FileOwnerMessage::Index { index: 0, reset_time: true })
            } else {
                None
            },
        ),
        DocumentEvent::Saved { parsed_with_errors } => (
            current,
            if parsed_with_errors == Some(false) {
                Some(FileOwnerMessage::Index { index: current, reset_time: true })
            } else {
                None
            },
        ),
        DocumentEvent::Changed { outcomes } => {
            let index = slide_after_changes(current, outcomes@);
            (
                index,
                if changes_have_errors(outcomes@) {
                    None
                } else {
                    Some(FileOwnerMessage::Index { index, reset_time: false })
                },
            )
        },
    }
}

/// Decides the server's reaction to what happened to a document (see
/// `reaction_to`).
pub fn react_to_document(current: usize, event: &DocumentEvent) -> (r: (usize, Option<FileOwnerMessage>))
    ensures
        r == reaction_to(current, *event),
{
    match event {
        DocumentEvent::Opened { parsed_with_errors } => (
            current,
            if *parsed_with_errors == Some(false) {
                Some(FileOwnerMessage::Index { index: 0, reset_time: true })
            } else {
                None
            },
        ),
        DocumentEvent::Saved { parsed_with_errors } => (
            current,
            if *parsed_with_errors == Some(false) {
                Some(FileOwnerMessage::Index { index: current, reset_time: true })
            } else {
                None
            },
        ),
        DocumentEvent::Changed { outcomes } => {
            let mut index = current;
            let mut has_errors = false;
            let mut i: usize = 0;
            while i < outcomes.len()
                invariant
                    i <= outcomes.len(),
                    index == slide_after_changes(current, outcomes@.take(i as int)),
                    has_errors == changes_have_errors(outcomes@.take(i as int)),
                decreases outcomes.len() - i,
            {
                let o = outcomes[i];
                assert(outcomes@.take(i + 1).drop_last() =~= outcomes@.take(i as int));
                if o.parsed {
                    match o.edited_slide {
                        Some(e) => index = e,
                        None => {},
                    }
                    if o.has_errors {
                        has_errors = true;
                    }
                }
                proof {
                    let t = outcomes@.take(i + 1);
                    if changes_have_errors(t) {
                        let w = choose|j: int| 0 <= j < t.len() && #[trigger] t[j].parsed && t[j].has_errors;
                        if w < i {
                            assert(outcomes@.take(i as int)[w].parsed);
                        }
                    }
                    if has_errors && !(o.parsed && o.has_errors) {
                        let w = choose|j: int|
                            0 <= j < outcomes@.take(i as int).len()
                                && #[trigger] outcomes@.take(i as int)[j].parsed
                                && outcomes@.take(i as int)[j].has_errors;
                        assert(t[w].parsed);
                    }
                    if o.parsed && o.has_errors {
                        assert(t[i as int].parsed);
                    }
                }
                i = i + 1;
            }
            assert(outcomes@.take(outcomes.len() as int) =~= outcomes@);
            let message = if has_errors {
                None
            } else {
                Some(FileOwnerMessage::Index { index, reset_time: false })
            };
            (index, message)
        },
    }
}

} // verus!
