use vstd::prelude::*;

verus! {

/// A marker in the laid-out text of an object, tying structure to the
/// buffers that hold its lines.
#[derive(Debug, Clone, Copy, PartialEq, Eq, Structural)]
pub enum ResolvedTextTag {
    SectStart,
    SectEnd,
    ListStart,
    ListEnd,
    ListItemStart,
    ListItemEnd,
    ListBodyStart,
    ListBodyEnd,
    BlockquoteStart,
    BlockquoteEnd,
    Paragraph(usize),
    Untagged(usize),
    Code(usize),
    Heading(u16, usize),
    Label(usize),
}

/// A tag with its buffer index moved by `amount`. Paragraphs, untagged
/// runs, headings and labels point at buffers; code tags and structural
/// tags do not move.
pub open spec fn offset_tag(t: ResolvedTextTag, amount: usize) -> ResolvedTextTag {
    match t {
        ResolvedTextTag::Paragraph(i) => ResolvedTextTag::Paragraph((i + amount) as usize),
        ResolvedTextTag::Untagged(i) => ResolvedTextTag::Untagged((i + amount) as usize),
        ResolvedTextTag::Heading(l, i) => ResolvedTextTag::Heading(l, (i + amount) as usize),
        ResolvedTextTag::Label(i) => ResolvedTextTag::Label((i + amount) as usize),
        _ => t,
    }
}

/// The buffer index a tag points at, if it moves with the buffers.
pub open spec fn buffer_index(t: ResolvedTextTag) -> Option<usize> {
    match t {
        ResolvedTextTag::Paragraph(i) => Some(i),
        ResolvedTextTag::Untagged(i) => Some(i),
        ResolvedTextTag::Heading(_, i) => Some(i),
        ResolvedTextTag::Label(i) => Some(i),
        _ => None,
    }
}

impl ResolvedTextTag {
    /// Moves the buffer index of the tag by `amount`, as when the buffers
    /// of one text are appended after those of another.
    pub fn offset(self, amount: usize) -> (r: Self)
        requires
            buffer_index(self) matches Some(i) ==> i + amount <= usize::MAX,
        ensures
            r == offset_tag(self, amount),
    {
        match self {
            ResolvedTextTag::Paragraph(i) => ResolvedTextTag::Paragraph(i + amount),
            ResolvedTextTag::Untagged(i) => ResolvedTextTag::Untagged(i + amount),
            ResolvedTextTag::Heading(l, i) => ResolvedTextTag::Heading(l, i + amount),
            ResolvedTextTag::Label(i) => ResolvedTextTag::Label(i + amount),
            _ => self,
        }
    }
}

/// Offsets add up: moving a tag by `a` and then by `b` moves it by
/// `a + b`.
pub proof fn lemma_offset_compose(t: ResolvedTextTag, a: usize, b: usize)
    requires
        buffer_index(t) matches Some(i) ==> i + a + b <= usize::MAX,
        a + b <= usize::MAX,
    ensures
        offset_tag(offset_tag(t, a), b) == offset_tag(t, (a + b) as usize),
{
}

} // verus!
