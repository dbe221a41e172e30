use vstd::prelude::*;

use crate::positions::{char_range_from_byte_range, lsp_position, SyntaxRange};

verus! {

/// The kind of a folding range.
#[derive(Debug, Clone, Copy, PartialEq, Eq, Structural)]
pub enum FoldingRangeKind {
    Comment,
    Imports,
    Region,
}

/// A region the editor may fold: from a line and character to the end of
/// a line.
#[derive(Debug, Clone, Copy, PartialEq, Eq, Structural)]
pub struct FoldingRange {
    pub start_line: u32,
    pub start_character: Option<u32>,
    pub end_line: u32,
    pub end_character: Option<u32>,
    pub kind: Option<FoldingRangeKind>,
}

/// The fold of one captured span: a region from where the span starts to
/// the line before the one where it ends; `None` where an end of the span
/// is not a position of the rope.
pub open spec fn fold_of(r: ropey::Rope, range: SyntaxRange) -> Option<FoldingRange> {
    match (lsp_position(r, range.start_point), lsp_position(r, range.end_point)) {
        (Some(s), Some(e)) => Some(
            FoldingRange {
                start_line: s.line,
                start_character: Some(s.character),
                end_line: (e.line - 1) as u32,
                end_character: None,
                kind: Some(FoldingRangeKind::Region),
            },
        ),
        _ => None,
    }
}

/// The folds of the first `i` spans; `None` as soon as one has none.
pub open spec fn folds_upto(r: ropey::Rope, ranges: Seq<SyntaxRange>, i: nat) -> Option<Seq<FoldingRange>>
    decreases i,
{
    if i == 0 {
        Some(Seq::empty())
    } else {
        match (folds_upto(r, ranges, (i - 1) as nat), fold_of(r, ranges[i - 1])) {
            (Some(fs), Some(f)) => Some(fs.push(f)),
            _ => None,
        }
    }
}

/// No span whose ends are positions of the rope ends on the first line.
pub open spec fn foldable(r: ropey::Rope, ranges: Seq<SyntaxRange>) -> bool {
    forall|i: int|
        0 <= i < ranges.len() && lsp_position(r, #[trigger] ranges[i].start_point) is Some
            && lsp_position(r, ranges[i].end_point) is Some ==> lsp_position(
            r,
            ranges[i].end_point,
        )->0.line >= 1
}

proof fn lemma_folds_stay_none(r: ropey::Rope, ranges: Seq<SyntaxRange>, m: nat, n: nat)
    requires
        m <= n,
        folds_upto(r, ranges, m) is None,
    ensures
        folds_upto(r, ranges, n) is None,
    decreases n - m,
{
    if m < n {
        lemma_folds_stay_none(r, ranges, m + 1, n);
    }
}

/// Whether `f` folds the span `range` of the rope: from where it starts to
/// the line before the one where it ends, as a region.
pub open spec fn folds_span(r: ropey::Rope, range: SyntaxRange, f: FoldingRange) -> bool {
    &&& lsp_position(r, range.start_point) is Some
    &&& lsp_position(r, range.end_point) is Some
    &&& f.start_line == lsp_position(r, range.start_point)->0.line
    &&& f.start_character == Some(lsp_position(r, range.start_point)->0.character)
    &&& f.end_line == lsp_position(r, range.end_point)->0.line - 1
    &&& f.end_character is None
    &&& f.kind == Some(FoldingRangeKind::Region)
}

/// One fold per span, in order: the folds of the first `n` spans exist
/// exactly when both ends of each of those spans are positions of the
/// rope, and then the `i`-th fold folds the `i`-th span.
pub proof fn lemma_fold_per_span(r: ropey::Rope, ranges: Seq<SyntaxRange>, n: nat)
    requires
        n <= ranges.len(),
        foldable(r, ranges),
    ensures
        folds_upto(r, ranges, n) is Some <==> forall|i: int| 0 <= i < n ==> lsp_position(r, #[trigger] ranges[i].start_point) is Some
            && lsp_position(r, ranges[i].end_point) is Some,
        folds_upto(r, ranges, n) matches Some(v) ==> v.len() == n && forall|i: int| 0 <= i < n ==> folds_span(
            r,
            #[trigger] ranges[i],
            v[i],
        ),
    decreases n,
{
    if n > 0 {
        lemma_fold_per_span(r, ranges, (n - 1) as nat);
        let k = n - 1;
        if lsp_position(r, ranges[k].start_point) is Some && lsp_position(r, ranges[k].end_point) is Some {
            assert(lsp_position(r, ranges[k].end_point)->0.line >= 1);
        }
        if folds_upto(r, ranges, n) is Some {
            let v = folds_upto(r, ranges, n)->0;
            let w = folds_upto(r, ranges, (n - 1) as nat)->0;
            assert(v == w.push(fold_of(r, ranges[k])->0));
            assert forall|i: int| 0 <= i < n implies folds_span(r, #[trigger] ranges[i], v[i]) by {
                if i < k {
                    assert(v[i] == w[i]);
                }
            }
        }
    }
}

/// The folding ranges of a document, from the span of the first capture of
/// each match of the folding query, in order; `None` where an end of a
/// span is not a position of the rope.
pub fn folding_ranges(rope: &ropey::Rope, ranges: &Vec<SyntaxRange>) -> (result: Option<Vec<FoldingRange>>)
    requires
        foldable(*rope, ranges@),
    ensures
        match result {
            Some(v) => folds_upto(*rope, ranges@, ranges@.len()) == Some(v@),
            None => folds_upto(*rope, ranges@, ranges@.len()) is None,
        },
        result matches Some(v) ==> v@.len() == ranges@.len() && forall|i: int|
            0 <= i < ranges@.len() ==> folds_span(*rope, #[trigger] ranges@[i], v@[i]),
        result is None <==> exists|i: int|
            0 <= i < ranges@.len() && !(lsp_position(*rope, #[trigger] ranges@[i].start_point) is Some
                && lsp_position(*rope, ranges@[i].end_point) is Some),
{
    proof {
        lemma_fold_per_span(*rope, ranges@, ranges@.len());
    }
    let mut locations: Vec<FoldingRange> = Vec::new();
    let mut i: usize = 0;
    while i < ranges.len()
        invariant
            i <= ranges.len(),
            foldable(*rope, ranges@),
            folds_upto(*rope, ranges@, i as nat) == Some(locations@),
        decreases ranges.len() - i,
    {
        let range = match char_range_from_byte_range(ranges[i], rope) {
            Ok(r) => r,
            Err(_) => {
                proof {
                    lemma_folds_stay_none(*rope, ranges@, (i + 1) as nat, ranges@.len());
                }
                return None;
            },
        };
        assert(lsp_position(*rope, ranges@[i as int].start_point) is Some);
        locations.push(
            FoldingRange {
                start_line: range.start.line,
                start_character: Some(range.start.character),
                end_line: range.end.line - 1,
                end_character: None,
                kind: Some(FoldingRangeKind::Region),
            },
        );
        i = i + 1;
    }
    Some(locations)
}

/// The folding ranges of a document, where no span whose ends are positions
/// of the rope ends on the first line: `None` where one does, else what
/// `folding_ranges` gives.
pub fn checked_folding_ranges(rope: &ropey::Rope, ranges: &Vec<SyntaxRange>) -> (result: Option<
    Option<Vec<FoldingRange>>,
>)
    ensures
        result is None <==> !foldable(*rope, ranges@),
        result matches Some(t) ==> match t {
            Some(v) => folds_upto(*rope, ranges@, ranges@.len()) == Some(v@),
            None => folds_upto(*rope, ranges@, ranges@.len()) is None,
        },
{
    let mut i: usize = 0;
    while i < ranges.len()
        invariant
            i <= ranges.len(),
            forall|j: int|
                0 <= j < i && lsp_position(*rope, #[trigger] ranges@[j].start_point) is Some
                    && lsp_position(*rope, ranges@[j].end_point) is Some ==> lsp_position(
                    *rope,
                    ranges@[j].end_point,
                )->0.line >= 1,
        decreases ranges.len() - i,
    {
        if let Ok(r) = char_range_from_byte_range(ranges[i], rope) {
            if r.end.line == 0 {
                return None;
            }
        }
        i = i + 1;
    }
    Some(folding_ranges(rope, ranges))
}

} // verus!
