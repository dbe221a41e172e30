use vstd::prelude::*;

use crate::formatting::{edits_view, TextEdit};
use crate::numbering::decimal_text;
use crate::strings::str_eq;
use crate::positions::{char_range_from_byte_range, lsp_position, LspRange, SyntaxRange};

verus! {

/// The kind of a symbol of a document.
#[derive(Debug, Clone, Copy, PartialEq, Eq, Structural)]
pub enum SymbolKind {
    /// A slide.
    Function,
    /// A viewbox.
    Variable,
    /// An object.
    Object,
    /// Actions.
    Array,
}

/// A symbol of a document: its name, kind, span, detail and the span of
/// what names it.
#[derive(Debug)]
pub struct DocumentSymbol {
    pub name: String,
    pub kind: SymbolKind,
    pub range: LspRange,
    pub detail: Option<String>,
    pub selection_range: LspRange,
}

/// A top-level node of a document, with what the symbols read of it.
#[derive(Debug)]
pub enum TopNode {
    /// A slide: its span.
    Slide(SyntaxRange),
    /// A viewbox: its span and, if it has a name node, that node's span,
    /// its text, and the text of the node after it (the name's own text
    /// where there is none).
    Viewbox { range: SyntaxRange, name: Option<(SyntaxRange, String, String)> },
    /// An object: its span, its name node (span and text) if it has one,
    /// and the text of the first node of its details if it has them.
    Object { range: SyntaxRange, name: Option<(SyntaxRange, String)>, detail: Option<String> },
    /// Actions: their span and the span of their first node, if any.
    Actions { range: SyntaxRange, first: Option<SyntaxRange> },
    /// Registers and anything else.
    Other,
}

/// A symbol as its name, kind, span, detail and selection span.
pub type SymbolView = (Seq<char>, SymbolKind, LspRange, Option<Seq<char>>, LspRange);

/// The views of symbols.
pub open spec fn symbol_views(v: Seq<DocumentSymbol>) -> Seq<SymbolView> {
    v.map_values(
        |s: DocumentSymbol|
            (
                s.name@,
                s.kind,
                s.range,
                match s.detail {
                    Some(d) => Some(d@),
                    None => None,
                },
                s.selection_range,
            ),
    )
}

/// The protocol range of a span, if its ends are positions of the rope.
pub open spec fn lsp_range(r: ropey::Rope, s: SyntaxRange) -> Option<LspRange> {
    match (lsp_position(r, s.start_point), lsp_position(r, s.end_point)) {
        (Some(a), Some(b)) => Some(LspRange { start: a, end: b }),
        _ => None,
    }
}

/// The symbol of a top-level node, the number of slides counted before it
/// being `slides`: `Err` where something the symbol needs is missing or
/// not a position of the rope; `Ok(None)` for nodes without a symbol.
/// Slides and actions both count as slides; a slide is named by its
/// number.
pub open spec fn node_symbol(r: ropey::Rope, n: TopNode, slides: nat) -> Result<Option<SymbolView>, ()> {
    match n {
        TopNode::Slide(range) => match lsp_range(r, range) {
            Some(lr) => Ok(
                Some((seq!['S', 'l', 'i', 'd', 'e', ' '] + decimal_text(slides + 1), SymbolKind::Function, lr, None, lr)),
            ),
            None => Err(()),
        },
        TopNode::Viewbox { range, name } => match name {
            Some((nr, text, detail)) => match (lsp_range(r, range), lsp_range(r, nr)) {
                (Some(lr), Some(sr)) => Ok(Some((text@, SymbolKind::Variable, lr, Some(detail@), sr))),
                _ => Err(()),
            },
            None => Err(()),
        },
        TopNode::Object { range, name, detail } => match (name, detail) {
            (Some((nr, text)), Some(d)) => match (lsp_range(r, range), lsp_range(r, nr)) {
                (Some(lr), Some(sr)) => Ok(Some((text@, SymbolKind::Object, lr, Some(d@), sr))),
                _ => Err(()),
            },
            _ => Err(()),
        },
        TopNode::Actions { range, first } => match first {
            Some(f) => match (lsp_range(r, range), lsp_range(r, f)) {
                (Some(lr), Some(sr)) => Ok(
                    Some((seq!['A', 'c', 't', 'i', 'o', 'n', 's'], SymbolKind::Array, lr, None, sr)),
                ),
                _ => Err(()),
            },
            None => Err(()),
        },
        TopNode::Other => Ok(None),
    }
}

/// Whether a node counts as a slide.
pub open spec fn counts_as_slide(n: TopNode) -> bool {
    n is Slide || n is Actions
}

/// The symbols of the first `k` nodes, whether they were all found, and
/// the number of slides among those nodes; the symbols stop at the first
/// node whose symbol is missing.
pub open spec fn symbols_upto(r: ropey::Rope, nodes: Seq<TopNode>, k: nat) -> (Seq<SymbolView>, bool, nat)
    decreases k,
{
    if k == 0 {
        (Seq::empty(), true, 0)
    } else {
        let before = symbols_upto(r, nodes, (k - 1) as nat);
        if !before.1 {
            before
        } else {
            let n = nodes[k - 1];
            let count = if counts_as_slide(n) { before.2 + 1 } else { before.2 };
            match node_symbol(r, n, before.2) {
                Ok(Some(s)) => (before.0.push(s), true, count),
                Ok(None) => (before.0, true, count),
                Err(()) => (before.0, false, count),
            }
        }
    }
}

/// The decimal spelling of a number.
///
/// Calls `ToString::to_string` on a `usize`, which writes it in decimal
/// without leading zeros.
#[verifier::external_body]
fn decimal_string(n: usize) -> (s: String)
    ensures
        s@ == decimal_text(n as nat),
{
    n.to_string()
}

/// The protocol range of a span.
fn range_of(r: &ropey::Rope, s: SyntaxRange) -> (o: Option<LspRange>)
    ensures
        o == lsp_range(*r, s),
{
    match char_range_from_byte_range(s, r) {
        Ok(l) => Some(l),
        Err(_) => None,
    }
}

/// The symbol of one top-level node (see `node_symbol`).
fn symbol_of(current_rope: &ropey::Rope, node: &TopNode, slides: usize) -> (res: Result<Option<DocumentSymbol>, ()>)
    requires
        slides < usize::MAX,
    ensures
        match res {
            Ok(Some(s)) => node_symbol(*current_rope, *node, slides as nat) == Ok::<Option<SymbolView>, ()>(
                Some(symbol_views(seq![s])[0]),
            ),
            Ok(None) => node_symbol(*current_rope, *node, slides as nat) == Ok::<Option<SymbolView>, ()>(None),
            Err(()) => node_symbol(*current_rope, *node, slides as nat) is Err,
        },
{
    match node {
        TopNode::Slide(range) => match range_of(current_rope, *range) {
            Some(lr) => {
                let mut name = String::from_str("Slide ");
                proof {
                    reveal_strlit("Slide ");
                }
                assert("Slide "@ =~= seq!['S', 'l', 'i', 'd', 'e', ' ']);
                let number = decimal_string(slides + 1);
                name.append(number.as_str());
                assert(name@ =~= seq!['S', 'l', 'i', 'd', 'e', ' '] + decimal_text((slides + 1) as nat));
                Ok(Some(DocumentSymbol { name, kind: SymbolKind::Function, range: lr, detail: None, selection_range: lr }))
            },
            None => Err(()),
        },
        TopNode::Viewbox { range, name } => match name {
            Some((nr, text, detail)) => match (range_of(current_rope, *range), range_of(current_rope, *nr)) {
                (Some(lr), Some(sr)) => Ok(
                    Some(
                        DocumentSymbol {
                            name: text.clone(),
                            kind: SymbolKind::Variable,
                            range: lr,
                            detail: Some(detail.clone()),
                            selection_range: sr,
                        },
                    ),
                ),
                _ => Err(()),
            },
            None => Err(()),
        },
        TopNode::Object { range, name, detail } => match (name, detail) {
            (Some((nr, text)), Some(d)) => match (range_of(current_rope, *range), range_of(current_rope, *nr)) {
                (Some(lr), Some(sr)) => Ok(
                    Some(
                        DocumentSymbol {
                            name: text.clone(),
                            kind: SymbolKind::Object,
                            range: lr,
                            detail: Some(d.clone()),
                            selection_range: sr,
                        },
                    ),
                ),
                _ => Err(()),
            },
            _ => Err(()),
        },
        TopNode::Actions { range, first } => match first {
            Some(f) => match (range_of(current_rope, *range), range_of(current_rope, *f)) {
                (Some(lr), Some(sr)) => {
                    proof {
                        reveal_strlit("Actions");
                        assert("Actions"@ =~= seq!['A', 'c', 't', 'i', 'o', 'n', 's']);
                    }
                    Ok(
                        Some(
                            DocumentSymbol {
                                name: String::from_str("Actions"),
                                kind: SymbolKind::Array,
                                range: lr,
                                detail: None,
                                selection_range: sr,
                            },
                        ),
                    )
                },
                _ => Err(()),
            },
            None => Err(()),
        },
        TopNode::Other => Ok(None),
    }
}

/// Appends the symbols of a document's top-level nodes to `symbols`, in
/// order (see `symbols_upto`): `None`, after the symbols of the nodes
/// before it, where a node's symbol is missing.
pub fn document_symbols(current_rope: &ropey::Rope, nodes: &Vec<TopNode>, symbols: &mut Vec<DocumentSymbol>) -> (r: Option<()>)
    ensures
        ({
            let s = symbols_upto(*current_rope, nodes@, nodes@.len());
            &&& symbol_views(final(symbols)@) == symbol_views(old(symbols)@) + s.0
            &&& (r is Some <==> s.1)
        }),
{
    let mut slides: usize = 0;
    let mut i: usize = 0;
    let ghost base = symbol_views(symbols@);
    assert(symbol_views(symbols@) =~= base + Seq::<SymbolView>::empty());
    while i < nodes.len()
        invariant
            i <= nodes@.len(),
            base == symbol_views(old(symbols)@),
            ({
                let s = symbols_upto(*current_rope, nodes@, i as nat);
                &&& s.1
                &&& slides == s.2
                &&& symbol_views(symbols@) == base + s.0
            }),
            slides <= i,
        decreases nodes@.len() - i,
    {
        let node = &nodes[i];
        let ghost before = symbols@;
        match symbol_of(current_rope, node, slides) {
            Ok(Some(s)) => {
                symbols.push(s);
                assert(symbol_views(symbols@) =~= symbol_views(before) + symbol_views(seq![s]));
            },
            Ok(None) => {},
            Err(_) => {
                proof {
                    lemma_symbols_stop(*current_rope, nodes@, (i + 1) as nat, nodes@.len());
                }
                return None;
            },
        }
        if counts_as_slide_exec(node) {
            slides = slides + 1;
        }
        i = i + 1;
    }
    Some(())
}

/// Whether a node counts as a slide.
fn counts_as_slide_exec(n: &TopNode) -> (b: bool)
    ensures
        b == counts_as_slide(*n),
{
    match n {
        TopNode::Slide(_) | TopNode::Actions { .. } => true,
        _ => false,
    }
}

/// Once a symbol is missing, the symbols stay as they were.
proof fn lemma_symbols_stop(r: ropey::Rope, nodes: Seq<TopNode>, m: nat, n: nat)
    requires
        m <= n,
        !symbols_upto(r, nodes, m).1,
    ensures
        symbols_upto(r, nodes, n) == symbols_upto(r, nodes, m),
    decreases n - m,
{
    if m < n {
        lemma_symbols_stop(r, nodes, m + 1, n);
    }
}

/// A node a query matched: its span and what it reads.
#[derive(Debug)]
pub struct MatchedNode {
    pub range: SyntaxRange,
    pub text: String,
}

/// The ranges of the matched nodes that read `target`, in order; `None`
/// where one of them is not a span of the rope.
pub open spec fn matching_ranges(r: ropey::Rope, ms: Seq<MatchedNode>, target: Seq<char>, k: nat) -> Option<Seq<LspRange>>
    decreases k,
{
    if k == 0 {
        Some(Seq::empty())
    } else {
        match matching_ranges(r, ms, target, (k - 1) as nat) {
            None => None,
            Some(before) => if ms[k - 1].text@ == target {
                match lsp_range(r, ms[k - 1].range) {
                    Some(l) => Some(before.push(l)),
                    None => None,
                }
            } else {
                Some(before)
            },
        }
    }
}

proof fn lemma_matching_stays_none(r: ropey::Rope, ms: Seq<MatchedNode>, target: Seq<char>, m: nat, n: nat)
    requires
        m <= n,
        matching_ranges(r, ms, target, m) is None,
    ensures
        matching_ranges(r, ms, target, n) is None,
    decreases n - m,
{
    if m < n {
        lemma_matching_stays_none(r, ms, target, m + 1, n);
    }
}

/// The references of a name: the ranges of the matched nodes that read
/// the same as the node referred to, in order; `None` where one of them is
/// not a span of the rope.
pub fn references(current_rope: &ropey::Rope, matches: &Vec<MatchedNode>, target: &str) -> (r: Option<Vec<LspRange>>)
    ensures
        match r {
            Some(v) => matching_ranges(*current_rope, matches@, target@, matches@.len()) == Some(v@),
            None => matching_ranges(*current_rope, matches@, target@, matches@.len()) is None,
        },
{
    let mut locations: Vec<LspRange> = Vec::new();
    let mut i: usize = 0;
    while i < matches.len()
        invariant
            i <= matches@.len(),
            matching_ranges(*current_rope, matches@, target@, i as nat) == Some(locations@),
        decreases matches@.len() - i,
    {
        if str_eq(matches[i].text.as_str(), target) {
            match range_of(current_rope, matches[i].range) {
                Some(l) => locations.push(l),
                None => {
                    proof {
                        lemma_matching_stays_none(
                            *current_rope,
                            matches@,
                            target@,
                            (i + 1) as nat,
                            matches@.len(),
                        );
                    }
                    return None;
                },
            }
        }
        i = i + 1;
    }
    Some(locations)
}

/// Where a name is declared: the range of the first declaration (of those
/// the query matched, each given by the node of its name) that reads the
/// same as the name used; `None` where there is none or its span is not
/// one of the rope.
pub fn goto_declaration(current_rope: &ropey::Rope, declarations: &Vec<MatchedNode>, usage: &str) -> (r: Option<LspRange>)
    ensures
        ({
            let found = exists|i: int|
                0 <= i < declarations@.len() && declarations@[i].text@ == usage@;
            &&& !found ==> r is None
            &&& found ==> exists|i: int|
                0 <= i < declarations@.len() && declarations@[i].text@ == usage@
                    && (forall|j: int| 0 <= j < i ==> declarations@[j].text@ != usage@)
                    && r == lsp_range(*current_rope, declarations@[i].range)
        }),
{
    let mut i: usize = 0;
    while i < declarations.len()
        invariant
            i <= declarations@.len(),
            forall|j: int| 0 <= j < i ==> declarations@[j].text@ != usage@,
        decreases declarations@.len() - i,
    {
        if str_eq(declarations[i].text.as_str(), usage) {
            return range_of(current_rope, declarations[i].range);
        }
        i = i + 1;
    }
    None
}

/// The span a rename would change: that of the node at the cursor, if it
/// is an identifier and its span is one of the rope.
pub fn prepare_rename(current_rope: &ropey::Rope, node: Option<(SyntaxRange, bool)>) -> (r: Option<LspRange>)
    ensures
        r == match node {
            Some((range, true)) => lsp_range(*current_rope, range),
            _ => None,
        },
{
    match node {
        Some((range, true)) => range_of(current_rope, range),
        _ => None,
    }
}

/// The edits of a rename: each matched node that reads the old name is
/// replaced by the new one, in order.
pub open spec fn rename_edits(ranges: Seq<LspRange>, new_name: Seq<char>) -> Seq<(LspRange, Seq<char>)> {
    ranges.map_values(|l: LspRange| (l, new_name))
}

/// Every matched node that reads `target` spans positions of the rope.
pub open spec fn renamable(r: ropey::Rope, ms: Seq<MatchedNode>, target: Seq<char>) -> bool {
    forall|i: int| 0 <= i < ms.len() && #[trigger] ms[i].text@ == target ==> lsp_range(r, ms[i].range) is Some
}

proof fn lemma_renamable_some(r: ropey::Rope, ms: Seq<MatchedNode>, target: Seq<char>, k: nat)
    requires
        renamable(r, ms, target),
        k <= ms.len(),
    ensures
        matching_ranges(r, ms, target, k) is Some,
    decreases k,
{
    if k > 0 {
        lemma_renamable_some(r, ms, target, (k - 1) as nat);
    }
}

/// Renaming edits exactly the places that `references` finds, in order,
/// each to the new name: where every node that reads the name can be
/// placed, `references` finds them all, and the rename makes one edit per
/// reference, at its range.
pub proof fn lemma_rename_at_references(
    r: ropey::Rope,
    ms: Seq<MatchedNode>,
    target: Seq<char>,
    new_name: Seq<char>,
)
    requires
        renamable(r, ms, target),
    ensures
        matching_ranges(r, ms, target, ms.len()) is Some,
        ({
            let refs = matching_ranges(r, ms, target, ms.len())->0;
            let edits = rename_edits(refs, new_name);
            &&& edits.len() == refs.len()
            &&& forall|i: int| 0 <= i < refs.len() ==> #[trigger] edits[i] == (refs[i], new_name)
        }),
{
    lemma_renamable_some(r, ms, target, ms.len());
}

/// Renames a name: replaces each matched node that reads the same as the
/// node renamed by the new name.
pub fn rename(current_rope: &ropey::Rope, matches: &Vec<MatchedNode>, target: &str, new_name: &str) -> (edits: Vec<TextEdit>)
    requires
        renamable(*current_rope, matches@, target@),
    ensures
        edits_view(edits@) == rename_edits(
            matching_ranges(*current_rope, matches@, target@, matches@.len())->0,
            new_name@,
        ),
{
    proof {
        lemma_renamable_some(*current_rope, matches@, target@, matches@.len());
    }
    let ranges = match references(current_rope, matches, target) {
        Some(v) => v,
        None => Vec::new(),
    };
    let mut edits: Vec<TextEdit> = Vec::new();
    let mut i: usize = 0;
    while i < ranges.len()
        invariant
            i <= ranges@.len(),
            edits_view(edits@) == rename_edits(ranges@.take(i as int), new_name@),
        decreases ranges@.len() - i,
    {
        let ghost before = edits@;
        let e = TextEdit { range: ranges[i], new_text: new_name.to_owned() };
        edits.push(e);
        assert(edits@ =~= before.push(e));
        assert(edits_view(edits@) =~= edits_view(before).push((e.range, e.new_text@)));
        assert(ranges@.take(i + 1) =~= ranges@.take(i as int).push(ranges@[i as int]));
        assert(edits_view(edits@) =~= rename_edits(ranges@.take(i + 1), new_name@));
        i = i + 1;
    }
    assert(ranges@.take(ranges@.len() as int) =~= ranges@);
    edits
}

/// Renames a name where every node that reads it spans positions of the
/// rope: `None` where one does not, else what `rename` gives.
pub fn checked_rename(current_rope: &ropey::Rope, matches: &Vec<MatchedNode>, target: &str, new_name: &str) -> (edits: Option<Vec<TextEdit>>)
    ensures
        edits is None <==> !renamable(*current_rope, matches@, target@),
        edits matches Some(v) ==> edits_view(v@) == rename_edits(
            matching_ranges(*current_rope, matches@, target@, matches@.len())->0,
            new_name@,
        ),
{
    let mut i: usize = 0;
    while i < matches.len()
        invariant
            i <= matches@.len(),
            forall|j: int|
                0 <= j < i && #[trigger] matches@[j].text@ == target@ ==> lsp_range(
                    *current_rope,
                    matches@[j].range,
                ) is Some,
        decreases matches@.len() - i,
    {
        if str_eq(matches[i].text.as_str(), target) && range_of(current_rope, matches[i].range).is_none() {
            return None;
        }
        i = i + 1;
    }
    Some(rename(current_rope, matches, target, new_name))
}

} // verus!
