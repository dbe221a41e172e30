use vstd::prelude::*;

use crate::positions::SyntaxRange;

verus! {

/// The kinds of syntax node the formatter and the parser tell apart.
#[derive(Debug, Clone, Copy, PartialEq, Eq, Structural)]
pub enum NodeKind {
    SourceFile,
    Whitespace,
    Comment,
    Obj,
    ObjInner,
    ObjParam,
    Register,
    Viewbox,
    ViewboxInner,
    ViewboxObj,
    VbRef,
    VbRect,
    VbRectPart,
    IndexParser,
    Slide,
    SlideObjects,
    SlideObj,
    SlideVb,
    EdgeParser,
    Edge,
    Actions,
    SlideFunctions,
    SlideFunction,
    StringLiteral,
    StringContent,
    RawStringContent,
    EscapeSequence,
    NumberLiteral,
    Identifier,
    ObjOther,
    Colon,
    Tilde,
    Pipe,
    RParen,
    Other,
}

/// Whether the grammar builds nodes of a kind out of other nodes, so that
/// such a node always has children.
pub open spec fn is_composite(k: NodeKind) -> bool {
    !(k is Whitespace || k is Comment || k is StringContent || k is RawStringContent
        || k is EscapeSequence || k is NumberLiteral || k is Identifier || k is ObjOther
        || k is Colon || k is Tilde || k is Pipe || k is RParen || k is Other)
}

/// One node of a syntax tree: its kind, its span, its identifier, whether
/// the grammar names it (tokens such as punctuation are anonymous), whether
/// it is extra (a comment, say, that may stand anywhere), whether the parser
/// marked it as an error or inserted it as missing, and its links to its
/// parent, its first child and its next sibling, by index into the tree.
#[derive(Debug, Clone, Copy)]
pub struct SyntaxNode {
    pub kind: NodeKind,
    pub range: SyntaxRange,
    pub id: usize,
    pub named: bool,
    pub extra: bool,
    pub error: bool,
    pub missing: bool,
    pub parent: Option<usize>,
    pub first_child: Option<usize>,
    pub next_sibling: Option<usize>,
}

/// Whether the parser marked a node as an error or inserted it as missing.
pub open spec fn is_broken(n: SyntaxNode) -> bool {
    n.error || n.missing
}

/// A syntax tree, its nodes stored in an arena; the root is the first.
pub struct SyntaxTree {
    pub nodes: Vec<SyntaxNode>,
}

/// Whether the links of node `i` are those of a tree stored in pre-order:
/// its first child and its next sibling come after it, the child has it as
/// parent, the sibling shares its parent, its parent comes before it, and
/// a composite node has a child.
pub open spec fn links_ok(ns: Seq<SyntaxNode>, i: int) -> bool {
    &&& (ns[i].first_child matches Some(c) ==> i < c < ns.len() && ns[c as int].parent == Some(
        i as usize,
    ))
    &&& (ns[i].next_sibling matches Some(n) ==> i < n < ns.len() && ns[n as int].parent
        == ns[i].parent)
    &&& (ns[i].parent matches Some(p) ==> p < i)
    &&& (is_composite(ns[i].kind) ==> ns[i].first_child is Some)
}

/// Whether the nodes form a tree the formatter can walk.
pub open spec fn tree_wf(ns: Seq<SyntaxNode>) -> bool {
    &&& ns.len() > 0
    &&& forall|i: int| 0 <= i < ns.len() ==> #[trigger] links_ok(ns, i)
}

/// Whether a kind is built of other nodes.
fn composite(k: NodeKind) -> (b: bool)
    ensures
        b == is_composite(k),
{
    match k {
        NodeKind::Whitespace | NodeKind::Comment | NodeKind::StringContent
        | NodeKind::RawStringContent | NodeKind::EscapeSequence | NodeKind::NumberLiteral
        | NodeKind::Identifier | NodeKind::ObjOther | NodeKind::Colon | NodeKind::Tilde
        | NodeKind::Pipe | NodeKind::RParen | NodeKind::Other => false,
        _ => true,
    }
}

impl SyntaxTree {
    /// The nodes, as a sequence.
    pub open spec fn view_nodes(&self) -> Seq<SyntaxNode> {
        self.nodes@
    }

    /// Whether the tree is one the formatter can walk (see `tree_wf`).
    pub fn is_well_formed(&self) -> (b: bool)
        ensures
            b == tree_wf(self.nodes@),
    {
        let n = self.nodes.len();
        if n == 0 {
            return false;
        }
        let mut i: usize = 0;
        while i < n
            invariant
                n == self.nodes@.len(),
                i <= n,
                forall|j: int| 0 <= j < i ==> #[trigger] links_ok(self.nodes@, j),
            decreases n - i,
        {
            let node = self.nodes[i];
            let child_ok = match node.first_child {
                Some(c) => i < c && c < n && self.nodes[c].parent == Some(i),
                None => !composite(node.kind),
            };
            let sibling_ok = match node.next_sibling {
                Some(s) => i < s && s < n && self.nodes[s].parent == node.parent,
                None => true,
            };
            let parent_ok = match node.parent {
                Some(p) => p < i,
                None => true,
            };
            if !(child_ok && sibling_ok && parent_ok) {
                assert(!links_ok(self.nodes@, i as int));
                return false;
            }
            assert(links_ok(self.nodes@, i as int));
            i = i + 1;
        }
        true
    }
}

} // verus!
