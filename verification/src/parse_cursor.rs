use vstd::prelude::*;

use crate::cursor::text_of;
use crate::positions::{char_position, Point, SourceRange, SyntaxRange};
use crate::rope::{rope_span_text, span_text};
use crate::source::{CharRange, StringLiteral};
use crate::incremental::{slide_node_id, wrapping_sum};
use crate::syntax::{is_broken, links_ok, tree_wf, NodeKind, SyntaxNode, SyntaxTree};

verus! {

/// What the parser reports when its cursor runs into a node it cannot
/// read.
#[derive(Debug, Clone)]
pub enum CursorError {
    /// A node the parser marked as an error: "Something is wrong here".
    Syntax(CharRange),
    /// A node the parser inserted as missing: "Something is missing here".
    Missing(CharRange),
    /// Children were asked of a node of another kind than expected: "A bug
    /// in the parser was caught here".
    BadNode(CharRange, NodeKind),
}

/// The lines and characters of a span, if both its ends are positions of
/// the rope.
pub open spec fn char_range_at(r: ropey::Rope, range: SyntaxRange) -> Option<CharRange> {
    let s = char_position(r, range.start_point.row as usize, range.start_point.col as usize);
    let e = char_position(r, range.end_point.row as usize, range.end_point.col as usize);
    match (s, e) {
        (Ok(s), Ok(e)) => Some(
            CharRange {
                start_line: s.0,
                start_character: s.1,
                end_line: e.0,
                end_character: e.1,
                byte_range: core::ops::Range {
                    start: range.start_byte as usize,
                    end: range.end_byte as usize,
                },
            },
        ),
        _ => None,
    }
}

/// What the cursor reports on landing on a broken node: an error, or a
/// missing node, where its span can be placed (nothing where it cannot).
pub open spec fn broken_report(r: ropey::Rope, n: SyntaxNode) -> Seq<CursorError> {
    match char_range_at(r, n.range) {
        Some(c) => seq![
            if n.error {
                CursorError::Syntax(c)
            } else {
                CursorError::Missing(c)
            },
        ],
        None => Seq::empty(),
    }
}

/// What the cursor reports when children are asked of a node of another
/// kind than expected.
pub open spec fn bad_node_report(r: ropey::Rope, n: SyntaxNode) -> Seq<CursorError> {
    match char_range_at(r, n.range) {
        Some(c) => seq![CursorError::BadNode(c, n.kind)],
        None => Seq::empty(),
    }
}

/// Whether the cursor stops at a node: one that is not extra and, unless
/// `raw`, that the grammar names.
pub open spec fn stops_at(n: SyntaxNode, raw: bool) -> bool {
    !n.extra && (raw || n.named)
}

/// How a walk along siblings ended.
#[derive(Debug, Clone, Copy, PartialEq, Eq, Structural)]
pub enum ScanEnd {
    /// On a node the parser marked as broken.
    Broken,
    /// On a node the cursor stops at.
    Stopped,
    /// On the last sibling, without stopping.
    RanOut,
}

/// A walk along the siblings from node `i` on: each node met is checked
/// first (a broken one ends the walk), and the walk ends at the first
/// node the cursor stops at; the node where it ended.
pub open spec fn scan(t: Seq<SyntaxNode>, i: usize, raw: bool) -> (ScanEnd, usize)
    decreases t.len() - i,
    when tree_wf(t) && i < t.len()
{
    if is_broken(t[i as int]) {
        (ScanEnd::Broken, i)
    } else if stops_at(t[i as int], raw) {
        (ScanEnd::Stopped, i)
    } else {
        match t[i as int].next_sibling {
            None => (ScanEnd::RanOut, i),
            Some(n) => {
                proof {
                    assert(links_ok(t, i as int));
                }
                scan(t, n, raw)
            },
        }
    }
}

/// Whether a node or one of the siblings after it is named.
pub open spec fn named_from(t: Seq<SyntaxNode>, i: usize) -> bool
    decreases t.len() - i,
    when tree_wf(t) && i < t.len()
{
    if t[i as int].named {
        true
    } else {
        match t[i as int].next_sibling {
            None => false,
            Some(n) => {
                proof {
                    assert(links_ok(t, i as int));
                }
                named_from(t, n)
            },
        }
    }
}

/// A walk of a cursor with root `root` from node `at`, taking up to `n`
/// nodes: each node's identifier is taken, then the cursor moves to the
/// next named sibling that is not extra; the walk ends after `n` nodes or
/// where no such sibling is left. The identifiers taken, and the broken
/// node that stopped the walk with an error, if any.
pub open spec fn sibling_walk(t: Seq<SyntaxNode>, root: usize, at: usize, n: nat) -> (Seq<usize>, Option<usize>)
    decreases n,
{
    if n == 0 {
        (Seq::empty(), None)
    } else {
        let here = t[at as int].id;
        if at == root || t[at as int].next_sibling is None {
            (seq![here], None)
        } else {
            let (end, last) = scan(t, t[at as int].next_sibling->0, false);
            match end {
                ScanEnd::Broken => (seq![here], Some(last)),
                ScanEnd::RanOut => (seq![here], None),
                ScanEnd::Stopped => {
                    let (rest, b) = sibling_walk(t, root, last, (n - 1) as nat);
                    (seq![here] + rest, b)
                },
            }
        }
    }
}

/// A walk along siblings ends at or after the node it starts from.
pub proof fn lemma_scan_bounds(t: Seq<SyntaxNode>, i: usize, raw: bool)
    requires
        tree_wf(t),
        i < t.len(),
    ensures
        i <= scan(t, i, raw).1 < t.len(),
    decreases t.len() - i,
{
    assert(links_ok(t, i as int));
    if !is_broken(t[i as int]) && !stops_at(t[i as int], raw) {
        if let Some(n) = t[i as int].next_sibling {
            lemma_scan_bounds(t, n, raw);
        }
    }
}

/// The nodes a cursor with root `root` visits from node `at` on, moving
/// each time to the next named sibling that is not extra; and the broken
/// node that stopped it, if any.
pub open spec fn visits(t: Seq<SyntaxNode>, root: usize, at: usize) -> (Seq<usize>, Option<usize>)
    decreases t.len() - at,
    when tree_wf(t) && at < t.len()
{
    if at == root || t[at as int].next_sibling is None {
        (seq![at], None)
    } else {
        let next = t[at as int].next_sibling->0;
        proof {
            assert(links_ok(t, at as int));
            lemma_scan_bounds(t, next, false);
        }
        let (end, last) = scan(t, next, false);
        match end {
            ScanEnd::Broken => (seq![at], Some(last)),
            ScanEnd::RanOut => (seq![at], None),
            ScanEnd::Stopped => {
                let (rest, b) = visits(t, root, last);
                (seq![at] + rest, b)
            },
        }
    }
}

/// What one piece of a string literal gives, and what it reports: string
/// content (or raw content, as the first piece) gives its text, an escape
/// its text without the backslash; any other node gives nothing and is
/// reported. An error where its text, or the place of a reported node,
/// cannot be read, or where an escape is empty.
pub open spec fn literal_piece(r: ropey::Rope, n: SyntaxNode, first: bool) -> (Result<Seq<char>, ()>, Seq<CursorError>) {
    if n.kind is StringContent || (first && n.kind is RawStringContent) {
        match text_of(r, n.range) {
            Some(x) => (Ok(x), Seq::empty()),
            None => (Err(()), Seq::empty()),
        }
    } else if n.kind is EscapeSequence {
        match text_of(r, n.range) {
            Some(x) => if x.len() > 0 {
                (Ok(x.drop_first()), Seq::empty())
            } else {
                (Err(()), Seq::empty())
            },
            None => (Err(()), Seq::empty()),
        }
    } else {
        match char_range_at(r, n.range) {
            Some(c) => (Ok(Seq::empty()), seq![CursorError::BadNode(c, n.kind)]),
            None => (Err(()), Seq::empty()),
        }
    }
}

/// The text the pieces at the given nodes assemble, in turn, and what
/// they report; reading stops at the first piece that is an error.
pub open spec fn literal_pieces(r: ropey::Rope, t: Seq<SyntaxNode>, nodes: Seq<usize>) -> (Result<Seq<char>, ()>, Seq<CursorError>)
    decreases nodes.len(),
{
    if nodes.len() == 0 {
        (Ok(Seq::empty()), Seq::empty())
    } else {
        let (acc, reports) = literal_pieces(r, t, nodes.drop_last());
        match acc {
            Err(_) => (Err(()), reports),
            Ok(text) => {
                let (p, more) = literal_piece(r, t[nodes.last() as int], nodes.len() == 1);
                match p {
                    Ok(x) => (Ok(text + x), reports + more),
                    Err(_) => (Err(()), reports + more),
                }
            },
        }
    }
}

/// A string literal read from the pieces a cursor visits from where it is
/// on (see `visits`, `literal_pieces`), as whether it is a single piece
/// taken as it stands (else its pieces are joined) and its text; with
/// what is reported.
pub open spec fn literal_from(r: ropey::Rope, t: Seq<SyntaxNode>, root: usize, at: usize) -> (Result<(bool, Seq<char>), ()>, Seq<CursorError>) {
    let (nodes, broken) = visits(t, root, at);
    let (text, reports) = literal_pieces(r, t, nodes);
    match text {
        Err(_) => (Err(()), reports),
        Ok(x) => match broken {
            Some(b) => (Err(()), reports + broken_report(r, t[b as int])),
            None => (Ok((nodes.len() == 1, x)), reports),
        },
    }
}

/// A literal as whether it is a single piece taken as it stands, and its
/// text.
pub open spec fn literal_view(l: StringLiteral) -> (bool, Seq<char>) {
    match l {
        StringLiteral::FullContent(s) => (true, s@),
        StringLiteral::Escaped(s) => (false, s@),
    }
}

/// Once a piece is an error, the pieces after it change nothing.
proof fn lemma_pieces_after_error(r: ropey::Rope, t: Seq<SyntaxNode>, a: Seq<usize>, b: Seq<usize>)
    requires
        literal_pieces(r, t, a).0 is Err,
    ensures
        literal_pieces(r, t, a + b) == literal_pieces(r, t, a),
    decreases b.len(),
{
    if b.len() == 0 {
        assert(a + b =~= a);
    } else {
        lemma_pieces_after_error(r, t, a, b.drop_last());
        assert((a + b).drop_last() =~= a + b.drop_last());
    }
}

/// A cursor of the parser over a syntax tree: it walks the subtree of
/// `root`, and is at `at`.
pub struct GrzCursor<'a> {
    pub tree: &'a SyntaxTree,
    pub root: usize,
    pub at: usize,
}

impl<'a> GrzCursor<'a> {
    /// The nodes of the tree.
    pub open spec fn nodes(&self) -> Seq<SyntaxNode> {
        self.tree.nodes@
    }

    /// The tree is well formed and the cursor's nodes are in it.
    pub open spec fn inv(&self) -> bool {
        tree_wf(self.nodes()) && self.root < self.nodes().len() && self.at < self.nodes().len()
    }

    /// A cursor at the root of the tree.
    pub fn new(tree: &'a SyntaxTree) -> (c: GrzCursor<'a>)
        requires
            tree_wf(tree.nodes@),
        ensures
            c.tree == tree,
            c.inv(),
            c.root == 0,
            c.at == 0,
    {
        GrzCursor { tree, root: 0, at: 0 }
    }

    /// A cursor that walks the subtree of a node.
    pub fn from_node(node: usize, tree: &'a SyntaxTree) -> (c: GrzCursor<'a>)
        requires
            tree_wf(tree.nodes@),
            node < tree.nodes@.len(),
        ensures
            c.tree == tree,
            c.inv(),
            c.root == node,
            c.at == node,
    {
        GrzCursor { tree, root: node, at: node }
    }

    /// The node the cursor is at.
    pub fn node(&self) -> (n: SyntaxNode)
        requires
            self.inv(),
        ensures
            n == self.nodes()[self.at as int],
    {
        self.tree.nodes[self.at]
    }

    /// The lines and characters of the node the cursor is at.
    pub fn char_range(&self, rope: &ropey::Rope) -> (c: Option<CharRange>)
        requires
            self.inv(),
        ensures
            c == char_range_at(*rope, self.nodes()[self.at as int].range),
    {
        let range = self.tree.nodes[self.at].range;
        let source = SourceRange {
            start_byte: range.start_byte as usize,
            end_byte: range.end_byte as usize,
            start_point: Point { row: range.start_point.row as usize, column: range.start_point.col as usize },
            end_point: Point { row: range.end_point.row as usize, column: range.end_point.col as usize },
        };
        match CharRange::new(source, rope) {
            Ok(c) => Some(c),
            Err(_) => None,
        }
    }

    /// The text of the node the cursor is at, where its span is one of the
    /// rope.
    pub fn rope_slice(&self, rope: &ropey::Rope) -> (s: Option<String>)
        requires
            self.inv(),
        ensures
            ({
                let range = self.nodes()[self.at as int].range;
                match s {
                    Some(x) => rope_span_text(*rope, range.start_byte as int, range.end_byte as int)
                        == Some(x@),
                    None => rope_span_text(*rope, range.start_byte as int, range.end_byte as int) is None,
                }
            }),
    {
        let range = self.tree.nodes[self.at].range;
        span_text(rope, range.start_byte as usize, range.end_byte as usize)
    }

    /// Checks the node a move landed on: one the parser marked as broken
    /// is reported and is an error.
    fn check_for_error(&self, result: bool, rope: &ropey::Rope, errors: &mut Vec<CursorError>) -> (r:
        Result<bool, ()>)
        requires
            self.inv(),
        ensures
            !result ==> r == Ok::<bool, ()>(false) && final(errors)@ == old(errors)@,
            result && !is_broken(self.nodes()[self.at as int]) ==> r == Ok::<bool, ()>(true)
                && final(errors)@ == old(errors)@,
            result && is_broken(self.nodes()[self.at as int]) ==> r is Err && final(errors)@
                == old(errors)@ + broken_report(*rope, self.nodes()[self.at as int]),
    {
        if !result {
            return Ok(false);
        }
        let node = self.tree.nodes[self.at];
        if node.error {
            match self.char_range(rope) {
                Some(c) => errors.push(CursorError::Syntax(c)),
                None => {},
            }
            proof {
                assert(errors@ =~= old(errors)@ + broken_report(*rope, node));
            }
            return Err(());
        }
        if node.missing {
            match self.char_range(rope) {
                Some(c) => errors.push(CursorError::Missing(c)),
                None => {},
            }
            proof {
                assert(errors@ =~= old(errors)@ + broken_report(*rope, node));
            }
            return Err(());
        }
        Ok(result)
    }

    /// Walks along siblings from the node the cursor is at (see `scan`).
    fn walk_siblings(&mut self, raw: bool, rope: &ropey::Rope, errors: &mut Vec<CursorError>) -> (r: Result<
        bool,
        (),
    >)
        requires
            old(self).inv(),
        ensures
            final(self).tree == old(self).tree,
            final(self).root == old(self).root,
            final(self).inv(),
            ({
                let (end, last) = scan(old(self).nodes(), old(self).at, raw);
                &&& final(self).at == last
                &&& end is Broken ==> r is Err && final(errors)@ == old(errors)@ + broken_report(
                    *rope,
                    old(self).nodes()[last as int],
                )
                &&& end is Stopped ==> r == Ok::<bool, ()>(true) && final(errors)@ == old(errors)@
                &&& end is RanOut ==> r == Ok::<bool, ()>(false) && final(errors)@ == old(errors)@
            }),
        decreases old(self).nodes().len() - old(self).at,
    {
        proof {
            assert(links_ok(self.nodes(), self.at as int));
        }
        let node = self.tree.nodes[self.at];
        if node.error || node.missing {
            return self.check_for_error(true, rope, errors);
        }
        if !node.extra && (raw || node.named) {
            return Ok(true);
        }
        match node.next_sibling {
            None => Ok(false),
            Some(n) => {
                self.at = n;
                self.walk_siblings(raw, rope, errors)
            },
        }
    }

    /// The walk to the first child of a node, skipping anonymous and extra
    /// nodes (only extra ones where `raw`): how it ended, and where.
    pub open spec fn child_scan(t: Seq<SyntaxNode>, at: usize, raw: bool) -> Option<(ScanEnd, usize)> {
        match t[at as int].first_child {
            None => None,
            Some(c) => Some(scan(t, c, raw)),
        }
    }

    /// Opens a cursor on the first child of the node this one is at,
    /// skipping anonymous and extra nodes (only extra ones where `raw`):
    /// `None` where there is no such child; an error, reported, where the
    /// walk meets a broken node, or where the node this cursor is at is not
    /// of the expected kind. Where the walk ran past the last child under
    /// `raw`, this cursor moves to its parent (unless at its own root).
    fn open_child(&mut self, expected: NodeKind, raw: bool, rope: &ropey::Rope, errors: &mut Vec<CursorError>) -> (r:
        Result<Option<GrzCursor<'a>>, ()>)
        requires
            old(self).inv(),
        ensures
            final(self).tree == old(self).tree,
            final(self).root == old(self).root,
            final(self).inv(),
            ({
                let t = old(self).nodes();
                let at = old(self).at;
                match Self::child_scan(t, at, raw) {
                    None => r matches Ok(None) && final(errors)@ == old(errors)@ && final(self).at == at,
                    Some((end, last)) => match end {
                        ScanEnd::Broken => r is Err && final(errors)@ == old(errors)@
                            + broken_report(*rope, t[last as int]) && final(self).at == at,
                        ScanEnd::RanOut => r matches Ok(None) && final(errors)@ == old(errors)@ && final(self).at == (if raw && at != old(self).root
                            && (t[at as int].parent is Some) {
                            t[at as int].parent->0
                        } else {
                            at
                        }),
                        ScanEnd::Stopped => if t[at as int].kind != expected {
                            r is Err && final(errors)@ == old(errors)@ + bad_node_report(
                                *rope,
                                t[at as int],
                            ) && final(self).at == at
                        } else {
                            &&& final(errors)@ == old(errors)@
                            &&& final(self).at == at
                            &&& r matches Ok(Some(c)) && c.tree == old(self).tree && c.root == at && c.at == last
                                && c.inv()
                        },
                    },
                }
            }),
    {
        proof {
            assert(links_ok(self.nodes(), self.at as int));
        }
        let at = self.at;
        let current = self.tree.nodes[at];
        let first = match current.first_child {
            None => return Ok(None),
            Some(c) => c,
        };
        let mut child = GrzCursor { tree: self.tree, root: at, at: first };
        let found = match child.walk_siblings(raw, rope, errors) {
            Ok(b) => b,
            Err(_) => return Err(()),
        };
        if !found {
            if raw && at != self.root {
                match current.parent {
                    Some(p) => self.at = p,
                    None => {},
                }
            }
            return Ok(None);
        }
        if current.kind != expected {
            match self.char_range(rope) {
                Some(c) => errors.push(CursorError::BadNode(c, current.kind)),
                None => {},
            }
            proof {
                assert(errors@ =~= old(errors)@ + bad_node_report(*rope, current));
            }
            return Err(());
        }
        Ok(Some(child))
    }

    /// Opens a cursor on the first named child that is not extra (see
    /// `open_child`).
    pub fn goto_first_child(&mut self, expected_node: NodeKind, rope: &ropey::Rope, errors: &mut Vec<CursorError>) -> (r:
        Result<Option<GrzCursor<'a>>, ()>)
        requires
            old(self).inv(),
        ensures
            *final(self) == *old(self),
            ({
                let t = old(self).nodes();
                let at = old(self).at;
                match Self::child_scan(t, at, false) {
                    None => r matches Ok(None) && final(errors)@ == old(errors)@,
                    Some((end, last)) => match end {
                        ScanEnd::Broken => r is Err && final(errors)@ == old(errors)@
                            + broken_report(*rope, t[last as int]),
                        ScanEnd::RanOut => r matches Ok(None) && final(errors)@ == old(errors)@,
                        ScanEnd::Stopped => if t[at as int].kind != expected_node {
                            r is Err && final(errors)@ == old(errors)@ + bad_node_report(
                                *rope,
                                t[at as int],
                            )
                        } else {
                            &&& final(errors)@ == old(errors)@
                            &&& r matches Ok(Some(c)) && c.tree == old(self).tree && c.root == at
                                && c.at == last && c.inv()
                        },
                    },
                }
            }),
    {
        self.open_child(expected_node, false, rope, errors)
    }

    /// Opens a cursor on the first child that is not extra (see
    /// `open_child`).
    pub fn goto_first_child_raw(&mut self, expected_node: NodeKind, rope: &ropey::Rope, errors: &mut Vec<CursorError>) -> (r:
        Result<Option<GrzCursor<'a>>, ()>)
        requires
            old(self).inv(),
        ensures
            final(self).tree == old(self).tree,
            final(self).root == old(self).root,
            final(self).inv(),
            ({
                let t = old(self).nodes();
                let at = old(self).at;
                match Self::child_scan(t, at, true) {
                    None => r matches Ok(None) && final(errors)@ == old(errors)@ && final(self).at == at,
                    Some((end, last)) => match end {
                        ScanEnd::Broken => r is Err && final(errors)@ == old(errors)@
                            + broken_report(*rope, t[last as int]) && final(self).at == at,
                        ScanEnd::RanOut => r matches Ok(None) && final(errors)@ == old(errors)@ && final(self).at == (if at != old(self).root
                            && (t[at as int].parent is Some) {
                            t[at as int].parent->0
                        } else {
                            at
                        }),
                        ScanEnd::Stopped => if t[at as int].kind != expected_node {
                            r is Err && final(errors)@ == old(errors)@ + bad_node_report(
                                *rope,
                                t[at as int],
                            ) && final(self).at == at
                        } else {
                            &&& final(errors)@ == old(errors)@
                            &&& final(self).at == at
                            &&& r matches Ok(Some(c)) && c.tree == old(self).tree && c.root == at && c.at == last
                                && c.inv()
                        },
                    },
                }
            }),
    {
        self.open_child(expected_node, true, rope, errors)
    }

    /// Moves to the next sibling, skipping anonymous and extra nodes (only
    /// extra ones where `raw`); a cursor never leaves its root. Whether it
    /// stopped at such a sibling; an error, reported, where it met a broken
    /// node.
    fn next_stop(&mut self, raw: bool, rope: &ropey::Rope, errors: &mut Vec<CursorError>) -> (r: Result<
        bool,
        (),
    >)
        requires
            old(self).inv(),
        ensures
            final(self).tree == old(self).tree,
            final(self).root == old(self).root,
            final(self).inv(),
            ({
                let t = old(self).nodes();
                let at = old(self).at;
                if at == old(self).root || t[at as int].next_sibling is None {
                    r == Ok::<bool, ()>(false) && final(errors)@ == old(errors)@ && final(self).at
                        == at
                } else {
                    let (end, last) = scan(t, t[at as int].next_sibling->0, raw);
                    &&& final(self).at == last
                    &&& end is Broken ==> r is Err && final(errors)@ == old(errors)@
                        + broken_report(*rope, t[last as int])
                    &&& end is Stopped ==> r == Ok::<bool, ()>(true) && final(errors)@ == old(errors)@
                    &&& end is RanOut ==> r == Ok::<bool, ()>(false) && final(errors)@ == old(errors)@
                }
            }),
    {
        proof {
            assert(links_ok(self.nodes(), self.at as int));
        }
        if self.at == self.root {
            return Ok(false);
        }
        match self.tree.nodes[self.at].next_sibling {
            None => Ok(false),
            Some(n) => {
                self.at = n;
                self.walk_siblings(raw, rope, errors)
            },
        }
    }

    /// Moves to the next named sibling that is not extra (see `next_stop`).
    pub fn goto_next_sibling(&mut self, rope: &ropey::Rope, errors: &mut Vec<CursorError>) -> (r: Result<bool, ()>)
        requires
            old(self).inv(),
        ensures
            final(self).tree == old(self).tree,
            final(self).root == old(self).root,
            final(self).inv(),
            ({
                let t = old(self).nodes();
                let at = old(self).at;
                if at == old(self).root || t[at as int].next_sibling is None {
                    r == Ok::<bool, ()>(false) && final(errors)@ == old(errors)@ && final(self).at
                        == at
                } else {
                    let (end, last) = scan(t, t[at as int].next_sibling->0, false);
                    &&& final(self).at == last
                    &&& end is Broken ==> r is Err && final(errors)@ == old(errors)@
                        + broken_report(*rope, t[last as int])
                    &&& end is Stopped ==> r == Ok::<bool, ()>(true) && final(errors)@ == old(errors)@
                    &&& end is RanOut ==> r == Ok::<bool, ()>(false) && final(errors)@ == old(errors)@
                }
            }),
    {
        self.next_stop(false, rope, errors)
    }

    /// Moves to the next sibling that is not extra (see `next_stop`).
    pub fn goto_next_sibling_raw(&mut self, rope: &ropey::Rope, errors: &mut Vec<CursorError>) -> (r: Result<
        bool,
        (),
    >)
        requires
            old(self).inv(),
        ensures
            final(self).tree == old(self).tree,
            final(self).root == old(self).root,
            final(self).inv(),
            ({
                let t = old(self).nodes();
                let at = old(self).at;
                if at == old(self).root || t[at as int].next_sibling is None {
                    r == Ok::<bool, ()>(false) && final(errors)@ == old(errors)@ && final(self).at
                        == at
                } else {
                    let (end, last) = scan(t, t[at as int].next_sibling->0, true);
                    &&& final(self).at == last
                    &&& end is Broken ==> r is Err && final(errors)@ == old(errors)@
                        + broken_report(*rope, t[last as int])
                    &&& end is Stopped ==> r == Ok::<bool, ()>(true) && final(errors)@ == old(errors)@
                    &&& end is RanOut ==> r == Ok::<bool, ()>(false) && final(errors)@ == old(errors)@
                }
            }),
    {
        self.next_stop(true, rope, errors)
    }

    /// Whether the node the cursor is at has a named child.
    pub fn first_child_exists(&self) -> (b: bool)
        requires
            self.inv(),
        ensures
            b == (match self.nodes()[self.at as int].first_child {
                Some(c) => named_from(self.nodes(), c),
                None => false,
            }),
    {
        proof {
            assert(links_ok(self.nodes(), self.at as int));
        }
        let first = match self.tree.nodes[self.at].first_child {
            Some(c) => c,
            None => return false,
        };
        let mut i = first;
        let ghost target = named_from(self.nodes(), first);
        loop
            invariant
                self.inv(),
                self.nodes()[self.at as int].first_child == Some(first),
                target == named_from(self.nodes(), first),
                i < self.nodes().len(),
                named_from(self.nodes(), i) == target,
            decreases self.nodes().len() - i,
        {
            proof {
                assert(links_ok(self.nodes(), i as int));
            }
            let node = self.tree.nodes[i];
            if node.named {
                return true;
            }
            match node.next_sibling {
                Some(n) => i = n,
                None => return false,
            }
        }
    }

    /// Whether the node the cursor is at has a child.
    pub fn first_child_raw_exists(&self) -> (b: bool)
        requires
            self.inv(),
        ensures
            b == (self.nodes()[self.at as int].first_child is Some),
    {
        self.tree.nodes[self.at].first_child.is_some()
    }

    /// The identifier of the node the cursor is at, from its children: the
    /// sum, wrapping around, of the identifiers of up to `depth` of them
    /// (see `sibling_walk`), from the first that is not extra on; zero
    /// where there is no such child. Errors as `goto_first_child_raw`
    /// reports them, and where the walk meets a broken node.
    pub fn id(&mut self, depth: usize, expected_node_kind: NodeKind, rope: &ropey::Rope, errors: &mut Vec<CursorError>) -> (r:
        Result<u64, ()>)
        requires
            old(self).inv(),
        ensures
            final(self).tree == old(self).tree,
            final(self).root == old(self).root,
            final(self).inv(),
            ({
                let t = old(self).nodes();
                let at = old(self).at;
                match Self::child_scan(t, at, true) {
                    None => r == Ok::<u64, ()>(0) && final(errors)@ == old(errors)@,
                    Some((end, last)) => match end {
                        ScanEnd::Broken => r is Err && final(errors)@ == old(errors)@
                            + broken_report(*rope, t[last as int]),
                        ScanEnd::RanOut => r == Ok::<u64, ()>(0) && final(errors)@ == old(errors)@,
                        ScanEnd::Stopped => if t[at as int].kind != expected_node_kind {
                            r is Err && final(errors)@ == old(errors)@ + bad_node_report(
                                *rope,
                                t[at as int],
                            )
                        } else {
                            let (ids, b) = sibling_walk(t, at, last, depth as nat);
                            match b {
                                Some(x) => r is Err && final(errors)@ == old(errors)@
                                    + broken_report(*rope, t[x as int]),
                                None => r == Ok::<u64, ()>(wrapping_sum(ids) as u64) && final(
                                    errors)@ == old(errors)@,
                            }
                        },
                    },
                }
            }),
    {
        let ghost t = self.nodes();
        let ghost at = self.at;
        let mut child = match self.goto_first_child_raw(expected_node_kind, rope, errors) {
            Ok(Some(c)) => c,
            Ok(None) => return Ok(0),
            Err(_) => return Err(()),
        };
        let ghost start = child.at;
        let ghost target = sibling_walk(t, at, start, depth as nat);
        let ghost e0 = errors@;
        let mut ids: Vec<usize> = Vec::new();
        let mut taken: usize = 0;
        loop
            invariant_except_break
                ({
                    let (rest, b) = sibling_walk(t, at, child.at, (depth - taken) as nat);
                    target == (ids@ + rest, b)
                }),
            invariant
                child.inv(),
                child.tree.nodes@ == t,
                child.root == at,
                ids@.len() == taken,
                taken <= depth,
                errors@ == e0,
                e0 == old(errors)@,
                self.tree == old(self).tree,
                self.root == old(self).root,
                self.inv(),
                t == old(self).nodes(),
                at == old(self).at,
                Self::child_scan(t, at, true) == Some((ScanEnd::Stopped, start)),
                t[at as int].kind == expected_node_kind,
                target == sibling_walk(t, at, start, depth as nat),
            ensures
                target == (ids@, None::<usize>),
            decreases depth - taken,
        {
            if taken >= depth {
                assert(ids@ + Seq::<usize>::empty() =~= ids@);
                break;
            }
            let here = child.node().id;
            let ghost before = child.at;
            ids.push(here);
            taken = taken + 1;
            let moved = match child.goto_next_sibling(rope, errors) {
                Ok(b) => b,
                Err(_) => {
                    proof {
                        let (rest, b) = sibling_walk(t, at, before, (depth - taken + 1) as nat);
                        assert(rest =~= seq![here]);
                        assert(ids@ =~= ids@.drop_last() + seq![here]);
                    }
                    return Err(());
                },
            };
            if !moved {
                proof {
                    assert(ids@ =~= ids@.drop_last() + seq![here]);
                }
                break;
            }
            proof {
                let (rest, b) = sibling_walk(t, at, child.at, (depth - taken) as nat);
                assert(ids@ + rest =~= ids@.drop_last() + (seq![here] + rest));
            }
        }
        let id = slide_node_id(&ids, depth);
        assert(ids@.take(ids@.len() as int) =~= ids@);
        Ok(id)
    }
}

/// Reads the piece of a string literal the cursor is at (see
/// `literal_piece`), appending its text.
fn read_piece(
    cursor: &GrzCursor<'_>,
    first: bool,
    rope: &ropey::Rope,
    errors: &mut Vec<CursorError>,
    text: &mut String,
) -> (r: Result<(), ()>)
    requires
        cursor.inv(),
    ensures
        ({
            let (p, more) = literal_piece(*rope, cursor.nodes()[cursor.at as int], first);
            &&& final(errors)@ == old(errors)@ + more
            &&& match p {
                Ok(x) => r is Ok && final(text)@ == old(text)@ + x,
                Err(_) => r is Err,
            }
        }),
{
    let node = cursor.node();
    if node.kind == NodeKind::StringContent || (first && node.kind == NodeKind::RawStringContent) {
        match cursor.rope_slice(rope) {
            Some(x) => {
                text.append(x.as_str());
                assert(errors@ =~= old(errors)@ + Seq::<CursorError>::empty());
                Ok(())
            },
            None => Err(()),
        }
    } else if node.kind == NodeKind::EscapeSequence {
        match cursor.rope_slice(rope) {
            Some(x) => {
                let n = x.as_str().unicode_len();
                if n == 0 {
                    return Err(());
                }
                text.append(x.as_str().substring_char(1, n));
                assert(x@.subrange(1, n as int) =~= x@.drop_first());
                assert(errors@ =~= old(errors)@ + Seq::<CursorError>::empty());
                Ok(())
            },
            None => Err(()),
        }
    } else {
        match cursor.char_range(rope) {
            Some(c) => {
                errors.push(CursorError::BadNode(c, node.kind));
                assert(text@ =~= old(text)@ + Seq::<char>::empty());
                Ok(())
            },
            None => Err(()),
        }
    }
}

impl StringLiteral {
    /// Reads a string literal from the pieces the cursor visits from where
    /// it is on (see `literal_from`): a single piece is its text as it
    /// stands; several are joined, escapes without their backslash. Other
    /// nodes are reported and give nothing.
    pub fn parse_from_cursor(cursor: &mut GrzCursor<'_>, rope: &ropey::Rope, errors: &mut Vec<CursorError>) -> (r:
        Result<StringLiteral, ()>)
        requires
            old(cursor).inv(),
        ensures
            final(cursor).tree == old(cursor).tree,
            final(cursor).root == old(cursor).root,
            final(cursor).inv(),
            ({
                let o = literal_from(*rope, old(cursor).nodes(), old(cursor).root, old(cursor).at);
                &&& final(errors)@ == old(errors)@ + o.1
                &&& match o.0 {
                    Ok(v) => r matches Ok(l) && literal_view(l) == v,
                    Err(_) => r is Err,
                }
            }),
    {
        let ghost t = cursor.nodes();
        let ghost root = cursor.root;
        let ghost start = cursor.at;
        let ghost e0 = errors@;
        let ghost all = visits(t, root, start).0;
        let mut text = String::new();
        proof {
            assert(seq![start].drop_last() =~= Seq::<usize>::empty());
            if start != root && t[start as int].next_sibling is Some {
                assert(links_ok(t, start as int));
                lemma_scan_bounds(t, t[start as int].next_sibling->0, false);
            }
            assert(all =~= seq![start] + all.drop_first());
        }
        let ghost piece = literal_piece(*rope, t[start as int], true);
        let ghost first_pieces = literal_pieces(*rope, t, seq![start]);
        assert(literal_pieces(*rope, t, Seq::<usize>::empty()) == (
            Ok::<Seq<char>, ()>(Seq::empty()),
            Seq::<CursorError>::empty(),
        ));
        match read_piece(cursor, true, rope, errors, &mut text) {
            Ok(_) => {},
            Err(_) => {
                proof {
                    assert(first_pieces.0 is Err);
                    assert(first_pieces.1 =~= piece.1);
                    lemma_pieces_after_error(*rope, t, seq![start], all.drop_first());
                }
                return Err(());
            },
        }
        let ghost mut done: Seq<usize> = seq![start];
        proof {
            assert(text@ =~= Seq::<char>::empty() + text@);
            assert(first_pieces.0 == Ok::<Seq<char>, ()>(text@));
            assert(first_pieces.1 =~= piece.1);
            assert(errors@.skip(e0.len() as int) =~= piece.1);
        }
        let more = match cursor.goto_next_sibling(rope, errors) {
            Ok(b) => b,
            Err(_) => {
                proof {
                    assert(errors@ =~= e0 + (first_pieces.1 + broken_report(
                        *rope,
                        t[cursor.at as int],
                    )));
                }
                return Err(());
            },
        };
        if !more {
            return Ok(StringLiteral::FullContent(text));
        }
        loop
            invariant_except_break
                visits(t, root, start) == (done + visits(t, root, cursor.at).0, visits(
                    t,
                    root,
                    cursor.at,
                ).1),
            invariant
                cursor.inv(),
                cursor.tree == old(cursor).tree,
                cursor.root == old(cursor).root,
                cursor.nodes() == t,
                t == old(cursor).nodes(),
                root == old(cursor).root,
                start == old(cursor).at,
                e0 == old(errors)@,
                done.len() >= 2 || (done.len() == 1 && done[0] == start),
                literal_pieces(*rope, t, done) == (Ok::<Seq<char>, ()>(text@), errors@.skip(
                    e0.len() as int,
                )),
                errors@ == e0 + errors@.skip(e0.len() as int),
            ensures
                visits(t, root, start) == (done, None::<usize>),
                done.len() >= 2,
            decreases t.len() - cursor.at,
        {
            let ghost x = cursor.at;
            let ghost e_before = errors@;
            proof {
                if x != root && t[x as int].next_sibling is Some {
                    assert(links_ok(t, x as int));
                    lemma_scan_bounds(t, t[x as int].next_sibling->0, false);
                }
                let rest = visits(t, root, x).0;
                assert(rest =~= seq![x] + rest.drop_first());
            }
            match read_piece(cursor, false, rope, errors, &mut text) {
                Ok(_) => {},
                Err(_) => {
                    proof {
                        let d2 = done.push(x);
                        assert(d2.drop_last() =~= done);
                        let rest = visits(t, root, x).0;
                        assert(done + rest =~= d2 + rest.drop_first());
                        lemma_pieces_after_error(*rope, t, d2, rest.drop_first());
                        assert(errors@ =~= e0 + literal_pieces(*rope, t, d2).1);
                    }
                    return Err(());
                },
            }
            proof {
                let d2 = done.push(x);
                assert(d2.drop_last() =~= done);
                let rest = visits(t, root, x).0;
                assert(done + rest =~= d2 + rest.drop_first());
                done = d2;
                assert(errors@.skip(e0.len() as int) =~= literal_pieces(*rope, t, done).1);
            }
            let more = match cursor.goto_next_sibling(rope, errors) {
                Ok(b) => b,
                Err(_) => {
                    proof {
                        assert(errors@ =~= e0 + (literal_pieces(*rope, t, done).1 + broken_report(
                            *rope,
                            t[cursor.at as int],
                        )));
                    }
                    return Err(());
                },
            };
            if !more {
                break;
            }
        }
        assert(errors@ =~= e0 + errors@.skip(e0.len() as int));
        Ok(StringLiteral::Escaped(text))
    }
}

/// What reading the node a cursor is at as a string literal gives (see
/// `GrzCursor::node_to_string_literal`), with what is reported.
pub open spec fn node_literal(r: ropey::Rope, t: Seq<SyntaxNode>, at: usize) -> (Result<(bool, Seq<char>), ()>, Seq<CursorError>) {
    let n = t[at as int];
    if n.kind is StringLiteral {
        match GrzCursor::child_scan(t, at, false) {
            None => (Ok((false, Seq::empty())), Seq::empty()),
            Some((end, last)) => match end {
                ScanEnd::Broken => (Err(()), broken_report(r, t[last as int])),
                ScanEnd::RanOut => (Ok((false, Seq::empty())), Seq::empty()),
                ScanEnd::Stopped => literal_from(r, t, at, last),
            },
        }
    } else if n.kind is NumberLiteral || n.kind is ObjOther || n.kind is Identifier {
        match text_of(r, n.range) {
            Some(x) => (Ok((true, x)), Seq::empty()),
            None => (Err(()), Seq::empty()),
        }
    } else {
        match char_range_at(r, n.range) {
            Some(c) => (Ok((false, Seq::empty())), seq![CursorError::BadNode(c, n.kind)]),
            None => (Err(()), Seq::empty()),
        }
    }
}

impl<'a> GrzCursor<'a> {
    /// Reads the node the cursor is at as a string literal: a string from
    /// its pieces (empty where it has none), a number, an identifier or an
    /// object type as its text; any other node is reported and reads as
    /// empty.
    pub fn node_to_string_literal(&mut self, rope: &ropey::Rope, errors: &mut Vec<CursorError>) -> (r: Result<
        StringLiteral,
        (),
    >)
        requires
            old(self).inv(),
        ensures
            *final(self) == *old(self),
            ({
                let o = node_literal(*rope, old(self).nodes(), old(self).at);
                &&& final(errors)@ == old(errors)@ + o.1
                &&& match o.0 {
                    Ok(v) => r matches Ok(l) && literal_view(l) == v,
                    Err(_) => r is Err,
                }
            }),
    {
        let node = self.node();
        if node.kind == NodeKind::StringLiteral {
            match self.goto_first_child(NodeKind::StringLiteral, rope, errors) {
                Ok(Some(mut c)) => StringLiteral::parse_from_cursor(&mut c, rope, errors),
                Ok(None) => {
                    assert(errors@ =~= old(errors)@ + Seq::<CursorError>::empty());
                    Ok(StringLiteral::Escaped(String::new()))
                },
                Err(_) => Err(()),
            }
        } else if node.kind == NodeKind::NumberLiteral || node.kind == NodeKind::ObjOther
            || node.kind == NodeKind::Identifier {
            assert(errors@ =~= old(errors)@ + Seq::<CursorError>::empty());
            match self.rope_slice(rope) {
                Some(x) => Ok(StringLiteral::FullContent(x)),
                None => Err(()),
            }
        } else {
            match self.char_range(rope) {
                Some(c) => {
                    errors.push(CursorError::BadNode(c, node.kind));
                    Ok(StringLiteral::Escaped(String::new()))
                },
                None => {
                    assert(errors@ =~= old(errors)@ + Seq::<CursorError>::empty());
                    Err(())
                },
            }
        }
    }
}

} // verus!
