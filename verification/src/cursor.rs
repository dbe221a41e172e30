use vstd::prelude::*;

use crate::formatting::{
    arrival_edit, arrive, edits_view, layout_edits, lemma_arrival_layout, lemma_revisited_layout,
    opt_edit, revisited, rule_writes_layout, TextEdit, WhitespaceEdit,
};
use crate::positions::{lsp_position, LspRange, SyntaxRange};
use crate::rope::{rope_span_text, span_text};
use crate::syntax::{is_broken, is_composite, links_ok, tree_wf, NodeKind, SyntaxNode, SyntaxTree};

verus! {

/// The state of a formatting walk: the node the cursor is at, the edits
/// made so far (each as a range and a new text), the span last arrived
/// at, and whether arriving there made an edit.
pub type CursorView = (usize, Seq<(LspRange, Seq<char>)>, SyntaxRange, bool);

/// The protocol range of a span, if both its ends are positions of the
/// rope.
pub open spec fn lsp_span(r: ropey::Rope, range: SyntaxRange) -> Option<LspRange> {
    match (lsp_position(r, range.start_point), lsp_position(r, range.end_point)) {
        (Some(s), Some(e)) => Some(LspRange { start: s, end: e }),
        _ => None,
    }
}

/// The text a span covers, if it is a span of the rope.
pub open spec fn text_of(r: ropey::Rope, range: SyntaxRange) -> Option<Seq<char>> {
    rope_span_text(r, range.start_byte as int, range.end_byte as int)
}

/// The empty span at the start of a span.
pub open spec fn collapsed(range: SyntaxRange) -> SyntaxRange {
    SyntaxRange {
        start_point: range.start_point,
        end_point: range.start_point,
        start_byte: range.start_byte,
        end_byte: range.start_byte,
    }
}

/// The state with the cursor moved to another node.
pub open spec fn moved_to(s: CursorView, at: usize) -> CursorView {
    (at, s.1, s.2, s.3)
}

/// The outcome of a move: an error where it landed on a node the parser
/// marked as an error or as missing; otherwise whether it moved.
pub open spec fn checked_move(t: Seq<SyntaxNode>, s: CursorView, moved: bool) -> Result<
    (CursorView, bool),
    (),
> {
    if !moved {
        Ok((s, false))
    } else if is_broken(t[s.0 as int]) {
        Err(())
    } else {
        Ok((s, true))
    }
}

/// A move to the first child, where there is one.
pub open spec fn first_move(t: Seq<SyntaxNode>, s: CursorView) -> Result<(CursorView, bool), ()> {
    match t[s.0 as int].first_child {
        Some(c) => checked_move(t, moved_to(s, c), true),
        None => Ok((s, false)),
    }
}

/// A move to the next sibling, where there is one.
pub open spec fn next_move(t: Seq<SyntaxNode>, s: CursorView) -> Result<(CursorView, bool), ()> {
    match t[s.0 as int].next_sibling {
        Some(n) => checked_move(t, moved_to(s, n), true),
        None => Ok((s, false)),
    }
}

/// A move to the parent, where there is one.
pub open spec fn parent_move(t: Seq<SyntaxNode>, s: CursorView) -> CursorView {
    match t[s.0 as int].parent {
        Some(p) => moved_to(s, p),
        None => s,
    }
}

/// What arriving at a node reads of the rope, as the node's own text and
/// the text of the node after it, each where the rule looks at it (empty
/// where it does not): an asserted whitespace is read, and under
/// `Trailing` the node after whitespace, or the node itself. `None` where
/// a span read is not one of the rope.
pub open spec fn texts_read(
    r: ropey::Rope,
    rule: WhitespaceEdit,
    is_whitespace: bool,
    here: SyntaxRange,
    after: SyntaxRange,
) -> Option<(Seq<char>, Seq<char>)> {
    match rule {
        WhitespaceEdit::Delete => Some((Seq::empty(), Seq::empty())),
        WhitespaceEdit::Assert(_) => if is_whitespace {
            match text_of(r, here) {
                Some(x) => Some((x, Seq::empty())),
                None => None,
            }
        } else {
            Some((Seq::empty(), Seq::empty()))
        },
        WhitespaceEdit::Trailing(_) => if is_whitespace {
            match text_of(r, after) {
                Some(x) => Some((Seq::empty(), x)),
                None => None,
            }
        } else {
            match text_of(r, here) {
                Some(x) => Some((x, Seq::empty())),
                None => None,
            }
        },
    }
}

/// Arriving at the node the cursor is at: whitespace there is passed (the
/// cursor moves on to the node after it) and edited as the rule says, and
/// a comment after it, under `Assert`, is passed too. The flag is `false`
/// where whitespace ends its parent's children.
pub open spec fn navigate(t: Seq<SyntaxNode>, r: ropey::Rope, rule: WhitespaceEdit, s: CursorView) -> Result<
    (CursorView, bool),
    (),
>
    decreases t.len() - s.0,
    when tree_wf(t) && s.0 < t.len()
{
    let node = t[s.0 as int];
    let is_ws = node.kind is Whitespace;
    let moved = if is_ws {
        next_move(t, s)
    } else {
        Ok((s, true))
    };
    match moved {
        Err(_) => Err(()),
        Ok((s1, more)) => match texts_read(r, rule, is_ws, node.range, t[s1.0 as int].range) {
            None => Err(()),
            Some((text, next_text)) => match lsp_span(r, node.range) {
                None => Err(()),
                Some(range) => {
                    let e = arrival_edit(rule, is_ws, range, text, next_text);
                    let last = if rule is Delete && !is_ws {
                        collapsed(node.range)
                    } else {
                        node.range
                    };
                    let s2: CursorView = (s1.0, s.1 + opt_edit(e), last, e is Some);
                    if !more {
                        Ok((s2, false))
                    } else if t[s2.0 as int].kind is Comment && rule is Assert {
                        match next_move(t, s2) {
                            Err(_) => Err(()),
                            Ok((s3, moved_on)) => if moved_on {
                                proof {
                                    assert(links_ok(t, s.0 as int));
                                    assert(links_ok(t, s1.0 as int));
                                }
                                navigate(t, r, rule, s3)
                            } else {
                                Ok((s3, true))
                            },
                        }
                    } else {
                        Ok((s2, true))
                    }
                },
            },
        },
    }
}

/// Moving to the first child of a node of the expected kind and arriving
/// there (an error at a node of another kind).
pub open spec fn first_step(
    t: Seq<SyntaxNode>,
    r: ropey::Rope,
    rule: WhitespaceEdit,
    expected: NodeKind,
    s: CursorView,
) -> Result<(CursorView, bool), ()> {
    if t[s.0 as int].kind != expected {
        Err(())
    } else {
        match first_move(t, s) {
            Err(_) => Err(()),
            Ok((s1, moved)) => match navigate(t, r, rule, s1) {
                Err(_) => Err(()),
                Ok((s2, arrived)) => if !arrived {
                    Ok((s2, false))
                } else {
                    checked_move(t, s2, moved)
                },
            },
        }
    }
}

/// Moving to the next sibling and arriving there.
pub open spec fn next_step(t: Seq<SyntaxNode>, r: ropey::Rope, rule: WhitespaceEdit, s: CursorView) -> Result<
    (CursorView, bool),
    (),
> {
    match next_move(t, s) {
        Err(_) => Err(()),
        Ok((s1, moved)) => match navigate(t, r, rule, s1) {
            Err(_) => Err(()),
            Ok((s2, arrived)) => if !arrived {
                Ok((s2, false))
            } else {
                checked_move(t, s2, moved)
            },
        },
    }
}

/// Looking back at the span last arrived at (see `revisited`); the span's
/// text is read under `Assert` only.
pub open spec fn revisit_step(r: ropey::Rope, rule: WhitespaceEdit, s: CursorView) -> Result<CursorView, ()> {
    let text = match rule {
        WhitespaceEdit::Assert(_) => text_of(r, s.2),
        _ => Some(Seq::empty()),
    };
    match text {
        None => Err(()),
        Some(x) => match revisited(rule, x, s.3, lsp_span(r, s.2), s.1) {
            Some(v) => Ok((s.0, v, s.2, s.3)),
            None => Err(()),
        },
    }
}

/// Whether an executable result and state are those a step gives.
pub open spec fn agrees(r: Result<bool, ()>, s: CursorView, o: Result<(CursorView, bool), ()>) -> bool {
    match o {
        Ok((s2, b)) => r == Ok::<bool, ()>(b) && s == s2,
        Err(_) => r is Err,
    }
}

/// The parent of a node, as stored.
pub open spec fn parent_of(t: Seq<SyntaxNode>, i: usize) -> Option<usize> {
    t[i as int].parent
}

/// A cursor that walks a syntax tree and collects the edits that put its
/// whitespace in order.
pub struct FormattingCursor<'a> {
    pub tree: &'a SyntaxTree,
    pub at: usize,
    pub edits: Vec<TextEdit>,
    pub last_range: SyntaxRange,
    pub edited: bool,
}

impl<'a> FormattingCursor<'a> {
    /// The nodes of the tree walked.
    pub open spec fn nodes(&self) -> Seq<SyntaxNode> {
        self.tree.nodes@
    }

    /// The state of the walk.
    pub open spec fn state(&self) -> CursorView {
        (self.at, edits_view(self.edits@), self.last_range, self.edited)
    }

    /// The tree is well formed and the cursor is at one of its nodes.
    pub open spec fn inv(&self) -> bool {
        tree_wf(self.nodes()) && self.at < self.nodes().len()
    }

    /// A cursor at the root, with no edits, remembering the root's span.
    pub fn new(tree: &'a SyntaxTree) -> (c: FormattingCursor<'a>)
        requires
            tree_wf(tree.nodes@),
        ensures
            c.tree == tree,
            c.inv(),
            c.state() == (0usize, Seq::<(LspRange, Seq<char>)>::empty(), tree.nodes@[0].range, false),
    {
        let c = FormattingCursor {
            tree,
            at: 0,
            edits: Vec::new(),
            last_range: tree.nodes[0].range,
            edited: false,
        };
        assert(edits_view(c.edits@) =~= Seq::<(LspRange, Seq<char>)>::empty());
        c
    }

    /// The node the cursor is at.
    pub fn node(&self) -> (n: SyntaxNode)
        requires
            self.inv(),
        ensures
            n == self.nodes()[self.at as int],
    {
        self.tree.nodes[self.at]
    }

    /// Checks the node a move landed on (see `checked_move`).
    fn check_for_error(&self, result: bool) -> (r: Result<bool, ()>)
        requires
            self.inv(),
        ensures
            agrees(r, self.state(), checked_move(self.nodes(), self.state(), result)),
    {
        if !result {
            return Ok(false);
        }
        let node = self.tree.nodes[self.at];
        if node.error || node.missing {
            return Err(());
        }
        Ok(result)
    }

    /// Moves to the first child, where there is one.
    fn goto_first_impl(&mut self) -> (r: Result<bool, ()>)
        requires
            old(self).inv(),
        ensures
            final(self).tree == old(self).tree,
            final(self).inv(),
            agrees(r, final(self).state(), first_move(old(self).nodes(), old(self).state())),
    {
        proof {
            assert(links_ok(self.nodes(), self.at as int));
        }
        match self.tree.nodes[self.at].first_child {
            Some(c) => {
                self.at = c;
                self.check_for_error(true)
            },
            None => Ok(false),
        }
    }

    /// Moves to the next sibling, where there is one.
    fn goto_next_impl(&mut self) -> (r: Result<bool, ()>)
        requires
            old(self).inv(),
        ensures
            final(self).tree == old(self).tree,
            final(self).inv(),
            agrees(r, final(self).state(), next_move(old(self).nodes(), old(self).state())),
            final(self).at >= old(self).at,
            parent_of(final(self).nodes(), final(self).at) == parent_of(
                old(self).nodes(),
                old(self).at,
            ),
            r == Ok::<bool, ()>(true) ==> final(self).at > old(self).at,
    {
        proof {
            assert(links_ok(self.nodes(), self.at as int));
        }
        match self.tree.nodes[self.at].next_sibling {
            Some(n) => {
                self.at = n;
                self.check_for_error(true)
            },
            None => Ok(false),
        }
    }

    /// Arrives at the node the cursor is at (see `navigate`).
    pub fn navigate_and_format(&mut self, whitespace_rule: WhitespaceEdit, current_rope: &ropey::Rope) -> (r:
        Result<bool, ()>)
        requires
            old(self).inv(),
        ensures
            final(self).tree == old(self).tree,
            final(self).inv(),
            agrees(
                r,
                final(self).state(),
                navigate(old(self).nodes(), *current_rope, whitespace_rule, old(self).state()),
            ),
            r is Ok ==> final(self).at >= old(self).at && parent_of(
                final(self).nodes(),
                final(self).at,
            ) == parent_of(old(self).nodes(), old(self).at),
            r is Ok && rule_writes_layout(whitespace_rule) && layout_edits(old(self).state().1)
                ==> layout_edits(final(self).state().1),
        decreases old(self).nodes().len() - old(self).at,
    {
        let ghost s0 = self.state();
        let node = self.tree.nodes[self.at];
        let is_ws = node.kind == NodeKind::Whitespace;
        let more = if is_ws {
            match self.goto_next_impl() {
                Ok(b) => b,
                Err(_) => return Err(()),
            }
        } else {
            true
        };
        let ghost s1 = self.state();
        let after = self.tree.nodes[self.at].range;
        let texts: Option<(String, String)> = match whitespace_rule {
            WhitespaceEdit::Delete => Some((String::new(), String::new())),
            WhitespaceEdit::Assert(_) => if is_ws {
                match span_text(current_rope, node.range.start_byte as usize, node.range.end_byte as usize) {
                    Some(x) => Some((x, String::new())),
                    None => None,
                }
            } else {
                Some((String::new(), String::new()))
            },
            WhitespaceEdit::Trailing(_) => if is_ws {
                match span_text(current_rope, after.start_byte as usize, after.end_byte as usize) {
                    Some(x) => Some((String::new(), x)),
                    None => None,
                }
            } else {
                match span_text(current_rope, node.range.start_byte as usize, node.range.end_byte as usize) {
                    Some(x) => Some((x, String::new())),
                    None => None,
                }
            },
        };
        let (text, next_text) = match texts {
            Some(p) => p,
            None => return Err(()),
        };
        proof {
            assert(texts_read(*current_rope, whitespace_rule, is_ws, node.range, after) == Some(
                (text@, next_text@),
            ));
        }
        let arrival = match arrive(current_rope, whitespace_rule, node.range, is_ws, text.as_str(), next_text.as_str()) {
            Ok(a) => a,
            Err(_) => return Err(()),
        };
        self.edited = false;
        self.last_range = node.range;
        match arrival.edit {
            Some(e) => {
                self.edits.push(e);
                self.edited = true;
            },
            None => {},
        }
        if arrival.collapse {
            self.last_range = SyntaxRange {
                start_point: node.range.start_point,
                end_point: node.range.start_point,
                start_byte: node.range.start_byte,
                end_byte: node.range.start_byte,
            };
        }
        proof {
            let e = arrival_edit(
                whitespace_rule,
                is_ws,
                lsp_span(*current_rope, node.range)->0,
                text@,
                next_text@,
            );
            assert(edits_view(self.edits@) =~= s0.1 + opt_edit(e));
            if rule_writes_layout(whitespace_rule) && layout_edits(s0.1) {
                lemma_arrival_layout(
                    whitespace_rule,
                    is_ws,
                    lsp_span(*current_rope, node.range)->0,
                    text@,
                    next_text@,
                    s0.1,
                );
            }
        }
        if !more {
            return Ok(false);
        }
        if self.tree.nodes[self.at].kind == NodeKind::Comment && matches!(whitespace_rule, WhitespaceEdit::Assert(_)) {
            let moved_on = match self.goto_next_impl() {
                Ok(b) => b,
                Err(_) => return Err(()),
            };
            if moved_on {
                return self.navigate_and_format(whitespace_rule, current_rope);
            }
        }
        Ok(true)
    }

    /// Moves to the first child of the node, which is of the expected kind,
    /// and arrives there.
    pub fn goto_first_child(
        &mut self,
        whitespace_rule: WhitespaceEdit,
        expected_node_kind: NodeKind,
        current_rope: &ropey::Rope,
    ) -> (r: Result<bool, ()>)
        requires
            old(self).inv(),
            old(self).nodes()[old(self).at as int].kind == expected_node_kind,
        ensures
            final(self).tree == old(self).tree,
            final(self).inv(),
            agrees(
                r,
                final(self).state(),
                first_step(
                    old(self).nodes(),
                    *current_rope,
                    whitespace_rule,
                    expected_node_kind,
                    old(self).state(),
                ),
            ),
            r is Ok && is_composite(expected_node_kind) ==> parent_of(
                final(self).nodes(),
                final(self).at,
            ) == Some(old(self).at),
            r is Ok && rule_writes_layout(whitespace_rule) && layout_edits(old(self).state().1)
                ==> layout_edits(final(self).state().1),
    {
        proof {
            assert(links_ok(self.nodes(), self.at as int));
        }
        let result = match self.goto_first_impl() {
            Ok(b) => b,
            Err(_) => return Err(()),
        };
        let arrived = match self.navigate_and_format(whitespace_rule, current_rope) {
            Ok(b) => b,
            Err(_) => return Err(()),
        };
        if !arrived {
            return Ok(false);
        }
        self.check_for_error(result)
    }

    /// Moves to the next sibling and arrives there.
    pub fn goto_next_sibling(&mut self, whitespace_rule: WhitespaceEdit, current_rope: &ropey::Rope) -> (r:
        Result<bool, ()>)
        requires
            old(self).inv(),
        ensures
            final(self).tree == old(self).tree,
            final(self).inv(),
            agrees(
                r,
                final(self).state(),
                next_step(old(self).nodes(), *current_rope, whitespace_rule, old(self).state()),
            ),
            r is Ok ==> final(self).at >= old(self).at && parent_of(
                final(self).nodes(),
                final(self).at,
            ) == parent_of(old(self).nodes(), old(self).at),
            r == Ok::<bool, ()>(true) ==> final(self).at > old(self).at,
            r is Ok && rule_writes_layout(whitespace_rule) && layout_edits(old(self).state().1)
                ==> layout_edits(final(self).state().1),
    {
        let result = match self.goto_next_impl() {
            Ok(b) => b,
            Err(_) => return Err(()),
        };
        let arrived = match self.navigate_and_format(whitespace_rule, current_rope) {
            Ok(b) => b,
            Err(_) => return Err(()),
        };
        if !arrived {
            return Ok(false);
        }
        self.check_for_error(result)
    }

    /// Moves to the parent, where there is one; whether it moved.
    pub fn goto_parent(&mut self) -> (moved: bool)
        requires
            old(self).inv(),
        ensures
            final(self).tree == old(self).tree,
            final(self).inv(),
            final(self).state() == parent_move(old(self).nodes(), old(self).state()),
            moved == (parent_of(old(self).nodes(), old(self).at) is Some),
    {
        proof {
            assert(links_ok(self.nodes(), self.at as int));
        }
        match self.tree.nodes[self.at].parent {
            Some(p) => {
                self.at = p;
                true
            },
            None => false,
        }
    }

    /// Looks back at the span last arrived at (see `revisit_step`).
    pub fn revisit(&mut self, whitespace_rule: WhitespaceEdit, current_rope: &ropey::Rope) -> (r: Result<(), ()>)
        requires
            old(self).inv(),
            !(whitespace_rule is Trailing),
        ensures
            final(self).tree == old(self).tree,
            final(self).inv(),
            final(self).at == old(self).at,
            match revisit_step(*current_rope, whitespace_rule, old(self).state()) {
                Ok(s) => r is Ok && final(self).state() == s,
                Err(_) => r is Err,
            },            r is Ok && rule_writes_layout(whitespace_rule) && layout_edits(old(self).state().1)
                ==> layout_edits(final(self).state().1),
    {
        proof {
            if rule_writes_layout(whitespace_rule) && layout_edits(self.state().1) {
                let text = match whitespace_rule {
                    WhitespaceEdit::Assert(_) => text_of(*current_rope, self.last_range),
                    _ => Some(Seq::empty()),
                };
                if let Some(x) = text {
                    lemma_revisited_layout(
                        whitespace_rule,
                        x,
                        self.edited,
                        lsp_span(*current_rope, self.last_range),
                        self.state().1,
                    );
                }
            }
        }
        let text = match whitespace_rule {
            WhitespaceEdit::Assert(_) => match span_text(
                current_rope,
                self.last_range.start_byte as usize,
                self.last_range.end_byte as usize,
            ) {
                Some(x) => x,
                None => return Err(()),
            },
            _ => String::new(),
        };
        crate::formatting::revisit(
            current_rope,
            whitespace_rule,
            self.last_range,
            text.as_str(),
            self.edited,
            &mut self.edits,
        )
    }
}

} // verus!
