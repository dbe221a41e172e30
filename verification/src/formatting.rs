use vstd::prelude::*;

use crate::positions::{
    char_pos_from_byte_pos, char_range_from_byte_range, lsp_position, LspRange,
    Point, Position, SyntaxPoint, SyntaxRange,
};
use crate::strings::str_eq;

verus! {

/// What the formatter does with the whitespace before the node it moves
/// to: delete it, make it read a given text, or make the node after it
/// read a given text.
#[derive(Debug, Clone, Copy)]
pub enum WhitespaceEdit {
    Delete,
    Trailing(&'static str),
    Assert(&'static str),
}

/// A replacement of a range of the document by a new text.
#[derive(Debug)]
pub struct TextEdit {
    pub range: LspRange,
    pub new_text: String,
}

/// An edit as a range and the characters of its new text.
pub open spec fn edit_view(e: TextEdit) -> (LspRange, Seq<char>) {
    (e.range, e.new_text@)
}

/// A list of edits, each as a range and the characters of its new text.
pub open spec fn edits_view(v: Seq<TextEdit>) -> Seq<(LspRange, Seq<char>)> {
    v.map_values(|e: TextEdit| edit_view(e))
}

/// An optional edit as a sequence of at most one.
pub open spec fn opt_edit(e: Option<(LspRange, Seq<char>)>) -> Seq<(LspRange, Seq<char>)> {
    match e {
        Some(x) => seq![x],
        None => Seq::empty(),
    }
}

/// The empty range at the start of a range.
pub open spec fn at_start(range: LspRange) -> LspRange {
    LspRange { start: range.start, end: range.start }
}

/// The edit the formatter makes on arriving at a node that covers `range`
/// and reads `text` (`next_text`: what the node after it reads, looked at
/// only after whitespace under `Trailing`), as a range and a new text;
/// `None` where nothing changes.
pub open spec fn arrival_edit(
    rule: WhitespaceEdit,
    is_whitespace: bool,
    range: LspRange,
    text: Seq<char>,
    next_text: Seq<char>,
) -> Option<(LspRange, Seq<char>)> {
    match rule {
        WhitespaceEdit::Delete => if is_whitespace {
            Some((range, Seq::empty()))
        } else {
            None
        },
        WhitespaceEdit::Assert(a) => if !is_whitespace {
            Some((at_start(range), a@))
        } else if text != a@ {
            Some((range, a@))
        } else {
            None
        },
        WhitespaceEdit::Trailing(t) => if is_whitespace {
            Some((range, if next_text != t@ { t@ } else { Seq::empty() }))
        } else if text != t@ {
            Some((at_start(range), t@))
        } else {
            None
        },
    }
}

/// What arriving at a node does: the edit made, if any, and whether the
/// remembered span shrinks to its start (deleting whitespace that is not
/// there).
pub struct Arrival {
    pub edit: Option<TextEdit>,
    pub collapse: bool,
}

/// The edit made on arriving at a node, given the node's span, whether it
/// is whitespace, what it reads and what the node after it reads. An error
/// where an end of the span is not a position of the rope.
pub fn arrive(
    current_rope: &ropey::Rope,
    rule: WhitespaceEdit,
    node: SyntaxRange,
    is_whitespace: bool,
    text: &str,
    next_text: &str,
) -> (r: Result<Arrival, ()>)
    ensures
        (lsp_position(*current_rope, node.start_point) is None || lsp_position(
            *current_rope,
            node.end_point,
        ) is None) <==> r is Err,
        r matches Ok(a) ==> {
            let range = LspRange {
                start: lsp_position(*current_rope, node.start_point)->0,
                end: lsp_position(*current_rope, node.end_point)->0,
            };
            &&& a.collapse == (rule is Delete && !is_whitespace)
            &&& match a.edit {
                Some(e) => arrival_edit(rule, is_whitespace, range, text@, next_text@) == Some(
                    edit_view(e),
                ),
                None => arrival_edit(rule, is_whitespace, range, text@, next_text@) is None,
            }
        },
{
    let range = match char_range_from_byte_range(node, current_rope) {
        Ok(r) => r,
        Err(_) => return Err(()),
    };
    let start = LspRange { start: range.start, end: range.start };
    let edit = match rule {
        WhitespaceEdit::Delete => if is_whitespace {
            Some(TextEdit { range, new_text: String::new() })
        } else {
            None
        },
        WhitespaceEdit::Assert(a) => if !is_whitespace {
            Some(TextEdit { range: start, new_text: a.to_owned() })
        } else if !str_eq(text, a) {
            Some(TextEdit { range, new_text: a.to_owned() })
        } else {
            None
        },
        WhitespaceEdit::Trailing(t) => if is_whitespace {
            if !str_eq(next_text, t) {
                Some(TextEdit { range, new_text: t.to_owned() })
            } else {
                Some(TextEdit { range, new_text: String::new() })
            }
        } else if !str_eq(text, t) {
            Some(TextEdit { range: start, new_text: t.to_owned() })
        } else {
            None
        },
    };
    let collapse = match rule {
        WhitespaceEdit::Delete => !is_whitespace,
        _ => false,
    };
    Ok(Arrival { edit, collapse })
}

/// The protocol position of a syntax point, if it is one of the rope.
fn position_of(current_rope: &ropey::Rope, p: SyntaxPoint) -> (o: Option<Position>)
    ensures
        o == lsp_position(*current_rope, p),
{
    match char_pos_from_byte_pos(Point { row: p.row as usize, column: p.col as usize }, current_rope) {
        Ok((l, c)) => Some(Position { line: l as u32, character: c as u32 }),
        Err(_) => None,
    }
}

/// What the edits become when the formatter looks back at the whitespace
/// it last passed, which reads `last_text`, once it knows what that
/// whitespace must be (`edited`: whether arriving there made an edit).
pub open spec fn revisited(
    rule: WhitespaceEdit,
    last_text: Seq<char>,
    edited: bool,
    range: Option<LspRange>,
    edits: Seq<(LspRange, Seq<char>)>,
) -> Option<Seq<(LspRange, Seq<char>)>> {
    match rule {
        WhitespaceEdit::Assert(a) => if last_text != a@ {
            if edited {
                if edits.len() > 0 {
                    Some(edits.update(edits.len() - 1, (edits.last().0, a@)))
                } else {
                    Some(edits)
                }
            } else {
                match range {
                    Some(r) => Some(edits.push((r, a@))),
                    None => None,
                }
            }
        } else if edits.len() > 0 {
            Some(edits.drop_last())
        } else {
            Some(edits)
        },
        WhitespaceEdit::Delete => if edited && edits.len() > 0 {
            let last = edits.last();
            if last.0.start != last.0.end {
                Some(edits.update(edits.len() - 1, (last.0, Seq::empty())))
            } else {
                Some(edits.drop_last())
            }
        } else {
            Some(edits)
        },
        WhitespaceEdit::Trailing(_) => Some(edits),
    }
}

/// Looks back at the whitespace last passed, which spans `last_range` and
/// reads `last_text`, and corrects the edits made there: under `Assert`
/// the whitespace must read the asserted text, under `Delete` it goes. An
/// error, with the edits unchanged, where the span must be converted and
/// an end of it is not a position of the rope.
pub fn revisit(
    current_rope: &ropey::Rope,
    rule: WhitespaceEdit,
    last_range: SyntaxRange,
    last_text: &str,
    edited: bool,
    edits: &mut Vec<TextEdit>,
) -> (r: Result<(), ()>)
    requires
        !(rule is Trailing),
    ensures
        ({
            let range = match (
                lsp_position(*current_rope, last_range.start_point),
                lsp_position(*current_rope, last_range.end_point),
            ) {
                (Some(s), Some(e)) => Some(LspRange { start: s, end: e }),
                _ => None,
            };
            match revisited(rule, last_text@, edited, range, edits_view(old(edits)@)) {
                Some(v) => r is Ok && edits_view(final(edits)@) == v,
                None => r is Err && final(edits)@ == old(edits)@,
            }
        }),
{
    let ghost old_view = edits_view(edits@);
    match rule {
        WhitespaceEdit::Assert(a) => {
            if !str_eq(last_text, a) {
                if edited {
                    let n = edits.len();
                    if n > 0 {
                        let range = edits[n - 1].range;
                        edits.set(n - 1, TextEdit { range, new_text: a.to_owned() });
                        assert(edits_view(edits@) =~= old_view.update(
                            n - 1,
                            (old_view.last().0, a@),
                        ));
                    }
                } else {
                    let range = match char_range_from_byte_range(last_range, current_rope) {
                        Ok(r) => r,
                        Err(_) => return Err(()),
                    };
                    edits.push(TextEdit { range, new_text: a.to_owned() });
                    assert(edits_view(edits@) =~= old_view.push((range, a@)));
                }
            } else {
                let n = edits.len();
                if n > 0 {
                    edits.pop();
                    assert(edits_view(edits@) =~= old_view.drop_last());
                }
            }
        },
        WhitespaceEdit::Delete => {
            let n = edits.len();
            if edited && n > 0 {
                let range = edits[n - 1].range;
                if range.start != range.end {
                    edits.set(n - 1, TextEdit { range, new_text: String::new() });
                    assert(edits_view(edits@) =~= old_view.update(
                        n - 1,
                        (range, Seq::empty()),
                    ));
                } else {
                    edits.pop();
                    assert(edits_view(edits@) =~= old_view.drop_last());
                }
            }
        },
        WhitespaceEdit::Trailing(_) => {},
    }
    Ok(())
}

/// The edits at the end of the document: the last edit made goes if the
/// last move made one, and a final newline is inserted after `last_range`
/// (replacing it where the last node is whitespace) unless the last node
/// reads exactly a newline.
pub open spec fn finished(
    edited: bool,
    is_whitespace: bool,
    text: Seq<char>,
    start: Option<Position>,
    end: Option<Position>,
    edits: Seq<(LspRange, Seq<char>)>,
) -> (Seq<(LspRange, Seq<char>)>, bool) {
    let kept = if edited && edits.len() > 0 { edits.drop_last() } else { edits };
    if text == seq!['\n'] {
        (kept, true)
    } else {
        match end {
            None => (kept, false),
            Some(e) => if !is_whitespace {
                (kept.push((LspRange { start: e, end: e }, seq!['\n'])), true)
            } else {
                match start {
                    None => (kept, false),
                    Some(s) => (kept.push((LspRange { start: s, end: e }, seq!['\n'])), true),
                }
            },
        }
    }
}

/// Ends a formatting pass at the last node of the document, which reads
/// `text`, `last_range` being the span last passed. An error where a
/// position it needs is not one of the rope.
pub fn finish(
    current_rope: &ropey::Rope,
    edited: bool,
    is_whitespace: bool,
    text: &str,
    last_range: SyntaxRange,
    edits: &mut Vec<TextEdit>,
) -> (r: Result<(), ()>)
    ensures
        ({
            let (v, ok) = finished(
                edited,
                is_whitespace,
                text@,
                lsp_position(*current_rope, last_range.start_point),
                lsp_position(*current_rope, last_range.end_point),
                edits_view(old(edits)@),
            );
            &&& edits_view(final(edits)@) == v
            &&& ok <==> r is Ok
        }),
{
    let ghost old_view = edits_view(edits@);
    if edited {
        let n = edits.len();
        if n > 0 {
            edits.pop();
            assert(edits_view(edits@) =~= old_view.drop_last());
        }
    }
    let ghost kept = edits_view(edits@);
    proof {
        reveal_strlit("\n");
        assert("\n"@ =~= seq!['\n']);
    }
    if str_eq(text, "\n") {
        return Ok(());
    }
    let end = match position_of(current_rope, last_range.end_point) {
        Some(p) => p,
        None => return Err(()),
    };
    let mut range = LspRange { start: end, end };
    if is_whitespace {
        match position_of(current_rope, last_range.start_point) {
            Some(p) => range.start = p,
            None => return Err(()),
        }
    }
    edits.push(TextEdit { range, new_text: "\n".to_owned() });
    assert(edits_view(edits@) =~= kept.push((range, seq!['\n'])));
    Ok(())
}

/// Whether a text is made of spaces, newlines and commas only.
pub open spec fn layout_text(c: Seq<char>) -> bool {
    forall|i: int| 0 <= i < c.len() ==> c[i] == ' ' || c[i] == '\n' || c[i] == ','
}

/// Whether the new text of every edit is made of spaces, newlines and
/// commas only.
pub open spec fn layout_edits(v: Seq<(LspRange, Seq<char>)>) -> bool {
    forall|i: int| 0 <= i < v.len() ==> layout_text(#[trigger] v[i].1)
}

/// Whether what a rule writes is made of spaces, newlines and commas.
pub open spec fn rule_writes_layout(rule: WhitespaceEdit) -> bool {
    match rule {
        WhitespaceEdit::Delete => true,
        WhitespaceEdit::Assert(a) => layout_text(a@),
        WhitespaceEdit::Trailing(t) => layout_text(t@),
    }
}

/// An edit made on arriving at a node writes only what its rule writes.
pub(crate) proof fn lemma_arrival_layout(
    rule: WhitespaceEdit,
    is_whitespace: bool,
    range: LspRange,
    text: Seq<char>,
    next_text: Seq<char>,
    edits: Seq<(LspRange, Seq<char>)>,
)
    requires
        rule_writes_layout(rule),
        layout_edits(edits),
    ensures
        layout_edits(edits + opt_edit(arrival_edit(rule, is_whitespace, range, text, next_text))),
{
    let v = edits + opt_edit(arrival_edit(rule, is_whitespace, range, text, next_text));
    assert forall|i: int| 0 <= i < v.len() implies layout_text(#[trigger] v[i].1) by {
        if i >= edits.len() {
            assert(layout_text(Seq::<char>::empty()));
        }
    }
}

/// Looking back writes only what its rule writes.
pub(crate) proof fn lemma_revisited_layout(
    rule: WhitespaceEdit,
    last_text: Seq<char>,
    edited: bool,
    range: Option<LspRange>,
    edits: Seq<(LspRange, Seq<char>)>,
)
    requires
        rule_writes_layout(rule),
        layout_edits(edits),
    ensures
        revisited(rule, last_text, edited, range, edits) matches Some(v) ==> layout_edits(v),
{
    assert(layout_text(Seq::<char>::empty()));
    if let Some(v) = revisited(rule, last_text, edited, range, edits) {
        assert forall|i: int| 0 <= i < v.len() implies layout_text(#[trigger] v[i].1) by {
            if i < edits.len() {
                assert(layout_text(edits[i].1));
            }
        }
    }
}

/// The end of a formatting pass writes a newline only.
pub(crate) proof fn lemma_finished_layout(
    edited: bool,
    is_whitespace: bool,
    text: Seq<char>,
    start: Option<Position>,
    end: Option<Position>,
    edits: Seq<(LspRange, Seq<char>)>,
)
    requires
        layout_edits(edits),
    ensures
        layout_edits(finished(edited, is_whitespace, text, start, end, edits).0),
{
    let v = finished(edited, is_whitespace, text, start, end, edits).0;
    assert(layout_text(seq!['\n']));
    assert forall|i: int| 0 <= i < v.len() implies layout_text(#[trigger] v[i].1) by {
        if i < edits.len() {
            assert(layout_text(edits[i].1));
        }
    }
}

} // verus!
