use vstd::prelude::*;

use crate::cursor::{
    first_step, next_step, parent_move, parent_of, revisit_step, text_of, CursorView,
    FormattingCursor,
};
use crate::formatting::{
    edits_view, finish, finished, layout_edits, layout_text, lemma_finished_layout,
    rule_writes_layout, TextEdit, WhitespaceEdit,
};
use crate::positions::{lsp_position, LspRange};
use crate::rope::span_text;
use crate::syntax::{tree_wf, NodeKind, SyntaxNode, SyntaxTree};

verus! {

/// A step's outcome with the flag it reports dropped.
pub open spec fn dropped(o: Result<(CursorView, bool), ()>) -> Result<CursorView, ()> {
    match o {
        Ok((s, _)) => Ok(s),
        Err(_) => Err(()),
    }
}

/// After `o`, a move to the first child of a node of the given kind.
pub open spec fn then_first(
    t: Seq<SyntaxNode>,
    r: ropey::Rope,
    rule: WhitespaceEdit,
    kind: NodeKind,
    o: Result<CursorView, ()>,
) -> Result<CursorView, ()> {
    match o {
        Ok(s) => dropped(first_step(t, r, rule, kind, s)),
        Err(_) => Err(()),
    }
}

/// After `o`, a move to the next sibling.
pub open spec fn then_next(t: Seq<SyntaxNode>, r: ropey::Rope, rule: WhitespaceEdit, o: Result<CursorView, ()>) -> Result<
    CursorView,
    (),
> {
    match o {
        Ok(s) => dropped(next_step(t, r, rule, s)),
        Err(_) => Err(()),
    }
}

/// After `o`, a move to the parent.
pub open spec fn then_up(t: Seq<SyntaxNode>, o: Result<CursorView, ()>) -> Result<CursorView, ()> {
    match o {
        Ok(s) => Ok(parent_move(t, s)),
        Err(_) => Err(()),
    }
}

/// After `o`, a look back at the span last arrived at.
pub open spec fn then_revisit(r: ropey::Rope, rule: WhitespaceEdit, o: Result<CursorView, ()>) -> Result<
    CursorView,
    (),
> {
    match o {
        Ok(s) => revisit_step(r, rule, s),
        Err(_) => Err(()),
    }
}

/// The kind of the node the cursor is at.
pub open spec fn kind_at(t: Seq<SyntaxNode>, s: CursorView) -> NodeKind {
    t[s.0 as int].kind
}

/// Whether an executable result and state are those a layout gives.
pub open spec fn ends_as(r: Result<(), ()>, s: CursorView, o: Result<CursorView, ()>) -> bool {
    match o {
        Ok(s2) => r is Ok && s == s2,
        Err(_) => r is Err,
    }
}

/// What a walk over the children of a cursor's node needs: the tree is
/// well formed and the cursor at one of its nodes.
pub open spec fn walkable(t: Seq<SyntaxNode>, o: Result<CursorView, ()>) -> bool {
    tree_wf(t) && (o matches Ok(s) ==> s.0 < t.len())
}

// ---------------------------------------------------------------------
// The layout of each construct, as the walk that puts it in order.
// ---------------------------------------------------------------------

/// An object parameter `key: value`: nothing around the key, one space
/// after the colon where there is one.
pub open spec fn obj_param_layout(t: Seq<SyntaxNode>, r: ropey::Rope, o: Result<CursorView, ()>) -> Result<
    CursorView,
    (),
> {
    let o1 = then_next(
        t,
        r,
        WhitespaceEdit::Delete,
        then_first(t, r, WhitespaceEdit::Delete, NodeKind::ObjParam, o),
    );
    let o2 = match o1 {
        Ok(s) => if kind_at(t, s) is Colon {
            then_next(t, r, WhitespaceEdit::Assert(" "), Ok(s))
        } else {
            Ok(s)
        },
        Err(_) => Err(()),
    };
    then_up(t, then_next(t, r, WhitespaceEdit::Delete, o2))
}

/// A register `<key: value>`.
pub open spec fn registers_layout(t: Seq<SyntaxNode>, r: ropey::Rope, o: Result<CursorView, ()>) -> Result<
    CursorView,
    (),
> {
    let o1 = then_next(
        t,
        r,
        WhitespaceEdit::Delete,
        then_first(t, r, WhitespaceEdit::Delete, NodeKind::Register, o),
    );
    then_up(t, then_next(t, r, WhitespaceEdit::Delete, obj_param_layout(t, r, o1)))
}

/// The parameters of an object, from the one the cursor is at on: each
/// followed by a comma and a new line indented by four. It stops with an
/// error where a parameter leaves the cursor where it was.
pub open spec fn obj_params_layout(t: Seq<SyntaxNode>, r: ropey::Rope, s: CursorView) -> Result<CursorView, ()>
    decreases t.len() - s.0,
{
    if !(kind_at(t, s) is ObjParam) {
        Ok(s)
    } else {
        let o = then_next(
            t,
            r,
            WhitespaceEdit::Assert("\n    "),
            then_next(t, r, WhitespaceEdit::Trailing(","), obj_param_layout(t, r, Ok(s))),
        );
        match o {
            Ok(s2) => if s2.0 <= s.0 || s2.0 >= t.len() {
                Err(())
            } else {
                obj_params_layout(t, r, s2)
            },
            Err(_) => Err(()),
        }
    }
}

/// The body of an object: `Kind(`, its parameters one per line, `)` on a
/// line of its own.
pub open spec fn obj_inner_layout(t: Seq<SyntaxNode>, r: ropey::Rope, o: Result<CursorView, ()>) -> Result<
    CursorView,
    (),
> {
    let o1 = then_next(
        t,
        r,
        WhitespaceEdit::Assert("\n    "),
        then_next(
            t,
            r,
            WhitespaceEdit::Delete,
            then_first(t, r, WhitespaceEdit::Delete, NodeKind::ObjInner, o),
        ),
    );
    let o2 = match o1 {
        Ok(s) => obj_params_layout(t, r, s),
        Err(_) => Err(()),
    };
    then_up(t, then_revisit(r, WhitespaceEdit::Assert("\n"), o2))
}

/// An object `Name: Kind(...)`: one space after the colon.
pub open spec fn object_layout(t: Seq<SyntaxNode>, r: ropey::Rope, o: Result<CursorView, ()>) -> Result<
    CursorView,
    (),
> {
    let o1 = then_next(
        t,
        r,
        WhitespaceEdit::Assert(" "),
        then_next(
            t,
            r,
            WhitespaceEdit::Delete,
            then_first(t, r, WhitespaceEdit::Delete, NodeKind::Obj, o),
        ),
    );
    then_up(t, obj_inner_layout(t, r, o1))
}

/// A corner of a rectangle `[x y]`: one space between the numbers.
pub open spec fn vb_rect_part_layout(t: Seq<SyntaxNode>, r: ropey::Rope, o: Result<CursorView, ()>) -> Result<
    CursorView,
    (),
> {
    let o1 = then_first(t, r, WhitespaceEdit::Delete, NodeKind::VbRectPart, o);
    let o2 = then_next(t, r, WhitespaceEdit::Assert(" "), then_next(t, r, WhitespaceEdit::Delete, o1));
    then_up(t, then_next(t, r, WhitespaceEdit::Delete, then_next(t, r, WhitespaceEdit::Delete, o2)))
}

/// A rectangle `[[x y] - [x y]]`: one space each side of the dash.
pub open spec fn vb_rect_layout(t: Seq<SyntaxNode>, r: ropey::Rope, o: Result<CursorView, ()>) -> Result<
    CursorView,
    (),
> {
    let o1 = then_next(
        t,
        r,
        WhitespaceEdit::Delete,
        then_first(t, r, WhitespaceEdit::Delete, NodeKind::VbRect, o),
    );
    let o2 = then_next(
        t,
        r,
        WhitespaceEdit::Assert(" "),
        then_next(t, r, WhitespaceEdit::Assert(" "), vb_rect_part_layout(t, r, o1)),
    );
    then_up(t, then_next(t, r, WhitespaceEdit::Delete, vb_rect_part_layout(t, r, o2)))
}

/// A reference to a viewbox `Name[i]` (or a rectangle with an index): no
/// whitespace in it.
pub open spec fn vb_ref_layout(t: Seq<SyntaxNode>, r: ropey::Rope, o: Result<CursorView, ()>) -> Result<
    CursorView,
    (),
> {
    let o1 = then_first(t, r, WhitespaceEdit::Delete, NodeKind::VbRef, o);
    let o2 = match o1 {
        Ok(s) => if kind_at(t, s) is VbRect {
            then_next(t, r, WhitespaceEdit::Delete, vb_rect_layout(t, r, Ok(s)))
        } else {
            then_next(t, r, WhitespaceEdit::Delete, Ok(s))
        },
        Err(_) => Err(()),
    };
    let o3 = then_first(t, r, WhitespaceEdit::Delete, NodeKind::IndexParser, o2);
    let o4 = then_next(
        t,
        r,
        WhitespaceEdit::Delete,
        then_next(t, r, WhitespaceEdit::Delete, then_next(t, r, WhitespaceEdit::Delete, o3)),
    );
    then_up(t, then_up(t, o4))
}

/// The rest of a node's children, with no whitespace between them.
pub open spec fn rest_layout(t: Seq<SyntaxNode>, r: ropey::Rope, s: CursorView) -> Result<CursorView, ()>
    decreases t.len() - s.0,
{
    match next_step(t, r, WhitespaceEdit::Delete, s) {
        Err(_) => Err(()),
        Ok((s2, moved)) => if !moved {
            Ok(s2)
        } else if s2.0 <= s.0 || s2.0 >= t.len() {
            Err(())
        } else {
            rest_layout(t, r, s2)
        },
    }
}

/// The segments of a viewbox, from the one the cursor is at on: each with
/// no whitespace inside, followed by a comma and `one_tab`. It stops with
/// an error where a segment leaves the cursor where it was.
pub open spec fn viewbox_objs_layout(
    t: Seq<SyntaxNode>,
    r: ropey::Rope,
    s: CursorView,
    one_tab: &'static str,
) -> Result<CursorView, ()>
    decreases t.len() - s.0,
{
    if !(kind_at(t, s) is ViewboxObj) {
        Ok(s)
    } else {
        let o1 = then_first(t, r, WhitespaceEdit::Delete, NodeKind::ViewboxObj, Ok(s));
        let o2 = match o1 {
            Ok(s1) => rest_layout(t, r, s1),
            Err(_) => Err(()),
        };
        let o3 = then_next(
            t,
            r,
            WhitespaceEdit::Assert(one_tab),
            then_next(t, r, WhitespaceEdit::Trailing(","), then_up(t, o2)),
        );
        match o3 {
            Ok(s2) => if s2.0 <= s.0 || s2.0 >= t.len() {
                Err(())
            } else {
                viewbox_objs_layout(t, r, s2, one_tab)
            },
            Err(_) => Err(()),
        }
    }
}

/// The body of a viewbox: the direction, then each segment on a line
/// indented by `one_tab`, the closing bracket after `zero_tab`.
pub open spec fn viewbox_inner_layout(
    t: Seq<SyntaxNode>,
    r: ropey::Rope,
    o: Result<CursorView, ()>,
    one_tab: &'static str,
    zero_tab: &'static str,
) -> Result<CursorView, ()> {
    let o1 = then_next(
        t,
        r,
        WhitespaceEdit::Assert(one_tab),
        then_first(t, r, WhitespaceEdit::Delete, NodeKind::ViewboxInner, o),
    );
    let o2 = match o1 {
        Ok(s) => viewbox_objs_layout(t, r, s, one_tab),
        Err(_) => Err(()),
    };
    then_up(t, then_revisit(r, WhitespaceEdit::Assert(zero_tab), o2))
}

/// A viewbox `Name: Ref Body`: one space after the colon and after the
/// reference, its segments indented by four.
pub open spec fn viewbox_layout(t: Seq<SyntaxNode>, r: ropey::Rope, o: Result<CursorView, ()>) -> Result<
    CursorView,
    (),
> {
    let o1 = then_next(
        t,
        r,
        WhitespaceEdit::Assert(" "),
        then_next(
            t,
            r,
            WhitespaceEdit::Delete,
            then_first(t, r, WhitespaceEdit::Delete, NodeKind::Viewbox, o),
        ),
    );
    let o2 = then_next(t, r, WhitespaceEdit::Assert(" "), vb_ref_layout(t, r, o1));
    then_up(t, viewbox_inner_layout(t, r, o2, "\n    ", "\n"))
}

/// An edge of an object's placement: two direction markers, no space.
pub open spec fn edge_layout(t: Seq<SyntaxNode>, r: ropey::Rope, o: Result<CursorView, ()>) -> Result<
    CursorView,
    (),
> {
    let o1 = then_first(t, r, WhitespaceEdit::Delete, NodeKind::Edge, o);
    then_up(t, then_next(t, r, WhitespaceEdit::Delete, then_next(t, r, WhitespaceEdit::Delete, o1)))
}

/// Where an object goes on a slide: `~`, `: Ref`, or `| Ref Body[i]` with
/// the body's segments indented by eight.
pub open spec fn slide_vb_layout(t: Seq<SyntaxNode>, r: ropey::Rope, o: Result<CursorView, ()>) -> Result<
    CursorView,
    (),
> {
    let o1 = then_first(t, r, WhitespaceEdit::Delete, NodeKind::SlideVb, o);
    let o2 = match o1 {
        Ok(s) => if kind_at(t, s) is Tilde {
            then_next(t, r, WhitespaceEdit::Delete, Ok(s))
        } else if kind_at(t, s) is Colon {
            vb_ref_layout(t, r, then_next(t, r, WhitespaceEdit::Assert(" "), Ok(s)))
        } else if kind_at(t, s) is Pipe {
            let p1 = vb_ref_layout(t, r, then_next(t, r, WhitespaceEdit::Assert(" "), Ok(s)));
            let p2 = viewbox_inner_layout(
                t,
                r,
                then_next(t, r, WhitespaceEdit::Assert(" "), p1),
                "\n        ",
                "\n    ",
            );
            let p3 = then_first(
                t,
                r,
                WhitespaceEdit::Delete,
                NodeKind::IndexParser,
                then_next(t, r, WhitespaceEdit::Delete, p2),
            );
            let p4 = then_next(
                t,
                r,
                WhitespaceEdit::Delete,
                then_next(t, r, WhitespaceEdit::Delete, then_next(t, r, WhitespaceEdit::Delete, p3)),
            );
            then_up(t, p4)
        } else {
            Ok(s)
        },
        Err(_) => Err(()),
    };
    then_up(t, o2)
}

/// An object on a slide: its name, where it goes, and its edges, with no
/// whitespace between them.
pub open spec fn slide_obj_layout(t: Seq<SyntaxNode>, r: ropey::Rope, o: Result<CursorView, ()>) -> Result<
    CursorView,
    (),
> {
    let o1 = then_next(
        t,
        r,
        WhitespaceEdit::Delete,
        then_first(t, r, WhitespaceEdit::Delete, NodeKind::SlideObj, o),
    );
    let o2 = match o1 {
        Ok(s) => if kind_at(t, s) is SlideVb {
            then_next(t, r, WhitespaceEdit::Delete, slide_vb_layout(t, r, Ok(s)))
        } else {
            Ok(s)
        },
        Err(_) => Err(()),
    };
    let o3 = match o2 {
        Ok(s) => if kind_at(t, s) is EdgeParser {
            let e1 = edge_layout(
                t,
                r,
                then_first(t, r, WhitespaceEdit::Delete, NodeKind::EdgeParser, Ok(s)),
            );
            let e2 = match e1 {
                Ok(s1) => match next_step(t, r, WhitespaceEdit::Delete, s1) {
                    Err(_) => Err(()),
                    Ok((s2, moved)) => if moved {
                        edge_layout(t, r, Ok(s2))
                    } else {
                        Ok(s2)
                    },
                },
                Err(_) => Err(()),
            };
            then_up(t, e2)
        } else {
            Ok(s)
        },
        Err(_) => Err(()),
    };
    then_up(t, o3)
}

/// The objects of a slide, from the one the cursor is at on: each followed
/// by a comma and a new line indented by four. It stops with an error
/// where an object leaves the cursor where it was.
pub open spec fn slide_objs_layout(t: Seq<SyntaxNode>, r: ropey::Rope, s: CursorView) -> Result<CursorView, ()>
    decreases t.len() - s.0,
{
    if !(kind_at(t, s) is SlideObj) {
        Ok(s)
    } else {
        let o = then_next(
            t,
            r,
            WhitespaceEdit::Assert("\n    "),
            then_next(t, r, WhitespaceEdit::Trailing(","), slide_obj_layout(t, r, Ok(s))),
        );
        match o {
            Ok(s2) => if s2.0 <= s.0 || s2.0 >= t.len() {
                Err(())
            } else {
                slide_objs_layout(t, r, s2)
            },
            Err(_) => Err(()),
        }
    }
}

/// The objects of a slide in braces: one per line indented by four, the
/// closing brace on a line of its own; `{}` stays as it is.
pub open spec fn slide_objects_layout(t: Seq<SyntaxNode>, r: ropey::Rope, o: Result<CursorView, ()>) -> Result<
    CursorView,
    (),
> {
    let o1 = then_next(
        t,
        r,
        WhitespaceEdit::Delete,
        then_first(t, r, WhitespaceEdit::Delete, NodeKind::SlideObjects, o),
    );
    let o2 = match o1 {
        Ok(s) => if kind_at(t, s) is SlideObj {
            let p1 = then_revisit(r, WhitespaceEdit::Assert("\n    "), Ok(s));
            let p2 = match p1 {
                Ok(s1) => slide_objs_layout(t, r, s1),
                Err(_) => Err(()),
            };
            then_revisit(r, WhitespaceEdit::Assert("\n"), p2)
        } else {
            Ok(s)
        },
        Err(_) => Err(()),
    };
    then_up(t, o2)
}

/// The arguments of a slide function, from the one the cursor is at on,
/// up to the closing parenthesis: each followed by a comma and a space.
/// It stops with an error where an argument leaves the cursor where it
/// was.
pub open spec fn arguments_layout(t: Seq<SyntaxNode>, r: ropey::Rope, s: CursorView) -> Result<CursorView, ()>
    decreases t.len() - s.0,
{
    if kind_at(t, s) is RParen {
        Ok(s)
    } else {
        let o = then_next(
            t,
            r,
            WhitespaceEdit::Assert(" "),
            then_next(t, r, WhitespaceEdit::Delete, Ok(s)),
        );
        match o {
            Ok(s2) => if s2.0 <= s.0 || s2.0 >= t.len() {
                Err(())
            } else {
                arguments_layout(t, r, s2)
            },
            Err(_) => Err(()),
        }
    }
}

/// A slide function `name(a, b)`: one space after each comma, none before
/// the closing parenthesis.
pub open spec fn slide_function_layout(t: Seq<SyntaxNode>, r: ropey::Rope, o: Result<CursorView, ()>) -> Result<
    CursorView,
    (),
> {
    let o1 = then_next(
        t,
        r,
        WhitespaceEdit::Delete,
        then_next(
            t,
            r,
            WhitespaceEdit::Delete,
            then_first(t, r, WhitespaceEdit::Delete, NodeKind::SlideFunction, o),
        ),
    );
    let o2 = match o1 {
        Ok(s) => arguments_layout(t, r, s),
        Err(_) => Err(()),
    };
    then_up(t, then_revisit(r, WhitespaceEdit::Delete, o2))
}

/// The slide functions, from the one the cursor is at on: each followed by
/// a comma and a new line indented by four. It stops with an error where a
/// function leaves the cursor where it was.
pub open spec fn functions_layout(t: Seq<SyntaxNode>, r: ropey::Rope, s: CursorView) -> Result<CursorView, ()>
    decreases t.len() - s.0,
{
    if !(kind_at(t, s) is SlideFunction) {
        Ok(s)
    } else {
        let o = then_next(
            t,
            r,
            WhitespaceEdit::Assert("\n    "),
            then_next(t, r, WhitespaceEdit::Trailing(","), slide_function_layout(t, r, Ok(s))),
        );
        match o {
            Ok(s2) => if s2.0 <= s.0 || s2.0 >= t.len() {
                Err(())
            } else {
                functions_layout(t, r, s2)
            },
            Err(_) => Err(()),
        }
    }
}

/// Slide functions in brackets: one per line indented by four, the closing
/// bracket on a line of its own; `[]` stays as it is.
pub open spec fn slide_functions_layout(t: Seq<SyntaxNode>, r: ropey::Rope, o: Result<CursorView, ()>) -> Result<
    CursorView,
    (),
> {
    let o1 = then_next(
        t,
        r,
        WhitespaceEdit::Delete,
        then_first(t, r, WhitespaceEdit::Delete, NodeKind::SlideFunctions, o),
    );
    let o2 = match o1 {
        Ok(s) => if kind_at(t, s) is SlideFunction {
            let p1 = then_revisit(r, WhitespaceEdit::Assert("\n    "), Ok(s));
            let p2 = match p1 {
                Ok(s1) => functions_layout(t, r, s1),
                Err(_) => Err(()),
            };
            then_revisit(r, WhitespaceEdit::Assert("\n"), p2)
        } else {
            Ok(s)
        },
        Err(_) => Err(()),
    };
    then_up(t, o2)
}

/// A slide: its objects, then its functions right after.
pub open spec fn slide_layout(t: Seq<SyntaxNode>, r: ropey::Rope, o: Result<CursorView, ()>) -> Result<
    CursorView,
    (),
> {
    let o1 = slide_objects_layout(t, r, then_first(t, r, WhitespaceEdit::Delete, NodeKind::Slide, o));
    then_up(t, slide_functions_layout(t, r, then_next(t, r, WhitespaceEdit::Delete, o1)))
}

/// Actions: the slide functions they hold.
pub open spec fn actions_layout(t: Seq<SyntaxNode>, r: ropey::Rope, o: Result<CursorView, ()>) -> Result<
    CursorView,
    (),
> {
    then_up(t, slide_functions_layout(t, r, then_first(t, r, WhitespaceEdit::Delete, NodeKind::Actions, o)))
}

/// One item of the document, by its kind; an error for any other node.
pub open spec fn item_layout(t: Seq<SyntaxNode>, r: ropey::Rope, s: CursorView) -> Result<CursorView, ()> {
    match kind_at(t, s) {
        NodeKind::Obj => object_layout(t, r, Ok(s)),
        NodeKind::Register => registers_layout(t, r, Ok(s)),
        NodeKind::Viewbox => viewbox_layout(t, r, Ok(s)),
        NodeKind::Slide => slide_layout(t, r, Ok(s)),
        NodeKind::Actions => actions_layout(t, r, Ok(s)),
        _ => Err(()),
    }
}

/// The end of the document (see `finished`): the node the cursor is at is
/// the last, and its text is read.
pub open spec fn finish_layout(t: Seq<SyntaxNode>, r: ropey::Rope, s: CursorView) -> Result<
    Seq<(LspRange, Seq<char>)>,
    (),
> {
    match text_of(r, t[s.0 as int].range) {
        None => Err(()),
        Some(text) => {
            let (v, ok) = finished(
                s.3,
                t[s.0 as int].kind is Whitespace,
                text,
                lsp_position(r, s.2.start_point),
                lsp_position(r, s.2.end_point),
                s.1,
            );
            if ok {
                Ok(v)
            } else {
                Err(())
            }
        },
    }
}

/// The items of the document, from the one the cursor is at on, each
/// separated from the next by a blank line; the document ends with a
/// newline. It stops with an error where the walk does not move on.
pub open spec fn items_layout(t: Seq<SyntaxNode>, r: ropey::Rope, s: CursorView) -> Result<
    Seq<(LspRange, Seq<char>)>,
    (),
>
    decreases t.len() - s.0,
{
    match item_layout(t, r, s) {
        Err(_) => Err(()),
        Ok(s1) => match next_step(t, r, WhitespaceEdit::Assert("\n\n"), s1) {
            Err(_) => Err(()),
            Ok((s2, more)) => if !more {
                finish_layout(t, r, s2)
            } else if s2.0 <= s.0 || s2.0 >= t.len() {
                Err(())
            } else {
                items_layout(t, r, s2)
            },
        },
    }
}

/// The edits that format a document, walking its tree from the root.
pub open spec fn code_layout(t: Seq<SyntaxNode>, r: ropey::Rope) -> Result<
    Seq<(LspRange, Seq<char>)>,
    (),
> {
    let s0: CursorView = (0usize, Seq::empty(), t[0].range, false);
    match then_first(t, r, WhitespaceEdit::Delete, NodeKind::SourceFile, Ok(s0)) {
        Ok(s) => items_layout(t, r, s),
        Err(_) => Err(()),
    }
}

// ---------------------------------------------------------------------
// The walk itself.
// ---------------------------------------------------------------------

/// The rules the formatter uses write only spaces, newlines and commas.
proof fn lemma_layout_rules()
    ensures
        rule_writes_layout(WhitespaceEdit::Delete),
        rule_writes_layout(WhitespaceEdit::Assert(" ")),
        rule_writes_layout(WhitespaceEdit::Assert("\n")),
        rule_writes_layout(WhitespaceEdit::Assert("\n    ")),
        rule_writes_layout(WhitespaceEdit::Assert("\n        ")),
        rule_writes_layout(WhitespaceEdit::Assert("\n\n")),
        rule_writes_layout(WhitespaceEdit::Trailing(",")),
{
    reveal_strlit(" ");
    reveal_strlit("\n");
    reveal_strlit("\n    ");
    reveal_strlit("\n        ");
    reveal_strlit("\n\n");
    reveal_strlit(",");
}

/// Formats an object parameter (see `obj_param_layout`).
pub fn format_obj_param(current_rope: &ropey::Rope, cursor: &mut FormattingCursor<'_>) -> (r: Result<(), ()>)
    requires
        old(cursor).inv(),
    ensures
        final(cursor).tree == old(cursor).tree,
        final(cursor).inv(),
        ends_as(
            r,
            final(cursor).state(),
            obj_param_layout(old(cursor).nodes(), *current_rope, Ok(old(cursor).state())),
        ),
        r is Ok ==> final(cursor).at == old(cursor).at,
        r is Ok && layout_edits(old(cursor).state().1) ==> layout_edits(
            final(cursor).state().1,
        ),
{
    proof {
        lemma_layout_rules();
    }
    if cursor.node().kind != NodeKind::ObjParam {
        return Err(());
    }
    match cursor.goto_first_child(WhitespaceEdit::Delete, NodeKind::ObjParam, current_rope) {
        Ok(_) => {},
        Err(_) => return Err(()),
    }
    match cursor.goto_next_sibling(WhitespaceEdit::Delete, current_rope) {
        Ok(_) => {},
        Err(_) => return Err(()),
    }
    if cursor.node().kind == NodeKind::Colon {
        match cursor.goto_next_sibling(WhitespaceEdit::Assert(" "), current_rope) {
            Ok(_) => {},
            Err(_) => return Err(()),
        }
    }
    match cursor.goto_next_sibling(WhitespaceEdit::Delete, current_rope) {
        Ok(_) => {},
        Err(_) => return Err(()),
    }
    cursor.goto_parent();
    Ok(())
}

/// Formats a register (see `registers_layout`).
pub fn format_registers(current_rope: &ropey::Rope, cursor: &mut FormattingCursor<'_>) -> (r: Result<(), ()>)
    requires
        old(cursor).inv(),
    ensures
        final(cursor).tree == old(cursor).tree,
        final(cursor).inv(),
        ends_as(
            r,
            final(cursor).state(),
            registers_layout(old(cursor).nodes(), *current_rope, Ok(old(cursor).state())),
        ),
        r is Ok ==> final(cursor).at == old(cursor).at,
        r is Ok && layout_edits(old(cursor).state().1) ==> layout_edits(
            final(cursor).state().1,
        ),
{
    proof {
        lemma_layout_rules();
    }
    if cursor.node().kind != NodeKind::Register {
        return Err(());
    }
    match cursor.goto_first_child(WhitespaceEdit::Delete, NodeKind::Register, current_rope) {
        Ok(_) => {},
        Err(_) => return Err(()),
    }
    match cursor.goto_next_sibling(WhitespaceEdit::Delete, current_rope) {
        Ok(_) => {},
        Err(_) => return Err(()),
    }
    match format_obj_param(current_rope, cursor) {
        Ok(_) => {},
        Err(_) => return Err(()),
    }
    match cursor.goto_next_sibling(WhitespaceEdit::Delete, current_rope) {
        Ok(_) => {},
        Err(_) => return Err(()),
    }
    cursor.goto_parent();
    Ok(())
}

/// Formats the body of an object (see `obj_inner_layout`).
pub fn format_obj_inner(current_rope: &ropey::Rope, cursor: &mut FormattingCursor<'_>) -> (r: Result<(), ()>)
    requires
        old(cursor).inv(),
    ensures
        final(cursor).tree == old(cursor).tree,
        final(cursor).inv(),
        ends_as(
            r,
            final(cursor).state(),
            obj_inner_layout(old(cursor).nodes(), *current_rope, Ok(old(cursor).state())),
        ),
        r is Ok ==> final(cursor).at == old(cursor).at,
        r is Ok && layout_edits(old(cursor).state().1) ==> layout_edits(
            final(cursor).state().1,
        ),
{
    proof {
        lemma_layout_rules();
    }
    let ghost t = cursor.nodes();
    let ghost x = cursor.at;
    if cursor.node().kind != NodeKind::ObjInner {
        return Err(());
    }
    match cursor.goto_first_child(WhitespaceEdit::Delete, NodeKind::ObjInner, current_rope) {
        Ok(_) => {},
        Err(_) => return Err(()),
    }
    match cursor.goto_next_sibling(WhitespaceEdit::Delete, current_rope) {
        Ok(_) => {},
        Err(_) => return Err(()),
    }
    match cursor.goto_next_sibling(WhitespaceEdit::Assert("\n    "), current_rope) {
        Ok(_) => {},
        Err(_) => return Err(()),
    }
    let ghost target = obj_params_layout(t, *current_rope, cursor.state());
    let ghost tree = cursor.tree;
    while cursor.node().kind == NodeKind::ObjParam
        invariant
            layout_edits(old(cursor).state().1) ==> layout_edits(cursor.state().1),
            cursor.inv(),
            cursor.tree == tree,
            tree == old(cursor).tree,
            cursor.nodes() == t,
            x == old(cursor).at,
            parent_of(t, cursor.at) == Some(x),
            obj_params_layout(t, *current_rope, cursor.state()) == target,
            obj_inner_layout(t, *current_rope, Ok(old(cursor).state())) == then_up(
                t,
                then_revisit(*current_rope, WhitespaceEdit::Assert("\n"), target),
            ),
        decreases t.len() - cursor.at,
    {
        proof {
            lemma_layout_rules();
        }
        let head = cursor.at;
        match format_obj_param(current_rope, cursor) {
            Ok(_) => {},
            Err(_) => return Err(()),
        }
        match cursor.goto_next_sibling(WhitespaceEdit::Trailing(","), current_rope) {
            Ok(_) => {},
            Err(_) => return Err(()),
        }
        match cursor.goto_next_sibling(WhitespaceEdit::Assert("\n    "), current_rope) {
            Ok(_) => {},
            Err(_) => return Err(()),
        }
        if cursor.at <= head {
            return Err(());
        }
    }
    match cursor.revisit(WhitespaceEdit::Assert("\n"), current_rope) {
        Ok(_) => {},
        Err(_) => return Err(()),
    }
    cursor.goto_parent();
    Ok(())
}

/// Formats an object (see `object_layout`).
pub fn format_object(current_rope: &ropey::Rope, cursor: &mut FormattingCursor<'_>) -> (r: Result<(), ()>)
    requires
        old(cursor).inv(),
    ensures
        final(cursor).tree == old(cursor).tree,
        final(cursor).inv(),
        ends_as(
            r,
            final(cursor).state(),
            object_layout(old(cursor).nodes(), *current_rope, Ok(old(cursor).state())),
        ),
        r is Ok ==> final(cursor).at == old(cursor).at,
        r is Ok && layout_edits(old(cursor).state().1) ==> layout_edits(
            final(cursor).state().1,
        ),
{
    proof {
        lemma_layout_rules();
    }
    if cursor.node().kind != NodeKind::Obj {
        return Err(());
    }
    match cursor.goto_first_child(WhitespaceEdit::Delete, NodeKind::Obj, current_rope) {
        Ok(_) => {},
        Err(_) => return Err(()),
    }
    match cursor.goto_next_sibling(WhitespaceEdit::Delete, current_rope) {
        Ok(_) => {},
        Err(_) => return Err(()),
    }
    match cursor.goto_next_sibling(WhitespaceEdit::Assert(" "), current_rope) {
        Ok(_) => {},
        Err(_) => return Err(()),
    }
    match format_obj_inner(current_rope, cursor) {
        Ok(_) => {},
        Err(_) => return Err(()),
    }
    cursor.goto_parent();
    Ok(())
}

/// Formats a corner of a rectangle (see `vb_rect_part_layout`).
pub fn format_vb_rect_part(current_rope: &ropey::Rope, cursor: &mut FormattingCursor<'_>) -> (r: Result<(), ()>)
    requires
        old(cursor).inv(),
    ensures
        final(cursor).tree == old(cursor).tree,
        final(cursor).inv(),
        ends_as(
            r,
            final(cursor).state(),
            vb_rect_part_layout(old(cursor).nodes(), *current_rope, Ok(old(cursor).state())),
        ),
        r is Ok ==> final(cursor).at == old(cursor).at,
        r is Ok && layout_edits(old(cursor).state().1) ==> layout_edits(
            final(cursor).state().1,
        ),
{
    proof {
        lemma_layout_rules();
    }
    if cursor.node().kind != NodeKind::VbRectPart {
        return Err(());
    }
    match cursor.goto_first_child(WhitespaceEdit::Delete, NodeKind::VbRectPart, current_rope) {
        Ok(_) => {},
        Err(_) => return Err(()),
    }
    match cursor.goto_next_sibling(WhitespaceEdit::Delete, current_rope) {
        Ok(_) => {},
        Err(_) => return Err(()),
    }
    match cursor.goto_next_sibling(WhitespaceEdit::Assert(" "), current_rope) {
        Ok(_) => {},
        Err(_) => return Err(()),
    }
    match cursor.goto_next_sibling(WhitespaceEdit::Delete, current_rope) {
        Ok(_) => {},
        Err(_) => return Err(()),
    }
    match cursor.goto_next_sibling(WhitespaceEdit::Delete, current_rope) {
        Ok(_) => {},
        Err(_) => return Err(()),
    }
    cursor.goto_parent();
    Ok(())
}

/// Formats a rectangle (see `vb_rect_layout`).
pub fn format_vb_rect(current_rope: &ropey::Rope, cursor: &mut FormattingCursor<'_>) -> (r: Result<(), ()>)
    requires
        old(cursor).inv(),
    ensures
        final(cursor).tree == old(cursor).tree,
        final(cursor).inv(),
        ends_as(
            r,
            final(cursor).state(),
            vb_rect_layout(old(cursor).nodes(), *current_rope, Ok(old(cursor).state())),
        ),
        r is Ok ==> final(cursor).at == old(cursor).at,
        r is Ok && layout_edits(old(cursor).state().1) ==> layout_edits(
            final(cursor).state().1,
        ),
{
    proof {
        lemma_layout_rules();
    }
    if cursor.node().kind != NodeKind::VbRect {
        return Err(());
    }
    match cursor.goto_first_child(WhitespaceEdit::Delete, NodeKind::VbRect, current_rope) {
        Ok(_) => {},
        Err(_) => return Err(()),
    }
    match cursor.goto_next_sibling(WhitespaceEdit::Delete, current_rope) {
        Ok(_) => {},
        Err(_) => return Err(()),
    }
    match format_vb_rect_part(current_rope, cursor) {
        Ok(_) => {},
        Err(_) => return Err(()),
    }
    match cursor.goto_next_sibling(WhitespaceEdit::Assert(" "), current_rope) {
        Ok(_) => {},
        Err(_) => return Err(()),
    }
    match cursor.goto_next_sibling(WhitespaceEdit::Assert(" "), current_rope) {
        Ok(_) => {},
        Err(_) => return Err(()),
    }
    match format_vb_rect_part(current_rope, cursor) {
        Ok(_) => {},
        Err(_) => return Err(()),
    }
    match cursor.goto_next_sibling(WhitespaceEdit::Delete, current_rope) {
        Ok(_) => {},
        Err(_) => return Err(()),
    }
    cursor.goto_parent();
    Ok(())
}

/// Formats a reference to a viewbox (see `vb_ref_layout`).
pub fn format_vb_ref(current_rope: &ropey::Rope, cursor: &mut FormattingCursor<'_>) -> (r: Result<(), ()>)
    requires
        old(cursor).inv(),
    ensures
        final(cursor).tree == old(cursor).tree,
        final(cursor).inv(),
        ends_as(
            r,
            final(cursor).state(),
            vb_ref_layout(old(cursor).nodes(), *current_rope, Ok(old(cursor).state())),
        ),
        r is Ok ==> final(cursor).at == old(cursor).at,
        r is Ok && layout_edits(old(cursor).state().1) ==> layout_edits(
            final(cursor).state().1,
        ),
{
    proof {
        lemma_layout_rules();
    }
    if cursor.node().kind != NodeKind::VbRef {
        return Err(());
    }
    match cursor.goto_first_child(WhitespaceEdit::Delete, NodeKind::VbRef, current_rope) {
        Ok(_) => {},
        Err(_) => return Err(()),
    }
    if cursor.node().kind == NodeKind::VbRect {
        match format_vb_rect(current_rope, cursor) {
            Ok(_) => {},
            Err(_) => return Err(()),
        }
        match cursor.goto_next_sibling(WhitespaceEdit::Delete, current_rope) {
            Ok(_) => {},
            Err(_) => return Err(()),
        }
    } else {
        match cursor.goto_next_sibling(WhitespaceEdit::Delete, current_rope) {
            Ok(_) => {},
            Err(_) => return Err(()),
        }
    }
    if cursor.node().kind != NodeKind::IndexParser {
        return Err(());
    }
    match cursor.goto_first_child(WhitespaceEdit::Delete, NodeKind::IndexParser, current_rope) {
        Ok(_) => {},
        Err(_) => return Err(()),
    }
    match cursor.goto_next_sibling(WhitespaceEdit::Delete, current_rope) {
        Ok(_) => {},
        Err(_) => return Err(()),
    }
    match cursor.goto_next_sibling(WhitespaceEdit::Delete, current_rope) {
        Ok(_) => {},
        Err(_) => return Err(()),
    }
    match cursor.goto_next_sibling(WhitespaceEdit::Delete, current_rope) {
        Ok(_) => {},
        Err(_) => return Err(()),
    }
    cursor.goto_parent();
    cursor.goto_parent();
    Ok(())
}

/// Passes the rest of a node's children (see `rest_layout`).
fn pass_rest(current_rope: &ropey::Rope, cursor: &mut FormattingCursor<'_>) -> (r: Result<(), ()>)
    requires
        old(cursor).inv(),
    ensures
        final(cursor).tree == old(cursor).tree,
        final(cursor).inv(),
        ends_as(r, final(cursor).state(), rest_layout(old(cursor).nodes(), *current_rope, old(cursor).state())),
        r is Ok ==> parent_of(final(cursor).nodes(), final(cursor).at) == parent_of(
            old(cursor).nodes(),
            old(cursor).at,
        ),
        r is Ok && layout_edits(old(cursor).state().1) ==> layout_edits(
            final(cursor).state().1,
        ),
{
    proof {
        lemma_layout_rules();
    }
    let ghost t = cursor.nodes();
    let ghost target = rest_layout(t, *current_rope, cursor.state());
    loop
        invariant_except_break
            rest_layout(t, *current_rope, cursor.state()) == target,
        invariant
            layout_edits(old(cursor).state().1) ==> layout_edits(cursor.state().1),
            cursor.inv(),
            cursor.tree == old(cursor).tree,
            cursor.nodes() == t,
            parent_of(t, cursor.at) == parent_of(t, old(cursor).at),
            target == rest_layout(t, *current_rope, old(cursor).state()),
        ensures
            cursor.inv(),
            cursor.tree == old(cursor).tree,
            parent_of(t, cursor.at) == parent_of(t, old(cursor).at),
            target == Ok::<CursorView, ()>(cursor.state()),
            layout_edits(old(cursor).state().1) ==> layout_edits(cursor.state().1),
        decreases t.len() - cursor.at,
    {
        proof {
            lemma_layout_rules();
        }
        let moved = match cursor.goto_next_sibling(WhitespaceEdit::Delete, current_rope) {
            Ok(b) => b,
            Err(_) => return Err(()),
        };
        if !moved {
            break;
        }
    }
    Ok(())
}

/// Formats the segments of a viewbox (see `viewbox_objs_layout`).
fn format_viewbox_objs(current_rope: &ropey::Rope, cursor: &mut FormattingCursor<'_>, one_tab: &'static str) -> (r: Result<(), ()>)
    requires
        old(cursor).inv(),
    ensures
        final(cursor).tree == old(cursor).tree,
        final(cursor).inv(),
        ends_as(r, final(cursor).state(), viewbox_objs_layout(old(cursor).nodes(), *current_rope, old(cursor).state(), one_tab)),
        r is Ok ==> parent_of(final(cursor).nodes(), final(cursor).at) == parent_of(
            old(cursor).nodes(),
            old(cursor).at,
        ),
        r is Ok && layout_text(one_tab@) && layout_edits(old(cursor).state().1) ==> layout_edits(
            final(cursor).state().1,
        ),
{
    proof {
        lemma_layout_rules();
    }
    let ghost t = cursor.nodes();
    let ghost target = viewbox_objs_layout(t, *current_rope, cursor.state(), one_tab);
    while cursor.node().kind == NodeKind::ViewboxObj
        invariant
            layout_edits(old(cursor).state().1) && layout_text(one_tab@) ==> layout_edits(cursor.state().1),
            cursor.inv(),
            cursor.tree == old(cursor).tree,
            cursor.nodes() == t,
            parent_of(t, cursor.at) == parent_of(t, old(cursor).at),
            viewbox_objs_layout(t, *current_rope, cursor.state(), one_tab) == target,
            target == viewbox_objs_layout(t, *current_rope, old(cursor).state(), one_tab),
        decreases t.len() - cursor.at,
    {
        proof {
            lemma_layout_rules();
        }
        let head = cursor.at;
        let ghost here = cursor.at;
        if cursor.node().kind != NodeKind::ViewboxObj {
            return Err(());
        }
        match cursor.goto_first_child(WhitespaceEdit::Delete, NodeKind::ViewboxObj, current_rope) {
            Ok(_) => {},
            Err(_) => return Err(()),
        }
        match pass_rest(current_rope, cursor) {
            Ok(_) => {},
            Err(_) => return Err(()),
        }
        cursor.goto_parent();
        match cursor.goto_next_sibling(WhitespaceEdit::Trailing(","), current_rope) {
            Ok(_) => {},
            Err(_) => return Err(()),
        }
        match cursor.goto_next_sibling(WhitespaceEdit::Assert(one_tab), current_rope) {
            Ok(_) => {},
            Err(_) => return Err(()),
        }
        if cursor.at <= head {
            return Err(());
        }
    }
    Ok(())
}

/// Formats the body of a viewbox (see `viewbox_inner_layout`).
pub fn format_viewbox_inner(current_rope: &ropey::Rope, cursor: &mut FormattingCursor<'_>, one_tab: &'static str, zero_tab: &'static str) -> (r: Result<(), ()>)
    requires
        old(cursor).inv(),
    ensures
        final(cursor).tree == old(cursor).tree,
        final(cursor).inv(),
        ends_as(
            r,
            final(cursor).state(),
            viewbox_inner_layout(old(cursor).nodes(), *current_rope, Ok(old(cursor).state()), one_tab, zero_tab),
        ),
        r is Ok ==> final(cursor).at == old(cursor).at,
        r is Ok && layout_text(one_tab@) && layout_text(zero_tab@) && layout_edits(old(cursor).state().1) ==> layout_edits(
            final(cursor).state().1,
        ),
{
    proof {
        lemma_layout_rules();
    }
    if cursor.node().kind != NodeKind::ViewboxInner {
        return Err(());
    }
    match cursor.goto_first_child(WhitespaceEdit::Delete, NodeKind::ViewboxInner, current_rope) {
        Ok(_) => {},
        Err(_) => return Err(()),
    }
    match cursor.goto_next_sibling(WhitespaceEdit::Assert(one_tab), current_rope) {
        Ok(_) => {},
        Err(_) => return Err(()),
    }
    match format_viewbox_objs(current_rope, cursor, one_tab) {
        Ok(_) => {},
        Err(_) => return Err(()),
    }
    match cursor.revisit(WhitespaceEdit::Assert(zero_tab), current_rope) {
        Ok(_) => {},
        Err(_) => return Err(()),
    }
    cursor.goto_parent();
    Ok(())
}

/// Formats a viewbox (see `viewbox_layout`).
pub fn format_viewbox(current_rope: &ropey::Rope, cursor: &mut FormattingCursor<'_>) -> (r: Result<(), ()>)
    requires
        old(cursor).inv(),
    ensures
        final(cursor).tree == old(cursor).tree,
        final(cursor).inv(),
        ends_as(
            r,
            final(cursor).state(),
            viewbox_layout(old(cursor).nodes(), *current_rope, Ok(old(cursor).state())),
        ),
        r is Ok ==> final(cursor).at == old(cursor).at,
        r is Ok && layout_edits(old(cursor).state().1) ==> layout_edits(
            final(cursor).state().1,
        ),
{
    proof {
        lemma_layout_rules();
    }
    if cursor.node().kind != NodeKind::Viewbox {
        return Err(());
    }
    match cursor.goto_first_child(WhitespaceEdit::Delete, NodeKind::Viewbox, current_rope) {
        Ok(_) => {},
        Err(_) => return Err(()),
    }
    match cursor.goto_next_sibling(WhitespaceEdit::Delete, current_rope) {
        Ok(_) => {},
        Err(_) => return Err(()),
    }
    match cursor.goto_next_sibling(WhitespaceEdit::Assert(" "), current_rope) {
        Ok(_) => {},
        Err(_) => return Err(()),
    }
    match format_vb_ref(current_rope, cursor) {
        Ok(_) => {},
        Err(_) => return Err(()),
    }
    match cursor.goto_next_sibling(WhitespaceEdit::Assert(" "), current_rope) {
        Ok(_) => {},
        Err(_) => return Err(()),
    }
    match format_viewbox_inner(current_rope, cursor, "\n    ", "\n") {
        Ok(_) => {},
        Err(_) => return Err(()),
    }
    cursor.goto_parent();
    Ok(())
}

/// Formats an edge of an object's placement (see `edge_layout`).
pub fn format_edge(current_rope: &ropey::Rope, cursor: &mut FormattingCursor<'_>) -> (r: Result<(), ()>)
    requires
        old(cursor).inv(),
    ensures
        final(cursor).tree == old(cursor).tree,
        final(cursor).inv(),
        ends_as(
            r,
            final(cursor).state(),
            edge_layout(old(cursor).nodes(), *current_rope, Ok(old(cursor).state())),
        ),
        r is Ok ==> final(cursor).at == old(cursor).at,
        r is Ok && layout_edits(old(cursor).state().1) ==> layout_edits(
            final(cursor).state().1,
        ),
{
    proof {
        lemma_layout_rules();
    }
    if cursor.node().kind != NodeKind::Edge {
        return Err(());
    }
    match cursor.goto_first_child(WhitespaceEdit::Delete, NodeKind::Edge, current_rope) {
        Ok(_) => {},
        Err(_) => return Err(()),
    }
    match cursor.goto_next_sibling(WhitespaceEdit::Delete, current_rope) {
        Ok(_) => {},
        Err(_) => return Err(()),
    }
    match cursor.goto_next_sibling(WhitespaceEdit::Delete, current_rope) {
        Ok(_) => {},
        Err(_) => return Err(()),
    }
    cursor.goto_parent();
    Ok(())
}

/// Formats where an object goes on a slide (see `slide_vb_layout`).
pub fn format_slide_vb(current_rope: &ropey::Rope, cursor: &mut FormattingCursor<'_>) -> (r: Result<(), ()>)
    requires
        old(cursor).inv(),
    ensures
        final(cursor).tree == old(cursor).tree,
        final(cursor).inv(),
        ends_as(
            r,
            final(cursor).state(),
            slide_vb_layout(old(cursor).nodes(), *current_rope, Ok(old(cursor).state())),
        ),
        r is Ok ==> final(cursor).at == old(cursor).at,
        r is Ok && layout_edits(old(cursor).state().1) ==> layout_edits(
            final(cursor).state().1,
        ),
{
    proof {
        lemma_layout_rules();
    }
    if cursor.node().kind != NodeKind::SlideVb {
        return Err(());
    }
    match cursor.goto_first_child(WhitespaceEdit::Delete, NodeKind::SlideVb, current_rope) {
        Ok(_) => {},
        Err(_) => return Err(()),
    }
    let kind = cursor.node().kind;
    if kind == NodeKind::Tilde {
        match cursor.goto_next_sibling(WhitespaceEdit::Delete, current_rope) {
            Ok(_) => {},
            Err(_) => return Err(()),
        }
    } else if kind == NodeKind::Colon {
        match cursor.goto_next_sibling(WhitespaceEdit::Assert(" "), current_rope) {
            Ok(_) => {},
            Err(_) => return Err(()),
        }
        match format_vb_ref(current_rope, cursor) {
            Ok(_) => {},
            Err(_) => return Err(()),
        }
    } else if kind == NodeKind::Pipe {
        match cursor.goto_next_sibling(WhitespaceEdit::Assert(" "), current_rope) {
            Ok(_) => {},
            Err(_) => return Err(()),
        }
        match format_vb_ref(current_rope, cursor) {
            Ok(_) => {},
            Err(_) => return Err(()),
        }
        match cursor.goto_next_sibling(WhitespaceEdit::Assert(" "), current_rope) {
            Ok(_) => {},
            Err(_) => return Err(()),
        }
        match format_viewbox_inner(current_rope, cursor, "\n        ", "\n    ") {
            Ok(_) => {},
            Err(_) => return Err(()),
        }
        match cursor.goto_next_sibling(WhitespaceEdit::Delete, current_rope) {
            Ok(_) => {},
            Err(_) => return Err(()),
        }
        if cursor.node().kind != NodeKind::IndexParser {
            return Err(());
        }
        match cursor.goto_first_child(WhitespaceEdit::Delete, NodeKind::IndexParser, current_rope) {
            Ok(_) => {},
            Err(_) => return Err(()),
        }
        match cursor.goto_next_sibling(WhitespaceEdit::Delete, current_rope) {
            Ok(_) => {},
            Err(_) => return Err(()),
        }
        match cursor.goto_next_sibling(WhitespaceEdit::Delete, current_rope) {
            Ok(_) => {},
            Err(_) => return Err(()),
        }
        match cursor.goto_next_sibling(WhitespaceEdit::Delete, current_rope) {
            Ok(_) => {},
            Err(_) => return Err(()),
        }
        cursor.goto_parent();
    }
    cursor.goto_parent();
    Ok(())
}

/// Formats an object on a slide (see `slide_obj_layout`).
pub fn format_slide_obj(current_rope: &ropey::Rope, cursor: &mut FormattingCursor<'_>) -> (r: Result<(), ()>)
    requires
        old(cursor).inv(),
    ensures
        final(cursor).tree == old(cursor).tree,
        final(cursor).inv(),
        ends_as(
            r,
            final(cursor).state(),
            slide_obj_layout(old(cursor).nodes(), *current_rope, Ok(old(cursor).state())),
        ),
        r is Ok ==> final(cursor).at == old(cursor).at,
        r is Ok && layout_edits(old(cursor).state().1) ==> layout_edits(
            final(cursor).state().1,
        ),
{
    proof {
        lemma_layout_rules();
    }
    if cursor.node().kind != NodeKind::SlideObj {
        return Err(());
    }
    match cursor.goto_first_child(WhitespaceEdit::Delete, NodeKind::SlideObj, current_rope) {
        Ok(_) => {},
        Err(_) => return Err(()),
    }
    match cursor.goto_next_sibling(WhitespaceEdit::Delete, current_rope) {
        Ok(_) => {},
        Err(_) => return Err(()),
    }
    if cursor.node().kind == NodeKind::SlideVb {
        match format_slide_vb(current_rope, cursor) {
            Ok(_) => {},
            Err(_) => return Err(()),
        }
        match cursor.goto_next_sibling(WhitespaceEdit::Delete, current_rope) {
            Ok(_) => {},
            Err(_) => return Err(()),
        }
    }
    if cursor.node().kind == NodeKind::EdgeParser {
        if cursor.node().kind != NodeKind::EdgeParser {
            return Err(());
        }
        match cursor.goto_first_child(WhitespaceEdit::Delete, NodeKind::EdgeParser, current_rope) {
            Ok(_) => {},
            Err(_) => return Err(()),
        }
        match format_edge(current_rope, cursor) {
            Ok(_) => {},
            Err(_) => return Err(()),
        }
        let more = match cursor.goto_next_sibling(WhitespaceEdit::Delete, current_rope) {
            Ok(b) => b,
            Err(_) => return Err(()),
        };
        if more {
            match format_edge(current_rope, cursor) {
                Ok(_) => {},
                Err(_) => return Err(()),
            }
        }
        cursor.goto_parent();
    }
    cursor.goto_parent();
    Ok(())
}

/// Formats the objects of a slide (see `slide_objs_layout`).
fn format_slide_objs(current_rope: &ropey::Rope, cursor: &mut FormattingCursor<'_>) -> (r: Result<(), ()>)
    requires
        old(cursor).inv(),
    ensures
        final(cursor).tree == old(cursor).tree,
        final(cursor).inv(),
        ends_as(r, final(cursor).state(), slide_objs_layout(old(cursor).nodes(), *current_rope, old(cursor).state())),
        r is Ok ==> parent_of(final(cursor).nodes(), final(cursor).at) == parent_of(
            old(cursor).nodes(),
            old(cursor).at,
        ),
        r is Ok && layout_edits(old(cursor).state().1) ==> layout_edits(
            final(cursor).state().1,
        ),
{
    proof {
        lemma_layout_rules();
    }
    let ghost t = cursor.nodes();
    let ghost target = slide_objs_layout(t, *current_rope, cursor.state());
    while cursor.node().kind == NodeKind::SlideObj
        invariant
            layout_edits(old(cursor).state().1) ==> layout_edits(cursor.state().1),
            cursor.inv(),
            cursor.tree == old(cursor).tree,
            cursor.nodes() == t,
            parent_of(t, cursor.at) == parent_of(t, old(cursor).at),
            slide_objs_layout(t, *current_rope, cursor.state()) == target,
            target == slide_objs_layout(t, *current_rope, old(cursor).state()),
        decreases t.len() - cursor.at,
    {
        proof {
            lemma_layout_rules();
        }
        let head = cursor.at;
        match format_slide_obj(current_rope, cursor) {
            Ok(_) => {},
            Err(_) => return Err(()),
        }
        match cursor.goto_next_sibling(WhitespaceEdit::Trailing(","), current_rope) {
            Ok(_) => {},
            Err(_) => return Err(()),
        }
        match cursor.goto_next_sibling(WhitespaceEdit::Assert("\n    "), current_rope) {
            Ok(_) => {},
            Err(_) => return Err(()),
        }
        if cursor.at <= head {
            return Err(());
        }
    }
    Ok(())
}

/// Formats the objects of a slide in braces (see `slide_objects_layout`).
pub fn format_slide_objects(current_rope: &ropey::Rope, cursor: &mut FormattingCursor<'_>) -> (r: Result<(), ()>)
    requires
        old(cursor).inv(),
    ensures
        final(cursor).tree == old(cursor).tree,
        final(cursor).inv(),
        ends_as(
            r,
            final(cursor).state(),
            slide_objects_layout(old(cursor).nodes(), *current_rope, Ok(old(cursor).state())),
        ),
        r is Ok ==> final(cursor).at == old(cursor).at,
        r is Ok && layout_edits(old(cursor).state().1) ==> layout_edits(
            final(cursor).state().1,
        ),
{
    proof {
        lemma_layout_rules();
    }
    if cursor.node().kind != NodeKind::SlideObjects {
        return Err(());
    }
    match cursor.goto_first_child(WhitespaceEdit::Delete, NodeKind::SlideObjects, current_rope) {
        Ok(_) => {},
        Err(_) => return Err(()),
    }
    match cursor.goto_next_sibling(WhitespaceEdit::Delete, current_rope) {
        Ok(_) => {},
        Err(_) => return Err(()),
    }
    if cursor.node().kind == NodeKind::SlideObj {
        match cursor.revisit(WhitespaceEdit::Assert("\n    "), current_rope) {
            Ok(_) => {},
            Err(_) => return Err(()),
        }
        match format_slide_objs(current_rope, cursor) {
            Ok(_) => {},
            Err(_) => return Err(()),
        }
        match cursor.revisit(WhitespaceEdit::Assert("\n"), current_rope) {
            Ok(_) => {},
            Err(_) => return Err(()),
        }
    }
    cursor.goto_parent();
    Ok(())
}

/// Formats the arguments of a slide function (see `arguments_layout`).
fn format_arguments(current_rope: &ropey::Rope, cursor: &mut FormattingCursor<'_>) -> (r: Result<(), ()>)
    requires
        old(cursor).inv(),
    ensures
        final(cursor).tree == old(cursor).tree,
        final(cursor).inv(),
        ends_as(r, final(cursor).state(), arguments_layout(old(cursor).nodes(), *current_rope, old(cursor).state())),
        r is Ok ==> parent_of(final(cursor).nodes(), final(cursor).at) == parent_of(
            old(cursor).nodes(),
            old(cursor).at,
        ),
        r is Ok && layout_edits(old(cursor).state().1) ==> layout_edits(
            final(cursor).state().1,
        ),
{
    proof {
        lemma_layout_rules();
    }
    let ghost t = cursor.nodes();
    let ghost target = arguments_layout(t, *current_rope, cursor.state());
    while cursor.node().kind != NodeKind::RParen
        invariant
            layout_edits(old(cursor).state().1) ==> layout_edits(cursor.state().1),
            cursor.inv(),
            cursor.tree == old(cursor).tree,
            cursor.nodes() == t,
            parent_of(t, cursor.at) == parent_of(t, old(cursor).at),
            arguments_layout(t, *current_rope, cursor.state()) == target,
            target == arguments_layout(t, *current_rope, old(cursor).state()),
        decreases t.len() - cursor.at,
    {
        proof {
            lemma_layout_rules();
        }
        let head = cursor.at;
        match cursor.goto_next_sibling(WhitespaceEdit::Delete, current_rope) {
            Ok(_) => {},
            Err(_) => return Err(()),
        }
        match cursor.goto_next_sibling(WhitespaceEdit::Assert(" "), current_rope) {
            Ok(_) => {},
            Err(_) => return Err(()),
        }
        if cursor.at <= head {
            return Err(());
        }
    }
    Ok(())
}

/// Formats a slide function (see `slide_function_layout`).
pub fn format_slide_function(current_rope: &ropey::Rope, cursor: &mut FormattingCursor<'_>) -> (r: Result<(), ()>)
    requires
        old(cursor).inv(),
    ensures
        final(cursor).tree == old(cursor).tree,
        final(cursor).inv(),
        ends_as(
            r,
            final(cursor).state(),
            slide_function_layout(old(cursor).nodes(), *current_rope, Ok(old(cursor).state())),
        ),
        r is Ok ==> final(cursor).at == old(cursor).at,
        r is Ok && layout_edits(old(cursor).state().1) ==> layout_edits(
            final(cursor).state().1,
        ),
{
    proof {
        lemma_layout_rules();
    }
    if cursor.node().kind != NodeKind::SlideFunction {
        return Err(());
    }
    match cursor.goto_first_child(WhitespaceEdit::Delete, NodeKind::SlideFunction, current_rope) {
        Ok(_) => {},
        Err(_) => return Err(()),
    }
    match cursor.goto_next_sibling(WhitespaceEdit::Delete, current_rope) {
        Ok(_) => {},
        Err(_) => return Err(()),
    }
    match cursor.goto_next_sibling(WhitespaceEdit::Delete, current_rope) {
        Ok(_) => {},
        Err(_) => return Err(()),
    }
    match format_arguments(current_rope, cursor) {
        Ok(_) => {},
        Err(_) => return Err(()),
    }
    match cursor.revisit(WhitespaceEdit::Delete, current_rope) {
        Ok(_) => {},
        Err(_) => return Err(()),
    }
    cursor.goto_parent();
    Ok(())
}

/// Formats the slide functions (see `functions_layout`).
fn format_functions(current_rope: &ropey::Rope, cursor: &mut FormattingCursor<'_>) -> (r: Result<(), ()>)
    requires
        old(cursor).inv(),
    ensures
        final(cursor).tree == old(cursor).tree,
        final(cursor).inv(),
        ends_as(r, final(cursor).state(), functions_layout(old(cursor).nodes(), *current_rope, old(cursor).state())),
        r is Ok ==> parent_of(final(cursor).nodes(), final(cursor).at) == parent_of(
            old(cursor).nodes(),
            old(cursor).at,
        ),
        r is Ok && layout_edits(old(cursor).state().1) ==> layout_edits(
            final(cursor).state().1,
        ),
{
    proof {
        lemma_layout_rules();
    }
    let ghost t = cursor.nodes();
    let ghost target = functions_layout(t, *current_rope, cursor.state());
    while cursor.node().kind == NodeKind::SlideFunction
        invariant
            layout_edits(old(cursor).state().1) ==> layout_edits(cursor.state().1),
            cursor.inv(),
            cursor.tree == old(cursor).tree,
            cursor.nodes() == t,
            parent_of(t, cursor.at) == parent_of(t, old(cursor).at),
            functions_layout(t, *current_rope, cursor.state()) == target,
            target == functions_layout(t, *current_rope, old(cursor).state()),
        decreases t.len() - cursor.at,
    {
        proof {
            lemma_layout_rules();
        }
        let head = cursor.at;
        match format_slide_function(current_rope, cursor) {
            Ok(_) => {},
            Err(_) => return Err(()),
        }
        match cursor.goto_next_sibling(WhitespaceEdit::Trailing(","), current_rope) {
            Ok(_) => {},
            Err(_) => return Err(()),
        }
        match cursor.goto_next_sibling(WhitespaceEdit::Assert("\n    "), current_rope) {
            Ok(_) => {},
            Err(_) => return Err(()),
        }
        if cursor.at <= head {
            return Err(());
        }
    }
    Ok(())
}

/// Formats slide functions in brackets (see `slide_functions_layout`).
pub fn format_slide_functions(current_rope: &ropey::Rope, cursor: &mut FormattingCursor<'_>) -> (r: Result<(), ()>)
    requires
        old(cursor).inv(),
    ensures
        final(cursor).tree == old(cursor).tree,
        final(cursor).inv(),
        ends_as(
            r,
            final(cursor).state(),
            slide_functions_layout(old(cursor).nodes(), *current_rope, Ok(old(cursor).state())),
        ),
        r is Ok ==> final(cursor).at == old(cursor).at,
        r is Ok && layout_edits(old(cursor).state().1) ==> layout_edits(
            final(cursor).state().1,
        ),
{
    proof {
        lemma_layout_rules();
    }
    if cursor.node().kind != NodeKind::SlideFunctions {
        return Err(());
    }
    match cursor.goto_first_child(WhitespaceEdit::Delete, NodeKind::SlideFunctions, current_rope) {
        Ok(_) => {},
        Err(_) => return Err(()),
    }
    match cursor.goto_next_sibling(WhitespaceEdit::Delete, current_rope) {
        Ok(_) => {},
        Err(_) => return Err(()),
    }
    if cursor.node().kind == NodeKind::SlideFunction {
        match cursor.revisit(WhitespaceEdit::Assert("\n    "), current_rope) {
            Ok(_) => {},
            Err(_) => return Err(()),
        }
        match format_functions(current_rope, cursor) {
            Ok(_) => {},
            Err(_) => return Err(()),
        }
        match cursor.revisit(WhitespaceEdit::Assert("\n"), current_rope) {
            Ok(_) => {},
            Err(_) => return Err(()),
        }
    }
    cursor.goto_parent();
    Ok(())
}

/// Formats a slide (see `slide_layout`).
pub fn format_slide(current_rope: &ropey::Rope, cursor: &mut FormattingCursor<'_>) -> (r: Result<(), ()>)
    requires
        old(cursor).inv(),
    ensures
        final(cursor).tree == old(cursor).tree,
        final(cursor).inv(),
        ends_as(
            r,
            final(cursor).state(),
            slide_layout(old(cursor).nodes(), *current_rope, Ok(old(cursor).state())),
        ),
        r is Ok ==> final(cursor).at == old(cursor).at,
        r is Ok && layout_edits(old(cursor).state().1) ==> layout_edits(
            final(cursor).state().1,
        ),
{
    proof {
        lemma_layout_rules();
    }
    if cursor.node().kind != NodeKind::Slide {
        return Err(());
    }
    match cursor.goto_first_child(WhitespaceEdit::Delete, NodeKind::Slide, current_rope) {
        Ok(_) => {},
        Err(_) => return Err(()),
    }
    match format_slide_objects(current_rope, cursor) {
        Ok(_) => {},
        Err(_) => return Err(()),
    }
    match cursor.goto_next_sibling(WhitespaceEdit::Delete, current_rope) {
        Ok(_) => {},
        Err(_) => return Err(()),
    }
    match format_slide_functions(current_rope, cursor) {
        Ok(_) => {},
        Err(_) => return Err(()),
    }
    cursor.goto_parent();
    Ok(())
}

/// Formats actions (see `actions_layout`).
pub fn format_actions(current_rope: &ropey::Rope, cursor: &mut FormattingCursor<'_>) -> (r: Result<(), ()>)
    requires
        old(cursor).inv(),
    ensures
        final(cursor).tree == old(cursor).tree,
        final(cursor).inv(),
        ends_as(
            r,
            final(cursor).state(),
            actions_layout(old(cursor).nodes(), *current_rope, Ok(old(cursor).state())),
        ),
        r is Ok ==> final(cursor).at == old(cursor).at,
        r is Ok && layout_edits(old(cursor).state().1) ==> layout_edits(
            final(cursor).state().1,
        ),
{
    proof {
        lemma_layout_rules();
    }
    if cursor.node().kind != NodeKind::Actions {
        return Err(());
    }
    match cursor.goto_first_child(WhitespaceEdit::Delete, NodeKind::Actions, current_rope) {
        Ok(_) => {},
        Err(_) => return Err(()),
    }
    match format_slide_functions(current_rope, cursor) {
        Ok(_) => {},
        Err(_) => return Err(()),
    }
    cursor.goto_parent();
    Ok(())
}

/// Formats one item of the document, by its kind (see `item_layout`).
fn format_item(current_rope: &ropey::Rope, cursor: &mut FormattingCursor<'_>) -> (r: Result<(), ()>)
    requires
        old(cursor).inv(),
    ensures
        final(cursor).tree == old(cursor).tree,
        final(cursor).inv(),
        ends_as(r, final(cursor).state(), item_layout(old(cursor).nodes(), *current_rope, old(cursor).state())),
        r is Ok ==> final(cursor).at == old(cursor).at,
        r is Ok && layout_edits(old(cursor).state().1) ==> layout_edits(
            final(cursor).state().1,
        ),
{
    proof {
        lemma_layout_rules();
    }
    match cursor.node().kind {
        NodeKind::Obj => format_object(current_rope, cursor),
        NodeKind::Register => format_registers(current_rope, cursor),
        NodeKind::Viewbox => format_viewbox(current_rope, cursor),
        NodeKind::Slide => format_slide(current_rope, cursor),
        NodeKind::Actions => format_actions(current_rope, cursor),
        _ => Err(()),
    }
}

/// The edits that format a document (see `code_layout`): each item laid
/// out as its kind says, a blank line between items, a newline at the
/// end. An error where the tree holds a node the parser marked as broken,
/// a node out of place, or a span that is not one of the rope.
pub fn format_code(current_rope: &ropey::Rope, tree: &SyntaxTree) -> (r: Result<Vec<TextEdit>, ()>)
    requires
        tree_wf(tree.nodes@),
    ensures
        match code_layout(tree.nodes@, *current_rope) {
            Ok(v) => r matches Ok(e) && edits_view(e@) == v,
            Err(_) => r is Err,
        },
        r matches Ok(e) ==> layout_edits(edits_view(e@)),
{
    proof {
        lemma_layout_rules();
    }
    let ghost t = tree.nodes@;
    let mut cursor = FormattingCursor::new(tree);
    if cursor.node().kind != NodeKind::SourceFile {
        return Err(());
    }
    match cursor.goto_first_child(WhitespaceEdit::Delete, NodeKind::SourceFile, current_rope) {
        Ok(_) => {},
        Err(_) => return Err(()),
    }
    let ghost target = items_layout(t, *current_rope, cursor.state());
    loop
        invariant
            cursor.inv(),
            cursor.tree == tree,
            cursor.nodes() == t,
            items_layout(t, *current_rope, cursor.state()) == target,
            target == code_layout(t, *current_rope),
            layout_edits(cursor.state().1),
        decreases t.len() - cursor.at,
    {
        proof {
            lemma_layout_rules();
        }
        let head = cursor.at;
        match format_item(current_rope, &mut cursor) {
            Ok(_) => {},
            Err(_) => return Err(()),
        }
        let more = match cursor.goto_next_sibling(WhitespaceEdit::Assert("\n\n"), current_rope) {
            Ok(b) => b,
            Err(_) => return Err(()),
        };
        if !more {
            let node = cursor.node();
            let text = match span_text(current_rope, node.range.start_byte as usize, node.range.end_byte as usize) {
                Some(x) => x,
                None => return Err(()),
            };
            let is_ws = node.kind == NodeKind::Whitespace;
            let last_range = cursor.last_range;
            let edited = cursor.edited;
            proof {
                lemma_finished_layout(
                    edited,
                    is_ws,
                    text@,
                    lsp_position(*current_rope, last_range.start_point),
                    lsp_position(*current_rope, last_range.end_point),
                    cursor.state().1,
                );
            }
            match finish(current_rope, edited, is_ws, text.as_str(), last_range, &mut cursor.edits) {
                Ok(_) => {},
                Err(_) => return Err(()),
            }
            return Ok(cursor.edits);
        }
        assert(cursor.at > head);
    }
}

} // verus!
