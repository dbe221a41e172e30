use vstd::prelude::*;
use vstd::utf8::encode_utf8;

use crate::formatting::{edit_view, edits_view, opt_edit, TextEdit};
use crate::positions::{LspRange, Position};
use crate::strings::str_eq;

verus! {

/// Whether a character is white space, as `char::is_whitespace` decides:
/// the characters with the Unicode `White_Space` property.
pub open spec fn is_white_space(c: char) -> bool {
    ||| c == ' '
    ||| ('\t' <= c && c <= '\r')
    ||| c == '\u{85}'
    ||| c == '\u{A0}'
    ||| c == '\u{1680}'
    ||| ('\u{2000}' <= c && c <= '\u{200A}')
    ||| c == '\u{2028}'
    ||| c == '\u{2029}'
    ||| c == '\u{202F}'
    ||| c == '\u{205F}'
    ||| c == '\u{3000}'
}

/// Text without its trailing white space, as `str::trim_end` gives it.
pub open spec fn trimmed_end(s: Seq<char>) -> Seq<char>
    decreases s.len(),
{
    if s.len() > 0 && is_white_space(s.last()) {
        trimmed_end(s.drop_last())
    } else {
        s
    }
}

/// Text without its leading white space, as `str::trim_start` gives it.
pub open spec fn trimmed_start(s: Seq<char>) -> Seq<char>
    decreases s.len(),
{
    if s.len() > 0 && is_white_space(s[0]) {
        trimmed_start(s.drop_first())
    } else {
        s
    }
}

/// Text without leading and trailing white space, as `str::trim` gives it.
pub open spec fn trimmed(s: Seq<char>) -> Seq<char> {
    trimmed_start(trimmed_end(s))
}

/// Whether a character is white space.
fn white_space(c: char) -> (b: bool)
    ensures
        b == is_white_space(c),
{
    c == ' ' || ('\t' <= c && c <= '\r') || c == '\u{85}' || c == '\u{A0}' || c == '\u{1680}'
        || ('\u{2000}' <= c && c <= '\u{200A}') || c == '\u{2028}' || c == '\u{2029}' || c
        == '\u{202F}' || c == '\u{205F}' || c == '\u{3000}'
}

/// Where the text ends once its trailing white space is dropped.
fn trim_end_at(s: &str) -> (e: usize)
    ensures
        e <= s@.len(),
        trimmed_end(s@) == s@.take(e as int),
{
    let mut e = s.unicode_len();
    assert(s@.take(e as int) =~= s@);
    while e > 0 && white_space(s.get_char(e - 1))
        invariant
            e <= s@.len(),
            trimmed_end(s@) == trimmed_end(s@.take(e as int)),
        decreases e,
    {
        assert(s@.take(e as int).drop_last() =~= s@.take(e - 1));
        e = e - 1;
    }
    e
}

/// Where the text `s.take(e)` starts once its leading white space is
/// dropped.
fn trim_start_at(s: &str, e: usize) -> (b: usize)
    requires
        e <= s@.len(),
    ensures
        b <= e,
        trimmed_start(s@.take(e as int)) == s@.subrange(b as int, e as int),
{
    let mut b: usize = 0;
    assert(s@.subrange(0, e as int) =~= s@.take(e as int));
    while b < e && white_space(s.get_char(b))
        invariant
            b <= e <= s@.len(),
            trimmed_start(s@.take(e as int)) == trimmed_start(s@.subrange(b as int, e as int)),
        decreases e - b,
    {
        assert(s@.subrange(b as int, e as int).drop_first() =~= s@.subrange(b + 1, e as int));
        b = b + 1;
    }
    b
}

/// Text without leading and trailing white space, as `str::trim` gives it.
pub fn trim_text(s: &str) -> (r: String)
    ensures
        r@ == trimmed(s@),
{
    let e = trim_end_at(s);
    let b = trim_start_at(s, e);
    String::from_str(s.substring_char(b, e))
}

/// The edit that expands a snippet: where the text typed, trimmed, is
/// `text`, the range from where `text` ends up (counted in bytes past the
/// start of the change) to its end is replaced by `expanded`.
pub open spec fn expansion(change_text: Seq<char>, range: LspRange, text: Seq<char>, expanded: Seq<char>) -> Option<(LspRange, Seq<char>)> {
    if trimmed(change_text) == text {
        let shift = (encode_utf8(trimmed_end(change_text)).len() - encode_utf8(text).len()) as u32;
        let start = range.start.character + shift;
        Some(
            (
                LspRange {
                    start: Position { line: range.start.line, character: start as u32 },
                    end: Position {
                        line: range.end.line,
                        character: (start + encode_utf8(text).len() as u32) as u32,
                    },
                },
                expanded,
            ),
        )
    } else {
        None
    }
}

/// Whether the positions of an expansion fit in 32 bits.
pub open spec fn expansion_fits(change_text: Seq<char>, range: LspRange, text: Seq<char>) -> bool {
    trimmed(change_text) == text ==> {
        let shift = (encode_utf8(trimmed_end(change_text)).len() - encode_utf8(text).len()) as u32;
        range.start.character + shift + (encode_utf8(text).len() as u32) <= u32::MAX
    }
}

/// The edit that expands a snippet typed over `range` (see `expansion`).
pub fn expand_change(change_text: &str, range: LspRange, text: &str, expanded: &str) -> (r: Option<TextEdit>)
    requires
        expansion_fits(change_text@, range, text@),
        encode_utf8(change_text@).len() <= usize::MAX,
    ensures
        match r {
            Some(e) => expansion(change_text@, range, text@, expanded@) == Some(edit_view(e)),
            None => expansion(change_text@, range, text@, expanded@) is None,
        },
{
    let e = trim_end_at(change_text);
    let b = trim_start_at(change_text, e);
    let kept = change_text.substring_char(b, e);
    if !str_eq(kept, text) {
        return None;
    }
    let upto_end = change_text.substring_char(0, e);
    assert(upto_end@ =~= trimmed_end(change_text@));
    assert(trimmed(change_text@) == text@);
    proof {
        lemma_trimmed_len(change_text@, text@);
        let k = e as int;
        assert(change_text@ =~= change_text@.take(k) + change_text@.skip(k));
        lemma_encode_concat(change_text@.take(k), change_text@.skip(k));
        assert(upto_end@ =~= change_text@.take(k));
    }
    assert(upto_end.len() == encode_utf8(upto_end@).len());
    assert(text.len() == encode_utf8(text@).len());
    let shift = (upto_end.len() - text.len()) as u32;
    let start = range.start.character + shift;
    let end = start + text.len() as u32;
    Some(
        TextEdit {
            range: LspRange {
                start: Position { line: range.start.line, character: start },
                end: Position { line: range.end.line, character: end },
            },
            new_text: expanded.to_owned(),
        },
    )
}

/// Trimmed text is no longer in bytes than the text it ends.
proof fn lemma_trimmed_len(s: Seq<char>, t: Seq<char>)
    requires
        trimmed(s) == t,
    ensures
        encode_utf8(t).len() <= encode_utf8(trimmed_end(s)).len(),
{
    lemma_trimmed_start_suffix(trimmed_end(s));
    let u = trimmed_end(s);
    let k = (u.len() - t.len()) as int;
    assert(u =~= u.take(k) + t);
    lemma_encode_concat(u.take(k), t);
}

/// The encoding of joined text joins the encodings.
proof fn lemma_encode_concat(a: Seq<char>, b: Seq<char>)
    ensures
        encode_utf8(a + b) == encode_utf8(a) + encode_utf8(b),
    decreases a.len(),
{
    if a.len() == 0 {
        assert(a + b =~= b);
        assert(encode_utf8(a) =~= Seq::<u8>::empty());
        assert(encode_utf8(a) + encode_utf8(b) =~= encode_utf8(b));
    } else {
        lemma_encode_concat(a.drop_first(), b);
        assert((a + b).drop_first() =~= a.drop_first() + b);
        assert((a + b)[0] == a[0]);
    }
}

/// Dropping leading white space leaves a suffix.
proof fn lemma_trimmed_start_suffix(s: Seq<char>)
    ensures
        trimmed_start(s).len() <= s.len(),
        trimmed_start(s) == s.skip(s.len() - trimmed_start(s).len()),
    decreases s.len(),
{
    if s.len() > 0 && is_white_space(s[0]) {
        lemma_trimmed_start_suffix(s.drop_first());
        assert(s.drop_first().skip(s.drop_first().len() - trimmed_start(s).len()) =~= s.skip(
            s.len() - trimmed_start(s).len(),
        ));
    } else {
        assert(s.skip(0) =~= s);
    }
}

/// The snippets the editor expands, each as what is typed and what it
/// becomes: `{}` a slide, `()` an object, `^` and `>` viewboxes.
pub open spec fn snippet(i: int) -> (Seq<char>, Seq<char>) {
    if i == 0 {
        ("{}"@, "{\n    ..,\n}[]"@)
    } else if i == 1 {
        ("()"@, "Object: Paragraph(\n)"@)
    } else if i == 2 {
        ("^"@, "ViewBox: Size[0] ^\n]"@)
    } else {
        (">"@, "ViewBox: Size[0] >\n]"@)
    }
}

/// The edits expanding what was typed over `range`, snippet by snippet
/// for the first `k` snippets.
pub open spec fn snippet_edits(change: Seq<char>, range: LspRange, k: int) -> Seq<(LspRange, Seq<char>)>
    decreases k,
{
    if k <= 0 {
        Seq::empty()
    } else {
        snippet_edits(change, range, k - 1) + opt_edit(
            expansion(change, range, snippet(k - 1).0, snippet(k - 1).1),
        )
    }
}

/// Each snippet typed alone (around white space) expands, by exactly one
/// edit, into its template: `{}` into a slide with its actions list,
/// `()` into a paragraph object, `^` and `>` into viewboxes.
pub proof fn lemma_snippet_templates(change: Seq<char>, range: LspRange)
    ensures
        trimmed(change) == "{}"@ ==> snippet_edits(change, range, 4).len() == 1
            && snippet_edits(change, range, 4)[0].1 == "{\n    ..,\n}[]"@,
        trimmed(change) == "()"@ ==> snippet_edits(change, range, 4).len() == 1
            && snippet_edits(change, range, 4)[0].1 == "Object: Paragraph(\n)"@,
        trimmed(change) == "^"@ ==> snippet_edits(change, range, 4).len() == 1
            && snippet_edits(change, range, 4)[0].1 == "ViewBox: Size[0] ^\n]"@,
        trimmed(change) == ">"@ ==> snippet_edits(change, range, 4).len() == 1
            && snippet_edits(change, range, 4)[0].1 == "ViewBox: Size[0] >\n]"@,
        trimmed(change) != "{}"@ && trimmed(change) != "()"@ && trimmed(change) != "^"@ && trimmed(change)
            != ">"@ ==> snippet_edits(change, range, 4).len() == 0,
{
    reveal_strlit("{}");
    reveal_strlit("()");
    reveal_strlit("^");
    reveal_strlit(">");
    assert("{}"@[0] != "()"@[0]);
    assert("{}"@.len() != "^"@.len() && "{}"@.len() != ">"@.len());
    assert("()"@.len() != "^"@.len() && "()"@.len() != ">"@.len());
    assert("^"@[0] != ">"@[0]);
    reveal_with_fuel(snippet_edits, 5);
}

/// Whether the positions of every expansion fit in 32 bits.
pub open spec fn snippets_fit(change: Seq<char>, range: LspRange) -> bool {
    forall|i: int| 0 <= i < 4 ==> expansion_fits(change, range, #[trigger] snippet(i).0)
}

/// Appends the expansion of one snippet, if it applies.
fn push_expansion(
    edits: &mut Vec<TextEdit>,
    change_text: &str,
    range: LspRange,
    text: &str,
    expanded: &str,
)
    requires
        expansion_fits(change_text@, range, text@),
        encode_utf8(change_text@).len() <= usize::MAX,
    ensures
        edits_view(final(edits)@) == edits_view(old(edits)@) + opt_edit(
            expansion(change_text@, range, text@, expanded@),
        ),
{
    let ghost before = edits@;
    match expand_change(change_text, range, text, expanded) {
        Some(e) => {
            edits.push(e);
            assert(edits_view(edits@) =~= edits_view(before) + seq![edit_view(e)]);
        },
        None => {
            assert(edits_view(edits@) + Seq::<(LspRange, Seq<char>)>::empty() =~= edits_view(edits@));
        },
    }
}

/// The edits that expand what was typed over `range`, for each snippet
/// whose text it is, in order.
pub fn snippet_expansions(change_text: &str, range: LspRange) -> (edits: Vec<TextEdit>)
    requires
        snippets_fit(change_text@, range),
        encode_utf8(change_text@).len() <= usize::MAX,
    ensures
        edits_view(edits@) == snippet_edits(change_text@, range, 4),
{
    proof {
        reveal_strlit("{}");
        reveal_strlit("()");
        reveal_strlit("^");
        reveal_strlit(">");
        assert(expansion_fits(change_text@, range, snippet(0).0));
        assert(expansion_fits(change_text@, range, snippet(1).0));
        assert(expansion_fits(change_text@, range, snippet(2).0));
        assert(expansion_fits(change_text@, range, snippet(3).0));
    }
    let mut edits: Vec<TextEdit> = Vec::new();
    assert(edits_view(edits@) =~= snippet_edits(change_text@, range, 0));
    push_expansion(&mut edits, change_text, range, "{}", "{\n    ..,\n}[]");
    assert(edits_view(edits@) =~= snippet_edits(change_text@, range, 1));
    push_expansion(&mut edits, change_text, range, "()", "Object: Paragraph(\n)");
    assert(edits_view(edits@) =~= snippet_edits(change_text@, range, 2));
    push_expansion(&mut edits, change_text, range, "^", "ViewBox: Size[0] ^\n]");
    assert(edits_view(edits@) =~= snippet_edits(change_text@, range, 3));
    push_expansion(&mut edits, change_text, range, ">", "ViewBox: Size[0] >\n]");
    assert(edits_view(edits@) =~= snippet_edits(change_text@, range, 4));
    edits
}

} // verus!
