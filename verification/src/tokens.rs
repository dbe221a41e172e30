use vstd::prelude::*;

use crate::positions::{SyntaxPoint, SyntaxRange};
use crate::rope::{
    len_lines, line_char_count, line_chars_after, line_chars_before, line_chars_from,
    line_chars_until, line_len_chars, rope_line_count,
};

verus! {

/// A node the semantic-token query captured: its span, the index of the
/// capture (the token type) and whether the capture's name is dotted (the
/// token's one modifier).
#[derive(Debug, Clone, Copy, PartialEq, Eq, Structural)]
pub struct Capture {
    pub range: SyntaxRange,
    pub token_type: u32,
    pub has_modifier: bool,
}

/// A token as the language server protocol encodes it: relative to the
/// previous token.
#[derive(Debug, Clone, Copy, PartialEq, Eq, Structural)]
pub struct SemanticToken {
    pub delta_line: u32,
    pub delta_start: u32,
    pub length: u32,
    pub token_type: u32,
    pub token_modifiers_bitset: u32,
}

/// The empty span the encoding starts from.
pub open spec fn origin() -> SyntaxRange {
    SyntaxRange {
        start_point: SyntaxPoint { row: 0, col: 0 },
        end_point: SyntaxPoint { row: 0, col: 0 },
        start_byte: 0,
        end_byte: 0,
    }
}

/// The span the token before capture `i` is relative to: the previous
/// capture's span.
pub open spec fn previous_range(caps: Seq<Capture>, i: int) -> SyntaxRange {
    if i <= 0 {
        origin()
    } else {
        caps[i - 1].range
    }
}

/// The number of lines a span covers.
pub open spec fn line_span(r: SyntaxRange) -> nat {
    if r.start_point.row <= r.end_point.row {
        (r.end_point.row - r.start_point.row + 1) as nat
    } else {
        0
    }
}

/// The token for line `k` (counted from the first line) of a capture,
/// relative to the span `last`: `None` where the rope has no such byte.
pub open spec fn token_at(r: ropey::Rope, last: SyntaxRange, cap: Capture, k: nat) -> Option<SemanticToken> {
    let s = cap.range.start_point;
    let e = cap.range.end_point;
    let line = s.row + k;
    let delta_line = if k == 0 { (s.row - last.end_point.row) as u32 } else { 1u32 };
    let delta_start = if k > 0 {
        0u32
    } else if delta_line == 0 {
        (s.col - last.start_point.col) as u32
    } else {
        s.col
    };
    let length = if k == 0 {
        if e.row > s.row {
            match line_chars_from(r, line, s.col as int) {
                Some(n) => Some(n as u32),
                None => None,
            }
        } else {
            Some((e.col - s.col) as u32)
        }
    } else if line == e.row {
        match line_chars_before(r, line, e.col as int) {
            Some(n) => Some(n as u32),
            None => None,
        }
    } else {
        Some(line_char_count(r, line) as u32)
    };
    match length {
        Some(len) => Some(SemanticToken {
            delta_line,
            delta_start,
            length: len,
            token_type: cap.token_type,
            token_modifiers_bitset: if cap.has_modifier { 1 } else { 0 },
        }),
        None => None,
    }
}

/// The tokens for the first `k` lines of a capture.
pub open spec fn line_tokens(r: ropey::Rope, last: SyntaxRange, cap: Capture, k: nat) -> Option<Seq<SemanticToken>>
    decreases k,
{
    if k == 0 {
        Some(Seq::empty())
    } else {
        match (line_tokens(r, last, cap, (k - 1) as nat), token_at(r, last, cap, (k - 1) as nat)) {
            (Some(ts), Some(t)) => Some(ts.push(t)),
            _ => None,
        }
    }
}

/// The tokens for the first `i` captures: one per line of each capture
/// whose span differs from the one before it; `None` as soon as a line
/// lacks a byte it needs.
pub open spec fn tokens_upto(r: ropey::Rope, caps: Seq<Capture>, i: nat) -> Option<Seq<SemanticToken>>
    decreases i,
{
    if i == 0 {
        Some(Seq::empty())
    } else {
        let j = (i - 1) as int;
        match tokens_upto(r, caps, (i - 1) as nat) {
            None => None,
            Some(ts) => if caps[j].range == previous_range(caps, j) {
                Some(ts)
            } else {
                match line_tokens(r, previous_range(caps, j), caps[j], line_span(caps[j].range)) {
                    Some(more) => Some(ts + more),
                    None => None,
                }
            },
        }
    }
}

/// The encoding never subtracts past zero: each new span starts on or
/// after the line where the previous one ends, and on that same line at or
/// after where the previous one starts; a single-line span does not end
/// before it starts.
pub open spec fn encodable(caps: Seq<Capture>) -> bool {
    forall|i: int|
        0 <= i < caps.len() && #[trigger] caps[i].range != previous_range(caps, i) ==> {
            let c = caps[i].range;
            let l = previous_range(caps, i);
            &&& c.start_point.row >= l.end_point.row
            &&& c.start_point.row == l.end_point.row ==> c.start_point.col >= l.start_point.col
            &&& c.start_point.row == c.end_point.row ==> c.end_point.col >= c.start_point.col
        }
}

/// Every line a new span covers is a line of the rope.
pub open spec fn lines_exist(r: ropey::Rope, caps: Seq<Capture>) -> bool {
    forall|i: int|
        0 <= i < caps.len() && #[trigger] caps[i].range != previous_range(caps, i)
            && caps[i].range.start_point.row <= caps[i].range.end_point.row
            ==> caps[i].range.end_point.row < rope_line_count(r)
}

/// Once a line lacks its token, so do all the lines after it.
proof fn lemma_line_tokens_stay_none(r: ropey::Rope, last: SyntaxRange, cap: Capture, m: nat, n: nat)
    requires
        m <= n,
        line_tokens(r, last, cap, m) is None,
    ensures
        line_tokens(r, last, cap, n) is None,
    decreases n - m,
{
    if m < n {
        lemma_line_tokens_stay_none(r, last, cap, m + 1, n);
    }
}

/// The tokens of one capture, appended to `tokens`; `false` where the rope
/// lacks a byte the capture needs.
fn push_capture_tokens(
    current_rope: &ropey::Rope,
    last: SyntaxRange,
    cap: Capture,
    tokens: &mut Vec<SemanticToken>,
) -> (ok: bool)
    requires
        cap.range.start_point.row >= last.end_point.row,
        cap.range.start_point.row == last.end_point.row ==> cap.range.start_point.col
            >= last.start_point.col,
        cap.range.start_point.row == cap.range.end_point.row ==> cap.range.end_point.col
            >= cap.range.start_point.col,
        cap.range.start_point.row <= cap.range.end_point.row ==> cap.range.end_point.row
            < rope_line_count(*current_rope),
    ensures
        ok == line_tokens(*current_rope, last, cap, line_span(cap.range)) is Some,
        ok ==> final(tokens)@ == old(tokens)@ + line_tokens(
            *current_rope,
            last,
            cap,
            line_span(cap.range),
        )->0,
{
    let s = cap.range.start_point;
    let e = cap.range.end_point;
    if s.row > e.row {
        assert(old(tokens)@ + Seq::<SemanticToken>::empty() =~= old(tokens)@);
        return true;
    }
    let count: u64 = (e.row - s.row) as u64 + 1;
    let mut delta_line: u32 = s.row - last.end_point.row;
    let mut multiline = false;
    let mut k: u64 = 0;
    let ghost base = tokens@;
    while k < count
        invariant
            count == line_span(cap.range),
            s == cap.range.start_point,
            e == cap.range.end_point,
            s.row <= e.row,
            e.row < rope_line_count(*current_rope),
            k <= count,
            multiline == (k > 0),
            delta_line == if k == 0 { (s.row - last.end_point.row) as u32 } else { 1u32 },
            s.row >= last.end_point.row,
            s.row == last.end_point.row ==> s.col >= last.start_point.col,
            s.row == e.row ==> e.col >= s.col,
            line_tokens(*current_rope, last, cap, k as nat) matches Some(ts) && tokens@ == base
                + ts,
        decreases count - k,
    {
        let line: u32 = (s.row as u64 + k) as u32;
        let delta_start: u32 = if multiline {
            0
        } else if delta_line == 0 {
            s.col - last.start_point.col
        } else {
            s.col
        };
        let length: u32 = if k == 0 {
            if e.row - s.row > 0 {
                match line_chars_after(current_rope, line as usize, s.col as usize) {
                    Some(n) => n as u32,
                    None => {
                        proof {
                            lemma_line_tokens_stay_none(*current_rope, last, cap, 1, count as nat);
                        }
                        return false;
                    },
                }
            } else {
                e.col - s.col
            }
        } else if line == e.row {
            match line_chars_until(current_rope, line as usize, e.col as usize) {
                Some(n) => n as u32,
                None => {
                    proof {
                        lemma_line_tokens_stay_none(
                            *current_rope,
                            last,
                            cap,
                            (k + 1) as nat,
                            count as nat,
                        );
                    }
                    return false;
                },
            }
        } else {
            line_len_chars(current_rope, line as usize) as u32
        };
        let t = SemanticToken {
            delta_line,
            delta_start,
            length,
            token_type: cap.token_type,
            token_modifiers_bitset: if cap.has_modifier { 1 } else { 0 },
        };
        assert(token_at(*current_rope, last, cap, k as nat) == Some(t));
        tokens.push(t);
        delta_line = 1;
        multiline = true;
        k = k + 1;
    }
    true
}

/// Once the tokens of a prefix of the captures are missing, so are those
/// of every longer prefix.
proof fn lemma_tokens_stay_none(r: ropey::Rope, caps: Seq<Capture>, m: nat, n: nat)
    requires
        m <= n,
        tokens_upto(r, caps, m) is None,
    ensures
        tokens_upto(r, caps, n) is None,
    decreases n - m,
{
    if m < n {
        lemma_tokens_stay_none(r, caps, m + 1, n);
    }
}

/// The semantic tokens of a document, from the captures of the
/// semantic-token query in the order the query reports them: for each
/// capture whose span differs from the previous capture's, one token per
/// line it covers. `None` where a line lacks a byte index the span names.
pub fn semantic_tokens(current_rope: &ropey::Rope, captures: &Vec<Capture>) -> (result: Option<
    Vec<SemanticToken>,
>)
    requires
        encodable(captures@),
        lines_exist(*current_rope, captures@),
    ensures
        match result {
            Some(v) => tokens_upto(*current_rope, captures@, captures@.len()) == Some(v@),
            None => tokens_upto(*current_rope, captures@, captures@.len()) is None,
        },
{
    let mut tokens: Vec<SemanticToken> = Vec::new();
    let mut last = SyntaxRange {
        start_point: SyntaxPoint { row: 0, col: 0 },
        end_point: SyntaxPoint { row: 0, col: 0 },
        start_byte: 0,
        end_byte: 0,
    };
    let mut i: usize = 0;
    while i < captures.len()
        invariant
            i <= captures.len(),
            encodable(captures@),
            lines_exist(*current_rope, captures@),
            last == previous_range(captures@, i as int),
            tokens_upto(*current_rope, captures@, i as nat) == Some(tokens@),
        decreases captures.len() - i,
    {
        let cap = captures[i];
        if cap.range != last {
            assert(captures@[i as int].range != previous_range(captures@, i as int));
            let ok = push_capture_tokens(current_rope, last, cap, &mut tokens);
            if !ok {
                proof {
                    lemma_tokens_stay_none(
                        *current_rope,
                        captures@,
                        (i + 1) as nat,
                        captures@.len(),
                    );
                }
                return None;
            }
        }
        last = cap.range;
        i = i + 1;
    }
    Some(tokens)
}

/// The semantic tokens of a document, where every line a new span covers
/// is a line of the rope: `None` where one is not, else what
/// `semantic_tokens` gives.
pub fn checked_semantic_tokens(current_rope: &ropey::Rope, captures: &Vec<Capture>) -> (result:
    Option<Option<Vec<SemanticToken>>>)
    requires
        encodable(captures@),
    ensures
        result is None <==> !lines_exist(*current_rope, captures@),
        result matches Some(t) ==> match t {
            Some(v) => tokens_upto(*current_rope, captures@, captures@.len()) == Some(v@),
            None => tokens_upto(*current_rope, captures@, captures@.len()) is None,
        },
{
    let lines = len_lines(current_rope);
    let mut i: usize = 0;
    while i < captures.len()
        invariant
            i <= captures.len(),
            lines == rope_line_count(*current_rope),
            forall|j: int|
                0 <= j < i && #[trigger] captures@[j].range != previous_range(captures@, j)
                    && captures@[j].range.start_point.row <= captures@[j].range.end_point.row
                    ==> captures@[j].range.end_point.row < rope_line_count(*current_rope),
        decreases captures.len() - i,
    {
        let r = captures[i].range;
        let differs = if i == 0 {
            r != SyntaxRange {
                start_point: SyntaxPoint { row: 0, col: 0 },
                end_point: SyntaxPoint { row: 0, col: 0 },
                start_byte: 0,
                end_byte: 0,
            }
        } else {
            r != captures[i - 1].range
        };
        assert(differs == (captures@[i as int].range != previous_range(captures@, i as int)));
        if differs && r.start_point.row <= r.end_point.row && r.end_point.row as usize >= lines {
            return None;
        }
        i = i + 1;
    }
    Some(semantic_tokens(current_rope, captures))
}

/// Where a client places a token, given where it placed the one before:
/// lines add up; on the same line, starts add up.
pub open spec fn decode_step(at: (int, int), t: SemanticToken) -> (int, int) {
    if t.delta_line == 0 {
        (at.0, at.1 + t.delta_start)
    } else {
        (at.0 + t.delta_line, t.delta_start as int)
    }
}

/// Where a client places each token, starting from `start`.
pub open spec fn decode_from(start: (int, int), ts: Seq<SemanticToken>) -> Seq<(int, int)>
    decreases ts.len(),
{
    if ts.len() == 0 {
        Seq::empty()
    } else {
        let before = decode_from(start, ts.drop_last());
        before.push(decode_step(if before.len() == 0 { start } else { before.last() }, ts.last()))
    }
}

/// Where a client places the last token, starting from `start`.
pub open spec fn decoded_end(start: (int, int), ts: Seq<SemanticToken>) -> (int, int) {
    let d = decode_from(start, ts);
    if d.len() == 0 { start } else { d.last() }
}

/// Where a client places each token of a stream.
pub open spec fn decoded(ts: Seq<SemanticToken>) -> Seq<(int, int)> {
    decode_from((0, 0), ts)
}

/// The positions of the first `k` lines of a capture: the first line at
/// the capture's start, the others at their beginning.
pub open spec fn line_positions(cap: Capture, k: nat) -> Seq<(int, int)>
    decreases k,
{
    if k == 0 {
        Seq::empty()
    } else {
        line_positions(cap, (k - 1) as nat).push(
            (
                cap.range.start_point.row + k - 1,
                if k == 1 { cap.range.start_point.col as int } else { 0 },
            ),
        )
    }
}

/// The positions of the lines of the first `n` captures, counting each
/// capture whose span differs from the one before it.
pub open spec fn capture_positions(caps: Seq<Capture>, n: nat) -> Seq<(int, int)>
    decreases n,
{
    if n == 0 {
        Seq::empty()
    } else {
        let j = n - 1;
        capture_positions(caps, (n - 1) as nat) + if caps[j].range == previous_range(caps, j) {
            Seq::empty()
        } else {
            line_positions(caps[j], line_span(caps[j].range))
        }
    }
}

/// Where the last line of a span begins its token: at the start of a
/// single-line span, at the beginning of the line otherwise.
pub open spec fn last_line_start(r: SyntaxRange) -> (int, int) {
    (
        r.end_point.row as int,
        if r.start_point.row < r.end_point.row { 0 } else { r.start_point.col as int },
    )
}

/// Every new span covers at least one line, and none starts on the last
/// line of a multi-line span before it unless that span starts at the
/// beginning of its line.
pub open spec fn decodable(caps: Seq<Capture>) -> bool {
    forall|i: int|
        0 <= i < caps.len() && #[trigger] caps[i].range != previous_range(caps, i) ==> {
            let c = caps[i].range;
            let l = previous_range(caps, i);
            &&& c.start_point.row <= c.end_point.row
            &&& c.start_point.row == l.end_point.row && l.start_point.row < l.end_point.row
                ==> l.start_point.col == 0
        }
}

/// Decoding an appended stream continues from where the first part ended.
proof fn lemma_decode_append(start: (int, int), a: Seq<SemanticToken>, b: Seq<SemanticToken>)
    ensures
        decode_from(start, a + b) == decode_from(start, a) + decode_from(decoded_end(start, a), b),
    decreases b.len(),
{
    if b.len() == 0 {
        assert(a + b =~= a);
        assert(decode_from(start, a) + Seq::<(int, int)>::empty() =~= decode_from(start, a));
    } else {
        lemma_decode_append(start, a, b.drop_last());
        assert((a + b).drop_last() =~= a + b.drop_last());
        assert((a + b).last() == b.last());
        lemma_decode_len(start, a);
        lemma_decode_len(decoded_end(start, a), b.drop_last());
        let before = decode_from(start, a + b.drop_last());
        assert(before =~= decode_from(start, a) + decode_from(decoded_end(start, a), b.drop_last()));
        assert(decode_from(start, a + b) =~= decode_from(start, a) + decode_from(
            decoded_end(start, a),
            b,
        ));
    }
}

/// Decoding gives one position per token.
proof fn lemma_decode_len(start: (int, int), ts: Seq<SemanticToken>)
    ensures
        decode_from(start, ts).len() == ts.len(),
    decreases ts.len(),
{
    if ts.len() > 0 {
        lemma_decode_len(start, ts.drop_last());
    }
}

/// Decoding the tokens of the first `k` lines of a capture, from where the
/// token of the span before it lies, gives the positions of those lines.
proof fn lemma_decode_lines(r: ropey::Rope, last: SyntaxRange, cap: Capture, k: nat)
    requires
        1 <= line_span(cap.range),
        k <= line_span(cap.range),
        cap.range.start_point.row >= last.end_point.row,
        cap.range.start_point.row == last.end_point.row ==> cap.range.start_point.col
            >= last.start_point.col,
        cap.range.start_point.row == last.end_point.row && last.start_point.row
            < last.end_point.row ==> last.start_point.col == 0,
        line_tokens(r, last, cap, k) is Some,
    ensures
        line_tokens(r, last, cap, k)->0.len() == k,
        decode_from(last_line_start(last), line_tokens(r, last, cap, k)->0) == line_positions(cap, k),
    decreases k,
{
    if k > 0 {
        let k1 = (k - 1) as nat;
        lemma_decode_lines(r, last, cap, k1);
        let ts = line_tokens(r, last, cap, k1)->0;
        let t = token_at(r, last, cap, k1)->0;
        assert(line_tokens(r, last, cap, k)->0 == ts.push(t));
        assert(ts.push(t).drop_last() =~= ts);
        lemma_decode_len(last_line_start(last), ts);
    }
}

/// Decoding the tokens of the first `n` captures gives the positions of
/// their lines, and ends where the last line of the span of capture
/// `n - 1` begins its token.
proof fn lemma_decode_upto(r: ropey::Rope, caps: Seq<Capture>, n: nat)
    requires
        encodable(caps),
        decodable(caps),
        n <= caps.len(),
        tokens_upto(r, caps, n) is Some,
    ensures
        decoded(tokens_upto(r, caps, n)->0) == capture_positions(caps, n),
        decoded_end((0, 0), tokens_upto(r, caps, n)->0) == last_line_start(previous_range(caps, n as int)),
    decreases n,
{
    if n > 0 {
        let j = n - 1;
        let n1 = (n - 1) as nat;
        assert(tokens_upto(r, caps, n1) is Some);
        lemma_decode_upto(r, caps, n1);
        let ts = tokens_upto(r, caps, n1)->0;
        if caps[j].range == previous_range(caps, j) {
            assert(capture_positions(caps, n) =~= capture_positions(caps, n1));
        } else {
            let last = previous_range(caps, j);
            let cap = caps[j];
            let span = line_span(cap.range);
            assert(cap.range != previous_range(caps, j));
            lemma_decode_lines(r, last, cap, span);
            let more = line_tokens(r, last, cap, span)->0;
            lemma_decode_append((0, 0), ts, more);
            lemma_decode_len(last_line_start(last), more);
            assert(line_positions(cap, span).len() == span) by {
                lemma_line_positions_len(cap, span);
            }
            assert(decoded(tokens_upto(r, caps, n)->0) =~= capture_positions(caps, n));
            lemma_line_positions_last(cap, span);
        }
    }
}

/// The number of line positions of a capture.
proof fn lemma_line_positions_len(cap: Capture, k: nat)
    ensures
        line_positions(cap, k).len() == k,
    decreases k,
{
    if k > 0 {
        lemma_line_positions_len(cap, (k - 1) as nat);
    }
}

/// The last line of a capture begins its token where its span's last line
/// begins.
proof fn lemma_line_positions_last(cap: Capture, k: nat)
    requires
        k == line_span(cap.range),
        k >= 1,
    ensures
        line_positions(cap, k).last() == last_line_start(cap.range),
{
}

/// Decoding the semantic tokens as a client does (adding up lines, and
/// starts within a line) gives each line of each new span its position:
/// its start for the first line, the beginning of the line for the
/// others. This needs every new span to cover a line, and no span to
/// start on the last line of a multi-line span before it that does not
/// start at the beginning of its line: the start of such a span is counted
/// from the start column of the span before, not from its last token.
pub proof fn lemma_tokens_decode(r: ropey::Rope, caps: Seq<Capture>)
    requires
        encodable(caps),
        decodable(caps),
        tokens_upto(r, caps, caps.len()) is Some,
    ensures
        decoded(tokens_upto(r, caps, caps.len())->0) == capture_positions(caps, caps.len()),
{
    lemma_decode_upto(r, caps, caps.len());
}

} // verus!
