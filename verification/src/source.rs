use vstd::prelude::*;

verus! {

/// Where a piece of source text lies: its first and last line and
/// character, and its bytes.
#[derive(Debug)]
pub struct CharRange {
    pub start_line: usize,
    pub start_character: usize,
    pub end_line: usize,
    pub end_character: usize,
    pub byte_range: core::ops::Range<usize>,
}

impl Clone for CharRange {
    fn clone(&self) -> (r: Self)
        ensures
            r == *self,
    {
        CharRange {
            start_line: self.start_line,
            start_character: self.start_character,
            end_line: self.end_line,
            end_character: self.end_character,
            byte_range: self.byte_range.start..self.byte_range.end,
        }
    }
}

impl CharRange {
    /// The range relative to the start of `rhs`: lines and bytes are counted
    /// from where `rhs` starts. Characters within a line are kept as they
    /// are.
    pub fn sub(self, rhs: CharRange) -> (r: CharRange)
        requires
            rhs.start_line <= self.start_line,
            rhs.start_line <= self.end_line,
            rhs.byte_range.start <= self.byte_range.start,
            rhs.byte_range.start <= self.byte_range.end,
        ensures
            r.start_line == self.start_line - rhs.start_line,
            r.end_line == self.end_line - rhs.start_line,
            r.start_character == self.start_character,
            r.end_character == self.end_character,
            r.byte_range.start == self.byte_range.start - rhs.byte_range.start,
            r.byte_range.end == self.byte_range.end - rhs.byte_range.start,
    {
        let mut s = self;
        s.start_line = s.start_line - rhs.start_line;
        s.end_line = s.end_line - rhs.start_line;
        s.byte_range.start = s.byte_range.start - rhs.byte_range.start;
        s.byte_range.end = s.byte_range.end - rhs.byte_range.start;
        s
    }

    /// The part of a single-line range that an error inside it covers:
    /// `offset` characters in and `len` long. Sources are read as one byte
    /// per character here, as the colour parser does.
    pub fn narrow_to(&mut self, offset: usize, len: usize)
        requires
            old(self).byte_range.start + offset + len <= usize::MAX,
            old(self).start_character + offset + len <= usize::MAX,
        ensures
            final(self).byte_range.start == old(self).byte_range.start + offset,
            final(self).byte_range.end == old(self).byte_range.start + offset + len,
            final(self).start_character == old(self).start_character + offset,
            final(self).end_character == old(self).start_character + offset + len,
            final(self).start_line == old(self).start_line,
            final(self).end_line == old(self).end_line,
    {
        self.byte_range.start = self.byte_range.start + offset;
        self.byte_range.end = self.byte_range.start + len;
        self.start_character = self.start_character + offset;
        self.end_character = self.start_character + len;
    }
}

/// One node inside a string literal of the source.
#[derive(Debug, Clone)]
pub enum LiteralPart {
    /// Plain content between the quotes.
    Content(String),
    /// The content of a raw string.
    RawContent(String),
    /// An escape such as `\"`; its text includes the backslash.
    Escape(String),
    /// Anything else, which is an error.
    Other,
}

/// The value of a string literal: the source text itself where the
/// literal is a single piece, or the text assembled from its pieces.
#[derive(Debug, Clone)]
pub enum StringLiteral {
    FullContent(String),
    Escaped(String),
}

/// Why a piece of a string literal was rejected.
#[derive(Debug, Clone, Copy, PartialEq, Eq, Structural)]
pub enum LiteralError {
    /// Expected string content or an escape.
    ExpectedContent,
}

/// The text a piece contributes when it starts the literal.
pub open spec fn first_piece_text(p: LiteralPart) -> Seq<char> {
    match p {
        LiteralPart::Content(s) => s@,
        LiteralPart::RawContent(s) => s@,
        LiteralPart::Escape(s) => s@.drop_first(),
        LiteralPart::Other => Seq::empty(),
    }
}

/// The text a piece contributes after the first one; raw content only
/// counts as the first piece.
pub open spec fn later_piece_text(p: LiteralPart) -> Seq<char> {
    match p {
        LiteralPart::Content(s) => s@,
        LiteralPart::Escape(s) => s@.drop_first(),
        _ => Seq::empty(),
    }
}

/// Whether a piece is rejected when it starts the literal.
pub open spec fn first_piece_bad(p: LiteralPart) -> bool {
    p is Other
}

/// Whether a piece is rejected after the first one.
pub open spec fn later_piece_bad(p: LiteralPart) -> bool {
    p is Other || p is RawContent
}

/// The text the pieces after the first assemble.
pub open spec fn later_text(parts: Seq<LiteralPart>) -> Seq<char>
    decreases parts.len(),
{
    if parts.len() == 0 {
        Seq::empty()
    } else {
        later_text(parts.drop_last()) + later_piece_text(parts.last())
    }
}

/// The errors the pieces after the first report.
pub open spec fn later_errors(parts: Seq<LiteralPart>) -> Seq<LiteralError>
    decreases parts.len(),
{
    if parts.len() == 0 {
        Seq::empty()
    } else {
        later_errors(parts.drop_last()) + if later_piece_bad(parts.last()) {
            seq![LiteralError::ExpectedContent]
        } else {
            Seq::empty()
        }
    }
}

/// Escapes carry at least their backslash.
pub open spec fn escapes_nonempty(parts: Seq<LiteralPart>) -> bool {
    forall|i: int| 0 <= i < parts.len() ==> (#[trigger] parts[i] matches LiteralPart::Escape(s) ==> s@.len() > 0)
}

impl StringLiteral {
    /// The text of the literal.
    pub open spec fn text(self) -> Seq<char> {
        match self {
            StringLiteral::FullContent(s) => s@,
            StringLiteral::Escaped(s) => s@,
        }
    }

    /// Assembles a literal from its pieces: a single piece is taken as it
    /// stands; otherwise the pieces are joined, each escape without its
    /// backslash. Pieces that are not content or escapes are reported into
    /// `errors` and contribute nothing.
    pub fn parse_from_parts(parts: &Vec<LiteralPart>, errors: &mut Vec<LiteralError>) -> (r: StringLiteral)
        requires
            parts@.len() >= 1,
            escapes_nonempty(parts@),
        ensures
            parts@.len() == 1 ==> r is FullContent,
            parts@.len() > 1 ==> r is Escaped,
            r.text() == first_piece_text(parts@[0]) + later_text(parts@.drop_first()),
            final(errors)@ == old(errors)@ + (if first_piece_bad(parts@[0]) {
                seq![LiteralError::ExpectedContent]
            } else {
                Seq::empty()
            }) + later_errors(parts@.drop_first()),
    {
        let first = match &parts[0] {
            LiteralPart::Content(s) | LiteralPart::RawContent(s) => s.clone(),
            LiteralPart::Escape(s) => {
                assert(parts@[0] matches LiteralPart::Escape(e) ==> e@.len() > 0);
                let n = s.as_str().unicode_len();
                s.as_str().substring_char(1, n).to_owned()
            },
            LiteralPart::Other => {
                errors.push(LiteralError::ExpectedContent);
                String::new()
            },
        };
        assert(first@ =~= first_piece_text(parts@[0]));
        let ghost e0 = errors@;
        if parts.len() == 1 {
            assert(parts@.drop_first() =~= Seq::<LiteralPart>::empty());
            assert(errors@ =~= old(errors)@ + (if first_piece_bad(parts@[0]) {
                seq![LiteralError::ExpectedContent]
            } else {
                Seq::empty()
            }) + later_errors(parts@.drop_first()));
            assert(first@ + later_text(parts@.drop_first()) =~= first@);
            return StringLiteral::FullContent(first);
        }
        let mut result = first;
        let mut k: usize = 1;
        while k < parts.len()
            invariant
                1 <= k <= parts@.len(),
                escapes_nonempty(parts@),
                result@ == first_piece_text(parts@[0]) + later_text(parts@.subrange(1, k as int)),
                errors@ == e0 + later_errors(parts@.subrange(1, k as int)),
            decreases parts@.len() - k,
        {
            let ghost sub = parts@.subrange(1, k + 1);
            assert(sub.drop_last() =~= parts@.subrange(1, k as int));
            assert(sub.last() == parts@[k as int]);
            match &parts[k] {
                LiteralPart::Content(s) => {
                    result.append(s.as_str());
                    assert(errors@ =~= e0 + later_errors(sub));
                },
                LiteralPart::Escape(s) => {
                    assert(parts@[k as int] matches LiteralPart::Escape(e) ==> e@.len() > 0);
                    let n = s.as_str().unicode_len();
                    result.append(s.as_str().substring_char(1, n));
                    assert(s@.subrange(1, n as int) =~= s@.drop_first());
                    assert(errors@ =~= e0 + later_errors(sub));
                },
                _ => {
                    errors.push(LiteralError::ExpectedContent);
                    assert(errors@ =~= e0 + later_errors(sub));
                },
            }
            assert(result@ =~= first_piece_text(parts@[0]) + later_text(sub));
            k = k + 1;
        }
        assert(parts@.subrange(1, parts@.len() as int) =~= parts@.drop_first());
        StringLiteral::Escaped(result)
    }

    /// Whether the literal is empty.
    pub fn is_empty(&self) -> (r: bool)
        ensures
            r == (self.text().len() == 0),
    {
        match self {
            StringLiteral::FullContent(s) => s.as_str().unicode_len() == 0,
            StringLiteral::Escaped(s) => s.as_str().unicode_len() == 0,
        }
    }

    /// The text of the literal.
    pub fn as_str(&self) -> (s: &str)
        ensures
            s@ == self.text(),
    {
        match self {
            StringLiteral::FullContent(s) => s.as_str(),
            StringLiteral::Escaped(s) => s.as_str(),
        }
    }
}

} // verus!
