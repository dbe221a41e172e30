use vstd::prelude::*;

verus! {

/// The text buffer of `ropey`, held opaque; what the library needs of it
/// is named below, one name per query.
#[verifier::external_type_specification]
#[verifier::external_body]
pub struct ExRope(ropey::Rope);

/// The number of lines of a rope (`Rope::len_lines`).
pub uninterp spec fn rope_line_count(r: ropey::Rope) -> nat;

/// The character index, within a line, of the character that contains a
/// byte index of that line (`RopeSlice::try_byte_to_char`).
pub uninterp spec fn line_char_index(r: ropey::Rope, line: int, byte: int) -> Option<nat>;

/// The byte index, within a line, where a character index of that line
/// starts (`RopeSlice::try_char_to_byte`).
pub uninterp spec fn line_byte_index(r: ropey::Rope, line: int, ch: int) -> Option<nat>;

/// The byte at which a line starts in the rope (`Rope::try_line_to_byte`).
pub uninterp spec fn line_start_byte(r: ropey::Rope, line: int) -> nat;

/// The number of characters of a line (`RopeSlice::len_chars` of
/// `Rope::line`).
pub uninterp spec fn line_char_count(r: ropey::Rope, line: int) -> nat;

/// The number of characters of a line from a byte index on, if that
/// byte index is within the line and on a character boundary.
pub uninterp spec fn line_chars_from(r: ropey::Rope, line: int, byte: int) -> Option<nat>;

/// The number of characters of a line before a byte index, if that byte
/// index is within the line and on a character boundary.
pub uninterp spec fn line_chars_before(r: ropey::Rope, line: int, byte: int) -> Option<nat>;

/// The text of a span of bytes of a rope, if the span is one of the rope:
/// not reversed, not past its end, and not splitting a character.
pub uninterp spec fn rope_span_text(r: ropey::Rope, start: int, end: int) -> Option<Seq<char>>;

/// The text of a span of bytes.
///
/// Calls `Rope::get_byte_slice`, which gives nothing where the span is not
/// one of the rope, and turns the slice it gives into a `String`.
#[verifier::external_body]
pub(crate) fn span_text(r: &ropey::Rope, start: usize, end: usize) -> (t: Option<String>)
    ensures
        t matches Some(s) ==> rope_span_text(*r, start as int, end as int) == Some(s@),
        t is None ==> rope_span_text(*r, start as int, end as int) is None,
{
    match r.get_byte_slice(start..end) {
        Some(s) => Some(s.to_string()),
        None => None,
    }
}

/// The number of bytes of a rope (`Rope::len_bytes`).
pub uninterp spec fn rope_byte_count(r: ropey::Rope) -> nat;

/// The number of bytes of a rope.
///
/// Calls `Rope::len_bytes`.
#[verifier::external_body]
pub(crate) fn len_bytes(r: &ropey::Rope) -> (n: usize)
    ensures
        n == rope_byte_count(*r),
{
    r.len_bytes()
}

/// The number of lines of a rope.
///
/// Calls `Rope::len_lines`.
#[verifier::external_body]
pub(crate) fn len_lines(r: &ropey::Rope) -> (n: usize)
    ensures
        n == rope_line_count(*r),
{
    r.len_lines()
}

/// The character index within a line of the character containing a byte.
///
/// Calls `Rope::line` (which panics past the last line, hence the
/// precondition) and `RopeSlice::try_byte_to_char`, which fails only for a
/// byte index past the end of the line.
#[verifier::external_body]
pub(crate) fn byte_to_char_in_line(r: &ropey::Rope, line: usize, byte: usize) -> (c: Option<usize>)
    requires
        line < rope_line_count(*r),
    ensures
        c matches Some(i) ==> line_char_index(*r, line as int, byte as int) == Some(i as nat),
        c is None ==> line_char_index(*r, line as int, byte as int) is None,
{
    r.line(line).try_byte_to_char(byte).ok()
}

/// The byte index within a line where a character starts.
///
/// Calls `Rope::line` (which panics past the last line) and
/// `RopeSlice::try_char_to_byte`, which fails only for a character index
/// past the end of the line. The byte it gives is where that character
/// starts (the end of the line for the index just past its last
/// character), so `try_byte_to_char` gives the character index back.
#[verifier::external_body]
pub(crate) fn char_to_byte_in_line(r: &ropey::Rope, line: usize, ch: usize) -> (b: Option<usize>)
    requires
        line < rope_line_count(*r),
    ensures
        b matches Some(i) ==> line_byte_index(*r, line as int, ch as int) == Some(i as nat),
        b is None ==> line_byte_index(*r, line as int, ch as int) is None,
        b matches Some(i) ==> line_char_index(*r, line as int, i as int) == Some(ch as nat),
{
    r.line(line).try_char_to_byte(ch).ok()
}

/// The byte at which a line starts.
///
/// Calls `Rope::try_line_to_byte`, which succeeds exactly for line indices
/// up to and including the number of lines.
#[verifier::external_body]
pub(crate) fn line_to_byte(r: &ropey::Rope, line: usize) -> (b: Option<usize>)
    ensures
        line <= rope_line_count(*r) ==> b is Some && b.unwrap() == line_start_byte(
            *r,
            line as int,
        ),
        line > rope_line_count(*r) ==> b is None,
{
    r.try_line_to_byte(line).ok()
}

/// The number of characters of a line.
///
/// Calls `Rope::line` (which panics past the last line) and
/// `RopeSlice::len_chars`.
#[verifier::external_body]
pub(crate) fn line_len_chars(r: &ropey::Rope, line: usize) -> (n: usize)
    requires
        line < rope_line_count(*r),
    ensures
        n == line_char_count(*r, line as int),
{
    r.line(line).len_chars()
}

/// The number of characters of a line from a byte on.
///
/// Calls `Rope::line` (which panics past the last line),
/// `RopeSlice::get_byte_slice` with the range from `byte` on, and
/// `RopeSlice::len_chars`.
#[verifier::external_body]
pub(crate) fn line_chars_after(r: &ropey::Rope, line: usize, byte: usize) -> (n: Option<usize>)
    requires
        line < rope_line_count(*r),
    ensures
        n matches Some(k) ==> line_chars_from(*r, line as int, byte as int) == Some(k as nat),
        n is None ==> line_chars_from(*r, line as int, byte as int) is None,
{
    match r.line(line).get_byte_slice(byte..) {
        Some(s) => Some(s.len_chars()),
        None => None,
    }
}

/// The number of characters of a line before a byte.
///
/// Calls `Rope::line` (which panics past the last line),
/// `RopeSlice::get_byte_slice` with the range up to `byte`, and
/// `RopeSlice::len_chars`.
#[verifier::external_body]
pub(crate) fn line_chars_until(r: &ropey::Rope, line: usize, byte: usize) -> (n: Option<usize>)
    requires
        line < rope_line_count(*r),
    ensures
        n matches Some(k) ==> line_chars_before(*r, line as int, byte as int) == Some(k as nat),
        n is None ==> line_chars_before(*r, line as int, byte as int) is None,
{
    match r.line(line).get_byte_slice(..byte) {
        Some(s) => Some(s.len_chars()),
        None => None,
    }
}

} // verus!
