use vstd::prelude::*;

use crate::strings::{lemma_split_on_nonempty, parse_unsigned, parse_usize, split_on, split_str, views_of};

verus! {

/// A value of a parameter that could not be read.
#[derive(Debug, Clone, Copy, PartialEq, Eq, Structural)]
pub enum ValueError {
    /// A part of a highlight location is not an integer.
    NotAnInteger,
    /// A sub-box index is missing.
    MissingIndex,
    /// A sub-box index is not a number.
    NotAnIndex,
}

/// A number, or zero with an error where the text is not one.
pub open spec fn number_or_zero(t: Seq<char>) -> usize {
    match parse_unsigned(t) {
        Some(n) => n,
        None => 0,
    }
}

/// The error a number reports, if any.
pub open spec fn number_errors(t: Seq<char>) -> Seq<ValueError> {
    match parse_unsigned(t) {
        Some(_) => Seq::empty(),
        None => seq![ValueError::NotAnInteger],
    }
}

/// The location `[paragraph, line, offset]` that a highlight location
/// such as `2:1:5` names. It is read from the end: the last part is the
/// offset, the one before the line, the one before that the paragraph;
/// missing or unreadable parts are zero, and further parts are ignored.
pub open spec fn highlight_location(t: Seq<char>) -> [usize; 3] {
    let parts = split_on(t, ':');
    let n = parts.len();
    [
        if n >= 3 { number_or_zero(parts[n - 3]) } else { 0 },
        if n >= 2 { number_or_zero(parts[n - 2]) } else { 0 },
        number_or_zero(parts[n - 1]),
    ]
}

/// The errors reading a highlight location reports: one per unreadable
/// part among the last three, from the offset backwards.
pub open spec fn highlight_location_errors(t: Seq<char>) -> Seq<ValueError> {
    let parts = split_on(t, ':');
    let n = parts.len();
    number_errors(parts[n - 1]) + (if n >= 2 { number_errors(parts[n - 2]) } else { Seq::empty() })
        + (if n >= 3 { number_errors(parts[n - 3]) } else { Seq::empty() })
}

/// Reads a number, reporting an error and giving zero where it is not one.
fn number_part(text: &str, errors: &mut Vec<ValueError>) -> (n: usize)
    ensures
        n == number_or_zero(text@),
        final(errors)@ == old(errors)@ + number_errors(text@),
{
    match parse_usize(text) {
        Some(n) => {
            assert(errors@ + number_errors(text@) =~= errors@);
            n
        },
        None => {
            errors.push(ValueError::NotAnInteger);
            0
        },
    }
}

/// Reads the location of a highlight; an empty location means the whole
/// object. Unreadable parts are reported into `errors` and read as zero.
pub fn parse_highlight_locations(text: &str, errors: &mut Vec<ValueError>) -> (r: Option<[usize; 3]>)
    ensures
        text@.len() == 0 ==> r is None && final(errors)@ == old(errors)@,
        text@.len() > 0 ==> r == Some(highlight_location(text@)) && final(errors)@ == old(
            errors,
        )@ + highlight_location_errors(text@),
{
    if text.unicode_len() == 0 {
        return None;
    }
    let parts = split_str(text, ':');
    proof {
        lemma_split_on_nonempty(text@, ':');
    }
    let ghost views = views_of(parts@);
    let n = parts.len();
    let ghost e0 = errors@;
    let offset = number_part(parts[n - 1].as_str(), errors);
    let line = if n >= 2 {
        number_part(parts[n - 2].as_str(), errors)
    } else {
        0
    };
    let ghost e1 = errors@;
    let paragraph = if n >= 3 {
        number_part(parts[n - 3].as_str(), errors)
    } else {
        0
    };
    assert(views[n - 1] == parts@[n - 1]@);
    assert(n >= 2 ==> views[n - 2] == parts@[n - 2]@);
    assert(n >= 3 ==> views[n - 3] == parts@[n - 3]@);
    assert(errors@ =~= old(errors)@ + highlight_location_errors(text@));
    Some([paragraph, line, offset])
}

/// The sub-box index a reference gives: its number, or zero where it is
/// missing or unreadable.
pub open spec fn index_value(text: Option<Seq<char>>) -> usize {
    match text {
        Some(t) => number_or_zero(t),
        None => 0,
    }
}

/// The errors reading a sub-box index reports.
pub open spec fn index_errors(text: Option<Seq<char>>) -> Seq<ValueError> {
    match text {
        Some(t) => match parse_unsigned(t) {
            Some(_) => Seq::empty(),
            None => seq![ValueError::NotAnIndex],
        },
        None => seq![ValueError::MissingIndex],
    }
}

/// The optional text behind an optional string slice.
pub open spec fn text_of(t: Option<&str>) -> Option<Seq<char>> {
    match t {
        Some(s) => Some(s@),
        None => None,
    }
}

/// Reads the sub-box index of a viewbox reference from its text, if the
/// reference has one.
pub fn parse_index(index_text: Option<&str>, errors: &mut Vec<ValueError>) -> (n: usize)
    ensures
        n == index_value(text_of(index_text)),
        final(errors)@ == old(errors)@ + index_errors(text_of(index_text)),
{
    match index_text {
        None => {
            errors.push(ValueError::MissingIndex);
            0
        },
        Some(t) => match parse_usize(t) {
            Some(n) => {
                assert(errors@ + index_errors(text_of(index_text)) =~= errors@);
                n
            },
            None => {
                errors.push(ValueError::NotAnIndex);
                0
            },
        },
    }
}

} // verus!
