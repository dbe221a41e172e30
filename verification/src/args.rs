use vstd::prelude::*;

use crate::strings::{lemma_split_on_nonempty, parse_unsigned, parse_usize, split_on, split_str, views_of};

verus! {

/// Whether a `..` starts at position `i` of `s`.
pub open spec fn dots_at(s: Seq<char>, i: int) -> bool {
    0 <= i && i + 1 < s.len() && s[i] == '.' && s[i + 1] == '.'
}

/// The first position at or after `from` where a `..` starts.
pub open spec fn first_dots_from(s: Seq<char>, from: int) -> Option<int>
    decreases s.len() - from,
{
    if from < 0 || from + 1 >= s.len() {
        None
    } else if dots_at(s, from) {
        Some(from)
    } else {
        first_dots_from(s, from + 1)
    }
}

/// The first and, if there is a `..`, the second of the parts that
/// splitting at `..` gives.
pub open spec fn range_parts(s: Seq<char>) -> (Seq<char>, Option<Seq<char>>) {
    match first_dots_from(s, 0) {
        None => (s, None),
        Some(i) => (
            s.take(i),
            Some(
                match first_dots_from(s, i + 2) {
                    None => s.skip(i + 2),
                    Some(j) => s.subrange(i + 2, j),
                },
            ),
        ),
    }
}

/// The zero-based, end-exclusive range of slides a page range such as
/// `6..8` or `6` selects: pages count from one, and a single page `n`
/// selects the range `n - 1..n`. `None` where a part is not a number.
pub open spec fn page_range(s: Seq<char>) -> Option<(usize, usize)> {
    let (first, second) = range_parts(s);
    match parse_unsigned(first) {
        None => None,
        Some(start) => {
            let end = match second {
                None => Some(start),
                Some(p) => parse_unsigned(p),
            };
            match end {
                None => None,
                Some(e) => Some((if start == 0 { 0 } else { (start - 1) as usize }, e)),
            }
        },
    }
}

/// The first position at or after `from` where a `..` starts.
fn find_dots(s: &str, from: usize) -> (r: Option<usize>)
    requires
        from <= s@.len(),
    ensures
        r matches Some(i) ==> first_dots_from(s@, from as int) == Some(i as int) && from <= i && i
            + 2 <= s@.len(),
        r is None ==> first_dots_from(s@, from as int) is None,
    decreases s@.len() - from,
{
    let n = s.unicode_len();
    if from >= n || n - from < 2 {
        return None;
    }
    if s.get_char(from) == '.' && s.get_char(from + 1) == '.' {
        return Some(from);
    }
    find_dots(s, from + 1)
}

/// Reads the `--index` argument of the exporter: a page or a range of
/// pages.
#[derive(Debug, Clone, Copy)]
pub struct RangeParser;

impl RangeParser {
    /// Reads a page range such as `6..8` or `6` into the zero-based range
    /// of slides it selects (see `page_range`).
    pub fn parse(&self, value: &str) -> (r: Result<core::ops::Range<usize>, ()>)
        ensures
            r matches Ok(range) ==> page_range(value@) == Some((range.start, range.end)),
            r is Err ==> page_range(value@) is None,
    {
        let n = value.unicode_len();
        let ghost parts = range_parts(value@);
        let first: &str;
        let second: Option<&str>;
        match find_dots(value, 0) {
            None => {
                first = value;
                second = None;
            },
            Some(i) => {
                first = value.substring_char(0, i);
                assert(first@ =~= value@.take(i as int));
                let rest_end = match find_dots(value, i + 2) {
                    None => {
                        assert(value@.skip(i + 2) =~= value@.subrange(i + 2, n as int));
                        n
                    },
                    Some(j) => j,
                };
                let p = value.substring_char(i + 2, rest_end);
                assert(parts.1 == Some(p@));
                second = Some(p);
            },
        }
        assert(first@ == parts.0);
        assert(second matches Some(p) ==> parts.1 == Some(p@));
        assert(second is None ==> parts.1 is None);
        let start = match parse_usize(first) {
            Some(s) => s,
            None => return Err(()),
        };
        let end = match second {
            Some(p) => {
                match parse_usize(p) {
                    Some(e) => e,
                    None => return Err(()),
                }
            },
            None => start,
        };
        Ok(start.saturating_sub(1)..end)
    }
}

/// The parts of the `--size` argument of the exporter: whether it ends in
/// `!` (keep the size as given), the text without that `!` (a paper name
/// such as `a4`, or a size), and that text split at `x` into a width and
/// an optional height.
#[derive(Debug, Clone)]
pub struct FitRequest {
    pub keep_size: bool,
    pub name: String,
    pub width: String,
    pub height: Option<String>,
}

/// Reads the `--size` argument of the exporter.
#[derive(Debug, Clone, Copy)]
pub struct FitParser;

impl FitParser {
    /// Splits a size argument such as `1920x1080!`, `512` or `a4` into its
    /// parts; reading the numbers and looking up paper names is left to
    /// the caller.
    pub fn split_request(&self, value: &str) -> (r: FitRequest)
        ensures
            r.keep_size == (value@.len() > 0 && value@.last() == '!'),
            r.name@ == (if r.keep_size { value@.drop_last() } else { value@ }),
            r.width@ == split_on(r.name@, 'x')[0],
            split_on(r.name@, 'x').len() >= 2 ==> (r.height matches Some(h) && h@ == split_on(
                r.name@,
                'x',
            )[1]),
            split_on(r.name@, 'x').len() < 2 ==> r.height is None,
    {
        let n = value.unicode_len();
        let keep_size = n > 0 && value.get_char(n - 1) == '!';
        let name = if keep_size {
            value.substring_char(0, n - 1)
        } else {
            value.substring_char(0, n)
        };
        assert(value@.subrange(0, n as int) =~= value@);
        assert(keep_size ==> value@.subrange(0, n - 1) =~= value@.drop_last());
        let mut parts = split_str(name, 'x');
        proof {
            lemma_split_on_nonempty(name@, 'x');
        }
        let ghost views = views_of(parts@);
        let height = if parts.len() >= 2 {
            let h = parts.remove(1);
            assert(h@ == views[1]);
            Some(h)
        } else {
            None
        };
        let width = parts.remove(0);
        assert(width@ == views[0]);
        FitRequest { keep_size, name: name.to_owned(), width, height }
    }
}

} // verus!
