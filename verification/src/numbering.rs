use vstd::prelude::*;

verus! {

/// How an ordered list counts.
#[derive(Debug, Clone, Copy, PartialEq, Eq, Structural)]
pub enum ListNumbering {
    Decimal,
    AlphaLower,
    AlphaUpper,
    RomanLower,
    RomanUpper,
}

/// How the number of an ordered list item is framed.
#[derive(Debug, Clone, Copy, PartialEq, Eq, Structural)]
pub enum ListStyle {
    /// `1.`
    Period,
    /// `1)`
    Paren,
    /// `(1)`
    ParenParen,
}

/// The kind of a list in the markup of a text object.
#[derive(Debug, Clone, Copy, PartialEq, Eq, Structural)]
pub enum ListType {
    Unordered,
    Ordered { numbering: ListNumbering, style: ListStyle, start: u64 },
    Task,
}

/// The digit character of a value below ten.
pub open spec fn digit_char(d: nat) -> char {
    ('0' as int + d) as char
}

/// The decimal spelling of a number, without leading zeros (`0` for zero).
pub open spec fn decimal_text(n: nat) -> Seq<char>
    decreases n,
{
    if n < 10 {
        seq![digit_char(n)]
    } else {
        decimal_text(n / 10).push(digit_char(n % 10))
    }
}

/// The bijective base-26 spelling of a number with letters counting from
/// `first`: 0 is `a`, 25 is `z`, 26 is `aa`, 27 is `ab`, and so on.
pub open spec fn letters_text(n: nat, first: char) -> Seq<char>
    decreases n,
{
    if n < 26 {
        seq![(first as int + n) as char]
    } else {
        letters_text((n / 26 - 1) as nat, first).push((first as int + n % 26) as char)
    }
}

/// What `nominals` writes for a number in lowercase Roman numerals.
pub uninterp spec fn roman_lower_text(n: u64) -> Seq<char>;

/// What `nominals` writes for a number in uppercase Roman numerals.
pub uninterp spec fn roman_upper_text(n: u64) -> Seq<char>;

/// A number in decimal.
///
/// Calls `Nominal::to_nominal` with `nominals::Decimal`, whose digits are
/// `0` to `9` with `0` counting as zero: the ordinary decimal spelling.
#[verifier::external_body]
fn decimal_nominal(n: u64) -> (s: String)
    ensures
        s@ == decimal_text(n as nat),
{
    nominals::Nominal::to_nominal(n, &nominals::Decimal).to_string()
}

/// A number in lowercase letters.
///
/// Calls `Nominal::to_nominal` with `nominals::LetterLower`, a zeroless
/// set of the digits `a` to `z` counted from zero: `a`, ..., `z`, `aa`,
/// `ab`, ...
#[verifier::external_body]
fn letter_lower_nominal(n: u64) -> (s: String)
    ensures
        s@ == letters_text(n as nat, 'a'),
{
    nominals::Nominal::to_nominal(n, &nominals::LetterLower).to_string()
}

/// A number in uppercase letters.
///
/// Calls `Nominal::to_nominal` with `nominals::LetterUpper`, a zeroless
/// set of the digits `A` to `Z` counted from zero: `A`, ..., `Z`, `AA`,
/// `AB`, ...
#[verifier::external_body]
fn letter_upper_nominal(n: u64) -> (s: String)
    ensures
        s@ == letters_text(n as nat, 'A'),
{
    nominals::Nominal::to_nominal(n, &nominals::LetterUpper).to_string()
}

/// A number in lowercase Roman numerals.
///
/// Calls `Nominal::to_nominal` with `nominals::RomanLower`; its result is
/// named, not stated (it adds up a table of numerals, greatest first, with
/// overlined ones from 4000 on, and writes `n` for zero).
#[verifier::external_body]
fn roman_lower_nominal(n: u64) -> (s: String)
    ensures
        s@ == roman_lower_text(n),
{
    nominals::Nominal::to_nominal(n, &nominals::RomanLower).to_string()
}

/// A number in uppercase Roman numerals.
///
/// Calls `Nominal::to_nominal` with `nominals::RomanUpper`; its result is
/// named, not stated (the same table in capitals, with `N` for zero).
#[verifier::external_body]
fn roman_upper_nominal(n: u64) -> (s: String)
    ensures
        s@ == roman_upper_text(n),
{
    nominals::Nominal::to_nominal(n, &nominals::RomanUpper).to_string()
}

/// The spelling of a number in a numbering.
pub open spec fn nominal_text(numbering: ListNumbering, n: u64) -> Seq<char> {
    match numbering {
        ListNumbering::Decimal => decimal_text(n as nat),
        ListNumbering::AlphaLower => letters_text(n as nat, 'a'),
        ListNumbering::AlphaUpper => letters_text(n as nat, 'A'),
        ListNumbering::RomanLower => roman_lower_text(n),
        ListNumbering::RomanUpper => roman_upper_text(n),
    }
}

/// The spelling of a number framed in a list style.
pub open spec fn framed(style: ListStyle, nominal: Seq<char>) -> Seq<char> {
    match style {
        ListStyle::Period => nominal.push('.'),
        ListStyle::Paren => nominal.push(')'),
        ListStyle::ParenParen => seq!['('] + nominal.push(')'),
    }
}

/// The marker of a list item: a bullet for unordered and task lists, and
/// for an ordered list its start plus `at`, spelled in its numbering and
/// framed in its style.
pub open spec fn item_marker(kind: ListType, at: u64) -> Seq<char> {
    match kind {
        ListType::Ordered { numbering, style, start } => framed(
            style,
            nominal_text(numbering, (start + at) as u64),
        ),
        _ => seq!['•'],
    }
}

/// Hands out the markers of the items of one list.
#[derive(Debug)]
pub struct ListNumberer {
    pub list_kind: ListType,
    /// How many items of an ordered list were numbered.
    pub at: u64,
}

impl ListNumberer {
    /// A numberer for a list that has no items numbered yet.
    pub fn new(list_kind: ListType) -> (r: Self)
        ensures
            r.list_kind == list_kind,
            r.at == 0,
    {
        ListNumberer { list_kind, at: 0 }
    }

    /// The marker of the next item. Bullets do not count items; an ordered
    /// list counts one more item.
    pub fn next(&mut self) -> (marker: String)
        requires
            old(self).list_kind matches ListType::Ordered { start, .. } ==> start + old(self).at
                <= u64::MAX && old(self).at < u64::MAX,
        ensures
            marker@ == item_marker(old(self).list_kind, old(self).at),
            final(self).list_kind == old(self).list_kind,
            final(self).at == if old(self).list_kind is Ordered {
                old(self).at + 1
            } else {
                old(self).at as int
            },
    {
        match self.list_kind {
            ListType::Unordered | ListType::Task => {
                proof {
                    reveal_strlit("•");
                }
                String::from_str("•")
            },
            ListType::Ordered { numbering, style, start } => {
                let number = start + self.at;
                let nominal = match numbering {
                    ListNumbering::Decimal => decimal_nominal(number),
                    ListNumbering::AlphaLower => letter_lower_nominal(number),
                    ListNumbering::AlphaUpper => letter_upper_nominal(number),
                    ListNumbering::RomanLower => roman_lower_nominal(number),
                    ListNumbering::RomanUpper => roman_upper_nominal(number),
                };
                let mut result = String::new();
                match style {
                    ListStyle::Period => {
                        result.append(nominal.as_str());
                        result.append(".");
                        proof {
                            reveal_strlit(".");
                        }
                    },
                    ListStyle::Paren => {
                        result.append(nominal.as_str());
                        result.append(")");
                        proof {
                            reveal_strlit(")");
                        }
                    },
                    ListStyle::ParenParen => {
                        result.append("(");
                        result.append(nominal.as_str());
                        result.append(")");
                        proof {
                            reveal_strlit("(");
                            reveal_strlit(")");
                        }
                    },
                }
                assert(result@ =~= item_marker(self.list_kind, self.at));
                self.at = self.at + 1;
                result
            },
        }
    }
}

} // verus!
