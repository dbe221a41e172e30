use vstd::prelude::*;

use crate::strings::str_eq;

verus! {

/// The direction in which a viewbox splits its area.
#[derive(Debug, Clone, Copy, PartialEq, Eq, Structural, Hash)]
pub enum Direction {
    Horizontal,
    Vertical,
}

/// The direction named by a single marker character, if any.
pub open spec fn direction_of_marker(c: char) -> Option<Direction> {
    if c == '^' || c == '_' {
        Some(Direction::Vertical)
    } else if c == '>' || c == '<' {
        Some(Direction::Horizontal)
    } else {
        None
    }
}

impl Direction {
    /// `^` and `_` split vertically, `>` and `<` split horizontally.
    pub fn try_from(value: char) -> (r: Result<Direction, ()>)
        ensures
            r == (match direction_of_marker(value) {
                Some(d) => Ok::<Direction, ()>(d),
                None => Err(()),
            }),
    {
        if value == '^' || value == '_' {
            Ok(Direction::Vertical)
        } else if value == '>' || value == '<' {
            Ok(Direction::Horizontal)
        } else {
            Err(())
        }
    }
}

impl Default for Direction {
    fn default() -> (d: Self)
        ensures
            d == Direction::Vertical,
    {
        Direction::Vertical
    }
}

/// How excess space is distributed between the segments of a split.
#[derive(Debug, Clone, Copy, PartialEq, Eq, Structural, Hash)]
pub enum Flex {
    Legacy,
    Start,
    End,
    Center,
    SpaceBetween,
    SpaceAround,
}

impl Default for Flex {
    fn default() -> (f: Self)
        ensures
            f == Flex::Legacy,
    {
        Flex::Legacy
    }
}

/// The flex mode spelled by `s`, if any.
pub open spec fn flex_named(s: Seq<char>) -> Option<Flex> {
    if s == "legacy"@ {
        Some(Flex::Legacy)
    } else if s == "start"@ {
        Some(Flex::Start)
    } else if s == "end"@ {
        Some(Flex::End)
    } else if s == "center"@ {
        Some(Flex::Center)
    } else if s == "space-between"@ {
        Some(Flex::SpaceBetween)
    } else if s == "space-around"@ {
        Some(Flex::SpaceAround)
    } else {
        None
    }
}

impl Flex {
    /// Reads one of `legacy`, `start`, `end`, `center`, `space-between`
    /// or `space-around`.
    pub fn from_str(s: &str) -> (r: Result<Flex, ()>)
        ensures
            r == (match flex_named(s@) {
                Some(f) => Ok::<Flex, ()>(f),
                None => Err(()),
            }),
    {
        if str_eq(s, "legacy") {
            Ok(Flex::Legacy)
        } else if str_eq(s, "start") {
            Ok(Flex::Start)
        } else if str_eq(s, "end") {
            Ok(Flex::End)
        } else if str_eq(s, "center") {
            Ok(Flex::Center)
        } else if str_eq(s, "space-between") {
            Ok(Flex::SpaceBetween)
        } else if str_eq(s, "space-around") {
            Ok(Flex::SpaceAround)
        } else {
            Err(())
        }
    }
}

} // verus!
