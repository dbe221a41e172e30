use vstd::prelude::*;

use crate::rope::{
    byte_to_char_in_line, char_to_byte_in_line, len_lines, line_byte_index, line_char_index,
    line_start_byte, line_to_byte, rope_line_count,
};
use crate::source::CharRange;

verus! {

/// A position in the source by line and byte column, as the syntax tree
/// reports it.
#[derive(Debug, Clone, Copy, PartialEq, Eq, Structural)]
pub struct Point {
    pub row: usize,
    pub column: usize,
}

/// Why a position could not be converted.
#[derive(Debug, Clone, Copy, PartialEq, Eq, Structural)]
pub enum PositionError {
    /// "Line `row` doesn't exist".
    MissingLine(usize),
    /// The column lies past the end of its line.
    ColumnOutOfRange,
}

/// The line and character a line and byte column are at.
pub open spec fn char_position(r: ropey::Rope, row: usize, column: usize) -> Result<(usize, usize), PositionError> {
    if row >= rope_line_count(r) {
        Err(PositionError::MissingLine(row))
    } else {
        match line_char_index(r, row as int, column as int) {
            Some(c) => Ok((row, c as usize)),
            None => Err(PositionError::ColumnOutOfRange),
        }
    }
}

/// The line and byte column a line and character are at.
pub open spec fn byte_position(r: ropey::Rope, line: usize, ch: usize) -> Result<Point, PositionError> {
    if line >= rope_line_count(r) {
        Err(PositionError::MissingLine(line))
    } else {
        match line_byte_index(r, line as int, ch as int) {
            Some(b) => Ok(Point { row: line, column: b as usize }),
            None => Err(PositionError::ColumnOutOfRange),
        }
    }
}

/// Converts a line and byte column into a line and character column.
pub fn char_pos_from_byte_pos(byte_pos: Point, current_rope: &ropey::Rope) -> (r: Result<(usize, usize), PositionError>)
    ensures
        r == char_position(*current_rope, byte_pos.row, byte_pos.column),
{
    if byte_pos.row >= len_lines(current_rope) {
        return Err(PositionError::MissingLine(byte_pos.row));
    }
    match byte_to_char_in_line(current_rope, byte_pos.row, byte_pos.column) {
        Some(c) => Ok((byte_pos.row, c)),
        None => Err(PositionError::ColumnOutOfRange),
    }
}

/// Converts a line and character column into a line and byte column.
/// Converting the result back gives the line and character again.
pub fn byte_pos_from_char_pos(char_pos: (usize, usize), current_rope: &ropey::Rope) -> (r: Result<Point, PositionError>)
    ensures
        r == byte_position(*current_rope, char_pos.0, char_pos.1),
        r matches Ok(p) ==> p.row == char_pos.0 && char_position(*current_rope, p.row, p.column) == Ok::<
            (usize, usize),
            PositionError,
        >(char_pos),
{
    if char_pos.0 >= len_lines(current_rope) {
        return Err(PositionError::MissingLine(char_pos.0));
    }
    match char_to_byte_in_line(current_rope, char_pos.0, char_pos.1) {
        Some(b) => Ok(Point { row: char_pos.0, column: b }),
        None => Err(PositionError::ColumnOutOfRange),
    }
}

/// A line past the last is missing whichever way a position is
/// converted.
pub proof fn lemma_missing_line_both_ways(r: ropey::Rope, line: usize, column: usize)
    requires
        line >= rope_line_count(r),
    ensures
        byte_position(r, line, column) == Err::<Point, PositionError>(PositionError::MissingLine(line)),
        char_position(r, line, column) == Err::<(usize, usize), PositionError>(
            PositionError::MissingLine(line),
        ),
{
}

/// A span of the syntax tree: its end points and bytes.
#[derive(Debug, Clone, Copy, PartialEq, Eq, Structural)]
pub struct SourceRange {
    pub start_byte: usize,
    pub end_byte: usize,
    pub start_point: Point,
    pub end_point: Point,
}

impl CharRange {
    /// The character range of a span of the syntax tree.
    pub fn new(byte_range: SourceRange, current_rope: &ropey::Rope) -> (r: Result<CharRange, PositionError>)
        ensures
            ({
                let s = char_position(*current_rope, byte_range.start_point.row, byte_range.start_point.column);
                let e = char_position(*current_rope, byte_range.end_point.row, byte_range.end_point.column);
                &&& s is Err ==> r == Err::<CharRange, PositionError>(s->Err_0)
                &&& s is Ok && e is Err ==> r == Err::<CharRange, PositionError>(e->Err_0)
                &&& s is Ok && e is Ok ==> (r matches Ok(c) && c.start_line == s->Ok_0.0
                    && c.start_character == s->Ok_0.1 && c.end_line == e->Ok_0.0
                    && c.end_character == e->Ok_0.1 && c.byte_range.start == byte_range.start_byte
                    && c.byte_range.end == byte_range.end_byte)
            }),
    {
        let start = match char_pos_from_byte_pos(byte_range.start_point, current_rope) {
            Ok(p) => p,
            Err(e) => return Err(e),
        };
        let end = match char_pos_from_byte_pos(byte_range.end_point, current_rope) {
            Ok(p) => p,
            Err(e) => return Err(e),
        };
        Ok(CharRange {
            start_line: start.0,
            start_character: start.1,
            end_line: end.0,
            end_character: end.1,
            byte_range: byte_range.start_byte..byte_range.end_byte,
        })
    }
}

/// A position as the language server protocol writes it.
#[derive(Debug, Clone, Copy, PartialEq, Eq, Structural)]
pub struct Position {
    pub line: u32,
    pub character: u32,
}

/// A range as the language server protocol writes it.
#[derive(Debug, Clone, Copy, PartialEq, Eq, Structural)]
pub struct LspRange {
    pub start: Position,
    pub end: Position,
}

/// A position of the editor's syntax tree.
#[derive(Debug, Clone, Copy, PartialEq, Eq, Structural)]
pub struct SyntaxPoint {
    pub row: u32,
    pub col: u32,
}

/// A span of the editor's syntax tree.
#[derive(Debug, Clone, Copy, PartialEq, Eq, Structural)]
pub struct SyntaxRange {
    pub start_point: SyntaxPoint,
    pub end_point: SyntaxPoint,
    pub start_byte: u32,
    pub end_byte: u32,
}

/// The protocol position of a syntax point, if it exists.
pub open spec fn lsp_position(r: ropey::Rope, p: SyntaxPoint) -> Option<Position> {
    match char_position(r, p.row as usize, p.col as usize) {
        Ok((l, c)) => Some(Position { line: l as u32, character: c as u32 }),
        Err(_) => None,
    }
}

/// Converts a span of the syntax tree into a protocol range.
pub fn char_range_from_byte_range(range: SyntaxRange, current_rope: &ropey::Rope) -> (r: Result<LspRange, ()>)
    ensures
        ({
            let s = lsp_position(*current_rope, range.start_point);
            let e = lsp_position(*current_rope, range.end_point);
            &&& (s is Some && e is Some) ==> r == Ok::<LspRange, ()>(LspRange { start: s->0, end: e->0 })
            &&& (s is None || e is None) ==> r is Err
        }),
{
    let start = match char_pos_from_byte_pos(
        Point { row: range.start_point.row as usize, column: range.start_point.col as usize },
        current_rope,
    ) {
        Ok(p) => p,
        Err(_) => return Err(()),
    };
    let end = match char_pos_from_byte_pos(
        Point { row: range.end_point.row as usize, column: range.end_point.col as usize },
        current_rope,
    ) {
        Ok(p) => p,
        Err(_) => return Err(()),
    };
    Ok(LspRange {
        start: Position { line: start.0 as u32, character: start.1 as u32 },
        end: Position { line: end.0 as u32, character: end.1 as u32 },
    })
}

/// The syntax point of a protocol position, if it exists.
pub open spec fn syntax_point(r: ropey::Rope, p: Position) -> Option<SyntaxPoint> {
    match byte_position(r, p.line as usize, p.character as usize) {
        Ok(q) => Some(SyntaxPoint { row: q.row as u32, col: q.column as u32 }),
        Err(_) => None,
    }
}

/// The byte offset of a syntax point in the rope, if it fits in 32 bits.
pub open spec fn syntax_byte(r: ropey::Rope, p: SyntaxPoint) -> Option<u32> {
    let b = line_start_byte(r, p.row as int);
    if b as u32 + p.col <= u32::MAX {
        Some((b as u32 + p.col) as u32)
    } else {
        None
    }
}

/// Converts a protocol range into a span of the syntax tree. Offsets that
/// do not fit in 32 bits are an error.
pub fn byte_range_from_char_range(range: LspRange, current_rope: &ropey::Rope) -> (r: Result<SyntaxRange, ()>)
    ensures
        ({
            let s = syntax_point(*current_rope, range.start);
            let e = syntax_point(*current_rope, range.end);
            &&& (s is None || e is None) ==> r is Err
            &&& (s is Some && e is Some) ==> match (syntax_byte(*current_rope, s->0), syntax_byte(*current_rope, e->0)) {
                (Some(sb), Some(eb)) => r == Ok::<SyntaxRange, ()>(SyntaxRange {
                    start_point: s->0,
                    end_point: e->0,
                    start_byte: sb,
                    end_byte: eb,
                }),
                _ => r is Err,
            }
        }),
{
    let start = match byte_pos_from_char_pos((range.start.line as usize, range.start.character as usize), current_rope) {
        Ok(p) => p,
        Err(_) => return Err(()),
    };
    let end = match byte_pos_from_char_pos((range.end.line as usize, range.end.character as usize), current_rope) {
        Ok(p) => p,
        Err(_) => return Err(()),
    };
    let start_point = SyntaxPoint { row: start.row as u32, col: start.column as u32 };
    let end_point = SyntaxPoint { row: end.row as u32, col: end.column as u32 };
    let start_line = match line_to_byte(current_rope, start_point.row as usize) {
        Some(b) => b as u32,
        None => return Err(()),
    };
    let end_line = match line_to_byte(current_rope, end_point.row as usize) {
        Some(b) => b as u32,
        None => return Err(()),
    };
    let start_byte = match start_line.checked_add(start_point.col) {
        Some(b) => b,
        None => return Err(()),
    };
    let end_byte = match end_line.checked_add(end_point.col) {
        Some(b) => b,
        None => return Err(()),
    };
    Ok(SyntaxRange { start_point, end_point, start_byte, end_byte })
}

} // verus!
