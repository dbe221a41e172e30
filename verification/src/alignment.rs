use vstd::prelude::*;

verus! {

/// Where an object sits along one axis of its viewbox.
#[derive(Debug, Clone, Copy, PartialEq, Eq, Structural, Hash)]
pub enum AxisAlign {
    Min,
    Center,
    Max,
}

/// A two-dimensional anchor: `x` runs left to right, `y` top to bottom.
#[derive(Debug, Clone, Copy, PartialEq, Eq, Structural, Hash)]
pub struct Align2 {
    pub x: AxisAlign,
    pub y: AxisAlign,
}

/// One of the five alignment markers of the edge syntax.
#[derive(Debug, Clone, Copy, PartialEq, Eq, Structural, Hash)]
pub enum Marker {
    /// `^`: towards the top.
    Up,
    /// `_`: towards the bottom.
    Down,
    /// `<`: towards the left.
    Left,
    /// `>`: towards the right.
    Right,
    /// `.`: no preference.
    Dot,
}

/// Why an alignment could not be read.
#[derive(Debug, Clone, Copy, PartialEq, Eq, Structural, Hash)]
pub enum AlignmentError {
    /// Neither the exit bar `|` nor a marker stands where one was expected.
    ExpectedMarkerOrBar,
    /// A marker was expected and is missing or is something else.
    ExpectedMarker,
}

impl AlignmentError {
    /// The message reported for this error.
    pub fn message(&self) -> (m: &'static str)
        ensures
            m@ == (match self {
                AlignmentError::ExpectedMarkerOrBar => "Expected one of `|`, `^`, `_`, `<`, `>`, or `.`"@,
                AlignmentError::ExpectedMarker => "Expected one of `^`, `_`, `<`, `>`, or `.`"@,
            }),
    {
        match self {
            AlignmentError::ExpectedMarkerOrBar => "Expected one of `|`, `^`, `_`, `<`, `>`, or `.`",
            AlignmentError::ExpectedMarker => "Expected one of `^`, `_`, `<`, `>`, or `.`",
        }
    }
}

/// The horizontal preference a marker expresses.
pub open spec fn x_pull(m: Marker) -> Option<AxisAlign> {
    match m {
        Marker::Left => Some(AxisAlign::Min),
        Marker::Right => Some(AxisAlign::Max),
        _ => None,
    }
}

/// The vertical preference a marker expresses.
pub open spec fn y_pull(m: Marker) -> Option<AxisAlign> {
    match m {
        Marker::Up => Some(AxisAlign::Min),
        Marker::Down => Some(AxisAlign::Max),
        _ => None,
    }
}

/// Two preferences on one axis: agreeing ones hold, conflicting or absent
/// ones leave the object centred.
pub open spec fn merge_pulls(a: Option<AxisAlign>, b: Option<AxisAlign>) -> AxisAlign {
    match (a, b) {
        (Some(p), Some(q)) => if p == q { p } else { AxisAlign::Center },
        (Some(p), None) => p,
        (None, Some(q)) => q,
        (None, None) => AxisAlign::Center,
    }
}

/// The anchor named by two markers.
pub open spec fn anchor_of(first: Marker, second: Marker) -> Align2 {
    Align2 {
        x: merge_pulls(x_pull(first), x_pull(second)),
        y: merge_pulls(y_pull(first), y_pull(second)),
    }
}

/// The marker a character stands for, if any.
pub open spec fn marker_of(c: char) -> Option<Marker> {
    if c == '^' {
        Some(Marker::Up)
    } else if c == '_' {
        Some(Marker::Down)
    } else if c == '<' {
        Some(Marker::Left)
    } else if c == '>' {
        Some(Marker::Right)
    } else if c == '.' {
        Some(Marker::Dot)
    } else {
        None
    }
}

/// The marker a character stands for, if any.
pub fn marker_from_char(c: char) -> (m: Option<Marker>)
    ensures
        m == marker_of(c),
{
    if c == '^' {
        Some(Marker::Up)
    } else if c == '_' {
        Some(Marker::Down)
    } else if c == '<' {
        Some(Marker::Left)
    } else if c == '>' {
        Some(Marker::Right)
    } else if c == '.' {
        Some(Marker::Dot)
    } else {
        None
    }
}


/// The anchor two markers name, by the table of the edge syntax.
pub fn anchor(first: Marker, second: Marker) -> (a: Align2)
    ensures
        a == anchor_of(first, second),
{
    let (x, y) = match (first, second) {
        (Marker::Up, Marker::Up) => (AxisAlign::Center, AxisAlign::Min),
        (Marker::Up, Marker::Down) => (AxisAlign::Center, AxisAlign::Center),
        (Marker::Up, Marker::Left) => (AxisAlign::Min, AxisAlign::Min),
        (Marker::Up, Marker::Right) => (AxisAlign::Max, AxisAlign::Min),
        (Marker::Up, Marker::Dot) => (AxisAlign::Center, AxisAlign::Min),
        (Marker::Down, Marker::Up) => (AxisAlign::Center, AxisAlign::Center),
        (Marker::Down, Marker::Down) => (AxisAlign::Center, AxisAlign::Max),
        (Marker::Down, Marker::Left) => (AxisAlign::Min, AxisAlign::Max),
        (Marker::Down, Marker::Right) => (AxisAlign::Max, AxisAlign::Max),
        (Marker::Down, Marker::Dot) => (AxisAlign::Center, AxisAlign::Max),
        (Marker::Left, Marker::Up) => (AxisAlign::Min, AxisAlign::Min),
        (Marker::Left, Marker::Down) => (AxisAlign::Min, AxisAlign::Max),
        (Marker::Left, Marker::Left) => (AxisAlign::Min, AxisAlign::Center),
        (Marker::Left, Marker::Right) => (AxisAlign::Center, AxisAlign::Center),
        (Marker::Left, Marker::Dot) => (AxisAlign::Min, AxisAlign::Center),
        (Marker::Right, Marker::Up) => (AxisAlign::Max, AxisAlign::Min),
        (Marker::Right, Marker::Down) => (AxisAlign::Max, AxisAlign::Max),
        (Marker::Right, Marker::Left) => (AxisAlign::Center, AxisAlign::Center),
        (Marker::Right, Marker::Right) => (AxisAlign::Max, AxisAlign::Center),
        (Marker::Right, Marker::Dot) => (AxisAlign::Max, AxisAlign::Center),
        (Marker::Dot, Marker::Up) => (AxisAlign::Center, AxisAlign::Min),
        (Marker::Dot, Marker::Down) => (AxisAlign::Center, AxisAlign::Max),
        (Marker::Dot, Marker::Left) => (AxisAlign::Min, AxisAlign::Center),
        (Marker::Dot, Marker::Right) => (AxisAlign::Max, AxisAlign::Center),
        (Marker::Dot, Marker::Dot) => (AxisAlign::Center, AxisAlign::Center),
    };
    Align2 { x, y }
}

/// A syntax node where an edge alignment is expected: the exit bar `|`,
/// a direction made of two tokens (each a marker or some other token),
/// or some other node.
#[derive(Debug, Clone, Copy, PartialEq, Eq, Structural, Hash)]
pub enum EdgeNode {
    Bar,
    Direction(Option<Marker>, Option<Marker>),
    Other,
}

/// What an alignment reads as: an anchor, or (with `true`) the exit bar.
pub open spec fn alignment_result(
    first: Option<Marker>,
    second: Option<Marker>,
) -> Result<(Option<Align2>, bool), AlignmentError> {
    match (first, second) {
        (Some(a), Some(b)) => Ok((Some(anchor_of(a, b)), false)),
        _ => Err(AlignmentError::ExpectedMarker),
    }
}

/// What the text of an alignment string reads as. Only its first two
/// characters count: `|` alone marks an exiting object; otherwise two
/// markers name an anchor.
pub open spec fn alignment_from_text(t: Seq<char>) -> Result<(Option<Align2>, bool), AlignmentError> {
    if t.len() == 0 {
        Err(AlignmentError::ExpectedMarkerOrBar)
    } else if t[0] == '|' {
        Ok((None, true))
    } else if marker_of(t[0]) is None {
        Err(AlignmentError::ExpectedMarkerOrBar)
    } else if t.len() < 2 {
        Err(AlignmentError::ExpectedMarker)
    } else {
        alignment_result(marker_of(t[0]), marker_of(t[1]))
    }
}

/// What an alignment node reads as.
pub open spec fn alignment_from_node(n: EdgeNode) -> Result<(Option<Align2>, bool), AlignmentError> {
    match n {
        EdgeNode::Bar => Ok((None, true)),
        EdgeNode::Direction(a, b) => alignment_result(a, b),
        EdgeNode::Other => Err(AlignmentError::ExpectedMarkerOrBar),
    }
}

/// The node the text of an alignment stands for: `|` is the exit bar; a
/// marker followed by another token is a direction of the two (the second
/// missing where the text ends); anything else is some other node.
pub open spec fn edge_node_of(t: Seq<char>) -> EdgeNode {
    if t.len() == 0 {
        EdgeNode::Other
    } else if t[0] == '|' {
        EdgeNode::Bar
    } else if marker_of(t[0]) is None {
        EdgeNode::Other
    } else {
        EdgeNode::Direction(marker_of(t[0]), if t.len() >= 2 { marker_of(t[1]) } else { None })
    }
}

/// The two readers agree: the node that the text of an alignment stands
/// for reads as that text does, the same anchor, exit or error.
pub proof fn lemma_node_reader_agrees_with_text(t: Seq<char>)
    ensures
        alignment_from_node(edge_node_of(t)) == alignment_from_text(t),
{
}

/// What a reading gives: the anchor and exit it reads, or, where it is in
/// error, neither.
pub open spec fn reading_of(r: Result<(Option<Align2>, bool), AlignmentError>) -> (Option<Align2>, bool) {
    match r {
        Ok(p) => p,
        Err(_) => (None, false),
    }
}

/// The errors a reading reports: its error, if it has one.
pub open spec fn errors_of(r: Result<(Option<Align2>, bool), AlignmentError>) -> Seq<AlignmentError> {
    match r {
        Ok(_) => Seq::empty(),
        Err(e) => seq![e],
    }
}

/// What the text of an alignment reads as (see `alignment_from_text`).
fn text_result(text: &str) -> (r: Result<(Option<Align2>, bool), AlignmentError>)
    ensures
        r == alignment_from_text(text@),
{
    let n = text.unicode_len();
    if n == 0 {
        return Err(AlignmentError::ExpectedMarkerOrBar);
    }
    let c0 = text.get_char(0);
    if c0 == '|' {
        return Ok((None, true));
    }
    let first = match marker_from_char(c0) {
        Some(m) => m,
        None => return Err(AlignmentError::ExpectedMarkerOrBar),
    };
    if n < 2 {
        return Err(AlignmentError::ExpectedMarker);
    }
    match marker_from_char(text.get_char(1)) {
        Some(second) => Ok((Some(anchor(first, second)), false)),
        None => Err(AlignmentError::ExpectedMarker),
    }
}

/// Appends the errors of a reading and gives what it reads.
fn report(r: Result<(Option<Align2>, bool), AlignmentError>, errors: &mut Vec<AlignmentError>) -> (p: (
    Option<Align2>,
    bool,
))
    ensures
        p == reading_of(r),
        final(errors)@ == old(errors)@ + errors_of(r),
{
    match r {
        Ok(p) => {
            assert(errors@ + errors_of(r) =~= errors@);
            p
        },
        Err(e) => {
            errors.push(e);
            (None, false)
        },
    }
}

/// Reads an alignment from the text of a string literal such as `"^<"`
/// or `"|"`: the anchor it names, and whether it marks the object as
/// leaving. A malformed alignment appends its error to `errors` and reads
/// as no alignment, the object not leaving.
pub fn parse_alignment_from_chars(text: &str, errors: &mut Vec<AlignmentError>) -> (r: (Option<Align2>, bool))
    ensures
        r == reading_of(alignment_from_text(text@)),
        final(errors)@ == old(errors)@ + errors_of(alignment_from_text(text@)),
{
    report(text_result(text), errors)
}

/// Reads an alignment from its syntax node, as `parse_alignment_from_chars`
/// reads its text.
pub fn parse_alignment(node: EdgeNode, errors: &mut Vec<AlignmentError>) -> (r: (Option<Align2>, bool))
    ensures
        r == reading_of(alignment_from_node(node)),
        final(errors)@ == old(errors)@ + errors_of(alignment_from_node(node)),
{
    let result = match node {
        EdgeNode::Bar => Ok((None, true)),
        EdgeNode::Direction(Some(a), Some(b)) => Ok((Some(anchor(a, b)), false)),
        EdgeNode::Direction(_, _) => Err(AlignmentError::ExpectedMarker),
        EdgeNode::Other => Err(AlignmentError::ExpectedMarkerOrBar),
    };
    report(result, errors)
}

/// The two-character spelling of an anchor.
pub open spec fn anchor_text(a: Align2) -> Seq<char> {
    match (a.x, a.y) {
        (AxisAlign::Min, AxisAlign::Max) => seq!['<', '_'],
        (AxisAlign::Min, AxisAlign::Center) => seq!['<', '<'],
        (AxisAlign::Min, AxisAlign::Min) => seq!['^', '<'],
        (AxisAlign::Center, AxisAlign::Max) => seq!['_', '_'],
        (AxisAlign::Center, AxisAlign::Center) => seq!['.', '.'],
        (AxisAlign::Center, AxisAlign::Min) => seq!['^', '^'],
        (AxisAlign::Max, AxisAlign::Max) => seq!['>', '_'],
        (AxisAlign::Max, AxisAlign::Center) => seq!['>', '>'],
        (AxisAlign::Max, AxisAlign::Min) => seq!['^', '>'],
    }
}

/// The two-character spelling of an anchor, as the debug output of object
/// positions writes it.
pub fn anchor_label(a: Align2) -> (s: &'static str)
    ensures
        s@ == anchor_text(a),
{
    match (a.x, a.y) {
        (AxisAlign::Min, AxisAlign::Max) => {
            proof {
                reveal_strlit("<_");
            }
            "<_"
        },
        (AxisAlign::Min, AxisAlign::Center) => {
            proof {
                reveal_strlit("<<");
            }
            "<<"
        },
        (AxisAlign::Min, AxisAlign::Min) => {
            proof {
                reveal_strlit("^<");
            }
            "^<"
        },
        (AxisAlign::Center, AxisAlign::Max) => {
            proof {
                reveal_strlit("__");
            }
            "__"
        },
        (AxisAlign::Center, AxisAlign::Center) => {
            proof {
                reveal_strlit("..");
            }
            ".."
        },
        (AxisAlign::Center, AxisAlign::Min) => {
            proof {
                reveal_strlit("^^");
            }
            "^^"
        },
        (AxisAlign::Max, AxisAlign::Max) => {
            proof {
                reveal_strlit(">_");
            }
            ">_"
        },
        (AxisAlign::Max, AxisAlign::Center) => {
            proof {
                reveal_strlit(">>");
            }
            ">>"
        },
        (AxisAlign::Max, AxisAlign::Min) => {
            proof {
                reveal_strlit("^>");
            }
            "^>"
        },
    }
}

/// The order of the two markers of an alignment does not matter: `^<`
/// and `<^` name the same anchor.
pub proof fn lemma_anchor_symmetric(first: Marker, second: Marker)
    ensures
        anchor_of(first, second) == anchor_of(second, first),
{
}

/// Every anchor can be written: reading back the spelling that the debug
/// output gives an anchor yields that anchor.
pub proof fn lemma_anchor_text_round_trip(a: Align2)
    ensures
        alignment_from_text(anchor_text(a)) == Ok::<(Option<Align2>, bool), AlignmentError>(
            (Some(a), false),
        ),
{
}

} // verus!
