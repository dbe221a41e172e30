use vstd::prelude::*;

use crate::alignment::{
    alignment_from_text, errors_of, parse_alignment_from_chars, Align2, AlignmentError, AxisAlign,
};
use crate::strings::str_eq;
use crate::text::Align;

verus! {

/// The kinds of object a slideshow can declare.
#[derive(Debug, Clone, Copy, PartialEq, Eq, Structural)]
pub enum ObjectKind {
    Rect,
    Image,
    Header,
    Paragraph,
}

/// The object kind a type name declares.
pub open spec fn object_kind_named(s: Seq<char>) -> Option<ObjectKind> {
    if s == "Rect"@ {
        Some(ObjectKind::Rect)
    } else if s == "Image"@ {
        Some(ObjectKind::Image)
    } else if s == "Header"@ {
        Some(ObjectKind::Header)
    } else if s == "Paragraph"@ {
        Some(ObjectKind::Paragraph)
    } else {
        None
    }
}

/// Reads the type name of an object; `None` is the error "That object type
/// does not exist".
pub fn object_kind(name: &str) -> (k: Option<ObjectKind>)
    ensures
        k == object_kind_named(name@),
{
    if str_eq(name, "Rect") {
        Some(ObjectKind::Rect)
    } else if str_eq(name, "Image") {
        Some(ObjectKind::Image)
    } else if str_eq(name, "Header") {
        Some(ObjectKind::Header)
    } else if str_eq(name, "Paragraph") {
        Some(ObjectKind::Paragraph)
    } else {
        None
    }
}

/// The text alignment an `align` value names.
pub open spec fn text_align_named(s: Seq<char>) -> Option<Align> {
    if s == "left"@ {
        Some(Align::Left)
    } else if s == "center"@ {
        Some(Align::Center)
    } else if s == "right"@ {
        Some(Align::Right)
    } else if s == "justified"@ {
        Some(Align::Justified)
    } else if s == "end"@ {
        Some(Align::End)
    } else {
        None
    }
}

/// Each alignment name selects its alignment: `left`, `center`, `right`,
/// `justified` and `end`; and a text object's `align` parameter sets the
/// alignment its value names, whatever that value is.
pub proof fn lemma_alignment_names(kind: ObjectKind, value: Seq<char>)
    ensures
        text_align_named("left"@) == Some(Align::Left),
        text_align_named("center"@) == Some(Align::Center),
        text_align_named("right"@) == Some(Align::Right),
        text_align_named("justified"@) == Some(Align::Justified),
        text_align_named("end"@) == Some(Align::End),
        kind == ObjectKind::Header || kind == ObjectKind::Paragraph ==> object_param_of(kind, "align"@, value)
            == ObjectParam::Align(text_align_named(value)),
{
    reveal_strlit("left");
    reveal_strlit("center");
    reveal_strlit("right");
    reveal_strlit("justified");
    reveal_strlit("end");
    reveal_strlit("align");
    reveal_strlit("value");
    reveal_strlit("code");
    reveal_strlit("language");
    assert("center"@[0] != "left"@[0]);
    assert("right"@[0] != "left"@[0] && "right"@[0] != "center"@[0]);
    assert("justified"@[0] != "left"@[0] && "justified"@[0] != "center"@[0] && "justified"@[0] != "right"@[0]);
    assert("end"@[0] != "left"@[0] && "end"@[0] != "center"@[0] && "end"@[0] != "right"@[0]
        && "end"@[0] != "justified"@[0]);
    assert("align"@[0] != "value"@[0] && "align"@[0] != "code"@[0] && "align"@[0] != "language"@[0]);
}

/// What a parameter of an object sets.
#[derive(Debug, Clone, Copy, PartialEq, Eq, Structural)]
pub enum ObjectParam {
    /// The colour of a rectangle or of text.
    Color,
    /// The height of a rectangle.
    Height,
    /// The tint of an image.
    Tint,
    /// The scale of an image.
    Scale,
    /// The path of an image, or the text of a text object.
    Value,
    /// The language of a code text object.
    Language,
    /// The alignment of a text object; `None` is the error "That alignment
    /// does not exist", after which the text is left-aligned.
    Align(Option<Align>),
    FontFamily,
    FontSize,
    LineHeight,
    /// Parameters an object of this kind does not have are ignored.
    Ignored,
}

/// What the parameter `key` with text `value` sets on an object of a kind.
pub open spec fn object_param_of(kind: ObjectKind, key: Seq<char>, value: Seq<char>) -> ObjectParam {
    match kind {
        ObjectKind::Rect => if key == "color"@ {
            ObjectParam::Color
        } else if key == "height"@ {
            ObjectParam::Height
        } else {
            ObjectParam::Ignored
        },
        ObjectKind::Image => if key == "tint"@ {
            ObjectParam::Tint
        } else if key == "scale"@ {
            ObjectParam::Scale
        } else if key == "value"@ {
            ObjectParam::Value
        } else {
            ObjectParam::Ignored
        },
        ObjectKind::Header | ObjectKind::Paragraph => if key == "value"@ || key == "code"@ {
            ObjectParam::Value
        } else if key == "language"@ {
            ObjectParam::Language
        } else if key == "align"@ {
            ObjectParam::Align(text_align_named(value))
        } else if key == "color"@ {
            ObjectParam::Color
        } else if key == "font_family"@ {
            ObjectParam::FontFamily
        } else if key == "font_size"@ {
            ObjectParam::FontSize
        } else if key == "line_height"@ {
            ObjectParam::LineHeight
        } else {
            ObjectParam::Ignored
        },
    }
}

/// The text alignment an `align` value names.
fn text_align(value: &str) -> (a: Option<Align>)
    ensures
        a == text_align_named(value@),
{
    if str_eq(value, "left") {
        Some(Align::Left)
    } else if str_eq(value, "center") {
        Some(Align::Center)
    } else if str_eq(value, "right") {
        Some(Align::Right)
    } else if str_eq(value, "justified") {
        Some(Align::Justified)
    } else if str_eq(value, "end") {
        Some(Align::End)
    } else {
        None
    }
}

/// Decides what a parameter of an object sets: rectangles take `color`
/// and `height`; images `tint`, `scale` and `value`; headers and
/// paragraphs `value` (or `code`), `language`, `align`, `color`,
/// `font_family`, `font_size` and `line_height`. Other keys are ignored.
pub fn object_param(kind: ObjectKind, key: &str, value: &str) -> (p: ObjectParam)
    ensures
        p == object_param_of(kind, key@, value@),
{
    match kind {
        ObjectKind::Rect => if str_eq(key, "color") {
            ObjectParam::Color
        } else if str_eq(key, "height") {
            ObjectParam::Height
        } else {
            ObjectParam::Ignored
        },
        ObjectKind::Image => if str_eq(key, "tint") {
            ObjectParam::Tint
        } else if str_eq(key, "scale") {
            ObjectParam::Scale
        } else if str_eq(key, "value") {
            ObjectParam::Value
        } else {
            ObjectParam::Ignored
        },
        ObjectKind::Header | ObjectKind::Paragraph => if str_eq(key, "value") || str_eq(
            key,
            "code",
        ) {
            ObjectParam::Value
        } else if str_eq(key, "language") {
            ObjectParam::Language
        } else if str_eq(key, "align") {
            ObjectParam::Align(text_align(value))
        } else if str_eq(key, "color") {
            ObjectParam::Color
        } else if str_eq(key, "font_family") {
            ObjectParam::FontFamily
        } else if str_eq(key, "font_size") {
            ObjectParam::FontSize
        } else if str_eq(key, "line_height") {
            ObjectParam::LineHeight
        } else {
            ObjectParam::Ignored
        },
    }
}

/// What reading an object's parameters settles, by the views of its
/// texts: the text (or code) of a text object, its language and alignment,
/// and, in order, the parameters whose values still need reading (each by
/// its place among the parameters): numbers, colours, fonts, an image's
/// path, and unknown alignments, which are reported there.
pub struct BuildView {
    pub value: Option<Seq<char>>,
    pub language: Seq<char>,
    pub align: Align,
    pub deferred: Seq<(usize, ObjectParam)>,
}

/// Nothing read yet: no text, no language, left-aligned.
pub open spec fn empty_build() -> BuildView {
    BuildView { value: None, language: Seq::empty(), align: Align::Left, deferred: Seq::empty() }
}

/// Reading the parameter at place `i`, key `key` and value `value`: a
/// later parameter replaces what an earlier one set.
pub open spec fn param_step(kind: ObjectKind, b: BuildView, i: usize, key: Seq<char>, value: Seq<char>) -> BuildView {
    let p = object_param_of(kind, key, value);
    match p {
        ObjectParam::Value => if kind == ObjectKind::Image {
            BuildView { deferred: b.deferred.push((i, p)), ..b }
        } else {
            BuildView { value: Some(value), ..b }
        },
        ObjectParam::Language => BuildView { language: value, ..b },
        ObjectParam::Align(Some(a)) => BuildView { align: a, ..b },
        ObjectParam::Align(None) => BuildView { align: Align::Left, deferred: b.deferred.push((i, p)), ..b },
        ObjectParam::Ignored => b,
        _ => BuildView { deferred: b.deferred.push((i, p)), ..b },
    }
}

/// Reading the parameters of an object of a kind, in order.
pub open spec fn build_view(kind: ObjectKind, params: Seq<(Seq<char>, Seq<char>)>) -> BuildView
    decreases params.len(),
{
    if params.len() == 0 {
        empty_build()
    } else {
        param_step(
            kind,
            build_view(kind, params.drop_last()),
            (params.len() - 1) as usize,
            params.last().0,
            params.last().1,
        )
    }
}

/// Parameters by the views of their keys and values.
pub open spec fn params_view(params: Seq<(String, String)>) -> Seq<(Seq<char>, Seq<char>)> {
    params.map_values(|p: (String, String)| (p.0@, p.1@))
}

/// What reading an object's parameters settles (see `BuildView`).
pub struct ObjectBuild {
    pub kind: ObjectKind,
    pub value: Option<String>,
    pub language: String,
    pub align: Align,
    pub deferred: Vec<(usize, ObjectParam)>,
}

/// The view of what reading an object's parameters settles.
pub open spec fn build_of(b: ObjectBuild) -> BuildView {
    BuildView {
        value: match b.value {
            Some(v) => Some(v@),
            None => None,
        },
        language: b.language@,
        align: b.align,
        deferred: b.deferred@,
    }
}

/// Reads an object from its type name and parameters (`key`, `value`
/// pairs in order); `None` is the error "That object type does not
/// exist", where no parameter is read.
pub fn build_object(kind_name: &str, params: &Vec<(String, String)>) -> (r: Option<ObjectBuild>)
    ensures
        match object_kind_named(kind_name@) {
            None => r is None,
            Some(k) => r matches Some(b) && b.kind == k && build_of(b) == build_view(k, params_view(params@)),
        },
{
    let kind = match object_kind(kind_name) {
        Some(k) => k,
        None => return None,
    };
    let mut b = ObjectBuild {
        kind,
        value: None,
        language: String::new(),
        align: Align::Left,
        deferred: Vec::new(),
    };
    let mut i: usize = 0;
    assert(params_view(params@).take(0) =~= Seq::<(Seq<char>, Seq<char>)>::empty());
    assert(build_of(b) =~= empty_build());
    while i < params.len()
        invariant
            i <= params@.len(),
            b.kind == kind,
            build_of(b) == build_view(kind, params_view(params@).take(i as int)),
        decreases params@.len() - i,
    {
        let (key, value) = &params[i];
        let ghost before = build_of(b);
        let p = object_param(kind, key.as_str(), value.as_str());
        match p {
            ObjectParam::Value => if kind == ObjectKind::Image {
                b.deferred.push((i, p));
            } else {
                b.value = Some(value.clone());
            },
            ObjectParam::Language => {
                b.language = value.clone();
            },
            ObjectParam::Align(Some(a)) => {
                b.align = a;
            },
            ObjectParam::Align(None) => {
                b.align = Align::Left;
                b.deferred.push((i, p));
            },
            ObjectParam::Ignored => {},
            _ => {
                b.deferred.push((i, p));
            },
        }
        proof {
            let pv = params_view(params@);
            assert(pv.take(i + 1).drop_last() =~= pv.take(i as int));
            assert(pv.take(i + 1).last() == pv[i as int]);
        }
        assert(build_of(b) =~= param_step(kind, before, i, key@, value@));
        i = i + 1;
    }
    assert(params_view(params@).take(params@.len() as int) =~= params_view(params@));
    Some(b)
}

/// The registers a slideshow can set.
#[derive(Debug, Clone, Copy, PartialEq, Eq, Structural)]
pub enum RegisterKey {
    Margin,
    MarginPer,
    Background,
    CreateEdges,
    Flex,
    /// Accepted and not implemented.
    Invert,
    /// A register given as a value without a key: "Registers need a key,
    /// not just a value".
    MissingKey,
    /// "That register does not exist".
    Unknown,
}

/// The register a key names.
pub open spec fn register_named(key: Option<Seq<char>>) -> RegisterKey {
    match key {
        None => RegisterKey::MissingKey,
        Some(k) => if k == "MARGIN"@ {
            RegisterKey::Margin
        } else if k == "MARGIN_PER"@ {
            RegisterKey::MarginPer
        } else if k == "BACKGROUND"@ {
            RegisterKey::Background
        } else if k == "CREATE_EDGES"@ {
            RegisterKey::CreateEdges
        } else if k == "FLEX"@ {
            RegisterKey::Flex
        } else if k == "INVERT"@ {
            RegisterKey::Invert
        } else {
            RegisterKey::Unknown
        },
    }
}

/// Reads the key of a register.
pub fn register_key(key: Option<&str>) -> (r: RegisterKey)
    ensures
        r == register_named(match key {
            Some(k) => Some(k@),
            None => None,
        }),
{
    match key {
        None => RegisterKey::MissingKey,
        Some(k) => if str_eq(k, "MARGIN") {
            RegisterKey::Margin
        } else if str_eq(k, "MARGIN_PER") {
            RegisterKey::MarginPer
        } else if str_eq(k, "BACKGROUND") {
            RegisterKey::Background
        } else if str_eq(k, "CREATE_EDGES") {
            RegisterKey::CreateEdges
        } else if str_eq(k, "FLEX") {
            RegisterKey::Flex
        } else if str_eq(k, "INVERT") {
            RegisterKey::Invert
        } else {
            RegisterKey::Unknown
        },
    }
}

/// The truth value `str::parse::<bool>` reads: exactly `true` or `false`.
pub open spec fn bool_named(s: Seq<char>) -> Option<bool> {
    if s == "true"@ {
        Some(true)
    } else if s == "false"@ {
        Some(false)
    } else {
        None
    }
}

/// Reads a truth value, as `str::parse::<bool>` does.
pub fn parse_bool(s: &str) -> (r: Option<bool>)
    ensures
        r == bool_named(s@),
{
    if str_eq(s, "true") {
        Some(true)
    } else if str_eq(s, "false") {
        Some(false)
    } else {
        None
    }
}

/// The actions a slide can perform.
#[derive(Debug, Clone, Copy, PartialEq, Eq, Structural)]
pub enum ActionKind {
    Highlight,
    Line,
    SpeakerNotes,
    Next,
    Stagger,
    Time,
}

/// The action a name calls, if any; `None` is the error "That action does
/// not exist".
pub open spec fn action_named(s: Seq<char>) -> Option<ActionKind> {
    if s == "highlight"@ {
        Some(ActionKind::Highlight)
    } else if s == "line"@ {
        Some(ActionKind::Line)
    } else if s == "speaker_notes"@ {
        Some(ActionKind::SpeakerNotes)
    } else if s == "next"@ {
        Some(ActionKind::Next)
    } else if s == "stagger"@ {
        Some(ActionKind::Stagger)
    } else if s == "time"@ {
        Some(ActionKind::Time)
    } else {
        None
    }
}

/// Reads the name of a slide action.
pub fn action_kind(name: &str) -> (r: Option<ActionKind>)
    ensures
        r == action_named(name@),
{
    if str_eq(name, "highlight") {
        Some(ActionKind::Highlight)
    } else if str_eq(name, "line") {
        Some(ActionKind::Line)
    } else if str_eq(name, "speaker_notes") {
        Some(ActionKind::SpeakerNotes)
    } else if str_eq(name, "next") {
        Some(ActionKind::Next)
    } else if str_eq(name, "stagger") {
        Some(ActionKind::Stagger)
    } else if str_eq(name, "time") {
        Some(ActionKind::Time)
    } else {
        None
    }
}

/// An error reading the end point of a line between two objects.
#[derive(Debug, Clone, Copy, PartialEq, Eq, Structural)]
pub enum AnchorError {
    /// The alignment string itself is malformed.
    Alignment(AlignmentError),
    /// "Expecting a valid alignment that isn't `|`".
    ExitBar,
    /// "Expecting a valid alignment string literal here".
    MissingLiteral,
}

/// The centre anchor, where a line ends when its alignment is unusable.
pub open spec fn center_anchor() -> Align2 {
    Align2 { x: AxisAlign::Center, y: AxisAlign::Center }
}

/// Where a line attaches to an object, given the text of its alignment
/// literal (if there is one): the anchor it names, else the centre.
pub open spec fn line_anchor_of(text: Option<Seq<char>>) -> Align2 {
    match text {
        Some(t) => match alignment_from_text(t) {
            Ok((Some(a), _)) => a,
            _ => center_anchor(),
        },
        None => center_anchor(),
    }
}

/// The errors reading a line's anchor reports: a malformed alignment is
/// reported, and then also as not being a usable alignment.
pub open spec fn line_anchor_errors(text: Option<Seq<char>>) -> Seq<AnchorError> {
    match text {
        Some(t) => match alignment_from_text(t) {
            Ok((Some(_), _)) => Seq::empty(),
            Ok((None, _)) => seq![AnchorError::ExitBar],
            Err(e) => seq![AnchorError::Alignment(e), AnchorError::ExitBar],
        },
        None => seq![AnchorError::MissingLiteral],
    }
}

/// Reads where a line between two objects attaches to one of them.
pub fn line_anchor(text: Option<&str>, errors: &mut Vec<AnchorError>) -> (a: Align2)
    ensures
        a == line_anchor_of(match text {
            Some(t) => Some(t@),
            None => None,
        }),
        final(errors)@ == old(errors)@ + line_anchor_errors(match text {
            Some(t) => Some(t@),
            None => None,
        }),
{
    match text {
        None => {
            errors.push(AnchorError::MissingLiteral);
            Align2 { x: AxisAlign::Center, y: AxisAlign::Center }
        },
        Some(t) => {
            let ghost e0 = errors@;
            let mut found: Vec<AlignmentError> = Vec::new();
            let reading = parse_alignment_from_chars(t, &mut found).0;
            assert(found@ =~= errors_of(alignment_from_text(t@)));
            if found.len() > 0 {
                errors.push(AnchorError::Alignment(found[0]));
            }
            match reading {
                Some(a) => {
                    assert(errors@ =~= e0);
                    assert(errors@ =~= old(errors)@ + line_anchor_errors(Some(t@)));
                    a
                },
                None => {
                    errors.push(AnchorError::ExitBar);
                    assert(errors@ =~= old(errors)@ + line_anchor_errors(Some(t@)));
                    Align2 { x: AxisAlign::Center, y: AxisAlign::Center }
                },
            }
        },
    }
}

/// The highlighted region of an object: both ends, or the whole object
/// when either end is missing.
pub fn highlight_region(first: Option<[usize; 3]>, second: Option<[usize; 3]>) -> (r: Option<[[usize; 3]; 2]>)
    ensures
        r == (match (first, second) {
            (Some(f), Some(s)) => Some([f, s]),
            _ => None::<[[usize; 3]; 2]>,
        }),
{
    match (first, second) {
        (Some(f), Some(s)) => Some([f, s]),
        _ => None,
    }
}

} // verus!
