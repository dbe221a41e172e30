use vstd::prelude::*;

use crate::alignment::{AlignmentError, EdgeNode};
use crate::params::{index_errors, index_value, ValueError};
use crate::slide::{
    clone_split, deref_opt, edge_errors_of, edge_exiting, edge_positions, has_key, keys_distinct, resolved, with_subbox,
    ObjPositions, ObjState, Slide, SlideObj, SlideVb, Split, VbIdentifier, ViewboxRef,
};
use crate::strings::parse_usize;

verus! {

/// An error reading where an object of a slide goes and comes from.
#[derive(Debug, Clone, Copy, PartialEq, Eq, Structural)]
pub enum PlacementError {
    /// "The reference to the viewbox where the object should go to is
    /// missing".
    MissingTarget,
    /// "Expected one of `:`, `|`, or `~`".
    BadPlacementToken,
    /// "Expected one of `Size`, `()`, or some other identifier".
    BadViewboxName,
    /// "Cannot find that viewbox".
    UnknownViewbox,
    /// "Cannot find that subbox".
    UnknownSubbox,
    /// "The viewbox which the inline viewbox should split on is missing".
    MissingSplitBase,
    /// "The inner details of the inline viewbox are missing".
    MissingSplitDetails,
    /// "The viewbox where the object should come from is missing".
    MissingOrigin,
    /// A sub-box index that is missing or not a number.
    Index(ValueError),
    /// An alignment of the object's edge that could not be read.
    Edge(AlignmentError),
    /// "Implicit elements could not be resolved".
    Unresolved,
    /// "Expected a top level object".
    NotTopLevel,
}

/// The name of a viewbox as a reference writes it.
#[derive(Debug)]
pub enum VbNameSyntax {
    /// `Size`, the whole slide.
    Size,
    /// `()`, the viewbox of the object before this one.
    Inherit,
    /// A rectangle written out, already read.
    Rect(emath::Rect),
    /// The name of a viewbox.
    Named(String),
    /// Anything else.
    Other,
}

/// A reference to a sub-box of a viewbox as written: the viewbox's name
/// and the text of the index, if the reference has one.
#[derive(Debug)]
pub struct VbRefSyntax {
    pub name: VbNameSyntax,
    pub index: Option<String>,
}

/// The placement of an object as written after its name.
#[derive(Debug)]
pub enum PlacementSyntax {
    /// `:` and the reference of the viewbox the object goes to, if present.
    Goto(Option<VbRefSyntax>),
    /// `|` and an inline viewbox: the reference of the viewbox it splits
    /// (if present), whether its inner details are present, the text of
    /// the index of the sub-box the object goes to (if present), and the
    /// split, already laid out.
    Split { split_on: Option<VbRefSyntax>, has_inner: bool, index: Option<String>, split: Split },
    /// `~`: the object stays where it was.
    Stay,
    /// Any other token.
    Other,
}

/// The origin of an object as written: the viewbox it comes from.
#[derive(Debug)]
pub enum OriginSyntax {
    /// The origin node holds nothing at all.
    Empty,
    /// It holds only tokens without a name.
    Unnamed,
    /// It holds a reference.
    Ref(VbRefSyntax),
}

/// An object of a slide as written: its name, placement, origin and edge
/// (each alignment of the edge as a node, if present).
#[derive(Debug)]
pub struct ObjectSyntax {
    pub name: String,
    pub placement: Option<PlacementSyntax>,
    pub origin: Option<OriginSyntax>,
    pub edge: Option<(Option<EdgeNode>, Option<EdgeNode>)>,
}

/// The number of sub-boxes of the first viewbox of that name, if any.
pub open spec fn subbox_count(vbs: Seq<(String, usize)>, name: Seq<char>) -> Option<usize>
    decreases vbs.len(),
{
    if vbs.len() == 0 {
        None
    } else if vbs[0].0@ == name {
        Some(vbs[0].1)
    } else {
        subbox_count(vbs.drop_first(), name)
    }
}

/// The optional characters of an optional string.
pub open spec fn opt_text(t: Option<String>) -> Option<Seq<char>> {
    match t {
        Some(s) => Some(s@),
        None => None,
    }
}

/// The errors reading an index reports, as placement errors.
pub open spec fn index_errs(t: Option<String>) -> Seq<PlacementError> {
    index_errors(opt_text(t)).map_values(|e: ValueError| PlacementError::Index(e))
}

/// The reference a sub-box reference reads as, with its sub-box and the
/// errors it reports. `None` for `()`, which takes the viewbox of the
/// object before; its sub-box is still read. A named viewbox must be
/// defined, and its index is read only then and checked against the
/// number of its sub-boxes.
pub open spec fn ref_reading(r: VbRefSyntax, vbs: Seq<(String, usize)>) -> (Option<ViewboxRef>, usize, Seq<PlacementError>) {
    match r.name {
        VbNameSyntax::Size => (Some(ViewboxRef { vb_name: VbIdentifier::Size, subbox: 0 }), 0, Seq::empty()),
        VbNameSyntax::Inherit => (None, index_value(opt_text(r.index)), index_errs(r.index)),
        VbNameSyntax::Rect(rect) => (Some(ViewboxRef { vb_name: VbIdentifier::Rect(rect), subbox: 0 }), 0, Seq::empty()),
        VbNameSyntax::Named(n) => match subbox_count(vbs, n@) {
            Some(c) => {
                let s = index_value(opt_text(r.index));
                (
                    Some(ViewboxRef { vb_name: VbIdentifier::Named(n), subbox: s }),
                    s,
                    index_errs(r.index) + if c < s {
                        seq![PlacementError::UnknownSubbox]
                    } else {
                        Seq::empty()
                    },
                )
            },
            None => (
                Some(ViewboxRef { vb_name: VbIdentifier::Named(n), subbox: 0 }),
                0,
                seq![PlacementError::UnknownViewbox],
            ),
        },
        VbNameSyntax::Other => (
            Some(ViewboxRef { vb_name: VbIdentifier::Size, subbox: 0 }),
            0,
            seq![PlacementError::BadViewboxName],
        ),
    }
}

/// Reads the index of a reference, reporting what is wrong with it.
fn read_index(index: &Option<String>, errors: &mut Vec<PlacementError>) -> (n: usize)
    ensures
        n == index_value(opt_text(*index)),
        final(errors)@ == old(errors)@ + index_errs(*index),
{
    match index {
        None => {
            errors.push(PlacementError::Index(ValueError::MissingIndex));
            assert(index_errs(*index) =~= seq![PlacementError::Index(ValueError::MissingIndex)]);
            0
        },
        Some(t) => match parse_usize(t.as_str()) {
            Some(n) => {
                assert(index_errs(*index) =~= Seq::<PlacementError>::empty());
                assert(errors@ + index_errs(*index) =~= errors@);
                n
            },
            None => {
                errors.push(PlacementError::Index(ValueError::NotAnIndex));
                assert(index_errs(*index) =~= seq![PlacementError::Index(ValueError::NotAnIndex)]);
                0
            },
        },
    }
}

/// The number of sub-boxes of the first viewbox of that name, if any.
pub(crate) fn find_viewbox(viewboxes: &Vec<(String, usize)>, name: &String) -> (c: Option<usize>)
    ensures
        c == subbox_count(viewboxes@, name@),
{
    let mut i: usize = 0;
    assert(viewboxes@.skip(0) =~= viewboxes@);
    while i < viewboxes.len()
        invariant
            i <= viewboxes@.len(),
            subbox_count(viewboxes@, name@) == subbox_count(viewboxes@.skip(i as int), name@),
        decreases viewboxes@.len() - i,
    {
        assert(viewboxes@.skip(i as int).drop_first() =~= viewboxes@.skip(i + 1));
        assert(viewboxes@.skip(i as int)[0] == viewboxes@[i as int]);
        if viewboxes[i].0 == *name {
            return Some(viewboxes[i].1);
        }
        i = i + 1;
    }
    assert(viewboxes@.skip(i as int) =~= Seq::<(String, usize)>::empty());
    None
}

/// Reads a sub-box reference (see `ref_reading`).
fn read_ref(r: &VbRefSyntax, viewboxes: &Vec<(String, usize)>, errors: &mut Vec<PlacementError>) -> (res: (
    Option<ViewboxRef>,
    usize,
))
    ensures
        res.0 == ref_reading(*r, viewboxes@).0,
        res.1 == ref_reading(*r, viewboxes@).1,
        final(errors)@ == old(errors)@ + ref_reading(*r, viewboxes@).2,
{
    match &r.name {
        VbNameSyntax::Size => {
            assert(errors@ + Seq::<PlacementError>::empty() =~= errors@);
            (Some(ViewboxRef { vb_name: VbIdentifier::Size, subbox: 0 }), 0)
        },
        VbNameSyntax::Inherit => {
            let s = read_index(&r.index, errors);
            (None, s)
        },
        VbNameSyntax::Rect(rect) => {
            assert(errors@ + Seq::<PlacementError>::empty() =~= errors@);
            (Some(ViewboxRef { vb_name: VbIdentifier::Rect(*rect), subbox: 0 }), 0)
        },
        VbNameSyntax::Named(n) => match find_viewbox(viewboxes, n) {
            Some(c) => {
                let ghost e0 = errors@;
                let s = read_index(&r.index, errors);
                if c < s {
                    errors.push(PlacementError::UnknownSubbox);
                }
                assert(errors@ =~= old(errors)@ + ref_reading(*r, viewboxes@).2);
                (Some(ViewboxRef { vb_name: VbIdentifier::Named(n.clone()), subbox: s }), s)
            },
            None => {
                errors.push(PlacementError::UnknownViewbox);
                (Some(ViewboxRef { vb_name: VbIdentifier::Named(n.clone()), subbox: 0 }), 0)
            },
        },
        VbNameSyntax::Other => {
            errors.push(PlacementError::BadViewboxName);
            (Some(ViewboxRef { vb_name: VbIdentifier::Size, subbox: 0 }), 0)
        },
    }
}

/// Where an object goes when its placement cannot be read: the whole slide.
pub open spec fn default_vb() -> SlideVb {
    SlideVb::Viewbox(ViewboxRef { vb_name: VbIdentifier::Size, subbox: 0 })
}

/// The placement of the object before, pointed at another sub-box.
pub open spec fn inherited(last_obj: Option<SlideObj>, sub: usize) -> Option<SlideVb> {
    match last_obj {
        Some(o) => match o.viewbox {
            Some(v) => Some(with_subbox(v, sub)),
            None => None,
        },
        None => None,
    }
}

/// Where an object goes by its placement, and the errors reading the
/// placement reports. `~` keeps no placement, so that the object stays
/// where it was; a missing or unreadable placement puts it on the whole
/// slide; `()` takes the placement of the object before.
pub open spec fn placement_reading(
    p: PlacementSyntax,
    vbs: Seq<(String, usize)>,
    last_obj: Option<SlideObj>,
) -> (Option<SlideVb>, Seq<PlacementError>) {
    match p {
        PlacementSyntax::Goto(None) => (Some(default_vb()), seq![PlacementError::MissingTarget]),
        PlacementSyntax::Goto(Some(r)) => {
            let read = ref_reading(r, vbs);
            (
                match read.0 {
                    Some(x) => Some(SlideVb::Viewbox(x)),
                    None => match inherited(last_obj, read.1) {
                        Some(v) => Some(v),
                        None => Some(default_vb()),
                    },
                },
                read.2,
            )
        },
        PlacementSyntax::Split { split_on, has_inner, index, split } => {
            let base_errors = match split_on {
                Some(r) => ref_reading(r, vbs).2,
                None => seq![PlacementError::MissingSplitBase],
            };
            let inner_errors = if has_inner {
                Seq::empty()
            } else {
                seq![PlacementError::MissingSplitDetails]
            };
            (
                Some(SlideVb::InnerVb { split, subbox: index_value(opt_text(index)) }),
                base_errors + inner_errors + index_errs(index),
            )
        },
        PlacementSyntax::Stay => (None, Seq::empty()),
        PlacementSyntax::Other => (Some(default_vb()), seq![PlacementError::BadPlacementToken]),
    }
}

/// The placement of the object before, pointed at another sub-box.
fn inherit_from(last_obj: Option<&SlideObj>, sub: usize) -> (r: Option<SlideVb>)
    ensures
        r == inherited(deref_opt(last_obj), sub),
{
    match last_obj {
        Some(o) => match &o.viewbox {
            Some(v) => {
                let mut c = v.clone();
                c.set_subbox(sub);
                Some(c)
            },
            None => None,
        },
        None => None,
    }
}

/// Reads where an object goes (see `placement_reading`).
fn read_placement(
    p: &PlacementSyntax,
    viewboxes: &Vec<(String, usize)>,
    last_obj: Option<&SlideObj>,
    errors: &mut Vec<PlacementError>,
) -> (vb: Option<SlideVb>)
    ensures
        vb == placement_reading(*p, viewboxes@, deref_opt(last_obj)).0,
        final(errors)@ == old(errors)@ + placement_reading(*p, viewboxes@, deref_opt(last_obj)).1,
{
    match p {
        PlacementSyntax::Goto(None) => {
            errors.push(PlacementError::MissingTarget);
            Some(SlideVb::Viewbox(ViewboxRef { vb_name: VbIdentifier::Size, subbox: 0 }))
        },
        PlacementSyntax::Goto(Some(r)) => {
            let (rf, sub) = read_ref(r, viewboxes, errors);
            match rf {
                Some(x) => Some(SlideVb::Viewbox(x)),
                None => match inherit_from(last_obj, sub) {
                    Some(v) => Some(v),
                    None => Some(SlideVb::Viewbox(ViewboxRef { vb_name: VbIdentifier::Size, subbox: 0 })),
                },
            }
        },
        PlacementSyntax::Split { split_on, has_inner, index, split } => {
            let ghost e0 = errors@;
            match split_on {
                Some(r) => {
                    let _ = read_ref(r, viewboxes, errors);
                },
                None => errors.push(PlacementError::MissingSplitBase),
            }
            let ghost e1 = errors@;
            if !*has_inner {
                errors.push(PlacementError::MissingSplitDetails);
            }
            let ghost e2 = errors@;
            let subbox = read_index(index, errors);
            assert(errors@ =~= old(errors)@ + placement_reading(*p, viewboxes@, deref_opt(last_obj)).1);
            Some(SlideVb::InnerVb { split: clone_split(split), subbox })
        },
        PlacementSyntax::Stay => {
            assert(errors@ + Seq::<PlacementError>::empty() =~= errors@);
            None
        },
        PlacementSyntax::Other => {
            errors.push(PlacementError::BadPlacementToken);
            Some(SlideVb::Viewbox(ViewboxRef { vb_name: VbIdentifier::Size, subbox: 0 }))
        },
    }
}

/// The object of that name among entries, the first one that has it.
pub open spec fn entry_named(e: Seq<(Seq<char>, SlideObj)>, k: Seq<char>) -> Option<SlideObj>
    decreases e.len(),
{
    if e.len() == 0 {
        None
    } else if e[0].0 == k {
        Some(e[0].1)
    } else {
        entry_named(e.drop_first(), k)
    }
}

/// Where names are distinct, the object of a name is the one entry with
/// that name.
proof fn lemma_entry_named(e: Seq<(Seq<char>, SlideObj)>, k: Seq<char>)
    requires
        keys_distinct(e),
    ensures
        forall|i: int| 0 <= i < e.len() && e[i].0 == k ==> entry_named(e, k) == Some(e[i].1),
        !has_key(e, k) ==> entry_named(e, k) is None,
    decreases e.len(),
{
    if e.len() > 0 {
        let rest = e.drop_first();
        assert(keys_distinct(rest)) by {
            assert forall|i: int, j: int|
                0 <= i < rest.len() && 0 <= j < rest.len() && i != j implies #[trigger] rest[i].0
                != #[trigger] rest[j].0 by {
                assert(rest[i] == e[i + 1] && rest[j] == e[j + 1]);
            }
        }
        lemma_entry_named(rest, k);
        if e[0].0 == k {
            assert forall|i: int| 0 <= i < e.len() && e[i].0 == k implies i == 0 by {
                if i != 0 {
                    assert(e[i].0 != e[0].0);
                }
            }
        } else {
            assert forall|i: int| 0 <= i < e.len() && e[i].0 == k implies entry_named(e, k) == Some(
                e[i].1,
            ) by {
                assert(rest[i - 1] == e[i]);
            }
            if !has_key(e, k) {
                assert(!has_key(rest, k)) by {
                    if has_key(rest, k) {
                        let j = choose|j: int| 0 <= j < rest.len() && #[trigger] rest[j].0 == k;
                        assert(e[j + 1].0 == k);
                    }
                }
            }
        }
    }
}

/// The errors reading an edge reports, as placement errors.
pub open spec fn edge_errs(first: Option<EdgeNode>, second: Option<EdgeNode>) -> Seq<PlacementError> {
    edge_errors_of(first, second).map_values(|e: AlignmentError| PlacementError::Edge(e))
}

/// Whether something implicit of an object stayed unresolved, where the
/// slide does not create missing edges itself.
pub open spec fn unresolved(o: SlideObj, create_edges: bool) -> bool {
    !create_edges && (o.positions.from_alignment is None || o.positions.to_alignment is None
        || o.vb_from is None || o.viewbox is None)
}

/// Where an object comes from by its origin (other than an empty one),
/// given where it came from before, and the errors reading it reports.
pub open spec fn origin_reading(
    origin: Option<OriginSyntax>,
    vb_from: Option<SlideVb>,
    vbs: Seq<(String, usize)>,
    last_obj: Option<SlideObj>,
) -> (Option<SlideVb>, Seq<PlacementError>) {
    match origin {
        Some(OriginSyntax::Ref(r)) => {
            let read = ref_reading(r, vbs);
            (
                match read.0 {
                    Some(x) => Some(SlideVb::Viewbox(x)),
                    None => inherited(last_obj, read.1),
                },
                read.2,
            )
        },
        _ => (vb_from, Seq::empty()),
    }
}

/// The positions of an object by its edge, its alignments first cleared,
/// and the errors reading the edge reports; the exit bar makes the object
/// leave.
pub open spec fn edge_reading_of(
    edge: Option<(Option<EdgeNode>, Option<EdgeNode>)>,
    positions: ObjPositions,
) -> (ObjPositions, Seq<PlacementError>) {
    let base = ObjPositions { from_alignment: None, to_alignment: None, ..positions };
    match edge {
        Some((f, sec)) => {
            let p = edge_positions(base, f, sec);
            (
                if edge_exiting(f, sec) {
                    ObjPositions { state: ObjState::Exiting, ..p }
                } else {
                    p
                },
                edge_errs(f, sec),
            )
        },
        None => (base, Seq::empty()),
    }
}

/// An object of a slide as read from how it is written, starting from
/// `old`, with the errors reading it reports: its placement, then its
/// origin (an empty origin is an error that ends the reading there), then
/// its edge (the exit bar makes it leave); then what was left out is
/// filled in from the object of the same name on the previous slide (see
/// `resolved`), and what still is missing is an error unless the slide
/// creates missing edges itself.
pub open spec fn object_reading(
    old: SlideObj,
    s: ObjectSyntax,
    vbs: Seq<(String, usize)>,
    last_entries: Seq<(Seq<char>, SlideObj)>,
    last_obj: Option<SlideObj>,
    create_edges: bool,
) -> (SlideObj, Seq<PlacementError>) {
    let placed = match s.placement {
        Some(p) => placement_reading(p, vbs, last_obj),
        None => (None, Seq::empty()),
    };
    if s.origin matches Some(OriginSyntax::Empty) {
        (SlideObj { viewbox: placed.0, ..old }, placed.1.push(PlacementError::MissingOrigin))
    } else {
        let origin = origin_reading(s.origin, old.vb_from, vbs, last_obj);
        let edged = edge_reading_of(s.edge, old.positions);
        let r = resolved(
            SlideObj { viewbox: placed.0, vb_from: origin.0, positions: edged.0 },
            entry_named(last_entries, s.name@),
        );
        (
            r,
            placed.1 + origin.1 + edged.1 + if unresolved(r, create_edges) {
                seq![PlacementError::Unresolved]
            } else {
                Seq::empty()
            },
        )
    }
}

/// Appends alignment errors as placement errors.
fn push_edge_errors(found: &Vec<AlignmentError>, errors: &mut Vec<PlacementError>)
    ensures
        final(errors)@ == old(errors)@ + found@.map_values(|e: AlignmentError| PlacementError::Edge(e)),
{
    let mut i: usize = 0;
    while i < found.len()
        invariant
            i <= found@.len(),
            errors@ == old(errors)@ + found@.take(i as int).map_values(
                |e: AlignmentError| PlacementError::Edge(e),
            ),
        decreases found@.len() - i,
    {
        errors.push(PlacementError::Edge(found[i]));
        assert(found@.take(i + 1).map_values(|e: AlignmentError| PlacementError::Edge(e))
            =~= found@.take(i as int).map_values(|e: AlignmentError| PlacementError::Edge(e)).push(
            PlacementError::Edge(found@[i as int]),
        ));
        i = i + 1;
    }
    assert(found@.take(found@.len() as int) =~= found@);
}

/// Reads where an object comes from (see `origin_reading`).
fn read_origin(
    origin: &Option<OriginSyntax>,
    vb_from: &mut Option<SlideVb>,
    viewboxes: &Vec<(String, usize)>,
    last_obj: Option<&SlideObj>,
    errors: &mut Vec<PlacementError>,
)
    ensures
        *final(vb_from) == origin_reading(*origin, *old(vb_from), viewboxes@, deref_opt(last_obj)).0,
        final(errors)@ == old(errors)@ + origin_reading(
            *origin,
            *old(vb_from),
            viewboxes@,
            deref_opt(last_obj),
        ).1,
{
    match origin {
        Some(OriginSyntax::Ref(r)) => {
            let (rf, sub) = read_ref(r, viewboxes, errors);
            *vb_from = match rf {
                Some(x) => Some(SlideVb::Viewbox(x)),
                None => inherit_from(last_obj, sub),
            };
        },
        _ => {
            assert(errors@ + Seq::<PlacementError>::empty() =~= errors@);
        },
    }
}

/// Reads the edge of an object into its positions (see
/// `edge_reading_of`).
fn read_edge_into(
    edge: &Option<(Option<EdgeNode>, Option<EdgeNode>)>,
    positions: &mut ObjPositions,
    errors: &mut Vec<PlacementError>,
)
    ensures
        *final(positions) == edge_reading_of(*edge, *old(positions)).0,
        final(errors)@ == old(errors)@ + edge_reading_of(*edge, *old(positions)).1,
{
    positions.from_alignment = None;
    positions.to_alignment = None;
    match edge {
        Some((f, sec)) => {
            let mut found: Vec<AlignmentError> = Vec::new();
            let exiting = positions.parse(*f, *sec, &mut found);
            if exiting {
                positions.state = ObjState::Exiting;
            }
            assert(found@ =~= edge_errors_of(*f, *sec));
            push_edge_errors(&found, errors);
        },
        None => {
            assert(errors@ + Seq::<PlacementError>::empty() =~= errors@);
        },
    }
}

impl SlideObj {
    /// Reads an object of a slide from how it is written (see
    /// `object_reading`): `viewboxes` are the names of the viewboxes
    /// defined so far with the number of their sub-boxes, `last_slide` the
    /// slide before, `last_obj` the object written before this one on this
    /// slide. Returns the object's name; errors go to `errors`.
    pub fn parse(
        &mut self,
        syntax: &ObjectSyntax,
        viewboxes: &Vec<(String, usize)>,
        last_slide: &Slide,
        last_obj: Option<&SlideObj>,
        create_edges: bool,
        errors: &mut Vec<PlacementError>,
    ) -> (name: String)
        requires
            keys_distinct(last_slide.entries()),
        ensures
            name@ == syntax.name@,
            *final(self) == object_reading(
                *old(self),
                *syntax,
                viewboxes@,
                last_slide.entries(),
                deref_opt(last_obj),
                create_edges,
            ).0,
            final(errors)@ == old(errors)@ + object_reading(
                *old(self),
                *syntax,
                viewboxes@,
                last_slide.entries(),
                deref_opt(last_obj),
                create_edges,
            ).1,
    {
        self.viewbox = match &syntax.placement {
            Some(p) => read_placement(p, viewboxes, last_obj, errors),
            None => {
                assert(errors@ + Seq::<PlacementError>::empty() =~= errors@);
                None
            },
        };
        if let Some(OriginSyntax::Empty) = &syntax.origin {
            errors.push(PlacementError::MissingOrigin);
            return syntax.name.clone();
        }
        let ghost e1 = errors@;
        read_origin(&syntax.origin, &mut self.vb_from, viewboxes, last_obj, errors);
        let ghost e2 = errors@;
        read_edge_into(&syntax.edge, &mut self.positions, errors);
        let ghost e3 = errors@;
        let prev = last_slide.object(syntax.name.as_str());
        proof {
            lemma_entry_named(last_slide.entries(), syntax.name@);
        }
        self.resolve_from_other(prev);
        if self.has_unresolved_implicit(create_edges) {
            errors.push(PlacementError::Unresolved);
        }
        syntax.name.clone()
    }
}

/// An object before anything about it was read.
pub open spec fn blank_object() -> SlideObj {
    SlideObj {
        viewbox: None,
        vb_from: None,
        positions: ObjPositions { from_alignment: None, to_alignment: None, state: ObjState::OnScreen },
    }
}

/// Entries with an object put under a name: in place of the entry of that
/// name, or else at the end.
pub open spec fn insert_entry(e: Seq<(Seq<char>, SlideObj)>, k: Seq<char>, v: SlideObj) -> Seq<(Seq<char>, SlideObj)> {
    if has_key(e, k) {
        let i = choose|i: int| 0 <= i < e.len() && #[trigger] e[i].0 == k;
        e.update(i, (k, v))
    } else {
        e.push((k, v))
    }
}

/// The entries of a slide after reading objects in order onto it, with
/// the errors reading them reports: each object is read with the object
/// written last before it, and put under its name.
pub open spec fn objects_reading(
    e: Seq<(Seq<char>, SlideObj)>,
    objs: Seq<ObjectSyntax>,
    vbs: Seq<(String, usize)>,
    last_entries: Seq<(Seq<char>, SlideObj)>,
    create_edges: bool,
) -> (Seq<(Seq<char>, SlideObj)>, Seq<PlacementError>)
    decreases objs.len(),
{
    if objs.len() == 0 {
        (e, Seq::empty())
    } else {
        let before = objects_reading(e, objs.drop_last(), vbs, last_entries, create_edges);
        let o = objs.last();
        let last_obj = if before.0.len() > 0 { Some(before.0.last().1) } else { None };
        let read = object_reading(blank_object(), o, vbs, last_entries, last_obj, create_edges);
        (insert_entry(before.0, o.name@, read.0), before.1 + read.1)
    }
}

impl Slide {
    /// Reads the objects of a slide in the order they are written (see
    /// `objects_reading`); `last_slide` is the slide before.
    pub fn parse_objects(
        &mut self,
        objects: &Vec<ObjectSyntax>,
        viewboxes: &Vec<(String, usize)>,
        last_slide: &Slide,
        errors: &mut Vec<PlacementError>,
    )
        requires
            keys_distinct(old(self).entries()),
            keys_distinct(last_slide.entries()),
        ensures
            final(self).entries() == objects_reading(
                old(self).entries(),
                objects@,
                viewboxes@,
                last_slide.entries(),
                old(self).create_edges,
            ).0,
            final(errors)@ == old(errors)@ + objects_reading(
                old(self).entries(),
                objects@,
                viewboxes@,
                last_slide.entries(),
                old(self).create_edges,
            ).1,
            final(self).create_edges == old(self).create_edges,
            keys_distinct(final(self).entries()),
    {
        let mut i: usize = 0;
        assert(objects@.take(0) =~= Seq::<ObjectSyntax>::empty());
        while i < objects.len()
            invariant
                i <= objects@.len(),
                keys_distinct(self.entries()),
                keys_distinct(last_slide.entries()),
                self.create_edges == old(self).create_edges,
                ({
                    let r = objects_reading(
                        old(self).entries(),
                        objects@.take(i as int),
                        viewboxes@,
                        last_slide.entries(),
                        old(self).create_edges,
                    );
                    &&& self.entries() == r.0
                    &&& errors@ == old(errors)@ + r.1
                }),
            decreases objects@.len() - i,
        {
            let ghost before = self.entries();
            let ghost e0 = errors@;
            assert(objects@.take(i + 1).drop_last() =~= objects@.take(i as int));
            assert(objects@.take(i + 1).last() == objects@[i as int]);
            let mut obj = SlideObj::default();
            let name = {
                let last = self.last_object();
                assert(deref_opt(last) == (if before.len() > 0 {
                    Some(before.last().1)
                } else {
                    None::<SlideObj>
                }));
                obj.parse(&objects[i], viewboxes, last_slide, last, self.create_edges, errors)
            };
            assert(obj == object_reading(
                blank_object(),
                objects@[i as int],
                viewboxes@,
                last_slide.entries(),
                if before.len() > 0 { Some(before.last().1) } else { None },
                old(self).create_edges,
            ).0);
            let ghost key = name@;
            let ghost value = obj;
            self.insert_object(name, obj);
            proof {
                if has_key(before, key) {
                    let c = choose|c: int| 0 <= c < before.len() && #[trigger] before[c].0 == key;
                    let j = choose|j: int|
                        0 <= j < before.len() && before[j].0 == key && self.entries()
                            == before.update(j, (key, value));
                    if j != c {
                        assert(before[j].0 != before[c].0);
                    }
                }
                assert(self.entries() == insert_entry(before, key, value));
            }
            assert(errors@ =~= old(errors)@ + objects_reading(
                old(self).entries(),
                objects@.take(i + 1),
                viewboxes@,
                last_slide.entries(),
                old(self).create_edges,
            ).1);
            i = i + 1;
        }
        assert(objects@.take(objects@.len() as int) =~= objects@);
    }
}

/// An object written with `~` and nothing else, that was on the previous
/// slide and not leaving, stays where it was: in the same placement,
/// coming from there, at the alignment it went to.
pub proof fn lemma_stay_keeps_place(
    s: ObjectSyntax,
    vbs: Seq<(String, usize)>,
    last_entries: Seq<(Seq<char>, SlideObj)>,
    last_obj: Option<SlideObj>,
    create_edges: bool,
    i: int,
)
    requires
        s.placement matches Some(PlacementSyntax::Stay),
        s.origin is None,
        s.edge is None,
        keys_distinct(last_entries),
        0 <= i < last_entries.len(),
        last_entries[i].0 == s.name@,
        last_entries[i].1.positions.state != ObjState::Exiting,
    ensures
        ({
            let prev = last_entries[i].1;
            let o = object_reading(blank_object(), s, vbs, last_entries, last_obj, create_edges).0;
            &&& o.viewbox == prev.viewbox
            &&& o.vb_from == prev.viewbox
            &&& o.positions.from_alignment == prev.positions.to_alignment
            &&& o.positions.to_alignment == prev.positions.to_alignment
            &&& o.positions.state == ObjState::OnScreen
        }),
{
    lemma_entry_named(last_entries, s.name@);
}

} // verus!
