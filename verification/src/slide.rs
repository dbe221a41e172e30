use vstd::prelude::*;

use crate::alignment::{
    alignment_from_node, anchor_label, anchor_text, errors_of, parse_alignment, reading_of, Align2, AlignmentError,
    EdgeNode,
};

verus! {

/// An axis-aligned rectangle of the drawing surface, as `emath` holds it.
/// Its coordinates are carried through unread.
#[verifier::external_type_specification]
#[verifier::external_body]
pub struct ExRect(emath::Rect);

/// The insertion-ordered map of `indexmap`.
#[verifier::external_type_specification]
#[verifier::external_body]
#[verifier::reject_recursive_types(K)]
#[verifier::reject_recursive_types(V)]
#[verifier::reject_recursive_types(S)]
pub struct ExIndexMap<K, V, S>(indexmap::IndexMap<K, V, S>);

/// The hasher state of `ahash`.
#[verifier::external_type_specification]
#[verifier::external_body]
pub struct ExRandomState(ahash::RandomState);

/// The rectangles an inline viewbox splits into, held in the inline
/// storage vector of `smallvec` (whose declaration Verus refuses, as it is
/// bounded by an outside trait). Their coordinates are carried through
/// unread.
#[verifier::external_body]
#[derive(Debug)]
pub struct Split {
    rects: smallvec::SmallVec<[emath::Rect; 4]>,
}

/// The rectangles a split holds, in order.
pub uninterp spec fn split_rects(s: Split) -> Seq<emath::Rect>;

/// Collects rectangles into a split.
///
/// Calls `SmallVec::from_vec`, which holds the vector's elements in order.
#[verifier::external_body]
fn split_from_vec(rects: Vec<emath::Rect>) -> (s: Split)
    ensures
        split_rects(s) == rects@,
{
    Split { rects: smallvec::SmallVec::from_vec(rects) }
}

/// The rectangles of a split.
///
/// Calls `SmallVec::to_vec`, which copies the elements in order.
#[verifier::external_body]
fn split_to_vec(s: &Split) -> (v: Vec<emath::Rect>)
    ensures
        v@ == split_rects(*s),
{
    s.rects.to_vec()
}

impl Split {
    /// Collects rectangles into a split, in order.
    pub fn from_rects(rects: Vec<emath::Rect>) -> (s: Split)
        ensures
            split_rects(s) == rects@,
    {
        split_from_vec(rects)
    }

    /// The rectangles of the split, in order.
    pub fn to_rects(&self) -> (v: Vec<emath::Rect>)
        ensures
            v@ == split_rects(*self),
    {
        split_to_vec(self)
    }
}

/// A copy of the rectangles of a split.
///
/// Calls `SmallVec::clone`; the contract claims that the copy is the same
/// value as the split it copies, which holds since the rectangles are
/// plain `Copy` data that `clone` copies one by one.
#[verifier::external_body]
pub(crate) fn clone_split(s: &Split) -> (r: Split)
    ensures
        r == *s,
{
    Split { rects: s.rects.clone() }
}

/// The stage of an object's life on a slide.
#[derive(Debug, Clone, Copy, PartialEq, Eq, Structural)]
pub enum ObjState {
    Entering,
    OnScreen,
    Exiting,
}

impl Default for ObjState {
    fn default() -> (s: Self)
        ensures
            s == ObjState::OnScreen,
    {
        ObjState::OnScreen
    }
}

/// Which viewbox a reference names.
#[derive(Debug)]
pub enum VbIdentifier {
    Named(String),
    Rect(emath::Rect),
    Size,
}

impl Clone for VbIdentifier {
    fn clone(&self) -> (r: Self)
        ensures
            r == *self,
    {
        match self {
            VbIdentifier::Named(n) => VbIdentifier::Named(n.clone()),
            VbIdentifier::Rect(r) => VbIdentifier::Rect(*r),
            VbIdentifier::Size => VbIdentifier::Size,
        }
    }
}

impl Default for VbIdentifier {
    fn default() -> (v: Self)
        ensures
            v == VbIdentifier::Size,
    {
        VbIdentifier::Size
    }
}

/// Whether an identifier is the viewbox of the given name.
pub open spec fn names_viewbox(id: VbIdentifier, name: Seq<char>) -> bool {
    id matches VbIdentifier::Named(n) && n@ == name
}

impl VbIdentifier {
    /// Whether this identifier is the viewbox of the given name; sizes and
    /// literal rectangles name no viewbox.
    pub fn eq(&self, other: &String) -> (r: bool)
        ensures
            r == names_viewbox(*self, other@),
    {
        match self {
            VbIdentifier::Named(n) => *n == *other,
            _ => false,
        }
    }
}

/// A reference to one of the sub-boxes of a viewbox.
#[derive(Debug)]
pub struct ViewboxRef {
    pub vb_name: VbIdentifier,
    pub subbox: usize,
}

impl Clone for ViewboxRef {
    fn clone(&self) -> (r: Self)
        ensures
            r == *self,
    {
        ViewboxRef { vb_name: self.vb_name.clone(), subbox: self.subbox }
    }
}

impl Default for ViewboxRef {
    fn default() -> (r: Self)
        ensures
            r == (ViewboxRef { vb_name: VbIdentifier::Size, subbox: 0 }),
    {
        ViewboxRef { vb_name: VbIdentifier::Size, subbox: 0 }
    }
}

/// Where an object is placed on a slide: a sub-box of a named viewbox, or
/// a sub-box of an inline split.
#[derive(Debug)]
pub enum SlideVb {
    Viewbox(ViewboxRef),
    InnerVb { split: Split, subbox: usize },
}

impl Clone for SlideVb {
    fn clone(&self) -> (r: Self)
        ensures
            r == *self,
    {
        match self {
            SlideVb::Viewbox(vb) => SlideVb::Viewbox(vb.clone()),
            SlideVb::InnerVb { split, subbox } => SlideVb::InnerVb {
                split: clone_split(split),
                subbox: *subbox,
            },
        }
    }
}

impl Default for SlideVb {
    fn default() -> (r: Self)
        ensures
            r == SlideVb::Viewbox(ViewboxRef { vb_name: VbIdentifier::Size, subbox: 0 }),
    {
        SlideVb::Viewbox(ViewboxRef::default())
    }
}

/// A placement with its sub-box index replaced.
pub open spec fn with_subbox(vb: SlideVb, n: usize) -> SlideVb {
    match vb {
        SlideVb::Viewbox(r) => SlideVb::Viewbox(ViewboxRef { subbox: n, ..r }),
        SlideVb::InnerVb { split, subbox } => SlideVb::InnerVb { split, subbox: n },
    }
}

/// Whether a placement is a sub-box of the viewbox of the given name.
pub open spec fn placed_in(vb: SlideVb, name: Seq<char>) -> bool {
    vb matches SlideVb::Viewbox(r) && names_viewbox(r.vb_name, name)
}

impl SlideVb {
    /// Points the placement at another sub-box of the same viewbox or split.
    pub fn set_subbox(&mut self, new_subbox: usize)
        ensures
            *final(self) == with_subbox(*old(self), new_subbox),
    {
        match self {
            SlideVb::Viewbox(vb) => vb.subbox = new_subbox,
            SlideVb::InnerVb { subbox, .. } => *subbox = new_subbox,
        }
    }

    /// Whether the placement is a sub-box of the viewbox of the given name;
    /// inline splits belong to no named viewbox.
    pub fn eq(&self, other: &String) -> (r: bool)
        ensures
            r == placed_in(*self, other@),
    {
        match self {
            SlideVb::Viewbox(vb) => vb.vb_name.eq(other),
            _ => false,
        }
    }
}

/// Where an object comes from and goes to, and whether it enters, stays
/// or leaves.
#[derive(Debug, Clone, Copy, PartialEq, Eq, Structural)]
pub struct ObjPositions {
    pub from_alignment: Option<Align2>,
    pub to_alignment: Option<Align2>,
    pub state: ObjState,
}

impl Default for ObjPositions {
    fn default() -> (p: Self)
        ensures
            p == (ObjPositions {
                from_alignment: None,
                to_alignment: None,
                state: ObjState::OnScreen,
            }),
    {
        ObjPositions { from_alignment: None, to_alignment: None, state: ObjState::OnScreen }
    }
}

/// An object as it appears on one slide. A `None` placement after
/// resolution means the source left it out and nothing implied it.
#[derive(Debug)]
pub struct SlideObj {
    pub viewbox: Option<SlideVb>,
    pub vb_from: Option<SlideVb>,
    pub positions: ObjPositions,
}

/// A copy of an optional placement.
fn clone_placement(vb: &Option<SlideVb>) -> (r: Option<SlideVb>)
    ensures
        r == *vb,
{
    match vb {
        Some(v) => Some(v.clone()),
        None => None,
    }
}

impl Clone for SlideObj {
    fn clone(&self) -> (r: Self)
        ensures
            r == *self,
    {
        SlideObj {
            viewbox: clone_placement(&self.viewbox),
            vb_from: clone_placement(&self.vb_from),
            positions: self.positions,
        }
    }
}

impl Default for SlideObj {
    fn default() -> (o: Self)
        ensures
            o == (SlideObj {
                viewbox: None,
                vb_from: None,
                positions: ObjPositions {
                    from_alignment: None,
                    to_alignment: None,
                    state: ObjState::OnScreen,
                },
            }),
    {
        SlideObj { viewbox: None, vb_from: None, positions: ObjPositions::default() }
    }
}

/// The object as it stood on the previous slide, if it is still there: an
/// object that was leaving no longer counts.
pub open spec fn predecessor(other: Option<SlideObj>) -> Option<SlideObj> {
    match other {
        Some(o) => if o.positions.state == ObjState::Exiting { None } else { Some(o) },
        None => None,
    }
}

/// The target alignment the previous slide leaves for the object.
pub open spec fn previous_target(prev: Option<SlideObj>) -> Option<Align2> {
    match prev {
        Some(o) => o.positions.to_alignment,
        None => None,
    }
}

/// The placement the previous slide leaves for the object.
pub open spec fn previous_viewbox(prev: Option<SlideObj>) -> Option<SlideVb> {
    match prev {
        Some(o) => o.viewbox,
        None => None,
    }
}

/// An object with what its source left out filled in from the previous
/// slide: an object new to the slide (or whose predecessor was leaving)
/// enters; a missing target stays where the object was, or for a leaving
/// object where it comes from; a leaving object, or one without an origin,
/// starts where the previous slide put it; a missing placement is
/// inherited; and a missing origin is the placement itself for an entering
/// object, else the previous placement.
pub open spec fn resolved(o: SlideObj, other: Option<SlideObj>) -> SlideObj {
    let prev = predecessor(other);
    let state = if prev is None { ObjState::Entering } else { o.positions.state };
    let to = if o.positions.to_alignment is Some {
        o.positions.to_alignment
    } else if state == ObjState::Exiting {
        o.positions.from_alignment
    } else {
        previous_target(prev)
    };
    let from = if o.positions.from_alignment is None || state == ObjState::Exiting {
        previous_target(prev)
    } else {
        o.positions.from_alignment
    };
    let viewbox = if o.viewbox is None { previous_viewbox(prev) } else { o.viewbox };
    let vb_from = if o.vb_from is Some {
        o.vb_from
    } else if state == ObjState::Entering {
        viewbox
    } else {
        previous_viewbox(prev)
    };
    SlideObj {
        viewbox,
        vb_from,
        positions: ObjPositions { from_alignment: from, to_alignment: to, state },
    }
}

/// The optional object behind an optional reference.
pub open spec fn deref_opt(o: Option<&SlideObj>) -> Option<SlideObj> {
    match o {
        Some(r) => Some(*r),
        None => None,
    }
}

impl SlideObj {
    /// Fills in what the source left out from the same object on the
    /// previous slide (see `resolved`).
    pub fn resolve_from_other(&mut self, other: Option<&SlideObj>)
        ensures
            *final(self) == resolved(*old(self), deref_opt(other)),
    {
        let mut other = other;
        let gone = match other {
            None => true,
            Some(o) => o.positions.state == ObjState::Exiting,
        };
        if gone {
            self.positions.state = ObjState::Entering;
            other = None;
        }
        if self.positions.to_alignment.is_none() {
            self.positions.to_alignment = if self.positions.state == ObjState::Exiting {
                self.positions.from_alignment
            } else {
                match other {
                    Some(o) => o.positions.to_alignment,
                    None => None,
                }
            };
        }
        if self.positions.from_alignment.is_none() || self.positions.state == ObjState::Exiting {
            self.positions.from_alignment = match other {
                Some(o) => o.positions.to_alignment,
                None => None,
            };
        }
        if self.viewbox.is_none() {
            self.viewbox = match other {
                Some(o) => clone_placement(&o.viewbox),
                None => None,
            };
        }
        if self.vb_from.is_none() {
            match self.positions.state {
                ObjState::Entering => self.vb_from = clone_placement(&self.viewbox),
                ObjState::OnScreen | ObjState::Exiting => {
                    self.vb_from = match other {
                        Some(o) => clone_placement(&o.viewbox),
                        None => None,
                    };
                },
            }
        }
    }

    /// Whether something implicit stayed unresolved, which is an error
    /// unless the slide creates the missing edges itself.
    pub fn has_unresolved_implicit(&self, create_edges: bool) -> (r: bool)
        ensures
            r == (!create_edges && (self.positions.from_alignment is None
                || self.positions.to_alignment is None || self.vb_from is None
                || self.viewbox is None)),
    {
        !create_edges && (self.positions.from_alignment.is_none()
            || self.positions.to_alignment.is_none() || self.vb_from.is_none()
            || self.viewbox.is_none())
    }
}

/// The objects of a slide, by name, in the order they were written.
pub type ObjectMap = indexmap::IndexMap<String, SlideObj, ahash::RandomState>;

/// The entries of an object map, in order: each name (by its characters)
/// with its object. An index map holds each name at most once, which the
/// wrappers below that make or change a map state.
pub uninterp spec fn object_entries(m: ObjectMap) -> Seq<(Seq<char>, SlideObj)>;

/// No two entries share a name.
pub open spec fn keys_distinct(e: Seq<(Seq<char>, SlideObj)>) -> bool {
    forall|i: int, j: int| 0 <= i < e.len() && 0 <= j < e.len() && i != j ==> #[trigger] e[i].0
        != #[trigger] e[j].0
}

/// Whether some entry carries the given name.
pub open spec fn has_key(e: Seq<(Seq<char>, SlideObj)>, k: Seq<char>) -> bool {
    exists|i: int| 0 <= i < e.len() && #[trigger] e[i].0 == k
}

/// An empty object map.
///
/// Calls `IndexMap::default`, which holds no entries.
#[verifier::external_body]
fn new_object_map() -> (m: ObjectMap)
    ensures
        object_entries(m) == Seq::<(Seq<char>, SlideObj)>::empty(),
        keys_distinct(object_entries(m)),
{
    indexmap::IndexMap::default()
}

/// The number of entries.
///
/// Calls `IndexMap::len`.
#[verifier::external_body]
fn object_count(m: &ObjectMap) -> (n: usize)
    ensures
        n == object_entries(*m).len(),
{
    m.len()
}

/// The entry at a position, if there is one.
///
/// Calls `IndexMap::get_index`, which gives the name and object at that
/// position in insertion order, or `None` past the end.
#[verifier::external_body]
fn object_at(m: &ObjectMap, i: usize) -> (r: Option<(&String, &SlideObj)>)
    ensures
        i < object_entries(*m).len() ==> r is Some && r.unwrap().0@ == object_entries(
            *m,
        )[i as int].0 && *r.unwrap().1 == object_entries(*m)[i as int].1,
        i >= object_entries(*m).len() ==> r is None,
{
    m.get_index(i)
}

/// The object of the given name, if there is one.
///
/// Calls `IndexMap::get`, which finds the entry whose name equals `name`.
#[verifier::external_body]
fn object_named<'a>(m: &'a ObjectMap, name: &str) -> (r: Option<&'a SlideObj>)
    ensures
        r matches Some(v) ==> exists|i: int|
            0 <= i < object_entries(*m).len() && object_entries(*m)[i].0 == name@
                && object_entries(*m)[i].1 == *v,
        r is None ==> !has_key(object_entries(*m), name@),
{
    m.get(name)
}

/// Inserts or replaces the object of a name.
///
/// Calls `IndexMap::insert`: an existing name keeps its position and gets
/// the new object, and the old one is returned; a new name is appended.
#[verifier::external_body]
fn insert_object_entry(m: &mut ObjectMap, name: String, obj: SlideObj) -> (r: Option<SlideObj>)
    ensures
        ({
            let before = object_entries(*old(m));
            let after = object_entries(*final(m));
            if has_key(before, name@) {
                exists|i: int|
                    0 <= i < before.len() && before[i].0 == name@ && after == before.update(
                        i,
                        (name@, obj),
                    ) && r == Some(before[i].1)
            } else {
                after == before.push((name@, obj)) && r is None
            }
        }),
        keys_distinct(object_entries(*final(m))),
{
    m.insert(name, obj)
}

/// A copy of an object map.
///
/// Calls `IndexMap::clone`, which clones each name and object in order;
/// the objects' `clone` is verified to give the same value, so the copy
/// holds the same entries.
#[verifier::external_body]
fn clone_object_map(m: &ObjectMap) -> (r: ObjectMap)
    ensures
        object_entries(r) == object_entries(*m),
{
    m.clone()
}

/// Whether an object stays on the next slide: entering and on-screen ones
/// do, leaving ones do not.
pub open spec fn carried_over(o: SlideObj) -> bool {
    o.positions.state == ObjState::Entering || o.positions.state == ObjState::OnScreen
}

/// Whether an object stays on the next slide.
fn is_carried_over(o: &SlideObj) -> (r: bool)
    ensures
        r == carried_over(*o),
{
    o.positions.state == ObjState::Entering || o.positions.state == ObjState::OnScreen
}

/// Whether an entry stays on the next slide.
pub open spec fn entry_carried_over(e: (Seq<char>, SlideObj)) -> bool {
    carried_over(e.1)
}

/// Keeps the objects that stay on the next slide, in order.
///
/// Calls `IndexMap::retain`, which visits the entries in order and keeps
/// those for which the closure holds, without reordering them; the closure
/// only calls `is_carried_over`.
#[verifier::external_body]
fn retain_carried_over(m: &mut ObjectMap)
    ensures
        object_entries(*final(m)) == object_entries(*old(m)).filter(
            |e: (Seq<char>, SlideObj)| entry_carried_over(e),
        ),
        keys_distinct(object_entries(*final(m))),
{
    m.retain(|_, o| is_carried_over(o))
}

/// Replaces the object at a position, keeping its name.
///
/// Calls `IndexMut::index_mut` of `IndexMap`, which panics past the end.
#[verifier::external_body]
fn set_object_at(m: &mut ObjectMap, i: usize, obj: SlideObj)
    requires
        i < object_entries(*old(m)).len(),
    ensures
        object_entries(*final(m)) == object_entries(*old(m)).update(
            i as int,
            (object_entries(*old(m))[i as int].0, obj),
        ),
        keys_distinct(object_entries(*final(m))),
{
    m[i] = obj;
}

/// Whether an object is placed in the viewbox of the given name.
pub open spec fn shown_in(o: SlideObj, name: Seq<char>) -> bool {
    o.viewbox matches Some(vb) && placed_in(vb, name)
}

/// One slide: its objects, in the order they were written, and whether
/// it creates missing edges itself.
pub struct Slide {
    pub objects: ObjectMap,
    pub create_edges: bool,
}

/// An object as it stands at the start of the next slide: on screen,
/// coming from where it went.
pub open spec fn settled(o: SlideObj) -> SlideObj {
    SlideObj {
        viewbox: o.viewbox,
        vb_from: o.viewbox,
        positions: ObjPositions {
            from_alignment: o.positions.to_alignment,
            to_alignment: o.positions.to_alignment,
            state: ObjState::OnScreen,
        },
    }
}

/// An entry as it stands at the start of the next slide.
pub open spec fn settled_entry(e: (Seq<char>, SlideObj)) -> (Seq<char>, SlideObj) {
    (e.0, settled(e.1))
}

/// The entries a slide leaves for the next one.
pub open spec fn next_entries(e: Seq<(Seq<char>, SlideObj)>) -> Seq<(Seq<char>, SlideObj)> {
    e.filter(|x: (Seq<char>, SlideObj)| entry_carried_over(x)).map_values(
        |x: (Seq<char>, SlideObj)| settled_entry(x),
    )
}

impl Default for Slide {
    fn default() -> (s: Self)
        ensures
            object_entries(s.objects) == Seq::<(Seq<char>, SlideObj)>::empty(),
            keys_distinct(object_entries(s.objects)),
            !s.create_edges,
    {
        Slide { objects: new_object_map(), create_edges: false }
    }
}

impl Slide {
    /// The entries of the slide's objects.
    pub open spec fn entries(&self) -> Seq<(Seq<char>, SlideObj)> {
        object_entries(self.objects)
    }

    /// Adds an object under its name, replacing an object of the same name
    /// in place; returns the replaced object.
    pub fn insert_object(&mut self, name: String, obj: SlideObj) -> (r: Option<SlideObj>)
        ensures
            final(self).create_edges == old(self).create_edges,
            has_key(old(self).entries(), name@) ==> exists|i: int|
                0 <= i < old(self).entries().len() && old(self).entries()[i].0 == name@
                    && final(self).entries() == old(self).entries().update(i, (name@, obj))
                    && r == Some(old(self).entries()[i].1),
            !has_key(old(self).entries(), name@) ==> final(self).entries() == old(
                self,
            ).entries().push((name@, obj)) && r is None,
            keys_distinct(final(self).entries()),
    {
        insert_object_entry(&mut self.objects, name, obj)
    }

    /// The object of the given name on this slide.
    pub fn object(&self, name: &str) -> (r: Option<&SlideObj>)
        ensures
            r matches Some(v) ==> exists|i: int|
                0 <= i < self.entries().len() && self.entries()[i].0 == name@
                    && self.entries()[i].1 == *v,
            r is None ==> !has_key(self.entries(), name@),
    {
        let r = object_named(&self.objects, name);
        proof {
            if r is Some {
                let i = choose|i: int|
                    0 <= i < object_entries(self.objects).len() && object_entries(self.objects)[i].0
                        == name@ && object_entries(self.objects)[i].1 == *r.unwrap();
                assert(0 <= i < self.entries().len() && self.entries()[i].0 == name@
                    && self.entries()[i].1 == *r.unwrap());
            }
        }
        r
    }

    /// A slide holding the objects of `other`, in order.
    pub fn with_objects_of(other: &Slide, create_edges: bool) -> (s: Slide)
        ensures
            s.entries() == other.entries(),
            s.create_edges == create_edges,
    {
        Slide { objects: clone_object_map(&other.objects), create_edges }
    }

    /// The object written last on the slide, if any.
    pub fn last_object(&self) -> (r: Option<&SlideObj>)
        ensures
            self.entries().len() == 0 ==> r is None,
            self.entries().len() > 0 ==> (r matches Some(o) && *o == self.entries().last().1),
    {
        let n = object_count(&self.objects);
        if n == 0 {
            None
        } else {
            match object_at(&self.objects, n - 1) {
                Some((_, o)) => Some(o),
                None => None,
            }
        }
    }

    /// Whether some object on the slide is placed in the named viewbox.
    pub fn uses_viewbox(&self, viewbox: &String) -> (r: bool)
        ensures
            r == exists|i: int|
                0 <= i < self.entries().len() && shown_in(#[trigger] self.entries()[i].1, viewbox@),
    {
        let n = object_count(&self.objects);
        let mut i: usize = 0;
        while i < n
            invariant
                n == self.entries().len(),
                i <= n,
                forall|j: int| 0 <= j < i ==> !shown_in(#[trigger] self.entries()[j].1, viewbox@),
            decreases n - i,
        {
            if let Some((_, obj)) = object_at(&self.objects, i) {
                let used = match &obj.viewbox {
                    Some(vb) => vb.eq(viewbox),
                    None => false,
                };
                if used {
                    assert(shown_in(self.entries()[i as int].1, viewbox@));
                    return true;
                }
            }
            i = i + 1;
        }
        false
    }

    /// Turns the slide into the starting point of the next one: leaving
    /// objects are dropped, and every other object is on screen where it
    /// ended up, coming from there.
    pub fn make_action(&mut self)
        ensures
            final(self).entries() == next_entries(old(self).entries()),
            final(self).create_edges == old(self).create_edges,
            keys_distinct(final(self).entries()),
    {
        let ghost kept = old(self).entries().filter(
            |x: (Seq<char>, SlideObj)| entry_carried_over(x),
        );
        retain_carried_over(&mut self.objects);
        let n = object_count(&self.objects);
        let mut i: usize = 0;
        while i < n
            invariant
                n == kept.len(),
                i <= n,
                self.create_edges == old(self).create_edges,
                self.entries().len() == n,
                keys_distinct(self.entries()),
                forall|j: int| 0 <= j < i ==> #[trigger] self.entries()[j] == settled_entry(kept[j]),
                forall|j: int| i <= j < n ==> #[trigger] self.entries()[j] == kept[j],
            decreases n - i,
        {
            if let Some((_, obj)) = object_at(&self.objects, i) {
                let settled_obj = SlideObj {
                    viewbox: clone_placement(&obj.viewbox),
                    vb_from: clone_placement(&obj.viewbox),
                    positions: ObjPositions {
                        from_alignment: obj.positions.to_alignment,
                        to_alignment: obj.positions.to_alignment,
                        state: ObjState::OnScreen,
                    },
                };
                set_object_at(&mut self.objects, i, settled_obj);
            }
            i = i + 1;
        }
        assert(self.entries() =~= next_entries(old(self).entries()));
    }
}

/// Every object a slide leaves for the next one is on screen, coming from
/// the placement and alignment it went to; there are never more of them
/// than the slide had.
pub proof fn lemma_next_entries_settled(e: Seq<(Seq<char>, SlideObj)>)
    ensures
        forall|i: int|
            0 <= i < next_entries(e).len() ==> {
                let o = #[trigger] next_entries(e)[i].1;
                &&& o.positions.state == ObjState::OnScreen
                &&& o.vb_from == o.viewbox
                &&& o.positions.from_alignment == o.positions.to_alignment
            },
        next_entries(e).len() <= e.len(),
{
    let kept = e.filter(|x: (Seq<char>, SlideObj)| entry_carried_over(x));
    kept.filter_lemma(|x: (Seq<char>, SlideObj)| entry_carried_over(x));
    e.lemma_filter_len(|x: (Seq<char>, SlideObj)| entry_carried_over(x));
}

/// Starting the next slide twice is the same as starting it once.
pub proof fn lemma_next_entries_idempotent(e: Seq<(Seq<char>, SlideObj)>)
    ensures
        next_entries(next_entries(e)) == next_entries(e),
{
    let n = next_entries(e);
    let kept = e.filter(|x: (Seq<char>, SlideObj)| entry_carried_over(x));
    assert forall|i: int| 0 <= i < n.len() implies entry_carried_over(#[trigger] n[i]) by {
        assert(n[i] == settled_entry(kept[i]));
    }
    lemma_filter_all(n);
    assert(n.filter(|x: (Seq<char>, SlideObj)| entry_carried_over(x)) == n);
    assert forall|i: int| 0 <= i < n.len() implies #[trigger] settled_entry(n[i]) == n[i] by {
        assert(n[i] == settled_entry(kept[i]));
    }
    assert(next_entries(n) =~= n);
}

/// Filtering entries that all stay keeps them all.
proof fn lemma_filter_all(s: Seq<(Seq<char>, SlideObj)>)
    requires
        forall|i: int| 0 <= i < s.len() ==> entry_carried_over(#[trigger] s[i]),
    ensures
        s.filter(|x: (Seq<char>, SlideObj)| entry_carried_over(x)) == s,
    decreases s.len(),
{
    reveal_with_fuel(Seq::filter, 1);
    if s.len() > 0 {
        lemma_filter_all(s.drop_last());
        assert(s.drop_last().push(s.last()) =~= s);
    } else {
        assert(s.filter(|x: (Seq<char>, SlideObj)| entry_carried_over(x)) =~= s);
    }
}

/// An object that was absent from the previous slide, or was leaving it,
/// enters; when its source gives no origin placement, it enters where it
/// is placed.
pub proof fn lemma_resolved_new_object_enters(o: SlideObj, other: Option<SlideObj>)
    requires
        predecessor(other) is None,
    ensures
        resolved(o, other).positions.state == ObjState::Entering,
        o.vb_from is None ==> resolved(o, other).vb_from == resolved(o, other).viewbox,
        o.viewbox is None ==> resolved(o, other).viewbox is None,
{
}

/// An object whose source gives its placement, its origin and both its
/// alignments, and that stays on from the previous slide, is kept as
/// written.
pub proof fn lemma_resolved_explicit(o: SlideObj, other: Option<SlideObj>)
    requires
        predecessor(other) is Some,
        o.viewbox is Some,
        o.vb_from is Some,
        o.positions.from_alignment is Some,
        o.positions.to_alignment is Some,
        o.positions.state != ObjState::Exiting,
    ensures
        resolved(o, other) == o,
{
}

/// Filling in an object a second time from the same previous slide
/// changes nothing, except for a leaving object whose source gives neither
/// alignment while the previous slide leaves it a target: the first time
/// it gets no target, the second time that target.
pub proof fn lemma_resolved_idempotent(o: SlideObj, other: Option<SlideObj>)
    requires
        !(predecessor(other) is Some && o.positions.state == ObjState::Exiting
            && o.positions.to_alignment is None && o.positions.from_alignment is None
            && previous_target(predecessor(other)) is Some),
    ensures
        resolved(resolved(o, other), other) == resolved(o, other),
{
}

/// The alignment an edge node gives, and whether it marks the object as
/// leaving; a node in error gives neither.
pub open spec fn edge_reading(n: EdgeNode) -> (Option<Align2>, bool) {
    reading_of(alignment_from_node(n))
}

/// The errors reading an edge node reports.
pub open spec fn edge_errors(n: EdgeNode) -> Seq<AlignmentError> {
    errors_of(alignment_from_node(n))
}

/// Positions after reading an edge `first second` (see `parse`).
pub open spec fn edge_positions(p: ObjPositions, first: Option<EdgeNode>, second: Option<EdgeNode>) -> ObjPositions {
    match (first, second) {
        (None, _) => p,
        (Some(f), None) => ObjPositions { to_alignment: edge_reading(f).0, ..p },
        (Some(f), Some(s)) => ObjPositions {
            from_alignment: edge_reading(f).0,
            to_alignment: edge_reading(s).0,
            ..p
        },
    }
}

/// Whether an edge `first second` marks the object as leaving.
pub open spec fn edge_exiting(first: Option<EdgeNode>, second: Option<EdgeNode>) -> bool {
    match (first, second) {
        (None, _) => false,
        (Some(f), None) => edge_reading(f).1,
        (Some(f), Some(s)) => edge_reading(f).1 || edge_reading(s).1,
    }
}

/// The errors reading an edge `first second` reports.
pub open spec fn edge_errors_of(first: Option<EdgeNode>, second: Option<EdgeNode>) -> Seq<AlignmentError> {
    match (first, second) {
        (None, _) => Seq::empty(),
        (Some(f), None) => edge_errors(f),
        (Some(f), Some(s)) => edge_errors(f) + edge_errors(s),
    }
}

impl ObjPositions {
    /// Reads the edge of an object: a single alignment is where it goes; two
    /// are where it comes from and where it goes. Returns whether either is
    /// the exit bar `|`. Errors go to `errors`.
    pub fn parse(
        &mut self,
        first: Option<EdgeNode>,
        second: Option<EdgeNode>,
        errors: &mut Vec<AlignmentError>,
    ) -> (exiting: bool)
        ensures
            *final(self) == edge_positions(*old(self), first, second),
            exiting == edge_exiting(first, second),
            final(errors)@ == old(errors)@ + edge_errors_of(first, second),
    {
        let mut exiting = false;
        if let Some(f) = first {
            let (first_alignment, obj_exiting) = parse_alignment(f, errors);
            self.to_alignment = first_alignment;
            if obj_exiting {
                exiting = obj_exiting;
            }
            if let Some(s) = second {
                self.from_alignment = first_alignment;
                let (second_alignment, obj_exiting) = parse_alignment(s, errors);
                self.to_alignment = second_alignment;
                if obj_exiting {
                    exiting = obj_exiting;
                }
                assert(errors@ =~= old(errors)@ + edge_errors_of(first, second));
            }
        } else {
            assert(errors@ =~= old(errors)@ + edge_errors_of(first, second));
        }
        exiting
    }

    /// The debug spelling of the positions: in quotes, the edge markers of
    /// where the object comes from, then `|` if it leaves, else those of
    /// where it goes.
    pub open spec fn debug_text(self) -> Seq<char> {
        let from = match self.from_alignment {
            Some(a) => anchor_text(a),
            None => Seq::empty(),
        };
        if self.state == ObjState::Exiting {
            seq!['"'] + from + seq!['|', '"']
        } else {
            let to = match self.to_alignment {
                Some(a) => anchor_text(a),
                None => Seq::empty(),
            };
            seq!['"'] + from + to + seq!['"']
        }
    }

    /// Writes the positions as a quoted edge: the origin anchor, then `|`
    /// for a leaving object or else the target anchor.
    pub fn debug_string(&self) -> (s: String)
        ensures
            s@ == self.debug_text(),
    {
        let mut s = String::from_str("\"");
        proof {
            reveal_strlit("\"");
        }
        if let Some(from) = self.from_alignment {
            s.append(anchor_label(from));
        }
        if self.state == ObjState::Exiting {
            s.append("|\"");
            proof {
                reveal_strlit("|\"");
            }
            assert(s@ =~= self.debug_text());
            return s;
        }
        if let Some(to) = self.to_alignment {
            s.append(anchor_label(to));
        }
        s.append("\"");
        assert(s@ =~= self.debug_text());
        s
    }
}

} // verus!
