use vstd::prelude::*;

use crate::placement::{find_viewbox, objects_reading, subbox_count, ObjectSyntax, PlacementError};
use crate::slide::{keys_distinct, next_entries, Slide, SlideObj};

verus! {

/// An item at the top level of a slideshow, as written.
#[derive(Debug)]
pub enum TopLevel {
    /// A slide: its objects.
    Slide(Vec<ObjectSyntax>),
    /// Actions: objects changed on top of the slide before, which make a
    /// slide of their own.
    Actions(Vec<ObjectSyntax>),
    /// A viewbox: its name and the number of its sub-boxes, laid out.
    Viewbox(String, usize),
    /// The register that decides whether slides create missing edges
    /// themselves, read.
    CreateEdges(bool),
    /// Object definitions and the other registers.
    Other,
    /// A node that is not a top-level item.
    Bad,
}

/// The entries of a slide and whether it creates missing edges itself.
pub type SlideView = (Seq<(Seq<char>, SlideObj)>, bool);

/// The views of slides.
pub open spec fn slide_views(v: Seq<Slide>) -> Seq<SlideView> {
    v.map_values(|s: Slide| (s.entries(), s.create_edges))
}

/// What reading a slideshow has gathered so far: its slides, the
/// viewboxes defined (by name, with the number of their sub-boxes),
/// whether slides create missing edges, and the errors.
pub struct ShowState {
    pub slides: Seq<SlideView>,
    pub viewboxes: Seq<(String, usize)>,
    pub create_edges: bool,
    pub errors: Seq<PlacementError>,
}

/// The entries of the slide before the next one: none for the first.
pub open spec fn last_entries(slides: Seq<SlideView>) -> Seq<(Seq<char>, SlideObj)> {
    if slides.len() == 0 {
        Seq::empty()
    } else {
        slides.last().0
    }
}

/// Reading one top-level item. A slide reads its objects against the
/// slide before; actions read theirs on top of the objects of the slide
/// before, and then leave only what stays, on screen; a viewbox is known
/// from there on (the first definition of a name counts); the register
/// sets whether later slides create missing edges.
pub open spec fn show_step(st: ShowState, item: TopLevel) -> ShowState {
    match item {
        TopLevel::Slide(objs) => {
            let r = objects_reading(
                Seq::empty(),
                objs@,
                st.viewboxes,
                last_entries(st.slides),
                st.create_edges,
            );
            ShowState {
                slides: st.slides.push((r.0, st.create_edges)),
                errors: st.errors + r.1,
                ..st
            }
        },
        TopLevel::Actions(objs) => {
            let last = last_entries(st.slides);
            let r = objects_reading(last, objs@, st.viewboxes, last, st.create_edges);
            ShowState {
                slides: st.slides.push((next_entries(r.0), st.create_edges)),
                errors: st.errors + r.1,
                ..st
            }
        },
        TopLevel::Viewbox(name, count) => if subbox_count(st.viewboxes, name@) is Some {
            st
        } else {
            ShowState { viewboxes: st.viewboxes.push((name, count)), ..st }
        },
        TopLevel::CreateEdges(b) => ShowState { create_edges: b, ..st },
        TopLevel::Other => st,
        TopLevel::Bad => ShowState { errors: st.errors.push(PlacementError::NotTopLevel), ..st },
    }
}

/// Reading the first `n` top-level items.
pub open spec fn show_reading(items: Seq<TopLevel>, n: nat) -> ShowState
    decreases n,
{
    if n == 0 {
        ShowState { slides: Seq::empty(), viewboxes: Seq::empty(), create_edges: false, errors: Seq::empty() }
    } else {
        show_step(show_reading(items, (n - 1) as nat), items[n - 1])
    }
}

/// Reads the slides of a slideshow from its top-level items, in order (see
/// `show_step`); errors go to `errors`.
pub fn parse_slides(items: &Vec<TopLevel>, errors: &mut Vec<PlacementError>) -> (slides: Vec<Slide>)
    ensures
        slide_views(slides@) == show_reading(items@, items@.len()).slides,
        final(errors)@ == old(errors)@ + show_reading(items@, items@.len()).errors,
{
    let mut slides: Vec<Slide> = Vec::new();
    let mut viewboxes: Vec<(String, usize)> = Vec::new();
    let mut create_edges = false;
    let empty = Slide::default();
    let ghost e0 = errors@;
    let mut i: usize = 0;
    assert(slide_views(slides@) =~= Seq::<SlideView>::empty());
    assert(errors@ =~= e0 + Seq::<PlacementError>::empty());
    while i < items.len()
        invariant
            i <= items@.len(),
            e0 == old(errors)@,
            keys_distinct(empty.entries()),
            empty.entries() == Seq::<(Seq<char>, SlideObj)>::empty(),
            forall|k: int| 0 <= k < slides@.len() ==> keys_distinct(#[trigger] slides@[k].entries()),
            ({
                let st = show_reading(items@, i as nat);
                &&& slide_views(slides@) == st.slides
                &&& viewboxes@ == st.viewboxes
                &&& create_edges == st.create_edges
                &&& errors@ == e0 + st.errors
            }),
        decreases items@.len() - i,
    {
        let ghost st = show_reading(items@, i as nat);
        let ghost before = slides@;
        assert(last_entries(st.slides) == if slides@.len() == 0 {
            empty.entries()
        } else {
            slides@.last().entries()
        });
        match &items[i] {
            TopLevel::Slide(objs) => {
                let slide = {
                    let last: &Slide = if slides.len() > 0 {
                        &slides[slides.len() - 1]
                    } else {
                        &empty
                    };
                    let mut s = Slide::default();
                    s.create_edges = create_edges;
                    s.parse_objects(objs, &viewboxes, last, errors);
                    s
                };
                slides.push(slide);
                assert(slide_views(slides@) =~= slide_views(before).push(
                    (slide.entries(), slide.create_edges),
                ));
                assert(errors@ =~= e0 + show_reading(items@, (i + 1) as nat).errors);
            },
            TopLevel::Actions(objs) => {
                let slide = {
                    let last: &Slide = if slides.len() > 0 {
                        &slides[slides.len() - 1]
                    } else {
                        &empty
                    };
                    let mut s = Slide::with_objects_of(last, create_edges);
                    s.parse_objects(objs, &viewboxes, last, errors);
                    s.make_action();
                    s
                };
                slides.push(slide);
                assert(slide_views(slides@) =~= slide_views(before).push(
                    (slide.entries(), slide.create_edges),
                ));
                assert(errors@ =~= e0 + show_reading(items@, (i + 1) as nat).errors);
            },
            TopLevel::Viewbox(name, count) => {
                if find_viewbox(&viewboxes, name).is_none() {
                    viewboxes.push((name.clone(), *count));
                }
            },
            TopLevel::CreateEdges(b) => {
                create_edges = *b;
            },
            TopLevel::Other => {},
            TopLevel::Bad => {
                errors.push(PlacementError::NotTopLevel);
                assert(errors@ =~= e0 + show_reading(items@, (i + 1) as nat).errors);
            },
        }
        i = i + 1;
    }
    slides
}

} // verus!
