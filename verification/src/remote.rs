//! The presenter remote: what the viewer answers to each message of a
//! remote control, and where it moves the slide shown.

use vstd::prelude::*;

use crate::strings::{parse_unsigned, parse_usize, str_eq};

verus! {

/// A message of a remote control, as the viewer reads it.
#[derive(Debug)]
pub enum RemoteRequest {
    /// Log in with a password, speaking a version of the protocol.
    Authenticate { password: String, protocol: i32 },
    /// Ask for the presentations the viewer offers.
    LibraryRequest,
    /// Ask for the playlists.
    PlaylistRequestAll,
    /// Ask for a presentation, shown on a destination (`0` is the main
    /// screen).
    Presentation { destination: i32, path: String },
    /// Ask which slide is shown.
    SlideIndex { destination: i32 },
    /// Go to the next slide.
    TriggerNext { destination: i32 },
    /// Go to the previous slide.
    TriggerPrevious { destination: i32 },
    /// Go to the slide with the given index, written in decimal.
    TriggerIndex { destination: i32, slide_index: String },
    Ping,
    ClearText,
}

/// The answer to a message: `own` is whether it is about the slideshow
/// (otherwise it is about the announcements, whose one slide is `0`).
#[derive(Debug, Clone, Copy, PartialEq, Eq, Structural)]
pub enum RemoteReply {
    Authenticate { accepted: bool },
    Library,
    Playlist,
    Presentation { own: bool },
    SlideIndex { own: bool, index: usize },
    TriggerIndex { own: bool, index: usize },
    Ping,
    ClearText,
}

/// What the viewer does with a message: its answer, and, where it moves to
/// a slide, that slide and whether the move goes forward (the viewer then
/// drops the slide it shows; a step forward also restarts its clock).
#[derive(Debug, Clone, Copy, PartialEq, Eq, Structural)]
pub struct RemoteStep {
    pub reply: RemoteReply,
    pub moved_to: Option<SlideMove>,
}

/// A move to a slide.
#[derive(Debug, Clone, Copy, PartialEq, Eq, Structural)]
pub struct SlideMove {
    pub to: usize,
    pub forward: bool,
}

/// The path of the announcements presentation.
pub open spec fn announcements_path() -> Seq<char> {
    "/Announcements.grz"@
}

/// The version of the protocol the viewer speaks.
pub open spec fn remote_protocol() -> i32 {
    701
}

/// Going back from slide `i`: slides that follow on from the one before
/// them (whose flag in `follows` is set) are passed over.
pub open spec fn skip_back(follows: Seq<bool>, i: int) -> int
    decreases i,
{
    if 0 < i < follows.len() && follows[i] {
        skip_back(follows, i - 1)
    } else {
        i
    }
}

/// Whether going back from slide `i` stops before running past the first
/// slide.
pub open spec fn skip_back_stops(follows: Seq<bool>, i: int) -> bool
    decreases i,
{
    if 0 <= i < follows.len() && follows[i] {
        i > 0 && skip_back_stops(follows, i - 1)
    } else {
        true
    }
}

/// Whether the viewer can act on a message at slide `index`: a step
/// forward does not run past the largest index, a step back stops before
/// the first slide, and an index to go to is a number.
pub open spec fn remote_request_ok(request: RemoteRequest, index: usize, follows: Seq<bool>) -> bool {
    match request {
        RemoteRequest::TriggerNext { destination } => destination == 0 ==> index < usize::MAX,
        RemoteRequest::TriggerPrevious { destination } => destination == 0 && index != 0 ==> skip_back_stops(
            follows,
            index - 1,
        ),
        RemoteRequest::TriggerIndex { destination, slide_index } => destination == 0 ==> parse_unsigned(
            slide_index@,
        ) is Some,
        _ => true,
    }
}

/// An answer that leaves the slide where it is.
pub open spec fn stays(reply: RemoteReply) -> RemoteStep {
    RemoteStep { reply, moved_to: None }
}

/// The viewer's step on a message at slide `index`, with the password it
/// was started with and, for each slide, whether it follows on from the
/// one before it.
pub open spec fn remote_step(request: RemoteRequest, index: usize, password: Seq<char>, follows: Seq<bool>) -> RemoteStep {
    match request {
        RemoteRequest::Authenticate { password: p, protocol } => stays(
            RemoteReply::Authenticate { accepted: p@ == password && protocol == remote_protocol() },
        ),
        RemoteRequest::LibraryRequest => stays(RemoteReply::Library),
        RemoteRequest::PlaylistRequestAll => stays(RemoteReply::Playlist),
        RemoteRequest::Presentation { destination, path } => stays(
            RemoteReply::Presentation { own: destination == 0 && path@ != announcements_path() },
        ),
        RemoteRequest::SlideIndex { destination } => if destination == 0 {
            stays(RemoteReply::SlideIndex { own: true, index })
        } else {
            stays(RemoteReply::SlideIndex { own: false, index: 0 })
        },
        RemoteRequest::TriggerNext { destination } => if destination == 0 {
            let to = (index + 1) as usize;
            RemoteStep { reply: RemoteReply::TriggerIndex { own: true, index: to }, moved_to: Some(SlideMove { to, forward: true }) }
        } else {
            stays(RemoteReply::TriggerIndex { own: false, index: 0 })
        },
        RemoteRequest::TriggerPrevious { destination } => if destination != 0 {
            stays(RemoteReply::TriggerIndex { own: false, index: 0 })
        } else if index == 0 {
            stays(RemoteReply::TriggerIndex { own: true, index: 0 })
        } else {
            let to = skip_back(follows, index - 1) as usize;
            RemoteStep { reply: RemoteReply::TriggerIndex { own: true, index: to }, moved_to: Some(SlideMove { to, forward: false }) }
        },
        RemoteRequest::TriggerIndex { destination, slide_index } => if destination == 0 {
            let to = parse_unsigned(slide_index@)->0;
            RemoteStep { reply: RemoteReply::TriggerIndex { own: true, index: to }, moved_to: Some(SlideMove { to, forward: false }) }
        } else {
            stays(RemoteReply::TriggerIndex { own: false, index: 0 })
        },
        RemoteRequest::Ping => stays(RemoteReply::Ping),
        RemoteRequest::ClearText => stays(RemoteReply::ClearText),
    }
}

/// Going back from slide `i` lands at or before it, on the first slide or
/// on one that does not follow on from the one before it.
pub proof fn lemma_skip_back_lands(follows: Seq<bool>, i: int)
    requires
        0 <= i,
    ensures
        0 <= skip_back(follows, i) <= i,
        skip_back(follows, i) == 0 || skip_back(follows, i) >= follows.len() || !follows[skip_back(follows, i)],
    decreases i,
{
    if 0 < i < follows.len() && follows[i] {
        lemma_skip_back_lands(follows, i - 1);
    }
}

/// Goes back from slide `i` over the slides that follow on from the one
/// before them.
fn go_back(follows: &Vec<bool>, i: usize) -> (r: usize)
    requires
        skip_back_stops(follows@, i as int),
    ensures
        r == skip_back(follows@, i as int),
{
    let mut j = i;
    while j < follows.len() && follows[j]
        invariant
            skip_back_stops(follows@, j as int),
            skip_back(follows@, i as int) == skip_back(follows@, j as int),
        decreases j,
    {
        j = j - 1;
    }
    j
}

/// Decides the viewer's step on a remote's message (see `remote_step`).
pub fn remote_control(request: &RemoteRequest, index: usize, password: &str, follows: &Vec<bool>) -> (s: RemoteStep)
    requires
        remote_request_ok(*request, index, follows@),
    ensures
        s == remote_step(*request, index, password@, follows@),
{
    match request {
        RemoteRequest::Authenticate { password: p, protocol } => {
            let accepted = str_eq(p.as_str(), password) && *protocol == 701;
            RemoteStep { reply: RemoteReply::Authenticate { accepted }, moved_to: None }
        },
        RemoteRequest::LibraryRequest => RemoteStep { reply: RemoteReply::Library, moved_to: None },
        RemoteRequest::PlaylistRequestAll => RemoteStep { reply: RemoteReply::Playlist, moved_to: None },
        RemoteRequest::Presentation { destination, path } => {
            let own = *destination == 0 && !str_eq(path.as_str(), "/Announcements.grz");
            RemoteStep { reply: RemoteReply::Presentation { own }, moved_to: None }
        },
        RemoteRequest::SlideIndex { destination } => {
            if *destination == 0 {
                RemoteStep { reply: RemoteReply::SlideIndex { own: true, index }, moved_to: None }
            } else {
                RemoteStep { reply: RemoteReply::SlideIndex { own: false, index: 0 }, moved_to: None }
            }
        },
        RemoteRequest::TriggerNext { destination } => {
            if *destination == 0 {
                let to = index + 1;
                RemoteStep { reply: RemoteReply::TriggerIndex { own: true, index: to }, moved_to: Some(SlideMove { to, forward: true }) }
            } else {
                RemoteStep { reply: RemoteReply::TriggerIndex { own: false, index: 0 }, moved_to: None }
            }
        },
        RemoteRequest::TriggerPrevious { destination } => {
            if *destination != 0 {
                RemoteStep { reply: RemoteReply::TriggerIndex { own: false, index: 0 }, moved_to: None }
            } else if index == 0 {
                RemoteStep { reply: RemoteReply::TriggerIndex { own: true, index: 0 }, moved_to: None }
            } else {
                let to = go_back(follows, index - 1);
                RemoteStep { reply: RemoteReply::TriggerIndex { own: true, index: to }, moved_to: Some(SlideMove { to, forward: false }) }
            }
        },
        RemoteRequest::TriggerIndex { destination, slide_index } => {
            if *destination == 0 {
                let to = match parse_usize(slide_index.as_str()) {
                    Some(n) => n,
                    None => {
                        assert(false);
                        0
                    },
                };
                RemoteStep { reply: RemoteReply::TriggerIndex { own: true, index: to }, moved_to: Some(SlideMove { to, forward: false }) }
            } else {
                RemoteStep { reply: RemoteReply::TriggerIndex { own: false, index: 0 }, moved_to: None }
            }
        },
        RemoteRequest::Ping => RemoteStep { reply: RemoteReply::Ping, moved_to: None },
        RemoteRequest::ClearText => RemoteStep { reply: RemoteReply::ClearText, moved_to: None },
    }
}

} // verus!
