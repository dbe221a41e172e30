use vstd::prelude::*;

verus! {

/// A request to the owner of the open file about which slide to show.
#[derive(Debug, Clone, Copy, PartialEq, Eq, Structural)]
pub enum FileOwnerMessage {
    /// Go to a slide; `reset_time` restarts its animation clock.
    Index { index: usize, reset_time: bool },
    /// Reload the file from disk.
    ResetFile,
    /// Go to the next slide; `true` when the slide itself asked for it (an
    /// automatic advance), which wraps around after the last slide.
    Next(bool),
    /// Go to the previous slide.
    Previous,
}

/// What the owner does with a message.
#[derive(Debug, Clone, Copy, PartialEq, Eq, Structural)]
pub enum Navigation {
    /// Resolve and show the slide at `index`; restart its clock if asked.
    Show { index: usize, reset_time: bool },
    /// Reload the file first, then report how that went (see `after_reload`).
    Reload,
}

/// The owner's answer to a message, given the slide shown and the number
/// of slides.
pub open spec fn navigation_for(current: usize, message: FileOwnerMessage, slide_count: usize) -> Navigation {
    match message {
        FileOwnerMessage::Index { index, reset_time } => Navigation::Show { index, reset_time },
        FileOwnerMessage::Next(automatic) => Navigation::Show {
            index: if automatic && slide_count <= current + 1 { 0 } else { (current + 1) as usize },
            reset_time: true,
        },
        FileOwnerMessage::Previous => Navigation::Show {
            index: if current == 0 { 0 } else { (current - 1) as usize },
            reset_time: false,
        },
        FileOwnerMessage::ResetFile => Navigation::Reload,
    }
}

/// Decides what the owner of the open file does with a message: which
/// slide to show next and whether its clock restarts, or to reload.
pub fn navigate(current: usize, message: FileOwnerMessage, slide_count: usize) -> (n: Navigation)
    requires
        message matches FileOwnerMessage::Next(_) ==> current < usize::MAX,
    ensures
        n == navigation_for(current, message, slide_count),
{
    match message {
        FileOwnerMessage::Index { index, reset_time } => Navigation::Show { index, reset_time },
        FileOwnerMessage::Next(trigger_was_action) => {
            let mut index = current + 1;
            if trigger_was_action && slide_count <= index {
                index = 0;
            }
            Navigation::Show { index, reset_time: true }
        },
        FileOwnerMessage::Previous => Navigation::Show {
            index: current.saturating_sub(1),
            reset_time: false,
        },
        FileOwnerMessage::ResetFile => Navigation::Reload,
    }
}

/// After a reload: a file with errors shows nothing new; otherwise the
/// same slide is shown again with its clock restarted.
pub fn after_reload(current: usize, had_errors: bool) -> (n: Option<Navigation>)
    ensures
        had_errors ==> n is None,
        !had_errors ==> n == Some(Navigation::Show { index: current, reset_time: true }),
{
    if had_errors {
        None
    } else {
        Some(Navigation::Show { index: current, reset_time: true })
    }
}

/// What to do after trying to resolve the slide at an index.
#[derive(Debug, Clone, Copy, PartialEq, Eq, Structural)]
pub enum ResolveStep {
    /// The slide resolved; show it.
    Done,
    /// It did not; try the slide at this (earlier) index.
    Retry(usize),
    /// It did not, and the index fell back to the first slide: show nothing.
    GiveUp,
}

/// The owner falls back one slide at a time when a slide does not resolve,
/// and gives up once it has fallen back to the first slide.
pub fn after_resolve(index: usize, resolved: bool) -> (s: ResolveStep)
    ensures
        resolved ==> s == ResolveStep::Done,
        !resolved && index <= 1 ==> s == ResolveStep::GiveUp,
        !resolved && index > 1 ==> s == ResolveStep::Retry((index - 1) as usize),
{
    if resolved {
        ResolveStep::Done
    } else {
        let index = index.saturating_sub(1);
        if index == 0 {
            ResolveStep::GiveUp
        } else {
            ResolveStep::Retry(index)
        }
    }
}

/// Going back never leaves the slides and never moves forward; going
/// forward by an automatic advance never runs past the last slide.
pub proof fn lemma_navigation_bounds(current: usize, slide_count: usize)
    requires
        current < usize::MAX,
    ensures
        navigation_for(current, FileOwnerMessage::Previous, slide_count) matches Navigation::Show {
            index,
            ..
        } && index <= current && (current > 0 ==> index == current - 1),
        slide_count > 0 ==> (navigation_for(
            current,
            FileOwnerMessage::Next(true),
            slide_count,
        ) matches Navigation::Show { index, .. } && index < slide_count),
{
}

/// A key of the presentation window that the viewer reacts to.
#[derive(Debug, Clone, Copy, PartialEq, Eq, Structural)]
pub enum Key {
    ArrowRight,
    ArrowLeft,
    Space,
    B,
    C,
    N,
    R,
    Other,
}

/// An input event of the presentation window, as the viewer reads it.
#[derive(Debug, Clone, Copy, PartialEq, Eq, Structural)]
pub enum InputEvent {
    PointerButton { pressed: bool, no_modifiers: bool },
    Key { key: Key, pressed: bool, no_modifiers: bool },
    Other,
}

/// What the viewer does with an input event.
#[derive(Debug, Clone, Copy, PartialEq, Eq, Structural)]
pub enum InputAction {
    /// Send a message to the owner of the file.
    Send(FileOwnerMessage),
    /// Record or complete a rectangle drawn with the pointer.
    MarkPointer,
    /// Turn clipping to the slide on or off.
    SetClip(bool),
    /// Drop the resolved slide.
    ClearSlide,
    /// Restart the clock of the slide.
    RestartClock,
    Nothing,
}

/// The viewer's reaction to an input event: a plain click, the right
/// arrow or space advance; a click with modifiers marks a rectangle; the
/// left arrow goes back; `B` goes to the first slide; `C` clips while held;
/// `N` drops the slide; `R` restarts the clock, or with modifiers reloads
/// the file.
pub open spec fn action_for(event: InputEvent) -> InputAction {
    match event {
        InputEvent::PointerButton { pressed, no_modifiers } => if pressed && no_modifiers {
            InputAction::Send(FileOwnerMessage::Next(false))
        } else if pressed {
            InputAction::MarkPointer
        } else {
            InputAction::Nothing
        },
        InputEvent::Key { key, pressed, no_modifiers } => match key {
            Key::ArrowRight | Key::Space => if pressed {
                InputAction::Send(FileOwnerMessage::Next(false))
            } else {
                InputAction::Nothing
            },
            Key::ArrowLeft => if pressed {
                InputAction::Send(FileOwnerMessage::Previous)
            } else {
                InputAction::Nothing
            },
            Key::B => if pressed {
                InputAction::Send(FileOwnerMessage::Index { index: 0, reset_time: false })
            } else {
                InputAction::Nothing
            },
            Key::C => InputAction::SetClip(pressed),
            Key::N => if pressed {
                InputAction::ClearSlide
            } else {
                InputAction::Nothing
            },
            Key::R => if pressed && no_modifiers {
                InputAction::RestartClock
            } else if pressed {
                InputAction::Send(FileOwnerMessage::ResetFile)
            } else {
                InputAction::Nothing
            },
            Key::Other => InputAction::Nothing,
        },
        InputEvent::Other => InputAction::Nothing,
    }
}

/// Decides the viewer's reaction to an input event.
pub fn input_action(event: InputEvent) -> (a: InputAction)
    ensures
        a == action_for(event),
{
    match event {
        InputEvent::PointerButton { pressed: true, no_modifiers: true } => InputAction::Send(
            FileOwnerMessage::Next(false),
        ),
        InputEvent::PointerButton { pressed: true, .. } => InputAction::MarkPointer,
        InputEvent::Key { key: Key::ArrowRight, pressed: true, .. }
        | InputEvent::Key { key: Key::Space, pressed: true, .. } => InputAction::Send(
            FileOwnerMessage::Next(false),
        ),
        InputEvent::Key { key: Key::ArrowLeft, pressed: true, .. } => InputAction::Send(
            FileOwnerMessage::Previous,
        ),
        InputEvent::Key { key: Key::B, pressed: true, .. } => InputAction::Send(
            FileOwnerMessage::Index { index: 0, reset_time: false },
        ),
        InputEvent::Key { key: Key::C, pressed, .. } => InputAction::SetClip(pressed),
        InputEvent::Key { key: Key::N, pressed: true, .. } => InputAction::ClearSlide,
        InputEvent::Key { key: Key::R, pressed: true, no_modifiers: true } => InputAction::RestartClock,
        InputEvent::Key { key: Key::R, pressed: true, .. } => InputAction::Send(
            FileOwnerMessage::ResetFile,
        ),
        _ => InputAction::Nothing,
    }
}

/// A message from a remote control of the viewer.
#[derive(Debug, Clone, Copy, PartialEq, Eq, Structural)]
pub enum RemoteMessage {
    /// Show the slide at `index`; `reset_time` restarts its clock.
    Index { index: usize, reset_time: bool },
    /// Ask for the slideshow file.
    Get,
}

/// What the viewer does with a remote's message: the slide index it sets,
/// the keys it then presses in its own window, whether it repaints, and
/// whether it sends the cached slideshow file back.
pub struct RemoteResponse {
    pub set_index: Option<usize>,
    pub keys: Vec<Key>,
    pub repaint: bool,
    pub send_file: bool,
}

/// The keys pressed on a jump: `N` drops the resolved slide, and `R`
/// restarts the clock where the remote asked for it.
pub open spec fn jump_keys(reset_time: bool) -> Seq<Key> {
    if reset_time {
        seq![Key::N, Key::R]
    } else {
        seq![Key::N]
    }
}

/// Decides the viewer's answer to a remote's message: a jump sets the
/// index, presses the keys of `jump_keys` and repaints; a request for the
/// file sends it.
pub fn remote_response(message: RemoteMessage) -> (r: RemoteResponse)
    ensures
        match message {
            RemoteMessage::Index { index, reset_time } => {
                &&& r.set_index == Some(index)
                &&& r.keys@ == jump_keys(reset_time)
                &&& r.repaint
                &&& !r.send_file
            },
            RemoteMessage::Get => r.set_index is None && r.keys@.len() == 0 && !r.repaint
                && r.send_file,
        },
{
    match message {
        RemoteMessage::Index { index, reset_time } => {
            let mut keys = Vec::new();
            keys.push(Key::N);
            if reset_time {
                keys.push(Key::R);
            }
            assert(keys@ =~= jump_keys(reset_time));
            RemoteResponse { set_index: Some(index), keys, repaint: true, send_file: false }
        },
        RemoteMessage::Get => RemoteResponse {
            set_index: None,
            keys: Vec::new(),
            repaint: false,
            send_file: true,
        },
    }
}

/// A remote's jump drops the slide shown, and restarts the clock exactly
/// when the remote asked for it: the keys it presses are, to the viewer, a
/// request to drop the slide, followed by a clock restart if and only if
/// `reset_time` holds.
pub proof fn lemma_remote_jump_restarts_clock(reset_time: bool)
    ensures
        action_for(
            InputEvent::Key { key: jump_keys(reset_time)[0], pressed: true, no_modifiers: true },
        ) == InputAction::ClearSlide,
        (jump_keys(reset_time).len() == 2) == reset_time,
        reset_time ==> action_for(
            InputEvent::Key { key: jump_keys(reset_time)[1], pressed: true, no_modifiers: true },
        ) == InputAction::RestartClock,
{
}

} // verus!
