use grezi::navigation::{
    after_reload, after_resolve, input_action, navigate, remote_response, FileOwnerMessage,
    InputAction, InputEvent, Key, Navigation, RemoteMessage, ResolveStep,
};
use grezi::resolved_text::ResolvedTextTag;

fn show(index: usize, reset_time: bool) -> Navigation {
    Navigation::Show { index, reset_time }
}

#[test]
fn next_and_previous() {
    assert_eq!(navigate(2, FileOwnerMessage::Next(false), 5), show(3, true));
    assert_eq!(navigate(4, FileOwnerMessage::Next(false), 5), show(5, true));
    assert_eq!(navigate(4, FileOwnerMessage::Next(true), 5), show(0, true));
    assert_eq!(navigate(2, FileOwnerMessage::Next(true), 5), show(3, true));
    assert_eq!(navigate(2, FileOwnerMessage::Previous, 5), show(1, false));
    assert_eq!(navigate(0, FileOwnerMessage::Previous, 5), show(0, false));
}

#[test]
fn jumps_and_reloads() {
    assert_eq!(
        navigate(3, FileOwnerMessage::Index { index: 7, reset_time: false }, 5),
        show(7, false)
    );
    assert_eq!(navigate(3, FileOwnerMessage::ResetFile, 5), Navigation::Reload);
    assert_eq!(after_reload(3, false), Some(show(3, true)));
    assert_eq!(after_reload(3, true), None);
}

#[test]
fn resolving_falls_back() {
    assert_eq!(after_resolve(4, true), ResolveStep::Done);
    assert_eq!(after_resolve(4, false), ResolveStep::Retry(3));
    assert_eq!(after_resolve(2, false), ResolveStep::Retry(1));
    assert_eq!(after_resolve(1, false), ResolveStep::GiveUp);
    assert_eq!(after_resolve(0, false), ResolveStep::GiveUp);
}

#[test]
fn automatic_advance_stays_within_slides() {
    for count in 1..6usize {
        for current in 0..8usize {
            match navigate(current, FileOwnerMessage::Next(true), count) {
                Navigation::Show { index, .. } => assert!(index < count),
                Navigation::Reload => panic!("advancing never reloads"),
            }
        }
    }
}

fn key(key: Key, pressed: bool, no_modifiers: bool) -> InputEvent {
    InputEvent::Key { key, pressed, no_modifiers }
}

#[test]
fn keys_and_clicks() {
    let next = InputAction::Send(FileOwnerMessage::Next(false));
    assert_eq!(
        input_action(InputEvent::PointerButton { pressed: true, no_modifiers: true }),
        next
    );
    assert_eq!(
        input_action(InputEvent::PointerButton { pressed: true, no_modifiers: false }),
        InputAction::MarkPointer
    );
    assert_eq!(
        input_action(InputEvent::PointerButton { pressed: false, no_modifiers: true }),
        InputAction::Nothing
    );
    assert_eq!(input_action(key(Key::ArrowRight, true, true)), next);
    assert_eq!(input_action(key(Key::Space, true, false)), next);
    assert_eq!(input_action(key(Key::Space, false, true)), InputAction::Nothing);
    assert_eq!(
        input_action(key(Key::ArrowLeft, true, true)),
        InputAction::Send(FileOwnerMessage::Previous)
    );
    assert_eq!(
        input_action(key(Key::B, true, true)),
        InputAction::Send(FileOwnerMessage::Index { index: 0, reset_time: false })
    );
    assert_eq!(input_action(key(Key::C, true, true)), InputAction::SetClip(true));
    assert_eq!(input_action(key(Key::C, false, true)), InputAction::SetClip(false));
    assert_eq!(input_action(key(Key::N, true, true)), InputAction::ClearSlide);
    assert_eq!(input_action(key(Key::R, true, true)), InputAction::RestartClock);
    assert_eq!(
        input_action(key(Key::R, true, false)),
        InputAction::Send(FileOwnerMessage::ResetFile)
    );
    assert_eq!(input_action(key(Key::Other, true, true)), InputAction::Nothing);
    assert_eq!(input_action(InputEvent::Other), InputAction::Nothing);
}

#[test]
fn tag_offsets() {
    assert_eq!(ResolvedTextTag::Paragraph(2).offset(3), ResolvedTextTag::Paragraph(5));
    assert_eq!(ResolvedTextTag::Untagged(0).offset(4), ResolvedTextTag::Untagged(4));
    assert_eq!(ResolvedTextTag::Heading(2, 1).offset(1), ResolvedTextTag::Heading(2, 2));
    assert_eq!(ResolvedTextTag::Label(7).offset(0), ResolvedTextTag::Label(7));
    assert_eq!(ResolvedTextTag::Code(3).offset(5), ResolvedTextTag::Code(3));
    assert_eq!(ResolvedTextTag::ListStart.offset(5), ResolvedTextTag::ListStart);
    let t = ResolvedTextTag::Paragraph(1);
    assert_eq!(t.offset(2).offset(3), t.offset(5));
}

#[test]
fn remote_jump_sets_index_and_presses_keys() {
    let r = remote_response(RemoteMessage::Index { index: 4, reset_time: true });
    assert_eq!(r.set_index, Some(4));
    assert_eq!(r.keys, vec![Key::N, Key::R]);
    assert!(r.repaint);
    assert!(!r.send_file);
    let r = remote_response(RemoteMessage::Index { index: 0, reset_time: false });
    assert_eq!(r.set_index, Some(0));
    assert_eq!(r.keys, vec![Key::N]);
    for key in r.keys {
        assert_eq!(
            input_action(InputEvent::Key { key, pressed: true, no_modifiers: true }),
            InputAction::ClearSlide
        );
    }
}

#[test]
fn remote_get_sends_the_file() {
    let r = remote_response(RemoteMessage::Get);
    assert_eq!(r.set_index, None);
    assert!(r.keys.is_empty());
    assert!(!r.repaint);
    assert!(r.send_file);
}
