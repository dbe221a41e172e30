use grezi::remote::{remote_control, RemoteReply, RemoteRequest, SlideMove};

fn step(request: RemoteRequest, index: usize, follows: &[bool]) -> (RemoteReply, Option<SlideMove>) {
    let s = remote_control(&request, index, "secret", &follows.to_vec());
    (s.reply, s.moved_to)
}

#[test]
fn authentication_needs_the_password_and_the_protocol() {
    let ok = RemoteRequest::Authenticate { password: "secret".into(), protocol: 701 };
    assert_eq!(step(ok, 0, &[]).0, RemoteReply::Authenticate { accepted: true });
    let wrong = RemoteRequest::Authenticate { password: "guess".into(), protocol: 701 };
    assert_eq!(step(wrong, 0, &[]).0, RemoteReply::Authenticate { accepted: false });
    let old = RemoteRequest::Authenticate { password: "secret".into(), protocol: 600 };
    assert_eq!(step(old, 0, &[]).0, RemoteReply::Authenticate { accepted: false });
}

#[test]
fn next_moves_forward_on_the_main_screen_only() {
    assert_eq!(
        step(RemoteRequest::TriggerNext { destination: 0 }, 4, &[]),
        (RemoteReply::TriggerIndex { own: true, index: 5 }, Some(SlideMove { to: 5, forward: true }))
    );
    assert_eq!(
        step(RemoteRequest::TriggerNext { destination: 1 }, 4, &[]),
        (RemoteReply::TriggerIndex { own: false, index: 0 }, None)
    );
}

#[test]
fn previous_passes_over_slides_that_follow_on() {
    let follows = [false, false, true, true, false];
    assert_eq!(
        step(RemoteRequest::TriggerPrevious { destination: 0 }, 4, &follows),
        (RemoteReply::TriggerIndex { own: true, index: 1 }, Some(SlideMove { to: 1, forward: false }))
    );
    assert_eq!(
        step(RemoteRequest::TriggerPrevious { destination: 0 }, 0, &follows),
        (RemoteReply::TriggerIndex { own: true, index: 0 }, None)
    );
    assert_eq!(
        step(RemoteRequest::TriggerPrevious { destination: 0 }, 9, &follows),
        (RemoteReply::TriggerIndex { own: true, index: 8 }, Some(SlideMove { to: 8, forward: false }))
    );
}

#[test]
fn index_requests_and_presentations() {
    assert_eq!(
        step(RemoteRequest::TriggerIndex { destination: 0, slide_index: "12".into() }, 3, &[]),
        (RemoteReply::TriggerIndex { own: true, index: 12 }, Some(SlideMove { to: 12, forward: false }))
    );
    assert_eq!(step(RemoteRequest::SlideIndex { destination: 0 }, 3, &[]).0, RemoteReply::SlideIndex { own: true, index: 3 });
    assert_eq!(step(RemoteRequest::SlideIndex { destination: 2 }, 3, &[]).0, RemoteReply::SlideIndex { own: false, index: 0 });
    let own = RemoteRequest::Presentation { destination: 0, path: "/talk.grz".into() };
    assert_eq!(step(own, 0, &[]).0, RemoteReply::Presentation { own: true });
    let announcements = RemoteRequest::Presentation { destination: 0, path: "/Announcements.grz".into() };
    assert_eq!(step(announcements, 0, &[]).0, RemoteReply::Presentation { own: false });
    assert_eq!(step(RemoteRequest::Ping, 0, &[]).0, RemoteReply::Ping);
    assert_eq!(step(RemoteRequest::LibraryRequest, 0, &[]).0, RemoteReply::Library);
}
