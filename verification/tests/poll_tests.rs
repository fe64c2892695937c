use flash_code::pixels::PixelImage;
use flash_code::poll::{
    initial_poll_action, initial_poll_state, poll_step, PollAction, PollEvent, PollState,
};

fn solid_image(width: u32, height: u32, r: u8, g: u8, b: u8) -> PixelImage {
    let mut data = Vec::new();
    for _ in 0..(width as usize) * (height as usize) {
        data.push(r);
        data.push(g);
        data.push(b);
        data.push(255);
    }
    PixelImage::from_raw(width, height, data).unwrap()
}

#[test]
fn loop_starts_by_minimizing() {
    assert!(matches!(initial_poll_state(), PollState::Starting));
    assert_eq!(initial_poll_action(), PollAction::Minimize);
}

#[test]
fn successful_minimize_leads_to_baseline_capture() {
    let (state, action) = poll_step(
        PollState::Starting,
        PollEvent::Minimized { ok: true },
        300,
    );
    assert!(matches!(state, PollState::NeedBaseline));
    assert_eq!(action, PollAction::CaptureBaseline);
}

#[test]
fn failed_minimize_aborts_the_loop() {
    let (state, action) = poll_step(
        PollState::Starting,
        PollEvent::Minimized { ok: false },
        300,
    );
    assert!(matches!(state, PollState::Stopped));
    assert_eq!(action, PollAction::Finish);
}

#[test]
fn failed_baseline_capture_aborts_the_loop() {
    let (state, action) = poll_step(
        PollState::NeedBaseline,
        PollEvent::BaselineCaptured { image: None },
        300,
    );
    assert!(matches!(state, PollState::Stopped));
    assert_eq!(action, PollAction::Finish);
}

#[test]
fn baseline_capture_starts_watching() {
    let baseline = solid_image(10, 10, 0, 0, 0);
    let (state, action) = poll_step(
        PollState::NeedBaseline,
        PollEvent::BaselineCaptured {
            image: Some(baseline),
        },
        300,
    );
    assert!(matches!(state, PollState::Watching { .. }));
    assert_eq!(action, PollAction::Sleep);
}

#[test]
fn unchanged_tick_keeps_watching() {
    let baseline = solid_image(10, 10, 0, 0, 0);
    let current = solid_image(10, 10, 0, 0, 0);
    let (state, action) = poll_step(
        PollState::Watching { baseline },
        PollEvent::TickCaptured {
            image: Some(current),
        },
        300,
    );
    assert!(matches!(state, PollState::Watching { .. }));
    assert_eq!(action, PollAction::Sleep);
}

#[test]
fn failed_tick_capture_is_transient() {
    let baseline = solid_image(10, 10, 0, 0, 0);
    let (state, action) = poll_step(
        PollState::Watching { baseline },
        PollEvent::TickCaptured { image: None },
        300,
    );
    match state {
        PollState::Watching { baseline } => {
            assert_eq!(baseline.width, 10);
            assert_eq!(baseline.height, 10);
        }
        other => panic!("expected Watching, got {:?}", other),
    }
    assert_eq!(action, PollAction::Sleep);
}

#[test]
fn significant_tick_notifies_and_finishes() {
    let baseline = solid_image(10, 10, 0, 0, 0);
    let current = solid_image(10, 10, 255, 165, 0);
    let (state, action) = poll_step(
        PollState::Watching { baseline },
        PollEvent::TickCaptured {
            image: Some(current),
        },
        300,
    );
    assert!(matches!(state, PollState::Completed));
    assert_eq!(action, PollAction::NotifyAndFinish);
}

#[test]
fn cancellation_never_notifies() {
    let baseline = solid_image(10, 10, 0, 0, 0);
    let states = vec![
        PollState::Starting,
        PollState::NeedBaseline,
        PollState::Watching { baseline },
        PollState::Completed,
        PollState::Stopped,
    ];
    for s in states {
        let (next, action) = poll_step(s, PollEvent::Cancelled, 300);
        assert!(matches!(next, PollState::Stopped));
        assert_eq!(action, PollAction::Finish);
        assert_ne!(action, PollAction::NotifyAndFinish);
    }
}
