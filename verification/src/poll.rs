//! The per-target polling loop, as a state machine.
//!
//! Each monitored target runs one cancellable loop: minimize the window,
//! capture the baseline icon image, then once per interval re-resolve the
//! icon region, capture the current image and compare it against the
//! baseline.  The native work of each step (minimizing, capturing,
//! sleeping, notifying) is done by the surrounding program; the decision
//! what to do next, given what the last step yielded, is made here.  The
//! surrounding loop performs the returned action and feeds the outcome
//! back as the next event.

use vstd::prelude::*;
use crate::compare::{has_significant_difference, spec_significant};
use crate::pixels::PixelImage;

verus! {

/// Where one target's polling loop stands.
#[derive(Clone, Debug)]
pub enum PollState {
    /// The loop has not yet minimized its target window.
    Starting,
    /// The window is minimized; the baseline capture is owed.
    NeedBaseline,
    /// The baseline is held; each tick sleeps, captures and compares.
    Watching { baseline: PixelImage },
    /// A significant change was seen and the notification issued.
    Completed,
    /// The loop ended without a detection: cancelled or failed fatally.
    Stopped,
}

/// What the surrounding program reports back after performing an action.
pub enum PollEvent {
    /// Outcome of minimizing the target window.
    Minimized { ok: bool },
    /// Outcome of resolving the icon region and capturing the baseline;
    /// `None` when either failed.
    BaselineCaptured { image: Option<PixelImage> },
    /// Outcome of one tick: the interval slept, the region re-resolved
    /// and captured; `None` when the capture failed this tick.
    TickCaptured { image: Option<PixelImage> },
    /// Cancellation was requested.
    Cancelled,
}

/// What the surrounding program must do next.
#[derive(Clone, Copy, Debug, PartialEq, Eq, Structural)]
pub enum PollAction {
    /// Minimize the target window, then report the outcome.
    Minimize,
    /// Resolve the icon region and capture the baseline image.
    CaptureBaseline,
    /// Sleep one interval, then resolve the region and capture the
    /// current image.
    Sleep,
    /// Notify the external notifier with the target's name, restore the
    /// window, and signal completion; the loop is over.
    NotifyAndFinish,
    /// Terminate silently: no notification, no restore.
    Finish,
}

impl PollState {
    /// Every image held in a state is a well-formed pixel buffer.
    pub open spec fn wf(self) -> bool {
        match self {
            PollState::Watching { baseline } => baseline.wf(),
            _ => true,
        }
    }
}

impl PollEvent {
    /// Every image carried by an event is a well-formed pixel buffer.
    pub open spec fn wf(self) -> bool {
        match self {
            PollEvent::BaselineCaptured { image: Some(img) } => img.wf(),
            PollEvent::TickCaptured { image: Some(img) } => img.wf(),
            _ => true,
        }
    }
}

/// The transition relation of the polling loop.
///
/// Cancellation ends the loop silently from every state.  A failed
/// minimize or baseline capture is fatal to this target's loop; a failed
/// tick capture is transient, logged and skipped.  A tick whose capture
/// compares as significant against the baseline triggers the notification
/// and ends the loop; any event that does not belong to the current state
/// also ends the loop silently.
pub open spec fn spec_poll_step(state: PollState, event: PollEvent, threshold_milli: u32) -> (
    PollState,
    PollAction,
) {
    match (state, event) {
        (_, PollEvent::Cancelled) => (PollState::Stopped, PollAction::Finish),
        (PollState::Starting, PollEvent::Minimized { ok }) => {
            if ok {
                (PollState::NeedBaseline, PollAction::CaptureBaseline)
            } else {
                (PollState::Stopped, PollAction::Finish)
            }
        },
        (PollState::NeedBaseline, PollEvent::BaselineCaptured { image }) => {
            match image {
                Some(img) => (PollState::Watching { baseline: img }, PollAction::Sleep),
                None => (PollState::Stopped, PollAction::Finish),
            }
        },
        (PollState::Watching { baseline }, PollEvent::TickCaptured { image }) => {
            match image {
                Some(img) => {
                    if spec_significant(baseline, img, threshold_milli) {
                        (PollState::Completed, PollAction::NotifyAndFinish)
                    } else {
                        (PollState::Watching { baseline }, PollAction::Sleep)
                    }
                },
                None => (PollState::Watching { baseline }, PollAction::Sleep),
            }
        },
        _ => (PollState::Stopped, PollAction::Finish),
    }
}

/// The state a loop is created in.
pub fn initial_poll_state() -> (r: PollState)
    ensures
        r == PollState::Starting,
        r.wf(),
{
    PollState::Starting
}

/// The action owed to a loop in its initial state: minimize the target
/// window so its taskbar icon reaches its idle visual state.
pub fn initial_poll_action() -> (r: PollAction)
    ensures
        r == PollAction::Minimize,
{
    PollAction::Minimize
}

/// Advances one target's polling loop by one step: consumes the current
/// state and the outcome of the last action, and returns the next state
/// and the next action.
pub fn poll_step(state: PollState, event: PollEvent, threshold_milli: u32) -> (r: (
    PollState,
    PollAction,
))
    requires
        state.wf(),
        event.wf(),
    ensures
        r == spec_poll_step(state, event, threshold_milli),
        r.0.wf(),
{
    match (state, event) {
        (_, PollEvent::Cancelled) => (PollState::Stopped, PollAction::Finish),
        (PollState::Starting, PollEvent::Minimized { ok }) => {
            if ok {
                (PollState::NeedBaseline, PollAction::CaptureBaseline)
            } else {
                (PollState::Stopped, PollAction::Finish)
            }
        },
        (PollState::NeedBaseline, PollEvent::BaselineCaptured { image }) => {
            match image {
                Some(img) => (PollState::Watching { baseline: img }, PollAction::Sleep),
                None => (PollState::Stopped, PollAction::Finish),
            }
        },
        (PollState::Watching { baseline }, PollEvent::TickCaptured { image }) => {
            match image {
                Some(img) => {
                    if has_significant_difference(&baseline, &img, threshold_milli) {
                        (PollState::Completed, PollAction::NotifyAndFinish)
                    } else {
                        (PollState::Watching { baseline }, PollAction::Sleep)
                    }
                },
                None => (PollState::Watching { baseline }, PollAction::Sleep),
            }
        },
        (s, _) => (PollState::Stopped, PollAction::Finish),
    }
}

/// A cancelled loop never notifies: whatever state the loop is in, the
/// cancellation event ends it silently, with no notification action.
pub proof fn lemma_cancel_never_notifies(state: PollState, threshold_milli: u32)
    ensures
        spec_poll_step(state, PollEvent::Cancelled, threshold_milli).0 == PollState::Stopped,
        spec_poll_step(state, PollEvent::Cancelled, threshold_milli).1 != (
        PollAction::NotifyAndFinish),
{
}

/// The notification fires exactly on a detection: the loop asks for it
/// precisely when it was watching, the tick's capture succeeded, and the
/// capture compares as significant against the baseline.
pub proof fn lemma_notify_exactly_on_detection(
    state: PollState,
    event: PollEvent,
    threshold_milli: u32,
)
    ensures
        spec_poll_step(state, event, threshold_milli).1 == PollAction::NotifyAndFinish <==> (
        exists|baseline: PixelImage, img: PixelImage|
            state == (PollState::Watching { baseline }) && event == (PollEvent::TickCaptured {
                image: Some(img),
            }) && spec_significant(baseline, img, threshold_milli)),
{
    if spec_poll_step(state, event, threshold_milli).1 == PollAction::NotifyAndFinish {
        match (state, event) {
            (
                PollState::Watching { baseline },
                PollEvent::TickCaptured { image: Some(img) },
            ) => {
                assert(state == (PollState::Watching { baseline }) && event == (
                PollEvent::TickCaptured { image: Some(img) }) && spec_significant(
                    baseline,
                    img,
                    threshold_milli,
                ));
            },
            _ => {
                assert(false);
            },
        }
    }
}

/// A transient capture failure is tolerated: a watching loop whose tick
/// capture failed keeps its baseline and simply sleeps until the next
/// tick.
pub proof fn lemma_tick_failure_is_transient(baseline: PixelImage, threshold_milli: u32)
    ensures
        spec_poll_step(
            PollState::Watching { baseline },
            PollEvent::TickCaptured { image: None },
            threshold_milli,
        ) == (PollState::Watching { baseline }, PollAction::Sleep),
{
}

} // verus!
