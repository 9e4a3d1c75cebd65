//! Decisions of the blocking event-polling loop.
//!
//! The loop runs on a dedicated thread: it waits on the connection's
//! readiness descriptor with a bounded timeout, re-checks a shared stop
//! flag, drains queued raw events when ready, and forwards each onto the
//! delivery channel. The decisions the loop takes at each step are the
//! functions here; the thread, the wait and the channel live with the
//! platform adapter, which observes one of the events below per step and
//! performs the returned action.

use vstd::prelude::*;

verus! {

/// What one wait step of the polling loop observed.
#[derive(Clone, Copy, Debug, PartialEq, Eq, Structural)]
pub enum PollEvent {
    /// The shared stop flag was found set.
    StopObserved,
    /// The bounded wait timed out with nothing to read.
    Timeout,
    /// The connection's descriptor became readable.
    Ready,
    /// The wait was interrupted by a signal.
    Interrupted,
    /// The wait itself failed.
    PollError,
}

/// What the loop does next after a wait step.
#[derive(Clone, Copy, Debug, PartialEq, Eq, Structural)]
pub enum PollAction {
    /// Wait again (after re-checking the stop flag).
    Wait,
    /// Drain all currently queued events.
    Drain,
    /// Leave the loop.
    Exit,
}

/// What one drain step observed.
#[derive(Clone, Copy, Debug, PartialEq, Eq, Structural)]
pub enum DrainEvent {
    /// An event was fetched and handed to the delivery channel.
    Delivered,
    /// An event was fetched but the channel's consumer is gone.
    ReceiverClosed,
    /// The event queue is empty.
    QueueEmpty,
    /// The connection reported an unrecoverable error.
    ConnectionError,
}

/// What the loop does next after a drain step.
#[derive(Clone, Copy, Debug, PartialEq, Eq, Structural)]
pub enum DrainAction {
    /// Fetch the next queued event.
    KeepDraining,
    /// Queue drained; go back to waiting.
    BackToWait,
    /// Leave the loop.
    Exit,
}

/// The loop's decision after a wait step.
pub open spec fn poll_decision(ev: PollEvent) -> PollAction {
    match ev {
        PollEvent::StopObserved => PollAction::Exit,
        PollEvent::Timeout => PollAction::Wait,
        PollEvent::Ready => PollAction::Drain,
        PollEvent::Interrupted => PollAction::Wait,
        PollEvent::PollError => PollAction::Exit,
    }
}

/// The loop's decision after a drain step.
pub open spec fn drain_decision(ev: DrainEvent) -> DrainAction {
    match ev {
        DrainEvent::Delivered => DrainAction::KeepDraining,
        DrainEvent::ReceiverClosed => DrainAction::Exit,
        DrainEvent::QueueEmpty => DrainAction::BackToWait,
        DrainEvent::ConnectionError => DrainAction::Exit,
    }
}

/// Decide the loop's next action after a wait step.
///
/// An observed stop flag always exits: since the flag is re-checked after
/// every bounded wait, setting it forces loop exit within one timeout
/// interval even when no event ever arrives.
pub fn poll_transition(ev: PollEvent) -> (a: PollAction)
    ensures
        a == poll_decision(ev),
        ev == PollEvent::StopObserved ==> a == PollAction::Exit,
{
    match ev {
        PollEvent::StopObserved => PollAction::Exit,
        PollEvent::Timeout => PollAction::Wait,
        PollEvent::Ready => PollAction::Drain,
        PollEvent::Interrupted => PollAction::Wait,
        PollEvent::PollError => PollAction::Exit,
    }
}

/// Decide the loop's next action after a drain step: keep draining while
/// events flow, stop the loop the moment the consumer is gone or the
/// connection fails, and return to waiting on an empty queue.
pub fn drain_transition(ev: DrainEvent) -> (a: DrainAction)
    ensures
        a == drain_decision(ev),
        ev == DrainEvent::ReceiverClosed || ev == DrainEvent::ConnectionError ==> a
            == DrainAction::Exit,
{
    match ev {
        DrainEvent::Delivered => DrainAction::KeepDraining,
        DrainEvent::ReceiverClosed => DrainAction::Exit,
        DrainEvent::QueueEmpty => DrainAction::BackToWait,
        DrainEvent::ConnectionError => DrainAction::Exit,
    }
}

} // verus!
