//! Animation frame control: the bookkeeping behind a repeating per-frame
//! callback that can be started and stopped.
//!
//! The host owns the two primitives, "request the next frame" and "cancel a
//! requested frame". The scheduler owns the decisions: it is told what the
//! caller wants and what the host did, and answers with what the host has to
//! do next. It never calls the host itself, so the same scheduler serves a host
//! whose callback runs in place and a host that reports each frame through a
//! channel.

use vstd::prelude::*;

verus! {

/// What the host has to do after a reconciliation.
#[derive(Clone, Copy, Debug, PartialEq, Eq, Structural)]
pub enum FrameAction {
    /// Nothing: what is scheduled already matches what is wanted.
    Idle,
    /// Request the next frame, and hand the handle to `registered`.
    Request,
    /// Cancel the requested frame that has this handle.
    Cancel(i32),
}

/// The frame counter after one more frame. It wraps around at `i32::MAX`.
pub open spec fn next_frame_id(frame_id: i32) -> i32 {
    if frame_id == i32::MAX {
        i32::MIN
    } else {
        (frame_id + 1) as i32
    }
}

/// The state of a scheduler, as the contracts speak of it.
pub struct FrameState {
    /// Whether frames are wanted.
    pub running: bool,
    /// The handle of the frame that the host has been asked for and has not
    /// delivered yet.
    pub pending: Option<i32>,
    /// How many frames have been delivered, counted with wrap-around.
    pub frame_id: i32,
}

impl FrameState {
    /// The state of a new scheduler: nothing requested, no frame counted.
    pub open spec fn initial(running: bool) -> FrameState {
        FrameState { running, pending: None, frame_id: 0 }
    }

    /// The state after the caller has said whether frames are wanted.
    pub open spec fn with_intent(self, running: bool) -> FrameState {
        FrameState { running, ..self }
    }

    /// What is scheduled matches what is wanted: a frame is pending exactly
    /// when frames are wanted.
    pub open spec fn settled(self) -> bool {
        self.running == (self.pending is Some)
    }

    /// What a reconciliation asks of the host.
    pub open spec fn action(self) -> FrameAction {
        match self.pending {
            None => if self.running {
                FrameAction::Request
            } else {
                FrameAction::Idle
            },
            Some(handle) => if self.running {
                FrameAction::Idle
            } else {
                FrameAction::Cancel(handle)
            },
        }
    }

    /// The state after a reconciliation: a frame that is pending and no longer
    /// wanted is forgotten, everything else stays.
    pub open spec fn reconciled(self) -> FrameState {
        if self.running {
            self
        } else {
            FrameState { pending: None, ..self }
        }
    }

    /// The state after the host has answered a request with `handle`.
    pub open spec fn registered(self, handle: i32) -> FrameState {
        FrameState { pending: Some(handle), ..self }
    }

    /// The state after the host has delivered a frame and the callback has
    /// requested the next one, which has the handle `next_handle`.
    pub open spec fn after_frame(self, next_handle: i32) -> FrameState {
        FrameState {
            running: self.running,
            pending: Some(next_handle),
            frame_id: next_frame_id(self.frame_id),
        }
    }

    /// The state after the channel of a bridged host has shown `handle`: a new
    /// frame, unless the handle is the pending one shown once more.
    pub open spec fn after_report(self, handle: i32) -> FrameState {
        if self.pending == Some(handle) {
            self
        } else {
            self.after_frame(handle)
        }
    }
}

/// Starts and stops a repeating per-frame callback and counts its frames.
#[derive(Clone, Copy, Debug, PartialEq, Eq)]
pub struct FrameScheduler {
    running: bool,
    pending: Option<i32>,
    frame_id: i32,
}

impl View for FrameScheduler {
    type V = FrameState;

    closed spec fn view(&self) -> FrameState {
        FrameState { running: self.running, pending: self.pending, frame_id: self.frame_id }
    }
}

impl FrameScheduler {
    /// A scheduler with nothing requested and the frame counter at 0.
    /// `initial_state` says whether frames are wanted from the start; the first
    /// reconciliation acts on it.
    pub fn new(initial_state: bool) -> (scheduler: FrameScheduler)
        ensures
            scheduler@ == FrameState::initial(initial_state),
    {
        FrameScheduler { running: initial_state, pending: None, frame_id: 0 }
    }

    /// Whether frames are wanted.
    pub fn is_running(&self) -> (running: bool)
        ensures
            running == self@.running,
    {
        self.running
    }

    /// The frame counter. It changes when a frame is delivered and at no other
    /// time.
    pub fn frame_id(&self) -> (frame_id: i32)
        ensures
            frame_id == self@.frame_id,
    {
        self.frame_id
    }

    /// The handle of the frame that is requested and not yet delivered.
    pub fn pending_handle(&self) -> (pending: Option<i32>)
        ensures
            pending == self@.pending,
    {
        self.pending
    }

    /// Records whether frames are wanted. The host hears of it at the next
    /// reconciliation.
    pub fn set_running(&mut self, running: bool)
        ensures
            final(self)@ == old(self)@.with_intent(running),
    {
        self.running = running;
    }

    /// Compares what is wanted with what is scheduled and says what the host
    /// has to do: request a frame when frames are wanted and none is pending,
    /// cancel the pending frame when frames are no longer wanted, nothing
    /// otherwise. A cancelled frame is forgotten at once, so that a second
    /// reconciliation asks for nothing.
    pub fn reconcile(&mut self) -> (action: FrameAction)
        ensures
            action == old(self)@.action(),
            final(self)@ == old(self)@.reconciled(),
    {
        match self.pending {
            None => if self.running {
                FrameAction::Request
            } else {
                FrameAction::Idle
            },
            Some(handle) => if self.running {
                FrameAction::Idle
            } else {
                self.pending = None;
                FrameAction::Cancel(handle)
            },
        }
    }

    /// The host has answered a request: `handle` names the frame that is now
    /// pending. No frame is counted.
    pub fn registered(&mut self, handle: i32)
        ensures
            final(self)@ == old(self)@.registered(handle),
    {
        self.pending = Some(handle);
    }

    /// The host has delivered a frame, and the callback has already requested
    /// the next one, which has the handle `next_handle`. Counts the frame and
    /// keeps the new handle, whatever is wanted by now: a frame that arrives
    /// after a stop is still counted, and the next reconciliation cancels its
    /// successor.
    pub fn on_frame(&mut self, next_handle: i32)
        ensures
            final(self)@ == old(self)@.after_frame(next_handle),
            old(self)@.frame_id < i32::MAX ==> final(self)@.frame_id == old(self)@.frame_id + 1,
    {
        self.pending = Some(next_handle);
        self.frame_id = self.frame_id.wrapping_add(1);
    }

    /// The channel of a bridged host shows `handle`. The channel shows its
    /// latest report until the next one arrives, so a handle that is already
    /// pending is the same report once more and counts for nothing; any other
    /// handle is a frame, as in `on_frame`. Says whether a frame was counted.
    pub fn on_report(&mut self, handle: i32) -> (counted: bool)
        ensures
            counted == (old(self)@.pending != Some(handle)),
            final(self)@ == old(self)@.after_report(handle),
    {
        match self.pending {
            Some(pending) => {
                if pending == handle {
                    return false;
                }
            },
            None => {},
        }
        self.on_frame(handle);
        true
    }
}

/// Reconciling is safe to repeat: what it leaves is settled as far as the
/// scheduler can settle it alone, and a second reconciliation changes nothing.
/// After the first one, the only thing that can still be asked of the host is
/// the frame that is wanted and not yet registered.
pub proof fn lemma_reconcile_is_idempotent(state: FrameState)
    ensures
        state.reconciled().reconciled() == state.reconciled(),
        state.reconciled().action() == (if state.running && state.pending is None {
            FrameAction::Request
        } else {
            FrameAction::Idle
        }),
        state.settled() ==> state.action() == FrameAction::Idle && state.reconciled() == state,
        state.reconciled().frame_id == state.frame_id,
{
}

/// A reconciliation never asks to start and to stop at once: it requests only
/// when frames are wanted, and cancels only when they are not.
pub proof fn lemma_start_and_stop_exclude_each_other(state: FrameState)
    ensures
        state.action() == FrameAction::Request <==> state.running && state.pending is None,
        (exists|handle: i32| state.action() == FrameAction::Cancel(handle)) <==> !state.running
            && state.pending is Some,
        state.action() == FrameAction::Idle <==> state.settled(),
{
    if !state.running && state.pending is Some {
        assert(state.action() == FrameAction::Cancel(state.pending->0));
    }
}

/// Starting and stopping again before any frame is delivered counts no frame
/// and leaves no frame pending: whatever the state was, once the intent has
/// been set, reconciled and answered by the host, and then withdrawn and
/// reconciled again, the counter is where it was and nothing is pending.
pub proof fn lemma_start_then_stop_counts_nothing(state: FrameState, handle: i32)
    ensures
        ({
            let wanted = state.with_intent(true);
            let started = if wanted.action() == FrameAction::Request {
                wanted.reconciled().registered(handle)
            } else {
                wanted.reconciled()
            };
            let stopped = started.with_intent(false).reconciled();
            &&& started.pending is Some
            &&& started.with_intent(false).action() == FrameAction::Cancel(started.pending->0)
            &&& stopped.pending is None
            &&& !stopped.running
            &&& stopped.frame_id == state.frame_id
            &&& stopped.action() == FrameAction::Idle
        }),
{
}

/// Each delivered frame moves the counter one step: up by one, except at
/// `i32::MAX`, where it wraps around to `i32::MIN`.
pub proof fn lemma_frame_moves_counter(state: FrameState, next_handle: i32)
    ensures
        state.frame_id < i32::MAX ==> state.after_frame(next_handle).frame_id == state.frame_id
            + 1,
        state.frame_id == i32::MAX ==> state.after_frame(next_handle).frame_id == i32::MIN,
        state.after_frame(next_handle).frame_id != state.frame_id,
        state.after_frame(next_handle).pending == Some(next_handle),
        state.after_frame(next_handle).running == state.running,
{
}

/// While frames are wanted, every delivered frame raises the counter, and the
/// reconciliation after it asks for nothing, so the chain of frames goes on.
pub proof fn lemma_running_counter_rises(state: FrameState, next_handle: i32)
    requires
        state.running,
        state.frame_id < i32::MAX,
    ensures
        state.after_frame(next_handle).frame_id > state.frame_id,
        state.after_frame(next_handle).action() == FrameAction::Idle,
{
}

/// Once frames are no longer wanted and the scheduler has reconciled, the
/// counter rests: nothing is pending, so the host has no frame to deliver,
/// and neither a change of intent nor a reconciliation nor the host's answer
/// to a request moves the counter.
pub proof fn lemma_stopped_counter_rests(state: FrameState, running: bool, handle: i32)
    ensures
        state.with_intent(false).reconciled().pending is None,
        state.with_intent(false).reconciled().action() == FrameAction::Idle,
        state.with_intent(running).frame_id == state.frame_id,
        state.reconciled().frame_id == state.frame_id,
        state.registered(handle).frame_id == state.frame_id,
{
}

/// A frame that was already under way when frames were stopped is still
/// counted, once, and the reconciliation after it cancels its successor.
pub proof fn lemma_late_frame_is_cancelled(state: FrameState, next_handle: i32)
    requires
        !state.running,
    ensures
        state.after_frame(next_handle).frame_id == next_frame_id(state.frame_id),
        state.after_frame(next_handle).action() == FrameAction::Cancel(next_handle),
        state.after_frame(next_handle).reconciled().pending is None,
        state.after_frame(next_handle).reconciled().frame_id == next_frame_id(state.frame_id),
{
}

/// A report that is shown twice counts once.
pub proof fn lemma_repeated_report_counts_once(state: FrameState, handle: i32)
    ensures
        state.after_report(handle).after_report(handle) == state.after_report(handle),
        state.pending != Some(handle) ==> state.after_report(handle) == state.after_frame(handle),
{
}

} // verus!
