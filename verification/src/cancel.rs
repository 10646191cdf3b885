//! The decision core of the cancellation bridge.
//!
//! The installation call is blocking; beside it a polling thread reads a
//! caller-owned integer flag at a fixed interval and folds what it saw into
//! one internal boolean shared with the work. The thread itself lives
//! outside the library; each observation it makes is handed in as an event,
//! and the verified step below decides whether the bridge is now cancelled
//! and the polling must stop.

use vstd::prelude::*;

verus! {

/// One observation of the polling thread: a read of the caller's flag, or
/// the end of the installation work.
pub enum PollEvent {
    FlagRead(i32),
    WorkFinished,
}

/// How one event advances the cancelled state: a non-zero flag read or the
/// end of the work cancels; once cancelled, the bridge stays cancelled.
pub open spec fn spec_cancel_step(cancelled: bool, ev: PollEvent) -> bool {
    cancelled || (match ev {
        PollEvent::FlagRead(f) => f != 0,
        PollEvent::WorkFinished => true,
    })
}

/// The cancelled state after a whole run of observations.
pub open spec fn spec_cancel_run(cancelled: bool, evs: Seq<PollEvent>) -> bool
    decreases evs.len(),
{
    if evs.len() == 0 {
        cancelled
    } else {
        spec_cancel_run(spec_cancel_step(cancelled, evs[0]), evs.drop_first())
    }
}

/// The internal side of the cancellation bridge.
pub struct CancelBridge {
    pub cancelled: bool,
}

impl CancelBridge {
    /// A bridge that has seen nothing yet.
    pub fn new() -> (r: CancelBridge)
        ensures
            !r.cancelled,
    {
        CancelBridge { cancelled: false }
    }

    /// Fold one observation in. The result tells the polling thread whether
    /// to stop, and it stops exactly when the bridge is cancelled.
    pub fn step(&mut self, ev: PollEvent) -> (stop: bool)
        ensures
            final(self).cancelled == spec_cancel_step(old(self).cancelled, ev),
            stop == final(self).cancelled,
    {
        let seen = match ev {
            PollEvent::FlagRead(f) => f != 0,
            PollEvent::WorkFinished => true,
        };
        self.cancelled = self.cancelled || seen;
        self.cancelled
    }
}

/// A cancelled bridge stays cancelled through any further observations.
pub proof fn lemma_cancel_latches(evs: Seq<PollEvent>)
    ensures
        spec_cancel_run(true, evs),
    decreases evs.len(),
{
    if evs.len() > 0 {
        lemma_cancel_latches(evs.drop_first());
    }
}

/// Setting the caller's flag at any point cancels the call: whenever one
/// observation in the run reads a non-zero flag, the bridge ends cancelled,
/// so the polling stops at that very step and the work unwinds.
pub proof fn lemma_cancel_within_one_step(cancelled: bool, evs: Seq<PollEvent>, i: int)
    requires
        0 <= i < evs.len(),
        match evs[i] {
            PollEvent::FlagRead(f) => f != 0,
            PollEvent::WorkFinished => false,
        },
    ensures
        spec_cancel_run(cancelled, evs),
    decreases evs.len(),
{
    if i == 0 {
        lemma_cancel_latches(evs.drop_first());
    } else {
        lemma_cancel_within_one_step(spec_cancel_step(cancelled, evs[0]), evs.drop_first(), i - 1);
    }
}

} // verus!
