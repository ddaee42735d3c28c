//! The hand-off sequencer: the strictly ordered, one-directional end of
//! the pipeline. The platform calls themselves (retiring boot services,
//! the final jump) happen outside this crate; this module decides, from
//! each platform answer, the one next action, including the single
//! bounded retry allowed when retiring is reported stale.

use vstd::prelude::*;

use crate::errors::LoadError;

verus! {

/// Where the one-shot boot sequence stands. Transitions only ever move
/// rightward: `Init` to `Loaded` to `ServicesRetired`.
#[derive(Clone, Copy, Debug, PartialEq, Eq, Structural)]
pub enum Phase {
    /// Nothing loaded yet.
    Init,
    /// The image is parsed and its regions are materialized; firmware
    /// services are still live.
    Loaded,
    /// Boot services are retired; the only thing left is the jump.
    ServicesRetired,
}

/// What the platform answered to a "retire boot services" request.
#[derive(Clone, Copy, Debug, PartialEq, Eq, Structural)]
pub enum RetireOutcome {
    /// Boot services are retired; firmware APIs are gone.
    Retired,
    /// The request was stale (the memory-map generation changed between
    /// query and commit).
    Stale,
}

/// The single next step the caller must take.
#[derive(Clone, Copy, Debug, PartialEq, Eq, Structural)]
pub enum HandoffAction {
    /// Transfer control to this entry address; nothing runs here
    /// afterwards.
    Jump(u64),
    /// Re-query the memory map and re-attempt retiring, exactly once.
    RetryRetire,
    /// Halt: the hand-off cannot proceed.
    Fatal(LoadError),
}

/// Drives the hand-off phase by phase. The caller performs the platform
/// calls and feeds their outcomes back in.
pub struct HandoffSequencer {
    pub phase: Phase,
    pub entry: u64,
    pub retried: bool,
}

/// The sequencer's transition on a retire answer: a retired answer moves
/// to `ServicesRetired` and orders the jump; the first stale answer
/// orders one retry; any further stale answer is fatal.
pub open spec fn retire_step(s: HandoffSequencer, outcome: RetireOutcome) -> (
    HandoffSequencer,
    HandoffAction,
) {
    match outcome {
        RetireOutcome::Retired => (
            HandoffSequencer { phase: Phase::ServicesRetired, entry: s.entry, retried: s.retried },
            HandoffAction::Jump(s.entry),
        ),
        RetireOutcome::Stale => if !s.retried {
            (
                HandoffSequencer { phase: s.phase, entry: s.entry, retried: true },
                HandoffAction::RetryRetire,
            )
        } else {
            (s, HandoffAction::Fatal(LoadError::HandoffRejected))
        },
    }
}

impl HandoffSequencer {
    /// A fresh sequencer: nothing loaded, nothing retired.
    pub fn new() -> (s: Self)
        ensures
            s.phase == Phase::Init,
            !s.retried,
    {
        HandoffSequencer { phase: Phase::Init, entry: 0, retried: false }
    }

    /// Records that the image is fully materialized and fixes the entry
    /// address the jump will use.
    pub fn mark_loaded(&mut self, entry: u64)
        requires
            old(self).phase == Phase::Init,
        ensures
            final(self).phase == Phase::Loaded,
            final(self).entry == entry,
            final(self).retried == old(self).retried,
    {
        self.phase = Phase::Loaded;
        self.entry = entry;
    }

    /// Consumes one answer to a "retire boot services" request and
    /// returns the next action, exactly as `retire_step` says.
    pub fn on_retire_attempt(&mut self, outcome: RetireOutcome) -> (a: HandoffAction)
        requires
            old(self).phase == Phase::Loaded,
        ensures
            (*final(self), a) == retire_step(*old(self), outcome),
    {
        match outcome {
            RetireOutcome::Retired => {
                self.phase = Phase::ServicesRetired;
                HandoffAction::Jump(self.entry)
            },
            RetireOutcome::Stale => {
                if !self.retried {
                    self.retried = true;
                    HandoffAction::RetryRetire
                } else {
                    HandoffAction::Fatal(LoadError::HandoffRejected)
                }
            },
        }
    }
}

/// The retry is bounded: from a hand-off that has not yet retried, the
/// first stale answer orders exactly one retry, a second stale answer is
/// fatal, and a retired answer at either point orders the jump to the
/// recorded entry address.
pub proof fn lemma_retry_bounded(s: HandoffSequencer)
    requires
        s.phase == Phase::Loaded,
        !s.retried,
    ensures
        retire_step(s, RetireOutcome::Stale).1 == HandoffAction::RetryRetire,
        retire_step(retire_step(s, RetireOutcome::Stale).0, RetireOutcome::Stale).1
            == HandoffAction::Fatal(LoadError::HandoffRejected),
        retire_step(s, RetireOutcome::Retired).1 == HandoffAction::Jump(s.entry),
        retire_step(retire_step(s, RetireOutcome::Stale).0, RetireOutcome::Retired).1
            == HandoffAction::Jump(s.entry),
{
}

/// Retiring never moves the phase backwards, and only a retired answer
/// moves it forward.
pub proof fn lemma_phase_one_directional(s: HandoffSequencer, outcome: RetireOutcome)
    requires
        s.phase == Phase::Loaded,
    ensures
        outcome == RetireOutcome::Retired ==> retire_step(s, outcome).0.phase
            == Phase::ServicesRetired,
        outcome == RetireOutcome::Stale ==> retire_step(s, outcome).0.phase == Phase::Loaded,
{
}

} // verus!
