//! When to verify: edits schedule a verification of their revision, which
//! is requested once the debounce delay has passed without a newer edit;
//! results are applied only to the revision they were made for.
//!
//! The worker that runs the verifier, the channels and the clock stay with
//! the caller, which reports the time as milliseconds of a monotonic clock.

use vstd::prelude::*;

verus! {

/// How long, in milliseconds, an edit must rest before it is verified.
pub const DEBOUNCE_MS: u64 = 300;

/// The scheduling state of verification.
pub struct Scheduler {
    /// The revision waiting to be verified and the time it was scheduled.
    pub pending: Option<(u64, u64)>,
    /// Whether a request was sent whose result has not been applied.
    pub running: bool,
}

impl Scheduler {
    /// Whether a request for `revision` is due at time `now`: that revision
    /// is pending and has rested for the debounce delay.
    pub open spec fn is_due(&self, revision: u64, now: u64) -> bool {
        match self.pending {
            Some((r, t)) => r == revision && now >= t + DEBOUNCE_MS,
            None => false,
        }
    }

    /// The state after a request for `revision` is looked for at `now`:
    /// where one is due, nothing is pending any more.
    pub open spec fn after_take(&self, revision: u64, now: u64) -> Scheduler {
        if self.is_due(revision, now) {
            Scheduler { pending: None, running: self.running }
        } else {
            *self
        }
    }

    /// The state after an edit made `revision` at time `now`.
    pub open spec fn after_schedule(&self, revision: u64, now: u64) -> Scheduler {
        Scheduler { pending: Some((revision, now)), running: self.running }
    }

    /// Nothing pending, nothing running.
    pub fn new() -> (s: Self)
        ensures
            s.pending is None,
            !s.running,
    {
        Scheduler { pending: None, running: false }
    }

    /// An edit made `revision` at time `now`: it replaces whatever was
    /// pending.
    pub fn schedule(&mut self, revision: u64, now: u64)
        ensures
            *final(self) == old(self).after_schedule(revision, now),
    {
        self.pending = Some((revision, now));
    }

    /// Whether to send a request for `revision` now. Where it is due, the
    /// pending entry is consumed; otherwise nothing changes.
    pub fn take_due(&mut self, revision: u64, now: u64) -> (due: bool)
        ensures
            due == old(self).is_due(revision, now),
            *final(self) == old(self).after_take(revision, now),
    {
        match self.pending {
            Some((r, t)) => {
                if r == revision && now.saturating_sub(t) >= DEBOUNCE_MS {
                    self.pending = None;
                    true
                } else {
                    false
                }
            },
            None => false,
        }
    }

    /// Verification was asked for at once: nothing stays pending.
    pub fn verify_now(&mut self)
        ensures
            final(self).pending is None,
            final(self).running == old(self).running,
    {
        self.pending = None;
    }

    /// A request was handed to the worker, successfully or not: the
    /// verifier runs exactly where it was.
    pub fn request_sent(&mut self, sent: bool)
        ensures
            final(self).running == sent,
            final(self).pending == old(self).pending,
    {
        self.running = sent;
    }

    /// A result for `result_revision` came back while the document is at
    /// `revision`: it is applied exactly where the revisions are equal, and
    /// then the verifier no longer runs; a stale result changes nothing.
    pub fn accepts(&mut self, result_revision: u64, revision: u64) -> (applied: bool)
        ensures
            applied == (result_revision == revision),
            applied ==> !final(self).running,
            !applied ==> final(self).running == old(self).running,
            final(self).pending == old(self).pending,
    {
        if result_revision == revision {
            self.running = false;
            true
        } else {
            false
        }
    }
}

/// Whether a result made for `result_revision` may be shown for the
/// document at `revision`: only where they are the same.
pub fn is_current(result_revision: u64, revision: u64) -> (r: bool)
    ensures
        r == (result_revision == revision),
{
    result_revision == revision
}

/// A scheduled revision is requested at most once: once a request is due
/// and taken, none is due again, for any revision and at any time, until
/// the next edit schedules one.
pub proof fn lemma_due_at_most_once(s: Scheduler, revision: u64, now: u64, later_revision: u64, later: u64)
    requires
        s.is_due(revision, now),
    ensures
        !s.after_take(revision, now).is_due(later_revision, later),
{
}

/// A newer edit supersedes an older one: after revision `newer` is
/// scheduled, no other revision is due.
pub proof fn lemma_newer_edit_supersedes(s: Scheduler, newer: u64, at: u64, other: u64, now: u64)
    requires
        other != newer,
    ensures
        !s.after_schedule(newer, at).is_due(other, now),
{
}

/// An edit is verified only after it has rested for the debounce delay,
/// and then it is: the scheduled revision is due at `now` exactly when
/// `now` is at least the debounce delay past the edit.
pub proof fn lemma_due_after_debounce(s: Scheduler, revision: u64, at: u64, now: u64)
    ensures
        s.after_schedule(revision, at).is_due(revision, now) == (now >= at + DEBOUNCE_MS),
{
}

} // verus!
