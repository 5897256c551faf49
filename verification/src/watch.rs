//! Watching: after udev reports a change, the output is rendered again once
//! the changes have stopped for a while.

use vstd::prelude::*;

verus! {

/// How long no event must come before the output is rendered again, in ms.
pub const DEBOUNCE_MS: u64 = 200;

/// How long the watcher sleeps between two polls, in ms.
pub const POLL_MS: u64 = 50;

/// The state of the watcher: the time of the latest event that has not been
/// rendered yet, if any.
pub struct Debounce {
    pending: Option<u64>,
}

/// One poll: `event` tells whether an event came since the last poll, `now`
/// is the time in ms. An event (re)starts the wait; once `DEBOUNCE_MS` have
/// passed since the latest event, the output is rendered and the wait ends.
/// Gives the new state and whether to render.
pub open spec fn debounce_step(pending: Option<u64>, event: bool, now: u64) -> (Option<u64>, bool) {
    let p = if event {
        Some(now)
    } else {
        pending
    };
    match p {
        Some(t) => if now >= t && now - t >= DEBOUNCE_MS {
            (None, true)
        } else {
            (p, false)
        },
        None => (None, false),
    }
}

impl View for Debounce {
    type V = Option<u64>;

    closed spec fn view(&self) -> Option<u64> {
        self.pending
    }
}

impl Debounce {
    /// A watcher with nothing pending.
    pub fn new() -> (r: Debounce)
        ensures
            r@ is None,
    {
        Debounce { pending: None }
    }

    /// One poll at time `now_ms` (ms, from any fixed origin); `event` tells
    /// whether udev reported an event since the last poll. Returns whether
    /// to render the output again.
    pub fn step(&mut self, event: bool, now_ms: u64) -> (render: bool)
        ensures
            (final(self)@, render) == debounce_step(old(self)@, event, now_ms),
    {
        if event {
            self.pending = Some(now_ms);
        }
        match self.pending {
            Some(t) => {
                if now_ms.saturating_sub(t) >= DEBOUNCE_MS {
                    self.pending = None;
                    true
                } else {
                    false
                }
            },
            None => false,
        }
    }
}

/// A poll that brings an event never renders: the wait starts anew.
pub proof fn lemma_event_defers_render(pending: Option<u64>, now: u64)
    ensures
        debounce_step(pending, true, now) == (Some(now), false),
{
}

/// A render happens only once `DEBOUNCE_MS` have passed since the latest
/// event, and it ends the wait: with no new event, nothing renders again.
pub proof fn lemma_render_once_after_quiet(pending: Option<u64>, now: u64, later: u64)
    requires
        debounce_step(pending, false, now).1,
    ensures
        pending matches Some(t) && now - t >= DEBOUNCE_MS,
        debounce_step(pending, false, now).0 is None,
        !debounce_step(debounce_step(pending, false, now).0, false, later).1,
{
}

/// The wait is 200 ms: a poll 199 ms after the latest event does not
/// render, one 200 ms after it does.
pub proof fn lemma_quiet_time_is_200_ms(t: u64)
    requires
        t <= u64::MAX - 200,
    ensures
        debounce_step(Some(t), false, (t + 199) as u64) == (Some(t), false),
        debounce_step(Some(t), false, (t + 200) as u64) == (None::<u64>, true),
{
}

/// Without events, a pending render comes at the first poll at least
/// `DEBOUNCE_MS` after the event.
pub proof fn lemma_pending_renders_when_due(t: u64, now: u64)
    requires
        now >= t + DEBOUNCE_MS,
    ensures
        debounce_step(Some(t), false, now) == (None::<u64>, true),
{
}

} // verus!
