//! The client's timer: one at a time, set anew or cancelled, and asked whether it has run out.

use crate::util::NANOS_PER_SEC;
use vstd::prelude::*;

verus! {

/// What the client waits for.
#[derive(Debug, Clone, Copy, PartialEq, Eq, Structural)]
pub enum TimerKind {
    Hello,
    DataWait,
    Closing,
}

/// A timer that was set. Times are in nanoseconds from a fixed moment.
#[derive(Debug, Clone, Copy, PartialEq, Eq, Structural)]
pub struct Timer {
    pub kind: TimerKind,
    pub deadline: u128,
    /// Neither cancelled nor run out.
    pub active: bool,
}

/// The place of the one timer, empty until a timer is set.
#[derive(Debug)]
pub struct TimerCell {
    timer: Option<Timer>,
}

impl View for TimerCell {
    type V = Option<Timer>;

    closed spec fn view(&self) -> Option<Timer> {
        self.timer
    }
}

/// The timer that runs for `seconds` from `now`.
pub open spec fn started(kind: TimerKind, now: u64, seconds: u64) -> Timer {
    Timer { kind, deadline: (now + seconds * NANOS_PER_SEC) as u128, active: true }
}

/// The timer, if there is one, no longer active.
pub open spec fn stopped(timer: Option<Timer>) -> Option<Timer> {
    match timer {
        Some(t) => Some(Timer { active: false, ..t }),
        None => None,
    }
}

/// Whether the timer is active and its deadline has come.
pub open spec fn due(timer: Option<Timer>, now: u64) -> bool {
    timer matches Some(t) && t.active && now >= t.deadline
}

impl TimerCell {
    /// An empty place.
    pub fn new() -> (cell: Self)
        ensures
            cell@ is None,
    {
        TimerCell { timer: None }
    }

    /// Start a timer that runs for `seconds` from `now`, in place of any other.
    pub fn set_timer(&mut self, kind: TimerKind, now: u64, seconds: u64)
        ensures
            final(self)@ == Some(started(kind, now, seconds)),
    {
        let deadline: u128 = now as u128 + seconds as u128 * NANOS_PER_SEC as u128;
        self.timer = Some(Timer { kind, deadline, active: true });
    }

    /// Cancel the timer, if there is one.
    pub fn cancel_timer(&mut self)
        ensures
            final(self)@ == stopped(old(self)@),
    {
        if let Some(timer) = self.timer {
            self.timer = Some(Timer { kind: timer.kind, deadline: timer.deadline, active: false });
        }
    }

    /// The kind of the timer, if it has run out by `now`; from then on it is no longer active.
    pub fn poll(&mut self, now: u64) -> (fired: Option<TimerKind>)
        ensures
            fired == (if due(old(self)@, now) {
                Some(old(self)@->0.kind)
            } else {
                None
            }),
            final(self)@ == (if due(old(self)@, now) {
                stopped(old(self)@)
            } else {
                old(self)@
            }),
    {
        if let Some(timer) = self.timer {
            if timer.active && now as u128 >= timer.deadline {
                // mark inactive and trigger
                self.timer = Some(
                    Timer { kind: timer.kind, deadline: timer.deadline, active: false },
                );
                return Some(timer.kind);
            }
        }
        None
    }
}

/// A timer runs out no earlier than after its time, and from then on until it is stopped.
pub proof fn law_timer_runs_its_time(kind: TimerKind, set_at: u64, seconds: u64, now: u64)
    ensures
        due(Some(started(kind, set_at, seconds)), now) <==> now >= set_at + seconds * NANOS_PER_SEC,
{
}

/// A timer that was cancelled, or has run out once, never runs out.
pub proof fn law_stopped_timer_is_silent(timer: Option<Timer>, now: u64)
    ensures
        !due(stopped(timer), now),
{
}

/// A timer that is started is active, of the kind asked for, and due as many thousand million
/// nanoseconds later as seconds were asked for. One that is stopped differs in nothing but that it
/// is not active. An active timer, whatever its deadline, is due from that deadline on.
pub proof fn law_timer_parts(kind: TimerKind, set_at: u64, seconds: u64, timer: Timer, now: u64)
    ensures
        started(kind, set_at, seconds).kind == kind,
        started(kind, set_at, seconds).active,
        started(kind, set_at, seconds).deadline == set_at + seconds * 1_000_000_000,
        stopped(None) is None,
        stopped(Some(timer)) == Some(
            Timer { kind: timer.kind, deadline: timer.deadline, active: false },
        ),
        !due(None, now),
        due(Some(timer), now) <==> timer.active && timer.deadline <= now,
{
}

} // verus!
