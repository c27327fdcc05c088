//! Lamport logical clock for distributed events.

use vstd::prelude::*;

verus! {

/// The logical time that follows `t`. Past the largest `u64` the count starts again at 0.
pub open spec fn after(t: u64) -> u64 {
    if t == u64::MAX {
        0
    } else {
        (t + 1) as u64
    }
}

/// The later of two logical times.
pub open spec fn later(a: u64, b: u64) -> u64 {
    if a < b {
        b
    } else {
        a
    }
}

/// A Lamport clock.
/// Use `tick()` for local events, `send_event()` before sending, and `recv_event()` on receive.
/// Threads that share one clock keep it behind a lock.
#[derive(Debug)]
pub struct LamportClock(u64);

impl View for LamportClock {
    type V = u64;

    /// The current logical time.
    closed spec fn view(&self) -> u64 {
        self.0
    }
}

impl Default for LamportClock {
    fn default() -> (clock: Self)
        ensures
            clock@ == 0,
    {
        LamportClock(0)
    }
}

impl LamportClock {
    /// Create a clock starting at 0.
    pub fn new() -> (clock: Self)
        ensures
            clock@ == 0,
    {
        LamportClock(0)
    }

    /// Read the current logical time.
    pub fn now(&self) -> (time: u64)
        ensures
            time == self@,
    {
        self.0
    }

    /// Increment for a local event and return the new value.
    pub fn tick(&mut self) -> (time: u64)
        ensures
            time == after(old(self)@),
            final(self)@ == time,
    {
        self.0 = self.0.wrapping_add(1);
        self.0
    }

    /// Called immediately before sending a message. Increments and returns timestamp to embed.
    pub fn send_event(&mut self) -> (time: u64)
        ensures
            time == after(old(self)@),
            final(self)@ == time,
    {
        self.tick()
    }

    /// Called on receive with the sender's logical time; applies max rule and increments.
    pub fn recv_event(&mut self, remote_time: u64) -> (time: u64)
        ensures
            time == after(later(old(self)@, remote_time)),
            final(self)@ == time,
    {
        // Update to max(local, remote)
        if self.0 < remote_time {
            self.0 = remote_time;
        }
        // Then increment for the receive event itself
        self.tick()
    }
}

/// Every event moves the clock forward, and a receive event moves it past the time of the message.
pub proof fn law_events_advance(local: u64, remote: u64)
    requires
        local < u64::MAX,
        remote < u64::MAX,
    ensures
        after(local) > local,
        after(later(local, remote)) > local,
        after(later(local, remote)) > remote,
{
}

/// What a process sends right after it has received a message bears a later time than that message.
pub proof fn law_messages_are_ordered(local: u64, remote: u64)
    requires
        local < u64::MAX - 1,
        remote < u64::MAX - 1,
    ensures
        after(after(later(local, remote))) > remote,
        after(after(later(local, remote))) > local,
{
}

/// A larger time read, here or in a message, never gives a smaller time.
pub proof fn law_receive_is_monotone(local_a: u64, local_b: u64, remote_a: u64, remote_b: u64)
    requires
        local_a <= local_b < u64::MAX,
        remote_a <= remote_b < u64::MAX,
    ensures
        after(later(local_a, remote_a)) <= after(later(local_b, remote_b)),
{
}

/// What happens to a clock.
pub enum ClockEvent {
    /// A local event, or a message that is sent.
    Tick,
    /// A message that bears this logical time is received.
    Receive(u64),
}

/// The time that a clock at `time` counts on from when the event happens.
pub open spec fn base(time: u64, event: ClockEvent) -> u64 {
    match event {
        ClockEvent::Tick => time,
        ClockEvent::Receive(remote) => later(time, remote),
    }
}

/// The time of a clock that started at `start`, once the events have happened in order.
pub open spec fn time_after(start: u64, events: Seq<ClockEvent>) -> u64
    decreases events.len(),
{
    if events.len() == 0 {
        start
    } else {
        after(base(time_after(start, events.drop_last()), events.last()))
    }
}

/// Whether none of the events makes the clock start again at 0.
pub open spec fn never_wraps(start: u64, events: Seq<ClockEvent>) -> bool
    decreases events.len(),
{
    events.len() == 0 || {
        &&& never_wraps(start, events.drop_last())
        &&& base(time_after(start, events.drop_last()), events.last()) < u64::MAX
    }
}

/// Over a whole history of events, however local events, messages sent and messages received are
/// mixed, the time after any event is later than the time before it, than all times before that, and
/// than the time of every message received so far.
pub proof fn law_history_grows(start: u64, events: Seq<ClockEvent>, i: int, j: int)
    requires
        never_wraps(start, events),
        0 <= i < j <= events.len(),
    ensures
        time_after(start, events.take(i)) < time_after(start, events.take(j)),
        events[i] matches ClockEvent::Receive(remote) ==> remote < time_after(
            start,
            events.take(j),
        ),
    decreases events.len(),
{
    let init = events.drop_last();
    if j < events.len() {
        law_history_grows(start, init, i, j);
        assert(init.take(i) =~= events.take(i));
        assert(init.take(j) =~= events.take(j));
    } else {
        assert(events.take(j) =~= events);
        if i < events.len() - 1 {
            law_history_grows(start, init, i, j - 1);
            assert(init.take(i) =~= events.take(i));
            assert(init.take(j - 1) =~= init);
        } else {
            assert(events.take(i) =~= init);
        }
    }
}

/// One step along a chain of messages: a process whose clock stands at `local` receives a message,
/// goes through the events `between`, and then sends the next message.
pub struct Link {
    pub local: u64,
    pub between: Seq<ClockEvent>,
}

impl Link {
    /// What happens to the clock of the process, from the receipt of a message with this logical
    /// time to the sending of the next.
    pub open spec fn events(self, message: u64) -> Seq<ClockEvent> {
        (seq![ClockEvent::Receive(message)] + self.between).push(ClockEvent::Tick)
    }

    /// The logical time of the next message.
    pub open spec fn next(self, message: u64) -> u64 {
        time_after(self.local, self.events(message))
    }
}

/// The logical time of the last message of a chain that starts with a message of this logical time.
pub open spec fn chain_end(message: u64, links: Seq<Link>) -> u64
    decreases links.len(),
{
    if links.len() == 0 {
        message
    } else {
        links.last().next(chain_end(message, links.drop_last()))
    }
}

/// Whether no clock starts again at 0 along the chain.
pub open spec fn chain_never_wraps(message: u64, links: Seq<Link>) -> bool
    decreases links.len(),
{
    links.len() == 0 || {
        let last = links.last();
        &&& chain_never_wraps(message, links.drop_last())
        &&& never_wraps(last.local, last.events(chain_end(message, links.drop_last())))
    }
}

/// Logical time grows along every chain of messages, each sent by a process that has received the
/// one before, through whatever processes and events it runs: a later message of the chain bears a
/// later time.
pub proof fn law_chains_grow(message: u64, links: Seq<Link>, i: int, j: int)
    requires
        chain_never_wraps(message, links),
        0 <= i < j <= links.len(),
    ensures
        chain_end(message, links.take(i)) < chain_end(message, links.take(j)),
    decreases links.len(),
{
    let init = links.drop_last();
    if j < links.len() {
        law_chains_grow(message, init, i, j);
        assert(init.take(i) =~= links.take(i));
        assert(init.take(j) =~= links.take(j));
    } else {
        assert(links.take(j) =~= links);
        let last = links.last();
        let events = last.events(chain_end(message, init));
        law_history_grows(last.local, events, 0, events.len() as int);
        assert(events.take(events.len() as int) =~= events);
        if i < links.len() - 1 {
            law_chains_grow(message, init, i, j - 1);
            assert(init.take(i) =~= links.take(i));
            assert(init.take(j - 1) =~= init);
        } else {
            assert(links.take(i) =~= init);
        }
    }
}

/// An event does to a clock what the operation for it does: `tick` and `send_event` for a
/// [`ClockEvent::Tick`], `recv_event` for a [`ClockEvent::Receive`].
pub proof fn law_events_are_operations(start: u64, events: Seq<ClockEvent>, remote: u64)
    ensures
        time_after(start, events.push(ClockEvent::Tick)) == after(time_after(start, events)),
        time_after(start, events.push(ClockEvent::Receive(remote))) == after(
            later(time_after(start, events), remote),
        ),
{
    assert(events.push(ClockEvent::Tick).drop_last() =~= events);
    assert(events.push(ClockEvent::Receive(remote)).drop_last() =~= events);
}

/// Time counts up by one, and from 2^64 - 1 to 0. The later of two times is one of them and not
/// before either.
pub proof fn law_time_counts(t: u64, a: u64, b: u64)
    ensures
        t < 0xFFFF_FFFF_FFFF_FFFF ==> after(t) == t + 1,
        t == 0xFFFF_FFFF_FFFF_FFFF ==> after(t) == 0,
        later(a, b) >= a,
        later(a, b) >= b,
        later(a, b) == a || later(a, b) == b,
{
}

} // verus!
