//! Utility helpers shared by client and server.

use rand::RngCore;
use vstd::arithmetic::div_mod::lemma_fundamental_div_mod;
use vstd::prelude::*;

verus! {

/// Nanoseconds in a second.
pub const NANOS_PER_SEC: u64 = 1_000_000_000;

/// `SystemTime::elapsed` of the Unix epoch tells how long ago the epoch was, in whole seconds and
/// the nanoseconds past them, fewer than make a second. It fails if the system clock stands before
/// the epoch. Nothing is said of how the time relates to that of another call.
#[verifier::external_body]
fn since_unix_epoch() -> (since: Option<(u64, u32)>)
    ensures
        since matches Some((_, nanos)) ==> nanos < 1_000_000_000,
{
    match std::time::SystemTime::UNIX_EPOCH.elapsed() {
        Ok(since) => Some((since.as_secs(), since.subsec_nanos())),
        Err(_) => None,
    }
}

/// A time since the Unix epoch in nanoseconds, modulo 2^64; a time before the epoch counts as 0.
pub open spec fn nanos_of(since: Option<(u64, u32)>) -> u64 {
    match since {
        Some((secs, nanos)) => ((secs * NANOS_PER_SEC + nanos) % 0x1_0000_0000_0000_0000) as u64,
        None => 0,
    }
}

/// A time since the Unix epoch, in seconds and nanoseconds, as a number of nanoseconds. It wraps
/// around past the largest `u64`, which is reached in the year 2554.
pub fn unix_nanos(since: Option<(u64, u32)>) -> (time: u64)
    ensures
        time == nanos_of(since),
{
    match since {
        Some((secs, nanos)) => secs.wrapping_mul(NANOS_PER_SEC).wrapping_add(nanos as u64),
        None => 0,
    }
}

/// Unix time in nanoseconds since epoch as u64.
/// Uses standard library's time facilities; intended for timestamping messages.
pub fn now_unix_nanos() -> (time: u64)
    ensures
        exists|since: Option<(u64, u32)>|
            #![trigger nanos_of(since)]
            {
                &&& time == nanos_of(since)
                &&& since matches Some((_, nanos)) ==> nanos < NANOS_PER_SEC
            },
{
    unix_nanos(since_unix_epoch())
}

/// `rand::rng` gives the generator of the calling thread, seeded by the system, and `next_u32` its
/// next number. Nothing is said of that number. A use that seeds the generator, the first on a
/// thread or a later one that is due for a new seed, panics if the system has no randomness to give.
#[verifier::external_body]
fn random_u32() -> (number: u32) {
    rand::rng().next_u32()
}

/// Generate a random 32-bit session ID.
pub fn random_session_id() -> (id: u32) {
    random_u32()
}

/// The number that follows `n`. Past the largest `u32` the count starts again at 0.
pub open spec fn successor(n: u32) -> u32 {
    if n == u32::MAX {
        0
    } else {
        (n + 1) as u32
    }
}

/// A simple counter for sequence numbers.
/// Threads that share one counter keep it behind a lock.
#[derive(Debug)]
pub struct SeqCounter(u32);

impl View for SeqCounter {
    type V = u32;

    /// The number that `next` gives out next.
    closed spec fn view(&self) -> u32 {
        self.0
    }
}

impl Default for SeqCounter {
    fn default() -> (counter: Self)
        ensures
            counter@ == 0,
    {
        SeqCounter(0)
    }
}

impl SeqCounter {
    /// Create a counter at 0.
    pub fn new() -> (counter: Self)
        ensures
            counter@ == 0,
    {
        SeqCounter(0)
    }

    /// Get current value.
    pub fn get(&self) -> (value: u32)
        ensures
            value == self@,
    {
        self.0
    }

    /// Post-increment: returns previous value, then increments.
    pub fn next(&mut self) -> (value: u32)
        ensures
            value == old(self)@,
            final(self)@ == successor(value),
            final(self)@ == (value + 1) % 0x1_0000_0000,
    {
        let value: u32 = self.0;
        self.0 = value.wrapping_add(1);
        value
    }

    /// Reset to 0.
    pub fn reset(&mut self)
        ensures
            final(self)@ == 0,
    {
        self.0 = 0;
    }
}

/// The number that a counter at `start` gives out after `n` others.
pub open spec fn nth_number(start: u32, n: nat) -> u32
    decreases n,
{
    if n == 0 {
        start
    } else {
        successor(nth_number(start, (n - 1) as nat))
    }
}

/// Numbers given out one after the other are consecutive, and no number comes twice before 2^32
/// others have been given out.
pub proof fn law_numbers_are_distinct(start: u32, m: nat, n: nat)
    requires
        m < n < m + 0x1_0000_0000,
    ensures
        nth_number(start, n) as nat == (start + n) % 0x1_0000_0000,
        nth_number(start, m) != nth_number(start, n),
{
    lemma_nth_number(start, m);
    lemma_nth_number(start, n);
}

/// The numbers count up from the start, modulo 2^32.
proof fn lemma_nth_number(start: u32, n: nat)
    ensures
        nth_number(start, n) as nat == (start + n) % 0x1_0000_0000,
    decreases n,
{
    if n > 0 {
        lemma_nth_number(start, (n - 1) as nat);
    }
}

/// Numbers count up by one, and from 2^32 - 1 to 0.
pub proof fn law_numbers_count(n: u32)
    ensures
        n < 0xFFFF_FFFF ==> successor(n) == n + 1,
        n == 0xFFFF_FFFF ==> successor(n) == 0,
{
}

/// A second is a thousand million nanoseconds: as long as the result fits 64 bits it is the time in
/// nanoseconds, and past that it is short of it by a multiple of 2^64. A time before the epoch
/// counts as 0.
pub proof fn law_nanoseconds(secs: u64, nanos: u32)
    ensures
        nanos_of(None) == 0,
        secs * 1_000_000_000 + nanos <= u64::MAX ==> nanos_of(Some((secs, nanos))) == secs
            * 1_000_000_000 + nanos,
        (secs * 1_000_000_000 + nanos - nanos_of(Some((secs, nanos)))) % 0x1_0000_0000_0000_0000
            == 0,
{
    lemma_fundamental_div_mod(secs * 1_000_000_000 + nanos, 0x1_0000_0000_0000_0000);
}

} // verus!
