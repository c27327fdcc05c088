//! One-way latency of incoming messages.

use crate::text::{decimal, decimal_text};
use vstd::arithmetic::div_mod::{
    lemma_div_by_multiple, lemma_div_is_ordered, lemma_fundamental_div_mod, lemma_mod_bound,
};
use vstd::prelude::*;
use vstd::string::StringExecFns;

verus! {

/// The latencies of the messages so far: their sum in nanoseconds, and how many they are.
#[derive(Debug)]
pub struct Latency {
    sum: u128,
    count: u64,
}

/// Latencies as a value.
pub struct LatencyView {
    pub sum: nat,
    pub count: nat,
}

impl LatencyView {
    /// No latency.
    pub open spec fn none() -> LatencyView {
        LatencyView { sum: 0, count: 0 }
    }

    /// Whether this is a sum of that many 64-bit numbers.
    pub open spec fn bounded(self) -> bool {
        self.sum <= self.count * u64::MAX
    }

    /// With the latency of one message more. A message that was sent in the future, as clocks
    /// differ, has none.
    pub open spec fn recorded(self, sent: u64, received: u64) -> LatencyView {
        if sent <= received {
            LatencyView {
                sum: self.sum + (received - sent) as nat,
                count: self.count + 1,
            }
        } else {
            self
        }
    }

    /// The mean, rounded down, if there is anything to take it of.
    pub open spec fn average(self) -> Option<nat> {
        if self.count > 0 {
            Some(self.sum / self.count)
        } else {
            None
        }
    }

    /// The line on the mean.
    pub open spec fn line(self) -> Option<Seq<char>> {
        match self.average() {
            Some(average) => Some(
                "average one-way latency: "@ + decimal(average) + " ns over "@ + decimal(
                    self.count,
                ) + " msgs"@,
            ),
            None => None,
        }
    }
}

impl View for Latency {
    type V = LatencyView;

    closed spec fn view(&self) -> LatencyView {
        LatencyView { sum: self.sum as nat, count: self.count as nat }
    }
}

impl Latency {
    /// The sum is one of that many 64-bit numbers.
    #[verifier::type_invariant]
    spec fn well_formed(self) -> bool {
        self@.bounded()
    }

    /// No latency.
    pub fn new() -> (latency: Self)
        ensures
            latency@ == LatencyView::none(),
    {
        Latency { sum: 0, count: 0 }
    }

    /// Take in the latency of a message by the times at which it was sent and received.
    pub fn record(&mut self, sent: u64, received: u64)
        requires
            sent <= received ==> old(self)@.count < u64::MAX,
        ensures
            final(self)@ == old(self)@.recorded(sent, received),
            sent <= received ==> final(self)@.count == old(self)@.count + 1,
            sent <= received ==> final(self)@.sum == old(self)@.sum + received - sent,
            sent > received ==> final(self)@ == old(self)@,
    {
        if sent <= received {
            proof {
                use_type_invariant(&*self);
                let (count, max) = (self.count as int, u64::MAX as int);
                assert(count * max + max <= u128::MAX) by (nonlinear_arith)
                    requires
                        0 <= count < max,
                        max == 0xFFFF_FFFF_FFFF_FFFF,
                ;
            }
            self.count = self.count + 1;
            self.sum = self.sum + (received - sent) as u128;
        }
    }

    /// How many latencies were taken in.
    pub fn count(&self) -> (count: u64)
        ensures
            count == self@.count,
    {
        self.count
    }

    /// The mean in nanoseconds, rounded down, if there is anything to take it of.
    pub fn average(&self) -> (average: Option<u64>)
        ensures
            match average {
                Some(a) => self@.average() == Some(a as nat),
                None => self@.average() is None,
            },
    {
        if self.count > 0 {
            proof {
                use_type_invariant(self);
                law_average_is_a_latency(self@);
            }
            Some((self.sum / self.count as u128) as u64)
        } else {
            None
        }
    }

    /// The line on the mean, if there is anything to take it of.
    pub fn summary(&self) -> (line: Option<String>)
        ensures
            match line {
                Some(l) => self@.line() == Some(l@),
                None => self@.line() is None,
            },
    {
        match self.average() {
            Some(average) => Some(
                "average one-way latency: ".to_owned().concat(
                    decimal_text(average).as_str(),
                ).concat(" ns over ").concat(decimal_text(self.count).as_str()).concat(" msgs"),
            ),
            None => None,
        }
    }
}

/// The mean is a number of nanoseconds like the latencies that it is taken of: it fits 64 bits.
pub proof fn law_average_is_a_latency(latency: LatencyView)
    requires
        latency.bounded(),
    ensures
        latency.average() matches Some(average) ==> average <= u64::MAX,
{
    if latency.count > 0 {
        let count = latency.count as int;
        let max = u64::MAX as int;
        lemma_div_is_ordered(latency.sum as int, max * count, count);
        lemma_div_by_multiple(max, count);
        assert(latency.count * u64::MAX == max * count) by (nonlinear_arith)
            requires
                count == latency.count,
                max == u64::MAX,
        ;
    }
}

/// However many messages come, what is recorded stays a sum of that many 64-bit numbers.
pub proof fn law_records_stay_bounded(latency: LatencyView, sent: u64, received: u64)
    requires
        latency.bounded(),
    ensures
        LatencyView::none().bounded(),
        latency.recorded(sent, received).bounded(),
{
}

/// What is recorded of messages with these times of sending and receipt.
pub open spec fn recorded_all(times: Seq<(u64, u64)>) -> LatencyView
    decreases times.len(),
{
    if times.len() == 0 {
        LatencyView::none()
    } else {
        recorded_all(times.drop_last()).recorded(times.last().0, times.last().1)
    }
}

/// Whether the latencies among these times, if any, lie between two bounds.
pub open spec fn all_within(times: Seq<(u64, u64)>, low: nat, high: nat) -> bool {
    forall|i: int|
        #![trigger times[i]]
        0 <= i < times.len() && times[i].0 <= times[i].1 ==> low <= times[i].1 - times[i].0 <= high
}

/// The mean lies between any bounds that all latencies lie between.
pub proof fn law_average_is_between(times: Seq<(u64, u64)>, low: nat, high: nat)
    requires
        all_within(times, low, high),
    ensures
        recorded_all(times).average() matches Some(average) ==> low <= average <= high,
{
    let latency = recorded_all(times);
    lemma_sum_is_between(times, low, high);
    if latency.count > 0 {
        let count = latency.count as int;
        lemma_div_is_ordered(low * count, latency.sum as int, count);
        lemma_div_is_ordered(latency.sum as int, high * count, count);
        lemma_div_by_multiple(low as int, count);
        lemma_div_by_multiple(high as int, count);
    }
}

proof fn lemma_sum_is_between(times: Seq<(u64, u64)>, low: nat, high: nat)
    requires
        all_within(times, low, high),
    ensures
        low * recorded_all(times).count <= recorded_all(times).sum <= high * recorded_all(
            times,
        ).count,
    decreases times.len(),
{
    if times.len() > 0 {
        let before = recorded_all(times.drop_last());
        let last = times.last();
        assert(all_within(times.drop_last(), low, high)) by {
            assert(forall|i: int|
                0 <= i < times.drop_last().len() ==> times.drop_last()[i] == times[i]);
        }
        lemma_sum_is_between(times.drop_last(), low, high);
        assert(times[times.len() - 1] == last);
        assert(low * (before.count + 1) == low * before.count + low) by (nonlinear_arith);
        assert(high * (before.count + 1) == high * before.count + high) by (nonlinear_arith);
    }
}

/// A message that was sent no later than it was received raises the count by one and the sum by the
/// time between; any other changes nothing. At first there is nothing.
pub proof fn law_record_counts(latency: LatencyView, sent: u64, received: u64)
    ensures
        sent <= received ==> latency.recorded(sent, received).count == latency.count + 1,
        sent <= received ==> latency.recorded(sent, received).sum == latency.sum + received - sent,
        sent > received ==> latency.recorded(sent, received) == latency,
        LatencyView::none().count == 0,
        LatencyView::none().sum == 0,
{
}

/// The sum of the times between sending and receipt.
pub open spec fn total(times: Seq<(u64, u64)>) -> int
    decreases times.len(),
{
    if times.len() == 0 {
        0
    } else {
        total(times.drop_last()) + times.last().1 - times.last().0
    }
}

/// After any sequence of messages the count is the number of those that were sent no later than
/// they were received, and the sum is the sum of their latencies.
pub proof fn law_records_are_complete(times: Seq<(u64, u64)>)
    ensures
        ({
            let measured = times.filter(|t: (u64, u64)| t.0 <= t.1);
            &&& recorded_all(times).count == measured.len()
            &&& recorded_all(times).sum == total(measured)
        }),
    decreases times.len(),
{
    reveal(Seq::filter);
    if times.len() > 0 {
        let before = times.drop_last().filter(|t: (u64, u64)| t.0 <= t.1);
        law_records_are_complete(times.drop_last());
        if times.last().0 <= times.last().1 {
            assert(before.push(times.last()).drop_last() =~= before);
        }
    }
}

/// The mean is the count's share of the sum, rounded down: there is one if and only if something was
/// measured, that many times the mean is at most the sum, and the mean could not be one more.
pub proof fn law_average_is_the_mean(latency: LatencyView)
    ensures
        latency.average() is Some <==> latency.count > 0,
        latency.average() matches Some(a) ==> a * latency.count <= latency.sum < (a + 1)
            * latency.count,
{
    if latency.count > 0 {
        let (sum, count) = (latency.sum as int, latency.count as int);
        lemma_fundamental_div_mod(sum, count);
        lemma_mod_bound(sum, count);
        let a = sum / count;
        assert(count * a == a * count) by (nonlinear_arith);
        assert((a + 1) * count == a * count + count) by (nonlinear_arith);
    }
}

/// The line at the end tells the mean and the count, in decimal; where nothing was measured there is
/// none.
pub proof fn law_latency_line(latency: LatencyView)
    ensures
        match latency.average() {
            Some(a) => latency.line() == Some(
                "average one-way latency: "@ + decimal(a) + " ns over "@ + decimal(latency.count)
                    + " msgs"@,
            ),
            None => latency.line() is None,
        },
{
}

} // verus!
