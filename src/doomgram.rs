//! `DoomGram`: a decimal order-of-magnitude frequency histogram of event
//! durations, with a running total that sticks once it overflows.

use vstd::prelude::*;

use std::time::Duration;

use crate::text::push_char;
use crate::gram_utils::{
    calc_doom, decimal_digits, gram_doom_to_char, lemma_digit_count_law, lemma_pow10_table, pow10,
};

verus! {

/// Number of decade buckets.
pub const NUM_BUCKETS: usize = 12;

/// Lower bound, in nanoseconds, of bucket `i`: bucket 0 starts at 1ns and
/// each further bucket starts ten times higher.
pub open spec fn bucket_floor(i: int) -> nat {
    pow10(i as nat)
}

/// Whether a duration of `ns` nanoseconds belongs to bucket `i`. Each bucket
/// is closed below and open above, but the last, which has no upper bound.
pub open spec fn in_bucket(ns: nat, i: int) -> bool {
    &&& 0 <= i < 12
    &&& bucket_floor(i) <= ns
    &&& (i == 11 || ns < bucket_floor(i + 1))
}

/// The character that shows a bucket with a count of `digits` decimal
/// digits: `_` for an empty bucket, `a` to `z` for one to twenty-six
/// digits, `*` beyond.
pub open spec fn strip_char(digits: nat) -> char {
    if digits == 0 {
        '_'
    } else if digits <= 26 {
        seq![
            'a', 'b', 'c', 'd', 'e', 'f', 'g', 'h', 'i', 'j', 'k', 'l', 'm',
            'n', 'o', 'p', 'q', 'r', 's', 't', 'u', 'v', 'w', 'x', 'y', 'z',
        ][digits - 1]
    } else {
        '*'
    }
}

/// The abstract state of a histogram.
pub struct HistogramModel {
    /// Events taken in.
    pub event_count: nat,
    /// Sum of the durations taken in, in nanoseconds.
    pub event_time_total: u64,
    /// Set once a duration could not be added to the total.
    pub has_overflowed: bool,
    /// Shortest duration taken in.
    pub min_event_time: Option<u64>,
    /// Longest duration taken in.
    pub max_event_time: Option<u64>,
    /// Events per decade bucket, shortest bucket first.
    pub bucket_counts: Seq<nat>,
}

impl HistogramModel {
    /// A histogram that has seen nothing.
    pub open spec fn fresh() -> HistogramModel {
        HistogramModel {
            event_count: 0,
            event_time_total: 0,
            has_overflowed: false,
            min_event_time: None,
            max_event_time: None,
            bucket_counts: Seq::new(12, |i: int| 0nat),
        }
    }

    /// Sum of all bucket counts.
    pub open spec fn bucket_sum(self) -> nat {
        let b = self.bucket_counts;
        b[0] + b[1] + b[2] + b[3] + b[4] + b[5] + b[6] + b[7] + b[8] + b[9] + b[10] + b[11]
    }

    /// The consistency that every reachable state has.
    pub open spec fn wf(self) -> bool {
        &&& self.bucket_counts.len() == 12
        &&& (self.event_count > 0) == self.min_event_time.is_some()
        &&& (self.event_count > 0) == self.max_event_time.is_some()
        &&& (self.event_count > 0 ==> self.min_event_time.unwrap() <= self.max_event_time.unwrap())
        &&& self.bucket_sum() <= self.event_count
    }

    /// Whether a duration of `ns` nanoseconds is taken in: the total has not
    /// overflowed and has room for it.
    pub open spec fn accepts(self, ns: nat) -> bool {
        !self.has_overflowed && self.event_time_total + ns <= u64::MAX
    }

    /// Whether the event counter can grow, should an event be taken in.
    pub open spec fn has_room(self) -> bool {
        self.has_overflowed || self.event_count < usize::MAX
    }

    /// The state after an event of `ns` nanoseconds. A duration that the
    /// total cannot take sets the overflow flag and changes nothing else;
    /// once the flag is set, events change nothing.
    pub open spec fn push(self, ns: nat) -> HistogramModel {
        if self.has_overflowed {
            self
        } else if !self.accepts(ns) {
            HistogramModel { has_overflowed: true, ..self }
        } else {
            HistogramModel {
                event_count: self.event_count + 1,
                event_time_total: (self.event_time_total + ns) as u64,
                has_overflowed: false,
                min_event_time: Some(
                    match self.min_event_time {
                        Some(m) if m <= ns => m,
                        _ => ns as u64,
                    },
                ),
                max_event_time: Some(
                    match self.max_event_time {
                        Some(m) if m >= ns => m,
                        _ => ns as u64,
                    },
                ),
                bucket_counts: Seq::new(
                    12,
                    |i: int| self.bucket_counts[i] + if in_bucket(ns, i) { 1nat } else { 0nat },
                ),
            }
        }
    }

    /// The state after events of `events` nanoseconds, in order.
    pub open spec fn push_all(self, events: Seq<nat>) -> HistogramModel
        decreases events.len(),
    {
        if events.len() == 0 {
            self
        } else {
            self.push(events[0]).push_all(events.drop_first())
        }
    }

    /// The total as reported: absent once overflow has occurred.
    pub open spec fn reported_total(self) -> Option<u64> {
        if self.has_overflowed {
            None
        } else {
            Some(self.event_time_total)
        }
    }

    /// The twelve-character strip: one character per bucket, shortest
    /// bucket first, showing how many digits its count has.
    pub open spec fn strip(self) -> Seq<char> {
        Seq::new(12, |i: int| strip_char(decimal_digits(self.bucket_counts[i])))
    }
}

/// Decimal Order-Of-Magnitude frequency histoGRAM.
///
/// Takes in event durations, keeps their count, total, shortest and
/// longest, and counts them in twelve decade buckets from 1ns up to 100s
/// and beyond.
#[derive(Debug)]
pub struct DoomGram {
    event_count: usize,
    event_time_total: u64,
    has_overflowed: bool,
    min_event_time: Option<u64>,
    max_event_time: Option<u64>,
    num_events_in_1ns: u64,
    num_events_in_10ns: u64,
    num_events_in_100ns: u64,
    num_events_in_1us: u64,
    num_events_in_10us: u64,
    num_events_in_100us: u64,
    num_events_in_1ms: u64,
    num_events_in_10ms: u64,
    num_events_in_100ms: u64,
    num_events_in_1s: u64,
    num_events_in_10s: u64,
    num_events_ge_100s: u64,
}

impl View for DoomGram {
    type V = HistogramModel;

    closed spec fn view(&self) -> HistogramModel {
        HistogramModel {
            event_count: self.event_count as nat,
            event_time_total: self.event_time_total,
            has_overflowed: self.has_overflowed,
            min_event_time: self.min_event_time,
            max_event_time: self.max_event_time,
            bucket_counts: seq![
                self.num_events_in_1ns as nat,
                self.num_events_in_10ns as nat,
                self.num_events_in_100ns as nat,
                self.num_events_in_1us as nat,
                self.num_events_in_10us as nat,
                self.num_events_in_100us as nat,
                self.num_events_in_1ms as nat,
                self.num_events_in_10ms as nat,
                self.num_events_in_100ms as nat,
                self.num_events_in_1s as nat,
                self.num_events_in_10s as nat,
                self.num_events_ge_100s as nat,
            ],
        }
    }
}

impl Default for DoomGram {
    fn default() -> (r: Self)
        ensures
            r@ == HistogramModel::fresh(),
    {
        let r = DoomGram {
            event_count: 0,
            event_time_total: 0,
            has_overflowed: false,
            min_event_time: None,
            max_event_time: None,
            num_events_in_1ns: 0,
            num_events_in_10ns: 0,
            num_events_in_100ns: 0,
            num_events_in_1us: 0,
            num_events_in_10us: 0,
            num_events_in_100us: 0,
            num_events_in_1ms: 0,
            num_events_in_10ms: 0,
            num_events_in_100ms: 0,
            num_events_in_1s: 0,
            num_events_in_10s: 0,
            num_events_ge_100s: 0,
        };
        assert(r@.bucket_counts =~= HistogramModel::fresh().bucket_counts);
        r
    }
}

/// The whole number of nanoseconds in a duration.
pub uninterp spec fn duration_nanos(d: Duration) -> u128;

/// Relies on `Duration::as_nanos`: the whole nanoseconds that `d` holds.
#[verifier::external_body]
fn nanos_of(d: Duration) -> (r: u128)
    ensures
        r == duration_nanos(d),
{
    d.as_nanos()
}

/// `10^a <= 10^b` whenever `a <= b`.
proof fn lemma_pow10_monotonic(a: nat, b: nat)
    requires
        a <= b,
    ensures
        pow10(a) <= pow10(b),
    decreases b - a,
{
    if a < b {
        lemma_pow10_monotonic(a, (b - 1) as nat);
        assert(pow10(b) == 10 * pow10((b - 1) as nat));
    }
}

/// A duration that meets the bounds of bucket `k` belongs to that bucket
/// alone.
proof fn lemma_only_bucket(ns: nat, k: int)
    requires
        0 <= k < 12,
        in_bucket(ns, k),
    ensures
        forall|i: int| #[trigger] in_bucket(ns, i) <==> i == k,
{
    assert forall|i: int| #[trigger] in_bucket(ns, i) implies i == k by {
        if i < k {
            lemma_pow10_monotonic((i + 1) as nat, k as nat);
        } else if i > k {
            lemma_pow10_monotonic((k + 1) as nat, i as nat);
        }
    }
}

/// The buckets cover every positive duration, once each, and do not cover
/// zero; `k` is the bucket of `ns`.
pub proof fn lemma_bucket_of(ns: nat) -> (k: int)
    ensures
        ns == 0 ==> forall|i: int| !#[trigger] in_bucket(ns, i),
        ns > 0 ==> 0 <= k < 12 && forall|i: int| #[trigger] in_bucket(ns, i) <==> i == k,
{
    if ns == 0 {
        assert forall|i: int| !#[trigger] in_bucket(ns, i) by {
            if 0 <= i < 12 {
                lemma_pow10_monotonic(0, i as nat);
            }
        }
        reveal_with_fuel(pow10, 1);
        0
    } else {
        lemma_digit_count_law(ns);
        let d = decimal_digits(ns);
        let k: int = if d > 12 { 11 } else { d - 1 };
        lemma_pow10_monotonic((k + 1) as nat, d);
        lemma_pow10_monotonic(k as nat, (d - 1) as nat);
        lemma_only_bucket(ns, k);
        k
    }
}

/// Every event keeps a histogram consistent.
pub proof fn lemma_push_keeps_wf(m: HistogramModel, ns: nat)
    requires
        m.wf(),
    ensures
        m.push(ns).wf(),
        m.accepts(ns) ==> m.push(ns).bucket_sum() == m.bucket_sum() + if ns > 0 { 1nat } else { 0nat },
{
    let k = lemma_bucket_of(ns);
}

/// Every sequence of events keeps a histogram consistent.
pub proof fn lemma_push_all_keeps_wf(m: HistogramModel, events: Seq<nat>)
    requires
        m.wf(),
    ensures
        m.push_all(events).wf(),
    decreases events.len(),
{
    if events.len() > 0 {
        lemma_push_keeps_wf(m, events[0]);
        lemma_push_all_keeps_wf(m.push(events[0]), events.drop_first());
    }
}

/// A new histogram has counted nothing: no events, a total of zero that has
/// not overflowed, no shortest or longest time, empty buckets, and a strip
/// of twelve underscores.
pub proof fn lemma_fresh_reads_zero()
    ensures
        HistogramModel::fresh().wf(),
        HistogramModel::fresh().event_count == 0,
        HistogramModel::fresh().reported_total() == Some(0u64),
        HistogramModel::fresh().event_time_total == 0,
        !HistogramModel::fresh().has_overflowed,
        HistogramModel::fresh().min_event_time is None,
        HistogramModel::fresh().max_event_time is None,
        forall|i: int| 0 <= i < 12 ==> HistogramModel::fresh().bucket_counts[i] == 0,
        HistogramModel::fresh().strip() == Seq::new(12, |i: int| '_'),
{
    let m = HistogramModel::fresh();
    assert(decimal_digits(0) == 0);
    assert(m.strip() =~= Seq::new(12, |i: int| '_'));
}

/// Overflow is sticky. The first event that the total cannot take is
/// refused and sets the flag; the reported total is gone while the raw
/// total keeps its last value, and nothing else changes. After that, every
/// sequence of events is refused and leaves the state as it is.
pub proof fn lemma_overflow_is_sticky(m: HistogramModel, ns: nat, later: Seq<nat>)
    requires
        !m.has_overflowed,
        m.event_time_total + ns > u64::MAX,
    ensures
        !m.accepts(ns),
        m.push(ns).has_overflowed,
        m.push(ns).reported_total() is None,
        m.push(ns) == (HistogramModel { has_overflowed: true, ..m }),
        forall|k: nat| !m.push(ns).accepts(k),
        m.push(ns).push_all(later) == m.push(ns),
    decreases later.len(),
{
    if later.len() > 0 {
        let o = m.push(ns);
        assert(o.push(later[0]) == o);
        lemma_frozen_after_overflow(o, later.drop_first());
    }
}

/// A histogram that has overflowed ignores every sequence of events.
pub proof fn lemma_frozen_after_overflow(m: HistogramModel, events: Seq<nat>)
    requires
        m.has_overflowed,
    ensures
        m.push_all(events) == m,
    decreases events.len(),
{
    if events.len() > 0 {
        lemma_frozen_after_overflow(m, events.drop_first());
    }
}

impl DoomGram {
    /// Adds `time_in_ns` to the total and folds it into the shortest and
    /// longest durations, unless the total has overflowed or cannot take it,
    /// in which case the overflow flag is set and nothing else changes. The
    /// event count and the buckets are left to the caller.
    fn try_add_ns_to_total_and_update_minmax_and_count_(&mut self, time_in_ns: u128) -> (r: bool)
        ensures
            r == old(self)@.accepts(time_in_ns as nat),
            final(self)@ == (HistogramModel {
                event_count: old(self)@.event_count,
                bucket_counts: old(self)@.bucket_counts,
                ..old(self)@.push(time_in_ns as nat)
            }),
    {
        if self.has_overflowed {
            return false;
        }
        if time_in_ns > u64::MAX as u128 {
            self.has_overflowed = true;
            return false;
        }
        let time_in_ns = time_in_ns as u64;
        match self.event_time_total.checked_add(time_in_ns) {
            Some(new_total) => {
                self.event_time_total = new_total;
                match self.min_event_time {
                    Some(min_event_time) => {
                        if time_in_ns < min_event_time {
                            self.min_event_time = Some(time_in_ns);
                        }
                    },
                    None => {
                        self.min_event_time = Some(time_in_ns);
                    },
                };
                match self.max_event_time {
                    Some(max_event_time) => {
                        if time_in_ns > max_event_time {
                            self.max_event_time = Some(time_in_ns);
                        }
                    },
                    None => {
                        self.max_event_time = Some(time_in_ns);
                    },
                };
                true
            },
            None => {
                self.has_overflowed = true;
                false
            },
        }
    }

    /// Counts an event of `time_in_ns` nanoseconds in the one bucket that it
    /// belongs to; a zero duration belongs to none.
    fn push_event_time_ns_(&mut self, time_in_ns: u64)
        requires
            old(self)@.bucket_sum() < u64::MAX,
        ensures
            final(self)@ == (HistogramModel {
                bucket_counts: Seq::new(
                    12,
                    |i: int|
                        old(self)@.bucket_counts[i] + if in_bucket(time_in_ns as nat, i) {
                            1nat
                        } else {
                            0nat
                        },
                ),
                ..old(self)@
            }),
    {
        let ghost ns = time_in_ns as nat;
        proof {
            lemma_pow10_table();
        }
        if time_in_ns >= 1000000 {
            if time_in_ns >= 1000000000 {
                if time_in_ns >= 100000000000 {
                    proof { lemma_only_bucket(ns, 11) }
                    self.num_events_ge_100s += 1;
                } else if time_in_ns >= 10000000000 {
                    proof { lemma_only_bucket(ns, 10) }
                    self.num_events_in_10s += 1;
                } else {
                    proof { lemma_only_bucket(ns, 9) }
                    self.num_events_in_1s += 1;
                }
            } else {
                if time_in_ns >= 100000000 {
                    proof { lemma_only_bucket(ns, 8) }
                    self.num_events_in_100ms += 1;
                } else if time_in_ns >= 10000000 {
                    proof { lemma_only_bucket(ns, 7) }
                    self.num_events_in_10ms += 1;
                } else {
                    proof { lemma_only_bucket(ns, 6) }
                    self.num_events_in_1ms += 1;
                }
            }
        } else {
            if time_in_ns >= 1000 {
                if time_in_ns >= 100000 {
                    proof { lemma_only_bucket(ns, 5) }
                    self.num_events_in_100us += 1;
                } else if time_in_ns >= 10000 {
                    proof { lemma_only_bucket(ns, 4) }
                    self.num_events_in_10us += 1;
                } else {
                    proof { lemma_only_bucket(ns, 3) }
                    self.num_events_in_1us += 1;
                }
            } else {
                if time_in_ns >= 100 {
                    proof { lemma_only_bucket(ns, 2) }
                    self.num_events_in_100ns += 1;
                } else if time_in_ns >= 10 {
                    proof { lemma_only_bucket(ns, 1) }
                    self.num_events_in_10ns += 1;
                } else if time_in_ns >= 1 {
                    proof { lemma_only_bucket(ns, 0) }
                    self.num_events_in_1ns += 1;
                } else {
                    assert forall|i: int| !#[trigger] in_bucket(ns, i) by {
                        if 0 <= i < 12 {
                            lemma_pow10_monotonic(0, i as nat);
                        }
                    }
                }
            }
        }
        assert(self@.bucket_counts =~= Seq::new(
            12,
            |i: int| old(self)@.bucket_counts[i] + if in_bucket(ns, i) { 1nat } else { 0nat },
        ));
    }
}

impl DoomGram {
    /// The consistency that every histogram keeps.
    pub open spec fn wf(&self) -> bool {
        self@.wf()
    }

    /// Resets the histogram to the state of a new one.
    pub fn clear(&mut self)
        ensures
            final(self)@ == HistogramModel::fresh(),
            final(self).wf(),
    {
        *self = DoomGram::default();
    }

    /// Pushes an event of `time_in_ns` nanoseconds, given as a wide integer so
    /// that a duration beyond the range of `u64` is handled too: such a
    /// duration overflows the total. Returns whether the event was taken in.
    pub fn push_event_time_ns_wide(&mut self, time_in_ns: u128) -> (r: bool)
        requires
            old(self).wf(),
            old(self)@.has_room(),
        ensures
            r == old(self)@.accepts(time_in_ns as nat),
            final(self)@ == old(self)@.push(time_in_ns as nat),
            final(self).wf(),
    {
        if self.try_add_ns_to_total_and_update_minmax_and_count_(time_in_ns) {
            proof {
                lemma_push_keeps_wf(old(self)@, time_in_ns as nat);
            }
            self.event_count += 1;
            self.push_event_time_ns_(time_in_ns as u64);
            assert(self@ =~= old(self)@.push(time_in_ns as nat));
            true
        } else {
            proof {
                lemma_push_keeps_wf(old(self)@, time_in_ns as nat);
            }
            false
        }
    }
}

impl DoomGram {
    /// Pushes an event with the given number of nanoseconds. Returns whether
    /// it was taken in.
    pub fn push_event_time_ns(&mut self, time_in_ns: u64) -> (r: bool)
        requires
            old(self).wf(),
            old(self)@.has_room(),
        ensures
            r == old(self)@.accepts(time_in_ns as nat),
            final(self)@ == old(self)@.push(time_in_ns as nat),
            final(self).wf(),
    {
        self.push_event_time_ns_wide(time_in_ns as u128)
    }

    /// Pushes an event with the given number of microseconds. A duration
    /// whose nanoseconds exceed the range of `u64` overflows the total.
    pub fn push_event_time_us(&mut self, time_in_us: u64) -> (r: bool)
        requires
            old(self).wf(),
            old(self)@.has_room(),
        ensures
            r == old(self)@.accepts((time_in_us * 1000) as nat),
            final(self)@ == old(self)@.push((time_in_us * 1000) as nat),
            final(self).wf(),
    {
        let time_in_ns: u128 = time_in_us as u128 * 1000;
        self.push_event_time_ns_wide(time_in_ns)
    }

    /// Pushes an event with the given number of milliseconds. A duration
    /// whose nanoseconds exceed the range of `u64` overflows the total.
    pub fn push_event_time_ms(&mut self, time_in_ms: u64) -> (r: bool)
        requires
            old(self).wf(),
            old(self)@.has_room(),
        ensures
            r == old(self)@.accepts((time_in_ms * 1000000) as nat),
            final(self)@ == old(self)@.push((time_in_ms * 1000000) as nat),
            final(self).wf(),
    {
        let time_in_ns: u128 = time_in_ms as u128 * 1000000;
        self.push_event_time_ns_wide(time_in_ns)
    }

    /// Pushes an event with the given number of seconds. A duration whose
    /// nanoseconds exceed the range of `u64` overflows the total.
    pub fn push_event_time_s(&mut self, time_in_s: u64) -> (r: bool)
        requires
            old(self).wf(),
            old(self)@.has_room(),
        ensures
            r == old(self)@.accepts((time_in_s * 1000000000) as nat),
            final(self)@ == old(self)@.push((time_in_s * 1000000000) as nat),
            final(self).wf(),
    {
        let time_in_ns: u128 = time_in_s as u128 * 1000000000;
        self.push_event_time_ns_wide(time_in_ns)
    }

    /// Pushes an event with the given [`Duration`], counted in whole
    /// nanoseconds. A duration whose nanoseconds exceed the range of `u64`
    /// overflows the total.
    pub fn push_event_duration(&mut self, duration: Duration) -> (r: bool)
        requires
            old(self).wf(),
            old(self)@.has_room(),
        ensures
            r == old(self)@.accepts(duration_nanos(duration) as nat),
            final(self)@ == old(self)@.push(duration_nanos(duration) as nat),
            final(self).wf(),
    {
        let time_in_ns = nanos_of(duration);
        self.push_event_time_ns_wide(time_in_ns)
    }
}

impl DoomGram {
    /// Number of events counted.
    pub fn event_count(&self) -> (r: usize)
        ensures
            r == self@.event_count,
    {
        self.event_count
    }

    /// Total event time, in nanoseconds; `None` once overflow has occurred.
    pub fn event_time_total(&self) -> (r: Option<u64>)
        ensures
            r == self@.reported_total(),
    {
        if self.has_overflowed {
            None
        } else {
            Some(self.event_time_total)
        }
    }

    /// Total event time, in nanoseconds, whether or not overflow has
    /// occurred: the last total that was taken in.
    pub fn event_time_total_raw(&self) -> (r: u64)
        ensures
            r == self@.event_time_total,
    {
        self.event_time_total
    }

    /// Indicates whether overflow has occurred.
    pub fn has_overflowed(&self) -> (r: bool)
        ensures
            r == self@.has_overflowed,
    {
        self.has_overflowed
    }

    /// Shortest event time, in nanoseconds, if any event was taken in.
    pub fn min_event_time(&self) -> (r: Option<u64>)
        ensures
            r == self@.min_event_time,
    {
        self.min_event_time
    }

    /// Longest event time, in nanoseconds, if any event was taken in.
    pub fn max_event_time(&self) -> (r: Option<u64>)
        ensures
            r == self@.max_event_time,
    {
        self.max_event_time
    }

    /// Number of events counted in the interval [1ns, 10ns).
    pub fn num_events_in_1ns(&self) -> (r: u64)
        ensures
            r == self@.bucket_counts[0],
    {
        self.num_events_in_1ns
    }

    /// Number of events counted in the interval [10ns, 100ns).
    pub fn num_events_in_10ns(&self) -> (r: u64)
        ensures
            r == self@.bucket_counts[1],
    {
        self.num_events_in_10ns
    }

    /// Number of events counted in the interval [100ns, 1µs).
    pub fn num_events_in_100ns(&self) -> (r: u64)
        ensures
            r == self@.bucket_counts[2],
    {
        self.num_events_in_100ns
    }

    /// Number of events counted in the interval [1µs, 10µs).
    pub fn num_events_in_1us(&self) -> (r: u64)
        ensures
            r == self@.bucket_counts[3],
    {
        self.num_events_in_1us
    }

    /// Number of events counted in the interval [10µs, 100µs).
    pub fn num_events_in_10us(&self) -> (r: u64)
        ensures
            r == self@.bucket_counts[4],
    {
        self.num_events_in_10us
    }

    /// Number of events counted in the interval [100µs, 1ms).
    pub fn num_events_in_100us(&self) -> (r: u64)
        ensures
            r == self@.bucket_counts[5],
    {
        self.num_events_in_100us
    }

    /// Number of events counted in the interval [1ms, 10ms).
    pub fn num_events_in_1ms(&self) -> (r: u64)
        ensures
            r == self@.bucket_counts[6],
    {
        self.num_events_in_1ms
    }

    /// Number of events counted in the interval [10ms, 100ms).
    pub fn num_events_in_10ms(&self) -> (r: u64)
        ensures
            r == self@.bucket_counts[7],
    {
        self.num_events_in_10ms
    }

    /// Number of events counted in the interval [100ms, 1s).
    pub fn num_events_in_100ms(&self) -> (r: u64)
        ensures
            r == self@.bucket_counts[8],
    {
        self.num_events_in_100ms
    }

    /// Number of events counted in the interval [1s, 10s).
    pub fn num_events_in_1s(&self) -> (r: u64)
        ensures
            r == self@.bucket_counts[9],
    {
        self.num_events_in_1s
    }

    /// Number of events counted in the interval [10s, 100s).
    pub fn num_events_in_10s(&self) -> (r: u64)
        ensures
            r == self@.bucket_counts[10],
    {
        self.num_events_in_10s
    }

    /// Number of events counted in the interval [100s, ∞).
    pub fn num_events_ge_100s(&self) -> (r: u64)
        ensures
            r == self@.bucket_counts[11],
    {
        self.num_events_ge_100s
    }
}

impl DoomGram {
    /// The twelve-character strip of the buckets, shortest bucket first:
    /// `_` for an empty bucket, else the letter whose place in the alphabet
    /// is the number of decimal digits of its count, `*` past `z`.
    pub fn to_strip(&self) -> (r: String)
        ensures
            r@ == self@.strip(),
    {
        let ch_0: u8 = 95;
        let ch_overflow: u8 = 42;
        let range: [u8; 26] = [
            97, 98, 99, 100, 101, 102, 103, 104, 105, 106, 107, 108, 109,
            110, 111, 112, 113, 114, 115, 116, 117, 118, 119, 120, 121, 122,
        ];
        let counts: [u64; 12] = [
            self.num_events_in_1ns,
            self.num_events_in_10ns,
            self.num_events_in_100ns,
            self.num_events_in_1us,
            self.num_events_in_10us,
            self.num_events_in_100us,
            self.num_events_in_1ms,
            self.num_events_in_10ms,
            self.num_events_in_100ms,
            self.num_events_in_1s,
            self.num_events_in_10s,
            self.num_events_ge_100s,
        ];
        let mut strip = String::new();
        let mut i: usize = 0;
        while i < NUM_BUCKETS
            invariant
                i <= NUM_BUCKETS,
                NUM_BUCKETS == 12,
                ch_0 == 95,
                forall|j: int| 0 <= j < 12 ==> counts@[j] == self@.bucket_counts[j],
                forall|j: int| 0 <= j < 26 ==> (range@[j] as char) == strip_char((j + 1) as nat),
                range@.len() == 26,
                strip@ == self@.strip().subrange(0, i as int),
            decreases NUM_BUCKETS - i,
        {
            let doom = calc_doom(counts[i]);
            let ch = gram_doom_to_char(doom, ch_0, ch_overflow, range.as_slice());
            if doom == 0 {
                assert((ch_0 as char) == '_');
            } else {
                assert((range@[doom - 1] as char) == strip_char(doom as nat));
            }
            assert((ch as char) == self@.strip()[i as int]);
            push_char(&mut strip, ch as char);
            i += 1;
            assert(strip@ =~= self@.strip().subrange(0, i as int));
        }
        assert(strip@ =~= self@.strip());
        strip
    }
}

} // verus!
