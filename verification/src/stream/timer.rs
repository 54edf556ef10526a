//! Frame time tracking: a ring of the most recent frame times.

use vstd::prelude::*;

verus! {

/// Nanoseconds per second.
pub const NANOS_PER_SEC: u128 = 1_000_000_000;

/// Nanoseconds per millisecond.
pub const NANOS_PER_MILLI: u128 = 1_000_000;

/// The longest span that `std::time::Duration` can hold, in nanoseconds:
/// `u64::MAX` seconds and 999,999,999 nanoseconds.
pub const MAX_FRAME_NANOS: u128 = 18_446_744_073_709_551_615_999_999_999;

/// A span of time in whole nanoseconds.
#[derive(Clone, Copy, Debug, PartialEq, Eq, Structural)]
pub struct FrameTime {
    pub nanos: u128,
}

impl FrameTime {
    /// The empty span.
    pub fn zero() -> (t: FrameTime)
        ensures
            t.nanos == 0,
    {
        FrameTime { nanos: 0 }
    }

    /// A span of `nanos` nanoseconds.
    pub fn from_nanos(nanos: u128) -> (t: FrameTime)
        ensures
            t.nanos == nanos,
    {
        FrameTime { nanos }
    }

    /// A span of `millis` milliseconds.
    pub fn from_millis(millis: u64) -> (t: FrameTime)
        ensures
            t.nanos == millis * NANOS_PER_MILLI,
    {
        let wide: u128 = millis as u128;
        FrameTime { nanos: wide * NANOS_PER_MILLI }
    }

    /// The span in nanoseconds.
    pub fn as_nanos(self) -> (nanos: u128)
        ensures
            nanos == self.nanos,
    {
        self.nanos
    }
}

/// The frame times in nanoseconds.
pub open spec fn nanos_of(times: Seq<FrameTime>) -> Seq<u128> {
    times.map_values(|t: FrameTime| t.nanos)
}

/// The sum of a sequence of spans.
pub open spec fn total(samples: Seq<u128>) -> int
    decreases samples.len(),
{
    if samples.len() == 0 {
        0
    } else {
        total(samples.drop_last()) + samples.last()
    }
}

/// A frame timer as contracts see it.
pub struct FrameTimerView {
    /// The retained frame times, in slot order.
    pub samples: Seq<u128>,
    /// The number of slots.
    pub capacity: nat,
    /// The slot that the next frame time goes to.
    pub cursor: nat,
}

impl FrameTimerView {
    /// The timer after recording a frame time: while slots are free the time
    /// takes the next one, afterwards it overwrites the oldest.
    pub open spec fn record(self, nanos: u128) -> FrameTimerView {
        FrameTimerView {
            samples: if self.samples.len() < self.capacity {
                self.samples.push(nanos)
            } else {
                self.samples.update(self.cursor as int, nanos)
            },
            capacity: self.capacity,
            cursor: (((self.cursor + 1) as int) % (self.capacity as int)) as nat,
        }
    }

    /// What the average is divided by: the number of samples, reduced to 32
    /// bits.
    pub open spec fn divisor(self) -> int {
        (self.samples.len() as int) % 0x1_0000_0000
    }
}

/// Frame time tracker for instrumentation.
#[derive(Debug)]
pub struct FrameTimer {
    history: Vec<FrameTime>,
    capacity: usize,
    index: usize,
    filled: bool,
}

impl View for FrameTimer {
    type V = FrameTimerView;

    closed spec fn view(&self) -> FrameTimerView {
        FrameTimerView {
            samples: if self.filled {
                nanos_of(self.history@)
            } else {
                nanos_of(self.history@.take(self.index as int))
            },
            capacity: self.capacity as nat,
            cursor: self.index as nat,
        }
    }
}

impl FrameTimer {
    #[verifier::type_invariant]
    spec fn well_formed(&self) -> bool {
        &&& self.history@.len() == self.capacity
        &&& self.capacity == 0 ==> self.index == 0 && !self.filled
        &&& self.capacity > 0 ==> self.index < self.capacity
    }

    /// A timer with `capacity` slots and no samples.
    pub fn new(capacity: usize) -> (timer: FrameTimer)
        ensures
            timer@ == (FrameTimerView { samples: Seq::empty(), capacity: capacity as nat, cursor: 0 }),
    {
        let mut history: Vec<FrameTime> = Vec::new();
        let mut i: usize = 0;
        while i < capacity
            invariant
                0 <= i <= capacity,
                history@.len() == i,
            decreases capacity - i,
        {
            history.push(FrameTime { nanos: 0 });
            i = i + 1;
        }
        let timer = FrameTimer { history, capacity, index: 0, filled: false };
        assert(timer@.samples =~= Seq::<u128>::empty());
        timer
    }

    /// Records a frame time.
    pub fn record(&mut self, dt: FrameTime)
        requires
            old(self)@.capacity > 0,
        ensures
            final(self)@ == old(self)@.record(dt.nanos),
    {
        proof {
            use_type_invariant(&*self);
        }
        let slot = self.index;
        let next = (slot + 1) % self.capacity;
        let ghost before = *old(self);
        self.history[slot] = dt;
        self.index = next;
        if next == 0 {
            self.filled = true;
        }
        proof {
            let was = before@;
            if before.filled {
                assert(self.history@ == before.history@.update(slot as int, dt));
                assert(self@.samples =~= was.samples.update(slot as int, dt.nanos));
            } else {
                assert(was.samples.len() == slot);
                assert(self.history@ == before.history@.update(slot as int, dt));
                if slot + 1 < self.capacity {
                    vstd::arithmetic::div_mod::lemma_small_mod(
                        (slot + 1) as nat,
                        self.capacity as nat,
                    );
                    assert(next == slot + 1);
                    assert(self.history@.take(next as int) =~= before.history@.take(
                        slot as int,
                    ).push(dt));
                } else {
                    vstd::arithmetic::div_mod::lemma_mod_self_0(self.capacity as int);
                    assert(next == 0);
                    assert(self.history@ =~= before.history@.take(slot as int).push(dt));
                }
                assert(self@.samples =~= was.samples.push(dt.nanos));
            }
        }
    }

    /// Number of samples held.
    pub fn count(&self) -> (n: usize)
        ensures
            n == self@.samples.len(),
            n <= self@.capacity,
    {
        proof {
            use_type_invariant(self);
        }
        if self.filled {
            self.capacity
        } else {
            self.index
        }
    }

    /// The average of the samples, rounded down to whole nanoseconds; zero if
    /// there are none.
    pub fn average(&self) -> (avg: FrameTime)
        requires
            total(self@.samples) <= MAX_FRAME_NANOS,
            self@.samples.len() > 0 ==> self@.divisor() != 0,
        ensures
            self@.samples.len() == 0 ==> avg.nanos == 0,
            self@.samples.len() > 0 ==> avg.nanos == total(self@.samples) / self@.divisor(),
    {
        proof {
            use_type_invariant(self);
        }
        let count = self.count();
        if count == 0 {
            return FrameTime { nanos: 0 };
        }
        let mut sum: u128 = 0;
        let mut i: usize = 0;
        while i < count
            invariant
                0 <= i <= count,
                count == self@.samples.len(),
                count <= self.history@.len(),
                self@.samples == nanos_of(self.history@.take(count as int)),
                sum == total(self@.samples.take(i as int)),
                total(self@.samples) <= MAX_FRAME_NANOS,
            decreases count - i,
        {
            proof {
                let next = self@.samples.take(i + 1);
                assert(next.drop_last() =~= self@.samples.take(i as int));
                assert(next.last() == self.history@[i as int].nanos);
                lemma_total_prefix(self@.samples, i + 1);
            }
            sum = sum + self.history[i].nanos;
            i = i + 1;
        }
        assert(self@.samples.take(i as int) =~= self@.samples);
        let wide: u64 = count as u64;
        let divisor: u32 = (wide % 0x1_0000_0000) as u32;
        FrameTime { nanos: sum / (divisor as u128) }
    }

    /// The longest sample; zero if there are none.
    pub fn max(&self) -> (longest: FrameTime)
        ensures
            self@.samples.len() == 0 ==> longest.nanos == 0,
            self@.samples.len() > 0 ==> self@.samples.contains(longest.nanos),
            forall|i: int| 0 <= i < self@.samples.len() ==> self@.samples[i] <= longest.nanos,
    {
        proof {
            use_type_invariant(self);
        }
        let count = self.count();
        if count == 0 {
            return FrameTime { nanos: 0 };
        }
        let mut best: u128 = self.history[0].nanos;
        let mut i: usize = 1;
        assert(self@.samples[0] == best);
        while i < count
            invariant
                1 <= i <= count,
                count == self@.samples.len(),
                count <= self.history@.len(),
                self@.samples == nanos_of(self.history@.take(count as int)),
                exists|j: int| 0 <= j < i && self@.samples[j] == best,
                forall|j: int| 0 <= j < i ==> self@.samples[j] <= best,
            decreases count - i,
        {
            let t = self.history[i].nanos;
            assert(self@.samples[i as int] == t);
            if t > best {
                best = t;
            }
            i = i + 1;
        }
        FrameTime { nanos: best }
    }

    /// The shortest sample; zero if there are none.
    pub fn min(&self) -> (shortest: FrameTime)
        ensures
            self@.samples.len() == 0 ==> shortest.nanos == 0,
            self@.samples.len() > 0 ==> self@.samples.contains(shortest.nanos),
            forall|i: int| 0 <= i < self@.samples.len() ==> self@.samples[i] >= shortest.nanos,
    {
        proof {
            use_type_invariant(self);
        }
        let count = self.count();
        if count == 0 {
            return FrameTime { nanos: 0 };
        }
        let mut best: u128 = self.history[0].nanos;
        let mut i: usize = 1;
        assert(self@.samples[0] == best);
        while i < count
            invariant
                1 <= i <= count,
                count == self@.samples.len(),
                count <= self.history@.len(),
                self@.samples == nanos_of(self.history@.take(count as int)),
                exists|j: int| 0 <= j < i && self@.samples[j] == best,
                forall|j: int| 0 <= j < i ==> self@.samples[j] >= best,
            decreases count - i,
        {
            let t = self.history[i].nanos;
            assert(self@.samples[i as int] == t);
            if t < best {
                best = t;
            }
            i = i + 1;
        }
        FrameTime { nanos: best }
    }
}

/// The sum of the first samples is at most the sum of all of them.
pub proof fn lemma_total_prefix(samples: Seq<u128>, n: int)
    requires
        0 <= n <= samples.len(),
    ensures
        0 <= total(samples.take(n)) <= total(samples),
    decreases samples.len() - n,
{
    if n < samples.len() {
        assert(samples.take(n + 1).drop_last() =~= samples.take(n));
        lemma_total_prefix(samples, n + 1);
        lemma_total_nonnegative(samples.take(n));
    } else {
        assert(samples.take(n) =~= samples);
        lemma_total_nonnegative(samples);
    }
}

/// A sum of spans is not negative.
pub proof fn lemma_total_nonnegative(samples: Seq<u128>)
    ensures
        0 <= total(samples),
    decreases samples.len(),
{
    if samples.len() > 0 {
        lemma_total_nonnegative(samples.drop_last());
    }
}

} // verus!
