//! Admission control: the delay accumulator that paces outbound requests.
//!
//! Every request that is issued adds the latency budget of its endpoint to the accumulator
//! and waits for as long as the accumulator stood at before. A decrementer in the
//! background takes one millisecond off every millisecond. There is no queue and no timer
//! per request: the backlog alone spaces the requests.

use vstd::prelude::*;

verus! {

/// The number of distinct values the accumulator can hold.
pub open spec fn capacity() -> int {
    usize::MAX + 1
}

/// The accumulator's value after a reservation of `budget` milliseconds is added to `value`.
/// The addition wraps around at `capacity()`.
pub open spec fn reserved(value: int, budget: int) -> int {
    if value + budget >= capacity() {
        value + budget - capacity()
    } else {
        value + budget
    }
}

/// The accumulator's value after one tick of the background decrementer:
/// one less, but never below zero.
pub open spec fn ticked(value: int) -> int {
    if value > 0 {
        value - 1
    } else {
        value
    }
}

/// The backlog of virtual latency queued ahead of requests that have not been issued yet,
/// in milliseconds. Each operation takes the accumulator exclusively and is one atomic
/// step; an accumulator that tasks and decrementer share is theirs to guard, for one
/// operation at a time.
pub struct DelayAccumulator {
    value: usize,
}

impl View for DelayAccumulator {
    type V = int;

    closed spec fn view(&self) -> int {
        self.value as int
    }
}

impl DelayAccumulator {
    /// An accumulator with no backlog.
    pub fn new() -> (acc: Self)
        ensures
            acc@ == 0,
    {
        DelayAccumulator { value: 0 }
    }

    /// Reads the backlog, which is how long the caller has to wait before it issues its
    /// request, and then adds the request's own latency budget to the backlog.
    pub fn reserve(&mut self, latency_budget_ms: usize) -> (wait_ms: usize)
        ensures
            wait_ms == old(self)@,
            final(self)@ == reserved(old(self)@, latency_budget_ms as int),
    {
        let wait_ms = self.value;
        self.value = self.value.wrapping_add(latency_budget_ms);
        wait_ms
    }

    /// One step of the background decrementer: takes one millisecond off the backlog
    /// unless it is already empty.
    pub fn tick(&mut self)
        ensures
            final(self)@ == ticked(old(self)@),
    {
        if self.value > 0 {
            self.value = self.value - 1;
        }
    }

    /// Empties the backlog, as the decrementer does once when it starts.
    pub fn reset(&mut self)
        ensures
            final(self)@ == 0,
    {
        self.value = 0;
    }
}

/// Adds `time` milliseconds to the backlog.
pub fn push_time_rpc(accumulator: &mut DelayAccumulator, time: usize)
    ensures
        final(accumulator)@ == reserved(old(accumulator)@, time as int),
{
    accumulator.value = accumulator.value.wrapping_add(time);
}

/// The backlog in milliseconds: how long a request that arrives now has to wait.
pub fn get_sleep_time_rpc(accumulator: &DelayAccumulator) -> (time: usize)
    ensures
        time == accumulator@,
{
    accumulator.value
}

/// One operation on the accumulator: a reservation of so many milliseconds, or a tick of
/// the decrementer.
pub enum AccumulatorOp {
    Reserve(usize),
    Tick,
}

/// The backlog after `op` has been applied to `value`.
pub open spec fn applied(value: int, op: AccumulatorOp) -> int {
    match op {
        AccumulatorOp::Reserve(budget) => reserved(value, budget as int),
        AccumulatorOp::Tick => ticked(value),
    }
}

/// The backlog after `ops` have been applied to `value`, one after the other. Each
/// operation is atomic, so whatever callers and decrementer do at the same time comes down
/// to one such sequence.
pub open spec fn replayed(value: int, ops: Seq<AccumulatorOp>) -> int
    decreases ops.len(),
{
    if ops.len() == 0 {
        value
    } else {
        applied(replayed(value, ops.drop_last()), ops.last())
    }
}

/// The backlog is never negative and never reaches the capacity: not at the start, and
/// not after any number of reservations and ticks in any order.
pub proof fn lemma_backlog_never_negative(accumulator: DelayAccumulator, ops: Seq<AccumulatorOp>)
    ensures
        0 <= replayed(accumulator@, ops) < capacity(),
        forall|n: int|
            0 <= n <= ops.len() ==> 0 <= #[trigger] replayed(accumulator@, ops.take(n))
                < capacity(),
    decreases ops.len(),
{
    if ops.len() > 0 {
        lemma_backlog_never_negative(accumulator, ops.drop_last());
    }
    assert forall|n: int| 0 <= n <= ops.len() implies 0 <= #[trigger] replayed(
        accumulator@,
        ops.take(n),
    ) < capacity() by {
        if n < ops.len() {
            assert(ops.take(n) =~= ops.drop_last().take(n));
        } else {
            assert(ops.take(n) =~= ops);
        }
    }
}

} // verus!
