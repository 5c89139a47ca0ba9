//! Operation counters kept by the storage backends.

use crate::clock::{duration_as_micros, instant_elapsed, instant_now};
use std::time::Instant;
use vstd::prelude::*;

verus! {

/// Number of operations and their summed latency in microseconds. Both
/// counters wrap around on overflow.
#[derive(Debug, Clone, Copy)]
pub struct OperationCounters {
    pub operation_count: usize,
    pub total_latency: usize,
}

/// Mean latency: the summed latency over the number of operations, or zero
/// when there was none.
pub open spec fn average_latency(c: OperationCounters) -> usize {
    if c.operation_count > 0 {
        (c.total_latency / c.operation_count) as usize
    } else {
        0
    }
}

/// `post` counts one more operation than `pre`, of some latency.
pub open spec fn one_more_operation(pre: OperationCounters, post: OperationCounters) -> bool {
    &&& post.operation_count == vstd::wrapping::usize_specs::wrapping_add(pre.operation_count, 1)
    &&& exists|latency: usize| #[trigger]
        vstd::wrapping::usize_specs::wrapping_add(pre.total_latency, latency) == post.total_latency
}

impl OperationCounters {
    /// No operation yet.
    pub fn new() -> (c: Self)
        ensures
            c.operation_count == 0,
            c.total_latency == 0,
    {
        OperationCounters { operation_count: 0, total_latency: 0 }
    }

    /// The time an operation starts.
    pub fn start(&self) -> Instant {
        instant_now()
    }

    /// Counts one operation of `latency` microseconds.
    pub fn record_latency(&mut self, latency: usize)
        ensures
            final(self).operation_count == vstd::wrapping::usize_specs::wrapping_add(
                old(self).operation_count,
                1,
            ),
            final(self).total_latency == vstd::wrapping::usize_specs::wrapping_add(
                old(self).total_latency,
                latency,
            ),
    {
        self.operation_count = self.operation_count.wrapping_add(1);
        self.total_latency = self.total_latency.wrapping_add(latency);
    }

    /// Counts one operation that started at `start_time`; its latency is the
    /// time elapsed since then, in microseconds, truncated to `usize`.
    pub fn complete(&mut self, start_time: Instant)
        ensures
            one_more_operation(*old(self), *final(self)),
    {
        let micros = duration_as_micros(&instant_elapsed(&start_time));
        #[verifier::truncate]
        let latency = micros as usize;
        self.record_latency(latency);
    }

    /// The mean latency in microseconds.
    pub fn average_latency(&self) -> (a: usize)
        ensures
            a == average_latency(*self),
    {
        if self.operation_count > 0 {
            self.total_latency / self.operation_count
        } else {
            0
        }
    }
}

} // verus!
