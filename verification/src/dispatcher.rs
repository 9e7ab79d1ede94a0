//! The admission-controlled dispatcher: the load harness's core.
//!
//! The dispatcher partitions a target request volume into contiguous
//! batches, bounds how many batches may run concurrently under admission control, and
//! tracks per-attempt outcomes in three monotone counters. The module
//! holds every decision of the run — which batch to launch next, what
//! range of synthetic user identifiers it covers, when admission is exhausted,
//! when the run has drained — as a state machine with an invariant; the
//! surrounding harness only performs the network sends the decisions call
//! for and reports each outcome back.

use vstd::prelude::*;
use vstd::arithmetic::div_mod::lemma_fundamental_div_mod;
use vstd::arithmetic::mul::lemma_mul_inequality;
use vstd::arithmetic::mul::lemma_mul_nonnegative;

verus! {

/// Number of batches a volume of `total` requests splits into at width
/// `batch`: the quotient, plus one for a positive remainder.
pub open spec fn spec_batch_count(total: u64, batch: u64) -> int
    recommends
        0 < batch,
{
    total as int / batch as int + if total as int % batch as int == 0 {
        0int
    } else {
        1int
    }
}

/// First request index of batch `i`.
pub open spec fn spec_batch_offset(batch: u64, i: int) -> int {
    i * (batch as int)
}

/// Length of batch `i`: full width, except that the last batch is cut to
/// the remainder of the volume.
pub open spec fn spec_batch_len(total: u64, batch: u64, i: int) -> int {
    if total as int - spec_batch_offset(batch, i) < batch as int {
        total as int - spec_batch_offset(batch, i)
    } else {
        batch as int
    }
}

/// The batch count is the ceiling of `total / batch`: one batch short
/// leaves requests uncovered, and the full count suffices.
pub proof fn lemma_batch_count(total: u64, batch: u64)
    requires
        0 < batch <= total,
    ensures
        1 <= spec_batch_count(total, batch) <= total,
        (spec_batch_count(total, batch) - 1) * (batch as int) < total as int,
        total as int <= spec_batch_count(total, batch) * (batch as int),
{
    let t = total as int;
    let b = batch as int;
    let q = t / b;
    let r = t % b;
    let nb = spec_batch_count(total, batch);
    lemma_fundamental_div_mod(t, b);
    assert(0 <= r < b);
    if r == 0 {
        assert(nb == q);
        assert((q - 1) * b == b * q - b) by (nonlinear_arith);
        assert(q * b == b * q) by (nonlinear_arith);
    } else {
        assert(nb == q + 1);
        assert(q * b == b * q) by (nonlinear_arith);
        assert((q + 1) * b == b * q + b) by (nonlinear_arith);
    }
    assert(nb >= 1) by {
        if nb <= 0 {
            lemma_mul_inequality(nb, 0, b);
        }
    }
    assert(nb <= t) by {
        if nb > t {
            lemma_mul_inequality(t + 1, nb, b);
            assert((t + 1) * b >= t + 1) by (nonlinear_arith)
                requires
                    b >= 1,
                    t + 1 >= 0,
            ;
            assert((nb - 1) * b >= (t + 1 - 1) * b) by (nonlinear_arith)
                requires
                    nb - 1 >= t,
                    b > 0,
            ;
            assert(t * b >= t) by (nonlinear_arith)
                requires
                    b >= 1,
                    t >= 0,
            ;
        }
    }
}

/// Every batch before the count begins strictly inside the volume, has a
/// positive length of at most the batch width, stays inside the volume,
/// and is full unless it is the last.
pub proof fn lemma_batch_bounds(total: u64, batch: u64, i: int)
    requires
        0 < batch <= total,
        0 <= i < spec_batch_count(total, batch),
    ensures
        0 <= spec_batch_offset(batch, i) < total,
        0 < spec_batch_len(total, batch, i) <= batch,
        spec_batch_offset(batch, i) + spec_batch_len(total, batch, i) <= total,
        i < spec_batch_count(total, batch) - 1 ==> spec_batch_len(total, batch, i) == batch,
{
    let t = total as int;
    let b = batch as int;
    let nb = spec_batch_count(total, batch);
    lemma_batch_count(total, batch);
    lemma_mul_nonnegative(i, b);
    lemma_mul_inequality(i, nb - 1, b);
    if i < nb - 1 {
        lemma_mul_inequality(i + 1, nb - 1, b);
        assert((i + 1) * b == i * b + b) by (nonlinear_arith);
    }
}

/// An earlier batch ends at or before a later batch begins: the batches
/// are pairwise disjoint ranges of request indices.
pub proof fn lemma_batches_disjoint(total: u64, batch: u64, i: int, j: int)
    requires
        0 < batch <= total,
        0 <= i < j < spec_batch_count(total, batch),
    ensures
        spec_batch_offset(batch, i) + spec_batch_len(total, batch, i) <= spec_batch_offset(
            batch,
            j,
        ),
{
    let b = batch as int;
    lemma_batch_bounds(total, batch, i);
    assert((i + 1) * b == i * b + b) by (nonlinear_arith);
    lemma_mul_inequality(i + 1, j, b);
}

/// Sum of the lengths of the first `n` batches.
pub open spec fn spec_sizes_prefix_sum(total: u64, batch: u64, n: int) -> int
    decreases n,
{
    if n <= 0 {
        0
    } else {
        spec_sizes_prefix_sum(total, batch, n - 1) + spec_batch_len(total, batch, n - 1)
    }
}

/// The first `n` batches cover exactly the first `min(n * batch, total)`
/// request indices.
pub proof fn lemma_sizes_prefix_sum(total: u64, batch: u64, n: int)
    requires
        0 < batch <= total,
        0 <= n <= spec_batch_count(total, batch),
    ensures
        spec_sizes_prefix_sum(total, batch, n) == if n * (batch as int) < total as int {
            n * (batch as int)
        } else {
            total as int
        },
    decreases n,
{
    let t = total as int;
    let b = batch as int;
    if n == 0 {
        assert(0 * b == 0) by (nonlinear_arith);
    } else {
        lemma_sizes_prefix_sum(total, batch, n - 1);
        lemma_batch_bounds(total, batch, n - 1);
        assert(n * b == (n - 1) * b + b) by (nonlinear_arith);
    }
}

/// Coverage: the batch lengths sum to exactly the requested volume. With
/// pairwise disjointness this makes the batches a partition of the request
/// range, so each synthetic user identifier below the volume is generated
/// exactly once across the run.
pub proof fn lemma_batches_cover(total: u64, batch: u64)
    requires
        0 < batch <= total,
    ensures
        spec_sizes_prefix_sum(total, batch, spec_batch_count(total, batch)) == total,
{
    let nb = spec_batch_count(total, batch);
    lemma_batch_count(total, batch);
    lemma_sizes_prefix_sum(total, batch, nb);
}

/// One unit of scheduled work: a batch's index, the first synthetic user
/// identifier it generates, and how many requests it issues.
#[derive(Clone, Copy, PartialEq, Eq, Structural, Debug)]
pub struct BatchPlan {
    pub index: u64,
    pub user_offset: u64,
    pub size: u64,
}

/// The dispatcher's run state: the fixed run parameters, the scheduling
/// position, the admission limiter's occupancy with its high-water mark, and
/// the three outcome counters.
pub struct Dispatcher {
    total_requests: u64,
    batch_size: u64,
    max_concurrent_batches: u64,
    num_batches: u64,
    next_batch: u64,
    in_flight: u64,
    completed_batches: u64,
    high_water: u64,
    attempted: u64,
    succeeded: u64,
    failed: u64,
}

impl Dispatcher {
    /// Target number of request attempts for the run.
    pub closed spec fn total_requests(self) -> u64 {
        self.total_requests
    }

    /// Width of a full batch.
    pub closed spec fn batch_size(self) -> u64 {
        self.batch_size
    }

    /// Capacity of the admission limiter.
    pub closed spec fn max_concurrent(self) -> u64 {
        self.max_concurrent_batches
    }

    /// Number of batches the run is partitioned into.
    pub closed spec fn num_batches(self) -> u64 {
        self.num_batches
    }

    /// Index of the next batch to launch.
    pub closed spec fn next_batch(self) -> u64 {
        self.next_batch
    }

    /// Batches currently holding admission capacity.
    pub closed spec fn in_flight(self) -> u64 {
        self.in_flight
    }

    /// Batches that have completed and released their admission unit.
    pub closed spec fn completed(self) -> u64 {
        self.completed_batches
    }

    /// The most batches that were ever admitted at once.
    pub closed spec fn high_water(self) -> u64 {
        self.high_water
    }

    /// Attempts issued so far.
    pub closed spec fn attempted(self) -> u64 {
        self.attempted
    }

    /// Attempts the remote acknowledged.
    pub closed spec fn succeeded(self) -> u64 {
        self.succeeded
    }

    /// Attempts that failed in transport or were refused.
    pub closed spec fn failed(self) -> u64 {
        self.failed
    }

    /// The run invariant: parameters are positive, the batch count is the
    /// ceiling partition of the volume, every launched batch is either in
    /// flight or completed, admission and its high-water mark never exceed
    /// capacity, and every attempt is counted exactly once as a success or
    /// a failure.
    pub open spec fn wf(self) -> bool {
        &&& 0 < self.batch_size() <= self.total_requests()
        &&& 0 < self.max_concurrent()
        &&& self.num_batches() == spec_batch_count(self.total_requests(), self.batch_size())
        &&& self.next_batch() <= self.num_batches()
        &&& self.completed() + self.in_flight() == self.next_batch()
        &&& self.in_flight() <= self.max_concurrent()
        &&& self.in_flight() <= self.high_water()
        &&& self.high_water() <= self.max_concurrent()
        &&& self.attempted() == self.succeeded() + self.failed()
    }

    /// The run's fixed parameters agree.
    pub open spec fn same_config(self, other: Dispatcher) -> bool {
        &&& self.total_requests() == other.total_requests()
        &&& self.batch_size() == other.batch_size()
        &&& self.max_concurrent() == other.max_concurrent()
        &&& self.num_batches() == other.num_batches()
    }

    /// The three outcome counters agree.
    pub open spec fn same_outcomes(self, other: Dispatcher) -> bool {
        &&& self.attempted() == other.attempted()
        &&& self.succeeded() == other.succeeded()
        &&& self.failed() == other.failed()
    }

    /// The scheduling position and admission state agree.
    pub open spec fn same_schedule(self, other: Dispatcher) -> bool {
        &&& self.next_batch() == other.next_batch()
        &&& self.in_flight() == other.in_flight()
        &&& self.completed() == other.completed()
        &&& self.high_water() == other.high_water()
    }

    /// Set up a run: nothing launched, nothing counted.
    pub fn new(total_requests: u64, batch_size: u64, max_concurrent_batches: u64) -> (d:
        Dispatcher)
        requires
            0 < batch_size <= total_requests,
            0 < max_concurrent_batches,
        ensures
            d.wf(),
            d.total_requests() == total_requests,
            d.batch_size() == batch_size,
            d.max_concurrent() == max_concurrent_batches,
            d.num_batches() == spec_batch_count(total_requests, batch_size),
            d.next_batch() == 0,
            d.in_flight() == 0,
            d.completed() == 0,
            d.high_water() == 0,
            d.attempted() == 0,
            d.succeeded() == 0,
            d.failed() == 0,
    {
        proof {
            lemma_batch_count(total_requests, batch_size);
        }
        let quotient = total_requests / batch_size;
        let remainder = total_requests % batch_size;
        let num_batches = if remainder == 0 {
            quotient
        } else {
            quotient + 1
        };
        Dispatcher {
            total_requests,
            batch_size,
            max_concurrent_batches,
            num_batches,
            next_batch: 0,
            in_flight: 0,
            completed_batches: 0,
            high_water: 0,
            attempted: 0,
            succeeded: 0,
            failed: 0,
        }
    }

    /// Whether another batch may be launched now: work remains and the
    /// admission limiter has free capacity.
    pub fn can_launch(&self) -> (r: bool)
        requires
            self.wf(),
        ensures
            r == (self.next_batch() < self.num_batches() && self.in_flight()
                < self.max_concurrent()),
    {
        self.next_batch < self.num_batches && self.in_flight < self.max_concurrent_batches
    }

    /// Launch the next batch: take one unit of admission capacity, advance the
    /// schedule, and hand back the batch's request range. The returned
    /// plan covers `size` requests starting at user identifier
    /// `user_offset`, inside the run's volume.
    pub fn launch_next(&mut self) -> (p: BatchPlan)
        requires
            old(self).wf(),
            old(self).next_batch() < old(self).num_batches(),
            old(self).in_flight() < old(self).max_concurrent(),
        ensures
            final(self).wf(),
            p.index == old(self).next_batch(),
            p.user_offset == spec_batch_offset(old(self).batch_size(), p.index as int),
            p.size == spec_batch_len(
                old(self).total_requests(),
                old(self).batch_size(),
                p.index as int,
            ),
            0 < p.size <= old(self).batch_size(),
            p.user_offset + p.size <= old(self).total_requests(),
            final(self).next_batch() == old(self).next_batch() + 1,
            final(self).in_flight() == old(self).in_flight() + 1,
            final(self).completed() == old(self).completed(),
            final(self).high_water() == if old(self).high_water() > old(self).in_flight() + 1 {
                old(self).high_water() as int
            } else {
                old(self).in_flight() + 1
            },
            old(self).same_config(*final(self)),
            old(self).same_outcomes(*final(self)),
    {
        proof {
            lemma_batch_bounds(self.total_requests, self.batch_size, self.next_batch as int);
        }
        let index = self.next_batch;
        let user_offset = index * self.batch_size;
        let remaining = self.total_requests - user_offset;
        let size = if remaining < self.batch_size {
            remaining
        } else {
            self.batch_size
        };
        self.next_batch = index + 1;
        self.in_flight = self.in_flight + 1;
        if self.high_water < self.in_flight {
            self.high_water = self.in_flight;
        }
        BatchPlan { index, user_offset, size }
    }

    /// Count one attempt's outcome: every attempt increments `attempted`,
    /// and exactly one of `succeeded` or `failed`. The bound on
    /// `attempted` is the machine limit of the counter.
    pub fn record_attempt(&mut self, success: bool)
        requires
            old(self).wf(),
            old(self).attempted() < u64::MAX,
        ensures
            final(self).wf(),
            final(self).attempted() == old(self).attempted() + 1,
            final(self).succeeded() == old(self).succeeded() + if success {
                1int
            } else {
                0int
            },
            final(self).failed() == old(self).failed() + if success {
                0int
            } else {
                1int
            },
            old(self).same_config(*final(self)),
            old(self).same_schedule(*final(self)),
    {
        self.attempted = self.attempted + 1;
        if success {
            self.succeeded = self.succeeded + 1;
        } else {
            self.failed = self.failed + 1;
        }
    }

    /// A batch finished (whatever its attempts' outcomes): release its
    /// unit of admission capacity exactly once.
    pub fn batch_done(&mut self)
        requires
            old(self).wf(),
            old(self).in_flight() > 0,
        ensures
            final(self).wf(),
            final(self).in_flight() == old(self).in_flight() - 1,
            final(self).completed() == old(self).completed() + 1,
            final(self).next_batch() == old(self).next_batch(),
            final(self).high_water() == old(self).high_water(),
            old(self).same_config(*final(self)),
            old(self).same_outcomes(*final(self)),
    {
        self.in_flight = self.in_flight - 1;
        self.completed_batches = self.completed_batches + 1;
    }

    /// Read the `attempted` counter.
    pub fn attempted_count(&self) -> (n: u64)
        ensures
            n == self.attempted(),
    {
        self.attempted
    }

    /// Read the `succeeded` counter.
    pub fn succeeded_count(&self) -> (n: u64)
        ensures
            n == self.succeeded(),
    {
        self.succeeded
    }

    /// Read the `failed` counter.
    pub fn failed_count(&self) -> (n: u64)
        ensures
            n == self.failed(),
    {
        self.failed
    }

    /// Read the admission high-water mark.
    pub fn high_water_mark(&self) -> (n: u64)
        ensures
            n == self.high_water(),
    {
        self.high_water
    }

    /// Read the number of batches of the run.
    pub fn batch_count(&self) -> (n: u64)
        ensures
            n == self.num_batches(),
    {
        self.num_batches
    }

    /// Whether the run has fully drained: every batch launched and every
    /// launched batch completed.
    pub fn is_done(&self) -> (r: bool)
        requires
            self.wf(),
        ensures
            r == (self.next_batch() == self.num_batches() && self.in_flight() == 0),
    {
        self.next_batch == self.num_batches && self.in_flight == 0
    }
}

/// Admission bound: at no reachable state do more batches hold admission
/// capacity than the limiter allows, and the high-water mark of
/// concurrent holders respects the same bound.
pub proof fn lemma_admission_bound(d: Dispatcher)
    requires
        d.wf(),
    ensures
        d.in_flight() <= d.max_concurrent(),
        d.high_water() <= d.max_concurrent(),
{
}

} // verus!
