//! Load-test statistics: request counters, a bounded reservoir of latency samples,
//! nearest-rank percentiles and the snapshots reported while a test runs.
//!
//! Durations are nanoseconds (`u64`). Rates and averages, which the snapshot reports as
//! ratios, are exact fractions; turning them into floating point is the caller's affair.
use vstd::prelude::*;
use vstd::relations::{sorted_by, total_ordering};
use vstd::seq_lib::group_to_multiset_ensures;
use crate::binary64::{f64_rank, f64_rank_index, lemma_f64_rank_mono};

verus! {

/// Number of per-code status counters (codes `0..600`).
pub const STATUS_BUCKETS: usize = 600;

/// One point of the completion distribution.
#[derive(Clone, Copy, Debug, PartialEq, Eq, Structural)]
pub struct PercentilePoint {
    pub percentile: u64,
    pub latency_nanos: u64,
}

/// How many responses carried one status code.
#[derive(Clone, Copy, Debug, PartialEq, Eq, Structural)]
pub struct StatusCodeStat {
    pub code: u16,
    pub count: u64,
}

/// An exact non-negative ratio `numerator / denominator` (the denominator is positive).
#[derive(Clone, Copy, Debug, PartialEq, Eq, Structural)]
pub struct Fraction {
    pub numerator: u128,
    pub denominator: u128,
}

/// Counters and averages only (the snapshot of the minimal metrics mode).
#[derive(Clone, Debug)]
pub struct CountersSnapshot {
    pub total_requests: u64,
    pub success: u64,
    pub failures: u64,
    pub avg_latency_nanos: u64,
    pub byte_count: u64,
    pub byte_count_up: u64,
    pub status_codes: Vec<StatusCodeStat>,
    pub status_no_response: u64,
    pub status_other: u64,
}

/// One snapshot, for live display and for the final result.
#[derive(Clone, Debug)]
pub struct MetricsSnapshot {
    pub elapsed_nanos: u64,
    pub progress: Fraction,
    pub total_requests: u64,
    pub success: u64,
    pub failures: u64,
    pub avg_latency_nanos: u64,
    pub p50_nanos: u64,
    pub p90_nanos: u64,
    pub p95_nanos: u64,
    pub p99_nanos: u64,
    /// Requests per second.
    pub rps: Fraction,
    /// Downstream bytes per second.
    pub throughput_bps: Fraction,
    /// Upstream bytes per second.
    pub throughput_bps_up: Fraction,
    pub total_bytes: u64,
    pub total_bytes_up: u64,
    pub avg_bytes_per_request: Fraction,
    pub avg_bytes_per_request_up: Fraction,
    pub status_codes: Vec<StatusCodeStat>,
    pub status_no_response: u64,
    pub status_other: u64,
    pub completion_buckets: Vec<PercentilePoint>,
    pub done: bool,
}

/// The abstract state of a [`LoadMetrics`].
pub struct MetricsView {
    pub total_requests: u64,
    pub success: u64,
    pub failures: u64,
    pub total_latency_nanos: u64,
    pub max_latency_nanos: u64,
    pub byte_count: u64,
    pub byte_count_up: u64,
    /// The reservoir of latency samples, oldest first.
    pub samples: Seq<u64>,
    pub max_samples: nat,
    /// Per-code counters, indexed by status code.
    pub status_counts: Seq<u64>,
    pub status_no_response: u64,
    pub status_other: u64,
}

/// Load-test statistics.
///
/// Counters wrap around at `2^64`, as the atomic counters of a shared recorder do.
pub struct LoadMetrics {
    total_requests: u64,
    success: u64,
    failures: u64,
    total_latency_nanos: u64,
    max_latency_nanos: u64,
    byte_count: u64,
    byte_count_up: u64,
    latency_samples_nanos: Vec<u64>,
    max_latency_samples: usize,
    status_counters: Vec<u64>,
    status_no_response: u64,
    status_other: u64,
}

impl View for LoadMetrics {
    type V = MetricsView;

    closed spec fn view(&self) -> MetricsView {
        MetricsView {
            total_requests: self.total_requests,
            success: self.success,
            failures: self.failures,
            total_latency_nanos: self.total_latency_nanos,
            max_latency_nanos: self.max_latency_nanos,
            byte_count: self.byte_count,
            byte_count_up: self.byte_count_up,
            samples: self.latency_samples_nanos@,
            max_samples: self.max_latency_samples as nat,
            status_counts: self.status_counters@,
            status_no_response: self.status_no_response,
            status_other: self.status_other,
        }
    }
}

/// The state invariant: one counter per status code, and a reservoir within its bound.
pub open spec fn view_wf(v: MetricsView) -> bool {
    &&& v.status_counts.len() == STATUS_BUCKETS
    &&& v.max_samples >= 1
    &&& v.max_samples <= usize::MAX
    &&& v.samples.len() <= v.max_samples
}

/// Every kept sample, and every one still waiting in `pending`, is at most the largest
/// latency recorded (as holds when each sample was also recorded as a request).
pub open spec fn samples_within_max(v: MetricsView, pending: Seq<u64>) -> bool {
    &&& forall|i: int| 0 <= i < v.samples.len() ==> #[trigger] v.samples[i] <= v.max_latency_nanos
    &&& forall|i: int| 0 <= i < pending.len() ==> #[trigger] pending[i] <= v.max_latency_nanos
}

/// The state after recording one request.
pub open spec fn record_step(
    v: MetricsView,
    latency_nanos: u64,
    bytes_down: u64,
    bytes_up: u64,
    ok: bool,
    status: Option<u16>,
) -> MetricsView {
    MetricsView {
        total_requests: v.total_requests.wrapping_add(1),
        success: if ok { v.success.wrapping_add(1) } else { v.success },
        failures: if ok { v.failures } else { v.failures.wrapping_add(1) },
        total_latency_nanos: v.total_latency_nanos.wrapping_add(latency_nanos),
        max_latency_nanos: if latency_nanos > v.max_latency_nanos {
            latency_nanos
        } else {
            v.max_latency_nanos
        },
        byte_count: v.byte_count.wrapping_add(bytes_down),
        byte_count_up: v.byte_count_up.wrapping_add(bytes_up),
        samples: v.samples,
        max_samples: v.max_samples,
        status_counts: match status {
            Some(code) => if (code as int) < STATUS_BUCKETS {
                v.status_counts.update(code as int, v.status_counts[code as int].wrapping_add(1))
            } else {
                v.status_counts
            },
            None => v.status_counts,
        },
        status_no_response: match status {
            Some(_) => v.status_no_response,
            None => v.status_no_response.wrapping_add(1),
        },
        status_other: match status {
            Some(code) => if (code as int) < STATUS_BUCKETS {
                v.status_other
            } else {
                v.status_other.wrapping_add(1)
            },
            None => v.status_other,
        },
    }
}

/// The last `max` elements of `s` (all of `s` when it is shorter).
pub open spec fn keep_last(s: Seq<u64>, max: nat) -> Seq<u64> {
    if s.len() > max {
        s.skip(s.len() - max)
    } else {
        s
    }
}

/// Non-zero per-code counters, in increasing code order.
pub open spec fn status_stats(counts: Seq<u64>) -> Seq<StatusCodeStat>
    decreases counts.len(),
{
    if counts.len() == 0 {
        Seq::empty()
    } else {
        let prev = status_stats(counts.drop_last());
        if counts.last() > 0 {
            prev.push(StatusCodeStat { code: (counts.len() - 1) as u16, count: counts.last() })
        } else {
            prev
        }
    }
}

/// Mean latency over `count` requests (zero when there are none).
pub open spec fn spec_avg_latency(total_latency_nanos: u64, count: u64) -> u64 {
    if count > 0 {
        total_latency_nanos / count
    } else {
        0
    }
}

/// Elapsed time as a rate denominator: at least one millisecond.
pub open spec fn clamp_elapsed(nanos: u64) -> u64 {
    if nanos < 1_000_000 {
        1_000_000
    } else {
        nanos
    }
}

/// `count` per second over `elapsed_nanos` (elapsed time counted as at least 1 ms).
pub open spec fn spec_rate(count: u64, elapsed_nanos: u64) -> Fraction {
    Fraction {
        numerator: (count as int * 1_000_000_000) as u128,
        denominator: clamp_elapsed(elapsed_nanos) as u128,
    }
}

/// `total / count`, zero when `count` is zero.
pub open spec fn spec_average(total: u64, count: u64) -> Fraction {
    if count > 0 {
        Fraction { numerator: total as u128, denominator: count as u128 }
    } else {
        Fraction { numerator: 0, denominator: 1 }
    }
}

/// `min(n / d, 1)` for a positive `d`.
pub open spec fn capped_ratio(n: u64, d: u64) -> Fraction {
    if n >= d {
        Fraction { numerator: 1, denominator: 1 }
    } else {
        Fraction { numerator: n as u128, denominator: d as u128 }
    }
}

/// `a < b` as numbers.
pub open spec fn frac_lt(a: Fraction, b: Fraction) -> bool {
    a.numerator * b.denominator < b.numerator * a.denominator
}

/// Progress of a run: elapsed over planned time, capped at one; with a request limit,
/// the larger of that and requests over the limit; exactly one when the run is done.
pub open spec fn spec_progress(
    elapsed_nanos: u64,
    planned_nanos: u64,
    total_requests: u64,
    total_requests_limit: Option<u64>,
    force_done: bool,
) -> Fraction {
    if force_done {
        Fraction { numerator: 1, denominator: 1 }
    } else {
        let time_progress = capped_ratio(clamp_elapsed(elapsed_nanos), clamp_elapsed(planned_nanos));
        match total_requests_limit {
            None => time_progress,
            Some(limit) => {
                let request_progress = capped_ratio(
                    total_requests,
                    if limit == 0 { 1 } else { limit },
                );
                if frac_lt(time_progress, request_progress) {
                    request_progress
                } else {
                    time_progress
                }
            },
        }
    }
}

/// A run is done when forced, when its time is up, or when it reached its request limit.
pub open spec fn spec_done(
    elapsed_nanos: u64,
    planned_nanos: u64,
    total_requests: u64,
    total_requests_limit: Option<u64>,
    force_done: bool,
) -> bool {
    force_done || elapsed_nanos >= planned_nanos || match total_requests_limit {
        Some(limit) => total_requests >= limit,
        None => false,
    }
}

/// The ascending order on latencies.
pub open spec fn ascending() -> spec_fn(u64, u64) -> bool {
    |a: u64, b: u64| a <= b
}

/// The samples in ascending order.
pub open spec fn sorted_samples(s: Seq<u64>) -> Seq<u64> {
    s.sort_by(ascending())
}

/// Zero-based index of the nearest-rank `p`-th percentile among `len > 0` values: the
/// rank `ceil(min(p, 100) / 100 * len)` as binary64 arithmetic computes it (see
/// [`f64_rank`]) less one, at least the first and at most the last.
pub open spec fn nearest_rank_index(p: u64, len: nat) -> int {
    let rank = f64_rank(p, len);
    let idx: int = if rank == 0 { 0 } else { rank - 1 };
    if idx > len - 1 {
        len - 1
    } else {
        idx
    }
}

/// The nearest-rank `p`-th percentile of the samples (zero without samples).
pub open spec fn spec_percentile(s: Seq<u64>, p: u64) -> u64 {
    if s.len() == 0 {
        0
    } else {
        sorted_samples(s)[nearest_rank_index(p, s.len())]
    }
}

/// One completion point per requested percentile; the 100th is the largest latency
/// ever recorded, the others come from the reservoir.
pub open spec fn spec_buckets(
    samples: Seq<u64>,
    max_latency_nanos: u64,
    percentiles: Seq<u64>,
) -> Seq<PercentilePoint> {
    Seq::new(
        percentiles.len(),
        |i: int|
            PercentilePoint {
                percentile: percentiles[i],
                latency_nanos: if percentiles[i] == 100 {
                    max_latency_nanos
                } else {
                    spec_percentile(samples, percentiles[i])
                },
            },
    )
}

/// Sorts a vector of latencies in ascending order (std's `slice::sort_unstable`).
#[verifier::external_body]
fn sort_ascending(v: &mut Vec<u64>)
    ensures
        sorted_by(final(v)@, ascending()),
        final(v)@.to_multiset() == old(v)@.to_multiset(),
{
    v.sort_unstable();
}

/// A sorted copy of the samples.
fn sorted_copy(samples: &[u64]) -> (r: Vec<u64>)
    ensures
        r@ == sorted_samples(samples@),
        r@.len() == samples@.len(),
{
    let mut data = vstd::slice::slice_to_vec(samples);
    sort_ascending(&mut data);
    proof {
        samples@.lemma_sort_by_ensures(ascending());
        assert(total_ordering(ascending()));
        vstd::seq_lib::lemma_sorted_unique(data@, sorted_samples(samples@), ascending());
        broadcast use group_to_multiset_ensures;
        assert(data@.len() == data@.to_multiset().len());
        assert(samples@.len() == samples@.to_multiset().len());
    }
    data
}

/// The nearest-rank index.
fn nearest_rank(p: u64, len: usize) -> (idx: usize)
    requires
        len > 0,
    ensures
        idx as int == nearest_rank_index(p, len as nat),
        idx < len,
{
    f64_rank_index(p, len)
}

/// The nearest-rank `p`-th percentile of the samples (zero without samples).
pub fn percentile_nanos(samples: &[u64], percentile: u64) -> (r: u64)
    ensures
        r == spec_percentile(samples@, percentile),
{
    if samples.len() == 0 {
        return 0;
    }
    let data = sorted_copy(samples);
    let idx = nearest_rank(percentile, samples.len());
    data[idx]
}

/// Percentile from an already sorted copy.
fn percentile_of_sorted(sorted: &Vec<u64>, Ghost(samples): Ghost<Seq<u64>>, p: u64) -> (r: u64)
    requires
        sorted@ == sorted_samples(samples),
        sorted@.len() == samples.len(),
    ensures
        r == spec_percentile(samples, p),
{
    if sorted.len() == 0 {
        return 0;
    }
    let idx = nearest_rank(p, sorted.len());
    sorted[idx]
}

/// One completion point per requested percentile (see [`spec_buckets`]).
pub fn build_percentile_points(
    samples: &[u64],
    max_latency_nanos: u64,
    percentiles: &[u64],
) -> (r: Vec<PercentilePoint>)
    ensures
        r@ == spec_buckets(samples@, max_latency_nanos, percentiles@),
{
    let sorted = sorted_copy(samples);
    proof {
        samples@.lemma_sort_by_ensures(ascending());
        broadcast use group_to_multiset_ensures;
        assert(sorted@.len() == sorted@.to_multiset().len());
        assert(samples@.len() == samples@.to_multiset().len());
    }
    let mut points: Vec<PercentilePoint> = Vec::new();
    let mut i: usize = 0;
    while i < percentiles.len()
        invariant
            i <= percentiles.len(),
            sorted@ == sorted_samples(samples@),
            sorted@.len() == samples@.len(),
            points@ == spec_buckets(samples@, max_latency_nanos, percentiles@).take(i as int),
        decreases percentiles.len() - i,
    {
        let p = percentiles[i];
        let nanos = if p == 100 {
            max_latency_nanos
        } else {
            percentile_of_sorted(&sorted, Ghost(samples@), p)
        };
        points.push(PercentilePoint { percentile: p, latency_nanos: nanos });
        proof {
            assert(spec_buckets(samples@, max_latency_nanos, percentiles@).take(i + 1)
                =~= spec_buckets(samples@, max_latency_nanos, percentiles@).take(i as int).push(
                PercentilePoint { percentile: p, latency_nanos: nanos },
            ));
        }
        i = i + 1;
    }
    proof {
        assert(spec_buckets(samples@, max_latency_nanos, percentiles@).take(
            percentiles@.len() as int,
        ) =~= spec_buckets(samples@, max_latency_nanos, percentiles@));
    }
    points
}

impl LoadMetrics {
    /// The state invariant (see [`view_wf`]).
    pub open spec fn wf(&self) -> bool {
        view_wf(self@)
    }

    /// A recorder with all counters at zero and a reservoir of at most
    /// `max(max_latency_samples, 1)` samples.
    pub fn new(max_latency_samples: usize) -> (r: Self)
        ensures
            r.wf(),
            r@.total_requests == 0,
            r@.success == 0,
            r@.failures == 0,
            r@.total_latency_nanos == 0,
            r@.max_latency_nanos == 0,
            r@.byte_count == 0,
            r@.byte_count_up == 0,
            r@.samples == Seq::<u64>::empty(),
            r@.max_samples == if max_latency_samples == 0 { 1 } else { max_latency_samples as nat },
            r@.status_counts == Seq::new(STATUS_BUCKETS as nat, |i: int| 0u64),
            r@.status_no_response == 0,
            r@.status_other == 0,
    {
        let status_counters: Vec<u64> = vec![0u64; STATUS_BUCKETS];
        let r = LoadMetrics {
            total_requests: 0,
            success: 0,
            failures: 0,
            total_latency_nanos: 0,
            max_latency_nanos: 0,
            byte_count: 0,
            byte_count_up: 0,
            latency_samples_nanos: Vec::new(),
            max_latency_samples: if max_latency_samples == 0 { 1 } else { max_latency_samples },
            status_counters,
            status_no_response: 0,
            status_other: 0,
        };
        assert(r@.status_counts =~= Seq::new(STATUS_BUCKETS as nat, |i: int| 0u64));
        r
    }

    /// Records the counters of one request: the request total, success or failure,
    /// bytes in both directions, its status (per code below 600, "other" above, "no
    /// response" without one), the latency sum and the largest latency.
    ///
    /// Latency samples for percentiles are not recorded here; see
    /// [`LoadMetrics::flush_latency_samples`].
    pub fn record_counters(
        &mut self,
        latency_nanos: u64,
        bytes_down: u64,
        bytes_up: u64,
        ok: bool,
        status: Option<u16>,
    )
        requires
            old(self).wf(),
        ensures
            final(self).wf(),
            final(self)@ == record_step(old(self)@, latency_nanos, bytes_down, bytes_up, ok, status),
    {
        self.total_requests = self.total_requests.wrapping_add(1);
        if ok {
            self.success = self.success.wrapping_add(1);
        } else {
            self.failures = self.failures.wrapping_add(1);
        }
        self.byte_count = self.byte_count.wrapping_add(bytes_down);
        self.byte_count_up = self.byte_count_up.wrapping_add(bytes_up);
        match status {
            Some(code) => {
                if (code as usize) < STATUS_BUCKETS {
                    let idx = code as usize;
                    let current = self.status_counters[idx];
                    self.status_counters.set(idx, current.wrapping_add(1));
                } else {
                    self.status_other = self.status_other.wrapping_add(1);
                }
            },
            None => {
                self.status_no_response = self.status_no_response.wrapping_add(1);
            },
        }
        self.total_latency_nanos = self.total_latency_nanos.wrapping_add(latency_nanos);
        if latency_nanos > self.max_latency_nanos {
            self.max_latency_nanos = latency_nanos;
        }
    }

    /// Moves a worker's buffered latency samples into the reservoir, which then keeps
    /// only its most recent `max_samples` samples; the buffer is left empty.
    pub fn flush_latency_samples(&mut self, samples: &mut Vec<u64>)
        requires
            old(self).wf(),
        ensures
            final(self).wf(),
            final(samples)@ == Seq::<u64>::empty(),
            final(self)@ == (MetricsView {
                samples: keep_last(old(self)@.samples + old(samples)@, old(self)@.max_samples),
                ..old(self)@
            }),
            samples_within_max(old(self)@, old(samples)@) ==> samples_within_max(
                final(self)@,
                Seq::<u64>::empty(),
            ),
    {
        proof {
            lemma_keep_last_within(old(self)@.samples, old(samples)@, old(self)@.max_samples, old(self)@.max_latency_nanos);
        }
        if samples.len() == 0 {
            assert(old(self)@.samples + old(samples)@ =~= old(self)@.samples);
            return;
        }
        self.latency_samples_nanos.append(samples);
        if self.latency_samples_nanos.len() > self.max_latency_samples {
            let drain_count = self.latency_samples_nanos.len() - self.max_latency_samples;
            let kept = self.latency_samples_nanos.split_off(drain_count);
            self.latency_samples_nanos = kept;
        }
        assert(self@.samples =~= keep_last(
            old(self)@.samples + old(samples)@,
            old(self)@.max_samples,
        ));
    }

    /// The latency samples kept for percentiles, oldest first.
    pub fn latency_samples(&self) -> (r: &Vec<u64>)
        ensures
            r@ == self@.samples,
    {
        &self.latency_samples_nanos
    }

    /// Non-zero status counters in code order, with the "no response" and "other" counts.
    pub fn status_snapshot(&self) -> (r: (Vec<StatusCodeStat>, u64, u64))
        requires
            self.wf(),
        ensures
            r.0@ == status_stats(self@.status_counts),
            r.1 == self@.status_no_response,
            r.2 == self@.status_other,
    {
        let mut codes: Vec<StatusCodeStat> = Vec::new();
        let mut i: usize = 0;
        while i < self.status_counters.len()
            invariant
                i <= self.status_counters.len(),
                codes@ == status_stats(self.status_counters@.take(i as int)),
            decreases self.status_counters.len() - i,
        {
            let count = self.status_counters[i];
            proof {
                assert(self.status_counters@.take(i + 1).drop_last()
                    =~= self.status_counters@.take(i as int));
            }
            if count > 0 {
                codes.push(StatusCodeStat { code: i as u16, count });
            }
            i = i + 1;
        }
        proof {
            assert(self.status_counters@.take(self.status_counters@.len() as int)
                =~= self.status_counters@);
        }
        (codes, self.status_no_response, self.status_other)
    }

    /// Counters and averages only.
    pub fn counters_snapshot(&self) -> (r: CountersSnapshot)
        requires
            self.wf(),
        ensures
            r.total_requests == self@.total_requests,
            r.success == self@.success,
            r.failures == self@.failures,
            r.avg_latency_nanos == spec_avg_latency(
                self@.total_latency_nanos,
                self@.total_requests,
            ),
            r.byte_count == self@.byte_count,
            r.byte_count_up == self@.byte_count_up,
            r.status_codes@ == status_stats(self@.status_counts),
            r.status_no_response == self@.status_no_response,
            r.status_other == self@.status_other,
    {
        let (status_codes, status_no_response, status_other) = self.status_snapshot();
        let avg_latency_nanos = if self.total_requests > 0 {
            self.total_latency_nanos / self.total_requests
        } else {
            0
        };
        CountersSnapshot {
            total_requests: self.total_requests,
            success: self.success,
            failures: self.failures,
            avg_latency_nanos,
            byte_count: self.byte_count,
            byte_count_up: self.byte_count_up,
            status_codes,
            status_no_response,
            status_other,
        }
    }

    /// A full snapshot, `elapsed_nanos` after the start of a run planned to last
    /// `planned_duration_nanos`: counters, rates, averages, the p50/p90/p95/p99 of the
    /// reservoir, one completion point per requested percentile, progress and whether
    /// the run is done.
    pub fn snapshot(
        &self,
        elapsed_nanos: u64,
        planned_duration_nanos: u64,
        percentiles: &[u64],
        total_requests_limit: Option<u64>,
        force_done: bool,
    ) -> (r: MetricsSnapshot)
        requires
            self.wf(),
        ensures
            r.elapsed_nanos == elapsed_nanos,
            r.progress == spec_progress(
                elapsed_nanos,
                planned_duration_nanos,
                self@.total_requests,
                total_requests_limit,
                force_done,
            ),
            r.total_requests == self@.total_requests,
            r.success == self@.success,
            r.failures == self@.failures,
            r.avg_latency_nanos == spec_avg_latency(
                self@.total_latency_nanos,
                self@.total_requests,
            ),
            r.p50_nanos == spec_percentile(self@.samples, 50),
            r.p90_nanos == spec_percentile(self@.samples, 90),
            r.p95_nanos == spec_percentile(self@.samples, 95),
            r.p99_nanos == spec_percentile(self@.samples, 99),
            r.rps == spec_rate(self@.total_requests, elapsed_nanos),
            r.throughput_bps == spec_rate(self@.byte_count, elapsed_nanos),
            r.throughput_bps_up == spec_rate(self@.byte_count_up, elapsed_nanos),
            r.total_bytes == self@.byte_count,
            r.total_bytes_up == self@.byte_count_up,
            r.avg_bytes_per_request == spec_average(self@.byte_count, self@.total_requests),
            r.avg_bytes_per_request_up == spec_average(self@.byte_count_up, self@.total_requests),
            r.status_codes@ == status_stats(self@.status_counts),
            r.status_no_response == self@.status_no_response,
            r.status_other == self@.status_other,
            r.completion_buckets@ == spec_buckets(
                self@.samples,
                self@.max_latency_nanos,
                percentiles@,
            ),
            r.done == spec_done(
                elapsed_nanos,
                planned_duration_nanos,
                self@.total_requests,
                total_requests_limit,
                force_done,
            ),
    {
        let counters = self.counters_snapshot();
        let samples = self.latency_samples_nanos.as_slice();
        let completion_buckets = build_percentile_points(
            samples,
            self.max_latency_nanos,
            percentiles,
        );
        let sorted = sorted_copy(samples);
        proof {
            samples@.lemma_sort_by_ensures(ascending());
            broadcast use group_to_multiset_ensures;
            assert(sorted@.len() == sorted@.to_multiset().len());
            assert(samples@.len() == samples@.to_multiset().len());
        }
        let p50 = percentile_of_sorted(&sorted, Ghost(samples@), 50);
        let p90 = percentile_of_sorted(&sorted, Ghost(samples@), 90);
        let p95 = percentile_of_sorted(&sorted, Ghost(samples@), 95);
        let p99 = percentile_of_sorted(&sorted, Ghost(samples@), 99);
        let total = self.total_requests;
        MetricsSnapshot {
            elapsed_nanos,
            progress: progress_fraction(
                elapsed_nanos,
                planned_duration_nanos,
                total,
                total_requests_limit,
                force_done,
            ),
            total_requests: total,
            success: counters.success,
            failures: counters.failures,
            avg_latency_nanos: counters.avg_latency_nanos,
            p50_nanos: p50,
            p90_nanos: p90,
            p95_nanos: p95,
            p99_nanos: p99,
            rps: rate(total, elapsed_nanos),
            throughput_bps: rate(self.byte_count, elapsed_nanos),
            throughput_bps_up: rate(self.byte_count_up, elapsed_nanos),
            total_bytes: self.byte_count,
            total_bytes_up: self.byte_count_up,
            avg_bytes_per_request: average(self.byte_count, total),
            avg_bytes_per_request_up: average(self.byte_count_up, total),
            status_codes: counters.status_codes,
            status_no_response: counters.status_no_response,
            status_other: counters.status_other,
            completion_buckets,
            done: done_flag(
                elapsed_nanos,
                planned_duration_nanos,
                total,
                total_requests_limit,
                force_done,
            ),
        }
    }
}

/// `count` per second over `elapsed_nanos`.
pub fn rate(count: u64, elapsed_nanos: u64) -> (r: Fraction)
    ensures
        r == spec_rate(count, elapsed_nanos),
{
    let denominator: u64 = if elapsed_nanos < 1_000_000 { 1_000_000 } else { elapsed_nanos };
    Fraction {
        numerator: (count as u128) * 1_000_000_000u128,
        denominator: denominator as u128,
    }
}

/// `total / count`, zero when `count` is zero.
pub fn average(total: u64, count: u64) -> (r: Fraction)
    ensures
        r == spec_average(total, count),
{
    if count > 0 {
        Fraction { numerator: total as u128, denominator: count as u128 }
    } else {
        Fraction { numerator: 0, denominator: 1 }
    }
}

fn capped(n: u64, d: u64) -> (r: Fraction)
    ensures
        r == capped_ratio(n, d),
{
    if n >= d {
        Fraction { numerator: 1, denominator: 1 }
    } else {
        Fraction { numerator: n as u128, denominator: d as u128 }
    }
}

/// Progress of a run (see [`spec_progress`]).
pub fn progress_fraction(
    elapsed_nanos: u64,
    planned_nanos: u64,
    total_requests: u64,
    total_requests_limit: Option<u64>,
    force_done: bool,
) -> (r: Fraction)
    ensures
        r == spec_progress(
            elapsed_nanos,
            planned_nanos,
            total_requests,
            total_requests_limit,
            force_done,
        ),
{
    if force_done {
        return Fraction { numerator: 1, denominator: 1 };
    }
    let elapsed: u64 = if elapsed_nanos < 1_000_000 { 1_000_000 } else { elapsed_nanos };
    let planned: u64 = if planned_nanos < 1_000_000 { 1_000_000 } else { planned_nanos };
    let time_progress = capped(elapsed, planned);
    match total_requests_limit {
        None => time_progress,
        Some(limit) => {
            let request_progress = capped(total_requests, if limit == 0 { 1 } else { limit });
            proof {
                assert(time_progress.numerator <= u64::MAX && time_progress.denominator <= u64::MAX);
                assert(request_progress.numerator <= u64::MAX && request_progress.denominator
                    <= u64::MAX);
                assert(time_progress.numerator * request_progress.denominator <= u64::MAX
                    * u64::MAX) by (nonlinear_arith)
                    requires
                        time_progress.numerator <= u64::MAX,
                        request_progress.denominator <= u64::MAX,
                ;
                assert(request_progress.numerator * time_progress.denominator <= u64::MAX
                    * u64::MAX) by (nonlinear_arith)
                    requires
                        request_progress.numerator <= u64::MAX,
                        time_progress.denominator <= u64::MAX,
                ;
            }
            if time_progress.numerator * request_progress.denominator < request_progress.numerator
                * time_progress.denominator {
                request_progress
            } else {
                time_progress
            }
        },
    }
}

/// Whether a run is done (see [`spec_done`]).
pub fn done_flag(
    elapsed_nanos: u64,
    planned_nanos: u64,
    total_requests: u64,
    total_requests_limit: Option<u64>,
    force_done: bool,
) -> (r: bool)
    ensures
        r == spec_done(
            elapsed_nanos,
            planned_nanos,
            total_requests,
            total_requests_limit,
            force_done,
        ),
{
    force_done || elapsed_nanos >= planned_nanos || match total_requests_limit {
        Some(limit) => total_requests >= limit,
        None => false,
    }
}

/// The snapshot of the minimal metrics mode: counters, rates and averages only, with
/// zero percentiles and no completion points.
pub fn minimal_snapshot(
    metrics: &LoadMetrics,
    elapsed_nanos: u64,
    duration_nanos: u64,
    total_requests_limit: Option<u64>,
    force_done: bool,
) -> (r: MetricsSnapshot)
    requires
        metrics.wf(),
    ensures
        r.elapsed_nanos == elapsed_nanos,
        r.progress == spec_progress(
            elapsed_nanos,
            duration_nanos,
            metrics@.total_requests,
            total_requests_limit,
            force_done,
        ),
        r.total_requests == metrics@.total_requests,
        r.success == metrics@.success,
        r.failures == metrics@.failures,
        r.avg_latency_nanos == spec_avg_latency(
            metrics@.total_latency_nanos,
            metrics@.total_requests,
        ),
        r.p50_nanos == 0 && r.p90_nanos == 0 && r.p95_nanos == 0 && r.p99_nanos == 0,
        r.rps == spec_rate(metrics@.total_requests, elapsed_nanos),
        r.throughput_bps == spec_rate(metrics@.byte_count, elapsed_nanos),
        r.throughput_bps_up == spec_rate(metrics@.byte_count_up, elapsed_nanos),
        r.total_bytes == metrics@.byte_count,
        r.total_bytes_up == metrics@.byte_count_up,
        r.avg_bytes_per_request == spec_average(metrics@.byte_count, metrics@.total_requests),
        r.avg_bytes_per_request_up == spec_average(
            metrics@.byte_count_up,
            metrics@.total_requests,
        ),
        r.status_codes@ == status_stats(metrics@.status_counts),
        r.status_no_response == metrics@.status_no_response,
        r.status_other == metrics@.status_other,
        r.completion_buckets@ == Seq::<PercentilePoint>::empty(),
        r.done == spec_done(
            elapsed_nanos,
            duration_nanos,
            metrics@.total_requests,
            total_requests_limit,
            force_done,
        ),
{
    let counters = metrics.counters_snapshot();
    let total = counters.total_requests;
    MetricsSnapshot {
        elapsed_nanos,
        progress: progress_fraction(
            elapsed_nanos,
            duration_nanos,
            total,
            total_requests_limit,
            force_done,
        ),
        total_requests: total,
        success: counters.success,
        failures: counters.failures,
        avg_latency_nanos: counters.avg_latency_nanos,
        p50_nanos: 0,
        p90_nanos: 0,
        p95_nanos: 0,
        p99_nanos: 0,
        rps: rate(total, elapsed_nanos),
        throughput_bps: rate(counters.byte_count, elapsed_nanos),
        throughput_bps_up: rate(counters.byte_count_up, elapsed_nanos),
        total_bytes: counters.byte_count,
        total_bytes_up: counters.byte_count_up,
        avg_bytes_per_request: average(counters.byte_count, total),
        avg_bytes_per_request_up: average(counters.byte_count_up, total),
        status_codes: counters.status_codes,
        status_no_response: counters.status_no_response,
        status_other: counters.status_other,
        completion_buckets: Vec::new(),
        done: done_flag(elapsed_nanos, duration_nanos, total, total_requests_limit, force_done),
    }
}

/// Sum of a sequence of counters.
pub open spec fn seq_sum(s: Seq<u64>) -> int
    decreases s.len(),
{
    if s.len() == 0 {
        0
    } else {
        seq_sum(s.drop_last()) + s.last()
    }
}

/// Every recorded request is counted once as a success or a failure, and once under
/// exactly one status category (modulo the `2^64` wrap-around of the counters).
pub open spec fn accounting_balanced(v: MetricsView) -> bool {
    &&& (v.success + v.failures) % 0x1_0000_0000_0000_0000 == v.total_requests as int
    &&& (seq_sum(v.status_counts) + v.status_no_response + v.status_other)
        % 0x1_0000_0000_0000_0000 == v.total_requests as int
}

proof fn lemma_seq_sum_update(s: Seq<u64>, i: int, x: u64)
    requires
        0 <= i < s.len(),
    ensures
        seq_sum(s.update(i, x)) == seq_sum(s) - s[i] + x,
    decreases s.len(),
{
    if i == s.len() - 1 {
        assert(s.update(i, x).drop_last() =~= s.drop_last());
    } else {
        lemma_seq_sum_update(s.drop_last(), i, x);
        assert(s.update(i, x).drop_last() =~= s.drop_last().update(i, x));
    }
}

proof fn lemma_seq_sum_zeros(n: nat)
    ensures
        seq_sum(Seq::new(n, |i: int| 0u64)) == 0,
    decreases n,
{
    if n > 0 {
        lemma_seq_sum_zeros((n - 1) as nat);
        assert(Seq::new(n, |i: int| 0u64).drop_last() =~= Seq::new((n - 1) as nat, |i: int| 0u64));
    }
}

/// Adding one with wrap-around, as arithmetic modulo `2^64`.
proof fn lemma_wrapping_increment(a: u64)
    ensures
        a.wrapping_add(1) as int == (a + 1) % 0x1_0000_0000_0000_0000,
{
    if a == u64::MAX {
        assert((a + 1) % 0x1_0000_0000_0000_0000 == 0);
    } else {
        assert((a + 1) % 0x1_0000_0000_0000_0000 == a + 1);
    }
}

/// If `x % M == t` then `(x + 1 - k * M) % M == (t + 1) % M` for a wrap `k` of 0 or 1.
proof fn lemma_mod_step(x: int, t: int, y: int)
    requires
        x % 0x1_0000_0000_0000_0000 == t,
        y == x + 1 || y == x + 1 - 0x1_0000_0000_0000_0000,
    ensures
        y % 0x1_0000_0000_0000_0000 == (t + 1) % 0x1_0000_0000_0000_0000,
{
    let m: int = 0x1_0000_0000_0000_0000;
    vstd::arithmetic::div_mod::lemma_add_mod_noop(x, 1, m);
    vstd::arithmetic::div_mod::lemma_small_mod(1, m as nat);
    if y != x + 1 {
        vstd::arithmetic::div_mod::lemma_mod_add_multiples_vanish(y, m);
    }
}

/// Sum of the counts of status rows.
pub open spec fn rows_sum(rows: Seq<StatusCodeStat>) -> int
    decreases rows.len(),
{
    if rows.len() == 0 {
        0
    } else {
        rows_sum(rows.drop_last()) + rows.last().count
    }
}

/// The status rows of per-code counters: their counts add up to the counters' sum, the
/// codes are below the number of counters and strictly ascending, and no count is zero.
proof fn lemma_status_rows(counts: Seq<u64>)
    requires
        counts.len() <= STATUS_BUCKETS,
    ensures
        rows_sum(status_stats(counts)) == seq_sum(counts),
        forall|i: int|
            0 <= i < status_stats(counts).len() ==> (#[trigger] status_stats(counts)[i]).code < counts.len()
                && status_stats(counts)[i].count > 0,
        forall|i: int, j: int|
            0 <= i < j < status_stats(counts).len() ==> (#[trigger] status_stats(counts)[i]).code
                < (#[trigger] status_stats(counts)[j]).code,
    decreases counts.len(),
{
    if counts.len() > 0 {
        let prev = counts.drop_last();
        lemma_status_rows(prev);
        let rows = status_stats(prev);
        if counts.last() > 0 {
            let row = StatusCodeStat { code: (counts.len() - 1) as u16, count: counts.last() };
            let all = rows.push(row);
            assert(all.drop_last() =~= rows);
            assert(row.code == counts.len() - 1);
            assert forall|i: int| 0 <= i < all.len() implies (#[trigger] all[i]).code < counts.len() && all[i].count > 0 by {
                if i < rows.len() {
                    assert(all[i] == rows[i]);
                }
            }
            assert forall|i: int, j: int| 0 <= i < j < all.len() implies (#[trigger] all[i]).code < (#[trigger] all[j]).code by {
                assert(all[i] == rows[i]);
                if j < rows.len() {
                    assert(all[j] == rows[j]);
                }
            }
        }
    }
}

/// What a snapshot of balanced books reports adds up: successes and failures make the
/// request total, and so do the status rows with the "no response" and "other" counts
/// (each modulo `2^64`, as the counters wrap); the rows are in strictly ascending code
/// order, each code below 600 and each count non-zero.
pub proof fn lemma_snapshot_accounting(v: MetricsView)
    requires
        view_wf(v),
        accounting_balanced(v),
    ensures
        (v.success + v.failures) % 0x1_0000_0000_0000_0000 == v.total_requests as int,
        (rows_sum(status_stats(v.status_counts)) + v.status_no_response + v.status_other)
            % 0x1_0000_0000_0000_0000 == v.total_requests as int,
        forall|i: int|
            0 <= i < status_stats(v.status_counts).len() ==> (#[trigger] status_stats(v.status_counts)[i]).code
                < STATUS_BUCKETS && status_stats(v.status_counts)[i].count > 0,
        forall|i: int, j: int|
            0 <= i < j < status_stats(v.status_counts).len() ==> (#[trigger] status_stats(v.status_counts)[i]).code
                < (#[trigger] status_stats(v.status_counts)[j]).code,
{
    lemma_status_rows(v.status_counts);
}

/// A fresh recorder is balanced.
pub proof fn lemma_new_balanced(m: LoadMetrics)
    requires
        m@.total_requests == 0,
        m@.success == 0,
        m@.failures == 0,
        m@.status_counts == Seq::new(STATUS_BUCKETS as nat, |i: int| 0u64),
        m@.status_no_response == 0,
        m@.status_other == 0,
    ensures
        accounting_balanced(m@),
{
    lemma_seq_sum_zeros(STATUS_BUCKETS as nat);
}

/// Recording a request keeps the books balanced: the request total always equals
/// successes plus failures, and equals the sum of all status categories.
pub proof fn lemma_record_keeps_balance(
    v: MetricsView,
    latency_nanos: u64,
    bytes_down: u64,
    bytes_up: u64,
    ok: bool,
    status: Option<u16>,
)
    requires
        view_wf(v),
        accounting_balanced(v),
    ensures
        accounting_balanced(record_step(v, latency_nanos, bytes_down, bytes_up, ok, status)),
{
    let w = record_step(v, latency_nanos, bytes_down, bytes_up, ok, status);
    let m: int = 0x1_0000_0000_0000_0000;
    lemma_wrapping_increment(v.total_requests);
    lemma_wrapping_increment(v.success);
    lemma_wrapping_increment(v.failures);
    lemma_wrapping_increment(v.status_no_response);
    lemma_wrapping_increment(v.status_other);
    lemma_mod_step(v.success + v.failures, v.total_requests as int, w.success + w.failures);
    let before = seq_sum(v.status_counts) + v.status_no_response + v.status_other;
    let after = seq_sum(w.status_counts) + w.status_no_response + w.status_other;
    match status {
        Some(code) => {
            if (code as int) < STATUS_BUCKETS {
                let c = code as int;
                lemma_wrapping_increment(v.status_counts[c]);
                lemma_seq_sum_update(v.status_counts, c, v.status_counts[c].wrapping_add(1));
            }
        },
        None => {},
    }
    lemma_mod_step(before, v.total_requests as int, after);
}

/// The nearest-rank index grows with the percentile.
proof fn lemma_rank_monotone(p: u64, q: u64, len: nat)
    requires
        p <= q,
        len > 0,
    ensures
        nearest_rank_index(p, len) <= nearest_rank_index(q, len),
{
    lemma_f64_rank_mono(p, q, len);
}

/// What the reservoir keeps of samples at most `max` is at most `max`.
proof fn lemma_keep_last_within(kept: Seq<u64>, pending: Seq<u64>, n: nat, max: u64)
    ensures
        (forall|i: int| 0 <= i < kept.len() ==> #[trigger] kept[i] <= max) && (forall|i: int|
            0 <= i < pending.len() ==> #[trigger] pending[i] <= max) ==> forall|i: int|
            0 <= i < keep_last(kept + pending, n).len() ==> #[trigger] keep_last(kept + pending, n)[i]
                <= max,
{
    let s = kept + pending;
    if (forall|i: int| 0 <= i < kept.len() ==> #[trigger] kept[i] <= max) && (forall|i: int|
        0 <= i < pending.len() ==> #[trigger] pending[i] <= max) {
        assert forall|i: int| 0 <= i < s.len() implies #[trigger] s[i] <= max by {
            if i < kept.len() {
                assert(s[i] == kept[i]);
            } else {
                assert(s[i] == pending[i - kept.len()]);
            }
        }
        assert forall|i: int| 0 <= i < keep_last(s, n).len() implies #[trigger] keep_last(s, n)[i] <= max by {
            if s.len() > n {
                assert(keep_last(s, n)[i] == s[s.len() - n + i]);
            }
        }
    }
}

/// No percentile exceeds the largest latency recorded, when every kept sample was also
/// recorded as a request: the reported p50..p99 and every completion point are at most it.
pub proof fn lemma_percentiles_within_max(v: MetricsView, p: u64, percentiles: Seq<u64>)
    requires
        samples_within_max(v, Seq::<u64>::empty()),
    ensures
        spec_percentile(v.samples, p) <= v.max_latency_nanos,
        forall|i: int|
            0 <= i < percentiles.len() ==> #[trigger] spec_buckets(v.samples, v.max_latency_nanos, percentiles)[i].latency_nanos
                <= v.max_latency_nanos,
{
    assert forall|q: u64| #[trigger] spec_percentile(v.samples, q) <= v.max_latency_nanos by {
        if v.samples.len() > 0 {
            lemma_percentile_is_sample(v.samples, q);
            let x = spec_percentile(v.samples, q);
            let j = choose|j: int| 0 <= j < v.samples.len() && v.samples[j] == x;
            assert(v.samples[j] <= v.max_latency_nanos);
        }
    }
    assert forall|i: int| 0 <= i < percentiles.len() implies #[trigger] spec_buckets(
        v.samples,
        v.max_latency_nanos,
        percentiles,
    )[i].latency_nanos <= v.max_latency_nanos by {
        assert(spec_percentile(v.samples, percentiles[i]) <= v.max_latency_nanos);
    }
}

/// The completion points follow the requested percentiles one for one: each carries its
/// percentile, the 100th reports the largest latency recorded, and every other one the
/// nearest-rank percentile of the reservoir samples.
pub proof fn lemma_completion_points(samples: Seq<u64>, max_latency_nanos: u64, percentiles: Seq<u64>)
    ensures
        spec_buckets(samples, max_latency_nanos, percentiles).len() == percentiles.len(),
        forall|i: int|
            0 <= i < percentiles.len() ==> (#[trigger] spec_buckets(samples, max_latency_nanos, percentiles)[i]).percentile
                == percentiles[i],
        forall|i: int|
            0 <= i < percentiles.len() && percentiles[i] == 100 ==> (#[trigger] spec_buckets(
                samples,
                max_latency_nanos,
                percentiles,
            )[i]).latency_nanos == max_latency_nanos,
        forall|i: int|
            0 <= i < percentiles.len() && percentiles[i] != 100 ==> (#[trigger] spec_buckets(
                samples,
                max_latency_nanos,
                percentiles,
            )[i]).latency_nanos == percentile_of(samples, percentiles[i]),
{
    assert forall|i: int| 0 <= i < percentiles.len() && percentiles[i] != 100 implies (#[trigger] spec_buckets(
        samples,
        max_latency_nanos,
        percentiles,
    )[i]).latency_nanos == percentile_of(samples, percentiles[i]) by {
        lemma_percentile_of(samples, percentiles[i]);
    }
}

/// The nearest-rank `p`-th percentile of a reservoir: with the samples sorted
/// ascending, the value at `rank - 1`, where `rank` is the binary64 rank of `p` (see
/// [`f64_rank`]), kept within the samples; zero without samples.
pub open spec fn percentile_of(s: Seq<u64>, p: u64) -> u64 {
    if s.len() == 0 {
        0
    } else {
        let rank = f64_rank(p, s.len());
        let i: int = if rank <= 1 { 0 } else if rank > s.len() { s.len() - 1 } else { rank - 1 };
        s.sort_by(|a: u64, b: u64| a <= b)[i]
    }
}

proof fn lemma_percentile_of(s: Seq<u64>, p: u64)
    ensures
        spec_percentile(s, p) == percentile_of(s, p),
{
    lemma_f64_rank_mono(p, p, s.len());
    assert(ascending() == (|a: u64, b: u64| a <= b));
}

/// Progress is never behind the clock: unless the run is forced done, it is at least
/// the time elapsed over the time planned (each at least 1 ms, capped at one); with a
/// request limit it is the larger of that and the requests made over the limit (capped
/// at one); without one it is the time progress; forced, it is one.
pub proof fn lemma_progress_is_larger_share(
    elapsed_nanos: u64,
    planned_nanos: u64,
    total_requests: u64,
    total_requests_limit: Option<u64>,
    force_done: bool,
)
    ensures
        ({
            let f = spec_progress(elapsed_nanos, planned_nanos, total_requests, total_requests_limit, force_done);
            let e: u64 = if elapsed_nanos < 1_000_000 { 1_000_000 } else { elapsed_nanos };
            let d: u64 = if planned_nanos < 1_000_000 { 1_000_000 } else { planned_nanos };
            let time = if e >= d {
                Fraction { numerator: 1, denominator: 1 }
            } else {
                Fraction { numerator: e as u128, denominator: d as u128 }
            };
            &&& force_done ==> f == Fraction { numerator: 1, denominator: 1 }
            &&& !force_done ==> f.numerator * time.denominator >= time.numerator * f.denominator
            &&& !force_done && total_requests_limit is None ==> f == time
            &&& !force_done && total_requests_limit is Some ==> {
                let l: u64 = if total_requests_limit->Some_0 == 0 { 1 } else { total_requests_limit->Some_0 };
                let req = if total_requests >= l {
                    Fraction { numerator: 1, denominator: 1 }
                } else {
                    Fraction { numerator: total_requests as u128, denominator: l as u128 }
                };
                &&& f.numerator * req.denominator >= req.numerator * f.denominator
                &&& (f == time || f == req)
            }
        }),
{
}

/// Percentiles are monotone: a higher percentile is never a smaller latency.
pub proof fn lemma_percentile_monotone(s: Seq<u64>, p: u64, q: u64)
    requires
        p <= q,
    ensures
        spec_percentile(s, p) <= spec_percentile(s, q),
{
    if s.len() > 0 {
        s.lemma_sort_by_ensures(ascending());
        broadcast use group_to_multiset_ensures;
        assert(sorted_samples(s).len() == sorted_samples(s).to_multiset().len());
        assert(s.len() == s.to_multiset().len());
        lemma_rank_monotone(p, q, s.len());
        lemma_f64_rank_mono(p, p, s.len());
        lemma_f64_rank_mono(q, q, s.len());
        let i = nearest_rank_index(p, s.len());
        let j = nearest_rank_index(q, s.len());
        if i < j {
            assert((ascending())(sorted_samples(s)[i], sorted_samples(s)[j]));
        }
    }
}

/// A percentile of a non-empty reservoir is one of its samples.
pub proof fn lemma_percentile_is_sample(s: Seq<u64>, p: u64)
    requires
        s.len() > 0,
    ensures
        s.contains(spec_percentile(s, p)),
{
    s.lemma_sort_by_ensures(ascending());
    broadcast use group_to_multiset_ensures;
    assert(sorted_samples(s).len() == sorted_samples(s).to_multiset().len());
    assert(s.len() == s.to_multiset().len());
    lemma_f64_rank_mono(p, p, s.len());
    let i = nearest_rank_index(p, s.len());
    assert(0 <= i < s.len());
    let x = sorted_samples(s)[i];
    assert(sorted_samples(s).contains(x));
    assert(sorted_samples(s).to_multiset().count(x) > 0);
}

/// Progress never exceeds one, and a forced or finished run reports exactly one only
/// when forced.
pub proof fn lemma_progress_at_most_one(
    elapsed_nanos: u64,
    planned_nanos: u64,
    total_requests: u64,
    total_requests_limit: Option<u64>,
    force_done: bool,
)
    ensures
        ({
            let f = spec_progress(
                elapsed_nanos,
                planned_nanos,
                total_requests,
                total_requests_limit,
                force_done,
            );
            &&& f.denominator > 0
            &&& f.numerator <= f.denominator
            &&& force_done ==> f.numerator == f.denominator
        }),
{
}

/// The reservoir never holds more than its bound, and holds the most recent samples.
pub proof fn lemma_reservoir_keeps_latest(s: Seq<u64>, max: nat)
    requires
        max >= 1,
    ensures
        keep_last(s, max).len() <= max,
        keep_last(s, max).len() == if s.len() < max { s.len() } else { max },
        forall|i: int|
            0 <= i < keep_last(s, max).len() ==> #[trigger] keep_last(s, max)[i] == s[s.len()
                - keep_last(s, max).len() + i],
{
}

} // verus!
