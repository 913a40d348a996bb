//! Thread churn and resource retention.
//!
//! The provider deliberately never destroys a thread's cached device chain when
//! the thread exits. That is an assumption about the host's threading behaviour,
//! so this suite measures it instead of trusting it:
//!
//!   * **Stable pool**: a fixed set of threads doing a lot of work. Retention must
//!     be flat, because no thread ever exits.
//!
//!   * **Thread churn**: many one-shot rendering threads. Every one of them leaks
//!     its cache by design, so growth is expected; what is measured is the slope
//!     in bytes retained per completed rendering thread.
//!
//! The thresholds are intentionally generous: they catch an order-of-magnitude
//! regression, not normal allocator variance.

use vstd::prelude::*;
use vstd::relations::{sorted_by, total_ordering};
use crate::metrics::{mib1, mib1_text, Delta, Snapshot};
use crate::numbers::{dec, decimal, magnitude};
use crate::report::{one_check, outcome_of, Outcome, Report, ReportView};
use crate::text::{five, no_texts, pad_left, push_text, right_in, texts, three, two};

verus! {

// ---------------------------------------------------------------
//                           Percentiles
// ---------------------------------------------------------------

/// Ascending order.
pub open spec fn ascending() -> spec_fn(u64, u64) -> bool {
    |a: u64, b: u64| a <= b
}

/// The place of a percentile among `n` values in ascending order: the nearest
/// one, and the later one half-way.
pub open spec fn rank(n: nat, percent: nat) -> int {
    ((n - 1) * percent + 50) / 100
}

/// A percentile of a sample; zero for an empty one.
pub open spec fn percentile(values: Seq<u64>, percent: nat) -> u64 {
    if values.len() == 0 {
        0
    } else {
        values.sort_by(ascending())[rank(values.len(), percent)]
    }
}

/// `slice::sort_unstable` of std: puts the values into ascending order, and
/// keeps each of them as often as it was there.
#[verifier::external_body]
fn sort_ascending(v: &mut Vec<u64>)
    ensures
        final(v)@.to_multiset() == old(v)@.to_multiset(),
        forall|i: int, j: int| 0 <= i <= j < final(v)@.len() ==> final(v)@[i] <= final(v)@[j],
{
    v.sort_unstable()
}

fn at_rank(v: &Vec<u64>, percent: usize) -> (r: u64)
    requires
        v@.len() > 0,
        percent <= 100,
    ensures
        r == v@[rank(v@.len(), percent as nat)],
{
    let last: u128 = (v.len() - 1) as u128;
    proof {
        assert(0 <= last * percent <= last * 100) by (nonlinear_arith)
            requires
                0 <= percent <= 100,
                last >= 0,
        ;
        assert((v@.len() - 1) * percent as nat == last * percent) by (nonlinear_arith)
            requires
                last == v@.len() - 1,
        ;
    }
    let i: usize = ((last * percent as u128 + 50) / 100) as usize;
    v[i]
}

/// p50 / p95 / p99 of a latency sample, in microseconds.
pub fn percentiles(values: &[u64]) -> (r: (u64, u64, u64))
    ensures
        r.0 == percentile(values@, 50),
        r.1 == percentile(values@, 95),
        r.2 == percentile(values@, 99),
{
    if values.len() == 0 {
        return (0, 0, 0);
    }
    let mut v: Vec<u64> = vstd::slice::slice_to_vec(values);
    sort_ascending(&mut v);
    proof {
        let leq = ascending();
        assert(total_ordering(leq));
        values@.lemma_sort_by_ensures(leq);
        assert(sorted_by(v@, leq));
        vstd::seq_lib::lemma_sorted_unique(v@, values@.sort_by(leq), leq);
        assert(v@.len() == values@.len()) by {
            broadcast use vstd::seq_lib::group_to_multiset_ensures;
            assert(v@.to_multiset().len() == values@.to_multiset().len());
        }
    }
    (at_rank(&v, 50), at_rank(&v, 95), at_rank(&v, 99))
}

/// Higher percentiles are never smaller.
pub proof fn percentiles_are_ordered(values: Seq<u64>, low: nat, high: nat)
    requires
        low <= high <= 100,
    ensures
        percentile(values, low) <= percentile(values, high),
{
    if values.len() > 0 {
        let leq = ascending();
        let sorted = values.sort_by(leq);
        let last = values.len() - 1;
        assert(total_ordering(leq));
        values.lemma_sort_by_ensures(leq);
        assert(sorted.len() == values.len()) by {
            broadcast use vstd::seq_lib::group_to_multiset_ensures;
            assert(sorted.to_multiset().len() == values.to_multiset().len());
        }
        assert(0 <= last * low <= last * high <= last * 100) by (nonlinear_arith)
            requires
                0 <= low <= high <= 100,
                last >= 0,
        ;
        let i = rank(values.len(), low);
        let j = rank(values.len(), high);
        assert(0 <= i <= j < sorted.len());
        if i < j {
            assert(leq(sorted[i], sorted[j]));
        }
    }
}

// ---------------------------------------------------------------
//                            Workload
// ---------------------------------------------------------------

/// Threads of the stable pool.
pub const POOL_THREADS: usize = 8;

/// Renders that build a thread's cache before anything is measured.
pub const WARM_UP: usize = 5;

/// How much work a scale stands for.
#[derive(Debug, Clone, Copy, PartialEq, Eq, Structural)]
pub struct Workload {
    /// Renders per thread of the stable pool.
    pub per_thread: usize,
    /// Renders of the whole stable pool.
    pub pool_total: usize,
    /// Renders over which GDI objects are counted.
    pub gdi_renders: usize,
    /// Rounds of three renders that fail.
    pub failing_rounds: usize,
    /// Renders that fail.
    pub failing_renders: usize,
}

/// The work is the one at a given scale.
pub open spec fn work_at(w: Workload, scale: nat) -> bool {
    &&& w.per_thread == 250 * scale
    &&& w.pool_total == 2000 * scale
    &&& w.gdi_renders == 400 * scale
    &&& w.failing_rounds == 300 * scale
    &&& w.failing_renders == 900 * scale
}

/// The work at a given scale; nothing when it does not fit into a `usize`.
pub fn workload(scale: usize) -> (r: Option<Workload>)
    ensures
        match r {
            Some(w) => work_at(w, scale as nat),
            None => 2000 * scale > usize::MAX,
        },
{
    if scale > usize::MAX / 2000 {
        return None;
    }
    Some(
        Workload {
            per_thread: 250 * scale,
            pool_total: 2000 * scale,
            gdi_renders: 400 * scale,
            failing_rounds: 300 * scale,
            failing_renders: 900 * scale,
        },
    )
}

/// How many one-shot threads each stage runs: stages chosen so that the slope can
/// be fitted across two orders of magnitude.
pub open spec fn stage_list(scale: usize) -> Seq<usize> {
    if scale > 1 {
        seq![1usize, 8, 64, 256, 1024]
    } else {
        seq![1usize, 8, 64, 256]
    }
}

pub fn stages(scale: usize) -> (v: Vec<usize>)
    ensures
        v@ == stage_list(scale),
{
    let mut v: Vec<usize> = vec![1usize, 8, 64, 256];
    if scale > 1 {
        v.push(1024);
    }
    assert(v@ =~= stage_list(scale));
    v
}

/// Threads that run at once. The point is the number of threads completed, and a
/// thousand simultaneous devices would exhaust the machine for other reasons.
pub const MAX_BATCH: usize = 16;

/// How many threads the next batch runs, with `remaining` still to go.
pub open spec fn batch_of(remaining: nat) -> nat {
    if remaining <= MAX_BATCH {
        remaining
    } else {
        MAX_BATCH as nat
    }
}

/// How many threads the next batch runs, with `remaining` still to go.
pub fn next_batch(remaining: usize) -> (n: usize)
    ensures
        n == batch_of(remaining as nat),
{
    if remaining <= MAX_BATCH {
        remaining
    } else {
        MAX_BATCH
    }
}

/// The `i`-th input of the GDI count is invalid.
pub open spec fn invalid_at(i: nat) -> bool {
    i % 3 == 0
}

/// The `i`-th input of the GDI count is deliberately invalid, so that the error
/// path is covered as heavily as the success path.
pub fn is_invalid_input(i: usize) -> (r: bool)
    ensures
        r == invalid_at(i as nat),
{
    i % 3 == 0
}

// ---------------------------------------------------------------
//                       Stable pool verdicts
// ---------------------------------------------------------------

/// Growth allowed across the whole stable-pool phase.
pub const STABLE_POOL_GROWTH_BUDGET: i64 = 96 * 1024 * 1024;

/// What is said about the stable pool. Latencies are in milliseconds with one
/// decimal; they are evidence, not a threshold, because a shared machine is far
/// too noisy for that.
pub open spec fn pool_detail(
    w: Workload,
    d: Delta,
    p50: Seq<char>,
    p95: Seq<char>,
    p99: Seq<char>,
    failures: u32,
) -> Seq<char> {
    "8 threads x "@ + dec(w.per_thread as nat) + " renders ("@ + dec(w.pool_total as nat)
        + " total, no thread exited): "@ + d.described() + " | latency p50="@ + p50 + "ms p95="@
        + p95 + "ms p99="@ + p99 + "ms | "@ + dec(failures as nat)
        + " render failures | budget 96 MiB"@
}

/// The report after the check on the stable pool.
pub open spec fn after_pool(
    r: ReportView,
    w: Workload,
    d: Delta,
    p50: Seq<char>,
    p95: Seq<char>,
    p99: Seq<char>,
    failures: u32,
) -> ReportView {
    r.check(
        "stable_pool_retention"@,
        d.private_bytes < STABLE_POOL_GROWTH_BUDGET && failures == 0,
        pool_detail(w, d, p50, p95, p99, failures),
    )
}

pub fn judge_pool(
    report: &mut Report,
    w: &Workload,
    d: &Delta,
    p50: &str,
    p95: &str,
    p99: &str,
    failures: u32,
)
    ensures
        final(report)@ == after_pool(old(report)@, *w, *d, p50@, p95@, p99@, failures),
{
    let mut s: String = five(
        "8 threads x ",
        decimal(w.per_thread as u64).as_str(),
        " renders (",
        decimal(w.pool_total as u64).as_str(),
        " total, no thread exited): ",
    );
    s.append(d.describe().as_str());
    s.append(" | latency p50=");
    s.append(p50);
    s.append("ms p95=");
    s.append(p95);
    s.append("ms p99=");
    s.append(p99);
    s.append("ms | ");
    s.append(decimal(failures as u64).as_str());
    s.append(" render failures | budget 96 MiB");
    report.check(
        "stable_pool_retention",
        d.private_bytes < STABLE_POOL_GROWTH_BUDGET && failures == 0,
        s.as_str(),
    );
}

/// The report after the check on the threads of the pool.
pub open spec fn after_pool_threads(
    r: ReportView,
    baseline: Snapshot,
    after: Snapshot,
) -> ReportView {
    r.check(
        "stable_pool_thread_count_returns_to_baseline"@,
        after.threads <= baseline.threads + 2,
        "threads before="@ + dec(baseline.threads as nat) + " after joining="@ + dec(
            after.threads as nat,
        ) + " (worker threads must actually terminate)"@,
    )
}

/// Worker threads must actually terminate once they are joined.
pub fn judge_pool_threads(report: &mut Report, baseline: &Snapshot, after: &Snapshot)
    ensures
        final(report)@ == after_pool_threads(old(report)@, *baseline, *after),
{
    report.check(
        "stable_pool_thread_count_returns_to_baseline",
        after.threads as u64 <= baseline.threads as u64 + 2,
        five(
            "threads before=",
            decimal(baseline.threads as u64).as_str(),
            " after joining=",
            decimal(after.threads as u64).as_str(),
            " (worker threads must actually terminate)",
        ).as_str(),
    );
}

// ---------------------------------------------------------------
//                       Thread churn verdicts
// ---------------------------------------------------------------

/// Bytes that one completed rendering thread may retain. A whole device chain is
/// heavyweight; this ceiling flags an order-of-magnitude regression.
pub const RETENTION_BUDGET_PER_THREAD: i64 = 12 * 1024 * 1024;

/// How often growth per thread may multiply between the two samples.
pub const SLOPE_BUDGET: i64 = 4;

/// What was retained after some number of completed threads.
#[derive(Debug, Clone, Copy, PartialEq, Eq, Structural)]
pub struct Sample {
    pub threads: usize,
    pub retained: i64,
}

/// The progress of the churn.
pub struct Churn {
    pub completed: usize,
    pub samples: Vec<Sample>,
    pub render_failures: u32,
}

/// What a `Churn` stands for.
pub struct ChurnView {
    pub completed: nat,
    pub samples: Seq<Sample>,
    pub render_failures: nat,
}

impl View for Churn {
    type V = ChurnView;

    open spec fn view(&self) -> ChurnView {
        ChurnView {
            completed: self.completed as nat,
            samples: self.samples@,
            render_failures: self.render_failures as nat,
        }
    }
}

/// A signed byte count in MiB with one decimal, without a plus sign.
pub open spec fn mib1_plain(bytes: int) -> Seq<char> {
    if bytes < 0 {
        "-"@ + mib1((-bytes) as nat)
    } else {
        mib1(bytes as nat)
    }
}

fn mib1_plain_text(bytes: i64) -> (s: String)
    ensures
        s@ == mib1_plain(bytes as int),
{
    if bytes < 0 {
        two("-", mib1_text(magnitude(bytes)).as_str())
    } else {
        mib1_text(bytes as u64)
    }
}

impl Sample {
    /// Less than the budget was retained per thread.
    pub open spec fn within_budget(self) -> bool {
        self.retained < RETENTION_BUDGET_PER_THREAD * self.threads
    }

    pub fn is_within_budget(&self) -> (r: bool)
        ensures
            r == self.within_budget(),
    {
        assert(RETENTION_BUDGET_PER_THREAD == 12_582_912);
        (self.retained as i128) < 12_582_912i128 * self.threads as i128
    }

    /// Growth per thread has less than quadrupled since the sample `small`. Fixed
    /// costs inflate a small sample, so a lower slope later is normal, and a
    /// small sample that retained nothing allows no comparison.
    pub open spec fn not_superlinear(self, small: Sample) -> bool {
        small.retained <= 0 || self.retained * small.threads < SLOPE_BUDGET * small.retained
            * self.threads
    }

    pub fn is_not_superlinear(&self, small: &Sample) -> (r: bool)
        ensures
            r == self.not_superlinear(*small),
    {
        if small.retained <= 0 {
            return true;
        }
        let rb: i128 = self.retained as i128;
        let ns: i128 = small.threads as i128;
        let rs: i128 = small.retained as i128;
        let nb: i128 = self.threads as i128;
        proof {
            assert(-0x8000_0000_0000_0000 * 0xFFFF_FFFF_FFFF_FFFF <= rb * ns
                <= 0x8000_0000_0000_0000 * 0xFFFF_FFFF_FFFF_FFFF) by (nonlinear_arith)
                requires
                    -0x8000_0000_0000_0000 <= rb <= 0x7FFF_FFFF_FFFF_FFFF,
                    0 <= ns <= 0xFFFF_FFFF_FFFF_FFFF,
            ;
            assert(0 <= rs * nb <= 0x7FFF_FFFF_FFFF_FFFF * 0xFFFF_FFFF_FFFF_FFFF)
                by (nonlinear_arith)
                requires
                    0 <= rs <= 0x7FFF_FFFF_FFFF_FFFF,
                    0 <= nb <= 0xFFFF_FFFF_FFFF_FFFF,
            ;
            assert(SLOPE_BUDGET * small.retained * self.threads == 4 * (rs * nb))
                by (nonlinear_arith)
                requires
                    rs == small.retained,
                    nb == self.threads,
                    SLOPE_BUDGET == 4,
            ;
        }
        // A quarter of the left side is compared, so that nothing overflows.
        let left: i128 = rb * ns;
        let right: i128 = rs * nb;
        if left < 0 {
            true
        } else {
            left / 4 < right
        }
    }
}

impl ChurnView {
    pub open spec fn fresh() -> ChurnView {
        ChurnView { completed: 0, samples: Seq::empty(), render_failures: 0 }
    }

    /// After a batch of threads, of which some failed.
    pub open spec fn batched(self, threads: usize, failures: u32) -> ChurnView {
        ChurnView {
            completed: self.completed + threads as nat,
            render_failures: self.render_failures + failures as nat,
            ..self
        }
    }

    /// After a stage at whose end `retained` bytes were retained.
    pub open spec fn sampled(self, retained: i64) -> ChurnView {
        ChurnView {
            samples: self.samples.push(Sample { threads: self.completed as usize, retained }),
            ..self
        }
    }

    pub open spec fn middle(self) -> Sample {
        self.samples[self.samples.len() as int / 2]
    }
}

impl Churn {
    pub fn new() -> (c: Churn)
        ensures
            c@ == ChurnView::fresh(),
    {
        let c: Churn = Churn { completed: 0, samples: Vec::new(), render_failures: 0 };
        assert(c.samples@ =~= Seq::<Sample>::empty());
        c
    }

    /// Takes in a finished batch of threads, of which some failed.
    pub fn batch_done(&mut self, threads: usize, failures: u32)
        requires
            old(self)@.completed + threads <= usize::MAX,
            old(self)@.render_failures + failures <= u32::MAX,
        ensures
            final(self)@ == old(self)@.batched(threads, failures),
    {
        self.completed += threads;
        self.render_failures += failures;
    }

    /// Takes in what is retained at the end of a stage.
    pub fn stage_done(&mut self, retained: i64)
        ensures
            final(self)@ == old(self)@.sampled(retained),
    {
        self.samples.push(Sample { threads: self.completed, retained });
    }

    /// The line about a stage. `per_thread` is in MiB with two decimals.
    pub fn stage_line(&self, d: &Delta, per_thread: &str) -> (s: String)
        ensures
            s@ == "      after "@ + right_in(dec(self@.completed), 5)
                + " completed rendering threads: "@ + d.described() + " ("@ + per_thread@
                + " MiB/thread)"@,
    {
        let mut s: String = three(
            "      after ",
            pad_left(decimal(self.completed as u64).as_str(), 5).as_str(),
            " completed rendering threads: ",
        );
        s.append(d.describe().as_str());
        s.append(" (");
        s.append(per_thread);
        s.append(" MiB/thread)");
        s
    }

    /// Judges the last sample, which is the least sensitive to fixed start-up
    /// costs. `per_thread` is in MiB with two decimals.
    pub fn judge_retention(&self, report: &mut Report, per_thread: &str)
        requires
            self@.samples.len() > 0,
        ensures
            final(report)@ == after_retention(old(report)@, self@, per_thread@),
    {
        let last: Sample = self.samples[self.samples.len() - 1];
        let mut s: String = five(
            decimal(last.threads as u64).as_str(),
            " one-shot rendering threads retained ",
            mib1_plain_text(last.retained).as_str(),
            " MiB total = ",
            per_thread,
        );
        s.append(" MiB per thread (budget 12 MiB/thread); ");
        s.append(decimal(self.render_failures as u64).as_str());
        s.append(
            " render failures. Retention is BY DESIGN - the TLS D2D cache is deliberately leaked when a rendering thread exits, because destroying it would run under the loader lock. This check exists to keep that cost bounded and visible, not to demand zero.",
        );
        report.check(
            "thread_churn_retention",
            last.is_within_budget() && self.render_failures == 0,
            s.as_str(),
        );
    }

    /// Whether there are enough samples to compare slopes.
    pub fn has_slopes(&self) -> (r: bool)
        ensures
            r == (self@.samples.len() >= 2),
    {
        self.samples.len() >= 2
    }

    /// Retention should be roughly linear in the number of threads. The three
    /// texts are the two slopes in MiB and their ratio, with two decimals each.
    pub fn judge_linearity(&self, report: &mut Report, small: &str, big: &str, ratio: &str)
        ensures
            final(report)@ == after_linearity(old(report)@, self@, small@, big@, ratio@),
    {
        if self.samples.len() >= 2 {
            let s: Sample = self.samples[self.samples.len() / 2];
            let b: Sample = self.samples[self.samples.len() - 1];
            let mut t: String = five(
                "per-thread retention at ",
                decimal(s.threads as u64).as_str(),
                " threads = ",
                small,
                " MiB, at ",
            );
            t.append(decimal(b.threads as u64).as_str());
            t.append(" threads = ");
            t.append(big);
            t.append(" MiB (ratio ");
            t.append(ratio);
            t.append(", budget 4.0)");
            report.check(
                "thread_churn_growth_is_not_superlinear",
                b.is_not_superlinear(&s),
                t.as_str(),
            );
        } else {
            report.skip(
                "thread_churn_growth_is_not_superlinear",
                "not enough stages to fit a slope",
            );
        }
    }

    /// The threads must be gone, however many came.
    pub fn judge_threads(&self, report: &mut Report, baseline: &Snapshot, now: &Snapshot)
        ensures
            final(report)@ == after_threads(old(report)@, self@, *baseline, *now),
    {
        let mut s: String = five(
            "thread count baseline=",
            decimal(baseline.threads as u64).as_str(),
            " after ",
            decimal(self.completed as u64).as_str(),
            " one-shot threads=",
        );
        s.append(decimal(now.threads as u64).as_str());
        report.check(
            "churned_threads_actually_terminate",
            now.threads as u64 <= baseline.threads as u64 + 4,
            s.as_str(),
        );
    }
}

/// The report about the threads that are left.
pub open spec fn after_threads(
    r: ReportView,
    c: ChurnView,
    baseline: Snapshot,
    now: Snapshot,
) -> ReportView {
    r.check(
        "churned_threads_actually_terminate"@,
        now.threads <= baseline.threads + 4,
        "thread count baseline="@ + dec(baseline.threads as nat) + " after "@ + dec(c.completed)
            + " one-shot threads="@ + dec(now.threads as nat),
    )
}

/// The report after the check on the modules.
pub open spec fn after_modules(r: ReportView, baseline: Snapshot, now: Snapshot) -> ReportView {
    r.check(
        "module_count_stable_across_churn"@,
        -4 <= now.modules - baseline.modules <= 4,
        "modules baseline="@ + dec(baseline.modules as nat) + " after churn="@ + dec(
            now.modules as nat,
        ) + " (the DLL self-pins, so this must not climb)"@,
    )
}

/// The modules must be stable, however many threads came and went.
pub fn judge_modules(report: &mut Report, baseline: &Snapshot, now: &Snapshot)
    ensures
        final(report)@ == after_modules(old(report)@, *baseline, *now),
{
    let moved: i64 = now.modules as i64 - baseline.modules as i64;
    report.check(
        "module_count_stable_across_churn",
        -4 <= moved && moved <= 4,
        five(
            "modules baseline=",
            decimal(baseline.modules as u64).as_str(),
            " after churn=",
            decimal(now.modules as u64).as_str(),
            " (the DLL self-pins, so this must not climb)",
        ).as_str(),
    );
}

/// The report after the check on what the churn retains.
pub open spec fn after_retention(r: ReportView, c: ChurnView, per_thread: Seq<char>) -> ReportView {
    let last = c.samples.last();
    r.check(
        "thread_churn_retention"@,
        last.within_budget() && c.render_failures == 0,
        dec(last.threads as nat) + " one-shot rendering threads retained "@ + mib1_plain(
            last.retained as int,
        ) + " MiB total = "@ + per_thread + " MiB per thread (budget 12 MiB/thread); "@ + dec(
            c.render_failures,
        )
            + " render failures. Retention is BY DESIGN - the TLS D2D cache is deliberately leaked when a rendering thread exits, because destroying it would run under the loader lock. This check exists to keep that cost bounded and visible, not to demand zero."@,
    )
}

/// The report after the check on how retention grows.
pub open spec fn after_linearity(
    r: ReportView,
    c: ChurnView,
    small: Seq<char>,
    big: Seq<char>,
    ratio: Seq<char>,
) -> ReportView {
    if c.samples.len() >= 2 {
        r.check(
            "thread_churn_growth_is_not_superlinear"@,
            c.samples.last().not_superlinear(c.middle()),
            "per-thread retention at "@ + dec(c.middle().threads as nat) + " threads = "@ + small
                + " MiB, at "@ + dec(c.samples.last().threads as nat) + " threads = "@ + big
                + " MiB (ratio "@ + ratio + ", budget 4.0)"@,
        )
    } else {
        r.skip("thread_churn_growth_is_not_superlinear"@, "not enough stages to fit a slope"@)
    }
}

/// Perfectly linear retention is never reported as superlinear, whatever it
/// costs per thread.
pub proof fn linear_growth_passes(cost: nat, small: Sample, big: Sample)
    requires
        small.retained == cost * small.threads,
        big.retained == cost * big.threads,
        big.threads > 0,
    ensures
        big.not_superlinear(small),
{
    if small.retained > 0 {
        let c = cost as int;
        let n = small.threads as int;
        let m = big.threads as int;
        assert((c * m) * n < 4 * (c * n) * m) by (nonlinear_arith)
            requires
                c * n > 0,
                m > 0,
        ;
    }
}

// ---------------------------------------------------------------
//                  GDI and handle verdicts
// ---------------------------------------------------------------

/// The report after the check on GDI objects.
pub open spec fn after_gdi(r: ReportView, w: Workload, d: Delta, failures: u32) -> ReportView {
    r.check(
        "gdi_objects_do_not_accumulate"@,
        d.gdi_objects <= 16 && d.handles <= 64 && failures == 0,
        "after "@ + dec(w.gdi_renders as nat) + " renders (one third deliberately invalid): "@
            + d.described() + " | "@ + dec(failures as nat) + " unexpected failures"@,
    )
}

/// Every render hands out a bitmap that is deleted at once, so the number of GDI
/// objects must be flat.
pub fn judge_gdi(report: &mut Report, w: &Workload, d: &Delta, failures: u32)
    ensures
        final(report)@ == after_gdi(old(report)@, *w, *d, failures),
{
    let mut s: String = five(
        "after ",
        decimal(w.gdi_renders as u64).as_str(),
        " renders (one third deliberately invalid): ",
        d.describe().as_str(),
        " | ",
    );
    s.append(decimal(failures as u64).as_str());
    s.append(" unexpected failures");
    report.check(
        "gdi_objects_do_not_accumulate",
        d.gdi_objects <= 16 && d.handles <= 64 && failures == 0,
        s.as_str(),
    );
}

/// The report after the check on renders that fail.
pub open spec fn after_failing_renders(r: ReportView, w: Workload, d: Delta) -> ReportView {
    r.check(
        "repeated_failed_renders_do_not_leak"@,
        d.gdi_objects <= 16 && d.handles <= 64,
        "after "@ + dec(w.failing_renders as nat) + " failing renders: "@ + d.described(),
    )
}

/// Failure paths are the classic place for a leaked bitmap.
pub fn judge_failing_renders(report: &mut Report, w: &Workload, d: &Delta)
    ensures
        final(report)@ == after_failing_renders(old(report)@, *w, *d),
{
    let mut s: String = three(
        "after ",
        decimal(w.failing_renders as u64).as_str(),
        " failing renders: ",
    );
    s.append(d.describe().as_str());
    report.check(
        "repeated_failed_renders_do_not_leak",
        d.gdi_objects <= 16 && d.handles <= 64,
        s.as_str(),
    );
}

// ---------------------------------------------------------------
//                             Cases
// ---------------------------------------------------------------

/// Every case of the suite, in order.
pub open spec fn case_list() -> Seq<Seq<char>> {
    seq![
        "stable_pool_retention"@,
        "stable_pool_thread_count_returns_to_baseline"@,
        "thread_churn_retention"@,
        "thread_churn_growth_is_not_superlinear"@,
        "churned_threads_actually_terminate"@,
        "module_count_stable_across_churn"@,
        "gdi_objects_do_not_accumulate"@,
        "repeated_failed_renders_do_not_leak"@,
    ]
}

/// The names of the cases of the suite.
pub fn case_names() -> (v: Vec<String>)
    ensures
        texts(v@) == case_list(),
{
    let mut v: Vec<String> = no_texts();
    push_text(&mut v, "stable_pool_retention".to_owned());
    push_text(&mut v, "stable_pool_thread_count_returns_to_baseline".to_owned());
    push_text(&mut v, "thread_churn_retention".to_owned());
    push_text(&mut v, "thread_churn_growth_is_not_superlinear".to_owned());
    push_text(&mut v, "churned_threads_actually_terminate".to_owned());
    push_text(&mut v, "module_count_stable_across_churn".to_owned());
    push_text(&mut v, "gdi_objects_do_not_accumulate".to_owned());
    push_text(&mut v, "repeated_failed_renders_do_not_leak".to_owned());
    assert(texts(v@) =~= case_list());
    v
}

// ---------------------------------------------------------------
//                     What the checks ask for
// ---------------------------------------------------------------

/// A percentile is one of the values: with the values in ascending order, the one whose
/// place is nearest to that share of the way from the first to the last, and the later
/// of the two half-way between.
pub proof fn a_percentile_is_the_nearest_value(values: Seq<u64>, percent: nat)
    requires
        values.len() > 0,
        percent <= 100,
    ensures
        exists|sorted: Seq<u64>, k: int| #![trigger sorted[k]]
            sorted.to_multiset() == values.to_multiset() && (forall|i: int, j: int|
                0 <= i <= j < sorted.len() ==> sorted[i] <= sorted[j]) && 0 <= k < sorted.len()
                && percentile(values, percent) == sorted[k] && -50 < 100 * k - (values.len() - 1)
                * percent <= 50,
        percentile(values, 0) <= percentile(values, 50) <= percentile(values, 100),
{
    let sorted = values.sort_by(ascending());
    lemma_ascending_total();
    values.lemma_sort_by_ensures(ascending());
    let n: int = values.len() as int;
    let k: int = rank(values.len(), percent);
    assert((n - 1) * percent <= (n - 1) * 100) by (nonlinear_arith)
        requires
            percent <= 100,
            n >= 1,
    ;
    assert((n - 1) * percent >= 0) by (nonlinear_arith)
        requires
            n >= 1,
            percent >= 0,
    ;
    assert(sorted.to_multiset() == values.to_multiset());
    sorted.to_multiset_ensures();
    values.to_multiset_ensures();
    assert(sorted.len() == values.len());
    assert forall|i: int, j: int| 0 <= i <= j < sorted.len() implies sorted[i] <= sorted[j] by {
        if i < j {
            assert(ascending()(sorted[i], sorted[j]));
        }
    }
    assert(percentile(values, percent) == sorted[k]);
    percentiles_are_ordered(values, 0, 50);
    percentiles_are_ordered(values, 50, 100);
}

proof fn lemma_ascending_total()
    ensures
        total_ordering(ascending()),
{
    let leq = ascending();
    assert(vstd::relations::reflexive(leq));
    assert(vstd::relations::antisymmetric(leq));
    assert(vstd::relations::transitive(leq));
    assert(vstd::relations::strongly_connected(leq));
}

/// The parts of the work fit together: the pool renders what its eight threads render,
/// and every failing round has three renders. All of it grows in step with the scale.
pub proof fn work_fits_together(w: Workload, scale: nat)
    requires
        work_at(w, scale),
    ensures
        w.pool_total == 8 * w.per_thread,
        POOL_THREADS == 8,
        w.failing_renders == 3 * w.failing_rounds,
        w.per_thread == 250 * scale,
        w.gdi_renders == 400 * scale,
        w.failing_rounds == 300 * scale,
{
}

/// Stages grow from one thread, each to at least four times the one before; a larger
/// scale adds a stage and keeps the others.
pub proof fn stages_grow(scale: usize, i: int)
    ensures
        stage_list(scale).len() >= 4,
        stage_list(scale)[0] == 1,
        stage_list(scale)[3] == 256,
        0 <= i && i + 1 < stage_list(scale).len() ==> stage_list(scale)[i + 1] >= 4
            * stage_list(scale)[i],
        scale <= 1 ==> stage_list(scale).len() == 4,
        scale >= 2 ==> stage_list(scale) == stage_list(1).push(1024),
{
    assert(scale >= 2 ==> stage_list(scale) =~= stage_list(1).push(1024));
}

/// How many threads are left after `n` batches.
pub open spec fn left_after(threads: nat, n: nat) -> nat
    decreases n,
{
    if n == 0 {
        threads
    } else {
        let left = left_after(threads, (n - 1) as nat);
        (left - batch_of(left)) as nat
    }
}

/// A batch never runs more than sixteen threads at once nor more than are still to come,
/// and always runs one as long as any is; so in the end exactly as many have run as the
/// stage asks for.
pub proof fn batches_run_every_thread(remaining: nat, threads: nat, n: nat)
    ensures
        batch_of(remaining) <= 16,
        batch_of(remaining) <= remaining,
        remaining > 0 ==> batch_of(remaining) > 0,
        remaining >= 16 ==> batch_of(remaining) == 16,
        16 * n >= threads ==> left_after(threads, n) == 0,
        16 * n < threads ==> left_after(threads, n) == threads - 16 * n,
    decreases n,
{
    if n > 0 {
        batches_run_every_thread(remaining, threads, (n - 1) as nat);
    }
}

/// One input in three is invalid, beginning with the first.
pub proof fn one_input_in_three_is_invalid(i: nat)
    ensures
        invalid_at(0),
        invalid_at(i + 3) == invalid_at(i),
        invalid_at(i) ==> !invalid_at(i + 1) && !invalid_at(i + 2),
        invalid_at(i) || invalid_at(i + 1) || invalid_at(i + 2),
{
}

/// Batches add up, and a sample says how many threads had completed by then: nothing
/// that was noted before is lost.
pub proof fn churn_adds_up(c: ChurnView, threads: usize, failures: u32, retained: i64)
    requires
        c.completed <= usize::MAX,
    ensures
        c.batched(threads, failures).completed == c.completed + threads,
        c.batched(threads, failures).render_failures == c.render_failures + failures,
        c.batched(threads, failures).samples == c.samples,
        c.sampled(retained).completed == c.completed,
        c.sampled(retained).render_failures == c.render_failures,
        c.sampled(retained).samples.drop_last() == c.samples,
        c.sampled(retained).samples.last().threads == c.completed,
        c.sampled(retained).samples.last().retained == retained,
        ChurnView::fresh().completed == 0,
        ChurnView::fresh().render_failures == 0,
        ChurnView::fresh().samples.len() == 0,
{
    assert(c.sampled(retained).samples.drop_last() =~= c.samples);
}

/// Retention is judged on the last sample: less than twelve MiB for each thread, and no
/// render may have failed.
pub proof fn what_churn_may_retain(r: ReportView, c: ChurnView, per_thread: Seq<char>)
    requires
        c.samples.len() > 0,
    ensures
        one_check(
            r,
            after_retention(r, c, per_thread),
            "thread_churn_retention"@,
            outcome_of(
                c.samples[c.samples.len() - 1].retained < c.samples[c.samples.len() - 1].threads * 12
                    * 1024 * 1024 && c.render_failures == 0,
            ),
        ),
{
    let last = c.samples.last();
    assert(last.threads * 12 * 1024 * 1024 == 12582912 * last.threads) by (nonlinear_arith);
}

/// Growth is judged between the sample in the middle and the last one: with both costs
/// per thread as fractions, the later must be less than four times the earlier, unless
/// the earlier is nothing. With fewer than two samples there is nothing to judge.
pub proof fn what_churn_may_grow(
    r: ReportView,
    c: ChurnView,
    small: Seq<char>,
    big: Seq<char>,
    ratio: Seq<char>,
)
    ensures
        one_check(
            r,
            after_linearity(r, c, small, big, ratio),
            "thread_churn_growth_is_not_superlinear"@,
            if c.samples.len() < 2 {
                Outcome::Skip
            } else {
                let first = c.samples[c.samples.len() as int / 2];
                let last = c.samples[c.samples.len() - 1];
                outcome_of(
                    first.retained <= 0 || last.retained * first.threads < 4 * first.retained
                        * last.threads,
                )
            },
        ),
{
}

/// Growth per thread of four times or more never passes, whatever it is per thread.
pub proof fn fourfold_growth_fails(cost: nat, small: Sample, big: Sample)
    requires
        cost > 0,
        small.threads > 0,
        small.retained == cost * small.threads,
        big.retained >= 4 * cost * big.threads,
    ensures
        !big.not_superlinear(small),
{
    let c: int = cost as int;
    let s: int = small.threads as int;
    let b: int = big.threads as int;
    let kept: int = big.retained as int;
    assert(c * s > 0) by (nonlinear_arith)
        requires
            c > 0,
            s > 0,
    ;
    assert(kept * s >= 4 * (c * s) * b) by (nonlinear_arith)
        requires
            kept >= 4 * c * b,
            s > 0,
    ;
}

/// What the other checks ask for: the pool grows by less than 96 MiB without a failed
/// render and leaves at most two threads behind; the churn leaves at most four threads
/// and four modules more or fewer; and neither sound nor failing renders leave more than
/// 16 GDI objects or 64 handles behind.
pub proof fn what_the_churn_checks_ask(
    r: ReportView,
    w: Workload,
    d: Delta,
    p50: Seq<char>,
    p95: Seq<char>,
    p99: Seq<char>,
    failures: u32,
    c: ChurnView,
    baseline: Snapshot,
    now: Snapshot,
)
    ensures
        one_check(
            r,
            after_pool(r, w, d, p50, p95, p99, failures),
            "stable_pool_retention"@,
            outcome_of(d.private_bytes < 100_663_296 && failures == 0),
        ),
        one_check(
            r,
            after_pool_threads(r, baseline, now),
            "stable_pool_thread_count_returns_to_baseline"@,
            outcome_of(now.threads - baseline.threads <= 2),
        ),
        one_check(
            r,
            after_threads(r, c, baseline, now),
            "churned_threads_actually_terminate"@,
            outcome_of(now.threads - baseline.threads <= 4),
        ),
        one_check(
            r,
            after_modules(r, baseline, now),
            "module_count_stable_across_churn"@,
            outcome_of(
                now.modules - baseline.modules <= 4 && baseline.modules - now.modules <= 4,
            ),
        ),
        one_check(
            r,
            after_gdi(r, w, d, failures),
            "gdi_objects_do_not_accumulate"@,
            outcome_of(d.gdi_objects <= 16 && d.handles <= 64 && failures == 0),
        ),
        one_check(
            r,
            after_failing_renders(r, w, d),
            "repeated_failed_renders_do_not_leak"@,
            outcome_of(d.gdi_objects <= 16 && d.handles <= 64),
        ),
{
}

/// What is said of nothing: the percentiles of no values are zero, and a byte count that
/// is not negative has no sign.
pub proof fn nothing_is_said_of_nothing(percent: nat, bytes: nat)
    ensures
        percentile(Seq::empty(), percent) == 0,
        mib1_plain(bytes as int) == mib1(bytes),
        bytes > 0 ==> mib1_plain(-(bytes as int)) == "-"@ + mib1(bytes),
{
}

} // verus!
