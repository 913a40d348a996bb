use gauntlet::metrics::{Delta, Snapshot};
use gauntlet::report::Report;
use gauntlet::suites::churn::{
    is_invalid_input, judge_failing_renders, judge_gdi, judge_modules, judge_pool,
    judge_pool_threads, next_batch,
    percentiles, stages, workload, Churn, Workload, POOL_THREADS, WARM_UP,
};

const MIB: f64 = 1048576.0;

fn delta(private_bytes: i64, handles: i64, gdi: i64) -> Delta {
    Delta {
        private_bytes,
        working_set: 0,
        handles,
        gdi_objects: gdi,
        user_objects: 0,
        threads: 0,
        modules: 0,
    }
}

fn snapshot(threads: u32, modules: u32) -> Snapshot {
    Snapshot {
        private_bytes: 0,
        working_set: 0,
        handles: 0,
        gdi_objects: 0,
        user_objects: 0,
        threads,
        modules,
    }
}

fn load(scale: usize) -> Workload {
    match workload(scale) {
        Some(w) => w,
        None => panic!("no workload"),
    }
}

fn by_floats(values: &[u64]) -> (u64, u64, u64) {
    let mut v = values.to_vec();
    v.sort();
    let at = |p: f64| -> u64 {
        let idx = ((v.len() as f64 - 1.0) * p).round() as usize;
        v[idx.min(v.len() - 1)]
    };
    (at(0.50), at(0.95), at(0.99))
}

#[test]
fn percentiles_agree_with_floats() {
    assert_eq!(percentiles(&[]), (0, 0, 0));
    let mut x: u64 = 1;
    for n in 1..600usize {
        let values: Vec<u64> = (0..n)
            .map(|_| {
                x = x.wrapping_mul(6364136223846793005).wrapping_add(1442695040888963407);
                x >> 40
            })
            .collect();
        assert_eq!(percentiles(&values), by_floats(&values), "{n}");
    }
}

#[test]
fn percentiles_sort_first() {
    assert_eq!(percentiles(&[9, 1, 8, 2, 7, 3, 6, 4, 5]), (5, 9, 9));
    let v: Vec<u64> = (0..1000).rev().collect();
    assert_eq!(percentiles(&v), by_floats(&v));
    assert_eq!(percentiles(&v), (500, 949, 989));
}

#[test]
fn the_workload_scales_linearly() {
    let w = load(3);
    assert_eq!(
        (w.per_thread, w.pool_total, w.gdi_renders, w.failing_rounds, w.failing_renders),
        (750, 6000, 1200, 900, 2700)
    );
    assert!(workload(usize::MAX).is_none());
    assert_eq!((POOL_THREADS, WARM_UP), (8, 5));
    assert_eq!(stages(1), [1, 8, 64, 256]);
    assert_eq!(stages(2), [1, 8, 64, 256, 1024]);
}

#[test]
fn batches_are_bounded() {
    assert_eq!(next_batch(0), 0);
    assert_eq!(next_batch(5), 5);
    assert_eq!(next_batch(16), 16);
    assert_eq!(next_batch(1000), 16);
    let invalid: Vec<usize> = (0..10).filter(|i| is_invalid_input(*i)).collect();
    assert_eq!(invalid, [0, 3, 6, 9]);
}

#[test]
fn a_stable_pool_is_flat() {
    let budget: i64 = 96 * 1024 * 1024;
    for (bytes, failures, ok) in [(budget - 1, 0u32, true), (budget, 0, false), (0, 1, false), (-9, 0, true)] {
        let d = delta(bytes, 1, 2);
        let mut r = Report::new("churn");
        judge_pool(&mut r, &load(1), &d, "1.5", "2.5", "3.5", failures);
        assert_eq!(
            r.take_lines(),
            [format!(
                "  [{}] churn/stable_pool_retention: 8 threads x 250 renders (2000 total, no thread exited): {} | \
                 latency p50=1.5ms p95=2.5ms p99=3.5ms | {failures} render failures | budget 96 MiB",
                if ok { "PASS" } else { "FAIL" },
                d.describe()
            )]
        );
    }
}

#[test]
fn pool_threads_go_away() {
    for (before, after, ok) in [(10, 12, true), (10, 13, false), (10, 3, true), (u32::MAX, u32::MAX, true)] {
        let mut r = Report::new("churn");
        judge_pool_threads(&mut r, &snapshot(before, 0), &snapshot(after, 0));
        assert_eq!(
            r.take_lines(),
            [format!(
                "  [{}] churn/stable_pool_thread_count_returns_to_baseline: threads before={before} after joining={after} (worker threads must actually terminate)",
                if ok { "PASS" } else { "FAIL" }
            )]
        );
    }
}

fn churned(samples: &[(usize, i64)], failures: u32) -> Churn {
    let mut c = Churn::new();
    let mut done = 0;
    for (i, (threads, retained)) in samples.iter().enumerate() {
        c.batch_done(threads - done, if i == 0 { failures } else { 0 });
        done = *threads;
        c.stage_done(*retained);
    }
    c
}

const MEASURED: [(usize, i64); 4] = [(1, 1_122_000), (9, 12_656_000), (73, 111_862_000), (329, 506_430_000)];

#[test]
fn retention_stays_within_its_budget() {
    let c = churned(&MEASURED, 0);
    let mut r = Report::new("churn");
    c.judge_retention(&mut r, "1.47");
    assert_eq!(
        r.take_lines(),
        [format!(
            "  [PASS] churn/thread_churn_retention: 329 one-shot rendering threads retained {:.1} MiB total = 1.47 MiB per \
             thread (budget 12 MiB/thread); 0 render failures. Retention is \
             BY DESIGN - the TLS D2D cache is deliberately leaked when a rendering thread exits, \
             because destroying it would run under the loader lock. This check exists to keep that \
             cost bounded and visible, not to demand zero.",
            506_430_000 as f64 / MIB
        )]
    );
    let budget: i64 = 12 * 1024 * 1024;
    for (retained, failures, ok) in [(329 * budget - 1, 0, true), (329 * budget, 0, false), (0, 1, false)] {
        let mut r = Report::new("churn");
        churned(&[(329, retained)], failures).judge_retention(&mut r, "x");
        assert_eq!(r.failures().is_empty(), ok);
    }
}

#[test]
fn growth_is_linear() {
    let c = churned(&MEASURED, 0);
    assert!(c.has_slopes());
    let mut r = Report::new("churn");
    c.judge_linearity(&mut r, "1.46", "1.47", "1.00");
    assert_eq!(
        r.take_lines(),
        ["  [PASS] churn/thread_churn_growth_is_not_superlinear: per-thread retention at 73 threads = 1.46 MiB, at 329 threads = 1.47 MiB (ratio 1.00, budget 4.0)"]
    );
    for (small, big, ok) in [
        ((10usize, 1000i64), (100usize, 39_999i64), true),
        ((10, 1000), (100, 40_000), false),
        ((10, 0), (100, 40_000_000), true),
        ((10, -5), (100, 40_000_000), true),
        ((10, 1000), (100, -1), true),
    ] {
        let mut r = Report::new("churn");
        churned(&[(1, 0), small, big], 0).judge_linearity(&mut r, "", "", "");
        assert_eq!(r.failures().is_empty(), ok, "{small:?} {big:?}");
    }
}

#[test]
fn one_stage_has_no_slope() {
    let c = churned(&[(1, 5)], 0);
    assert!(!c.has_slopes());
    let mut r = Report::new("churn");
    c.judge_linearity(&mut r, "", "", "");
    assert_eq!(
        r.take_lines(),
        ["  [SKIP] churn/thread_churn_growth_is_not_superlinear: not enough stages to fit a slope"]
    );
}

#[test]
fn a_stage_is_shown() {
    let c = churned(&MEASURED[..2], 0);
    let d = delta(12_656_000, 0, 0);
    assert_eq!(
        c.stage_line(&d, "1.34"),
        format!("      after {:>5} completed rendering threads: {} (1.34 MiB/thread)", 9, d.describe())
    );
}

#[test]
fn churned_threads_and_modules() {
    let c = churned(&MEASURED, 0);
    for (threads, modules, passed) in [(14u32, 54u32, 2usize), (15, 54, 1), (14, 55, 1), (10, 46, 2), (10, 45, 1)] {
        let mut r = Report::new("churn");
        c.judge_threads(&mut r, &snapshot(10, 50), &snapshot(threads, modules));
        judge_modules(&mut r, &snapshot(10, 50), &snapshot(threads, modules));
        assert_eq!(r.passed(), passed, "{threads} {modules}");
        let lines = r.take_lines();
        assert!(lines[0].ends_with(&format!(
            "churn/churned_threads_actually_terminate: thread count baseline=10 after 329 one-shot threads={threads}"
        )));
        assert!(lines[1].ends_with(&format!(
            "churn/module_count_stable_across_churn: modules baseline=50 after churn={modules} (the DLL self-pins, so this must not climb)"
        )));
    }
}

#[test]
fn gdi_objects_are_flat() {
    for (handles, gdi, failures, ok) in [(64, 16, 0u32, true), (65, 0, 0, false), (0, 17, 0, false), (0, 0, 1, false)] {
        let d = delta(0, handles, gdi);
        let mut r = Report::new("churn");
        judge_gdi(&mut r, &load(1), &d, failures);
        assert_eq!(
            r.take_lines(),
            [format!(
                "  [{}] churn/gdi_objects_do_not_accumulate: after 400 renders (one third deliberately invalid): {} | {failures} unexpected failures",
                if ok { "PASS" } else { "FAIL" },
                d.describe()
            )]
        );
        let mut r = Report::new("churn");
        judge_failing_renders(&mut r, &load(2), &d);
        assert_eq!(
            r.take_lines(),
            [format!(
                "  [{}] churn/repeated_failed_renders_do_not_leak: after 1800 failing renders: {}",
                if handles <= 64 && gdi <= 16 { "PASS" } else { "FAIL" },
                d.describe()
            )]
        );
    }
}
