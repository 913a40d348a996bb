use gauntlet::corpus::BASE_SVG;
use gauntlet::metrics::Delta;
use gauntlet::report::Report;
use gauntlet::streams::{ReadMode, StatMode};
use gauntlet::suites::stream_faults::{
    judge_over_report, judge_rotation, rotating_modes, steps, Attempt, Step, OVER_REPORT_ITERATIONS,
    RENDER_SIZE, ROTATION_ITERATIONS,
};
use gauntlet::thumb::Rendering;

fn delta(handles: i64, gdi: i64) -> Delta {
    Delta {
        private_bytes: 0,
        working_set: 0,
        handles,
        gdi_objects: gdi,
        user_objects: 0,
        threads: 0,
        modules: 0,
    }
}

fn good() -> Attempt {
    Attempt::made(Ok(()), Some(Ok(())), Some(Rendering::Real))
}

fn judged(s: Step, a: &Attempt, growth: i64) -> String {
    let mut r = Report::new("sf");
    s.judge(&mut r, a, growth);
    let lines = r.take_lines();
    assert_eq!(lines.len(), 1);
    lines[0].clone()
}

#[test]
fn what_an_attempt_records() {
    let a = Attempt::not_created(0x8000_4005);
    assert!(!a.initialize_ok && !a.render_ok);
    assert_eq!((a.initialize_hr, a.render_hr, a.rendering), (0x8000_4005, 0, None));
    let a = good();
    assert!(a.initialize_ok && a.render_ok);
    assert_eq!((a.initialize_hr, a.render_hr, a.rendering), (0, 0, Some(Rendering::Real)));
    let a = Attempt::made(Err(5), Some(Err(6)), None);
    assert!(!a.initialize_ok && !a.render_ok);
    assert_eq!((a.initialize_hr, a.render_hr, a.rendering), (5, 6, None));
    let a = Attempt::made(Ok(()), None, None);
    assert!(a.initialize_ok && !a.render_ok);
    assert_eq!(a.render_hr, 0);
}

#[test]
fn the_steps_in_order() {
    let names: Vec<String> = steps().into_iter().map(|s| s.name()).collect();
    assert_eq!(
        names,
        [
            "stat_truthful_renders",
            "stat_failure_falls_back_to_chunked_read",
            "stat_claims_u64_max_does_not_preallocate",
            "stat_claims_zero_still_reads_data",
            "stat_over_cap_is_rejected_without_reading",
            "stat_under_reports_actual_size",
            "single_byte_reads_reassemble_correctly",
            "short_reads_3_bytes",
            "short_reads_7_bytes",
            "short_reads_4096_bytes",
            "read_failure_midway_degrades_cleanly",
            "read_failure_before_any_data",
            "zero_byte_reads_terminate_the_loop",
            "over_reported_read_count_is_not_trusted",
            "read_that_never_sets_count_terminates",
            "s_false_partial_read_is_treated_as_success",
            "oversized_stream_is_capped_during_read",
        ]
    );
    assert_eq!(RENDER_SIZE, 64);
}

#[test]
fn each_step_breaks_one_assumption() {
    let len = BASE_SVG.len();
    let modes: Vec<(StatMode, ReadMode)> = steps().into_iter().map(|s| s.modes(len)).collect();
    assert_eq!(
        modes,
        [
            (StatMode::Truthful, ReadMode::Truthful),
            (StatMode::Fail, ReadMode::Truthful),
            (StatMode::Huge, ReadMode::Truthful),
            (StatMode::Zero, ReadMode::Truthful),
            (StatMode::OverCap, ReadMode::Truthful),
            (StatMode::UnderReport, ReadMode::Truthful),
            (StatMode::Truthful, ReadMode::OneByte),
            (StatMode::Truthful, ReadMode::Short(3)),
            (StatMode::Truthful, ReadMode::Short(7)),
            (StatMode::Truthful, ReadMode::Short(4096)),
            (StatMode::Truthful, ReadMode::FailAfter(len / 2)),
            (StatMode::Truthful, ReadMode::FailAfter(0)),
            (StatMode::Truthful, ReadMode::ZeroForever),
            (StatMode::Truthful, ReadMode::OverReport),
            (StatMode::Truthful, ReadMode::NeverSetCount),
            (StatMode::Truthful, ReadMode::SFalse),
            (StatMode::UnderReport, ReadMode::Truthful),
        ]
    );
}

#[test]
fn the_payload_is_the_base_document_but_for_the_last_step() {
    for s in steps() {
        let oversized = matches!(s, Step::Oversized);
        let payload = s.payload();
        if oversized {
            assert_eq!(payload.len(), 130 * 1024 * 1024);
            assert!(payload.iter().all(|b| *b == b'x'));
        } else {
            assert_eq!(payload, BASE_SVG.as_bytes());
        }
    }
}

#[test]
fn delivered_bytes_must_render() {
    for s in [
        Step::StatTruthful,
        Step::StatFails,
        Step::StatZero,
        Step::StatUnderReports,
        Step::OneByte,
        Step::Short(7),
        Step::SFalse,
    ] {
        assert!(judged(s, &good(), 0).starts_with("  [PASS]"));
        let fallback = Attempt::made(Ok(()), Some(Ok(())), Some(Rendering::RedXFallback));
        assert!(judged(s, &fallback, 0).starts_with("  [FAIL]"));
        let refused = Attempt::made(Err(1), Some(Ok(())), Some(Rendering::Real));
        assert!(judged(s, &refused, 0).starts_with("  [FAIL]"));
    }
    // Only the control case looks at the render's own status.
    let odd = Attempt::made(Ok(()), Some(Err(1)), Some(Rendering::Real));
    assert!(judged(Step::StatTruthful, &odd, 0).starts_with("  [FAIL]"));
    assert!(judged(Step::StatFails, &odd, 0).starts_with("  [PASS]"));
}

#[test]
fn what_the_lines_say() {
    assert_eq!(
        judged(Step::StatTruthful, &good(), 0),
        "  [PASS] sf/stat_truthful_renders: control case: init=true render=true rendering=Some(Real)"
    );
    let a = Attempt::made(Err(0x8000_4005), None, None);
    assert_eq!(
        judged(Step::StatFails, &a, 0),
        "  [FAIL] sf/stat_failure_falls_back_to_chunked_read: init=false (hr=0x80004005) rendering=None - a failing Stat must not prevent reading"
    );
    assert_eq!(
        judged(Step::StatOverCap, &a, 0),
        "  [PASS] sf/stat_over_cap_is_rejected_without_reading: init=false hr=0x80004005 - a stream claiming 200 MiB must be rejected by the size check"
    );
    assert!(judged(Step::StatOverCap, &good(), 0).starts_with("  [FAIL]"));
    assert_eq!(
        judged(Step::Short(3), &a, 0),
        "  [FAIL] sf/short_reads_3_bytes: init=false rendering=None"
    );
}

#[test]
fn claims_do_not_commit_memory() {
    let limit: i64 = 256 * 1024 * 1024;
    assert_eq!(
        judged(Step::StatHuge, &good(), limit - 1),
        "  [PASS] sf/stat_claims_u64_max_does_not_preallocate: committed +256.0 MiB while the stream claimed u64::MAX bytes (init=true, rendering=Some(Real)); budget is 256 MiB"
    );
    assert!(judged(Step::StatHuge, &good(), limit).starts_with("  [FAIL]"));
    let refused = Attempt::made(Err(0x8000_4005), None, None);
    let limit: i64 = 160 * 1024 * 1024;
    assert_eq!(
        judged(Step::Oversized, &refused, 1048576),
        "  [PASS] sf/oversized_stream_is_capped_during_read: init=false (hr=0x80004005), committed +1.0 MiB feeding 130 MiB through a stream that claimed to be tiny - the in-loop cap must stop it"
    );
    assert!(judged(Step::Oversized, &refused, limit).starts_with("  [FAIL]"));
    assert!(judged(Step::Oversized, &good(), 0).starts_with("  [FAIL]"));
}

#[test]
fn broken_streams_end_cleanly() {
    let nothing = Attempt::made(Ok(()), None, None);
    let failed = Attempt::made(Ok(()), Some(Err(3)), None);
    for s in [Step::FailsMidway, Step::FailsAtOnce] {
        assert!(judged(s, &nothing, 0).starts_with("  [FAIL]"));
        assert!(judged(s, &failed, 0).starts_with("  [PASS]"));
        assert!(judged(s, &good(), 0).starts_with("  [PASS]"));
    }
    for s in [Step::ZeroForever, Step::NeverSetsCount] {
        assert!(judged(s, &nothing, 0).starts_with("  [PASS]"));
        assert!(judged(s, &good(), 0).starts_with("  [FAIL]"));
    }
    assert!(judged(Step::OverReports, &nothing, 0).starts_with("  [FAIL]"));
    assert!(judged(Step::OverReports, &Attempt::made(Err(1), None, None), 0).starts_with("  [PASS]"));
    assert!(judged(Step::OverReports, &failed, 0).starts_with("  [PASS]"));
}

#[test]
fn handles_leaked_per_panic() {
    for handles in [-7i64, 0, 1, 24, 25, 26, 63, 700, 701] {
        let d = delta(handles, 0);
        let mut r = Report::new("sf");
        judge_over_report(&mut r, &d);
        assert_eq!(
            r.take_lines(),
            [format!(
                "  [{}] sf/over_reported_read_leaks_thread_graphics_cache: after 25 over-reported reads (each followed by a normal \
                 render): {} = {:.1} handles leaked per triggered panic. \
                 A stream that repeatedly over-reports therefore grows the host's handle count \
                 without bound.",
                if handles <= 25 { "PASS" } else { "FAIL" },
                d.describe(),
                handles as f64 / 25.0
            )]
        );
    }
    assert_eq!(OVER_REPORT_ITERATIONS, 25);
}

#[test]
fn the_rotation_leaves_out_the_known_leak() {
    assert_eq!(ROTATION_ITERATIONS, 200);
    for i in 0..200 {
        let (stat, read) = rotating_modes(i);
        assert!(read != ReadMode::OverReport);
        let expected = match i % 7 {
            0 => (StatMode::Fail, ReadMode::Truthful),
            1 => (StatMode::Huge, ReadMode::OneByte),
            2 => (StatMode::Zero, ReadMode::Short(5)),
            3 => (StatMode::OverCap, ReadMode::Truthful),
            4 => (StatMode::UnderReport, ReadMode::FailAfter(40)),
            5 => (StatMode::Truthful, ReadMode::ZeroForever),
            _ => (StatMode::Truthful, ReadMode::SFalse),
        };
        assert_eq!((stat, read), expected);
    }
    for (handles, gdi, ok) in [(32, 8, true), (33, 0, false), (0, 9, false), (-5, -5, true)] {
        let d = delta(handles, gdi);
        let mut r = Report::new("sf");
        judge_rotation(&mut r, &d);
        assert_eq!(
            r.take_lines(),
            [format!(
                "  [{}] sf/repeated_hostile_streams_do_not_leak: after 200 hostile-stream round-trips (excluding over-report): {}",
                if ok { "PASS" } else { "FAIL" },
                d.describe()
            )]
        );
    }
}
