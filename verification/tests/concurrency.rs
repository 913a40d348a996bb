use gauntlet::hresult::{S_FALSE, S_OK};
use gauntlet::metrics::Delta;
use gauntlet::report::Report;
use gauntlet::rng::Rng;
use gauntlet::suites::concurrency::{
    agreement, baseline_failed, joins_mta, judge_exits, judge_gdi, judge_identical,
    judge_reference_count, judge_storm, keeps_exiting, next_step, opening_line, right_colour,
    steady_ok, storm_seed, Agreement, Rgb, StormStep,
};
use gauntlet::thumb::{Thumb, ALPHA_ARGB};

fn picture(size: u32, p: [u8; 4]) -> Thumb {
    let mut pixels = Vec::new();
    for _ in 0..size * size {
        pixels.extend_from_slice(&p);
    }
    Thumb { width: size, height: size, pixels, alpha: ALPHA_ARGB }
}

const PALETTE: [(u8, u8, u8); 6] = [
    (0xE8, 0x11, 0x23),
    (0x00, 0x78, 0xD7),
    (0x10, 0x89, 0x3E),
    (0xFF, 0xB9, 0x00),
    (0x88, 0x17, 0x98),
    (0x00, 0xB7, 0xC3),
];

#[test]
fn a_storm_is_replayed_by_its_seed() {
    let mut a = Rng::new(2024);
    let mut b = Rng::new(2024);
    let mut junk = 0;
    for _ in 0..500 {
        let step = next_step(&mut a);
        if b.chance(20) {
            junk += 1;
            let n = b.range(0, 400);
            let expected: Vec<u8> = (0..n).map(|_| (b.next_u64() & 0xFF) as u8).collect();
            let expected_size = b.range(1, 512);
            match step {
                StormStep::Junk { bytes, size } => {
                    assert_eq!((bytes, size), (expected, expected_size));
                }
                StormStep::Solid { .. } => panic!("junk was due"),
            }
        } else {
            let (r, g, bl) = *b.pick(&PALETTE);
            let expected_size = *b.pick(&[16u32, 32, 48, 64, 96, 128, 256]);
            match step {
                StormStep::Solid { colour, size } => {
                    assert_eq!((colour.r, colour.g, colour.b, size), (r, g, bl, expected_size));
                    assert_eq!(
                        colour.document(),
                        format!(
                            r##"<svg xmlns="http://www.w3.org/2000/svg" viewBox="0 0 64 64"><rect width="64" height="64" fill="#{r:02x}{g:02x}{bl:02x}"/></svg>"##
                        )
                    );
                }
                StormStep::Junk { .. } => panic!("a colour was due"),
            }
        }
    }
    assert!((50..150).contains(&junk));
}

#[test]
fn no_colour_passes_for_another() {
    for (i, (r, g, b)) in PALETTE.iter().enumerate() {
        let t = picture(16, [*b, *g, *r, 255]);
        for (j, (r, g, b)) in PALETTE.iter().enumerate() {
            assert_eq!(right_colour(&t, 16, Rgb { r: *r, g: *g, b: *b }), i == j);
        }
    }
}

#[test]
fn colours_have_a_margin() {
    let c = Rgb { r: 100, g: 100, b: 100 };
    assert!(right_colour(&picture(16, [124, 76, 124, 201]), 16, c));
    assert!(!right_colour(&picture(16, [125, 100, 100, 255]), 16, c));
    assert!(!right_colour(&picture(16, [100, 75, 100, 255]), 16, c));
    assert!(!right_colour(&picture(16, [100, 100, 125, 255]), 16, c));
    assert!(!right_colour(&picture(16, [100, 100, 100, 200]), 16, c));
}

#[test]
fn seeds_and_apartments() {
    for t in 0..12u64 {
        assert_eq!(
            storm_seed(u64::MAX - 3, t),
            (u64::MAX - 3).wrapping_add(t).wrapping_mul(0x9E37_79B9_7F4A_7C15)
        );
        assert_eq!(joins_mta(t as usize), t % 3 == 2);
    }
    assert_eq!(opening_line(5, 12, 40), "  concurrency seed = 5, 12 threads x 40 renders");
}

#[test]
fn agreement_is_by_pixels() {
    let e = picture(4, [1, 2, 3, 4]);
    assert!(matches!(agreement(&e, &Ok(picture(4, [1, 2, 3, 4]))), Agreement::Agrees));
    assert!(matches!(agreement(&e, &Ok(picture(4, [1, 2, 3, 5]))), Agreement::Mismatch));
    assert!(matches!(agreement(&e, &Err(1)), Agreement::Failed));
}

#[test]
fn verdicts_on_concurrent_work() {
    let mut r = Report::new("cc");
    baseline_failed(&mut r, 0x8000_4005);
    judge_identical(&mut r, 12, 40, 0, 0, 0);
    judge_identical(&mut r, 12, 40, 1, 2, 3);
    judge_storm(&mut r, 12, 480, 0, 0, 0, "3.2");
    judge_storm(&mut r, 12, 480, 1, 2, 3, "3.2");
    judge_exits(&mut r, 200, 999, 0, 0);
    judge_exits(&mut r, 200, 999, 1, 2);
    judge_reference_count(&mut r, S_OK, S_OK);
    judge_reference_count(&mut r, S_FALSE, S_OK);
    assert_eq!(
        r.take_lines(),
        [
            "  [FAIL] cc/concurrent_identical_renders_agree: baseline render failed: hr=0x80004005",
            "  [PASS] cc/concurrent_identical_renders_agree: 12 threads x 40 renders: 0 pixel mismatches (cross-thread contamination), 0 render failures, 0 panics",
            "  [FAIL] cc/concurrent_identical_renders_agree: 12 threads x 40 renders: 1 pixel mismatches (cross-thread contamination), 2 render failures, 3 panics",
            "  [PASS] cc/mixed_workload_storm: 480 renders across 12 threads: 0 returned the wrong colour (cross-thread contamination), 0 valid renders failed, 0 threads panicked, worst latency 3.2 ms",
            "  [FAIL] cc/mixed_workload_storm: 480 renders across 12 threads: 1 returned the wrong colour (cross-thread contamination), 2 valid renders failed, 3 threads panicked, worst latency 3.2 ms",
            "  [PASS] cc/threads_exit_while_others_render: 200 short-lived rendering threads created and exited while 4 steady threads completed 999 renders: 0 steady-render failures, 0 panics",
            "  [FAIL] cc/threads_exit_while_others_render: 200 short-lived rendering threads created and exited while 4 steady threads completed 999 renders: 1 steady-render failures, 2 panics",
            "  [PASS] cc/reference_count_balanced_after_storm: DllCanUnloadNow=0x00000000 after the concurrency storm (expected S_OK)",
            "  [FAIL] cc/reference_count_balanced_after_storm: DllCanUnloadNow=0x00000000 after the concurrency storm (expected S_OK)",
        ]
    );
}

#[test]
fn any_one_defect_is_enough() {
    for (a, b, c) in [(1, 0, 0), (0, 1, 0), (0, 0, 1)] {
        let mut r = Report::new("cc");
        judge_identical(&mut r, 1, 1, a, b, c);
        judge_storm(&mut r, 1, 1, a, b, c, "0.0");
        assert_eq!(r.failures().len(), 2);
    }
}

#[test]
fn threads_exit_until_the_deadline_or_the_limit() {
    assert!(keeps_exiting(true, 199));
    assert!(!keeps_exiting(true, 200));
    assert!(!keeps_exiting(false, 0));
    assert!(steady_ok(&Ok(picture(4, [9, 9, 9, 255]))));
    assert!(!steady_ok(&Ok(picture(4, [0, 0, 0, 255]))));
    assert!(!steady_ok(&Err(1)));
}

#[test]
fn concurrent_bitmaps_are_released() {
    for (gdi, ok) in [(16, true), (17, false)] {
        let d = Delta {
            private_bytes: 0,
            working_set: 0,
            handles: 1000,
            gdi_objects: gdi,
            user_objects: 0,
            threads: 0,
            modules: 0,
        };
        let mut r = Report::new("cc");
        judge_gdi(&mut r, &d);
        assert_eq!(
            r.take_lines(),
            [format!(
                "  [{}] cc/concurrent_gdi_objects_released: after 800 concurrent renders: {}",
                if ok { "PASS" } else { "FAIL" },
                d.describe()
            )]
        );
    }
}
