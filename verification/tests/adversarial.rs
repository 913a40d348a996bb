use gauntlet::corpus::{case, Case, Expect};
use gauntlet::report::Report;
use gauntlet::suites::adversarial::{
    case_size, choose_cases, find_case, judge_agreement, judge_case, judge_network,
    listener_unavailable, nothing_matched_size_limits, nothing_matched_svg, nothing_matched_svgz,
    observe, rendering_text,
    svg_tally, svgz_tally, unbound_probe, Limits, NetworkProbe,
};
use gauntlet::thumb::{Rendering, Thumb, ALPHA_ARGB};

const MIB: f64 = 1048576.0;

fn picture(size: u32, p: [u8; 4]) -> Thumb {
    let mut pixels = Vec::new();
    for _ in 0..size * size {
        pixels.extend_from_slice(&p);
    }
    Thumb { width: size, height: size, pixels, alpha: ALPHA_ARGB }
}

fn artwork(size: u32) -> Thumb {
    picture(size, [200, 100, 50, 255])
}

fn black(size: u32) -> Thumb {
    picture(size, [0, 0, 0, 255])
}

fn lines(c: &Case, result: Result<Thumb, u32>, size: u32, elapsed_ns: u128, growth: i64) -> Vec<String> {
    let mut report = Report::new("adversarial");
    let o = observe(&result, size, elapsed_ns, "1.5s", growth);
    judge_case(&mut report, c, size, Limits::small_input(), &o);
    report.take_lines()
}

fn summary(rendering: Option<Rendering>, hr: u32, growth: i64) -> String {
    format!(
        "{} in 1.5s, rendering={:?}, hr=0x{:08X}, mem={:+.1}MiB",
        if rendering.is_some() { "returned a bitmap" } else { "failed" },
        rendering,
        hr,
        growth as f64 / MIB
    )
}

#[test]
fn the_limits() {
    let l = Limits::small_input();
    assert_eq!((l.seconds, l.memory), (45, 512 * 1024 * 1024));
    let l = Limits::compressed();
    assert_eq!((l.seconds, l.memory), (90, 1024 * 1024 * 1024));
    let l = Limits::huge_input();
    assert_eq!((l.seconds, l.memory), (360, 1536 * 1024 * 1024));
}

#[test]
fn a_hostile_case_passes_by_coming_back() {
    let c = case("odd", vec![], Expect::Survive);
    assert_eq!(
        lines(&c, Err(0x8000_4005), 64, 5, -3_000_000),
        [format!("  [PASS] adversarial/odd: {}", summary(None, 0x8000_4005, -3_000_000))]
    );
    assert_eq!(
        lines(&c, Ok(black(64)), 64, 5, 0),
        [format!("  [PASS] adversarial/odd: {}", summary(Some(Rendering::BlackSquareFallback), 0, 0))]
    );
}

#[test]
fn a_valid_case_must_show_artwork() {
    let c = case("valid", vec![], Expect::RealRender);
    assert_eq!(
        lines(&c, Ok(artwork(64)), 64, 5, 0),
        [format!("  [PASS] adversarial/valid: {}", summary(Some(Rendering::Real), 0, 0))]
    );
    for (result, rendering, hr) in [
        (Ok(black(64)), Some(Rendering::BlackSquareFallback), 0u32),
        (Ok(picture(64, [0; 4])), Some(Rendering::Transparent), 0),
        (Err(0x8000_FFFF), None, 0x8000_FFFF),
    ] {
        assert_eq!(
            lines(&c, result, 64, 5, 0),
            [format!(
                "  [FAIL] adversarial/valid: valid input did not render as real artwork - a fallback here means the \
                 ordinary rendering path regressed: {}",
                summary(rendering, hr, 0)
            )]
        );
    }
}

#[test]
fn a_case_past_a_limit_must_not_show_artwork() {
    let c = case("huge", vec![], Expect::RejectOrFallback);
    assert!(lines(&c, Err(1), 64, 5, 0)[0].starts_with("  [PASS]"));
    assert!(lines(&c, Ok(black(64)), 64, 5, 0)[0].starts_with("  [PASS]"));
    assert_eq!(
        lines(&c, Ok(artwork(64)), 64, 5, 0),
        [format!(
            "  [FAIL] adversarial/huge: input past a documented limit was rendered as if valid: {}",
            summary(Some(Rendering::Real), 0, 0)
        )]
    );
    // Nothing visible is not a fallback either.
    assert!(lines(&c, Ok(picture(64, [0; 4])), 64, 5, 0)[0].starts_with("  [FAIL]"));
}

#[test]
fn invariants_hold_whatever_is_expected() {
    let c = case("odd", vec![], Expect::Survive);
    let second: u128 = 1_000_000_000;
    let s = summary(Some(Rendering::Real), 0, 0);
    assert_eq!(
        lines(&c, Ok(artwork(32)), 64, 5, 0)[0],
        format!("  [FAIL] adversarial/odd/geometry: returned a bitmap whose size does not match the requested 64x64: {s}")
    );
    let mut wrong = artwork(64);
    wrong.alpha = 1;
    assert_eq!(
        lines(&c, Ok(wrong), 64, 5, 0)[0],
        format!("  [FAIL] adversarial/odd/alpha-type: returned a bitmap without declaring WTSAT_ARGB: {s}")
    );
    assert_eq!(lines(&c, Ok(artwork(64)), 64, 45 * second, 0).len(), 1);
    assert_eq!(
        lines(&c, Ok(artwork(64)), 64, 45 * second + 1, 0)[0],
        format!("  [FAIL] adversarial/odd/time-budget: exceeded the 45s per-case budget: {s}")
    );
    let budget: i64 = 512 * 1024 * 1024;
    assert_eq!(lines(&c, Ok(artwork(64)), 64, 5, budget).len(), 1);
    let growth = budget + 3_000_000;
    assert_eq!(
        lines(&c, Ok(artwork(64)), 64, 5, growth)[0],
        format!(
            "  [FAIL] adversarial/odd/memory-budget: left {:.1} MiB committed after the call returned, budget is 512 MiB: {}",
            growth as f64 / MIB,
            summary(Some(Rendering::Real), 0, growth)
        )
    );
    // A failed call has no bitmap to check.
    let mut wrong = artwork(32);
    wrong.alpha = 1;
    assert_eq!(lines(&c, Ok(wrong), 64, 46 * second, growth).len(), 5);
    assert_eq!(lines(&c, Err(1), 64, 46 * second, growth).len(), 3);
}

#[test]
fn a_rendering_is_shown_as_an_option() {
    assert_eq!(rendering_text(None), "None");
    assert_eq!(rendering_text(Some(Rendering::Real)), "Some(Real)");
    assert_eq!(rendering_text(Some(Rendering::RedXFallback)), "Some(RedXFallback)");
}

fn three_cases() -> Vec<Case> {
    vec![
        case("a", vec![], Expect::Survive),
        case("b", vec![], Expect::Survive),
        case("c", vec![], Expect::Survive),
    ]
}

#[test]
fn a_name_selects_its_case() {
    let cases = three_cases();
    assert_eq!(choose_cases(&cases, None), [0, 1, 2]);
    assert_eq!(choose_cases(&cases, Some("b")), [1]);
    assert!(choose_cases(&cases, Some("d")).is_empty());
    assert_eq!(find_case(&cases, "c"), Some(2));
    assert_eq!(find_case(&cases, "d"), None);
}

#[test]
fn sizes_rotate_over_the_cases() {
    let sizes: Vec<u32> = (1..9).map(case_size).collect();
    assert_eq!(sizes, [64, 256, 133, 16, 64, 256, 133, 16]);
}

#[test]
fn tallies() {
    assert_eq!(svg_tally(1, 189), "  (ran 1 of 189 synthetic .svg cases)");
    assert_eq!(svgz_tally(34, 34), "  (ran 34 of 34 synthetic .svgz cases)");
    let mut r = Report::new("s");
    nothing_matched_svg(&mut r, 189);
    nothing_matched_svgz(&mut r, 34);
    nothing_matched_size_limits(&mut r, 4);
    assert_eq!(
        r.take_lines(),
        [
            "  [SKIP] s/corpus: no case matched the --only filter (corpus has 189 cases)",
            "  [SKIP] s/svgz_corpus: no case matched the --only filter (34 cases)",
            "  [SKIP] s/size_limit_corpus: no case matched the --only filter (4 cases)",
        ]
    );
}

#[test]
fn a_probe_counts_what_reaches_it() {
    let mut p = NetworkProbe::new("127.0.0.1:5000", r"C:\work\xxe-sentinel.txt");
    assert_eq!(p.probe().http_url, "http://127.0.0.1:5000");
    assert_eq!(p.probe().sentinel_path, "C:/work/xxe-sentinel.txt");
    assert_eq!(p.hit_count(), 0);
    let mut r = Report::new("s");
    judge_network(&mut r, &p, true);
    p.record_hit();
    p.record_hit();
    assert_eq!(p.hit_count(), 2);
    judge_network(&mut r, &p, false);
    assert_eq!(
        r.take_lines(),
        [
            "  [PASS] s/no_outbound_network_access: the local listener at http://127.0.0.1:5000 recorded no connections across the XXE cases (external DTDs, external general and parameter entities, UNC paths, remote xml-stylesheet and remote <image> hrefs)",
            "  [PASS] s/xxe_sentinel_still_present: local sentinel file was not modified or removed by parsing",
            "  [FAIL] s/no_outbound_network_access: SECURITY: 2 outbound connection(s) reached http://127.0.0.1:5000 while parsing untrusted SVG - XML external entity resolution is enabled",
            "  [FAIL] s/xxe_sentinel_still_present: local sentinel file was not modified or removed by parsing",
        ]
    );
}

#[test]
fn a_counter_of_hits_does_not_wrap_to_none() {
    let mut p = NetworkProbe::new("x", "y");
    p.hits = u32::MAX - 1;
    for _ in 0..3 {
        p.record_hit();
        assert_eq!(p.hit_count(), u32::MAX);
    }
    let mut r = Report::new("s");
    judge_network(&mut r, &p, true);
    assert_eq!(r.failures().len(), 1);
}

#[test]
fn without_a_listener_the_cases_still_run() {
    let x = unbound_probe(r"work\missing.txt");
    assert_eq!(x.http_url, "http://127.0.0.1:9/unbound");
    assert_eq!(x.sentinel_path, "work/missing.txt");
    let mut r = Report::new("s");
    listener_unavailable(&mut r, "denied");
    assert_eq!(
        r.take_lines(),
        ["  [SKIP] s/xxe_network_probe: could not bind a loopback listener (denied); XXE cases will run but network access cannot be observed"]
    );
}

#[test]
fn plain_and_compressed_must_agree() {
    let judged = |plain, compressed| {
        let mut r = Report::new("s");
        judge_agreement(&mut r, &plain, &compressed);
        r.take_lines()
    };
    assert_eq!(
        judged(Ok(artwork(8)), Some(Ok(artwork(8)))),
        ["  [PASS] s/svgz_and_svg_agree: plain=Real gz=Real pixels_identical=true"]
    );
    assert_eq!(
        judged(Ok(artwork(8)), Some(Ok(picture(8, [1, 2, 3, 255])))),
        ["  [FAIL] s/svgz_and_svg_agree: plain=Real gz=Real pixels_identical=false"]
    );
    assert_eq!(
        judged(Ok(black(8)), Some(Ok(black(8)))),
        ["  [FAIL] s/svgz_and_svg_agree: plain=BlackSquareFallback gz=BlackSquareFallback pixels_identical=true"]
    );
    assert_eq!(
        judged(Ok(artwork(8)), Some(Err(1))),
        ["  [FAIL] s/svgz_and_svg_agree: could not render both forms: plain_ok=true gz_ok=false"]
    );
    assert_eq!(
        judged(Err(1), None),
        ["  [SKIP] s/svgz_and_svg_agree: svgz-valid case not present in the corpus"]
    );
}
