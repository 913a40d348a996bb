use gauntlet::report::Report;
use gauntlet::suites::render::{
    centre_readable, corners_readable, ends_readable, judge_corners, judge_gradient,
    judge_half_alpha, judge_interleaved, judge_invalid_input, judge_opaque, judge_scaled,
    judge_size, judge_style, judge_unboxed, judge_valid_input, judge_wide, judge_zero_alpha, near,
    style_cases, style_svg, sweep_case, sweep_sizes, Repeats, Spelling,
};
use gauntlet::thumb::{Thumb, ALPHA_ARGB};

fn picture(size: u32, p: [u8; 4]) -> Thumb {
    let mut pixels = Vec::new();
    for _ in 0..size * size {
        pixels.extend_from_slice(&p);
    }
    Thumb { width: size, height: size, pixels, alpha: ALPHA_ARGB }
}

fn artwork(size: u32) -> Thumb {
    picture(size, [200, 100, 50, 255])
}

fn judged(f: impl FnOnce(&mut Report)) -> String {
    let mut r = Report::new("render");
    f(&mut r);
    let lines = r.take_lines();
    assert_eq!(lines.len(), 1);
    lines[0].clone()
}

const GREEN: [u8; 4] = [0, 0xA0, 0, 255];

#[test]
fn colours_are_compared_with_a_margin() {
    for a in 0..=255u8 {
        for b in 0..=255u8 {
            assert_eq!(near(a, b), (a as i32 - b as i32).abs() <= 20);
        }
    }
}

#[test]
fn the_size_sweep() {
    assert_eq!(
        sweep_sizes(),
        [1, 2, 3, 7, 16, 24, 32, 48, 64, 96, 128, 129, 255, 256, 257, 512, 1024, 2048, 4096]
    );
    assert_eq!(sweep_case(129), "size_sweep_129");
    assert_eq!(
        judged(|r| judge_size(r, 16, &Ok(artwork(16)), "1.00")),
        "  [PASS] render/size_sweep_16: 16x16 declared_argb=true classification=Real coverage=1.00"
    );
    assert_eq!(
        judged(|r| judge_size(r, 16, &Ok(artwork(17)), "1.00")),
        "  [FAIL] render/size_sweep_16: 17x17 declared_argb=true classification=Real coverage=1.00"
    );
    assert_eq!(
        judged(|r| judge_size(r, 16, &Ok(picture(16, [0; 4])), "0.00")),
        "  [FAIL] render/size_sweep_16: 16x16 declared_argb=true classification=Transparent coverage=0.00"
    );
    // At two pixels there is not enough resolution to judge the content.
    assert_eq!(
        judged(|r| judge_size(r, 2, &Ok(picture(2, [0; 4])), "0.00")),
        "  [PASS] render/size_sweep_2: 2x2 declared_argb=true classification=Transparent coverage=0.00"
    );
    let mut wrong = artwork(2);
    wrong.alpha = 0;
    assert!(judged(|r| judge_size(r, 2, &Ok(wrong), "1.00")).starts_with("  [FAIL]"));
    assert_eq!(
        judged(|r| judge_size(r, 16, &Err(0x8000_4005), "")),
        "  [FAIL] render/size_sweep_16: a valid SVG failed to render at 16x16: hr=0x80004005"
    );
}

fn repeats(pictures: Vec<Result<Thumb, u32>>) -> (u32, String, bool) {
    let mut s = Repeats::new();
    let mut used = 0;
    let mut it = pictures.into_iter();
    while s.is_open() {
        match it.next() {
            Some(p) => s.note(p),
            None => s.note(Ok(artwork(4))),
        }
        used += 1;
    }
    let mut r = Report::new("render");
    let go_on = s.judge(&mut r);
    (used, r.take_lines().join("|"), go_on)
}

#[test]
fn equal_renders_are_deterministic() {
    assert_eq!(
        repeats(vec![]),
        (
            25,
            "  [PASS] render/repeated_renders_are_identical: 25 consecutive renders of the same input produced byte-identical output".to_string(),
            true
        )
    );
}

#[test]
fn a_differing_render_is_named() {
    assert_eq!(
        repeats(vec![Ok(artwork(4)), Ok(artwork(4)), Ok(picture(4, GREEN))]),
        (
            3,
            "  [FAIL] render/repeated_renders_are_identical: render 2 differed from the first - rendering is not deterministic".to_string(),
            true
        )
    );
}

#[test]
fn a_failing_render_ends_the_comparison() {
    assert_eq!(
        repeats(vec![Ok(artwork(4)), Err(0x8000_4005)]),
        (
            2,
            "  [FAIL] render/repeated_renders_are_identical: render 1 failed: hr=0x80004005".to_string(),
            false
        )
    );
}

#[test]
fn other_documents_leave_no_trace() {
    assert_eq!(
        judged(|r| judge_interleaved(r, &Ok(artwork(4)), &Ok(artwork(4)))),
        "  [PASS] render/interleaved_inputs_do_not_contaminate: rendering other documents in between left the result unchanged"
    );
    assert!(judged(|r| judge_interleaved(r, &Ok(artwork(4)), &Ok(picture(4, GREEN)))).starts_with("  [FAIL]"));
    assert_eq!(
        judged(|r| judge_interleaved(r, &Ok(artwork(4)), &Err(1))),
        "  [FAIL] render/interleaved_inputs_do_not_contaminate: one of the renders failed"
    );
}

#[test]
fn corners_must_be_clear() {
    let clear = picture(128, [7, 8, 9, 0]);
    assert!(corners_readable(&clear));
    assert!(!corners_readable(&picture(100, GREEN)));
    let p = [7u8, 8, 9, 0];
    assert_eq!(
        judged(|r| judge_corners(r, &Ok(clear))),
        format!(
            "  [PASS] render/empty_regions_are_fully_transparent: corner pixels (BGRA) after a full-bleed red render: {:?}",
            [p, p, p, p]
        )
    );
    assert!(judged(|r| judge_corners(r, &Ok(artwork(128)))).starts_with("  [FAIL]"));
    assert_eq!(
        judged(|r| judge_corners(r, &Err(0x8000_4005))),
        "  [FAIL] render/empty_regions_are_fully_transparent: render failed: hr=0x80004005"
    );
}

#[test]
fn opaque_fills() {
    let right = picture(64, [0xEF, 0x89, 0x2D, 255]);
    assert!(centre_readable(&Ok(picture(64, GREEN))));
    assert!(!centre_readable(&Ok(picture(32, GREEN))));
    assert!(centre_readable(&Err(1)));
    assert_eq!(
        judged(|r| judge_opaque(r, &Ok(right))),
        "  [PASS] render/opaque_fill_is_fully_opaque: centre pixel BGRA=[239, 137, 45, 255], expected ~[0xEF,0x89,0x2D,0xFF]"
    );
    assert!(judged(|r| judge_opaque(r, &Ok(picture(64, [0xEF, 0x89, 0x2D, 254])))).starts_with("  [FAIL]"));
    assert!(judged(|r| judge_opaque(r, &Ok(picture(64, GREEN)))).starts_with("  [FAIL]"));
    assert_eq!(
        judged(|r| judge_opaque(r, &Err(5))),
        "  [FAIL] render/opaque_fill_is_fully_opaque: hr=0x00000005"
    );
}

#[test]
fn half_alpha_is_restored() {
    assert_eq!(
        judged(|r| judge_half_alpha(r, &Ok(picture(64, [255, 255, 240, 128])))),
        "  [PASS] render/half_alpha_is_unpremultiplied: centre pixel BGRA=[255, 255, 240, 128]; expected colour channels restored to ~255 with alpha ~128 (premultiplied output would read ~128 in every channel)"
    );
    for p in [[128, 128, 128, 128], [255, 255, 239, 128], [255, 255, 255, 99], [255, 255, 255, 161]] {
        assert!(judged(|r| judge_half_alpha(r, &Ok(picture(64, p)))).starts_with("  [FAIL]"), "{p:?}");
    }
    for a in [100, 160] {
        assert!(judged(|r| judge_half_alpha(r, &Ok(picture(64, [250, 250, 250, a])))).starts_with("  [PASS]"));
    }
}

#[test]
fn zero_alpha_stays_clear() {
    assert_eq!(
        judged(|r| judge_zero_alpha(r, &Ok(picture(64, [9, 9, 9, 0])), "0.000")),
        "  [PASS] render/fully_transparent_stays_transparent: coverage=0.000 (expected 0)"
    );
    assert!(judged(|r| judge_zero_alpha(r, &Ok(picture(64, [9, 9, 9, 1])), "1.000")).starts_with("  [FAIL]"));
}

#[test]
fn gradients_vary() {
    let mut t = picture(64, [255, 0, 0, 255]);
    for y in 0..64usize {
        for x in 0..32usize {
            let i = (y * 64 + x) * 4;
            t.pixels[i..i + 4].copy_from_slice(&[0, 0, 255, 255]);
        }
    }
    assert!(ends_readable(&Ok(picture(64, GREEN))));
    assert!(!ends_readable(&Ok(picture(20, GREEN))));
    assert_eq!(
        judged(|r| judge_gradient(r, &Ok(t))),
        "  [PASS] render/gradient_produces_varied_pixels: left BGRA=[0, 0, 255, 255] right BGRA=[255, 0, 0, 255] uniform=false"
    );
    assert_eq!(
        judged(|r| judge_gradient(r, &Ok(picture(64, GREEN)))),
        "  [FAIL] render/gradient_produces_varied_pixels: left BGRA=[0, 160, 0, 255] right BGRA=[0, 160, 0, 255] uniform=true"
    );
}

#[test]
fn styled_documents() {
    assert_eq!(
        style_svg("", "<g/>"),
        r#"<svg xmlns="http://www.w3.org/2000/svg" viewBox="0 0 64 64"><g/></svg>"#
    );
    assert_eq!(
        style_svg(".a{}", "<g/>"),
        r#"<svg xmlns="http://www.w3.org/2000/svg" viewBox="0 0 64 64"><style>.a{}</style><g/></svg>"#
    );
}

#[test]
fn styles_decide_the_colour() {
    let cases = style_cases();
    let names: Vec<&str> = cases.iter().map(|c| c.name).collect();
    assert_eq!(
        names,
        [
            "css_class_selector_applied",
            "css_element_selector_applied",
            "css_selector_list_applied",
            "css_second_of_multiple_classes_applied",
            "css_later_duplicate_rule_wins",
            "css_inline_style_beats_class_rule",
            "css_comment_does_not_hide_following_rule",
            "css_commented_out_rule_is_ignored",
            "css_at_media_contents_applied",
            "css_important_lowercase_stripped",
            "css_important_inline_lowercase_stripped",
        ]
    );
    assert_eq!(
        cases[4].svg,
        style_svg(".a{fill:#ff0000}.a{fill:#00a000}", r#"<rect class="a" width="64" height="64"/>"#)
    );
    for c in &cases {
        assert_eq!((c.blue, c.green, c.red), (0, 0xA0, 0));
        assert_eq!(
            judged(|r| judge_style(r, c, &Ok(picture(64, GREEN)))),
            format!("  [PASS] render/{}: centre BGRA=[0, 160, 0, 255], expected ~[0x00,0xa0,0x00,0xFF]", c.name)
        );
        assert!(judged(|r| judge_style(r, c, &Ok(picture(64, [0, 0, 255, 255])))).starts_with("  [FAIL]"));
        assert!(judged(|r| judge_style(r, c, &Ok(picture(64, [0, 0xA0, 0, 200])))).starts_with("  [FAIL]"));
        assert_eq!(
            judged(|r| judge_style(r, c, &Err(7))),
            format!("  [FAIL] render/{}: render failed: hr=0x00000007", c.name)
        );
    }
}

#[test]
fn keywords_ignore_case() {
    for (s, tag, token) in [
        (Spelling::Upper, "uppercase", "!IMPORTANT"),
        (Spelling::Mixed, "mixedcase", "!ImPoRtAnT"),
    ] {
        assert_eq!(s.name(), format!("css_important_{tag}_is_stripped"));
        assert_eq!(
            s.document(),
            style_svg(&format!(".a{{fill:#00a000 {token}}}"), r#"<rect class="a" width="64" height="64"/>"#)
        );
        assert_eq!(
            judged(|r| s.judge(r, &Ok(picture(64, [0, 0, 0, 255])))),
            format!(
                "  [FAIL] render/{}: centre BGRA=[0, 0, 0, 255], expected ~[0x00,0xa0,0x00,0xFF]. CSS keywords are \
                 case-insensitive, so `{token}` must be stripped exactly like \
                 `!important`; the detection scan is case-insensitive but the strip is a \
                 case-sensitive replace, so this spelling survives into the document \
                 handed to Direct2D.",
                s.name()
            )
        );
        assert!(judged(|r| s.judge(r, &Ok(picture(64, GREEN)))).starts_with("  [PASS]"));
    }
}

fn covered(size: u32, count: usize) -> Thumb {
    let mut t = picture(size, [0, 0xAA, 0, 0]);
    for i in 0..count {
        t.pixels[4 * i + 3] = 255;
    }
    t
}

#[test]
fn artwork_is_scaled_up() {
    // 95 per cent exactly is not enough.
    let total = 200 * 200;
    let at = covered(200, total * 95 / 100);
    let above = covered(200, total * 95 / 100 + 1);
    assert_eq!(
        judged(|r| judge_scaled(r, &Ok(at), "0.950")),
        "  [FAIL] render/artwork_scales_to_fill_requested_size: coverage=0.950 at 256x256 for a 16x16 source - low coverage means the artwork was not scaled up to the thumbnail"
    );
    assert!(judged(|r| judge_scaled(r, &Ok(above), "0.950")).starts_with("  [PASS]"));
    assert_eq!(
        judged(|r| judge_unboxed(r, &Ok(covered(200, total)), "1.000")),
        "  [PASS] render/viewbox_synthesised_when_absent: coverage=1.000 at 256x256 for a viewBox-less 16x16 source"
    );
    assert!(judged(|r| judge_unboxed(r, &Ok(covered(200, 0)), "0.000")).starts_with("  [FAIL]"));
}

#[test]
fn wide_artwork_shows_something() {
    assert_eq!(
        judged(|r| judge_wide(r, &Ok(covered(100, 201)), "0.020")),
        "  [PASS] render/aspect_ratio_handling_is_consistent: coverage=0.020 classification=Real"
    );
    assert!(judged(|r| judge_wide(r, &Ok(covered(100, 200)), "0.020")).starts_with("  [FAIL]"));
    assert!(judged(|r| judge_wide(r, &Ok(picture(100, [0, 0, 0, 255])), "1.000")).starts_with("  [FAIL]"));
}

#[test]
fn the_detector_itself_is_checked() {
    assert!(judged(|r| judge_invalid_input(r, &Ok(picture(8, [0, 0, 0, 255])))).starts_with("  [PASS]"));
    assert!(judged(|r| judge_invalid_input(r, &Ok(picture(8, [0; 4])))).starts_with("  [PASS]"));
    assert_eq!(
        judged(|r| judge_invalid_input(r, &Ok(artwork(8)))),
        "  [FAIL] render/invalid_input_produces_the_fallback: garbage input classified as Real - the fallback detector must recognise this for the other suites' no-fallback assertions to mean anything"
    );
    assert_eq!(
        judged(|r| judge_invalid_input(r, &Err(0x8000_4005))),
        "  [PASS] render/invalid_input_produces_the_fallback: garbage input failed outright (hr=0x80004005), which is also acceptable"
    );
    assert_eq!(
        judged(|r| judge_valid_input(r, &Ok(artwork(8)))),
        "  [PASS] render/valid_input_is_never_a_fallback: classification=Real"
    );
    assert!(judged(|r| judge_valid_input(r, &Ok(picture(8, [0; 4])))).starts_with("  [FAIL]"));
    assert_eq!(
        judged(|r| judge_valid_input(r, &Err(9))),
        "  [FAIL] render/valid_input_is_never_a_fallback: hr=0x00000009"
    );
}
