use gauntlet::hresult::{S_FALSE, S_OK};
use gauntlet::thumb_driver::{
    burst_dir, driver_mode, driver_opening, parse_driver_args, renamed, rotating_slice, DriverArgs,
    DriverArgsError, DriverMode, Requests,
};
use gauntlet::unload_harness::{
    check_bitmap, decide_unload, fail_env, harness_mode, harness_opening, iteration_line,
    parse_harness_args, unload_failed, unloaded_line, validate_rendered_pixels, HarnessMode,
};

fn strings(items: &[&str]) -> Vec<String> {
    items.iter().map(|s| s.to_string()).collect()
}

#[test]
fn harness_arguments() {
    let a = parse_harness_args(&strings(&["exe"]));
    assert_eq!((a.mode.as_str(), a.iterations, a.dll), ("", 50, None));
    let a = parse_harness_args(&strings(&["exe", "control", "7", "x.dll"]));
    assert_eq!((a.mode.as_str(), a.iterations, a.dll.as_deref()), ("control", 7, Some("x.dll")));
    for (text, n) in [("x", 50u32), ("-1", 50), ("4294967295", u32::MAX), ("4294967296", 50), ("+3", 3)] {
        assert_eq!(parse_harness_args(&strings(&["exe", "control", text])).iterations, n, "{text}");
    }
    assert!(matches!(harness_mode("control"), Some(HarnessMode::Control)));
    assert!(matches!(harness_mode("threadexit"), Some(HarnessMode::ThreadExit)));
    assert!(matches!(harness_mode("processexit"), Some(HarnessMode::ProcessExit)));
    assert!(matches!(harness_mode("freelibrary"), Some(HarnessMode::FreeLibrary)));
    assert!(harness_mode("other").is_none());
    assert_eq!(
        harness_opening("control", 7, "x.dll"),
        "unload_harness: mode=control iterations=7 dll=x.dll"
    );
}

#[test]
fn an_inconclusive_harness() {
    assert_eq!(fail_env("why"), ("HARNESS-INCONCLUSIVE: why".to_string(), 10));
    assert_eq!(check_bitmap(true, 256, 256), Ok(()));
    assert_eq!(
        check_bitmap(false, 256, 256),
        Err("GetObjectW failed or bitmap has no accessible bits".to_string())
    );
    assert_eq!(check_bitmap(true, 256, 255), Err("unexpected bitmap size 256x255".to_string()));
}

const YELLOW: [u8; 4] = [0x00, 0xB9, 0xFF, 0xFF];
const BLUE: [u8; 4] = [0xEF, 0x89, 0x2D, 0xFF];
const CLEAR: [u8; 4] = [0, 0, 0, 0];

fn raw(centre: [u8; 4], rect: [u8; 4], corner: [u8; 4]) -> Vec<u8> {
    let stride = 1024;
    let mut v = vec![0u8; 256 * stride];
    for (x, y, p) in [(128, 128, centre), (32, 32, rect), (4, 4, corner)] {
        v[y * stride + x * 4..y * stride + x * 4 + 4].copy_from_slice(&p);
    }
    v
}

#[test]
fn the_sampled_pixels_decide() {
    assert_eq!(validate_rendered_pixels(&raw(YELLOW, BLUE, CLEAR), 1024), Ok(()));
    assert_eq!(validate_rendered_pixels(&raw([16, 0xA9, 0xEF, 250], BLUE, [9, 9, 9, 10]), 1024), Ok(()));
    for (c, r, k) in [
        ([17, 0xB9, 0xFF, 0xFF], BLUE, CLEAR),
        ([0, 0xB9, 0xFF, 249], BLUE, CLEAR),
        (YELLOW, [0xEF, 0x89, 0x2D, 249], CLEAR),
        (YELLOW, [0xEF, 0x89, 0x3E, 0xFF], CLEAR),
        (YELLOW, BLUE, [0, 0, 0, 11]),
    ] {
        assert_eq!(
            validate_rendered_pixels(&raw(c, r, k), 1024),
            Err(format!(
                "thumbnail pixels do not match the test SVG (D2D path did not run; \
                 fallback bitmap suspected). center(BGRA)={c:?} rect={r:?} corner={k:?}"
            ))
        );
    }
}

#[test]
fn unloading_needs_permission() {
    let d = decide_unload(3, S_OK);
    assert_eq!(
        d.line,
        "iter 3: rendered on parked worker; DllCanUnloadNow = 0x00000000 (S_OK - COM accounting says unload is safe)"
    );
    assert_eq!(d.next_line, "iter 3: calling FreeLibrary (theorized crash site)...");
    assert_eq!(d.exit, None);
    let d = decide_unload(3, S_FALSE);
    assert_eq!(
        d.line,
        "iter 3: rendered on parked worker; DllCanUnloadNow = 0x00000001 (NOT S_OK - unload would be blocked)"
    );
    assert_eq!(
        d.next_line,
        "iter 3: DllCanUnloadNow blocked the unload; a real host would stop here. Exiting with code 3 (premise not met) instead of forcing an invalid FreeLibrary."
    );
    assert_eq!(d.exit, Some(3));
    assert_eq!(
        unload_failed(3, "e"),
        ("iter 3: FreeLibrary FAILED (e) - unload was not exercised, exiting with code 12".to_string(), 12)
    );
    assert_eq!(
        unloaded_line(3, true),
        "iter 3: FreeLibrary succeeded; module STILL MAPPED (self-pinned) after unload request"
    );
    assert_eq!(
        unloaded_line(3, false),
        "iter 3: FreeLibrary succeeded; module UNMAPPED after unload request"
    );
    assert_eq!(iteration_line(3, "ok"), "iter 3: ok");
}

fn driver(items: &[&str]) -> Result<DriverArgs, DriverArgsError> {
    parse_driver_args(&strings(items))
}

#[test]
fn driver_arguments() {
    assert!(matches!(driver(&["exe", "a", "b"]), Err(DriverArgsError::Usage)));
    assert!(matches!(driver(&["exe", "a", "b", "x"]), Err(DriverArgsError::BurstIndex)));
    match driver(&["exe", "a", "b", "7"]) {
        Ok(d) => assert_eq!((d.source_dir.as_str(), d.work_dir.as_str(), d.burst, d.files), ("a", "b", 7, 120)),
        Err(_) => panic!("refused"),
    }
    assert!(matches!(driver(&["exe", "a", "b", "7", "30"]), Ok(d) if d.files == 30));
    assert!(matches!(driver(&["exe", "a", "b", "7", "-"]), Ok(d) if d.files == 120));
}

#[test]
fn bursts_alternate() {
    assert!(driver_mode(0) == DriverMode::ImageFactory);
    assert!(driver_mode(1) == DriverMode::ThumbCache);
    assert_eq!(
        driver_opening(4, DriverMode::ImageFactory, 120, "src"),
        "thumb_driver: burst 4 mode=IShellItemImageFactory files=120 source=src"
    );
    assert_eq!(burst_dir(7), "burst_0007");
    assert_eq!(burst_dir(12345), "burst_12345");
    assert_eq!(renamed("icon", 7), "icon_r7.svg");
}

fn cycled(burst: usize, files: usize, len: usize) -> Vec<usize> {
    let start = (burst * files) % len;
    (0..len).cycle().skip(start).take(files.min(len)).collect()
}

#[test]
fn slices_rotate_through_the_corpus() {
    for len in [1usize, 2, 7, 120, 121] {
        for files in [0usize, 1, 3, 7, 120, 500] {
            for burst in 0..9 {
                assert_eq!(rotating_slice(burst, files, len), cycled(burst, files, len));
            }
        }
    }
}

#[test]
fn a_burst_takes_no_file_twice() {
    let mut s = rotating_slice(5, 120, 130);
    assert_eq!(s.len(), 120);
    s.sort();
    s.dedup();
    assert_eq!(s.len(), 120);
}

#[test]
fn bursts_follow_one_another() {
    let first = rotating_slice(0, 7, 100);
    let second = rotating_slice(1, 7, 100);
    assert_eq!(first, (0..7).collect::<Vec<_>>());
    assert_eq!(second, (7..14).collect::<Vec<_>>());
}

#[test]
fn requests_are_counted() {
    let mut r = Requests::new();
    for i in 0..7 {
        r.note(&format!("f{i}.svg"), 96, Err(0x8000_4005));
    }
    assert_eq!((r.ok, r.fail), (0, 7));
    assert_eq!(r.first_errors.len(), 5);
    assert_eq!(r.first_errors[0], "f0.svg (size 96): 0x80004005");
    assert_eq!(
        r.finish(3, DriverMode::ThumbCache, false),
        ("thumb_driver: DRIVER-ALL-FAILED - 0 of 7 thumbnail requests succeeded".to_string(), 20)
    );
    r.note("g.svg", 256, Ok(()));
    assert_eq!(
        r.finish(3, DriverMode::ThumbCache, false),
        (
            "thumb_driver: DRIVER-BURST-OK burst=3 mode=IThumbnailCache(FORCEEXTRACTION) ok=1 fail=7".to_string(),
            0
        )
    );
    assert_eq!(r.finish(3, DriverMode::ThumbCache, true).1, 21);
}
