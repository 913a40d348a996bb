use gauntlet::supervisor::args::{child_arguments, parse_args, Args};
use gauntlet::supervisor::probe::{call_line, probe_outcome, read_status, status_line};
use gauntlet::supervisor::run::{
    banner, github_heading, heartbeat_file, read_heartbeat, select_suites, title_lines, Refusal,
    Run,
};
use gauntlet::supervisor::{
    classify_exit, default_library_path, list, provider_dll_name, suite_kind, suites, watchdog_step, workload, ChildEnd,
    Poll, SuiteKind, Verdict, WatchdogAction, STORM_THREADS,
};

fn strings(items: &[&str]) -> Vec<String> {
    items.iter().map(|s| s.to_string()).collect()
}

fn args(items: &[&str]) -> Args {
    parse_args(&strings(items)).complete("target/release/default.dll", 777)
}

fn started(items: &[&str]) -> Run {
    match Run::start(args(items), true) {
        Ok(run) => run,
        Err(_) => panic!("the run was refused"),
    }
}

#[test]
fn a_run_without_a_library_is_refused_first() {
    for items in [&[][..], &["--suite", "render"][..], &["--suite", "nonsense"][..]] {
        match Run::start(args(items), false) {
            Err(r) => {
                assert!(matches!(r, Refusal::NoLibrary));
                assert_eq!(r.exit_code(), 10);
            }
            Ok(_) => panic!("there is no library to test"),
        }
    }
}

#[test]
fn a_run_of_an_unknown_suite_is_refused() {
    let items = ["--suite", "render", "--suite", "nonsense", "--suite", "worse"];
    match Run::start(args(&items), true) {
        Err(r) => {
            assert_eq!(r.exit_code(), 2);
            match r {
                Refusal::UnknownSuite(name) => assert_eq!(name, "nonsense"),
                Refusal::NoLibrary => panic!("the library exists"),
            }
        }
        Ok(_) => panic!("there is no such suite"),
    }
}

#[test]
fn the_suites_are_listed() {
    let names: Vec<&str> = suites().iter().map(|s| s.name).collect();
    assert_eq!(
        names,
        [
            "api-misuse", "stream-faults", "render", "adversarial", "svgz", "size-limits",
            "lifecycle", "concurrency", "churn", "breadth",
        ]
    );
    let lines: Vec<String> =
        suites().iter().map(|s| format!("{:<14} {}", s.name, s.description)).collect();
    assert_eq!(list(), lines);
}

#[test]
fn every_listed_suite_is_known() {
    for s in suites() {
        assert!(suite_kind(s.name).is_some(), "{}", s.name);
    }
    assert!(suite_kind("renders").is_none());
    assert!(suite_kind("").is_none());
}

#[test]
fn timeouts_and_caps() {
    let by_name = |name: &str| suites().into_iter().find(|s| s.name == name);
    let churn = by_name("churn");
    assert!(matches!(churn, Some(ref s) if s.timeout_secs == 1800 && s.mem_cap_mb == Some(6144)));
    let misuse = by_name("api-misuse");
    assert!(matches!(misuse, Some(ref s) if s.timeout_secs == 300 && s.mem_cap_mb.is_none()));
    let faults = by_name("stream-faults");
    assert!(matches!(faults, Some(ref s) if s.timeout_secs == 600 && s.mem_cap_mb == Some(2048)));
}

#[test]
fn the_workload_scales() {
    assert_eq!(workload(SuiteKind::Lifecycle, 3), Some(60));
    assert_eq!(workload(SuiteKind::Concurrency, 3), Some(120));
    assert_eq!(workload(SuiteKind::Breadth, 3), Some(1800));
    assert_eq!(workload(SuiteKind::Breadth, usize::MAX), None);
    assert_eq!(STORM_THREADS, 12);
}

#[test]
fn verdicts_have_labels() {
    assert_eq!(Verdict::Passed.label(), "PASS");
    assert_eq!(Verdict::Failed.label(), "FAIL");
    assert_eq!(Verdict::Crashed.label(), "CRASH");
    assert_eq!(Verdict::Hung.label(), "HANG");
    assert_eq!(Verdict::Inconclusive.label(), "INCONCLUSIVE");
    assert_eq!(Verdict::Panicked.label(), "PANIC");
}

#[test]
fn exit_codes_are_classified() {
    for (code, verdict) in [
        (0, Verdict::Passed),
        (1, Verdict::Failed),
        (10, Verdict::Inconclusive),
        (101, Verdict::Panicked),
        (-1, Verdict::Crashed),
        (0xC000_0005u32 as i32, Verdict::Crashed),
        (0x4000_0000, Verdict::Crashed),
        (0x3FFF_FFFF, Verdict::Failed),
        (2, Verdict::Failed),
        (124, Verdict::Failed),
        (i32::MAX, Verdict::Crashed),
        (i32::MIN, Verdict::Crashed),
    ] {
        assert!(classify_exit(code) == verdict, "{code}");
    }
}

#[test]
fn the_end_of_a_child_is_judged() {
    assert!(ChildEnd::Exited(0).judge() == (Verdict::Passed, 0));
    assert!(ChildEnd::TimedOut.judge() == (Verdict::Hung, 124));
    assert!(ChildEnd::SpawnFailed.judge() == (Verdict::Inconclusive, 10));
}

#[test]
fn the_watchdog_waits_kills_and_reports() {
    assert!(matches!(watchdog_step(Poll::Running, false), WatchdogAction::Sleep(100)));
    assert!(matches!(watchdog_step(Poll::Running, true), WatchdogAction::Kill));
    assert!(matches!(
        watchdog_step(Poll::Ended(Some(5)), true),
        WatchdogAction::Report(ChildEnd::Exited(5))
    ));
    assert!(matches!(
        watchdog_step(Poll::Ended(None), false),
        WatchdogAction::Report(ChildEnd::Exited(-1))
    ));
    assert!(matches!(
        watchdog_step(Poll::Lost, false),
        WatchdogAction::Report(ChildEnd::SpawnFailed)
    ));
}

#[test]
fn the_provider_goes_by_architecture() {
    assert_eq!(provider_dll_name("x86_64"), "win_svg_thumbs_x64.dll");
    assert_eq!(provider_dll_name("x86"), "win_svg_thumbs_x86.dll");
    assert_eq!(provider_dll_name("aarch64"), "win_svg_thumbs_arm64.dll");
    assert_eq!(provider_dll_name("riscv64"), "win_svg_thumbs_x64.dll");
}

#[test]
fn arguments_have_defaults() {
    let a = args(&[]);
    assert_eq!(a.dll, "target/release/default.dll");
    assert!(a.suites.is_empty());
    assert_eq!((a.seed, a.scale), (777, 1));
    assert!(a.only.is_none());
    assert_eq!((a.corpus.as_str(), a.work_dir.as_str()), ("svg-corpus", "gauntlet-work"));
    assert!(a.mem_cap_mb.is_none());
}

#[test]
fn arguments_are_taken() {
    let a = args(&[
        "--dll", "x.dll", "--suite", "render", "--suite", "svgz", "--seed", "42", "--scale", "3",
        "--only", "case", "--corpus", "dir", "--work-dir", "work", "--mem-cap-mb", "512",
    ]);
    assert_eq!(a.dll, "x.dll");
    assert_eq!(a.suites, ["render", "svgz"]);
    assert_eq!((a.seed, a.scale), (42, 3));
    assert_eq!(a.only.as_deref(), Some("case"));
    assert_eq!((a.corpus.as_str(), a.work_dir.as_str()), ("dir", "work"));
    assert_eq!(a.mem_cap_mb, Some(512));
}

#[test]
fn a_bad_number_is_as_good_as_none() {
    let a = args(&["--seed", "x", "--scale", "y", "--mem-cap-mb", "-1"]);
    assert_eq!((a.seed, a.scale, a.mem_cap_mb), (777, 1, None));
    assert_eq!(args(&["--scale", "0"]).scale, 1);
    // The last one decides, also where it is no number.
    assert_eq!(args(&["--seed", "5", "--seed", "x"]).seed, 777);
}

#[test]
fn a_missing_value_is_as_good_as_none() {
    assert_eq!(args(&["--dll"]).dll, "target/release/default.dll");
    assert!(args(&["--suite"]).suites.is_empty());
    assert_eq!(args(&["--scale"]).scale, 1);
}

#[test]
fn one_suite_may_stand_alone() {
    let p = parse_args(&strings(&["render", "--seed", "1", "extra", "--strange"]));
    assert_eq!(p.suites, ["render"]);
    assert_eq!(p.ignored, ["extra", "--strange"]);
    let p = parse_args(&strings(&["--suite", "svgz", "render"]));
    assert_eq!(p.suites, ["svgz"]);
    assert_eq!(p.ignored, ["render"]);
    // A value may look like an option.
    let p = parse_args(&strings(&["--only", "--seed"]));
    assert_eq!(p.only.as_deref(), Some("--seed"));
}

#[test]
fn a_child_replays_the_run() {
    let a = args(&["--dll", "x.dll", "--seed", "42", "--scale", "2", "--corpus", "c", "--work-dir", "w"]);
    for s in suites() {
        let v = child_arguments(&s, &a);
        let mut expected = strings(&[
            "exec", s.name, "--dll", "x.dll", "--seed", "42", "--scale", "2", "--corpus", "c",
            "--work-dir", "w",
        ]);
        if let Some(mb) = s.mem_cap_mb {
            expected.push("--mem-cap-mb".to_string());
            expected.push(mb.to_string());
        }
        assert_eq!(v, expected);
        let again = parse_args(&v[1..].to_vec()).complete("other.dll", 1);
        assert_eq!(again.suites, [s.name]);
        assert_eq!((again.dll.as_str(), again.seed, again.scale), ("x.dll", 42, 2));
        assert_eq!(again.mem_cap_mb, s.mem_cap_mb);
    }
}

#[test]
fn suites_are_selected_in_their_own_order() {
    let names = |v: &[&str]| match select_suites(&strings(v)) {
        Ok(s) => s.iter().map(|s| s.name.to_string()).collect::<Vec<_>>(),
        Err(e) => vec![format!("unknown {e}")],
    };
    assert_eq!(names(&[]).len(), 10);
    assert_eq!(names(&["svgz", "render"]), ["render", "svgz"]);
    assert_eq!(names(&["render", "render"]), ["render"]);
    assert_eq!(names(&["render", "nope", "never"]), ["unknown nope"]);
}

#[test]
fn a_heartbeat_is_its_first_line() {
    assert_eq!(read_heartbeat(None), None);
    assert_eq!(read_heartbeat(Some("")), None);
    assert_eq!(read_heartbeat(Some("  \nrest")), None);
    assert_eq!(read_heartbeat(Some("render\tcase\n")).as_deref(), Some("render\tcase"));
    assert_eq!(read_heartbeat(Some("  a b \r\nrest")).as_deref(), Some("a b"));
    assert_eq!(read_heartbeat(Some("\u{a0}x\u{2003}")).as_deref(), Some("x"));
}

#[test]
fn what_is_said_before_a_suite() {
    let s = &suites()[2];
    let rule = "-".repeat(65);
    assert_eq!(
        banner(s),
        [rule.clone(), format!(">>> SUITE {} ({})", s.name, s.description), rule]
    );
    assert_eq!(heartbeat_file("render"), "heartbeat-render.txt");
    let heading: String = github_heading(9).iter().map(|l| format!("{l}\n")).collect();
    assert_eq!(heading, "### Gauntlet (seed `9`)\n\n");
}

#[test]
fn what_is_said_first() {
    let a = args(&["--dll", "x.dll", "--seed", "5"]);
    let rule = "=".repeat(65);
    assert_eq!(
        title_lines(&a),
        [
            rule.as_str(),
            " SVG thumbnail provider - test gauntlet",
            rule.as_str(),
            "DLL under test : x.dll",
            "seed           : 5",
            "scale          : 1",
            "corpus         : svg-corpus",
        ]
    );
    assert_eq!(
        started(&["--suite", "svgz", "--suite", "render"]).suites_line(),
        "suites         : render, svgz"
    );
}

#[test]
fn a_green_run() {
    let mut run = started(&["--suite", "render", "--seed", "5"]);
    assert_eq!(run.args().seed, 5);
    match run.next() {
        Some(s) => assert_eq!(s.name, "render"),
        None => panic!("nothing to run"),
    }
    let lines = run.conclude(ChildEnd::Exited(0), Some("render\tlast\n"), "1.5");
    assert_eq!(lines, ["", "<<< SUITE render -> PASS (exit 0, 1.5s)", ""]);
    assert!(run.next().is_none());
    assert_eq!(run.exit_code(), 0);
    let rule = "=".repeat(65);
    assert_eq!(
        run.summary_lines(),
        [
            rule.clone(),
            " GAUNTLET SUMMARY".to_string(),
            rule,
            format!("  {:<14} {:<13} exit={:<6} {:>7}s", "render", "PASS", 0, "1.5"),
            String::new(),
            "  All suites passed.".to_string(),
            String::new(),
            "  seed for this run: 5".to_string(),
            "  replay any suite with: gauntlet exec <suite> --dll <path> --seed 5".to_string(),
        ]
    );
    assert_eq!(
        run.output_lines(),
        ["seed=5", "crashed=", "hung=", "failed=", "inconclusive=", "panicked="]
    );
}

#[test]
fn a_crash_names_its_case_and_does_not_stop_the_run() {
    let mut run = started(&["--dll", "x.dll", "--seed", "5"]);
    let ends = [
        ChildEnd::Exited(0),
        ChildEnd::Exited(-1073741819),
        ChildEnd::TimedOut,
        ChildEnd::Exited(1),
        ChildEnd::SpawnFailed,
        ChildEnd::Exited(101),
        ChildEnd::Exited(0),
        ChildEnd::Exited(0),
        ChildEnd::Exited(0),
        ChildEnd::Exited(1),
    ];
    let mut all = Vec::new();
    for (i, end) in ends.into_iter().enumerate() {
        assert!(run.next().is_some());
        let heartbeat = if i == 2 { None } else { Some("suite\tsome-case\n") };
        all.push(run.conclude(end, heartbeat, "12.3"));
    }
    assert!(run.next().is_none());
    assert_eq!(
        all[1],
        [
            "",
            "<<< SUITE stream-faults -> CRASH (exit -1073741819, 12.3s)",
            "    LAST CASE IN FLIGHT: suite\tsome-case",
            "    reproduce with: gauntlet exec stream-faults --dll x.dll --seed 5 --only some-case",
            "",
        ]
    );
    assert_eq!(
        all[2],
        [
            "",
            "<<< SUITE render -> HANG (exit 124, 12.3s)",
            "    (no heartbeat recorded; the suite died before its first case)",
            "",
        ]
    );
    assert_eq!(all[3].len(), 3);
    assert_eq!(run.exit_code(), 1);
    let summary = run.summary_lines();
    assert!(summary.contains(&format!(
        "  {:<14} {:<13} exit={:<6} {:>7}s  last case: some-case",
        "stream-faults", "CRASH", -1073741819, "12.3"
    )));
    // A panic is the harness's own, so its line names no case.
    assert!(summary.contains(&format!("  {:<14} {:<13} exit={:<6} {:>7}s", "size-limits", "PANIC", 101, "12.3")));
    for line in [
        "  CRASHES (unhandled exception in the child process): stream-faults",
        "  HANGS (killed by the watchdog): render",
        "  PANICS (a bug in the gauntlet itself, not necessarily in the DLL): size-limits",
        "  FAILED CHECKS: adversarial, breadth",
        "  INCONCLUSIVE (the suite could not run - this is treated as a failure so that a silently skipped suite cannot look green): svgz",
    ] {
        assert!(summary.contains(&line.to_string()), "{line}");
    }
    assert!(!summary.contains(&"  All suites passed.".to_string()));
    assert_eq!(
        run.output_lines(),
        [
            "seed=5", "crashed=stream-faults", "hung=render", "failed=adversarial breadth",
            "inconclusive=svgz", "panicked=size-limits",
        ]
    );
}

#[test]
fn a_replay_command_reads_back() {
    let mut run = started(&["--suite", "svgz", "--dll", "x.dll", "--seed", "5"]);
    let lines = run.conclude(ChildEnd::TimedOut, Some("svgz\tsvgz-bad-crc\n"), "900.0");
    let words: Vec<String> = match lines[3].strip_prefix("    reproduce with: ") {
        Some(rest) => rest.split(' ').map(|w| w.to_string()).collect(),
        None => panic!("no command"),
    };
    assert_eq!(&words[..2], ["gauntlet", "exec"]);
    let again = parse_args(&words[2..].to_vec()).complete("other.dll", 1);
    assert_eq!(again.suites, ["svgz"]);
    assert_eq!((again.dll.as_str(), again.seed), ("x.dll", 5));
    assert_eq!(again.only.as_deref(), Some("svgz-bad-crc"));
}

#[test]
fn one_inconclusive_suite_is_red() {
    let mut run = started(&["--suite", "render"]);
    run.conclude(ChildEnd::SpawnFailed, None, "0.0");
    assert_eq!(run.exit_code(), 1);
}

#[test]
fn a_probe_is_read_back() {
    for hr in [0u32, 0x8000_4003, u32::MAX] {
        let line = status_line(hr);
        assert_eq!(line, format!("PROBE-HRESULT=0x{hr:08X}"));
        assert_eq!(read_status(&line), Some(hr));
        assert_eq!(read_status(&format!("PROBE: calling\n{line}\nPROBE: returned")), Some(hr));
    }
    assert_eq!(read_status(""), None);
    assert_eq!(read_status("x PROBE-HRESULT=0x1"), None);
    assert_eq!(read_status("PROBE-HRESULT=zz\nPROBE-HRESULT=0x1"), None);
    assert_eq!(read_status("PROBE-HRESULT=  0x0000000A  \n"), Some(10));
    assert_eq!(read_status("PROBE-HRESULT=0x0x5\r\n"), Some(5));
    assert_eq!(read_status("PROBE-HRESULT=7F"), Some(0x7F));
    assert_eq!(read_status("PROBE-HRESULT="), None);
    assert_eq!(read_status("PROBE-HRESULT=100000000"), None);
}

#[test]
fn a_probe_that_faults_is_a_crash() {
    let p = probe_outcome(Some(0xC000_0005u32 as i32), "PROBE: calling");
    assert!(p.crashed);
    assert_eq!((p.exit_code, p.hresult), (0xC000_0005u32 as i32, None));
    let p = probe_outcome(Some(0), "PROBE-HRESULT=0x80004003\n");
    assert!(!p.crashed);
    assert_eq!((p.exit_code, p.hresult), (0, Some(0x8000_4003)));
    let p = probe_outcome(None, "");
    assert!(p.crashed);
    assert_eq!(p.exit_code, -1);
}

#[test]
fn what_a_probe_is_about_to_do() {
    assert_eq!(call_line(true, true), "PROBE: calling GetThumbnail with phbmp=NULL pdwalpha=NULL");
    assert_eq!(call_line(false, true), "PROBE: calling GetThumbnail with phbmp=valid pdwalpha=NULL");
}

#[test]
fn the_default_library_lies_among_the_release_builds() {
    let exe = strings(&["w", "target", "debug", "gauntlet.exe"]);
    assert_eq!(
        default_library_path(&exe, "p.dll"),
        Some(strings(&["w", "target", "release", "p.dll"]))
    );
    let exe = strings(&["target", "i686-pc-windows-msvc", "release", "gauntlet"]);
    assert_eq!(
        default_library_path(&exe, provider_dll_name("x86")),
        Some(strings(&["target", "i686-pc-windows-msvc", "release", "win_svg_thumbs_x86.dll"]))
    );
    assert_eq!(
        default_library_path(&strings(&["a", "b"]), "p.dll"),
        Some(strings(&["release", "p.dll"]))
    );
    assert!(default_library_path(&strings(&["b"]), "p.dll").is_none());
    assert!(default_library_path(&vec![], "p.dll").is_none());
}
