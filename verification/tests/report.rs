use std::path::PathBuf;

use gauntlet::report::{env_bail, Outcome, Report, EXIT_ENV, EXIT_FAIL};

fn mixed() -> Report {
    let mut r = Report::new("render");
    r.pass("first", "went well");
    r.fail("second", "hr=0x80004005");
    r.skip("third", "no corpus");
    r.check("fourth", true, "fine");
    r.check("fifth", false, "not fine");
    r
}

#[test]
fn every_check_is_filed_once() {
    let r = mixed();
    assert_eq!(r.passed(), 2);
    let failed: Vec<&str> = r.failures().iter().map(|c| c.name.as_str()).collect();
    assert_eq!(failed, ["render/second", "render/fifth"]);
    let skipped: Vec<&str> = r.skipped().iter().map(|c| c.name.as_str()).collect();
    assert_eq!(skipped, ["render/third"]);
    assert_eq!(r.failures()[0].detail, "hr=0x80004005");
    assert!(r.failures()[0].outcome == Outcome::Fail);
    assert_eq!(r.passed() + r.failures().len() + r.skipped().len(), 5);
}

#[test]
fn lines_are_handed_out_once() {
    let mut r = mixed();
    assert_eq!(
        r.take_lines(),
        [
            "  [PASS] render/first: went well",
            "  [FAIL] render/second: hr=0x80004005",
            "  [SKIP] render/third: no corpus",
            "  [PASS] render/fourth: fine",
            "  [FAIL] render/fifth: not fine",
        ]
    );
    assert!(r.take_lines().is_empty());
    r.pass("sixth", "");
    assert_eq!(r.take_lines(), ["  [PASS] render/sixth: "]);
}

#[test]
fn a_line_belongs_to_its_check() {
    let r = mixed();
    assert_eq!(r.failures()[1].line(), "  [FAIL] render/fifth: not fine");
}

#[test]
fn the_exit_code_is_red_exactly_on_failure() {
    assert_eq!(mixed().finish(), EXIT_FAIL);
    assert_eq!(mixed().result_line(), "SUITE-RESULT render: FAILED");

    let mut r = Report::new("churn");
    assert_eq!(r.finish(), 0);
    r.pass("a", "");
    r.skip("b", "could not");
    assert_eq!(r.finish(), 0);
    assert_eq!(r.result_line(), "SUITE-RESULT churn: OK");
    r.fail("c", "");
    r.pass("d", "");
    assert_eq!(r.finish(), EXIT_FAIL);
}

#[test]
fn the_summary_lists_failures_and_skips() {
    assert_eq!(
        mixed().summary_lines(),
        [
            "",
            "SUITE-SUMMARY render: 2 passed, 2 failed, 1 skipped",
            "  FAILED: render/second - hr=0x80004005",
            "  FAILED: render/fifth - not fine",
            "  SKIPPED (could not be checked): render/third - no corpus",
        ]
    );
}

fn written(r: &Report) -> String {
    r.github_summary().iter().map(|l| format!("{l}\n")).collect()
}

#[test]
fn the_run_summary_is_short_when_green() {
    let mut r = Report::new("svgz");
    r.pass("a", "");
    r.pass("b", "");
    assert_eq!(written(&r), "- **svgz**: 2 checks passed\n");
}

#[test]
fn the_run_summary_names_what_was_found() {
    assert_eq!(
        written(&mixed()),
        "<details open><summary><strong>render</strong>: 2 passed, 2 FAILED, 1 skipped</summary>\n\n\
         - **FAILED** `render/second`<br>hr=0x80004005\n\
         - **FAILED** `render/fifth`<br>not fine\n\
         - _skipped_ `render/third`: no corpus\n\
         \n</details>\n\n"
    );
}

#[test]
fn a_heartbeat_names_suite_and_case() {
    let quiet = Report::new("render");
    assert!(quiet.begin_case("x").is_none());

    let r = Report::new("render").with_heartbeat(PathBuf::from("work/heartbeat-render.txt"));
    match r.begin_case("size_sweep_64") {
        Some((path, line)) => {
            assert_eq!(path, &PathBuf::from("work/heartbeat-render.txt"));
            assert_eq!(line, "render\tsize_sweep_64\n");
        }
        None => panic!("no heartbeat"),
    }
}

#[test]
fn an_environment_failure_is_inconclusive() {
    let (line, code) = env_bail("could not load x.dll");
    assert_eq!(line, "SUITE-ENVIRONMENT-FAILURE: could not load x.dll");
    assert_eq!(code, EXIT_ENV);
    assert_eq!(code, 10);
}
