use std::collections::HashSet;

use gauntlet::report::Report;
use gauntlet::suites::cases::{any_wanted, anything_to_run, wanted};
use gauntlet::suites::{api_misuse, churn, concurrency, lifecycle, render, stream_faults};
use gauntlet::supervisor::args::parse_args;

fn names_of_all_suites() -> Vec<Vec<String>> {
    vec![
        api_misuse::case_names(),
        stream_faults::case_names(),
        render::case_names(),
        concurrency::case_names(),
        churn::case_names(),
    ]
}

#[test]
fn a_filter_wants_the_case_it_names() {
    assert!(wanted(None, "a"));
    assert!(wanted(Some("a"), "a"));
    assert!(!wanted(Some("a"), "b"));
    assert!(!wanted(Some("a"), "ab"));
    assert!(!wanted(Some(""), "a"));
}

#[test]
fn every_suite_lists_its_cases() {
    let sizes: Vec<usize> = names_of_all_suites().iter().map(|v| v.len()).collect();
    assert_eq!(sizes, [36, 19, 44, 5, 8]);
    let first: Vec<String> = names_of_all_suites().iter().map(|v| v[0].clone()).collect();
    assert_eq!(
        first,
        [
            "module_identity",
            "stat_truthful_renders",
            "size_sweep_1",
            "concurrent_identical_renders_agree",
            "stable_pool_retention",
        ]
    );
    let last: Vec<String> = names_of_all_suites().iter().map(|v| v[v.len() - 1].clone()).collect();
    assert_eq!(
        last,
        [
            "unmatched_unlock_does_not_cancel_a_later_lock",
            "repeated_hostile_streams_do_not_leak",
            "valid_input_is_never_a_fallback",
            "concurrent_gdi_objects_released",
            "repeated_failed_renders_do_not_leak",
        ]
    );
    assert_eq!(api_misuse::case_names()[31], "size_2147483647");
}

#[test]
fn a_name_wants_one_case_of_its_suite() {
    for names in names_of_all_suites() {
        let distinct: HashSet<&String> = names.iter().collect();
        assert_eq!(distinct.len(), names.len());
        for name in &names {
            assert!(any_wanted(Some(name.as_str()), &names));
            let run: Vec<&String> =
                names.iter().filter(|n| wanted(Some(name.as_str()), n.as_str())).collect();
            assert_eq!(run, [name]);
        }
    }
}

#[test]
fn a_misspelt_case_is_recorded() {
    let names = churn::case_names();
    let mut r = Report::new("churn");
    assert!(anything_to_run(&mut r, None, &names));
    assert!(anything_to_run(&mut r, Some("gdi_objects_do_not_accumulate"), &names));
    assert!(r.take_lines().is_empty());
    assert!(!anything_to_run(&mut r, Some("gdi_objects"), &names));
    assert_eq!(
        r.take_lines(),
        ["  [SKIP] churn/cases: no case matched the --only filter (8 cases)"]
    );
    assert!(!anything_to_run(&mut r, None, &vec![]));
}

#[test]
fn a_replayed_case_is_the_only_one_wanted() {
    let words = ["render", "--dll", "x.dll", "--seed", "7", "--only", "size_sweep_3"];
    let args = parse_args(&words.iter().map(|w| w.to_string()).collect()).complete("d", 1);
    let names = render::case_names();
    let run: Vec<&String> =
        names.iter().filter(|n| wanted(args.only.as_deref(), n.as_str())).collect();
    assert_eq!(run, ["size_sweep_3"]);
}

#[test]
fn the_sequences_that_are_run() {
    assert_first_four(lifecycle::sequences_to_run(None, 4));
    assert_first_four(lifecycle::sequences_to_run(Some("sta_random_sequences"), 4));
    assert_eq!(lifecycle::sequences_to_run(Some("sta_sequence_2"), 4), [2]);
    // A sequence can be named whatever the workload.
    assert_eq!(lifecycle::sequences_to_run(Some("sta_sequence_700"), 4), [700]);
    for other in ["sta_sequence_", "sta_sequence_02", "sta_sequence_+2", "sta_sequence_x", "sta",
        "xta_sequence_2", "mixed_apartment_sequences", ""]
    {
        assert!(lifecycle::sequences_to_run(Some(other), 4).is_empty(), "{other}");
    }
}

fn assert_first_four(v: Vec<usize>) {
    assert_eq!(v, [0, 1, 2, 3]);
}

#[test]
fn a_lifecycle_run_with_nothing_to_do_is_recorded() {
    let mut r = Report::new("lifecycle");
    for only in [
        None,
        Some("sta_random_sequences"),
        Some("sta_sequence_9"),
        Some("mixed_apartment_sequences"),
        Some("object_released_on_a_different_thread"),
        Some("reference_count_returns_to_zero"),
        Some("no_handle_growth_across_sequences"),
    ] {
        assert!(lifecycle::anything_to_run(&mut r, only, 4), "{only:?}");
    }
    assert!(r.take_lines().is_empty());
    assert!(!lifecycle::anything_to_run(&mut r, Some("sta_sequence_09"), 4));
    assert_eq!(
        r.take_lines(),
        ["  [SKIP] lifecycle/cases: no case matched the --only filter (9 cases)"]
    );
}
