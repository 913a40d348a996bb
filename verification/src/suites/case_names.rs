//! Names of the cases of the suites.
//!
//! A case is asked for by its name, so no two cases of a suite may share one. The
//! proof looks the place of a case up by its name: names in different places are
//! different.

use vstd::prelude::*;
use crate::numbers::{dec, digit};
use crate::suites::cases::all_differ;
use crate::suites::{api_misuse, churn, concurrency, lifecycle, render, stream_faults};

verus! {

// ---------------------------------------------------------------
//                     From names to places
// ---------------------------------------------------------------

/// The place of a case of the suite `api_misuse`.
spec fn api_place(name: Seq<char>) -> int {
    if name.len() == 15 && name[5] == 'e' {
        0
    } else if name.len() == 30 {
        1
    } else if name.len() == 34 {
        2
    } else if name.len() == 36 && name[0] == 'd' {
        3
    } else if name.len() == 35 {
        4
    } else if name.len() == 24 {
        5
    } else if name.len() == 31 && name[14] == 'e' {
        6
    } else if name.len() == 37 {
        7
    } else if name.len() == 42 && name[0] == 'q' {
        8
    } else if name.len() == 28 {
        9
    } else if name.len() == 22 {
        10
    } else if name.len() == 23 {
        11
    } else if name.len() == 31 && name[14] == 'b' {
        12
    } else if name.len() == 31 && name[14] == 'n' {
        13
    } else if name.len() == 38 {
        14
    } else if name.len() == 42 && name[0] == 'f' {
        15
    } else if name.len() == 25 {
        16
    } else if name.len() == 39 {
        17
    } else if name.len() == 44 {
        18
    } else if name.len() == 29 {
        19
    } else if name.len() == 36 && name[0] == 'm' {
        20
    } else if name.len() == 6 && name[5] == '0' {
        21
    } else if name.len() == 6 && name[5] == '1' {
        22
    } else if name.len() == 6 && name[5] == '2' {
        23
    } else if name.len() == 7 && name[6] == '5' {
        24
    } else if name.len() == 7 && name[6] == '6' {
        25
    } else if name.len() == 9 && name[8] == '5' {
        26
    } else if name.len() == 9 && name[8] == '6' {
        27
    } else if name.len() == 9 && name[8] == '7' {
        28
    } else if name.len() == 9 && name[8] == '2' {
        29
    } else if name.len() == 10 {
        30
    } else if name.len() == 15 && name[5] == '2' {
        31
    } else if name.len() == 15 && name[5] == '4' {
        32
    } else if name.len() == 42 && name[0] == 'u' {
        33
    } else if name.len() == 31 && name[14] == 'o' {
        34
    } else if name.len() == 45 {
        35
    } else {
        -1
    }
}

/// The place of a case of the suite `stream_faults`.
spec fn stream_place(name: Seq<char>) -> int {
    if name.len() == 21 {
        0
    } else if name.len() == 39 && name[0] == 's' {
        1
    } else if name.len() == 40 {
        2
    } else if name.len() == 33 {
        3
    } else if name.len() == 41 {
        4
    } else if name.len() == 30 {
        5
    } else if name.len() == 38 && name[0] == 's' {
        6
    } else if name.len() == 19 && name[12] == '3' {
        7
    } else if name.len() == 19 && name[12] == '7' {
        8
    } else if name.len() == 22 {
        9
    } else if name.len() == 36 && name[2] == 'a' {
        10
    } else if name.len() == 28 {
        11
    } else if name.len() == 34 {
        12
    } else if name.len() == 39 && name[0] == 'o' {
        13
    } else if name.len() == 37 {
        14
    } else if name.len() == 42 {
        15
    } else if name.len() == 38 && name[0] == 'o' {
        16
    } else if name.len() == 46 {
        17
    } else if name.len() == 36 && name[2] == 'p' {
        18
    } else {
        -1
    }
}

/// The place of a case of the suite `render`.
spec fn render_place(name: Seq<char>) -> int {
    if name.len() == 12 && name[11] == '1' {
        0
    } else if name.len() == 12 && name[11] == '2' {
        1
    } else if name.len() == 12 && name[11] == '3' {
        2
    } else if name.len() == 12 && name[11] == '7' {
        3
    } else if name.len() == 13 && name[11] == '1' {
        4
    } else if name.len() == 13 && name[11] == '2' {
        5
    } else if name.len() == 13 && name[11] == '3' {
        6
    } else if name.len() == 13 && name[11] == '4' {
        7
    } else if name.len() == 13 && name[11] == '6' {
        8
    } else if name.len() == 13 && name[11] == '9' {
        9
    } else if name.len() == 14 && name[13] == '8' {
        10
    } else if name.len() == 14 && name[13] == '9' {
        11
    } else if name.len() == 14 && name[13] == '5' {
        12
    } else if name.len() == 14 && name[13] == '6' {
        13
    } else if name.len() == 14 && name[13] == '7' {
        14
    } else if name.len() == 14 && name[13] == '2' {
        15
    } else if name.len() == 15 && name[11] == '1' {
        16
    } else if name.len() == 15 && name[11] == '2' {
        17
    } else if name.len() == 15 && name[11] == '4' {
        18
    } else if name.len() == 30 {
        19
    } else if name.len() == 37 && name[0] == 'i' {
        20
    } else if name.len() == 35 && name[16] == 'e' {
        21
    } else if name.len() == 27 {
        22
    } else if name.len() == 29 && name[4] == '_' {
        23
    } else if name.len() == 35 && name[16] == 't' {
        24
    } else if name.len() == 31 && name[1] == 'r' {
        25
    } else if name.len() == 26 {
        26
    } else if name.len() == 28 {
        27
    } else if name.len() == 25 {
        28
    } else if name.len() == 38 {
        29
    } else if name.len() == 29 && name[4] == 'l' {
        30
    } else if name.len() == 33 && name[4] == 'i' {
        31
    } else if name.len() == 40 {
        32
    } else if name.len() == 33 && name[4] == 'c' {
        33
    } else if name.len() == 29 && name[4] == 'a' {
        34
    } else if name.len() == 32 {
        35
    } else if name.len() == 39 {
        36
    } else if name.len() == 35 && name[16] == 'p' {
        37
    } else if name.len() == 35 && name[16] == 'x' {
        38
    } else if name.len() == 37 && name[0] == 'a' {
        39
    } else if name.len() == 31 && name[1] == 'i' {
        40
    } else if name.len() == 35 && name[16] == 'd' {
        41
    } else if name.len() == 35 && name[16] == 'o' {
        42
    } else if name.len() == 31 && name[1] == 'a' {
        43
    } else {
        -1
    }
}

/// The place of a case of the suite `concurrency`.
spec fn storm_place(name: Seq<char>) -> int {
    if name.len() == 34 {
        0
    } else if name.len() == 20 {
        1
    } else if name.len() == 32 {
        2
    } else if name.len() == 36 {
        3
    } else if name.len() == 31 {
        4
    } else {
        -1
    }
}

/// The place of a case of the suite `churn`.
spec fn churn_place(name: Seq<char>) -> int {
    if name.len() == 21 {
        0
    } else if name.len() == 44 {
        1
    } else if name.len() == 22 {
        2
    } else if name.len() == 38 {
        3
    } else if name.len() == 34 {
        4
    } else if name.len() == 32 {
        5
    } else if name.len() == 29 {
        6
    } else if name.len() == 35 {
        7
    } else {
        -1
    }
}

/// The places of the names grow from `lo` to below `hi`.
spec fn ranked(names: Seq<Seq<char>>, place: spec_fn(Seq<char>) -> int, lo: int, hi: int) -> bool {
    &&& forall|i: int| 0 <= i < names.len() ==> lo <= place(#[trigger] names[i]) < hi
    &&& forall|i: int, j: int|
        0 <= i < j < names.len() ==> place(#[trigger] names[i]) < place(#[trigger] names[j])
}

proof fn lemma_joined(
    a: Seq<Seq<char>>,
    b: Seq<Seq<char>>,
    place: spec_fn(Seq<char>) -> int,
    lo: int,
    mid: int,
    hi: int,
)
    requires
        ranked(a, place, lo, mid),
        ranked(b, place, mid, hi),
        lo <= mid <= hi,
    ensures
        ranked(a + b, place, lo, hi),
{
    let all = a + b;
    assert forall|i: int| 0 <= i < all.len() implies lo <= place(#[trigger] all[i]) < hi by {
        if i < a.len() {
            assert(all[i] == a[i]);
        } else {
            assert(all[i] == b[i - a.len()]);
        }
    }
    assert forall|i: int, j: int| 0 <= i < j < all.len() implies place(#[trigger] all[i]) < place(
        #[trigger] all[j],
    ) by {
        if j < a.len() {
            assert(all[i] == a[i] && all[j] == a[j]);
        } else if i < a.len() {
            assert(all[i] == a[i] && all[j] == b[j - a.len()]);
        } else {
            assert(all[i] == b[i - a.len()] && all[j] == b[j - a.len()]);
        }
    }
}

proof fn lemma_ranked_differ(
    names: Seq<Seq<char>>,
    place: spec_fn(Seq<char>) -> int,
    lo: int,
    hi: int,
)
    requires
        ranked(names, place, lo, hi),
    ensures
        all_differ(names),
{
    assert forall|i: int, j: int| 0 <= i < j < names.len() implies #[trigger] names[i]
        != #[trigger] names[j] by {
        assert(place(names[i]) < place(names[j]));
    }
}

/// The digits of the numbers that occur in names.
proof fn lemma_digits(n: nat)
    ensures
        n < 10 ==> dec(n) == seq![digit(n)],
        10 <= n < 100 ==> dec(n) == seq![digit(n / 10), digit(n % 10)],
        100 <= n < 1_000 ==> dec(n) == seq![digit(n / 100), digit(n / 10 % 10), digit(n % 10)],
        1_000 <= n < 10_000 ==> dec(n) == seq![
            digit(n / 1_000),
            digit(n / 100 % 10),
            digit(n / 10 % 10),
            digit(n % 10),
        ],
        10_000 <= n < 100_000 ==> dec(n).len() == 5,
        n == 0x7FFF_FFFF ==> dec(n).len() == 10 && dec(n)[0] == '2',
        n == 0xFFFF_FFFF ==> dec(n).len() == 10 && dec(n)[0] == '4',
{
    reveal_with_fuel(dec, 10);
}

// ---------------------------------------------------------------
//                       Suite after suite
// ---------------------------------------------------------------

proof fn lemma_api_misuse_contract_cases()
    ensures
        ranked(api_misuse::contract_cases(), |n: Seq<char>| api_place(n), 0, 16),
{
    reveal_strlit("module_identity");
    reveal_strlit("dll_get_class_object_null_args");
    reveal_strlit("dll_get_class_object_unknown_clsid");
    reveal_strlit("dll_get_class_object_unsupported_iid");
    reveal_strlit("create_instance_rejects_aggregation");
    reveal_strlit("create_instance_null_ppv");
    reveal_strlit("create_instance_unsupported_iid");
    reveal_strlit("provider_supports_required_interfaces");
    reveal_strlit("query_interface_is_reflexive_and_symmetric");
    reveal_strlit("initialize_twice_is_rejected");
    reveal_strlit("initialize_null_stream");
    reveal_strlit("initialize_empty_stream");
    reveal_strlit("get_thumbnail_before_initialize");
    reveal_strlit("get_thumbnail_null_out_pointers");
    reveal_strlit("get_thumbnail_partial_null_out_pointer");
    reveal_strlit("failed_render_still_sets_output_parameters");
    let l = api_misuse::contract_cases();
    assert(api_place(l[0]) == 0);
    assert(api_place(l[1]) == 1);
    assert(api_place(l[2]) == 2);
    assert(api_place(l[3]) == 3);
    assert(api_place(l[4]) == 4);
    assert(api_place(l[5]) == 5);
    assert(api_place(l[6]) == 6);
    assert(api_place(l[7]) == 7);
    assert(api_place(l[8]) == 8);
    assert(api_place(l[9]) == 9);
    assert(api_place(l[10]) == 10);
    assert(api_place(l[11]) == 11);
    assert(api_place(l[12]) == 12);
    assert(api_place(l[13]) == 13);
    assert(api_place(l[14]) == 14);
    assert(api_place(l[15]) == 15);
}

proof fn lemma_api_misuse_release_cases()
    ensures
        ranked(api_misuse::release_cases(), |n: Seq<char>| api_place(n), 16, 21),
{
    reveal_strlit("lock_server_blocks_unload");
    reveal_strlit("unload_allowed_once_everything_released");
    reveal_strlit("unbalanced_unlock_does_not_report_unloadable");
    reveal_strlit("provider_outlives_its_factory");
    reveal_strlit("many_live_providers_from_one_factory");
    let l = api_misuse::release_cases();
    assert(api_place(l[0]) == 16);
    assert(api_place(l[1]) == 17);
    assert(api_place(l[2]) == 18);
    assert(api_place(l[3]) == 19);
    assert(api_place(l[4]) == 20);
}

proof fn lemma_api_misuse_boundary_cases()
    ensures
        ranked(api_misuse::boundary_cases(), |n: Seq<char>| api_place(n), 21, 33),
{
    reveal_strlit("size_");
    lemma_digits(0);
    lemma_digits(1);
    lemma_digits(2);
    lemma_digits(15);
    lemma_digits(16);
    lemma_digits(4095);
    lemma_digits(4096);
    lemma_digits(4097);
    lemma_digits(8192);
    lemma_digits(65535);
    lemma_digits(2147483647);
    lemma_digits(4294967295);
    let l = api_misuse::boundary_cases();
    assert(api_place(l[0]) == 21);
    assert(api_place(l[1]) == 22);
    assert(api_place(l[2]) == 23);
    assert(api_place(l[3]) == 24);
    assert(api_place(l[4]) == 25);
    assert(api_place(l[5]) == 26);
    assert(api_place(l[6]) == 27);
    assert(api_place(l[7]) == 28);
    assert(api_place(l[8]) == 29);
    assert(api_place(l[9]) == 30);
    assert(api_place(l[10]) == 31);
    assert(api_place(l[11]) == 32);
}

proof fn lemma_api_misuse_ledger_cases()
    ensures
        ranked(api_misuse::ledger_cases(), |n: Seq<char>| api_place(n), 33, 36),
{
    reveal_strlit("unbalanced_unlock_corrupts_reference_count");
    reveal_strlit("server_lock_alone_blocks_unload");
    reveal_strlit("unmatched_unlock_does_not_cancel_a_later_lock");
    let l = api_misuse::ledger_cases();
    assert(api_place(l[0]) == 33);
    assert(api_place(l[1]) == 34);
    assert(api_place(l[2]) == 35);
}

/// No two cases of the suite `api_misuse` share a name.
proof fn lemma_api_misuse()
    ensures
        all_differ(api_misuse::case_list()),
{
    let place = |n: Seq<char>| api_place(n);
    lemma_api_misuse_contract_cases();
    lemma_api_misuse_release_cases();
    lemma_api_misuse_boundary_cases();
    lemma_api_misuse_ledger_cases();
    let l0 = api_misuse::contract_cases();
    lemma_joined(l0, api_misuse::release_cases(), place, 0, 16, 21);
    let l1 = l0 + api_misuse::release_cases();
    lemma_joined(l1, api_misuse::boundary_cases(), place, 0, 21, 33);
    let l2 = l1 + api_misuse::boundary_cases();
    lemma_joined(l2, api_misuse::ledger_cases(), place, 0, 33, 36);
    let l3 = l2 + api_misuse::ledger_cases();
    lemma_ranked_differ(api_misuse::case_list(), place, 0, 36);
}

proof fn lemma_stream_faults_step_cases()
    ensures
        ranked(stream_faults::step_cases(), |n: Seq<char>| stream_place(n), 0, 17),
{
    reveal_strlit("stat_truthful_renders");
    reveal_strlit("stat_failure_falls_back_to_chunked_read");
    reveal_strlit("stat_claims_u64_max_does_not_preallocate");
    reveal_strlit("stat_claims_zero_still_reads_data");
    reveal_strlit("stat_over_cap_is_rejected_without_reading");
    reveal_strlit("stat_under_reports_actual_size");
    reveal_strlit("single_byte_reads_reassemble_correctly");
    reveal_strlit("read_failure_midway_degrades_cleanly");
    reveal_strlit("read_failure_before_any_data");
    reveal_strlit("zero_byte_reads_terminate_the_loop");
    reveal_strlit("over_reported_read_count_is_not_trusted");
    reveal_strlit("read_that_never_sets_count_terminates");
    reveal_strlit("s_false_partial_read_is_treated_as_success");
    reveal_strlit("oversized_stream_is_capped_during_read");
    reveal_strlit("short_reads_");
    reveal_strlit("_bytes");
    lemma_digits(3);
    lemma_digits(7);
    lemma_digits(4096);
    let l = stream_faults::step_cases();
    assert(stream_place(l[0]) == 0);
    assert(stream_place(l[1]) == 1);
    assert(stream_place(l[2]) == 2);
    assert(stream_place(l[3]) == 3);
    assert(stream_place(l[4]) == 4);
    assert(stream_place(l[5]) == 5);
    assert(stream_place(l[6]) == 6);
    assert(stream_place(l[7]) == 7);
    assert(stream_place(l[8]) == 8);
    assert(stream_place(l[9]) == 9);
    assert(stream_place(l[10]) == 10);
    assert(stream_place(l[11]) == 11);
    assert(stream_place(l[12]) == 12);
    assert(stream_place(l[13]) == 13);
    assert(stream_place(l[14]) == 14);
    assert(stream_place(l[15]) == 15);
    assert(stream_place(l[16]) == 16);
}

proof fn lemma_stream_faults_leak_cases()
    ensures
        ranked(stream_faults::leak_cases(), |n: Seq<char>| stream_place(n), 17, 19),
{
    reveal_strlit("over_reported_read_leaks_thread_graphics_cache");
    reveal_strlit("repeated_hostile_streams_do_not_leak");
    let l = stream_faults::leak_cases();
    assert(stream_place(l[0]) == 17);
    assert(stream_place(l[1]) == 18);
}

/// No two cases of the suite `stream_faults` share a name.
proof fn lemma_stream_faults()
    ensures
        all_differ(stream_faults::case_list()),
{
    let place = |n: Seq<char>| stream_place(n);
    lemma_stream_faults_step_cases();
    lemma_stream_faults_leak_cases();
    let l0 = stream_faults::step_cases();
    lemma_joined(l0, stream_faults::leak_cases(), place, 0, 17, 19);
    let l1 = l0 + stream_faults::leak_cases();
    lemma_ranked_differ(stream_faults::case_list(), place, 0, 19);
}

proof fn lemma_render_sweep_cases()
    ensures
        ranked(render::sweep_cases(), |n: Seq<char>| render_place(n), 0, 19),
{
    reveal_strlit("size_sweep_");
    lemma_digits(1);
    lemma_digits(2);
    lemma_digits(3);
    lemma_digits(7);
    lemma_digits(16);
    lemma_digits(24);
    lemma_digits(32);
    lemma_digits(48);
    lemma_digits(64);
    lemma_digits(96);
    lemma_digits(128);
    lemma_digits(129);
    lemma_digits(255);
    lemma_digits(256);
    lemma_digits(257);
    lemma_digits(512);
    lemma_digits(1024);
    lemma_digits(2048);
    lemma_digits(4096);
    let l = render::sweep_cases();
    assert(render_place(l[0]) == 0);
    assert(render_place(l[1]) == 1);
    assert(render_place(l[2]) == 2);
    assert(render_place(l[3]) == 3);
    assert(render_place(l[4]) == 4);
    assert(render_place(l[5]) == 5);
    assert(render_place(l[6]) == 6);
    assert(render_place(l[7]) == 7);
    assert(render_place(l[8]) == 8);
    assert(render_place(l[9]) == 9);
    assert(render_place(l[10]) == 10);
    assert(render_place(l[11]) == 11);
    assert(render_place(l[12]) == 12);
    assert(render_place(l[13]) == 13);
    assert(render_place(l[14]) == 14);
    assert(render_place(l[15]) == 15);
    assert(render_place(l[16]) == 16);
    assert(render_place(l[17]) == 17);
    assert(render_place(l[18]) == 18);
}

proof fn lemma_render_pixel_cases()
    ensures
        ranked(render::pixel_cases(), |n: Seq<char>| render_place(n), 19, 26),
{
    reveal_strlit("repeated_renders_are_identical");
    reveal_strlit("interleaved_inputs_do_not_contaminate");
    reveal_strlit("empty_regions_are_fully_transparent");
    reveal_strlit("opaque_fill_is_fully_opaque");
    reveal_strlit("half_alpha_is_unpremultiplied");
    reveal_strlit("fully_transparent_stays_transparent");
    reveal_strlit("gradient_produces_varied_pixels");
    let l = render::pixel_cases();
    assert(render_place(l[0]) == 19);
    assert(render_place(l[1]) == 20);
    assert(render_place(l[2]) == 21);
    assert(render_place(l[3]) == 22);
    assert(render_place(l[4]) == 23);
    assert(render_place(l[5]) == 24);
    assert(render_place(l[6]) == 25);
}

proof fn lemma_render_styled_cases()
    ensures
        ranked(render::styled_cases(), |n: Seq<char>| render_place(n), 26, 37),
{
    reveal_strlit("css_class_selector_applied");
    reveal_strlit("css_element_selector_applied");
    reveal_strlit("css_selector_list_applied");
    reveal_strlit("css_second_of_multiple_classes_applied");
    reveal_strlit("css_later_duplicate_rule_wins");
    reveal_strlit("css_inline_style_beats_class_rule");
    reveal_strlit("css_comment_does_not_hide_following_rule");
    reveal_strlit("css_commented_out_rule_is_ignored");
    reveal_strlit("css_at_media_contents_applied");
    reveal_strlit("css_important_lowercase_stripped");
    reveal_strlit("css_important_inline_lowercase_stripped");
    let l = render::styled_cases();
    assert(render_place(l[0]) == 26);
    assert(render_place(l[1]) == 27);
    assert(render_place(l[2]) == 28);
    assert(render_place(l[3]) == 29);
    assert(render_place(l[4]) == 30);
    assert(render_place(l[5]) == 31);
    assert(render_place(l[6]) == 32);
    assert(render_place(l[7]) == 33);
    assert(render_place(l[8]) == 34);
    assert(render_place(l[9]) == 35);
    assert(render_place(l[10]) == 36);
}

proof fn lemma_render_spelling_cases()
    ensures
        ranked(render::spelling_cases(), |n: Seq<char>| render_place(n), 37, 39),
{
    reveal_strlit("css_important_uppercase_is_stripped");
    reveal_strlit("css_important_mixedcase_is_stripped");
    let l = render::spelling_cases();
    assert(render_place(l[0]) == 37);
    assert(render_place(l[1]) == 38);
}

proof fn lemma_render_scaling_cases()
    ensures
        ranked(render::scaling_cases(), |n: Seq<char>| render_place(n), 39, 44),
{
    reveal_strlit("artwork_scales_to_fill_requested_size");
    reveal_strlit("viewbox_synthesised_when_absent");
    reveal_strlit("aspect_ratio_handling_is_consistent");
    reveal_strlit("invalid_input_produces_the_fallback");
    reveal_strlit("valid_input_is_never_a_fallback");
    let l = render::scaling_cases();
    assert(render_place(l[0]) == 39);
    assert(render_place(l[1]) == 40);
    assert(render_place(l[2]) == 41);
    assert(render_place(l[3]) == 42);
    assert(render_place(l[4]) == 43);
}

/// No two cases of the suite `render` share a name.
proof fn lemma_render()
    ensures
        all_differ(render::case_list()),
{
    let place = |n: Seq<char>| render_place(n);
    lemma_render_sweep_cases();
    lemma_render_pixel_cases();
    lemma_render_styled_cases();
    lemma_render_spelling_cases();
    lemma_render_scaling_cases();
    let l0 = render::sweep_cases();
    lemma_joined(l0, render::pixel_cases(), place, 0, 19, 26);
    let l1 = l0 + render::pixel_cases();
    lemma_joined(l1, render::styled_cases(), place, 0, 26, 37);
    let l2 = l1 + render::styled_cases();
    lemma_joined(l2, render::spelling_cases(), place, 0, 37, 39);
    let l3 = l2 + render::spelling_cases();
    lemma_joined(l3, render::scaling_cases(), place, 0, 39, 44);
    let l4 = l3 + render::scaling_cases();
    lemma_ranked_differ(render::case_list(), place, 0, 44);
}

proof fn lemma_concurrency_list()
    ensures
        ranked(concurrency::case_list(), |n: Seq<char>| storm_place(n), 0, 5),
{
    reveal_strlit("concurrent_identical_renders_agree");
    reveal_strlit("mixed_workload_storm");
    reveal_strlit("threads_exit_while_others_render");
    reveal_strlit("reference_count_balanced_after_storm");
    reveal_strlit("concurrent_gdi_objects_released");
    let l = concurrency::case_list();
    assert(storm_place(l[0]) == 0);
    assert(storm_place(l[1]) == 1);
    assert(storm_place(l[2]) == 2);
    assert(storm_place(l[3]) == 3);
    assert(storm_place(l[4]) == 4);
}

/// No two cases of the suite `concurrency` share a name.
proof fn lemma_concurrency()
    ensures
        all_differ(concurrency::case_list()),
{
    let place = |n: Seq<char>| storm_place(n);
    lemma_concurrency_list();
    lemma_ranked_differ(concurrency::case_list(), place, 0, 5);
}

proof fn lemma_churn_list()
    ensures
        ranked(churn::case_list(), |n: Seq<char>| churn_place(n), 0, 8),
{
    reveal_strlit("stable_pool_retention");
    reveal_strlit("stable_pool_thread_count_returns_to_baseline");
    reveal_strlit("thread_churn_retention");
    reveal_strlit("thread_churn_growth_is_not_superlinear");
    reveal_strlit("churned_threads_actually_terminate");
    reveal_strlit("module_count_stable_across_churn");
    reveal_strlit("gdi_objects_do_not_accumulate");
    reveal_strlit("repeated_failed_renders_do_not_leak");
    let l = churn::case_list();
    assert(churn_place(l[0]) == 0);
    assert(churn_place(l[1]) == 1);
    assert(churn_place(l[2]) == 2);
    assert(churn_place(l[3]) == 3);
    assert(churn_place(l[4]) == 4);
    assert(churn_place(l[5]) == 5);
    assert(churn_place(l[6]) == 6);
    assert(churn_place(l[7]) == 7);
}

/// No two cases of the suite `churn` share a name.
proof fn lemma_churn()
    ensures
        all_differ(churn::case_list()),
{
    let place = |n: Seq<char>| churn_place(n);
    lemma_churn_list();
    lemma_ranked_differ(churn::case_list(), place, 0, 8);
}

// ---------------------------------------------------------------
//                              Law
// ---------------------------------------------------------------

/// No two cases of a suite share a name, so a suite that is asked for one case runs
/// that case and no other. The sequences of a lifecycle run are `sequences` many.
pub proof fn every_case_of_a_suite_has_its_own_name(sequences: nat)
    ensures
        all_differ(api_misuse::case_list()),
        all_differ(stream_faults::case_list()),
        all_differ(render::case_list()),
        all_differ(lifecycle::case_list(sequences)),
        all_differ(concurrency::case_list()),
        all_differ(churn::case_list()),
{
    lemma_api_misuse();
    lemma_stream_faults();
    lemma_render();
    lifecycle::every_case_has_its_own_name(sequences);
    lemma_concurrency();
    lemma_churn();
}

} // verus!
