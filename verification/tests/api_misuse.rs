use gauntlet::hresult::{
    CLASS_E_CLASSNOTAVAILABLE, CLASS_E_NOAGGREGATION, E_FAIL, E_NOINTERFACE, E_POINTER, S_FALSE,
    S_OK,
};
use gauntlet::report::Report;
use gauntlet::suites::api_misuse::{
    boundary_case, boundary_sizes, factory_unavailable, judge_aggregation, judge_all_released,
    judge_boundary, judge_corruption, judge_early_call, judge_empty_file, judge_identity,
    judge_interfaces, judge_locking, judge_lone_lock, judge_many, judge_null_alpha,
    judge_null_args, judge_null_out, judge_null_ppv, judge_null_stream, judge_orphan,
    judge_poisoned, judge_query_interface, judge_shared_ledger, judge_twice, judge_unbalanced,
    judge_unknown_clsid, judge_unsupported_iid, judge_unsupported_instance, rebalance_again,
    EarlyCall, EmptyFile, Interfaces, Locking, LoneLock, Many, Orphan, PoisonedCall, Setup, Twice,
};
use gauntlet::supervisor::probe::ProbeOutcome;
use gauntlet::thumb::{Rendering, Thumb, ALPHA_ARGB};

fn judged<T>(f: impl FnOnce(&mut Report) -> T) -> (String, T) {
    let mut r = Report::new("am");
    let out = f(&mut r);
    (r.take_lines().join("|"), out)
}

fn line<T>(f: impl FnOnce(&mut Report) -> T) -> String {
    judged(f).0
}

fn not_created() -> Setup {
    Setup::NotCreated("e".to_string())
}

#[test]
fn one_copy_of_the_module() {
    assert_eq!(
        line(|r| judge_identity(r, "C:\\x.dll", 8, true)),
        "  [PASS] am/module_identity: loaded C:\\x.dll; lookup by base name resolves to the same module=true"
    );
    assert!(line(|r| judge_identity(r, "", 0, true)).starts_with("  [FAIL]"));
    assert!(line(|r| judge_identity(r, "x", 1, false)).starts_with("  [FAIL]"));
}

#[test]
fn null_arguments_are_refused() {
    assert_eq!(
        line(|r| judge_null_args(r, E_POINTER, E_POINTER, E_POINTER, E_POINTER)),
        "  [PASS] am/dll_get_class_object_null_args: all-null=0x80004003 null-clsid=0x80004003 null-iid=0x80004003 null-ppv=0x80004003 (expected E_POINTER for each)"
    );
    for i in 0..4 {
        let mut hr = [E_POINTER; 4];
        hr[i] = E_FAIL;
        assert!(line(|r| judge_null_args(r, hr[0], hr[1], hr[2], hr[3])).starts_with("  [FAIL]"));
    }
}

#[test]
fn unknown_classes_and_interfaces() {
    assert_eq!(
        line(|r| judge_unknown_clsid(r, CLASS_E_CLASSNOTAVAILABLE, true)),
        "  [PASS] am/dll_get_class_object_unknown_clsid: hr=0x80040111 out_null=true (expected CLASS_E_CLASSNOTAVAILABLE)"
    );
    assert!(line(|r| judge_unknown_clsid(r, CLASS_E_CLASSNOTAVAILABLE, false)).starts_with("  [FAIL]"));
    assert!(line(|r| judge_unknown_clsid(r, E_FAIL, true)).starts_with("  [FAIL]"));
    assert_eq!(
        line(|r| judge_unsupported_iid(r, E_NOINTERFACE, true)),
        "  [PASS] am/dll_get_class_object_unsupported_iid: hr=0x80004002 out_null=true (expected a failure with a null out-pointer)"
    );
    assert!(line(|r| judge_unsupported_iid(r, S_FALSE, true)).starts_with("  [FAIL]"));
    assert!(line(|r| judge_unsupported_iid(r, E_FAIL, false)).starts_with("  [FAIL]"));
}

#[test]
fn the_factory_keeps_its_contract() {
    assert_eq!(
        line(|r| factory_unavailable(r, "e")),
        "  [FAIL] am/factory_available: could not obtain a class factory: e"
    );
    assert_eq!(
        judged(|r| judge_aggregation(r, Some(CLASS_E_NOAGGREGATION))),
        (
            "  [PASS] am/create_instance_rejects_aggregation: hr=0x80040110 (expected CLASS_E_NOAGGREGATION)".to_string(),
            true
        )
    );
    let (text, go_on) = judged(|r| judge_aggregation(r, Some(S_OK)));
    assert!(text.starts_with("  [FAIL]") && go_on);
    assert_eq!(
        judged(|r| judge_aggregation(r, None)),
        (
            "  [FAIL] am/create_instance_rejects_aggregation: could not QI the factory for IUnknown".to_string(),
            false
        )
    );
    assert_eq!(
        line(|r| judge_null_ppv(r, E_POINTER)),
        "  [PASS] am/create_instance_null_ppv: hr=0x80004003 (expected E_POINTER)"
    );
    assert!(line(|r| judge_null_ppv(r, E_FAIL)).starts_with("  [FAIL]"));
    assert_eq!(
        line(|r| judge_unsupported_instance(r, E_NOINTERFACE)),
        "  [PASS] am/create_instance_unsupported_iid: hr=0x80004002 (expected E_NOINTERFACE)"
    );
    assert!(line(|r| judge_unsupported_instance(r, S_OK)).starts_with("  [FAIL]"));
}

#[test]
fn the_interfaces_of_a_provider() {
    let found = |a, b, c, d| {
        Ok(Interfaces { thumbnail: a, initialize: b, unknown: c, rejects_other: d })
    };
    assert_eq!(
        line(|r| judge_interfaces(r, &found(true, true, true, true))),
        "  [PASS] am/provider_supports_required_interfaces: IThumbnailProvider=true IInitializeWithStream=true IUnknown=true rejects-IPersist=true"
    );
    for i in 0..4 {
        let f = found(i != 0, i != 1, i != 2, i != 3);
        assert!(line(|r| judge_interfaces(r, &f)).starts_with("  [FAIL]"));
    }
    assert_eq!(
        line(|r| judge_interfaces(r, &Err(not_created()))),
        "  [FAIL] am/provider_supports_required_interfaces: CreateInstance failed: e"
    );
    assert_eq!(
        line(|r| judge_query_interface(r, true, true)),
        "  [PASS] am/query_interface_is_reflexive_and_symmetric: round-trip QI ok=true IUnknown identity stable=true"
    );
    assert!(line(|r| judge_query_interface(r, false, true)).starts_with("  [FAIL]"));
    assert!(line(|r| judge_query_interface(r, true, false)).starts_with("  [FAIL]"));
}

#[test]
fn initialising_twice() {
    assert_eq!(
        judged(|r| judge_twice(r, &Ok(Twice { first: None, second: Some(0x8007_04DF) }))),
        (
            "  [PASS] am/initialize_twice_is_rejected: first=true second=0x800704DF (expected the second call to fail)".to_string(),
            true
        )
    );
    assert_eq!(
        line(|r| judge_twice(r, &Ok(Twice { first: Some(1), second: None }))),
        "  [FAIL] am/initialize_twice_is_rejected: first=false second=0x00000000 (expected the second call to fail)"
    );
    assert_eq!(
        judged(|r| judge_twice(r, &Err(Setup::NoStream))),
        ("  [SKIP] am/initialize_twice_is_rejected: SHCreateMemStream failed".to_string(), false)
    );
    assert_eq!(
        judged(|r| judge_twice(r, &Err(not_created()))),
        ("  [FAIL] am/initialize_twice_is_rejected: CreateInstance failed: e".to_string(), true)
    );
}

#[test]
fn no_stream_and_an_empty_one() {
    assert_eq!(
        line(|r| judge_null_stream(r, &Ok(E_POINTER))),
        "  [PASS] am/initialize_null_stream: hr=0x80004003 (expected a clean failure, not a fault)"
    );
    assert!(line(|r| judge_null_stream(r, &Ok(S_OK))).starts_with("  [FAIL]"));
    assert_eq!(
        line(|r| judge_null_stream(r, &Err(not_created()))),
        "  [FAIL] am/initialize_null_stream: CreateInstance failed: e"
    );
    for (init, rendering) in [
        (Some(E_FAIL), None),
        (None, Some(Rendering::RedXFallback)),
        (None, Some(Rendering::Real)),
    ] {
        assert_eq!(
            line(|r| judge_empty_file(r, &Ok(EmptyFile { initialized: init, rendering }))),
            format!(
                "  [{}] am/initialize_empty_stream: Initialize hr={:?}, resulting thumbnail={rendering:?} - an empty file must \
                 fail or fall back, never produce real artwork",
                if rendering == Some(Rendering::Real) { "FAIL" } else { "PASS" },
                init.map(|hr| format!("0x{hr:08X}"))
            )
        );
    }
    assert_eq!(
        line(|r| judge_empty_file(r, &Err(Setup::NoStream))),
        "  [SKIP] am/initialize_empty_stream: SHCreateMemStream rejected an empty buffer"
    );
    assert_eq!(
        line(|r| judge_empty_file(r, &Err(not_created()))),
        "  [FAIL] am/initialize_empty_stream: CreateInstance failed: e"
    );
}

#[test]
fn a_thumbnail_before_initialisation() {
    for (failed, produced, unknown, ok) in [
        (Some(E_FAIL), false, true, true),
        (None, false, true, false),
        (Some(E_FAIL), true, true, false),
        (Some(E_FAIL), false, false, false),
    ] {
        let seen = EarlyCall { failed, produced_bitmap: produced, alpha_unknown: unknown };
        assert_eq!(
            line(|r| judge_early_call(r, &Ok(seen))),
            format!(
                "  [{}] am/get_thumbnail_before_initialize: hr={:?} produced_bitmap={produced} alpha_left_unknown={unknown}",
                if ok { "PASS" } else { "FAIL" },
                failed.map(|hr| format!("0x{hr:08X}"))
            )
        );
    }
    assert_eq!(
        line(|r| judge_early_call(r, &Err(Setup::NoInterface("q".to_string())))),
        "  [FAIL] am/get_thumbnail_before_initialize: QI failed: q"
    );
    assert_eq!(
        line(|r| judge_early_call(r, &Err(not_created()))),
        "  [FAIL] am/get_thumbnail_before_initialize: CreateInstance failed: e"
    );
}

#[test]
fn null_outputs_are_probed() {
    let probe = |crashed, exit_code, hresult| Ok(ProbeOutcome { crashed, exit_code, hresult });
    assert_eq!(
        line(|r| judge_null_out(r, &probe(false, 0, Some(E_POINTER)))),
        "  [PASS] am/get_thumbnail_null_out_pointers: child returned hr=Some(\"0x80004003\") (expected E_POINTER)"
    );
    assert_eq!(
        line(|r| judge_null_out(r, &probe(false, 0, None))),
        "  [FAIL] am/get_thumbnail_null_out_pointers: child returned hr=None (expected E_POINTER)"
    );
    assert_eq!(
        line(|r| judge_null_out(r, &probe(true, 0xC000_0005u32 as i32, None))),
        "  [FAIL] am/get_thumbnail_null_out_pointers: child process FAULTED (exit code 0xC0000005) calling GetThumbnail with null phbmp/pdwalpha - the raw vtable entry dereferences both output pointers before checking them"
    );
    assert_eq!(
        line(|r| judge_null_out(r, &Err("denied".to_string()))),
        "  [SKIP] am/get_thumbnail_null_out_pointers: could not spawn probe child: denied"
    );
    assert_eq!(
        line(|r| judge_null_alpha(r, &probe(false, 0, Some(0)))),
        "  [PASS] am/get_thumbnail_partial_null_out_pointer: child returned hr=Some(\"0x00000000\") without faulting"
    );
    assert_eq!(
        line(|r| judge_null_alpha(r, &probe(true, -1, None))),
        "  [FAIL] am/get_thumbnail_partial_null_out_pointer: child process FAULTED (exit 0xFFFFFFFF) with a valid phbmp but null pdwalpha"
    );
    assert_eq!(
        line(|r| judge_null_alpha(r, &Err("denied".to_string()))),
        "  [SKIP] am/get_thumbnail_partial_null_out_pointer: could not spawn probe child: denied"
    );
}

#[test]
fn outputs_are_set_on_failure() {
    for (failed, overwritten, null, unknown, ok) in [
        (Some(E_FAIL), true, true, true, true),
        (Some(E_FAIL), false, true, true, false),
        (Some(E_FAIL), true, false, true, false),
        (Some(E_FAIL), true, true, false, false),
        (None, true, false, false, true),
        (None, false, false, false, false),
    ] {
        let seen = PoisonedCall { failed, overwritten, bitmap_null: null, alpha_unknown: unknown };
        assert_eq!(
            line(|r| judge_poisoned(r, &Ok(seen))),
            format!(
                "  [{}] am/failed_render_still_sets_output_parameters: hr={:?} outputs_overwritten={overwritten} null_on_failure={null}",
                if ok { "PASS" } else { "FAIL" },
                failed.map(|hr| format!("0x{hr:08X}"))
            )
        );
    }
    assert_eq!(
        line(|r| judge_poisoned(r, &Err(Setup::NoStream))),
        "  [SKIP] am/failed_render_still_sets_output_parameters: SHCreateMemStream failed"
    );
    assert_eq!(
        line(|r| judge_poisoned(r, &Err(Setup::NoInterface("q".to_string())))),
        "  [FAIL] am/failed_render_still_sets_output_parameters: QI failed: q"
    );
}

#[test]
fn locks_keep_the_library_loaded() {
    let seen = |baseline, locked, while_locked, unlocked| {
        Ok(Locking { baseline, locked, while_locked, unlocked, after_release: S_OK })
    };
    assert_eq!(
        judged(|r| judge_locking(r, &seen(S_FALSE, true, S_FALSE, true))),
        (
            "  [PASS] am/lock_server_blocks_unload: lock=true unlock=true while_locked=0x00000001 after_all_released=0x00000000".to_string(),
            true
        )
    );
    for s in [
        seen(S_OK, true, S_FALSE, true),
        seen(S_FALSE, false, S_FALSE, true),
        seen(S_FALSE, true, S_OK, true),
        seen(S_FALSE, true, S_FALSE, false),
    ] {
        let (text, go_on) = judged(|r| judge_locking(r, &s));
        assert!(text.starts_with("  [FAIL]") && go_on);
    }
    assert_eq!(
        judged(|r| judge_locking(r, &Err(Setup::NoFactory("e".to_string())))),
        ("  [FAIL] am/lock_server_blocks_unload: no class factory: e".to_string(), false)
    );
    assert_eq!(
        line(|r| judge_all_released(r, S_OK, S_OK)),
        "  [PASS] am/unload_allowed_once_everything_released: DllCanUnloadNow=0x00000000 (expected S_OK with nothing outstanding)"
    );
    assert!(line(|r| judge_all_released(r, S_FALSE, S_OK)).starts_with("  [FAIL]"));
}

#[test]
fn unmatched_unlocks() {
    assert_eq!(
        line(|r| judge_unbalanced(r, Some(S_FALSE))),
        "  [PASS] am/unbalanced_unlock_does_not_report_unloadable: DllCanUnloadNow=0x00000001 after an unbalanced LockServer(FALSE) while a provider and factory are still alive (S_OK here would let COM unload a DLL still in use)"
    );
    assert!(line(|r| judge_unbalanced(r, Some(S_OK))).starts_with("  [FAIL]"));
    assert_eq!(
        line(|r| judge_unbalanced(r, None)),
        "  [SKIP] am/unbalanced_unlock_does_not_report_unloadable: could not create COM objects"
    );
    assert_eq!(
        line(|r| judge_corruption(r, Some(S_OK))),
        "  [FAIL] am/unbalanced_unlock_corrupts_reference_count: DllCanUnloadNow=0x00000000 with one live provider outstanding after a single unmatched LockServer(FALSE). S_OK here means the DLL's reference count no longer reflects its live objects, and COM would be entitled to unmap the DLL while that provider is still in use."
    );
    assert!(line(|r| judge_corruption(r, Some(S_FALSE))).starts_with("  [PASS]"));
    assert_eq!(
        line(|r| judge_corruption(r, None)),
        "  [SKIP] am/unbalanced_unlock_corrupts_reference_count: could not create COM objects"
    );
}

#[test]
fn objects_outlive_their_makers() {
    for (initialized, rendered, ok) in [
        (true, Some(true), true),
        (false, Some(true), false),
        (true, Some(false), false),
        (true, None, false),
    ] {
        let (text, go_on) = judged(|r| judge_orphan(r, &Ok(Orphan { initialized, rendered })));
        assert_eq!(
            text,
            format!(
                "  [{}] am/provider_outlives_its_factory: initialize_ok={initialized} render_ok={rendered:?} after the factory was released",
                if ok { "PASS" } else { "FAIL" }
            )
        );
        assert!(go_on);
    }
    for (setup, text) in [
        (Setup::NoFactory("e".to_string()), "  [FAIL] am/provider_outlives_its_factory: no class factory: e"),
        (not_created(), "  [FAIL] am/provider_outlives_its_factory: CreateInstance failed: e"),
        (Setup::NoStream, "  [SKIP] am/provider_outlives_its_factory: SHCreateMemStream failed"),
    ] {
        assert_eq!(judged(|r| judge_orphan(r, &Err(setup))), (text.to_string(), false));
    }
}

#[test]
fn many_live_objects() {
    assert_eq!(
        line(|r| judge_many(r, &Many::Counted { blocked: S_FALSE, released: Some(S_OK), shown: S_OK })),
        "  [PASS] am/many_live_providers_from_one_factory: unload blocked with 64 providers alive=true, allowed after all released=true"
    );
    assert_eq!(
        line(|r| judge_many(r, &Many::Counted { blocked: S_FALSE, released: Some(S_FALSE), shown: S_FALSE })),
        "  [FAIL] am/many_live_providers_from_one_factory: unload blocked with 64 providers alive=true, allowed after all released=false"
    );
    assert_eq!(
        line(|r| judge_many(r, &Many::Counted { blocked: S_OK, released: None, shown: S_OK })),
        "  [FAIL] am/many_live_providers_from_one_factory: unload blocked with 64 providers alive=false, allowed after all released=true"
    );
    assert_eq!(
        line(|r| judge_many(r, &Many::NoFactory)),
        "  [SKIP] am/many_live_providers_from_one_factory: could not obtain a class factory"
    );
    assert_eq!(
        line(|r| judge_many(r, &Many::NotCreated("e".to_string()))),
        "  [FAIL] am/many_live_providers_from_one_factory: CreateInstance failed: e"
    );
}

#[test]
fn sizes_at_the_boundaries() {
    assert_eq!(
        boundary_sizes(),
        [0, 1, 2, 15, 16, 4095, 4096, 4097, 8192, 65535, u32::MAX / 2, u32::MAX]
    );
    assert_eq!(boundary_case(4097), "size_4097");
    let t = Thumb { width: 2, height: 2, pixels: vec![9; 16], alpha: ALPHA_ARGB };
    assert_eq!(
        line(|r| judge_boundary(r, 2, &Ok(t))),
        "  [PASS] am/size_2: returned a 2x2 bitmap (Real)"
    );
    let t = Thumb { width: 2, height: 1, pixels: vec![9; 8], alpha: ALPHA_ARGB };
    assert_eq!(
        line(|r| judge_boundary(r, 2, &Ok(t))),
        "  [FAIL] am/size_2: returned a 2x1 bitmap (Real)"
    );
    for (size, ok) in [(0u32, true), (1, false), (4096, false), (4097, true), (u32::MAX, true)] {
        assert_eq!(
            line(|r| judge_boundary(r, size, &Err(E_FAIL))),
            format!("  [{}] am/size_{size}: failed with 0x80004005", if ok { "PASS" } else { "FAIL" })
        );
    }
}

#[test]
fn the_lock_ledger() {
    assert!(rebalance_again(0, false));
    assert!(rebalance_again(7, false));
    assert!(!rebalance_again(8, false));
    assert!(!rebalance_again(0, true));
    assert_eq!(
        line(|r| judge_lone_lock(r, &Ok(LoneLock { locked: true, hr: S_FALSE }))),
        "  [PASS] am/server_lock_alone_blocks_unload: LockServer(TRUE)=true, then every object released: DllCanUnloadNow=0x00000001. A server lock must keep the DLL loaded on its own - COM may unmap it the moment this reports S_OK."
    );
    assert!(line(|r| judge_lone_lock(r, &Ok(LoneLock { locked: true, hr: S_OK }))).starts_with("  [FAIL]"));
    assert!(line(|r| judge_lone_lock(r, &Ok(LoneLock { locked: false, hr: S_FALSE }))).starts_with("  [FAIL]"));
    assert_eq!(
        line(|r| judge_lone_lock(r, &Err(Setup::NoFactory("e".to_string())))),
        "  [FAIL] am/server_lock_alone_blocks_unload: no class factory: e"
    );
    let text = line(|r| judge_shared_ledger(r, true, S_FALSE));
    assert!(text.starts_with("  [PASS] am/unmatched_unlock_does_not_cancel_a_later_lock: after an unmatched LockServer(FALSE) from one client, a second client's LockServer(TRUE)=true left DllCanUnloadNow=0x00000001. "));
    assert!(text.ends_with("its worst case is a DLL that stays mapped, which for an idle-exiting surrogate is harmless."));
    assert!(line(|r| judge_shared_ledger(r, true, S_OK)).starts_with("  [FAIL]"));
    assert!(line(|r| judge_shared_ledger(r, false, S_FALSE)).starts_with("  [FAIL]"));
}
