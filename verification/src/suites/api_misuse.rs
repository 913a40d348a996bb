//! COM contract abuse.
//!
//! The shell is a well-behaved caller, so nothing in normal operation ever
//! exercises the provider's error paths. But an in-process server is reachable by
//! anything running in the host process. Every check here is a documented
//! requirement that the provider must satisfy without faulting the host.

use vstd::prelude::*;
use crate::hresult::{
    is_success, succeeded, CLASS_E_CLASSNOTAVAILABLE, CLASS_E_NOAGGREGATION, E_NOINTERFACE,
    E_POINTER, S_FALSE, S_OK,
};
use crate::numbers::{dec, decimal, hex32, hex32_text};
use crate::report::{one_check, outcome_of, Outcome, Report, ReportView};
use crate::suites::adversarial::{rendering_text, rendering_word};
use crate::supervisor::probe::ProbeOutcome;
use crate::text::{
    bool_text, bool_word, extend_texts, five, no_texts, push_text, texts, three, two,
};
use crate::thumb::{Rendering, Thumb};

verus! {

// ---------------------------------------------------------------
//                        Shared wording
// ---------------------------------------------------------------

/// Why a check could not get as far as its subject.
pub enum Setup {
    /// There is no class factory; the text says why.
    NoFactory(String),
    /// No provider could be created.
    NotCreated(String),
    /// The provider lacks the thumbnail interface.
    NoInterface(String),
    /// No stream could be made.
    NoStream,
}

/// The report after a check that could not get as far as its subject. A missing
/// stream says nothing about the provider.
pub open spec fn setup_failed(r: ReportView, name: Seq<char>, s: Setup) -> ReportView {
    match s {
        Setup::NoFactory(e) => r.fail(name, "no class factory: "@ + e@),
        Setup::NotCreated(e) => r.fail(name, "CreateInstance failed: "@ + e@),
        Setup::NoInterface(e) => r.fail(name, "QI failed: "@ + e@),
        Setup::NoStream => r.skip(name, "SHCreateMemStream failed"@),
    }
}

fn note_setup(report: &mut Report, name: &str, s: &Setup)
    ensures
        final(report)@ == setup_failed(old(report)@, name@, *s),
{
    match s {
        Setup::NoFactory(e) => {
            report.fail(name, two("no class factory: ", e.as_str()).as_str());
        },
        Setup::NotCreated(e) => {
            report.fail(name, two("CreateInstance failed: ", e.as_str()).as_str());
        },
        Setup::NoInterface(e) => {
            report.fail(name, two("QI failed: ", e.as_str()).as_str());
        },
        Setup::NoStream => {
            report.skip(name, "SHCreateMemStream failed");
        },
    }
}

/// The status of a call that may have failed, as it is shown.
pub open spec fn maybe_hr_word(hr: Option<u32>) -> Seq<char> {
    match hr {
        Some(h) => "Some(\""@ + hex32(h) + "\")"@,
        None => "None"@,
    }
}

fn maybe_hr_text(hr: Option<u32>) -> (s: String)
    ensures
        s@ == maybe_hr_word(hr),
{
    match hr {
        Some(h) => three("Some(\"", hex32_text(h).as_str(), "\")"),
        None => "None".to_owned(),
    }
}

// ---------------------------------------------------------------
//                      Module identity
// ---------------------------------------------------------------

/// The report after the check on which module was loaded.
pub open spec fn after_identity(
    r: ReportView,
    path: Seq<char>,
    len: u32,
    same: bool,
) -> ReportView {
    r.check(
        "module_identity"@,
        len > 0 && same,
        "loaded "@ + path + "; lookup by base name resolves to the same module="@ + bool_word(
            same,
        ),
    )
}

/// Every other check is meaningless if a different build is mapped. `len` is the
/// length of the path that the system gave, and `same` says whether the base name
/// leads back to the module.
pub fn judge_identity(report: &mut Report, path: &str, len: u32, same: bool)
    ensures
        final(report)@ == after_identity(old(report)@, path@, len, same),
{
    let mut s: String = three(
        "loaded ",
        path,
        "; lookup by base name resolves to the same module=",
    );
    s.append(bool_text(same));
    report.check("module_identity", len > 0 && same, s.as_str());
}

// ---------------------------------------------------------------
//                      DllGetClassObject
// ---------------------------------------------------------------

/// The report after the check on null arguments.
pub open spec fn after_null_args(
    r: ReportView,
    all_null: u32,
    null_clsid: u32,
    null_iid: u32,
    null_ppv: u32,
) -> ReportView {
    r.check(
        "dll_get_class_object_null_args"@,
        all_null == E_POINTER && null_clsid == E_POINTER && null_iid == E_POINTER && null_ppv
            == E_POINTER,
        "all-null="@ + hex32(all_null) + " null-clsid="@ + hex32(null_clsid) + " null-iid="@
            + hex32(null_iid) + " null-ppv="@ + hex32(null_ppv)
            + " (expected E_POINTER for each)"@,
    )
}

/// A crash on null arguments would take the host down at activation time.
pub fn judge_null_args(
    report: &mut Report,
    all_null: u32,
    null_clsid: u32,
    null_iid: u32,
    null_ppv: u32,
)
    ensures
        final(report)@ == after_null_args(old(report)@, all_null, null_clsid, null_iid, null_ppv),
{
    let mut s: String = five(
        "all-null=",
        hex32_text(all_null).as_str(),
        " null-clsid=",
        hex32_text(null_clsid).as_str(),
        " null-iid=",
    );
    s.append(hex32_text(null_iid).as_str());
    s.append(" null-ppv=");
    s.append(hex32_text(null_ppv).as_str());
    s.append(" (expected E_POINTER for each)");
    report.check(
        "dll_get_class_object_null_args",
        all_null == E_POINTER && null_clsid == E_POINTER && null_iid == E_POINTER && null_ppv
            == E_POINTER,
        s.as_str(),
    );
}

/// The report after the check on an unknown class.
pub open spec fn after_unknown_clsid(r: ReportView, hr: u32, out_null: bool) -> ReportView {
    r.check(
        "dll_get_class_object_unknown_clsid"@,
        hr == CLASS_E_CLASSNOTAVAILABLE && out_null,
        "hr="@ + hex32(hr) + " out_null="@ + bool_word(out_null)
            + " (expected CLASS_E_CLASSNOTAVAILABLE)"@,
    )
}

pub fn judge_unknown_clsid(report: &mut Report, hr: u32, out_null: bool)
    ensures
        final(report)@ == after_unknown_clsid(old(report)@, hr, out_null),
{
    report.check(
        "dll_get_class_object_unknown_clsid",
        hr == CLASS_E_CLASSNOTAVAILABLE && out_null,
        five(
            "hr=",
            hex32_text(hr).as_str(),
            " out_null=",
            bool_text(out_null),
            " (expected CLASS_E_CLASSNOTAVAILABLE)",
        ).as_str(),
    );
}

/// The report after the check on an interface that is not there.
pub open spec fn after_unsupported_iid(r: ReportView, hr: u32, out_null: bool) -> ReportView {
    r.check(
        "dll_get_class_object_unsupported_iid"@,
        !is_success(hr) && out_null,
        "hr="@ + hex32(hr) + " out_null="@ + bool_word(out_null)
            + " (expected a failure with a null out-pointer)"@,
    )
}

/// An interface that is not there must fail cleanly, without a bogus pointer.
pub fn judge_unsupported_iid(report: &mut Report, hr: u32, out_null: bool)
    ensures
        final(report)@ == after_unsupported_iid(old(report)@, hr, out_null),
{
    report.check(
        "dll_get_class_object_unsupported_iid",
        !succeeded(hr) && out_null,
        five(
            "hr=",
            hex32_text(hr).as_str(),
            " out_null=",
            bool_text(out_null),
            " (expected a failure with a null out-pointer)",
        ).as_str(),
    );
}

// ---------------------------------------------------------------
//                        IClassFactory
// ---------------------------------------------------------------

/// The report after no class factory could be had.
pub open spec fn after_no_factory(r: ReportView, error: Seq<char>) -> ReportView {
    r.fail("factory_available"@, "could not obtain a class factory: "@ + error)
}

/// The checks of the factory go on after the one about aggregation.
pub open spec fn factory_checks_go_on(hr: Option<u32>) -> bool {
    hr is Some
}

/// The checks of initialisation go on after the one about two calls.
pub open spec fn initialise_checks_go_on(calls: Result<Twice, Setup>) -> bool {
    !(calls matches Err(Setup::NoStream))
}

/// A group of checks goes on after one that got as far as its subject.
pub open spec fn group_goes_on<T>(seen: Result<T, Setup>) -> bool {
    seen is Ok
}

/// Records that no class factory could be had; the factory checks end there.
pub fn factory_unavailable(report: &mut Report, error: &str)
    ensures
        final(report)@ == after_no_factory(old(report)@, error@),
{
    report.fail(
        "factory_available",
        two("could not obtain a class factory: ", error).as_str(),
    );
}

/// The report after the check on aggregation.
pub open spec fn after_aggregation(r: ReportView, hr: Option<u32>) -> ReportView {
    match hr {
        None => r.fail(
            "create_instance_rejects_aggregation"@,
            "could not QI the factory for IUnknown"@,
        ),
        Some(h) => r.check(
            "create_instance_rejects_aggregation"@,
            h == CLASS_E_NOAGGREGATION,
            "hr="@ + hex32(h) + " (expected CLASS_E_NOAGGREGATION)"@,
        ),
    }
}

/// The provider does not support aggregation. `hr` is what creating an instance
/// with an outer object returned, where there was one to pass; without it the
/// factory checks end here.
pub fn judge_aggregation(report: &mut Report, hr: Option<u32>) -> (go_on: bool)
    ensures
        go_on == factory_checks_go_on(hr),
        final(report)@ == after_aggregation(old(report)@, hr),
{
    match hr {
        None => {
            report.fail(
                "create_instance_rejects_aggregation",
                "could not QI the factory for IUnknown",
            );
            false
        },
        Some(h) => {
            report.check(
                "create_instance_rejects_aggregation",
                h == CLASS_E_NOAGGREGATION,
                three("hr=", hex32_text(h).as_str(), " (expected CLASS_E_NOAGGREGATION)").as_str(),
            );
            true
        },
    }
}

/// The report after the check on a null output.
pub open spec fn after_null_ppv(r: ReportView, hr: u32) -> ReportView {
    r.check(
        "create_instance_null_ppv"@,
        hr == E_POINTER,
        "hr="@ + hex32(hr) + " (expected E_POINTER)"@,
    )
}

pub fn judge_null_ppv(report: &mut Report, hr: u32)
    ensures
        final(report)@ == after_null_ppv(old(report)@, hr),
{
    report.check(
        "create_instance_null_ppv",
        hr == E_POINTER,
        three("hr=", hex32_text(hr).as_str(), " (expected E_POINTER)").as_str(),
    );
}

/// The report after the check on an instance of an interface that is not there.
pub open spec fn after_unsupported_instance(r: ReportView, hr: u32) -> ReportView {
    r.check(
        "create_instance_unsupported_iid"@,
        hr == E_NOINTERFACE,
        "hr="@ + hex32(hr) + " (expected E_NOINTERFACE)"@,
    )
}

pub fn judge_unsupported_instance(report: &mut Report, hr: u32)
    ensures
        final(report)@ == after_unsupported_instance(old(report)@, hr),
{
    report.check(
        "create_instance_unsupported_iid",
        hr == E_NOINTERFACE,
        three("hr=", hex32_text(hr).as_str(), " (expected E_NOINTERFACE)").as_str(),
    );
}

/// Which interfaces a provider has.
#[derive(Debug, Clone, Copy, PartialEq, Eq, Structural)]
pub struct Interfaces {
    pub thumbnail: bool,
    pub initialize: bool,
    pub unknown: bool,
    /// It does not have one that it should not have.
    pub rejects_other: bool,
}

pub open spec fn interfaces_detail(i: Interfaces) -> Seq<char> {
    "IThumbnailProvider="@ + bool_word(i.thumbnail) + " IInitializeWithStream="@ + bool_word(
        i.initialize,
    ) + " IUnknown="@ + bool_word(i.unknown) + " rejects-IPersist="@ + bool_word(i.rejects_other)
}

/// The report after the check on the interfaces of a provider.
pub open spec fn after_interfaces(r: ReportView, found: Result<Interfaces, Setup>) -> ReportView {
    match found {
        Ok(i) => r.check(
            "provider_supports_required_interfaces"@,
            i.thumbnail && i.initialize && i.unknown && i.rejects_other,
            interfaces_detail(i),
        ),
        Err(s) => setup_failed(r, "provider_supports_required_interfaces"@, s),
    }
}

pub fn judge_interfaces(report: &mut Report, found: &Result<Interfaces, Setup>)
    ensures
        final(report)@ == after_interfaces(old(report)@, *found),
{
    match found {
        Ok(i) => {
            let mut s: String = five(
                "IThumbnailProvider=",
                bool_text(i.thumbnail),
                " IInitializeWithStream=",
                bool_text(i.initialize),
                " IUnknown=",
            );
            s.append(bool_text(i.unknown));
            s.append(" rejects-IPersist=");
            s.append(bool_text(i.rejects_other));
            report.check(
                "provider_supports_required_interfaces",
                i.thumbnail && i.initialize && i.unknown && i.rejects_other,
                s.as_str(),
            );
        },
        Err(s) => {
            note_setup(report, "provider_supports_required_interfaces", s);
        },
    }
}

/// The report after the check on the identity of a provider.
pub open spec fn after_query_interface(
    r: ReportView,
    round_trip: bool,
    same_identity: bool,
) -> ReportView {
    r.check(
        "query_interface_is_reflexive_and_symmetric"@,
        round_trip && same_identity,
        "round-trip QI ok="@ + bool_word(round_trip) + " IUnknown identity stable="@
            + bool_word(same_identity),
    )
}

/// Identity rules: interfaces are reachable in both directions, and the identity
/// is the same whichever interface it is asked from.
pub fn judge_query_interface(report: &mut Report, round_trip: bool, same_identity: bool)
    ensures
        final(report)@ == after_query_interface(old(report)@, round_trip, same_identity),
{
    let mut s: String = three(
        "round-trip QI ok=",
        bool_text(round_trip),
        " IUnknown identity stable=",
    );
    s.append(bool_text(same_identity));
    report.check(
        "query_interface_is_reflexive_and_symmetric",
        round_trip && same_identity,
        s.as_str(),
    );
}

// ---------------------------------------------------------------
//                   IInitializeWithStream
// ---------------------------------------------------------------

/// What two initialisations in a row returned where they failed.
#[derive(Debug, Clone, Copy, PartialEq, Eq, Structural)]
pub struct Twice {
    pub first: Option<u32>,
    pub second: Option<u32>,
}

pub open spec fn code_or_zero(hr: Option<u32>) -> u32 {
    match hr {
        Some(h) => h,
        None => 0,
    }
}

/// The report after the check on two initialisations in a row.
pub open spec fn after_twice(r: ReportView, calls: Result<Twice, Setup>) -> ReportView {
    match calls {
        Ok(t) => r.check(
            "initialize_twice_is_rejected"@,
            t.first is None && t.second is Some,
            "first="@ + bool_word(t.first is None) + " second="@ + hex32(
                code_or_zero(t.second),
            ) + " (expected the second call to fail)"@,
        ),
        Err(s) => setup_failed(r, "initialize_twice_is_rejected"@, s),
    }
}

/// If a second initialisation silently succeeded, the contents could be swapped
/// underneath a pending request. Without streams the remaining checks of
/// initialisation are left out.
pub fn judge_twice(report: &mut Report, calls: &Result<Twice, Setup>) -> (go_on: bool)
    ensures
        go_on == initialise_checks_go_on(*calls),
        final(report)@ == after_twice(old(report)@, *calls),
{
    match calls {
        Ok(t) => {
            let second: u32 = match t.second {
                Some(h) => h,
                None => 0,
            };
            report.check(
                "initialize_twice_is_rejected",
                t.first.is_none() && t.second.is_some(),
                five(
                    "first=",
                    bool_text(t.first.is_none()),
                    " second=",
                    hex32_text(second).as_str(),
                    " (expected the second call to fail)",
                ).as_str(),
            );
            true
        },
        Err(s) => {
            note_setup(report, "initialize_twice_is_rejected", s);
            match s {
                Setup::NoStream => false,
                _ => true,
            }
        },
    }
}

/// The report after the check on a null stream.
pub open spec fn after_null_stream(r: ReportView, hr: Result<u32, Setup>) -> ReportView {
    match hr {
        Ok(h) => r.check(
            "initialize_null_stream"@,
            !is_success(h),
            "hr="@ + hex32(h) + " (expected a clean failure, not a fault)"@,
        ),
        Err(s) => setup_failed(r, "initialize_null_stream"@, s),
    }
}

/// A null stream must be a clean failure, not a fault.
pub fn judge_null_stream(report: &mut Report, hr: &Result<u32, Setup>)
    ensures
        final(report)@ == after_null_stream(old(report)@, *hr),
{
    match hr {
        Ok(h) => {
            report.check(
                "initialize_null_stream",
                !succeeded(*h),
                three(
                    "hr=",
                    hex32_text(*h).as_str(),
                    " (expected a clean failure, not a fault)",
                ).as_str(),
            );
        },
        Err(s) => {
            note_setup(report, "initialize_null_stream", s);
        },
    }
}

/// What came of an empty file.
#[derive(Debug, Clone, Copy, PartialEq, Eq, Structural)]
pub struct EmptyFile {
    /// What the initialisation returned where it failed.
    pub initialized: Option<u32>,
    pub rendering: Option<Rendering>,
}

/// The report after an empty file. Whether it is accepted is the provider's
/// choice, but there is nothing to render.
pub open spec fn after_empty_file(r: ReportView, seen: Result<EmptyFile, Setup>) -> ReportView {
    match seen {
        Ok(e) => r.check(
            "initialize_empty_stream"@,
            e.rendering != Some(Rendering::Real),
            "Initialize hr="@ + maybe_hr_word(e.initialized) + ", resulting thumbnail="@
                + rendering_word(e.rendering)
                + " - an empty file must fail or fall back, never produce real artwork"@,
        ),
        Err(Setup::NoStream) => r.skip(
            "initialize_empty_stream"@,
            "SHCreateMemStream rejected an empty buffer"@,
        ),
        Err(s) => setup_failed(r, "initialize_empty_stream"@, s),
    }
}

pub fn judge_empty_file(report: &mut Report, seen: &Result<EmptyFile, Setup>)
    ensures
        final(report)@ == after_empty_file(old(report)@, *seen),
{
    match seen {
        Ok(e) => {
            let artwork: bool = match e.rendering {
                Some(r) => r == Rendering::Real,
                None => false,
            };
            report.check(
                "initialize_empty_stream",
                !artwork,
                five(
                    "Initialize hr=",
                    maybe_hr_text(e.initialized).as_str(),
                    ", resulting thumbnail=",
                    rendering_text(e.rendering).as_str(),
                    " - an empty file must fail or fall back, never produce real artwork",
                ).as_str(),
            );
        },
        Err(Setup::NoStream) => {
            report.skip("initialize_empty_stream", "SHCreateMemStream rejected an empty buffer");
        },
        Err(s) => {
            note_setup(report, "initialize_empty_stream", s);
        },
    }
}

// ---------------------------------------------------------------
//                     IThumbnailProvider
// ---------------------------------------------------------------

/// What a thumbnail request on an uninitialised provider gave.
#[derive(Debug, Clone, Copy, PartialEq, Eq, Structural)]
pub struct EarlyCall {
    /// What the call returned where it failed.
    pub failed: Option<u32>,
    pub produced_bitmap: bool,
    pub alpha_unknown: bool,
}

/// The report after the check on a request before initialisation.
pub open spec fn after_early_call(r: ReportView, seen: Result<EarlyCall, Setup>) -> ReportView {
    match seen {
        Ok(e) => r.check(
            "get_thumbnail_before_initialize"@,
            e.failed is Some && !e.produced_bitmap && e.alpha_unknown,
            "hr="@ + maybe_hr_word(e.failed) + " produced_bitmap="@ + bool_word(e.produced_bitmap)
                + " alpha_left_unknown="@ + bool_word(e.alpha_unknown),
        ),
        Err(s) => setup_failed(r, "get_thumbnail_before_initialize"@, s),
    }
}

/// An uninitialised object must fail rather than render whatever happens to be in
/// its state.
pub fn judge_early_call(report: &mut Report, seen: &Result<EarlyCall, Setup>)
    ensures
        final(report)@ == after_early_call(old(report)@, *seen),
{
    match seen {
        Ok(e) => {
            let mut s: String = five(
                "hr=",
                maybe_hr_text(e.failed).as_str(),
                " produced_bitmap=",
                bool_text(e.produced_bitmap),
                " alpha_left_unknown=",
            );
            s.append(bool_text(e.alpha_unknown));
            report.check(
                "get_thumbnail_before_initialize",
                e.failed.is_some() && !e.produced_bitmap && e.alpha_unknown,
                s.as_str(),
            );
        },
        Err(s) => {
            note_setup(report, "get_thumbnail_before_initialize", s);
        },
    }
}

/// The bits of a signed exit code.
pub open spec fn exit_bits(code: i32) -> u32 {
    if code < 0 {
        (code + 0x1_0000_0000) as u32
    } else {
        code as u32
    }
}

fn exit_word(code: i32) -> (n: u32)
    ensures
        n == exit_bits(code),
{
    if code < 0 {
        (code as i64 + 0x1_0000_0000i64) as u32
    } else {
        code as u32
    }
}

/// The report after the probe that passes null for both outputs.
pub open spec fn after_null_out(r: ReportView, probe: Result<ProbeOutcome, String>) -> ReportView {
    match probe {
        Ok(p) => r.check(
            "get_thumbnail_null_out_pointers"@,
            !p.crashed && p.hresult == Some(E_POINTER),
            if p.crashed {
                "child process FAULTED (exit code "@ + hex32(exit_bits(p.exit_code))
                    + ") calling GetThumbnail with null phbmp/pdwalpha - the raw vtable entry dereferences both output pointers before checking them"@
            } else {
                "child returned hr="@ + maybe_hr_word(p.hresult) + " (expected E_POINTER)"@
            },
        ),
        Err(e) => r.skip(
            "get_thumbnail_null_out_pointers"@,
            "could not spawn probe child: "@ + e@,
        ),
    }
}

pub fn judge_null_out(report: &mut Report, probe: &Result<ProbeOutcome, String>)
    ensures
        final(report)@ == after_null_out(old(report)@, *probe),
{
    match probe {
        Ok(p) => {
            let detail: String = if p.crashed {
                three(
                    "child process FAULTED (exit code ",
                    hex32_text(exit_word(p.exit_code)).as_str(),
                    ") calling GetThumbnail with null phbmp/pdwalpha - the raw vtable entry dereferences both output pointers before checking them",
                )
            } else {
                three(
                    "child returned hr=",
                    maybe_hr_text(p.hresult).as_str(),
                    " (expected E_POINTER)",
                )
            };
            let pointer: bool = match p.hresult {
                Some(h) => h == E_POINTER,
                None => false,
            };
            report.check(
                "get_thumbnail_null_out_pointers",
                !p.crashed && pointer,
                detail.as_str(),
            );
        },
        Err(e) => {
            report.skip(
                "get_thumbnail_null_out_pointers",
                two("could not spawn probe child: ", e.as_str()).as_str(),
            );
        },
    }
}

/// The report after the probe that passes null for one output.
pub open spec fn after_null_alpha(r: ReportView, probe: Result<ProbeOutcome, String>) -> ReportView {
    match probe {
        Ok(p) => r.check(
            "get_thumbnail_partial_null_out_pointer"@,
            !p.crashed,
            if p.crashed {
                "child process FAULTED (exit "@ + hex32(exit_bits(p.exit_code))
                    + ") with a valid phbmp but null pdwalpha"@
            } else {
                "child returned hr="@ + maybe_hr_word(p.hresult) + " without faulting"@
            },
        ),
        Err(e) => r.skip(
            "get_thumbnail_partial_null_out_pointer"@,
            "could not spawn probe child: "@ + e@,
        ),
    }
}

pub fn judge_null_alpha(report: &mut Report, probe: &Result<ProbeOutcome, String>)
    ensures
        final(report)@ == after_null_alpha(old(report)@, *probe),
{
    match probe {
        Ok(p) => {
            let detail: String = if p.crashed {
                three(
                    "child process FAULTED (exit ",
                    hex32_text(exit_word(p.exit_code)).as_str(),
                    ") with a valid phbmp but null pdwalpha",
                )
            } else {
                three(
                    "child returned hr=",
                    maybe_hr_text(p.hresult).as_str(),
                    " without faulting",
                )
            };
            report.check("get_thumbnail_partial_null_out_pointer", !p.crashed, detail.as_str());
        },
        Err(e) => {
            report.skip(
                "get_thumbnail_partial_null_out_pointer",
                two("could not spawn probe child: ", e.as_str()).as_str(),
            );
        },
    }
}

/// What a failing thumbnail request did to its poisoned outputs.
#[derive(Debug, Clone, Copy, PartialEq, Eq, Structural)]
pub struct PoisonedCall {
    /// What the call returned where it failed.
    pub failed: Option<u32>,
    /// At least one of the outputs was written.
    pub overwritten: bool,
    pub bitmap_null: bool,
    pub alpha_unknown: bool,
}

/// The report after the check on the outputs of a failing request.
pub open spec fn after_poisoned(r: ReportView, seen: Result<PoisonedCall, Setup>) -> ReportView {
    match seen {
        Ok(p) => r.check(
            "failed_render_still_sets_output_parameters"@,
            p.overwritten && (p.failed is None || (p.bitmap_null && p.alpha_unknown)),
            "hr="@ + maybe_hr_word(p.failed) + " outputs_overwritten="@ + bool_word(p.overwritten)
                + " null_on_failure="@ + bool_word(p.bitmap_null),
        ),
        Err(s) => setup_failed(r, "failed_render_still_sets_output_parameters"@, s),
    }
}

/// On any failure path the outputs must be reset, so that a caller who ignores
/// the status cannot use a stale handle.
pub fn judge_poisoned(report: &mut Report, seen: &Result<PoisonedCall, Setup>)
    ensures
        final(report)@ == after_poisoned(old(report)@, *seen),
{
    match seen {
        Ok(p) => {
            let safe_on_failure: bool = p.failed.is_some() && p.bitmap_null && p.alpha_unknown;
            let mut s: String = five(
                "hr=",
                maybe_hr_text(p.failed).as_str(),
                " outputs_overwritten=",
                bool_text(p.overwritten),
                " null_on_failure=",
            );
            s.append(bool_text(p.bitmap_null));
            report.check(
                "failed_render_still_sets_output_parameters",
                p.overwritten && (p.failed.is_none() || safe_on_failure),
                s.as_str(),
            );
        },
        Err(s) => {
            note_setup(report, "failed_render_still_sets_output_parameters", s);
        },
    }
}

// ---------------------------------------------------------------
//                      Server lifetime
// ---------------------------------------------------------------

/// What locking and unlocking the server showed.
#[derive(Debug, Clone, Copy, PartialEq, Eq, Structural)]
pub struct Locking {
    /// What the library said with only the factory alive.
    pub baseline: u32,
    pub locked: bool,
    pub while_locked: u32,
    pub unlocked: bool,
    pub after_release: u32,
}

/// The report after the check on locking and unlocking.
pub open spec fn after_locking(r: ReportView, seen: Result<Locking, Setup>) -> ReportView {
    match seen {
        Ok(l) => r.check(
            "lock_server_blocks_unload"@,
            l.locked && l.unlocked && l.while_locked == S_FALSE && l.baseline == S_FALSE,
            "lock="@ + bool_word(l.locked) + " unlock="@ + bool_word(l.unlocked)
                + " while_locked="@ + hex32(l.while_locked) + " after_all_released="@ + hex32(
                l.after_release,
            ),
        ),
        Err(s) => setup_failed(r, "lock_server_blocks_unload"@, s),
    }
}

/// A lock is the only thing that keeps a library loaded which a client still
/// intends to use.
pub fn judge_locking(report: &mut Report, seen: &Result<Locking, Setup>) -> (go_on: bool)
    ensures
        go_on == group_goes_on(*seen),
        final(report)@ == after_locking(old(report)@, *seen),
{
    match seen {
        Ok(l) => {
            let mut s: String = five(
                "lock=",
                bool_text(l.locked),
                " unlock=",
                bool_text(l.unlocked),
                " while_locked=",
            );
            s.append(hex32_text(l.while_locked).as_str());
            s.append(" after_all_released=");
            s.append(hex32_text(l.after_release).as_str());
            report.check(
                "lock_server_blocks_unload",
                l.locked && l.unlocked && l.while_locked == S_FALSE && l.baseline == S_FALSE,
                s.as_str(),
            );
            true
        },
        Err(s) => {
            note_setup(report, "lock_server_blocks_unload", s);
            false
        },
    }
}

/// The report after the check on unloading once everything is released.
pub open spec fn after_all_released(r: ReportView, decisive: u32, shown: u32) -> ReportView {
    r.check(
        "unload_allowed_once_everything_released"@,
        decisive == S_OK,
        "DllCanUnloadNow="@ + hex32(shown) + " (expected S_OK with nothing outstanding)"@,
    )
}

/// With nothing outstanding the library must agree that it can be unloaded. It is
/// asked twice: `decisive` counts, `shown` is reported.
pub fn judge_all_released(report: &mut Report, decisive: u32, shown: u32)
    ensures
        final(report)@ == after_all_released(old(report)@, decisive, shown),
{
    report.check(
        "unload_allowed_once_everything_released",
        decisive == S_OK,
        three(
            "DllCanUnloadNow=",
            hex32_text(shown).as_str(),
            " (expected S_OK with nothing outstanding)",
        ).as_str(),
    );
}

/// The report after an unlock that nothing had locked, with objects still alive.
pub open spec fn after_unbalanced(r: ReportView, hr: Option<u32>) -> ReportView {
    match hr {
        Some(h) => r.check(
            "unbalanced_unlock_does_not_report_unloadable"@,
            h != S_OK,
            "DllCanUnloadNow="@ + hex32(h)
                + " after an unbalanced LockServer(FALSE) while a provider and factory are still alive (S_OK here would let COM unload a DLL still in use)"@,
        ),
        None => r.skip(
            "unbalanced_unlock_does_not_report_unloadable"@,
            "could not create COM objects"@,
        ),
    }
}

pub fn judge_unbalanced(report: &mut Report, hr: Option<u32>)
    ensures
        final(report)@ == after_unbalanced(old(report)@, hr),
{
    match hr {
        Some(h) => {
            report.check(
                "unbalanced_unlock_does_not_report_unloadable",
                h != S_OK,
                three(
                    "DllCanUnloadNow=",
                    hex32_text(h).as_str(),
                    " after an unbalanced LockServer(FALSE) while a provider and factory are still alive (S_OK here would let COM unload a DLL still in use)",
                ).as_str(),
            );
        },
        None => {
            report.skip(
                "unbalanced_unlock_does_not_report_unloadable",
                "could not create COM objects",
            );
        },
    }
}

/// The report after such an unlock was carried forward until one provider was
/// left.
pub open spec fn after_corruption(r: ReportView, hr: Option<u32>) -> ReportView {
    match hr {
        Some(h) => r.check(
            "unbalanced_unlock_corrupts_reference_count"@,
            h != S_OK,
            "DllCanUnloadNow="@ + hex32(h)
                + " with one live provider outstanding after a single unmatched LockServer(FALSE). S_OK here means the DLL's reference count no longer reflects its live objects, and COM would be entitled to unmap the DLL while that provider is still in use."@,
        ),
        None => r.skip(
            "unbalanced_unlock_corrupts_reference_count"@,
            "could not create COM objects"@,
        ),
    }
}

pub fn judge_corruption(report: &mut Report, hr: Option<u32>)
    ensures
        final(report)@ == after_corruption(old(report)@, hr),
{
    match hr {
        Some(h) => {
            report.check(
                "unbalanced_unlock_corrupts_reference_count",
                h != S_OK,
                three(
                    "DllCanUnloadNow=",
                    hex32_text(h).as_str(),
                    " with one live provider outstanding after a single unmatched LockServer(FALSE). S_OK here means the DLL's reference count no longer reflects its live objects, and COM would be entitled to unmap the DLL while that provider is still in use.",
                ).as_str(),
            );
        },
        None => {
            report.skip(
                "unbalanced_unlock_corrupts_reference_count",
                "could not create COM objects",
            );
        },
    }
}

/// What a provider did after its factory was released.
#[derive(Debug, Clone, Copy, PartialEq, Eq, Structural)]
pub struct Orphan {
    pub initialized: bool,
    /// Nothing where the thumbnail interface is missing.
    pub rendered: Option<bool>,
}

pub open spec fn maybe_bool_word(b: Option<bool>) -> Seq<char> {
    match b {
        Some(x) => "Some("@ + bool_word(x) + ")"@,
        None => "None"@,
    }
}

fn maybe_bool_text(b: Option<bool>) -> (s: String)
    ensures
        s@ == maybe_bool_word(b),
{
    match b {
        Some(x) => three("Some(", bool_text(x), ")"),
        None => "None".to_owned(),
    }
}

/// The report after the check on a provider without its factory.
pub open spec fn after_orphan(r: ReportView, seen: Result<Orphan, Setup>) -> ReportView {
    match seen {
        Ok(o) => r.check(
            "provider_outlives_its_factory"@,
            o.initialized && o.rendered == Some(true),
            "initialize_ok="@ + bool_word(o.initialized) + " render_ok="@ + maybe_bool_word(
                o.rendered,
            ) + " after the factory was released"@,
        ),
        Err(s) => setup_failed(r, "provider_outlives_its_factory"@, s),
    }
}

/// Object lifetimes are independent: a provider must keep working after its
/// factory is released.
pub fn judge_orphan(report: &mut Report, seen: &Result<Orphan, Setup>) -> (go_on: bool)
    ensures
        go_on == group_goes_on(*seen),
        final(report)@ == after_orphan(old(report)@, *seen),
{
    match seen {
        Ok(o) => {
            let rendered: bool = match o.rendered {
                Some(b) => b,
                None => false,
            };
            report.check(
                "provider_outlives_its_factory",
                o.initialized && rendered,
                five(
                    "initialize_ok=",
                    bool_text(o.initialized),
                    " render_ok=",
                    maybe_bool_text(o.rendered).as_str(),
                    " after the factory was released",
                ).as_str(),
            );
            true
        },
        Err(s) => {
            note_setup(report, "provider_outlives_its_factory", s);
            false
        },
    }
}

/// How many providers are alive at once.
pub const MANY_PROVIDERS: usize = 64;

/// What the library said while many providers were alive and after they were
/// released.
pub enum Many {
    /// There was no factory to create them with.
    NoFactory,
    /// One of them could not be created; the text says why.
    NotCreated(String),
    /// `blocked` is the status with all of them alive. `released` is the status
    /// afterwards, which is asked for only where unloading was blocked before, and
    /// `shown` is the one that is reported.
    Counted { blocked: u32, released: Option<u32>, shown: u32 },
}

/// The report after the check on many live providers.
pub open spec fn after_many(r: ReportView, seen: Many) -> ReportView {
    match seen {
        Many::NoFactory => r.skip(
            "many_live_providers_from_one_factory"@,
            "could not obtain a class factory"@,
        ),
        Many::NotCreated(e) => r.fail(
            "many_live_providers_from_one_factory"@,
            "CreateInstance failed: "@ + e@,
        ),
        Many::Counted { blocked, released, shown } => r.check(
            "many_live_providers_from_one_factory"@,
            blocked == S_FALSE && released == Some(S_OK),
            "unload blocked with 64 providers alive="@ + bool_word(blocked == S_FALSE)
                + ", allowed after all released="@ + bool_word(shown == S_OK),
        ),
    }
}

pub fn judge_many(report: &mut Report, seen: &Many)
    ensures
        final(report)@ == after_many(old(report)@, *seen),
{
    match seen {
        Many::NoFactory => {
            report.skip(
                "many_live_providers_from_one_factory",
                "could not obtain a class factory",
            );
        },
        Many::NotCreated(e) => {
            report.fail(
                "many_live_providers_from_one_factory",
                two("CreateInstance failed: ", e.as_str()).as_str(),
            );
        },
        Many::Counted { blocked, released, shown } => {
            let freed: bool = match released {
                Some(h) => *h == S_OK,
                None => false,
            };
            let mut s: String = three(
                "unload blocked with 64 providers alive=",
                bool_text(*blocked == S_FALSE),
                ", allowed after all released=",
            );
            s.append(bool_text(*shown == S_OK));
            report.check(
                "many_live_providers_from_one_factory",
                *blocked == S_FALSE && freed,
                s.as_str(),
            );
        },
    }
}

// ---------------------------------------------------------------
//                      Thumbnail sizes
// ---------------------------------------------------------------

/// Both sides of every boundary, and the extremes where a product of sizes could
/// overflow.
pub open spec fn boundary_list() -> Seq<u32> {
    seq![0u32, 1, 2, 15, 16, 4095, 4096, 4097, 8192, 65535, 0x7FFF_FFFF, u32::MAX]
}

pub fn boundary_sizes() -> (v: Vec<u32>)
    ensures
        v@ == boundary_list(),
{
    let v: Vec<u32> = vec![
        0u32, 1, 2, 15, 16, 4095, 4096, 4097, 8192, 65535, 0x7FFF_FFFF, u32::MAX,
    ];
    assert(v@ =~= boundary_list());
    v
}

pub open spec fn boundary_name(size: u32) -> Seq<char> {
    "size_"@ + dec(size as nat)
}

/// Name of the check at one size.
pub fn boundary_case(size: u32) -> (s: String)
    ensures
        s@ == boundary_name(size),
{
    two("size_", decimal(size as u64).as_str())
}

/// A size in range must succeed, and any bitmap must have exactly the size that
/// was asked for, because the caller sizes its own buffers from that. Sizes out
/// of range are free to fail or to fall back.
pub open spec fn size_respected(size: u32, result: Result<Thumb, u32>) -> bool {
    match result {
        Ok(t) => t.width == size && t.height == size,
        Err(_) => !(1 <= size <= 4096),
    }
}

pub open spec fn size_detail(result: Result<Thumb, u32>) -> Seq<char> {
    match result {
        Ok(t) => "returned a "@ + dec(t.width as nat) + "x"@ + dec(t.height as nat) + " bitmap ("@
            + t.classified().word() + ")"@,
        Err(hr) => "failed with "@ + hex32(hr),
    }
}

/// The report after the check on one size.
pub open spec fn after_boundary(
    r: ReportView,
    size: u32,
    result: Result<Thumb, u32>,
) -> ReportView {
    r.check(
        boundary_name(size),
        size_respected(size, result),
        size_detail(result),
    )
}

pub fn judge_boundary(report: &mut Report, size: u32, result: &Result<Thumb, u32>)
    ensures
        final(report)@ == after_boundary(old(report)@, size, *result),
{
    let name: String = boundary_case(size);
    match result {
        Ok(t) => {
            let mut s: String = five(
                "returned a ",
                decimal(t.width as u64).as_str(),
                "x",
                decimal(t.height as u64).as_str(),
                " bitmap (",
            );
            s.append(t.classify().text());
            s.append(")");
            report.check(name.as_str(), t.width == size && t.height == size, s.as_str());
        },
        Err(hr) => {
            report.check(
                name.as_str(),
                !(1 <= size && size <= 4096),
                two("failed with ", hex32_text(*hr).as_str()).as_str(),
            );
        },
    }
}

// ---------------------------------------------------------------
//                     Server lock ledger
// ---------------------------------------------------------------

/// How often the ledger is unlocked at most to drive it back to "no locks held".
/// Bounded, because the counter may not be where it is thought to be.
pub const REBALANCE_LIMIT: u32 = 8;

/// The ledger is unlocked once more, after `tried` times.
pub open spec fn unlocks_again(tried: nat, unload_allowed: bool) -> bool {
    tried < REBALANCE_LIMIT && !unload_allowed
}

/// Whether the ledger is unlocked once more, after `tried` times.
pub fn rebalance_again(tried: u32, unload_allowed: bool) -> (r: bool)
    ensures
        r == unlocks_again(tried as nat, unload_allowed),
{
    tried < REBALANCE_LIMIT && !unload_allowed
}

/// What a lock alone did: whether it was taken, and what the library said once
/// every object was released.
#[derive(Debug, Clone, Copy, PartialEq, Eq, Structural)]
pub struct LoneLock {
    pub locked: bool,
    pub hr: u32,
}

/// The report after the check on a lock alone.
pub open spec fn after_lone_lock(r: ReportView, seen: Result<LoneLock, Setup>) -> ReportView {
    match seen {
        Ok(l) => r.check(
            "server_lock_alone_blocks_unload"@,
            l.locked && l.hr != S_OK,
            "LockServer(TRUE)="@ + bool_word(l.locked)
                + ", then every object released: DllCanUnloadNow="@ + hex32(l.hr)
                + ". A server lock must keep the DLL loaded on its own - COM may unmap it the moment this reports S_OK."@,
        ),
        Err(s) => setup_failed(r, "server_lock_alone_blocks_unload"@, s),
    }
}

pub fn judge_lone_lock(report: &mut Report, seen: &Result<LoneLock, Setup>)
    ensures
        final(report)@ == after_lone_lock(old(report)@, *seen),
{
    match seen {
        Ok(l) => {
            report.check(
                "server_lock_alone_blocks_unload",
                l.locked && l.hr != S_OK,
                five(
                    "LockServer(TRUE)=",
                    bool_text(l.locked),
                    ", then every object released: DllCanUnloadNow=",
                    hex32_text(l.hr).as_str(),
                    ". A server lock must keep the DLL loaded on its own - COM may unmap it the moment this reports S_OK.",
                ).as_str(),
            );
        },
        Err(s) => {
            note_setup(report, "server_lock_alone_blocks_unload", s);
        },
    }
}

/// The report after the check on a lock beside an unlock too many.
pub open spec fn after_shared_ledger(r: ReportView, locked: bool, hr: u32) -> ReportView {
    r.check(
        "unmatched_unlock_does_not_cancel_a_later_lock"@,
        locked && hr != S_OK,
        "after an unmatched LockServer(FALSE) from one client, a second client's LockServer(TRUE)="@
            + bool_word(locked) + " left DllCanUnloadNow="@ + hex32(hr)
            + ". The lock ledger is process-global, so a signed counter that goes negative on an over-release lets one buggy client silently consume a lock that a correct client is holding: the -1 and the +1 cancel, the ledger reads 0, and COM may unload the DLL while client B still believes it is locked. Saturating the decrement at zero avoids this - its worst case is a DLL that stays mapped, which for an idle-exiting surrogate is harmless."@,
    )
}

/// Every client shares one ledger, so a client that unlocks too often must not
/// revoke a lock that a different, correct client is relying on.
pub fn judge_shared_ledger(report: &mut Report, locked: bool, hr: u32)
    ensures
        final(report)@ == after_shared_ledger(old(report)@, locked, hr),
{
    report.check(
        "unmatched_unlock_does_not_cancel_a_later_lock",
        locked && hr != S_OK,
        five(
            "after an unmatched LockServer(FALSE) from one client, a second client's LockServer(TRUE)=",
            bool_text(locked),
            " left DllCanUnloadNow=",
            hex32_text(hr).as_str(),
            ". The lock ledger is process-global, so a signed counter that goes negative on an over-release lets one buggy client silently consume a lock that a correct client is holding: the -1 and the +1 cancel, the ledger reads 0, and COM may unload the DLL while client B still believes it is locked. Saturating the decrement at zero avoids this - its worst case is a DLL that stays mapped, which for an idle-exiting surrogate is harmless.",
        ).as_str(),
    );
}

// ---------------------------------------------------------------
//                             Cases
// ---------------------------------------------------------------

/// The cases about what is handed to the library and what comes back.
pub open spec fn contract_cases() -> Seq<Seq<char>> {
    seq![
        "module_identity"@,
        "dll_get_class_object_null_args"@,
        "dll_get_class_object_unknown_clsid"@,
        "dll_get_class_object_unsupported_iid"@,
        "create_instance_rejects_aggregation"@,
        "create_instance_null_ppv"@,
        "create_instance_unsupported_iid"@,
        "provider_supports_required_interfaces"@,
        "query_interface_is_reflexive_and_symmetric"@,
        "initialize_twice_is_rejected"@,
        "initialize_null_stream"@,
        "initialize_empty_stream"@,
        "get_thumbnail_before_initialize"@,
        "get_thumbnail_null_out_pointers"@,
        "get_thumbnail_partial_null_out_pointer"@,
        "failed_render_still_sets_output_parameters"@,
    ]
}

/// The cases about what may be unloaded when.
pub open spec fn release_cases() -> Seq<Seq<char>> {
    seq![
        "lock_server_blocks_unload"@,
        "unload_allowed_once_everything_released"@,
        "unbalanced_unlock_does_not_report_unloadable"@,
        "provider_outlives_its_factory"@,
        "many_live_providers_from_one_factory"@,
    ]
}

/// One case for every size.
pub open spec fn boundary_cases() -> Seq<Seq<char>> {
    boundary_list().map_values(|size: u32| boundary_name(size))
}

/// The cases that abuse the lock ledger.
pub open spec fn ledger_cases() -> Seq<Seq<char>> {
    seq![
        "unbalanced_unlock_corrupts_reference_count"@,
        "server_lock_alone_blocks_unload"@,
        "unmatched_unlock_does_not_cancel_a_later_lock"@,
    ]
}

/// Every case of the suite, in order.
pub open spec fn case_list() -> Seq<Seq<char>> {
    contract_cases() + release_cases() + boundary_cases() + ledger_cases()
}

fn contract_names() -> (v: Vec<String>)
    ensures
        texts(v@) == contract_cases(),
{
    let mut v: Vec<String> = no_texts();
    push_text(&mut v, "module_identity".to_owned());
    push_text(&mut v, "dll_get_class_object_null_args".to_owned());
    push_text(&mut v, "dll_get_class_object_unknown_clsid".to_owned());
    push_text(&mut v, "dll_get_class_object_unsupported_iid".to_owned());
    push_text(&mut v, "create_instance_rejects_aggregation".to_owned());
    push_text(&mut v, "create_instance_null_ppv".to_owned());
    push_text(&mut v, "create_instance_unsupported_iid".to_owned());
    push_text(&mut v, "provider_supports_required_interfaces".to_owned());
    push_text(&mut v, "query_interface_is_reflexive_and_symmetric".to_owned());
    push_text(&mut v, "initialize_twice_is_rejected".to_owned());
    push_text(&mut v, "initialize_null_stream".to_owned());
    push_text(&mut v, "initialize_empty_stream".to_owned());
    push_text(&mut v, "get_thumbnail_before_initialize".to_owned());
    push_text(&mut v, "get_thumbnail_null_out_pointers".to_owned());
    push_text(&mut v, "get_thumbnail_partial_null_out_pointer".to_owned());
    push_text(&mut v, "failed_render_still_sets_output_parameters".to_owned());
    assert(texts(v@) =~= contract_cases());
    v
}

fn release_names() -> (v: Vec<String>)
    ensures
        texts(v@) == release_cases(),
{
    let mut v: Vec<String> = no_texts();
    push_text(&mut v, "lock_server_blocks_unload".to_owned());
    push_text(&mut v, "unload_allowed_once_everything_released".to_owned());
    push_text(&mut v, "unbalanced_unlock_does_not_report_unloadable".to_owned());
    push_text(&mut v, "provider_outlives_its_factory".to_owned());
    push_text(&mut v, "many_live_providers_from_one_factory".to_owned());
    assert(texts(v@) =~= release_cases());
    v
}

fn boundary_names() -> (v: Vec<String>)
    ensures
        texts(v@) == boundary_cases(),
{
    let sizes: Vec<u32> = boundary_sizes();
    let mut v: Vec<String> = no_texts();
    let mut i: usize = 0;
    assert(texts(v@) =~= boundary_cases().take(0));
    while i < sizes.len()
        invariant
            i <= sizes@.len(),
            sizes@ == boundary_list(),
            texts(v@) == boundary_cases().take(i as int),
        decreases sizes@.len() - i,
    {
        push_text(&mut v, boundary_case(sizes[i]));
        assert(boundary_cases().take(i + 1) =~= boundary_cases().take(i as int).push(boundary_cases()[i as int]));
        i += 1;
    }
    assert(boundary_cases().take(i as int) =~= boundary_cases());
    v
}

fn ledger_names() -> (v: Vec<String>)
    ensures
        texts(v@) == ledger_cases(),
{
    let mut v: Vec<String> = no_texts();
    push_text(&mut v, "unbalanced_unlock_corrupts_reference_count".to_owned());
    push_text(&mut v, "server_lock_alone_blocks_unload".to_owned());
    push_text(&mut v, "unmatched_unlock_does_not_cancel_a_later_lock".to_owned());
    assert(texts(v@) =~= ledger_cases());
    v
}

/// The names of the cases of the suite.
pub fn case_names() -> (v: Vec<String>)
    ensures
        texts(v@) == case_list(),
{
    let mut v: Vec<String> = contract_names();
    extend_texts(&mut v, release_names());
    extend_texts(&mut v, boundary_names());
    extend_texts(&mut v, ledger_names());
    v
}

// ---------------------------------------------------------------
//                     What the checks ask for
// ---------------------------------------------------------------

/// A check that did not get as far as its subject: without a stream it says nothing,
/// and is skipped; in every other case it fails.
pub open spec fn unset_outcome(s: Setup) -> Outcome {
    if s is NoStream {
        Outcome::Skip
    } else {
        Outcome::Fail
    }
}

/// How a check turns out that may not have got as far as its subject.
pub open spec fn outcome_or_setup<T>(seen: Result<T, Setup>, ok: bool) -> Outcome {
    match seen {
        Ok(_) => outcome_of(ok),
        Err(s) => unset_outcome(s),
    }
}

/// What the entry points of the library must answer: the right module was loaded; null
/// arguments are refused as such, whichever of them is null; a class that is not there
/// is refused by its own status and an interface that is not there by a failure, both
/// without a pointer.
pub proof fn what_the_entry_points_must_answer(
    r: ReportView,
    path: Seq<char>,
    len: u32,
    same: bool,
    a: u32,
    b: u32,
    c: u32,
    d: u32,
    hr: u32,
    out_null: bool,
    error: Seq<char>,
)
    ensures
        one_check(
            r,
            after_identity(r, path, len, same),
            "module_identity"@,
            outcome_of(len != 0 && same),
        ),
        one_check(
            r,
            after_null_args(r, a, b, c, d),
            "dll_get_class_object_null_args"@,
            outcome_of(
                a == 0x8000_4003u32 && b == 0x8000_4003u32 && c == 0x8000_4003u32 && d
                    == 0x8000_4003u32,
            ),
        ),
        one_check(
            r,
            after_unknown_clsid(r, hr, out_null),
            "dll_get_class_object_unknown_clsid"@,
            outcome_of(hr == 0x8004_0111u32 && out_null),
        ),
        one_check(
            r,
            after_unsupported_iid(r, hr, out_null),
            "dll_get_class_object_unsupported_iid"@,
            outcome_of(hr >= 0x8000_0000u32 && out_null),
        ),
        one_check(r, after_no_factory(r, error), "factory_available"@, Outcome::Fail),
{
}

/// What a class factory must answer: no aggregation, by its own status; a null output
/// and an interface that is not there, each by its own; and of a provider that it makes,
/// every interface that it should have and none that it should not.
pub proof fn what_a_factory_must_answer(
    r: ReportView,
    hr: Option<u32>,
    h: u32,
    found: Result<Interfaces, Setup>,
    round_trip: bool,
    same_identity: bool,
)
    ensures
        one_check(
            r,
            after_aggregation(r, hr),
            "create_instance_rejects_aggregation"@,
            outcome_of(hr == Some(0x8004_0110u32)),
        ),
        factory_checks_go_on(hr) <==> hr != None::<u32>,
        one_check(
            r,
            after_null_ppv(r, h),
            "create_instance_null_ppv"@,
            outcome_of(h == 0x8000_4003u32),
        ),
        one_check(
            r,
            after_unsupported_instance(r, h),
            "create_instance_unsupported_iid"@,
            outcome_of(h == 0x8000_4002u32),
        ),
        one_check(
            r,
            after_interfaces(r, found),
            "provider_supports_required_interfaces"@,
            outcome_or_setup(
                found,
                found->Ok_0.thumbnail && found->Ok_0.initialize && found->Ok_0.unknown
                    && found->Ok_0.rejects_other,
            ),
        ),
        one_check(
            r,
            after_query_interface(r, round_trip, same_identity),
            "query_interface_is_reflexive_and_symmetric"@,
            outcome_of(round_trip && same_identity),
        ),
{
}

/// What initialisation must do: succeed once and never again; fail on a null stream; and
/// never make artwork of an empty file.
pub proof fn what_initialisation_must_do(
    r: ReportView,
    calls: Result<Twice, Setup>,
    hr: Result<u32, Setup>,
    seen: Result<EmptyFile, Setup>,
)
    ensures
        one_check(
            r,
            after_twice(r, calls),
            "initialize_twice_is_rejected"@,
            outcome_or_setup(
                calls,
                calls->Ok_0.first == None::<u32> && calls->Ok_0.second != None::<u32>,
            ),
        ),
        initialise_checks_go_on(calls) <==> calls is Ok || !(calls->Err_0 is NoStream),
        one_check(
            r,
            after_null_stream(r, hr),
            "initialize_null_stream"@,
            outcome_or_setup(hr, hr->Ok_0 >= 0x8000_0000u32),
        ),
        one_check(
            r,
            after_empty_file(r, seen),
            "initialize_empty_stream"@,
            outcome_or_setup(seen, seen->Ok_0.rendering != Some(Rendering::Real)),
        ),
{
}

/// What a thumbnail request must do: fail without a bitmap before initialisation; report
/// null outputs by their own status and survive one that is null; and, where it fails,
/// reset both outputs. A probe that could not be started says nothing.
pub proof fn what_a_request_must_do(
    r: ReportView,
    early: Result<EarlyCall, Setup>,
    probe: Result<ProbeOutcome, String>,
    seen: Result<PoisonedCall, Setup>,
)
    ensures
        one_check(
            r,
            after_early_call(r, early),
            "get_thumbnail_before_initialize"@,
            outcome_or_setup(
                early,
                early->Ok_0.failed != None::<u32> && !early->Ok_0.produced_bitmap
                    && early->Ok_0.alpha_unknown,
            ),
        ),
        one_check(
            r,
            after_null_out(r, probe),
            "get_thumbnail_null_out_pointers"@,
            if probe is Err {
                Outcome::Skip
            } else {
                outcome_of(
                    !probe->Ok_0.crashed && probe->Ok_0.hresult == Some(0x8000_4003u32),
                )
            },
        ),
        one_check(
            r,
            after_null_alpha(r, probe),
            "get_thumbnail_partial_null_out_pointer"@,
            if probe is Err {
                Outcome::Skip
            } else {
                outcome_of(!probe->Ok_0.crashed)
            },
        ),
        one_check(
            r,
            after_poisoned(r, seen),
            "failed_render_still_sets_output_parameters"@,
            outcome_or_setup(
                seen,
                seen->Ok_0.overwritten && (seen->Ok_0.failed != None::<u32>
                    ==> seen->Ok_0.bitmap_null && seen->Ok_0.alpha_unknown),
            ),
        ),
{
}

/// What must hold of unloading: blocked while a lock or a factory is held, allowed once
/// nothing is; never allowed by an unlock too many while something is alive; a provider
/// outlives its factory; and sixty-four of them block unloading until all are gone.
pub proof fn what_unloading_must_respect(
    r: ReportView,
    locking: Result<Locking, Setup>,
    decisive: u32,
    shown: u32,
    hr: Option<u32>,
    orphan: Result<Orphan, Setup>,
    many: Many,
)
    ensures
        one_check(
            r,
            after_locking(r, locking),
            "lock_server_blocks_unload"@,
            outcome_or_setup(
                locking,
                locking->Ok_0.locked && locking->Ok_0.unlocked && locking->Ok_0.while_locked == 1
                    && locking->Ok_0.baseline == 1,
            ),
        ),
        group_goes_on(locking) <==> locking is Ok,
        one_check(
            r,
            after_all_released(r, decisive, shown),
            "unload_allowed_once_everything_released"@,
            outcome_of(decisive == 0),
        ),
        one_check(
            r,
            after_unbalanced(r, hr),
            "unbalanced_unlock_does_not_report_unloadable"@,
            if hr is None {
                Outcome::Skip
            } else {
                outcome_of(hr != Some(0u32))
            },
        ),
        one_check(
            r,
            after_corruption(r, hr),
            "unbalanced_unlock_corrupts_reference_count"@,
            if hr is None {
                Outcome::Skip
            } else {
                outcome_of(hr != Some(0u32))
            },
        ),
        one_check(
            r,
            after_orphan(r, orphan),
            "provider_outlives_its_factory"@,
            outcome_or_setup(
                orphan,
                orphan->Ok_0.initialized && orphan->Ok_0.rendered == Some(true),
            ),
        ),
        group_goes_on(orphan) <==> orphan is Ok,
        MANY_PROVIDERS == 64,
        one_check(
            r,
            after_many(r, many),
            "many_live_providers_from_one_factory"@,
            match many {
                Many::NoFactory => Outcome::Skip,
                Many::NotCreated(_) => Outcome::Fail,
                Many::Counted { blocked, released, .. } => outcome_of(
                    blocked == 1 && released == Some(0u32),
                ),
            },
        ),
{
}

/// What must hold of the lock ledger: a lock alone keeps the library loaded, and another
/// client's unlock too many does not take it away. The ledger is unlocked at most eight
/// times to get back to where it was, and not once more than it takes.
pub proof fn what_the_ledger_must_keep(
    r: ReportView,
    seen: Result<LoneLock, Setup>,
    locked: bool,
    hr: u32,
    tried: nat,
    unload_allowed: bool,
)
    ensures
        one_check(
            r,
            after_lone_lock(r, seen),
            "server_lock_alone_blocks_unload"@,
            outcome_or_setup(seen, seen->Ok_0.locked && seen->Ok_0.hr != 0),
        ),
        one_check(
            r,
            after_shared_ledger(r, locked, hr),
            "unmatched_unlock_does_not_cancel_a_later_lock"@,
            outcome_of(locked && hr != 0),
        ),
        unload_allowed ==> !unlocks_again(tried, unload_allowed),
        tried >= 8 ==> !unlocks_again(tried, unload_allowed),
        tried <= 7 && !unload_allowed ==> unlocks_again(tried, unload_allowed),
{
}

/// A size passes exactly when a bitmap came back with that width and that height, or
/// when none did and the size is outside what is accepted. Both sides of either end are
/// asked for, and each size once.
pub proof fn what_a_boundary_must_give(r: ReportView, size: u32, result: Result<Thumb, u32>)
    ensures
        one_check(
            r,
            after_boundary(r, size, result),
            boundary_name(size),
            outcome_of(
                if result is Ok {
                    result->Ok_0.width == size && result->Ok_0.height == size
                } else {
                    size == 0 || size > 4096
                },
            ),
        ),
        boundary_list().len() == 12,
        boundary_list().contains(0),
        boundary_list().contains(1),
        boundary_list().contains(4096),
        boundary_list().contains(4097),
        boundary_list().contains(0xFFFF_FFFF),
        forall|i: int, j: int|
            0 <= i < j < 12 ==> #[trigger] boundary_list()[i] < #[trigger] boundary_list()[j],
{
    let b = boundary_list();
    assert(b[0] == 0 && b[1] == 1 && b[6] == 4096 && b[7] == 4097 && b[11] == 0xFFFF_FFFF);
}

/// The bits of an exit code are the code itself, modulo two to the 32nd.
pub proof fn exit_bits_are_the_code(code: i32)
    ensures
        exit_bits(code) == code || exit_bits(code) == code + 0x1_0000_0000,
        exit_bits(code) >= 0x8000_0000u32 <==> code < 0,
{
}

} // verus!
