//! Fault injection through the provider's only input, the stream.
//!
//! Each step breaks one assumption so that a specific defensive branch of the
//! provider executes. Everything is judged on behaviour, not on a specific
//! status: the provider is free to reject, degrade, or fall back, but it must
//! never fault, spin, or commit memory proportional to a number that the stream
//! merely claimed.

use vstd::prelude::*;
use crate::corpus::BASE_SVG;
use crate::metrics::{
    mib1_signed, mib1_signed_text, nearest, rounding_is_to_the_nearest, tenths_text, Delta,
};
use crate::numbers::{dec, decimal, hex32, hex32_text, magnitude};
use crate::report::{one_check, outcome_of, Outcome, Report, ReportView};
use crate::streams::{ReadMode, StatMode};
use crate::suites::adversarial::{rendering_text, rendering_word};
use crate::text::{
    bool_text, bool_word, extend_texts, no_texts, push_text, texts, three, two,
};
use crate::thumb::Rendering;

verus! {

/// The size at which every attempt renders.
pub const RENDER_SIZE: u32 = 64;

/// What came of one round-trip against a hostile stream.
#[derive(Debug, Clone, Copy, PartialEq, Eq, Structural)]
pub struct Attempt {
    pub initialize_ok: bool,
    pub initialize_hr: u32,
    pub render_ok: bool,
    pub render_hr: u32,
    pub rendering: Option<Rendering>,
}

impl Attempt {
    /// An attempt for which no provider could be created.
    pub open spec fn uncreated(hr: u32) -> Attempt {
        Attempt {
            initialize_ok: false,
            initialize_hr: hr,
            render_ok: false,
            render_hr: 0,
            rendering: None,
        }
    }

    /// An attempt with what its two calls returned.
    pub open spec fn of_calls(
        initialized: Result<(), u32>,
        rendered: Option<Result<(), u32>>,
        rendering: Option<Rendering>,
    ) -> Attempt {
        Attempt {
            initialize_ok: initialized is Ok,
            initialize_hr: match initialized {
                Ok(_) => 0,
                Err(hr) => hr,
            },
            render_ok: match rendered {
                Some(r) => r is Ok,
                None => false,
            },
            render_hr: match rendered {
                Some(Err(hr)) => hr,
                _ => 0,
            },
            rendering,
        }
    }

    /// No provider could be created.
    pub fn not_created(hr: u32) -> (a: Attempt)
        ensures
            a == Attempt::uncreated(hr),
    {
        Attempt {
            initialize_ok: false,
            initialize_hr: hr,
            render_ok: false,
            render_hr: 0,
            rendering: None,
        }
    }

    /// A provider was created. `initialized` and `rendered` hold the status of
    /// the two calls where they failed; `rendered` is `None` where the second
    /// could not be made at all.
    pub fn made(
        initialized: Result<(), u32>,
        rendered: Option<Result<(), u32>>,
        rendering: Option<Rendering>,
    ) -> (a: Attempt)
        ensures
            a == Attempt::of_calls(initialized, rendered, rendering),
    {
        let (initialize_ok, initialize_hr) = match initialized {
            Ok(_) => (true, 0u32),
            Err(hr) => (false, hr),
        };
        let (render_ok, render_hr) = match rendered {
            Some(Ok(_)) => (true, 0u32),
            Some(Err(hr)) => (false, hr),
            None => (false, 0u32),
        };
        Attempt { initialize_ok, initialize_hr, render_ok, render_hr, rendering }
    }

    /// The artwork came through.
    pub open spec fn genuine(self) -> bool {
        self.rendering == Some(Rendering::Real)
    }

    fn is_genuine(&self) -> (r: bool)
        ensures
            r == self.genuine(),
    {
        match self.rendering {
            Some(x) => x == Rendering::Real,
            None => false,
        }
    }

    /// The provider gave a bitmap or a clean error.
    pub open spec fn answered(self) -> bool {
        self.render_ok || self.render_hr != 0
    }

    pub open spec fn init_word(self) -> Seq<char> {
        "init="@ + bool_word(self.initialize_ok)
    }

    pub open spec fn hr_word(self) -> Seq<char> {
        "hr="@ + hex32(self.initialize_hr)
    }

    pub open spec fn shown(self) -> Seq<char> {
        "rendering="@ + rendering_word(self.rendering)
    }

    fn init_text(&self) -> (s: String)
        ensures
            s@ == self.init_word(),
    {
        two("init=", bool_text(self.initialize_ok))
    }

    fn hr_text(&self) -> (s: String)
        ensures
            s@ == self.hr_word(),
    {
        two("hr=", hex32_text(self.initialize_hr).as_str())
    }

    fn shown_text(&self) -> (s: String)
        ensures
            s@ == self.shown(),
    {
        two("rendering=", rendering_text(self.rendering).as_str())
    }

    /// `init=..` and `rendering=..`
    pub open spec fn short_word(self) -> Seq<char> {
        self.init_word() + " "@ + self.shown()
    }

    fn short_text(&self) -> (s: String)
        ensures
            s@ == self.short_word(),
    {
        three(self.init_text().as_str(), " ", self.shown_text().as_str())
    }

    /// `init=..`, `render=..` and `rendering=..`
    pub open spec fn long_word(self) -> Seq<char> {
        self.init_word() + " render="@ + bool_word(self.render_ok) + " "@ + self.shown()
    }

    fn long_text(&self) -> (s: String)
        ensures
            s@ == self.long_word(),
    {
        let mut s: String = three(
            self.init_text().as_str(),
            " render=",
            bool_text(self.render_ok),
        );
        s.append(" ");
        s.append(self.shown_text().as_str());
        s
    }

    /// `init=..`, its status in brackets, `render=..` and `rendering=..`
    pub open spec fn full_word(self) -> Seq<char> {
        self.init_word() + " ("@ + self.hr_word() + ") render="@ + bool_word(self.render_ok) + " "@
            + self.shown()
    }

    fn full_text(&self) -> (s: String)
        ensures
            s@ == self.full_word(),
    {
        let mut s: String = three(self.init_text().as_str(), " (", self.hr_text().as_str());
        s.append(") render=");
        s.append(bool_text(self.render_ok));
        s.append(" ");
        s.append(self.shown_text().as_str());
        s
    }
}

// ---------------------------------------------------------------
//                             Steps
// ---------------------------------------------------------------

/// One stream that the provider is given.
#[derive(Debug, Clone, Copy, PartialEq, Eq, Structural)]
pub enum Step {
    // Only the claimed size changes; the bytes are always the same valid document.
    StatTruthful,
    StatFails,
    StatHuge,
    StatZero,
    StatOverCap,
    StatUnderReports,
    // How the bytes are delivered.
    OneByte,
    Short(u32),
    FailsMidway,
    FailsAtOnce,
    ZeroForever,
    OverReports,
    NeverSetsCount,
    SFalse,
    // The claimed size is small, so only the cap in the read loop can stop it.
    Oversized,
}

/// Every step, in order.
pub open spec fn step_list() -> Seq<Step> {
    seq![
        Step::StatTruthful,
        Step::StatFails,
        Step::StatHuge,
        Step::StatZero,
        Step::StatOverCap,
        Step::StatUnderReports,
        Step::OneByte,
        Step::Short(3),
        Step::Short(7),
        Step::Short(4096),
        Step::FailsMidway,
        Step::FailsAtOnce,
        Step::ZeroForever,
        Step::OverReports,
        Step::NeverSetsCount,
        Step::SFalse,
        Step::Oversized,
    ]
}

pub fn steps() -> (v: Vec<Step>)
    ensures
        v@ == step_list(),
{
    let v: Vec<Step> = vec![
        Step::StatTruthful,
        Step::StatFails,
        Step::StatHuge,
        Step::StatZero,
        Step::StatOverCap,
        Step::StatUnderReports,
        Step::OneByte,
        Step::Short(3),
        Step::Short(7),
        Step::Short(4096),
        Step::FailsMidway,
        Step::FailsAtOnce,
        Step::ZeroForever,
        Step::OverReports,
        Step::NeverSetsCount,
        Step::SFalse,
        Step::Oversized,
    ];
    assert(v@ =~= step_list());
    v
}

/// Size of the payload that exceeds the provider's limit.
pub const OVERSIZED_BYTES: usize = 130 * 1024 * 1024;

/// Bytes that may be committed while the stream claims to be huge.
pub const HUGE_CLAIM_BUDGET: i64 = 256 * 1024 * 1024;

/// Bytes that may be committed while the oversized payload is read.
pub const OVERSIZED_BUDGET: i64 = 160 * 1024 * 1024;

impl Step {
    pub open spec fn name_text(self) -> Seq<char> {
        match self {
            Step::StatTruthful => "stat_truthful_renders"@,
            Step::StatFails => "stat_failure_falls_back_to_chunked_read"@,
            Step::StatHuge => "stat_claims_u64_max_does_not_preallocate"@,
            Step::StatZero => "stat_claims_zero_still_reads_data"@,
            Step::StatOverCap => "stat_over_cap_is_rejected_without_reading"@,
            Step::StatUnderReports => "stat_under_reports_actual_size"@,
            Step::OneByte => "single_byte_reads_reassemble_correctly"@,
            Step::Short(n) => "short_reads_"@ + dec(n as nat) + "_bytes"@,
            Step::FailsMidway => "read_failure_midway_degrades_cleanly"@,
            Step::FailsAtOnce => "read_failure_before_any_data"@,
            Step::ZeroForever => "zero_byte_reads_terminate_the_loop"@,
            Step::OverReports => "over_reported_read_count_is_not_trusted"@,
            Step::NeverSetsCount => "read_that_never_sets_count_terminates"@,
            Step::SFalse => "s_false_partial_read_is_treated_as_success"@,
            Step::Oversized => "oversized_stream_is_capped_during_read"@,
        }
    }

    pub fn name(self) -> (s: String)
        ensures
            s@ == self.name_text(),
    {
        match self {
            Step::StatTruthful => "stat_truthful_renders".to_owned(),
            Step::StatFails => "stat_failure_falls_back_to_chunked_read".to_owned(),
            Step::StatHuge => "stat_claims_u64_max_does_not_preallocate".to_owned(),
            Step::StatZero => "stat_claims_zero_still_reads_data".to_owned(),
            Step::StatOverCap => "stat_over_cap_is_rejected_without_reading".to_owned(),
            Step::StatUnderReports => "stat_under_reports_actual_size".to_owned(),
            Step::OneByte => "single_byte_reads_reassemble_correctly".to_owned(),
            Step::Short(n) => three("short_reads_", decimal(n as u64).as_str(), "_bytes"),
            Step::FailsMidway => "read_failure_midway_degrades_cleanly".to_owned(),
            Step::FailsAtOnce => "read_failure_before_any_data".to_owned(),
            Step::ZeroForever => "zero_byte_reads_terminate_the_loop".to_owned(),
            Step::OverReports => "over_reported_read_count_is_not_trusted".to_owned(),
            Step::NeverSetsCount => "read_that_never_sets_count_terminates".to_owned(),
            Step::SFalse => "s_false_partial_read_is_treated_as_success".to_owned(),
            Step::Oversized => "oversized_stream_is_capped_during_read".to_owned(),
        }
    }

    /// How the stream reports its size and how it delivers its bytes, where the
    /// document has `len` bytes.
    pub open spec fn behaviour(self, len: usize) -> (StatMode, ReadMode) {
        match self {
            Step::StatTruthful => (StatMode::Truthful, ReadMode::Truthful),
            Step::StatFails => (StatMode::Fail, ReadMode::Truthful),
            Step::StatHuge => (StatMode::Huge, ReadMode::Truthful),
            Step::StatZero => (StatMode::Zero, ReadMode::Truthful),
            Step::StatOverCap => (StatMode::OverCap, ReadMode::Truthful),
            Step::StatUnderReports => (StatMode::UnderReport, ReadMode::Truthful),
            Step::OneByte => (StatMode::Truthful, ReadMode::OneByte),
            Step::Short(n) => (StatMode::Truthful, ReadMode::Short(n)),
            Step::FailsMidway => (StatMode::Truthful, ReadMode::FailAfter((len / 2) as usize)),
            Step::FailsAtOnce => (StatMode::Truthful, ReadMode::FailAfter(0)),
            Step::ZeroForever => (StatMode::Truthful, ReadMode::ZeroForever),
            Step::OverReports => (StatMode::Truthful, ReadMode::OverReport),
            Step::NeverSetsCount => (StatMode::Truthful, ReadMode::NeverSetCount),
            Step::SFalse => (StatMode::Truthful, ReadMode::SFalse),
            Step::Oversized => (StatMode::UnderReport, ReadMode::Truthful),
        }
    }

    pub fn modes(self, len: usize) -> (m: (StatMode, ReadMode))
        ensures
            m == self.behaviour(len),
    {
        match self {
            Step::StatTruthful => (StatMode::Truthful, ReadMode::Truthful),
            Step::StatFails => (StatMode::Fail, ReadMode::Truthful),
            Step::StatHuge => (StatMode::Huge, ReadMode::Truthful),
            Step::StatZero => (StatMode::Zero, ReadMode::Truthful),
            Step::StatOverCap => (StatMode::OverCap, ReadMode::Truthful),
            Step::StatUnderReports => (StatMode::UnderReport, ReadMode::Truthful),
            Step::OneByte => (StatMode::Truthful, ReadMode::OneByte),
            Step::Short(n) => (StatMode::Truthful, ReadMode::Short(n)),
            Step::FailsMidway => (StatMode::Truthful, ReadMode::FailAfter(len / 2)),
            Step::FailsAtOnce => (StatMode::Truthful, ReadMode::FailAfter(0)),
            Step::ZeroForever => (StatMode::Truthful, ReadMode::ZeroForever),
            Step::OverReports => (StatMode::Truthful, ReadMode::OverReport),
            Step::NeverSetsCount => (StatMode::Truthful, ReadMode::NeverSetCount),
            Step::SFalse => (StatMode::Truthful, ReadMode::SFalse),
            Step::Oversized => (StatMode::UnderReport, ReadMode::Truthful),
        }
    }

    /// The bytes that the stream holds: a valid document, or more filler than the
    /// provider accepts.
    pub open spec fn holds(self) -> Seq<u8> {
        if self == Step::Oversized {
            Seq::new(OVERSIZED_BYTES as nat, |i: int| crate::corpus::size_limits::PADDING)
        } else {
            vstd::utf8::encode_utf8(BASE_SVG@)
        }
    }

    pub fn payload(self) -> (v: Vec<u8>)
        ensures
            v@ == self.holds(),
    {
        if self == Step::Oversized {
            crate::corpus::size_limits::filled(crate::corpus::size_limits::PADDING, OVERSIZED_BYTES)
        } else {
            crate::text::text_bytes(BASE_SVG)
        }
    }

    /// The provider behaved. `growth` is what the process committed meanwhile.
    pub open spec fn satisfied(self, a: Attempt, growth: i64) -> bool {
        match self {
            Step::StatTruthful => a.initialize_ok && a.render_ok && a.genuine(),
            // The danger is an allocation driven by the claimed size.
            Step::StatHuge => growth < HUGE_CLAIM_BUDGET,
            Step::StatOverCap => !a.initialize_ok,
            Step::FailsMidway | Step::FailsAtOnce => a.answered(),
            // Coming back proves that it did not spin. No data arrived, so it
            // must not have produced artwork either.
            Step::ZeroForever | Step::NeverSetsCount => !a.genuine(),
            Step::OverReports => !a.initialize_ok || a.answered(),
            Step::Oversized => !a.initialize_ok && growth < OVERSIZED_BUDGET,
            _ => a.initialize_ok && a.genuine(),
        }
    }

    pub open spec fn detail(self, a: Attempt, growth: i64) -> Seq<char> {
        match self {
            Step::StatTruthful => "control case: "@ + a.long_word(),
            Step::StatFails => a.init_word() + " ("@ + a.hr_word() + ") "@ + a.shown()
                + " - a failing Stat must not prevent reading"@,
            Step::StatHuge => "committed "@ + mib1_signed(growth as int)
                + " MiB while the stream claimed u64::MAX bytes ("@ + a.init_word() + ", "@
                + a.shown() + "); budget is 256 MiB"@,
            Step::StatZero => a.short_word()
                + " - a zero size claim must be a hint, not a truncation"@,
            Step::StatOverCap => a.init_word() + " "@ + a.hr_word()
                + " - a stream claiming 200 MiB must be rejected by the size check"@,
            Step::StatUnderReports | Step::OneByte | Step::Short(_) => a.short_word(),
            Step::FailsMidway => a.long_word()
                + " - truncated input must produce a result or a clean error"@,
            Step::FailsAtOnce => a.full_word(),
            Step::ZeroForever => "returned without spinning; "@ + a.long_word()
                + " - a stream that never delivers a byte must not yield a rendered document"@,
            Step::OverReports =>
                "survived a stream claiming more bytes read than requested: "@ + a.full_word(),
            Step::NeverSetsCount => "returned; "@ + a.short_word()
                + " - a stream that never reports a byte count must not yield a rendered document"@,
            Step::SFalse => a.short_word()
                + " - S_FALSE is a success HRESULT and must not truncate the read"@,
            Step::Oversized => a.init_word() + " ("@ + a.hr_word() + "), committed "@ + mib1_signed(
                growth as int,
            )
                + " MiB feeding 130 MiB through a stream that claimed to be tiny - the in-loop cap must stop it"@,
        }
    }

    fn is_satisfied(self, a: &Attempt, growth: i64) -> (r: bool)
        ensures
            r == self.satisfied(*a, growth),
    {
        match self {
            Step::StatTruthful => a.initialize_ok && a.render_ok && a.is_genuine(),
            Step::StatHuge => growth < HUGE_CLAIM_BUDGET,
            Step::StatOverCap => !a.initialize_ok,
            Step::FailsMidway | Step::FailsAtOnce => a.render_ok || a.render_hr != 0,
            Step::ZeroForever | Step::NeverSetsCount => !a.is_genuine(),
            Step::OverReports => !a.initialize_ok || a.render_ok || a.render_hr != 0,
            Step::Oversized => !a.initialize_ok && growth < OVERSIZED_BUDGET,
            _ => a.initialize_ok && a.is_genuine(),
        }
    }

    fn detail_text(self, a: &Attempt, growth: i64) -> (s: String)
        ensures
            s@ == self.detail(*a, growth),
    {
        match self {
            Step::StatTruthful => two("control case: ", a.long_text().as_str()),
            Step::StatFails => {
                let mut s: String = three(a.init_text().as_str(), " (", a.hr_text().as_str());
                s.append(") ");
                s.append(a.shown_text().as_str());
                s.append(" - a failing Stat must not prevent reading");
                s
            },
            Step::StatHuge => {
                let mut s: String = three(
                    "committed ",
                    mib1_signed_text(growth).as_str(),
                    " MiB while the stream claimed u64::MAX bytes (",
                );
                s.append(a.init_text().as_str());
                s.append(", ");
                s.append(a.shown_text().as_str());
                s.append("); budget is 256 MiB");
                s
            },
            Step::StatZero => two(
                a.short_text().as_str(),
                " - a zero size claim must be a hint, not a truncation",
            ),
            Step::StatOverCap => {
                let mut s: String = three(a.init_text().as_str(), " ", a.hr_text().as_str());
                s.append(" - a stream claiming 200 MiB must be rejected by the size check");
                s
            },
            Step::StatUnderReports | Step::OneByte | Step::Short(_) => a.short_text(),
            Step::FailsMidway => two(
                a.long_text().as_str(),
                " - truncated input must produce a result or a clean error",
            ),
            Step::FailsAtOnce => a.full_text(),
            Step::ZeroForever => three(
                "returned without spinning; ",
                a.long_text().as_str(),
                " - a stream that never delivers a byte must not yield a rendered document",
            ),
            Step::OverReports => two(
                "survived a stream claiming more bytes read than requested: ",
                a.full_text().as_str(),
            ),
            Step::NeverSetsCount => three(
                "returned; ",
                a.short_text().as_str(),
                " - a stream that never reports a byte count must not yield a rendered document",
            ),
            Step::SFalse => two(
                a.short_text().as_str(),
                " - S_FALSE is a success HRESULT and must not truncate the read",
            ),
            Step::Oversized => {
                let mut s: String = three(a.init_text().as_str(), " (", a.hr_text().as_str());
                s.append("), committed ");
                s.append(mib1_signed_text(growth).as_str());
                s.append(
                    " MiB feeding 130 MiB through a stream that claimed to be tiny - the in-loop cap must stop it",
                );
                s
            },
        }
    }

    /// The report about how the provider took this stream.
    pub open spec fn reported(self, r: ReportView, a: Attempt, growth: i64) -> ReportView {
        r.check(self.name_text(), self.satisfied(a, growth), self.detail(a, growth))
    }

    /// Records how the provider took this stream. `growth` is what the process
    /// committed meanwhile.
    pub fn judge(self, report: &mut Report, a: &Attempt, growth: i64)
        ensures
            final(report)@ == self.reported(old(report)@, *a, growth),
    {
        report.check(
            self.name().as_str(),
            self.is_satisfied(a, growth),
            self.detail_text(a, growth).as_str(),
        );
    }
}

/// Where only the claimed size changes, or only the chunking, the same document
/// must come out, with one exception: a claim beyond the limit must be refused.
pub proof fn honest_bytes_must_render(s: Step, a: Attempt, growth: i64)
    requires
        s == Step::StatTruthful || s == Step::StatFails || s == Step::StatZero || s
            == Step::StatUnderReports || s == Step::OneByte || s is Short || s == Step::SFalse,
    ensures
        s.satisfied(a, growth) ==> a.initialize_ok && a.genuine(),
        Step::StatOverCap.satisfied(a, growth) <==> !a.initialize_ok,
{
}

// ---------------------------------------------------------------
//                  Leaks on the error paths
// ---------------------------------------------------------------

/// How often the over-reporting stream is tried in a row.
pub const OVER_REPORT_ITERATIONS: i64 = 25;

/// How often the other hostile streams are tried in a row.
pub const ROTATION_ITERATIONS: usize = 200;

/// `n / 25` with one decimal.
pub open spec fn per_iteration(n: int) -> Seq<char> {
    if n < 0 {
        "-"@ + tenths_text(nearest(((-n) * 10) as nat, 25))
    } else {
        tenths_text(nearest((n * 10) as nat, 25))
    }
}

fn tenths(n: u64) -> (s: String)
    requires
        n <= 0xFFFF_FFFF,
    ensures
        s@ == tenths_text(nearest((n * 10) as nat, 25)),
{
    let q: u64 = n * 10 / 25;
    let r: u64 = n * 10 % 25;
    let t: u64 = if 2 * r < 25 || (2 * r == 25 && q % 2 == 0) {
        q
    } else {
        q + 1
    };
    three(decimal(t / 10).as_str(), ".", decimal(t % 10).as_str())
}

fn per_iteration_text(n: i64) -> (s: String)
    requires
        -0xFFFF_FFFF <= n <= 0xFFFF_FFFF,
    ensures
        s@ == per_iteration(n as int),
{
    if n < 0 {
        two("-", tenths(magnitude(n)).as_str())
    } else {
        tenths(n as u64)
    }
}

/// The report after the check on over-reporting streams.
pub open spec fn after_over_report(r: ReportView, d: Delta) -> ReportView {
    r.check(
        "over_reported_read_leaks_thread_graphics_cache"@,
        d.handles <= OVER_REPORT_ITERATIONS,
        "after 25 over-reported reads (each followed by a normal render): "@ + d.described()
            + " = "@ + per_iteration(d.handles as int)
            + " handles leaked per triggered panic. A stream that repeatedly over-reports therefore grows the host's handle count without bound."@,
    )
}

/// Isolates the one hostile mode that is known to leak, so that the finding has a
/// name and a measured cost. `d` is the change over all iterations; a handle
/// count has 32 bits, so its change is less than that.
pub fn judge_over_report(report: &mut Report, d: &Delta)
    requires
        -0xFFFF_FFFF <= d.handles <= 0xFFFF_FFFF,
    ensures
        final(report)@ == after_over_report(old(report)@, *d),
{
    let mut s: String = three(
        "after 25 over-reported reads (each followed by a normal render): ",
        d.describe().as_str(),
        " = ",
    );
    s.append(per_iteration_text(d.handles).as_str());
    s.append(
        " handles leaked per triggered panic. A stream that repeatedly over-reports therefore grows the host's handle count without bound.",
    );
    report.check(
        "over_reported_read_leaks_thread_graphics_cache",
        d.handles <= OVER_REPORT_ITERATIONS,
        s.as_str(),
    );
}

/// The behaviour of the `i`-th stream of the long run.
pub open spec fn rotation(i: nat) -> (StatMode, ReadMode) {
    if i % 7 == 0 {
        (StatMode::Fail, ReadMode::Truthful)
    } else if i % 7 == 1 {
        (StatMode::Huge, ReadMode::OneByte)
    } else if i % 7 == 2 {
        (StatMode::Zero, ReadMode::Short(5))
    } else if i % 7 == 3 {
        (StatMode::OverCap, ReadMode::Truthful)
    } else if i % 7 == 4 {
        (StatMode::UnderReport, ReadMode::FailAfter(40))
    } else if i % 7 == 5 {
        (StatMode::Truthful, ReadMode::ZeroForever)
    } else {
        (StatMode::Truthful, ReadMode::SFalse)
    }
}

pub fn rotating_modes(i: usize) -> (m: (StatMode, ReadMode))
    ensures
        m == rotation(i as nat),
{
    match i % 7 {
        0 => (StatMode::Fail, ReadMode::Truthful),
        1 => (StatMode::Huge, ReadMode::OneByte),
        2 => (StatMode::Zero, ReadMode::Short(5)),
        3 => (StatMode::OverCap, ReadMode::Truthful),
        4 => (StatMode::UnderReport, ReadMode::FailAfter(40)),
        5 => (StatMode::Truthful, ReadMode::ZeroForever),
        _ => (StatMode::Truthful, ReadMode::SFalse),
    }
}

/// The long run leaves out the mode that is judged on its own, so that a new leak
/// elsewhere cannot hide behind the known one.
pub proof fn rotation_leaves_out_over_reporting(i: nat)
    ensures
        rotation(i).1 != ReadMode::OverReport,
{
}

/// The report after the check on the long run.
pub open spec fn after_rotation(r: ReportView, d: Delta) -> ReportView {
    r.check(
        "repeated_hostile_streams_do_not_leak"@,
        d.gdi_objects <= 8 && d.handles <= 32,
        "after 200 hostile-stream round-trips (excluding over-report): "@ + d.described(),
    )
}

/// Judges the long run over all the other modes.
pub fn judge_rotation(report: &mut Report, d: &Delta)
    ensures
        final(report)@ == after_rotation(old(report)@, *d),
{
    report.check(
        "repeated_hostile_streams_do_not_leak",
        d.gdi_objects <= 8 && d.handles <= 32,
        two(
            "after 200 hostile-stream round-trips (excluding over-report): ",
            d.describe().as_str(),
        ).as_str(),
    );
}

// ---------------------------------------------------------------
//                             Cases
// ---------------------------------------------------------------

/// One case for every step.
pub open spec fn step_cases() -> Seq<Seq<char>> {
    step_list().map_values(|step: Step| step.name_text())
}

/// The cases about what many hostile streams leave behind.
pub open spec fn leak_cases() -> Seq<Seq<char>> {
    seq![
        "over_reported_read_leaks_thread_graphics_cache"@,
        "repeated_hostile_streams_do_not_leak"@,
    ]
}

/// Every case of the suite, in order.
pub open spec fn case_list() -> Seq<Seq<char>> {
    step_cases() + leak_cases()
}

fn step_names() -> (v: Vec<String>)
    ensures
        texts(v@) == step_cases(),
{
    let all: Vec<Step> = steps();
    let mut v: Vec<String> = no_texts();
    let mut i: usize = 0;
    assert(texts(v@) =~= step_cases().take(0));
    while i < all.len()
        invariant
            i <= all@.len(),
            all@ == step_list(),
            texts(v@) == step_cases().take(i as int),
        decreases all@.len() - i,
    {
        push_text(&mut v, all[i].name());
        assert(step_cases().take(i + 1) =~= step_cases().take(i as int).push(step_cases()[i as int]));
        i += 1;
    }
    assert(step_cases().take(i as int) =~= step_cases());
    v
}

fn leak_names() -> (v: Vec<String>)
    ensures
        texts(v@) == leak_cases(),
{
    let mut v: Vec<String> = no_texts();
    push_text(&mut v, "over_reported_read_leaks_thread_graphics_cache".to_owned());
    push_text(&mut v, "repeated_hostile_streams_do_not_leak".to_owned());
    assert(texts(v@) =~= leak_cases());
    v
}

/// The names of the cases of the suite.
pub fn case_names() -> (v: Vec<String>)
    ensures
        texts(v@) == case_list(),
{
    let mut v: Vec<String> = step_names();
    extend_texts(&mut v, leak_names());
    v
}

// ---------------------------------------------------------------
//                     What the checks ask for
// ---------------------------------------------------------------

/// What the two calls returned is what an attempt says of them: success exactly where
/// the call succeeded, its own status where it failed.
pub proof fn attempts_say_what_was_returned(
    initialized: Result<(), u32>,
    rendered: Option<Result<(), u32>>,
    rendering: Option<Rendering>,
    hr: u32,
)
    ensures
        ({
            let a = Attempt::of_calls(initialized, rendered, rendering);
            &&& a.initialize_ok <==> !(initialized is Err)
            &&& !a.initialize_ok ==> initialized == Err::<(), u32>(a.initialize_hr)
            &&& a.initialize_ok ==> a.initialize_hr == 0
            &&& a.render_ok <==> rendered is Some && !(rendered->0 is Err)
            &&& rendered matches Some(Err(h)) ==> a.render_hr == h
            &&& rendered is None ==> a.render_hr == 0
            &&& a.rendering == rendering
        }),
        !Attempt::uncreated(hr).initialize_ok,
        !Attempt::uncreated(hr).render_ok,
        Attempt::uncreated(hr).initialize_hr == hr,
        Attempt::uncreated(hr).render_hr == 0,
        Attempt::uncreated(hr).rendering is None,
{
}

/// What each stream must lead to. Where the bytes all arrive, whatever is claimed of
/// their number and however they are cut up, the artwork must come through; a claim or a
/// payload beyond the limit must be refused; a stream that breaks off must lead to a
/// bitmap or a clean error; one that never delivers a byte must not lead to artwork; and
/// neither a huge claim nor a huge payload may drive what the process commits.
pub proof fn what_each_stream_must_lead_to(s: Step, a: Attempt, growth: i64, r: ReportView)
    ensures
        one_check(r, s.reported(r, a, growth), s.name_text(), outcome_of(s.satisfied(a, growth))),
        s == Step::StatTruthful ==> (s.satisfied(a, growth) <==> a.initialize_ok && a.render_ok
            && a.rendering == Some(Rendering::Real)),
        s == Step::StatFails || s == Step::StatZero || s == Step::StatUnderReports || s
            == Step::OneByte || s is Short || s == Step::SFalse ==> (s.satisfied(a, growth)
            <==> a.initialize_ok && a.rendering == Some(Rendering::Real)),
        s == Step::StatHuge ==> (s.satisfied(a, growth) <==> growth < 268_435_456),
        s == Step::StatOverCap ==> (s.satisfied(a, growth) <==> !a.initialize_ok),
        s == Step::FailsMidway || s == Step::FailsAtOnce ==> (s.satisfied(a, growth)
            <==> a.render_ok || a.render_hr != 0),
        s == Step::ZeroForever || s == Step::NeverSetsCount ==> (s.satisfied(a, growth)
            <==> a.rendering != Some(Rendering::Real)),
        s == Step::OverReports ==> (s.satisfied(a, growth) <==> !a.initialize_ok || a.render_ok
            || a.render_hr != 0),
        s == Step::Oversized ==> (s.satisfied(a, growth) <==> !a.initialize_ok && growth
            < 167_772_160),
{
}

/// Each stream misbehaves in the one way that it is named after: in what it claims to
/// hold or in how it hands that out, and is truthful in the other. A stream that breaks
/// off midway does so after half of the document, and one that breaks off at once before
/// the first byte.
pub proof fn each_stream_misbehaves_in_one_way(s: Step, len: usize)
    ensures
        s.behaviour(len).0 == StatMode::Truthful || s.behaviour(len).1 == ReadMode::Truthful,
        s == Step::StatTruthful <==> s.behaviour(len) == (StatMode::Truthful, ReadMode::Truthful),
        s == Step::StatFails <==> s.behaviour(len).0 == StatMode::Fail,
        s == Step::StatHuge <==> s.behaviour(len).0 == StatMode::Huge,
        s == Step::StatZero <==> s.behaviour(len).0 == StatMode::Zero,
        s == Step::StatOverCap <==> s.behaviour(len).0 == StatMode::OverCap,
        s == Step::StatUnderReports || s == Step::Oversized <==> s.behaviour(len).0
            == StatMode::UnderReport,
        s == Step::OneByte <==> s.behaviour(len).1 == ReadMode::OneByte,
        forall|n: u32| s == Step::Short(n) <==> s.behaviour(len).1 == #[trigger] short_of(n),
        s == Step::FailsMidway || s == Step::FailsAtOnce <==> s.behaviour(len).1 is FailAfter,
        s == Step::FailsMidway ==> s.behaviour(len).1->FailAfter_0 == len as int / 2,
        s == Step::FailsAtOnce ==> s.behaviour(len).1->FailAfter_0 == 0,
        s == Step::ZeroForever <==> s.behaviour(len).1 == ReadMode::ZeroForever,
        s == Step::OverReports <==> s.behaviour(len).1 == ReadMode::OverReport,
        s == Step::NeverSetsCount <==> s.behaviour(len).1 == ReadMode::NeverSetCount,
        s == Step::SFalse <==> s.behaviour(len).1 == ReadMode::SFalse,
{
}

/// A stream that hands out at most `n` bytes at a time.
pub open spec fn short_of(n: u32) -> ReadMode {
    ReadMode::Short(n)
}

/// Every stream but one holds the valid document; the other holds more bytes than the
/// documented limit of 101 MiB, by a clear margin.
pub proof fn payloads_are_valid_or_oversized(s: Step)
    ensures
        s != Step::Oversized ==> s.holds() == vstd::utf8::encode_utf8(BASE_SVG@),
        s == Step::Oversized ==> s.holds().len() == 136_314_880 && s.holds().len() > 101 * 1024 * 1024,
{
}

/// Every way to misbehave is tried, each once, with short reads at three lengths.
pub proof fn every_stream_is_tried(s: Step)
    ensures
        step_list().len() == 17,
        !(s is Short) ==> step_list().contains(s),
        s matches Step::Short(n) ==> (step_list().contains(s) <==> n == 3 || n == 7 || n == 4096),
{
    let l = step_list();
    assert(l[0] == Step::StatTruthful && l[1] == Step::StatFails && l[2] == Step::StatHuge && l[3]
        == Step::StatZero && l[4] == Step::StatOverCap && l[5] == Step::StatUnderReports && l[6]
        == Step::OneByte && l[7] == Step::Short(3) && l[8] == Step::Short(7) && l[9] == Step::Short(
        4096,
    ) && l[10] == Step::FailsMidway && l[11] == Step::FailsAtOnce && l[12] == Step::ZeroForever
        && l[13] == Step::OverReports && l[14] == Step::NeverSetsCount && l[15] == Step::SFalse
        && l[16] == Step::Oversized);
}

/// The long run goes through seven streams over and over, no two of which are alike;
/// every claim and every way to deliver but over-reporting has its turn.
pub proof fn the_long_run_rotates(i: nat, j: nat)
    ensures
        rotation(i + 7) == rotation(i),
        rotation(i) == rotation(j) <==> i % 7 == j % 7,
        rotation(0) == (StatMode::Fail, ReadMode::Truthful),
        rotation(1) == (StatMode::Huge, ReadMode::OneByte),
        rotation(2) == (StatMode::Zero, ReadMode::Short(5)),
        rotation(3) == (StatMode::OverCap, ReadMode::Truthful),
        rotation(4) == (StatMode::UnderReport, ReadMode::FailAfter(40)),
        rotation(5) == (StatMode::Truthful, ReadMode::ZeroForever),
        rotation(6) == (StatMode::Truthful, ReadMode::SFalse),
{
}

/// What may be left behind: at most one handle for each stream that over-reported, and
/// at most eight GDI objects and 32 handles after all the others.
pub proof fn what_hostile_streams_may_leave(r: ReportView, d: Delta)
    ensures
        one_check(
            r,
            after_over_report(r, d),
            "over_reported_read_leaks_thread_graphics_cache"@,
            outcome_of(d.handles <= 25),
        ),
        one_check(
            r,
            after_rotation(r, d),
            "repeated_hostile_streams_do_not_leak"@,
            outcome_of(d.gdi_objects <= 8 && d.handles <= 32),
        ),
{
}

/// What is said of one iteration is the total over 25 of them with one decimal, to the
/// nearest tenth.
pub proof fn the_cost_of_one_iteration_is_a_twenty_fifth(n: nat)
    ensures
        exists|tenths: nat|
            per_iteration(n as int) == #[trigger] tenths_text(tenths) && 50 * tenths - 25 <= 20 * n
                <= 50 * tenths + 25,
        n > 0 ==> per_iteration(-(n as int)) == "-"@ + per_iteration(n as int),
{
    rounding_is_to_the_nearest(n * 10, 25);
    let k = nearest(n * 10, 25);
    assert(per_iteration(n as int) == tenths_text(k));
}

} // verus!
