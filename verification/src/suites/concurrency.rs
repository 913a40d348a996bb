//! Concurrency storm.
//!
//! The real host renders thumbnails on a pool of threads, all hitting the same
//! server at once. Two properties matter: nobody corrupts anybody else's output,
//! and the shared accounting still balances at the end.

use vstd::prelude::*;
use crate::hresult::S_OK;
use crate::metrics::Delta;
use crate::numbers::{dec, decimal, hex32, hex32_text, hex_byte, hex_byte_text};
use crate::report::{one_check, outcome_of, Outcome, Report, ReportView};
use crate::rng::{
    draw, draw_below, draw_range, draws_stay_below, draws_stay_in_range, step, steps, Rng,
};
use crate::suites::lifecycle::{seed_of_sequence, seeds_differ, sequence_seed};
use crate::text::{five, no_texts, push_text, texts, three, two};
use crate::thumb::{same_pixels, Bgra, Rendering, Thumb};

verus! {

/// The line that opens the suite.
pub fn opening_line(seed: u64, threads: usize, per_thread: usize) -> (s: String)
    ensures
        s@ == "  concurrency seed = "@ + dec(seed as nat) + ", "@ + dec(threads as nat)
            + " threads x "@ + dec(per_thread as nat) + " renders"@,
{
    let mut s: String = five(
        "  concurrency seed = ",
        decimal(seed).as_str(),
        ", ",
        decimal(threads as u64).as_str(),
        " threads x ",
    );
    s.append(decimal(per_thread as u64).as_str());
    s.append(" renders");
    s
}

/// The `t`-th thread joins a multithreaded apartment.
pub open spec fn multithreaded(t: nat) -> bool {
    t % 3 == 2
}

/// Apartment models alternate: every third thread joins a multithreaded one.
pub fn joins_mta(t: usize) -> (r: bool)
    ensures
        r == multithreaded(t as nat),
{
    t % 3 == 2
}

// ---------------------------------------------------------------
//                        Identical work
// ---------------------------------------------------------------

/// The report after the check on identical work without a baseline.
pub open spec fn after_baseline_failed(r: ReportView, hr: u32) -> ReportView {
    r.fail(
        "concurrent_identical_renders_agree"@,
        "baseline render failed: hr="@ + hex32(hr),
    )
}

/// Records that there is no image to compare with.
pub fn baseline_failed(report: &mut Report, hr: u32)
    ensures
        final(report)@ == after_baseline_failed(old(report)@, hr),
{
    report.fail(
        "concurrent_identical_renders_agree",
        two("baseline render failed: hr=", hex32_text(hr).as_str()).as_str(),
    );
}

/// How one render of the shared document counts.
#[derive(Debug, Clone, Copy, PartialEq, Eq, Structural)]
pub enum Agreement {
    Agrees,
    Mismatch,
    Failed,
}

/// How a render counts beside the baseline.
pub open spec fn agreement_of(expected: Thumb, result: Result<Thumb, u32>) -> Agreement {
    match result {
        Ok(t) => if t.pixels@ == expected.pixels@ {
            Agreement::Agrees
        } else {
            Agreement::Mismatch
        },
        Err(_) => Agreement::Failed,
    }
}

/// Every thread must see the bytes of the baseline.
pub fn agreement(expected: &Thumb, result: &Result<Thumb, u32>) -> (a: Agreement)
    ensures
        a == agreement_of(*expected, *result),
{
    match result {
        Ok(t) => {
            if same_pixels(t, expected) {
                Agreement::Agrees
            } else {
                Agreement::Mismatch
            }
        },
        Err(_) => Agreement::Failed,
    }
}

/// The report after the check on identical work.
pub open spec fn after_identical(
    r: ReportView,
    threads: usize,
    per_thread: usize,
    mismatches: u32,
    failures: u32,
    panics: u32,
) -> ReportView {
    r.check(
        "concurrent_identical_renders_agree"@,
        mismatches == 0 && failures == 0 && panics == 0,
        dec(threads as nat) + " threads x "@ + dec(per_thread as nat) + " renders: "@ + dec(
            mismatches as nat,
        ) + " pixel mismatches (cross-thread contamination), "@ + dec(failures as nat)
            + " render failures, "@ + dec(panics as nat) + " panics"@,
    )
}

/// Rendering is deterministic, so any divergence is direct evidence of
/// cross-thread contamination.
pub fn judge_identical(
    report: &mut Report,
    threads: usize,
    per_thread: usize,
    mismatches: u32,
    failures: u32,
    panics: u32,
)
    ensures
        final(report)@ == after_identical(old(report)@, threads, per_thread, mismatches, failures, panics),
{
    let mut s: String = five(
        decimal(threads as u64).as_str(),
        " threads x ",
        decimal(per_thread as u64).as_str(),
        " renders: ",
        decimal(mismatches as u64).as_str(),
    );
    s.append(" pixel mismatches (cross-thread contamination), ");
    s.append(decimal(failures as u64).as_str());
    s.append(" render failures, ");
    s.append(decimal(panics as u64).as_str());
    s.append(" panics");
    report.check(
        "concurrent_identical_renders_agree",
        mismatches == 0 && failures == 0 && panics == 0,
        s.as_str(),
    );
}

// ---------------------------------------------------------------
//                         Mixed workload
// ---------------------------------------------------------------

/// A colour.
#[derive(Debug, Clone, Copy, PartialEq, Eq, Structural)]
pub struct Rgb {
    pub r: u8,
    pub g: u8,
    pub b: u8,
}

/// The colours of the storm. Each document is a solid fill in one of them, so a
/// thread can check its own result: receiving another thread's image fails
/// locally and loudly instead of being averaged away.
pub open spec fn palette() -> Seq<Rgb> {
    seq![
        Rgb { r: 0xE8, g: 0x11, b: 0x23 },
        Rgb { r: 0x00, g: 0x78, b: 0xD7 },
        Rgb { r: 0x10, g: 0x89, b: 0x3E },
        Rgb { r: 0xFF, g: 0xB9, b: 0x00 },
        Rgb { r: 0x88, g: 0x17, b: 0x98 },
        Rgb { r: 0x00, g: 0xB7, b: 0xC3 },
    ]
}

/// The sizes of the storm.
pub open spec fn storm_sizes() -> Seq<u32> {
    seq![16u32, 32, 48, 64, 96, 128, 256]
}

/// One render of the storm.
pub enum StormStep {
    /// Random bytes at a random size. The outcome does not matter.
    Junk { bytes: Vec<u8>, size: u32 },
    /// A solid fill.
    Solid { colour: Rgb, size: u32 },
}

/// What a `StormStep` stands for.
pub enum StormView {
    Junk { bytes: Seq<u8>, size: u32 },
    Solid { colour: Rgb, size: u32 },
}

impl View for StormStep {
    type V = StormView;

    open spec fn view(&self) -> StormView {
        match *self {
            StormStep::Junk { bytes, size } => StormView::Junk { bytes: bytes@, size },
            StormStep::Solid { colour, size } => StormView::Solid { colour, size },
        }
    }
}

/// `n` random bytes drawn from state `x` on.
pub open spec fn junk(x: u64, n: nat) -> Seq<u8> {
    Seq::new(n, |i: int| (draw(steps(x, i as nat)) % 256) as u8)
}

/// One render in five feeds broken input, so that the error path runs
/// concurrently with the success path.
pub const JUNK_PERCENT: u32 = 20;

/// The step that is drawn from state `x`, and the state after it.
pub open spec fn storm_step(x: u64) -> (StormView, u64) {
    let y = step(x);
    if draw_below(x, 100) < JUNK_PERCENT {
        let n = draw_range(y, 0, 400);
        let z = steps(step(y), n as nat);
        (StormView::Junk { bytes: junk(step(y), n as nat), size: draw_range(z, 1, 512) }, step(z))
    } else {
        (
            StormView::Solid {
                colour: palette()[draw_below(y, 6) as int],
                size: storm_sizes()[draw_below(step(y), 7) as int],
            },
            step(step(y)),
        )
    }
}

/// One step more is one step after the others.
pub proof fn lemma_steps_last(x: u64, n: nat)
    ensures
        steps(x, n + 1) == step(steps(x, n)),
    decreases n,
{
    if n > 0 {
        lemma_steps_last(step(x), (n - 1) as nat);
    } else {
        assert(steps(step(x), 0) == step(x));
    }
}

fn junk_bytes(rng: &mut Rng, n: u32) -> (v: Vec<u8>)
    ensures
        v@ == junk(old(rng)@, n as nat),
        final(rng)@ == steps(old(rng)@, n as nat),
{
    let mut v: Vec<u8> = Vec::new();
    let mut i: u32 = 0;
    assert(v@ =~= junk(rng@, 0));
    while i < n
        invariant
            i <= n,
            v@ == junk(old(rng)@, i as nat),
            rng@ == steps(old(rng)@, i as nat),
        decreases n - i,
    {
        proof {
            lemma_steps_last(old(rng)@, i as nat);
        }
        let x: u64 = rng.next_u64();
        v.push((x % 256) as u8);
        i += 1;
        assert(v@ =~= junk(old(rng)@, i as nat));
    }
    v
}

/// Draws the next render of the storm.
pub fn next_step(rng: &mut Rng) -> (s: StormStep)
    ensures
        (s@, final(rng)@) == storm_step(old(rng)@),
{
    if rng.chance(JUNK_PERCENT) {
        let n: u32 = rng.range(0, 400);
        let bytes: Vec<u8> = junk_bytes(rng, n);
        let size: u32 = rng.range(1, 512);
        StormStep::Junk { bytes, size }
    } else {
        let colours: Vec<Rgb> = vec![
            Rgb { r: 0xE8, g: 0x11, b: 0x23 },
            Rgb { r: 0x00, g: 0x78, b: 0xD7 },
            Rgb { r: 0x10, g: 0x89, b: 0x3E },
            Rgb { r: 0xFF, g: 0xB9, b: 0x00 },
            Rgb { r: 0x88, g: 0x17, b: 0x98 },
            Rgb { r: 0x00, g: 0xB7, b: 0xC3 },
        ];
        assert(colours@ =~= palette());
        let colour: Rgb = *rng.pick(colours.as_slice());
        let sizes: Vec<u32> = vec![16u32, 32, 48, 64, 96, 128, 256];
        assert(sizes@ =~= storm_sizes());
        let size: u32 = *rng.pick(sizes.as_slice());
        StormStep::Solid { colour, size }
    }
}

/// The seed of the `t`-th thread of the storm.
pub fn storm_seed(seed: u64, t: u64) -> (s: u64)
    ensures
        s == seed_of_sequence(seed, t),
{
    sequence_seed(seed, t)
}

impl Rgb {
    /// A document filled with this colour.
    pub open spec fn document_text(self) -> Seq<char> {
        r##"<svg xmlns="http://www.w3.org/2000/svg" viewBox="0 0 64 64"><rect width="64" height="64" fill="#"##@
            + hex_byte(self.r) + hex_byte(self.g) + hex_byte(self.b) + r#""/></svg>"#@
    }

    pub fn document(self) -> (s: String)
        ensures
            s@ == self.document_text(),
    {
        five(
            r##"<svg xmlns="http://www.w3.org/2000/svg" viewBox="0 0 64 64"><rect width="64" height="64" fill="#"##,
            hex_byte_text(self.r).as_str(),
            hex_byte_text(self.g).as_str(),
            hex_byte_text(self.b).as_str(),
            r#""/></svg>"#,
        )
    }

    /// The pixel is nearly opaque and has about this colour.
    pub open spec fn shown_by(self, p: Bgra) -> bool {
        &&& -24 <= p.b - self.b <= 24
        &&& -24 <= p.g - self.g <= 24
        &&& -24 <= p.r - self.r <= 24
        &&& p.a > 200
    }
}

fn within(a: u8, b: u8) -> (r: bool)
    ensures
        r == (-24 <= a - b <= 24),
{
    let d: i32 = a as i32 - b as i32;
    -24 <= d && d <= 24
}

/// Whether the centre of the thumbnail has the colour that was asked for.
pub fn right_colour(t: &Thumb, size: u32, colour: Rgb) -> (r: bool)
    requires
        t.holds(size / 2, size / 2),
    ensures
        r == colour.shown_by(t.at(size / 2, size / 2)),
{
    let p: [u8; 4] = t.pixel(size / 2, size / 2);
    within(p[0], colour.b) && within(p[1], colour.g) && within(p[2], colour.r) && p[3] > 200
}

/// No pixel shows two colours of the palette, so a thread that received the image
/// of a thread with another colour always notices.
pub proof fn colours_cannot_be_confused(i: int, j: int, p: Bgra)
    requires
        0 <= i < palette().len(),
        0 <= j < palette().len(),
        i != j,
    ensures
        !(palette()[i].shown_by(p) && palette()[j].shown_by(p)),
{
}

/// The report after the check on the storm.
pub open spec fn after_storm(
    r: ReportView,
    threads: usize,
    total: u64,
    wrong: u32,
    failed: u32,
    panics: u32,
    worst: Seq<char>,
) -> ReportView {
    r.check(
        "mixed_workload_storm"@,
        wrong == 0 && failed == 0 && panics == 0,
        dec(total as nat) + " renders across "@ + dec(threads as nat) + " threads: "@ + dec(
            wrong as nat,
        ) + " returned the wrong colour (cross-thread contamination), "@ + dec(failed as nat)
            + " valid renders failed, "@ + dec(panics as nat)
            + " threads panicked, worst latency "@ + worst + " ms"@,
    )
}

/// `worst` is the longest latency in milliseconds with one decimal.
pub fn judge_storm(
    report: &mut Report,
    threads: usize,
    total: u64,
    wrong: u32,
    failed: u32,
    panics: u32,
    worst: &str,
)
    ensures
        final(report)@ == after_storm(old(report)@, threads, total, wrong, failed, panics, worst@),
{
    let mut s: String = five(
        decimal(total).as_str(),
        " renders across ",
        decimal(threads as u64).as_str(),
        " threads: ",
        decimal(wrong as u64).as_str(),
    );
    s.append(" returned the wrong colour (cross-thread contamination), ");
    s.append(decimal(failed as u64).as_str());
    s.append(" valid renders failed, ");
    s.append(decimal(panics as u64).as_str());
    s.append(" threads panicked, worst latency ");
    s.append(worst);
    s.append(" ms");
    report.check(
        "mixed_workload_storm",
        wrong == 0 && failed == 0 && panics == 0,
        s.as_str(),
    );
}

// ---------------------------------------------------------------
//                Threads that exit under load
// ---------------------------------------------------------------

/// Long-lived workers that render throughout.
pub const STEADY_THREADS: usize = 4;

/// Short-lived threads that run at once.
pub const EXIT_BATCH: usize = 8;

/// Seconds for which short-lived threads come and go.
pub const EXIT_SECONDS: u64 = 20;

/// Short-lived threads after which it is enough.
pub const EXIT_LIMIT: u32 = 200;

/// Another batch of short-lived threads is called for.
pub open spec fn exits_go_on(before_deadline: bool, churned: nat) -> bool {
    before_deadline && churned < EXIT_LIMIT
}

/// Whether another batch of short-lived threads is called for.
pub fn keeps_exiting(before_deadline: bool, churned: u32) -> (r: bool)
    ensures
        r == exits_go_on(before_deadline, churned as nat),
{
    before_deadline && churned < EXIT_LIMIT
}

/// A steady worker got real artwork.
pub open spec fn steady(result: Result<Thumb, u32>) -> bool {
    match result {
        Ok(t) => t.classified() == Rendering::Real,
        Err(_) => false,
    }
}

/// Whether a steady worker got real artwork.
pub fn steady_ok(result: &Result<Thumb, u32>) -> (r: bool)
    ensures
        r == steady(*result),
{
    match result {
        Ok(t) => t.classify() == Rendering::Real,
        Err(_) => false,
    }
}

/// The report after the check on threads that exit.
pub open spec fn after_exits(
    r: ReportView,
    churned: u32,
    renders: u64,
    failures: u32,
    panics: u32,
) -> ReportView {
    r.check(
        "threads_exit_while_others_render"@,
        failures == 0 && panics == 0,
        dec(churned as nat)
            + " short-lived rendering threads created and exited while 4 steady threads completed "@
            + dec(renders as nat) + " renders: "@ + dec(failures as nat)
            + " steady-render failures, "@ + dec(panics as nat) + " panics"@,
    )
}

/// Threads that exit with a live cache must not disturb the threads still
/// working.
pub fn judge_exits(report: &mut Report, churned: u32, renders: u64, failures: u32, panics: u32)
    ensures
        final(report)@ == after_exits(old(report)@, churned, renders, failures, panics),
{
    let mut s: String = five(
        decimal(churned as u64).as_str(),
        " short-lived rendering threads created and exited while 4 steady threads completed ",
        decimal(renders).as_str(),
        " renders: ",
        decimal(failures as u64).as_str(),
    );
    s.append(" steady-render failures, ");
    s.append(decimal(panics as u64).as_str());
    s.append(" panics");
    report.check("threads_exit_while_others_render", failures == 0 && panics == 0, s.as_str());
}

// ---------------------------------------------------------------
//                          Accounting
// ---------------------------------------------------------------

/// The report after the check on the reference count.
pub open spec fn after_reference_count(r: ReportView, decisive: u32, shown: u32) -> ReportView {
    r.check(
        "reference_count_balanced_after_storm"@,
        decisive == S_OK,
        "DllCanUnloadNow="@ + hex32(shown)
            + " after the concurrency storm (expected S_OK)"@,
    )
}

/// Every object has been dropped, so the reference count must be back at zero.
/// The library is asked twice: `decisive` counts, `shown` is reported.
pub fn judge_reference_count(report: &mut Report, decisive: u32, shown: u32)
    ensures
        final(report)@ == after_reference_count(old(report)@, decisive, shown),
{
    report.check(
        "reference_count_balanced_after_storm",
        decisive == S_OK,
        three(
            "DllCanUnloadNow=",
            hex32_text(shown).as_str(),
            " after the concurrency storm (expected S_OK)",
        ).as_str(),
    );
}

/// Threads of the last phase, and renders of each.
pub const GDI_THREADS: usize = 8;

pub const GDI_RENDERS: usize = 100;

/// The report after the check on GDI objects.
pub open spec fn after_gdi(r: ReportView, d: Delta) -> ReportView {
    r.check(
        "concurrent_gdi_objects_released"@,
        d.gdi_objects <= 16,
        "after 800 concurrent renders: "@ + d.described(),
    )
}

/// Bitmaps made on worker threads must be released.
pub fn judge_gdi(report: &mut Report, d: &Delta)
    ensures
        final(report)@ == after_gdi(old(report)@, *d),
{
    report.check(
        "concurrent_gdi_objects_released",
        d.gdi_objects <= 16,
        two("after 800 concurrent renders: ", d.describe().as_str()).as_str(),
    );
}

// ---------------------------------------------------------------
//                             Cases
// ---------------------------------------------------------------

/// Every case of the suite, in order.
pub open spec fn case_list() -> Seq<Seq<char>> {
    seq![
        "concurrent_identical_renders_agree"@,
        "mixed_workload_storm"@,
        "threads_exit_while_others_render"@,
        "reference_count_balanced_after_storm"@,
        "concurrent_gdi_objects_released"@,
    ]
}

/// The names of the cases of the suite.
pub fn case_names() -> (v: Vec<String>)
    ensures
        texts(v@) == case_list(),
{
    let mut v: Vec<String> = no_texts();
    push_text(&mut v, "concurrent_identical_renders_agree".to_owned());
    push_text(&mut v, "mixed_workload_storm".to_owned());
    push_text(&mut v, "threads_exit_while_others_render".to_owned());
    push_text(&mut v, "reference_count_balanced_after_storm".to_owned());
    push_text(&mut v, "concurrent_gdi_objects_released".to_owned());
    assert(texts(v@) =~= case_list());
    v
}

// ---------------------------------------------------------------
//                     What the checks ask for
// ---------------------------------------------------------------

/// One thread in three joins a multithreaded apartment; the first two do not.
pub proof fn apartments_rotate(t: nat)
    ensures
        !multithreaded(0),
        !multithreaded(1),
        multithreaded(2),
        multithreaded(t + 3) == multithreaded(t),
{
}

/// A render agrees with the baseline exactly when it succeeded with the same number of
/// bytes and the same byte in every place; a failed one is counted apart.
pub proof fn agreement_is_byte_for_byte(expected: Thumb, result: Result<Thumb, u32>)
    ensures
        agreement_of(expected, result) is Failed <==> result is Err,
        agreement_of(expected, result) is Agrees <==> result is Ok && result->Ok_0.pixels@.len()
            == expected.pixels@.len() && forall|i: int|
            0 <= i < expected.pixels@.len() ==> #[trigger] result->Ok_0.pixels@[i]
                == expected.pixels@[i],
{
    if result is Ok {
        let a = result->Ok_0.pixels@;
        let b = expected.pixels@;
        if a.len() == b.len() && forall|i: int| 0 <= i < b.len() ==> #[trigger] a[i] == b[i] {
            assert(a =~= b);
        }
    }
}

/// A render of the storm is either junk of at most 400 bytes at a size from 1 to 512, in
/// one of five draws, or a solid fill of the palette at one of the seven sizes.
pub proof fn the_storm_stays_in_bounds(x: u64)
    ensures
        match storm_step(x).0 {
            StormView::Junk { bytes, size } => {
                &&& draw_below(x, 100) < 20
                &&& bytes.len() <= 400
                &&& bytes.len() == draw_below(step(x), 401)
                &&& 1 <= size <= 512
                &&& size - 1 == draw_below(steps(step(step(x)), bytes.len()), 512)
                &&& forall|i: int|
                    0 <= i < bytes.len() ==> #[trigger] bytes[i] == draw(
                        steps(step(step(x)), i as nat),
                    ) as int % 256
            },
            StormView::Solid { colour, size } => {
                &&& draw_below(x, 100) >= 20
                &&& palette().contains(colour)
                &&& storm_sizes().contains(size)
            },
        },
        palette().len() == 6,
        storm_sizes().len() == 7,
        forall|i: int| 0 <= i < 7 ==> 16 <= #[trigger] storm_sizes()[i] <= 256,
        forall|i: int, j: int|
            0 <= i < j < 7 ==> #[trigger] storm_sizes()[i] < #[trigger] storm_sizes()[j],
        forall|k: u32|
            k == 16 || k == 32 || k == 48 || k == 64 || k == 96 || k == 128 || k == 256
                ==> #[trigger] storm_sizes().contains(k),
{
    let y = step(x);
    draws_stay_in_range(y, 0, 400);
    let n = draw_range(y, 0, 400);
    draws_stay_in_range(steps(step(y), n as nat), 1, 512);
    draws_stay_below(y, 6);
    draws_stay_below(step(y), 7);
    assert(palette().contains(palette()[draw_below(y, 6) as int]));
    assert(storm_sizes().contains(storm_sizes()[draw_below(step(y), 7) as int]));
    let s = storm_sizes();
    assert(s[0] == 16 && s[1] == 32 && s[2] == 48 && s[3] == 64 && s[4] == 96 && s[5] == 128 && s[6]
        == 256);
}

/// Every thread of the storm has a seed of its own.
pub proof fn storm_seeds_differ(seed: u64, t: u64, u: u64)
    ensures
        seed_of_sequence(seed, t) == seed_of_sequence(seed, u) ==> t == u,
{
    seeds_differ(seed, t, u);
}

/// A pixel shows a colour exactly when it is nearly opaque and each channel lies within
/// 24 of it; a colour shows itself, and black or white show none of the palette.
pub proof fn a_colour_is_shown_in_every_channel(c: Rgb, p: Bgra, i: int)
    requires
        0 <= i < palette().len(),
    ensures
        c.shown_by(p) <==> {
            &&& p.a > 200
            &&& p.r <= c.r + 24 && c.r <= p.r + 24
            &&& p.g <= c.g + 24 && c.g <= p.g + 24
            &&& p.b <= c.b + 24 && c.b <= p.b + 24
        },
        c.shown_by(Bgra { b: c.b, g: c.g, r: c.r, a: 255 }),
        !palette()[i].shown_by(Bgra { b: 0, g: 0, r: 0, a: 255 }),
        !palette()[i].shown_by(Bgra { b: 255, g: 255, r: 255, a: 255 }),
{
}

/// The value of a hexadecimal digit in lower case.
spec fn nibble(c: char) -> int {
    if '0' <= c <= '9' {
        c as int - 48
    } else {
        c as int - 87
    }
}

/// The document of a colour spells it out as six hexadecimal digits, two each for red,
/// green and blue in this order, and so documents of different colours differ.
pub proof fn documents_spell_their_colour(a: Rgb, b: Rgb)
    ensures
        a.document_text() == b.document_text() ==> a == b,
{
    let head = r##"<svg xmlns="http://www.w3.org/2000/svg" viewBox="0 0 64 64"><rect width="64" height="64" fill="#"##@;
    let n: int = head.len() as int;
    let s = a.document_text();
    let t = b.document_text();
    assert(16 * nibble(s[n]) + nibble(s[n + 1]) == a.r);
    assert(16 * nibble(s[n + 2]) + nibble(s[n + 3]) == a.g);
    assert(16 * nibble(s[n + 4]) + nibble(s[n + 5]) == a.b);
    assert(16 * nibble(t[n]) + nibble(t[n + 1]) == b.r);
    assert(16 * nibble(t[n + 2]) + nibble(t[n + 3]) == b.g);
    assert(16 * nibble(t[n + 4]) + nibble(t[n + 5]) == b.b);
}

/// Short-lived threads come and go until time is up or two hundred have.
pub proof fn exits_end(before_deadline: bool, churned: nat)
    ensures
        !before_deadline ==> !exits_go_on(before_deadline, churned),
        churned >= 200 ==> !exits_go_on(before_deadline, churned),
        before_deadline && churned <= 199 ==> exits_go_on(before_deadline, churned),
        EXIT_SECONDS == 20,
{
}

/// What the checks of the suite depend on: not one mismatch, failure, wrong colour or
/// panic is let pass, a steady worker must get artwork every time, the library may be
/// unloaded afterwards, and at most 16 GDI objects stay behind.
pub proof fn what_the_concurrency_checks_ask(
    r: ReportView,
    hr: u32,
    threads: usize,
    per_thread: usize,
    total: u64,
    a: u32,
    b: u32,
    c: u32,
    worst: Seq<char>,
    result: Result<Thumb, u32>,
    shown: u32,
    d: Delta,
)
    ensures
        one_check(
            r,
            after_baseline_failed(r, hr),
            "concurrent_identical_renders_agree"@,
            Outcome::Fail,
        ),
        one_check(
            r,
            after_identical(r, threads, per_thread, a, b, c),
            "concurrent_identical_renders_agree"@,
            outcome_of(a + b + c == 0),
        ),
        one_check(
            r,
            after_storm(r, threads, total, a, b, c, worst),
            "mixed_workload_storm"@,
            outcome_of(a + b + c == 0),
        ),
        one_check(
            r,
            after_exits(r, hr, total, a, b),
            "threads_exit_while_others_render"@,
            outcome_of(a + b == 0),
        ),
        steady(result) <==> result is Ok && result->Ok_0.classified() == Rendering::Real,
        one_check(
            r,
            after_reference_count(r, hr, shown),
            "reference_count_balanced_after_storm"@,
            outcome_of(hr == 0),
        ),
        one_check(
            r,
            after_gdi(r, d),
            "concurrent_gdi_objects_released"@,
            outcome_of(d.gdi_objects <= 16),
        ),
{
}

/// The colours of the palette: a red, a blue, a green, a yellow, a purple and a cyan.
pub proof fn the_palette_has_six_colours(c: Rgb)
    ensures
        palette().contains(c) <==> {
            ||| c.r == 232 && c.g == 17 && c.b == 35
            ||| c.r == 0 && c.g == 120 && c.b == 215
            ||| c.r == 16 && c.g == 137 && c.b == 62
            ||| c.r == 255 && c.g == 185 && c.b == 0
            ||| c.r == 136 && c.g == 23 && c.b == 152
            ||| c.r == 0 && c.g == 183 && c.b == 195
        },
{
    let p = palette();
    assert(p[0] == c || p[1] == c || p[2] == c || p[3] == c || p[4] == c || p[5] == c
        ==> p.contains(c));
}

} // verus!
