//! Rendering correctness and determinism.
//!
//! These are the properties that a user would notice: that the same input always
//! produces the same image, that scaling works across the full size range, that
//! style rules are applied with the right precedence, and that alpha survives
//! the conversion from premultiplied to straight.
//!
//! Exact output hashes are deliberately not asserted: they would turn every
//! system update into a spurious failure. Determinism is asserted relative to
//! the same process and the same run.

use vstd::prelude::*;
use crate::numbers::{dec, decimal, hex32, hex32_text, hex_byte, hex_byte_text};
use crate::report::{one_check, outcome_of, Outcome, Report, ReportView};
use crate::text::{
    bool_text, bool_word, extend_texts, five, lemma_occurs_between, lemma_occurs_in_more, no_texts,
    occurs, occurs_at, push_text, texts, three, two,
};
use crate::thumb::{
    coverage_is_a_fraction_of_the_area, declares_argb, every_pixel, places, same_pixels,
    transparent_exactly_when_no_pixel_has_alpha, Bgra, Rendering, Thumb, ALPHA_ARGB,
};

verus! {

// ---------------------------------------------------------------
//                        Shared wording
// ---------------------------------------------------------------

/// A pixel as it is shown.
pub open spec fn pixel_word(p: Bgra) -> Seq<char> {
    "["@ + dec(p.b as nat) + ", "@ + dec(p.g as nat) + ", "@ + dec(p.r as nat) + ", "@ + dec(
        p.a as nat,
    ) + "]"@
}

pub fn pixel_text(p: [u8; 4]) -> (s: String)
    ensures
        s@ == pixel_word(Bgra { b: p[0], g: p[1], r: p[2], a: p[3] }),
{
    let mut s: String = three("[", decimal(p[0] as u64).as_str(), ", ");
    s.append(decimal(p[1] as u64).as_str());
    s.append(", ");
    s.append(decimal(p[2] as u64).as_str());
    s.append(", ");
    s.append(decimal(p[3] as u64).as_str());
    s.append("]");
    s
}

/// A failed status as it is shown.
pub open spec fn hr_word(hr: u32) -> Seq<char> {
    "hr="@ + hex32(hr)
}

pub fn hr_text(hr: u32) -> (s: String)
    ensures
        s@ == hr_word(hr),
{
    two("hr=", hex32_text(hr).as_str())
}

/// Two channel values are close enough to be the same colour.
pub open spec fn close(a: u8, b: u8) -> bool {
    -20 <= a - b <= 20
}

pub fn near(a: u8, b: u8) -> (r: bool)
    ensures
        r == close(a, b),
{
    let d: i32 = a as i32 - b as i32;
    -20 <= d && d <= 20
}

/// The pixel has about the given colour, whatever its alpha.
pub open spec fn coloured(p: Bgra, b: u8, g: u8, r: u8) -> bool {
    close(p.b, b) && close(p.g, g) && close(p.r, r)
}

// ---------------------------------------------------------------
//                          Size sweep
// ---------------------------------------------------------------

/// Sizes covering what the shell requests, both sides of the provider's clamp,
/// and awkward values that are no power of two.
pub open spec fn sweep() -> Seq<u32> {
    seq![
        1u32,
        2,
        3,
        7,
        16,
        24,
        32,
        48,
        64,
        96,
        128,
        129,
        255,
        256,
        257,
        512,
        1024,
        2048,
        4096,
    ]
}

pub fn sweep_sizes() -> (v: Vec<u32>)
    ensures
        v@ == sweep(),
{
    let v: Vec<u32> = vec![
        1u32, 2, 3, 7, 16, 24, 32, 48, 64, 96, 128, 129, 255, 256, 257, 512, 1024, 2048, 4096,
    ];
    assert(v@ =~= sweep());
    v
}

pub open spec fn sweep_name(size: u32) -> Seq<char> {
    "size_sweep_"@ + dec(size as nat)
}

/// Name of the check at one size.
pub fn sweep_case(size: u32) -> (s: String)
    ensures
        s@ == sweep_name(size),
{
    two("size_sweep_", decimal(size as u64).as_str())
}

/// The report after a valid document was rendered at one size. At one and two
/// pixels there is not enough resolution for claims about content.
pub open spec fn after_size(
    r: ReportView,
    size: u32,
    result: Result<Thumb, u32>,
    coverage: Seq<char>,
) -> ReportView {
    match result {
        Ok(t) => r.check(
            sweep_name(size),
            t.width == size && t.height == size && t.alpha == ALPHA_ARGB && (size <= 2
                || t.classified() == Rendering::Real),
            dec(t.width as nat) + "x"@ + dec(t.height as nat) + " declared_argb="@ + bool_word(
                t.alpha == ALPHA_ARGB,
            ) + " classification="@ + t.classified().word() + " coverage="@ + coverage,
        ),
        Err(hr) => r.fail(
            sweep_name(size),
            "a valid SVG failed to render at "@ + dec(size as nat) + "x"@ + dec(size as nat) + ": "@
                + hr_word(hr),
        ),
    }
}

/// Records what came of a valid document at one size. `coverage` is the covered
/// fraction of the thumbnail with two decimals.
pub fn judge_size(report: &mut Report, size: u32, result: &Result<Thumb, u32>, coverage: &str)
    ensures
        final(report)@ == after_size(old(report)@, size, *result, coverage@),
{
    let name: String = sweep_case(size);
    match result {
        Ok(t) => {
            let geometry: bool = t.width == size && t.height == size;
            let alpha: bool = declares_argb(t);
            let kind: Rendering = t.classify();
            let content_ok: bool = size <= 2 || kind == Rendering::Real;
            let mut s: String = five(
                decimal(t.width as u64).as_str(),
                "x",
                decimal(t.height as u64).as_str(),
                " declared_argb=",
                bool_text(alpha),
            );
            s.append(" classification=");
            s.append(kind.text());
            s.append(" coverage=");
            s.append(coverage);
            report.check(name.as_str(), geometry && alpha && content_ok, s.as_str());
        },
        Err(hr) => {
            let mut s: String = five(
                "a valid SVG failed to render at ",
                decimal(size as u64).as_str(),
                "x",
                decimal(size as u64).as_str(),
                ": ",
            );
            s.append(hr_text(*hr).as_str());
            report.fail(name.as_str(), s.as_str());
        },
    }
}

// ---------------------------------------------------------------
//                         Determinism
// ---------------------------------------------------------------

/// How many times the same document is rendered.
pub const REPEATS: u32 = 25;

/// Renders of the same document, one after the other.
///
/// Same bytes, same size, same thread: any difference means an uninitialised
/// buffer or a race, which would show up as thumbnails that change when
/// refreshed.
pub struct Repeats {
    baseline: Option<Thumb>,
    done: u32,
    mismatch_at: Option<u32>,
    failed_at: Option<(u32, u32)>,
}

/// What a `Repeats` stands for.
pub struct RepeatsView {
    /// The pixels of the first render.
    pub baseline: Option<Seq<u8>>,
    /// Renders so far.
    pub done: nat,
    /// The first render that differed.
    pub mismatch_at: Option<u32>,
    /// The first render that failed, with its status.
    pub failed_at: Option<(u32, u32)>,
}

impl View for Repeats {
    type V = RepeatsView;

    closed spec fn view(&self) -> RepeatsView {
        RepeatsView {
            baseline: match self.baseline {
                Some(t) => Some(t.pixels@),
                None => None,
            },
            done: self.done as nat,
            mismatch_at: self.mismatch_at,
            failed_at: self.failed_at,
        }
    }
}

impl RepeatsView {
    pub open spec fn fresh() -> RepeatsView {
        RepeatsView { baseline: None, done: 0, mismatch_at: None, failed_at: None }
    }

    /// Another render is called for.
    pub open spec fn open(self) -> bool {
        self.done < REPEATS && self.mismatch_at is None && self.failed_at is None
    }

    /// After one more render.
    pub open spec fn noted(self, result: Result<Thumb, u32>) -> RepeatsView {
        let next = RepeatsView { done: self.done + 1, ..self };
        match result {
            Ok(t) => match self.baseline {
                None => RepeatsView { baseline: Some(t.pixels@), ..next },
                Some(b) => if b != t.pixels@ {
                    RepeatsView { mismatch_at: Some(self.done as u32), ..next }
                } else {
                    next
                },
            },
            Err(hr) => RepeatsView { failed_at: Some((self.done as u32, hr)), ..next },
        }
    }

    /// After the first renders of `results`, as far as they are called for.
    pub open spec fn after(results: Seq<Result<Thumb, u32>>) -> RepeatsView
        decreases results.len(),
    {
        if results.len() == 0 {
            RepeatsView::fresh()
        } else {
            let before = RepeatsView::after(results.drop_last());
            if before.open() {
                before.noted(results.last())
            } else {
                before
            }
        }
    }

    /// The report about these renders.
    pub open spec fn reported(self, r: ReportView) -> ReportView {
        match self.failed_at {
            Some((i, hr)) => r.fail(
                "repeated_renders_are_identical"@,
                "render "@ + dec(i as nat) + " failed: "@ + hr_word(hr),
            ),
            None => r.check(
                "repeated_renders_are_identical"@,
                self.mismatch_at is None,
                match self.mismatch_at {
                    None => "25 consecutive renders of the same input produced byte-identical output"@,
                    Some(i) => "render "@ + dec(i as nat)
                        + " differed from the first - rendering is not deterministic"@,
                },
            ),
        }
    }
}

impl Repeats {
    pub fn new() -> (s: Repeats)
        ensures
            s@ == RepeatsView::fresh(),
    {
        Repeats { baseline: None, done: 0, mismatch_at: None, failed_at: None }
    }

    /// Whether another render is called for.
    pub fn is_open(&self) -> (r: bool)
        ensures
            r == self@.open(),
    {
        self.done < REPEATS && self.mismatch_at.is_none() && self.failed_at.is_none()
    }

    /// Notes one more render.
    pub fn note(&mut self, result: Result<Thumb, u32>)
        requires
            old(self)@.open(),
        ensures
            final(self)@ == old(self)@.noted(result),
    {
        let i: u32 = self.done;
        self.done = i + 1;
        match result {
            Ok(t) => match &self.baseline {
                None => {
                    self.baseline = Some(t);
                },
                Some(b) => {
                    if !same_pixels(b, &t) {
                        self.mismatch_at = Some(i);
                    }
                },
            },
            Err(hr) => {
                self.failed_at = Some((i, hr));
            },
        }
    }

    /// Records what came of the renders, and says whether the remaining checks of
    /// determinism still make sense: not after a render that failed.
    pub fn judge(&self, report: &mut Report) -> (go_on: bool)
        ensures
            final(report)@ == self@.reported(old(report)@),
            go_on == (self@.failed_at is None),
    {
        match self.failed_at {
            Some((i, hr)) => {
                let mut s: String = three("render ", decimal(i as u64).as_str(), " failed: ");
                s.append(hr_text(hr).as_str());
                report.fail("repeated_renders_are_identical", s.as_str());
                false
            },
            None => {
                match self.mismatch_at {
                    None => {
                        report.check(
                            "repeated_renders_are_identical",
                            true,
                            "25 consecutive renders of the same input produced byte-identical output",
                        );
                    },
                    Some(i) => {
                        report.check(
                            "repeated_renders_are_identical",
                            false,
                            three(
                                "render ",
                                decimal(i as u64).as_str(),
                                " differed from the first - rendering is not deterministic",
                            ).as_str(),
                        );
                    },
                }
                true
            },
        }
    }
}

/// Every render of `results` succeeded, with the pixels of the first.
pub open spec fn all_alike(results: Seq<Result<Thumb, u32>>) -> bool {
    forall|i: int|
        0 <= i < results.len() ==> (#[trigger] results[i]) is Ok && results[0] is Ok
            && results[i]->Ok_0.pixels@ == results[0]->Ok_0.pixels@
}

proof fn lemma_after(results: Seq<Result<Thumb, u32>>)
    requires
        results.len() <= REPEATS,
    ensures
        ({
            let s = RepeatsView::after(results);
            &&& all_alike(results) <==> s.mismatch_at is None && s.failed_at is None
            &&& all_alike(results) ==> {
                &&& s.done == results.len()
                &&& results.len() == 0 ==> s.baseline is None
                &&& results.len() > 0 ==> s.baseline == Some(results[0]->Ok_0.pixels@)
            }
        }),
    decreases results.len(),
{
    if results.len() > 0 {
        let before = results.drop_last();
        lemma_after(before);
        let last = results.len() - 1;
        assert(results.last() == results[last]);
        if all_alike(results) {
            assert forall|i: int| 0 <= i < before.len() implies (#[trigger] before[i]) is Ok
                && before[0] is Ok && before[i]->Ok_0.pixels@ == before[0]->Ok_0.pixels@ by {
                assert(before[i] == results[i] && before[0] == results[0]);
            }
            assert(results[last] is Ok);
        }
        if RepeatsView::after(results).mismatch_at is None && RepeatsView::after(
            results,
        ).failed_at is None {
            let s = RepeatsView::after(before);
            assert(s.mismatch_at is None && s.failed_at is None);
            assert(all_alike(before));
            assert forall|i: int| 0 <= i < results.len() implies (#[trigger] results[i]) is Ok
                && results[0] is Ok && results[i]->Ok_0.pixels@ == results[0]->Ok_0.pixels@ by {
                if i < last {
                    assert(before[i] == results[i] && before[0] == results[0]);
                }
            }
        }
    }
}

/// Rendering counts as deterministic exactly when every one of the renders
/// succeeded with the same bytes.
pub proof fn deterministic_exactly_when_all_alike(results: Seq<Result<Thumb, u32>>)
    requires
        results.len() == REPEATS,
    ensures
        all_alike(results) <==> RepeatsView::after(results).mismatch_at is None
            && RepeatsView::after(results).failed_at is None,
        all_alike(results) ==> !RepeatsView::after(results).open(),
{
    lemma_after(results);
}

/// A document rendered between two renders of the base document.
pub const OTHER_SVG: &'static str = r##"<svg xmlns="http://www.w3.org/2000/svg" viewBox="0 0 64 64"><circle cx="32" cy="32" r="30" fill="#ff00ff"/></svg>"##;

/// Bytes rendered between two renders of the base document.
pub const GARBAGE: &'static str = "garbage not svg";

/// The report after the check on interleaved documents.
pub open spec fn after_interleaved(
    r: ReportView,
    first: Result<Thumb, u32>,
    second: Result<Thumb, u32>,
) -> ReportView {
    match (first, second) {
        (Ok(a), Ok(b)) => r.check(
            "interleaved_inputs_do_not_contaminate"@,
            a.pixels@ == b.pixels@,
            "rendering other documents in between left the result unchanged"@,
        ),
        _ => r.fail(
            "interleaved_inputs_do_not_contaminate"@,
            "one of the renders failed"@,
        ),
    }
}

/// Rendering other documents in between must not change the result: a leaked
/// device state or a reused buffer would show up here and nowhere else.
pub fn judge_interleaved(
    report: &mut Report,
    first: &Result<Thumb, u32>,
    second: &Result<Thumb, u32>,
)
    ensures
        final(report)@ == after_interleaved(old(report)@, *first, *second),
{
    match (first, second) {
        (Ok(a), Ok(b)) => {
            report.check(
                "interleaved_inputs_do_not_contaminate",
                same_pixels(a, b),
                "rendering other documents in between left the result unchanged",
            );
        },
        _ => {
            report.fail("interleaved_inputs_do_not_contaminate", "one of the renders failed");
        },
    }
}

/// A document that covers the whole thumbnail.
pub const FULL_BLEED_SVG: &'static str = r##"<svg xmlns="http://www.w3.org/2000/svg" viewBox="0 0 64 64"><rect width="64" height="64" fill="#ff0000"/></svg>"##;

/// A document that leaves the corners of the thumbnail empty.
pub const SMALL_SVG: &'static str = r##"<svg xmlns="http://www.w3.org/2000/svg" viewBox="0 0 64 64"><rect x="28" y="28" width="8" height="8" fill="#00ff00"/></svg>"##;

/// The four corner pixels that are looked at can be read.
pub open spec fn has_corners(t: &Thumb) -> bool {
    t.holds(1, 1) && t.holds(126, 1) && t.holds(1, 126) && t.holds(126, 126)
}

/// Whether the four corner pixels that are looked at can be read.
pub fn corners_readable(t: &Thumb) -> (r: bool)
    ensures
        r == has_corners(t),
{
    t.has_pixel(1, 1) && t.has_pixel(126, 1) && t.has_pixel(1, 126) && t.has_pixel(126, 126)
}

/// The report after the check on the corners.
pub open spec fn after_corners(r: ReportView, result: Result<Thumb, u32>) -> ReportView {
    match result {
        Ok(t) => r.check(
            "empty_regions_are_fully_transparent"@,
            t.at(1, 1).a == 0 && t.at(126, 1).a == 0 && t.at(1, 126).a == 0 && t.at(126, 126).a
                == 0,
            "corner pixels (BGRA) after a full-bleed red render: ["@ + pixel_word(t.at(1, 1))
                + ", "@ + pixel_word(t.at(126, 1)) + ", "@ + pixel_word(t.at(1, 126)) + ", "@
                + pixel_word(t.at(126, 126)) + "]"@,
        ),
        Err(hr) => r.fail(
            "empty_regions_are_fully_transparent"@,
            "render failed: "@ + hr_word(hr),
        ),
    }
}

/// The corners must be empty after a document that covers everything: otherwise
/// the ghost of the last thumbnail shows through.
pub fn judge_corners(report: &mut Report, result: &Result<Thumb, u32>)
    requires
        result matches Ok(t) ==> has_corners(&t),
    ensures
        final(report)@ == after_corners(old(report)@, *result),
{
    match result {
        Ok(t) => {
            let a: [u8; 4] = t.pixel(1, 1);
            let b: [u8; 4] = t.pixel(126, 1);
            let c: [u8; 4] = t.pixel(1, 126);
            let d: [u8; 4] = t.pixel(126, 126);
            let clean: bool = a[3] == 0 && b[3] == 0 && c[3] == 0 && d[3] == 0;
            let mut s: String = three(
                "corner pixels (BGRA) after a full-bleed red render: [",
                pixel_text(a).as_str(),
                ", ",
            );
            s.append(pixel_text(b).as_str());
            s.append(", ");
            s.append(pixel_text(c).as_str());
            s.append(", ");
            s.append(pixel_text(d).as_str());
            s.append("]");
            report.check("empty_regions_are_fully_transparent", clean, s.as_str());
        },
        Err(hr) => {
            report.fail(
                "empty_regions_are_fully_transparent",
                two("render failed: ", hr_text(*hr).as_str()).as_str(),
            );
        },
    }
}

// ---------------------------------------------------------------
//                        Alpha handling
// ---------------------------------------------------------------

pub const OPAQUE_SVG: &'static str = r##"<svg xmlns="http://www.w3.org/2000/svg" viewBox="0 0 64 64"><rect width="64" height="64" fill="#2d89ef"/></svg>"##;

/// The report after an opaque fill.
pub open spec fn after_opaque(r: ReportView, result: Result<Thumb, u32>) -> ReportView {
    match result {
        Ok(t) => {
            let p = t.at(32, 32);
            r.check(
                "opaque_fill_is_fully_opaque"@,
                p.a == 255 && coloured(p, 0xEF, 0x89, 0x2D),
                "centre pixel BGRA="@ + pixel_word(p) + ", expected ~[0xEF,0x89,0x2D,0xFF]"@,
            )
        },
        Err(hr) => r.fail("opaque_fill_is_fully_opaque"@, hr_word(hr)),
    }
}

/// The centre of a thumbnail of 64 by 64 can be read.
pub open spec fn has_centre(result: Result<Thumb, u32>) -> bool {
    result matches Ok(t) ==> t.holds(32, 32)
}

/// Whether the centre of a thumbnail of 64 by 64 can be read.
pub fn centre_readable(result: &Result<Thumb, u32>) -> (r: bool)
    ensures
        r == has_centre(*result),
{
    match result {
        Ok(t) => t.has_pixel(32, 32),
        Err(_) => true,
    }
}

pub fn judge_opaque(report: &mut Report, result: &Result<Thumb, u32>)
    requires
        has_centre(*result),
    ensures
        final(report)@ == after_opaque(old(report)@, *result),
{
    match result {
        Ok(t) => {
            let p: [u8; 4] = t.pixel(32, 32);
            let colour_ok: bool = near(p[0], 0xEF) && near(p[1], 0x89) && near(p[2], 0x2D);
            report.check(
                "opaque_fill_is_fully_opaque",
                p[3] == 255 && colour_ok,
                three(
                    "centre pixel BGRA=",
                    pixel_text(p).as_str(),
                    ", expected ~[0xEF,0x89,0x2D,0xFF]",
                ).as_str(),
            );
        },
        Err(hr) => {
            report.fail("opaque_fill_is_fully_opaque", hr_text(*hr).as_str());
        },
    }
}

/// A white fill at half opacity. Premultiplied it would be about 128 in every
/// channel; after correct un-premultiplication the colour is back at about 255.
pub const HALF_ALPHA_SVG: &'static str = r##"<svg xmlns="http://www.w3.org/2000/svg" viewBox="0 0 64 64"><rect width="64" height="64" fill="#ffffff" fill-opacity="0.5"/></svg>"##;

/// The report after a fill at half opacity.
pub open spec fn after_half_alpha(r: ReportView, result: Result<Thumb, u32>) -> ReportView {
    match result {
        Ok(t) => {
            let p = t.at(32, 32);
            r.check(
                "half_alpha_is_unpremultiplied"@,
                100 <= p.a <= 160 && p.b >= 240 && p.g >= 240 && p.r >= 240,
                "centre pixel BGRA="@ + pixel_word(p)
                    + "; expected colour channels restored to ~255 with alpha ~128 (premultiplied output would read ~128 in every channel)"@,
            )
        },
        Err(hr) => r.fail("half_alpha_is_unpremultiplied"@, hr_word(hr)),
    }
}

pub fn judge_half_alpha(report: &mut Report, result: &Result<Thumb, u32>)
    requires
        has_centre(*result),
    ensures
        final(report)@ == after_half_alpha(old(report)@, *result),
{
    match result {
        Ok(t) => {
            let p: [u8; 4] = t.pixel(32, 32);
            let alpha_halfish: bool = 100 <= p[3] && p[3] <= 160;
            let colour_restored: bool = p[0] >= 240 && p[1] >= 240 && p[2] >= 240;
            report.check(
                "half_alpha_is_unpremultiplied",
                alpha_halfish && colour_restored,
                three(
                    "centre pixel BGRA=",
                    pixel_text(p).as_str(),
                    "; expected colour channels restored to ~255 with alpha ~128 (premultiplied output would read ~128 in every channel)",
                ).as_str(),
            );
        },
        Err(hr) => {
            report.fail("half_alpha_is_unpremultiplied", hr_text(*hr).as_str());
        },
    }
}

pub const ZERO_ALPHA_SVG: &'static str = r##"<svg xmlns="http://www.w3.org/2000/svg" viewBox="0 0 64 64"><rect width="64" height="64" fill="#ffffff" fill-opacity="0"/></svg>"##;

/// The report after the check on a fill without opacity.
pub open spec fn after_zero_alpha(
    r: ReportView,
    result: Result<Thumb, u32>,
    coverage: Seq<char>,
) -> ReportView {
    match result {
        Ok(t) => r.check(
            "fully_transparent_stays_transparent"@,
            t.transparent(),
            "coverage="@ + coverage + " (expected 0)"@,
        ),
        Err(hr) => r.fail("fully_transparent_stays_transparent"@, hr_word(hr)),
    }
}

/// `coverage` is the covered fraction of the thumbnail with three decimals.
pub fn judge_zero_alpha(report: &mut Report, result: &Result<Thumb, u32>, coverage: &str)
    ensures
        final(report)@ == after_zero_alpha(old(report)@, *result, coverage@),
{
    match result {
        Ok(t) => {
            report.check(
                "fully_transparent_stays_transparent",
                t.is_fully_transparent(),
                three("coverage=", coverage, " (expected 0)").as_str(),
            );
        },
        Err(hr) => {
            report.fail("fully_transparent_stays_transparent", hr_text(*hr).as_str());
        },
    }
}

/// A gradient from red on the left to blue on the right.
pub const GRADIENT_SVG: &'static str = r##"<svg xmlns="http://www.w3.org/2000/svg" viewBox="0 0 64 64"><defs><linearGradient id="g" x1="0" y1="0" x2="1" y2="0"><stop offset="0" stop-color="#ff0000"/><stop offset="1" stop-color="#0000ff"/></linearGradient></defs><rect width="64" height="64" fill="url(#g)"/></svg>"##;

/// The two ends of the gradient can be read.
pub open spec fn has_ends(result: Result<Thumb, u32>) -> bool {
    result matches Ok(t) ==> t.holds(4, 32) && t.holds(59, 32)
}

/// Whether the two ends of the gradient can be read.
pub fn ends_readable(result: &Result<Thumb, u32>) -> (r: bool)
    ensures
        r == has_ends(*result),
{
    match result {
        Ok(t) => t.has_pixel(4, 32) && t.has_pixel(59, 32),
        Err(_) => true,
    }
}

/// The report after a gradient.
pub open spec fn after_gradient(r: ReportView, result: Result<Thumb, u32>) -> ReportView {
    match result {
        Ok(t) => {
            let left = t.at(4, 32);
            let right = t.at(59, 32);
            r.check(
                "gradient_produces_varied_pixels"@,
                !t.uniform() && left.r > left.b && right.b > right.r,
                "left BGRA="@ + pixel_word(left) + " right BGRA="@ + pixel_word(right)
                    + " uniform="@ + bool_word(t.uniform()),
            )
        },
        Err(hr) => r.fail("gradient_produces_varied_pixels"@, hr_word(hr)),
    }
}

pub fn judge_gradient(report: &mut Report, result: &Result<Thumb, u32>)
    requires
        has_ends(*result),
    ensures
        final(report)@ == after_gradient(old(report)@, *result),
{
    match result {
        Ok(t) => {
            let left: [u8; 4] = t.pixel(4, 32);
            let right: [u8; 4] = t.pixel(59, 32);
            let uniform: bool = t.is_uniform();
            let varied: bool = !uniform && left[2] > left[0] && right[0] > right[2];
            let mut s: String = three("left BGRA=", pixel_text(left).as_str(), " right BGRA=");
            s.append(pixel_text(right).as_str());
            s.append(" uniform=");
            s.append(bool_text(uniform));
            report.check("gradient_produces_varied_pixels", varied, s.as_str());
        },
        Err(hr) => {
            report.fail("gradient_produces_varied_pixels", hr_text(*hr).as_str());
        },
    }
}

// ---------------------------------------------------------------
//                        CSS semantics
// ---------------------------------------------------------------
//
// The provider's whole reason for touching the document is that the renderer
// does not apply style rules itself. These checks verify that the rewriting
// produces the colours that the rules say it should.

/// A document of 64 by 64 with a style sheet, where there is one, and a body.
pub open spec fn styled_document(style: Seq<char>, body: Seq<char>) -> Seq<char> {
    if style.len() == 0 {
        r#"<svg xmlns="http://www.w3.org/2000/svg" viewBox="0 0 64 64">"#@ + body + "</svg>"@
    } else {
        r#"<svg xmlns="http://www.w3.org/2000/svg" viewBox="0 0 64 64"><style>"#@ + style
            + "</style>"@ + body + "</svg>"@
    }
}

pub fn style_svg(style: &str, body: &str) -> (s: String)
    ensures
        s@ == styled_document(style@, body@),
{
    if style.unicode_len() == 0 {
        three(r#"<svg xmlns="http://www.w3.org/2000/svg" viewBox="0 0 64 64">"#, body, "</svg>")
    } else {
        five(
            r#"<svg xmlns="http://www.w3.org/2000/svg" viewBox="0 0 64 64"><style>"#,
            style,
            "</style>",
            body,
            "</svg>",
        )
    }
}

/// A document, and the colour that its centre must have.
pub struct StyleCase {
    pub name: &'static str,
    pub svg: String,
    pub blue: u8,
    pub green: u8,
    pub red: u8,
}

/// What a `StyleCase` stands for.
pub struct StyleView {
    pub name: Seq<char>,
    pub svg: Seq<char>,
    pub blue: u8,
    pub green: u8,
    pub red: u8,
}

impl View for StyleCase {
    type V = StyleView;

    open spec fn view(&self) -> StyleView {
        StyleView {
            name: self.name@,
            svg: self.svg@,
            blue: self.blue,
            green: self.green,
            red: self.red,
        }
    }
}

pub open spec fn style_views(cases: Seq<StyleCase>) -> Seq<StyleView> {
    cases.map_values(|c: StyleCase| c@)
}

/// A document whose centre must be the green `#00a000`.
pub open spec fn green(name: Seq<char>, style: Seq<char>, body: Seq<char>) -> StyleView {
    StyleView { name, svg: styled_document(style, body), blue: 0x00, green: 0xA0, red: 0x00 }
}

pub open spec fn style_list() -> Seq<StyleView> {
    seq![
        green(
            "css_class_selector_applied"@,
            ".a{fill:#00a000}"@,
            r#"<rect class="a" width="64" height="64"/>"#@,
        ),
        green(
            "css_element_selector_applied"@,
            "rect{fill:#00a000}"@,
            r#"<rect width="64" height="64"/>"#@,
        ),
        green(
            "css_selector_list_applied"@,
            ".x,.a,.y{fill:#00a000}"@,
            r#"<rect class="a" width="64" height="64"/>"#@,
        ),
        green(
            "css_second_of_multiple_classes_applied"@,
            ".b{fill:#00a000}"@,
            r#"<rect class="unrelated b" width="64" height="64"/>"#@,
        ),
        green(
            "css_later_duplicate_rule_wins"@,
            ".a{fill:#ff0000}.a{fill:#00a000}"@,
            r#"<rect class="a" width="64" height="64"/>"#@,
        ),
        green(
            "css_inline_style_beats_class_rule"@,
            ".a{fill:#ff0000}"@,
            r#"<rect class="a" width="64" height="64" style="fill:#00a000"/>"#@,
        ),
        green(
            "css_comment_does_not_hide_following_rule"@,
            "/* comment */.a{fill:#00a000}"@,
            r#"<rect class="a" width="64" height="64"/>"#@,
        ),
        green(
            "css_commented_out_rule_is_ignored"@,
            "/*.a{fill:#ff0000}*/.a{fill:#00a000}"@,
            r#"<rect class="a" width="64" height="64"/>"#@,
        ),
        green(
            "css_at_media_contents_applied"@,
            "@media screen{.a{fill:#00a000}}"@,
            r#"<rect class="a" width="64" height="64"/>"#@,
        ),
        green(
            "css_important_lowercase_stripped"@,
            ".a{fill:#00a000 !important}"@,
            r#"<rect class="a" width="64" height="64"/>"#@,
        ),
        green(
            "css_important_inline_lowercase_stripped"@,
            ""@,
            r#"<rect width="64" height="64" style="fill:#00a000 !important"/>"#@,
        ),
    ]
}

fn add_green(v: &mut Vec<StyleCase>, name: &'static str, style: &str, body: &str)
    ensures
        style_views(final(v)@) == style_views(old(v)@).push(green(name@, style@, body@)),
{
    let c: StyleCase = StyleCase {
        name,
        svg: style_svg(style, body),
        blue: 0x00,
        green: 0xA0,
        red: 0x00,
    };
    v.push(c);
    assert(style_views(v@) =~= style_views(old(v)@).push(c@));
}

/// The documents whose centre must have the colour that their rules ask for.
pub fn style_cases() -> (v: Vec<StyleCase>)
    ensures
        style_views(v@) == style_list(),
{
    let mut v: Vec<StyleCase> = Vec::new();
    assert(style_views(v@) =~= Seq::<StyleView>::empty());
    add_green(
        &mut v,
        "css_class_selector_applied",
        ".a{fill:#00a000}",
        r#"<rect class="a" width="64" height="64"/>"#,
    );
    add_green(
        &mut v,
        "css_element_selector_applied",
        "rect{fill:#00a000}",
        r#"<rect width="64" height="64"/>"#,
    );
    add_green(
        &mut v,
        "css_selector_list_applied",
        ".x,.a,.y{fill:#00a000}",
        r#"<rect class="a" width="64" height="64"/>"#,
    );
    add_green(
        &mut v,
        "css_second_of_multiple_classes_applied",
        ".b{fill:#00a000}",
        r#"<rect class="unrelated b" width="64" height="64"/>"#,
    );
    add_green(
        &mut v,
        "css_later_duplicate_rule_wins",
        ".a{fill:#ff0000}.a{fill:#00a000}",
        r#"<rect class="a" width="64" height="64"/>"#,
    );
    add_green(
        &mut v,
        "css_inline_style_beats_class_rule",
        ".a{fill:#ff0000}",
        r#"<rect class="a" width="64" height="64" style="fill:#00a000"/>"#,
    );
    add_green(
        &mut v,
        "css_comment_does_not_hide_following_rule",
        "/* comment */.a{fill:#00a000}",
        r#"<rect class="a" width="64" height="64"/>"#,
    );
    add_green(
        &mut v,
        "css_commented_out_rule_is_ignored",
        "/*.a{fill:#ff0000}*/.a{fill:#00a000}",
        r#"<rect class="a" width="64" height="64"/>"#,
    );
    add_green(
        &mut v,
        "css_at_media_contents_applied",
        "@media screen{.a{fill:#00a000}}",
        r#"<rect class="a" width="64" height="64"/>"#,
    );
    add_green(
        &mut v,
        "css_important_lowercase_stripped",
        ".a{fill:#00a000 !important}",
        r#"<rect class="a" width="64" height="64"/>"#,
    );
    add_green(
        &mut v,
        "css_important_inline_lowercase_stripped",
        "",
        r#"<rect width="64" height="64" style="fill:#00a000 !important"/>"#,
    );
    v
}

/// The centre has the colour that the rules ask for, and is nearly opaque.
pub open spec fn applied(p: Bgra, c: StyleView) -> bool {
    coloured(p, c.blue, c.green, c.red) && p.a > 200
}

/// The report after one of the documents.
pub open spec fn after_style(r: ReportView, c: StyleView, result: Result<Thumb, u32>) -> ReportView {
    match result {
        Ok(t) => r.check(
            c.name,
            applied(t.at(32, 32), c),
            "centre BGRA="@ + pixel_word(t.at(32, 32)) + ", expected ~[0x"@ + hex_byte(c.blue)
                + ",0x"@ + hex_byte(c.green) + ",0x"@ + hex_byte(c.red) + ",0xFF]"@,
        ),
        Err(hr) => r.fail(c.name, "render failed: "@ + hr_word(hr)),
    }
}

pub fn judge_style(report: &mut Report, c: &StyleCase, result: &Result<Thumb, u32>)
    requires
        has_centre(*result),
    ensures
        final(report)@ == after_style(old(report)@, c@, *result),
{
    match result {
        Ok(t) => {
            let p: [u8; 4] = t.pixel(32, 32);
            let ok: bool = near(p[0], c.blue) && near(p[1], c.green) && near(p[2], c.red) && p[3]
                > 200;
            let mut s: String = three("centre BGRA=", pixel_text(p).as_str(), ", expected ~[0x");
            s.append(hex_byte_text(c.blue).as_str());
            s.append(",0x");
            s.append(hex_byte_text(c.green).as_str());
            s.append(",0x");
            s.append(hex_byte_text(c.red).as_str());
            s.append(",0xFF]");
            report.check(c.name, ok, s.as_str());
        },
        Err(hr) => {
            report.fail(c.name, two("render failed: ", hr_text(*hr).as_str()).as_str());
        },
    }
}

/// A spelling of the priority keyword. Keywords are case-insensitive, so a
/// declaration must be applied whichever way it is spelled.
#[derive(Debug, Clone, Copy, PartialEq, Eq, Structural)]
pub enum Spelling {
    Upper,
    Mixed,
}

impl Spelling {
    pub open spec fn token_text(self) -> Seq<char> {
        match self {
            Spelling::Upper => "!IMPORTANT"@,
            Spelling::Mixed => "!ImPoRtAnT"@,
        }
    }

    pub open spec fn name_text(self) -> Seq<char> {
        match self {
            Spelling::Upper => "css_important_uppercase_is_stripped"@,
            Spelling::Mixed => "css_important_mixedcase_is_stripped"@,
        }
    }

    pub open spec fn document_text(self) -> Seq<char> {
        styled_document(
            ".a{fill:#00a000 "@ + self.token_text() + "}"@,
            r#"<rect class="a" width="64" height="64"/>"#@,
        )
    }

    fn token(self) -> (s: &'static str)
        ensures
            s@ == self.token_text(),
    {
        match self {
            Spelling::Upper => "!IMPORTANT",
            Spelling::Mixed => "!ImPoRtAnT",
        }
    }

    pub fn name(self) -> (s: &'static str)
        ensures
            s@ == self.name_text(),
    {
        match self {
            Spelling::Upper => "css_important_uppercase_is_stripped",
            Spelling::Mixed => "css_important_mixedcase_is_stripped",
        }
    }

    pub fn document(self) -> (s: String)
        ensures
            s@ == self.document_text(),
    {
        let style: String = three(".a{fill:#00a000 ", self.token(), "}");
        style_svg(style.as_str(), r#"<rect class="a" width="64" height="64"/>"#)
    }

    /// The report after a document with this spelling.
    pub open spec fn reported(self, r: ReportView, result: Result<Thumb, u32>) -> ReportView {
        match result {
            Ok(t) => r.check(
                self.name_text(),
                coloured(t.at(32, 32), 0x00, 0xA0, 0x00) && t.at(32, 32).a > 200,
                "centre BGRA="@ + pixel_word(t.at(32, 32))
                    + ", expected ~[0x00,0xa0,0x00,0xFF]. CSS keywords are case-insensitive, so `"@
                    + self.token_text()
                    + "` must be stripped exactly like `!important`; the detection scan is case-insensitive but the strip is a case-sensitive replace, so this spelling survives into the document handed to Direct2D."@,
            ),
            Err(hr) => r.fail(self.name_text(), "render failed: "@ + hr_word(hr)),
        }
    }

    pub fn judge(self, report: &mut Report, result: &Result<Thumb, u32>)
        requires
            has_centre(*result),
        ensures
            final(report)@ == self.reported(old(report)@, *result),
    {
        match result {
            Ok(t) => {
                let p: [u8; 4] = t.pixel(32, 32);
                let ok: bool = near(p[0], 0x00) && near(p[1], 0xA0) && near(p[2], 0x00) && p[3]
                    > 200;
                report.check(
                    self.name(),
                    ok,
                    five(
                        "centre BGRA=",
                        pixel_text(p).as_str(),
                        ", expected ~[0x00,0xa0,0x00,0xFF]. CSS keywords are case-insensitive, so `",
                        self.token(),
                        "` must be stripped exactly like `!important`; the detection scan is case-insensitive but the strip is a case-sensitive replace, so this spelling survives into the document handed to Direct2D.",
                    ).as_str(),
                );
            },
            Err(hr) => {
                report.fail(self.name(), two("render failed: ", hr_text(*hr).as_str()).as_str());
            },
        }
    }
}

// ---------------------------------------------------------------
//                      Scaling behaviour
// ---------------------------------------------------------------

/// A small document that must cover a large thumbnail.
pub const SCALED_SVG: &'static str = r##"<svg xmlns="http://www.w3.org/2000/svg" width="16" height="16" viewBox="0 0 16 16"><rect width="16" height="16" fill="#0a0"/></svg>"##;

/// The same without a view box, which the provider has to synthesise.
pub const UNBOXED_SVG: &'static str = r##"<svg xmlns="http://www.w3.org/2000/svg" width="16" height="16"><rect width="16" height="16" fill="#0a0"/></svg>"##;

/// A wide document for a square thumbnail.
pub const WIDE_SVG: &'static str = r##"<svg xmlns="http://www.w3.org/2000/svg" viewBox="0 0 256 16"><rect width="256" height="16" fill="#0a0"/></svg>"##;

/// The report after the check on scaled artwork.
pub open spec fn after_scaled(
    r: ReportView,
    result: Result<Thumb, u32>,
    coverage: Seq<char>,
) -> ReportView {
    match result {
        Ok(t) => r.check(
            "artwork_scales_to_fill_requested_size"@,
            t.covered_above(95, 100),
            "coverage="@ + coverage
                + " at 256x256 for a 16x16 source - low coverage means the artwork was not scaled up to the thumbnail"@,
        ),
        Err(hr) => r.fail("artwork_scales_to_fill_requested_size"@, hr_word(hr)),
    }
}

/// The artwork must fill the thumbnail rather than sit in a corner at its own
/// size. `coverage` is the covered fraction with three decimals.
pub fn judge_scaled(report: &mut Report, result: &Result<Thumb, u32>, coverage: &str)
    ensures
        final(report)@ == after_scaled(old(report)@, *result, coverage@),
{
    match result {
        Ok(t) => {
            report.check(
                "artwork_scales_to_fill_requested_size",
                t.coverage_above(95, 100),
                three(
                    "coverage=",
                    coverage,
                    " at 256x256 for a 16x16 source - low coverage means the artwork was not scaled up to the thumbnail",
                ).as_str(),
            );
        },
        Err(hr) => {
            report.fail("artwork_scales_to_fill_requested_size", hr_text(*hr).as_str());
        },
    }
}

/// The report after the check on artwork without a view box.
pub open spec fn after_unboxed(
    r: ReportView,
    result: Result<Thumb, u32>,
    coverage: Seq<char>,
) -> ReportView {
    match result {
        Ok(t) => r.check(
            "viewbox_synthesised_when_absent"@,
            t.covered_above(95, 100),
            "coverage="@ + coverage + " at 256x256 for a viewBox-less 16x16 source"@,
        ),
        Err(hr) => r.fail("viewbox_synthesised_when_absent"@, hr_word(hr)),
    }
}

pub fn judge_unboxed(report: &mut Report, result: &Result<Thumb, u32>, coverage: &str)
    ensures
        final(report)@ == after_unboxed(old(report)@, *result, coverage@),
{
    match result {
        Ok(t) => {
            report.check(
                "viewbox_synthesised_when_absent",
                t.coverage_above(95, 100),
                three(
                    "coverage=",
                    coverage,
                    " at 256x256 for a viewBox-less 16x16 source",
                ).as_str(),
            );
        },
        Err(hr) => {
            report.fail("viewbox_synthesised_when_absent", hr_text(*hr).as_str());
        },
    }
}

/// The report after the check on a wide document.
pub open spec fn after_wide(
    r: ReportView,
    result: Result<Thumb, u32>,
    coverage: Seq<char>,
) -> ReportView {
    match result {
        Ok(t) => r.check(
            "aspect_ratio_handling_is_consistent"@,
            t.covered_above(2, 100) && t.classified() == Rendering::Real,
            "coverage="@ + coverage + " classification="@ + t.classified().word(),
        ),
        Err(hr) => r.fail("aspect_ratio_handling_is_consistent"@, hr_word(hr)),
    }
}

/// Whatever the policy, letterbox or stretch, the image must not be empty.
pub fn judge_wide(report: &mut Report, result: &Result<Thumb, u32>, coverage: &str)
    ensures
        final(report)@ == after_wide(old(report)@, *result, coverage@),
{
    match result {
        Ok(t) => {
            let kind: Rendering = t.classify();
            let mut s: String = three("coverage=", coverage, " classification=");
            s.append(kind.text());
            report.check(
                "aspect_ratio_handling_is_consistent",
                t.coverage_above(2, 100) && kind == Rendering::Real,
                s.as_str(),
            );
        },
        Err(hr) => {
            report.fail("aspect_ratio_handling_is_consistent", hr_text(*hr).as_str());
        },
    }
}

// ---------------------------------------------------------------
//                     Fallback detection
// ---------------------------------------------------------------

/// Bytes that must not render as artwork.
pub const NOT_AN_SVG: &'static str = "this is definitely not an svg";

/// The report after the check on invalid input.
pub open spec fn after_invalid_input(r: ReportView, result: Result<Thumb, u32>) -> ReportView {
    match result {
        Ok(t) => r.check(
            "invalid_input_produces_the_fallback"@,
            t.classified().fallback() || t.classified() == Rendering::Transparent,
            "garbage input classified as "@ + t.classified().word()
                + " - the fallback detector must recognise this for the other suites' no-fallback assertions to mean anything"@,
        ),
        Err(hr) => r.pass(
            "invalid_input_produces_the_fallback"@,
            "garbage input failed outright ("@ + hr_word(hr)
                + "), which is also acceptable"@,
        ),
    }
}

/// Validates the detector itself: every other suite relies on being able to tell
/// a fallback from real artwork.
pub fn judge_invalid_input(report: &mut Report, result: &Result<Thumb, u32>)
    ensures
        final(report)@ == after_invalid_input(old(report)@, *result),
{
    match result {
        Ok(t) => {
            let kind: Rendering = t.classify();
            report.check(
                "invalid_input_produces_the_fallback",
                kind.is_fallback() || kind == Rendering::Transparent,
                three(
                    "garbage input classified as ",
                    kind.text(),
                    " - the fallback detector must recognise this for the other suites' no-fallback assertions to mean anything",
                ).as_str(),
            );
        },
        Err(hr) => {
            report.pass(
                "invalid_input_produces_the_fallback",
                three(
                    "garbage input failed outright (",
                    hr_text(*hr).as_str(),
                    "), which is also acceptable",
                ).as_str(),
            );
        },
    }
}

/// The report after the check on valid input.
pub open spec fn after_valid_input(r: ReportView, result: Result<Thumb, u32>) -> ReportView {
    match result {
        Ok(t) => r.check(
            "valid_input_is_never_a_fallback"@,
            t.classified() == Rendering::Real,
            "classification="@ + t.classified().word(),
        ),
        Err(hr) => r.fail("valid_input_is_never_a_fallback"@, hr_word(hr)),
    }
}

pub fn judge_valid_input(report: &mut Report, result: &Result<Thumb, u32>)
    ensures
        final(report)@ == after_valid_input(old(report)@, *result),
{
    match result {
        Ok(t) => {
            let kind: Rendering = t.classify();
            report.check(
                "valid_input_is_never_a_fallback",
                kind == Rendering::Real,
                two("classification=", kind.text()).as_str(),
            );
        },
        Err(hr) => {
            report.fail("valid_input_is_never_a_fallback", hr_text(*hr).as_str());
        },
    }
}

// ---------------------------------------------------------------
//                             Cases
// ---------------------------------------------------------------

/// One case for every size.
pub open spec fn sweep_cases() -> Seq<Seq<char>> {
    sweep().map_values(|size: u32| sweep_name(size))
}

/// The cases about repetition and about alpha.
pub open spec fn pixel_cases() -> Seq<Seq<char>> {
    seq![
        "repeated_renders_are_identical"@,
        "interleaved_inputs_do_not_contaminate"@,
        "empty_regions_are_fully_transparent"@,
        "opaque_fill_is_fully_opaque"@,
        "half_alpha_is_unpremultiplied"@,
        "fully_transparent_stays_transparent"@,
        "gradient_produces_varied_pixels"@,
    ]
}

/// One case for every styled document.
pub open spec fn styled_cases() -> Seq<Seq<char>> {
    style_list().map_values(|c: StyleView| c.name)
}

/// One case for either spelling.
pub open spec fn spelling_cases() -> Seq<Seq<char>> {
    seq![Spelling::Upper.name_text(), Spelling::Mixed.name_text()]
}

/// The cases about scaling and about fallbacks.
pub open spec fn scaling_cases() -> Seq<Seq<char>> {
    seq![
        "artwork_scales_to_fill_requested_size"@,
        "viewbox_synthesised_when_absent"@,
        "aspect_ratio_handling_is_consistent"@,
        "invalid_input_produces_the_fallback"@,
        "valid_input_is_never_a_fallback"@,
    ]
}

/// Every case of the suite, in order.
pub open spec fn case_list() -> Seq<Seq<char>> {
    sweep_cases() + pixel_cases() + styled_cases() + spelling_cases() + scaling_cases()
}

fn sweep_names() -> (v: Vec<String>)
    ensures
        texts(v@) == sweep_cases(),
{
    let sizes: Vec<u32> = sweep_sizes();
    let mut v: Vec<String> = no_texts();
    let mut i: usize = 0;
    assert(texts(v@) =~= sweep_cases().take(0));
    while i < sizes.len()
        invariant
            i <= sizes@.len(),
            sizes@ == sweep(),
            texts(v@) == sweep_cases().take(i as int),
        decreases sizes@.len() - i,
    {
        push_text(&mut v, sweep_case(sizes[i]));
        assert(sweep_cases().take(i + 1) =~= sweep_cases().take(i as int).push(sweep_cases()[i as int]));
        i += 1;
    }
    assert(sweep_cases().take(i as int) =~= sweep_cases());
    v
}

fn pixel_names() -> (v: Vec<String>)
    ensures
        texts(v@) == pixel_cases(),
{
    let mut v: Vec<String> = no_texts();
    push_text(&mut v, "repeated_renders_are_identical".to_owned());
    push_text(&mut v, "interleaved_inputs_do_not_contaminate".to_owned());
    push_text(&mut v, "empty_regions_are_fully_transparent".to_owned());
    push_text(&mut v, "opaque_fill_is_fully_opaque".to_owned());
    push_text(&mut v, "half_alpha_is_unpremultiplied".to_owned());
    push_text(&mut v, "fully_transparent_stays_transparent".to_owned());
    push_text(&mut v, "gradient_produces_varied_pixels".to_owned());
    assert(texts(v@) =~= pixel_cases());
    v
}

fn styled_names() -> (v: Vec<String>)
    ensures
        texts(v@) == styled_cases(),
{
    let cases: Vec<StyleCase> = style_cases();
    let mut v: Vec<String> = no_texts();
    let mut i: usize = 0;
    assert(texts(v@) =~= styled_cases().take(0));
    while i < cases.len()
        invariant
            i <= cases@.len(),
            style_views(cases@) == style_list(),
            texts(v@) == styled_cases().take(i as int),
        decreases cases@.len() - i,
    {
        assert(style_list()[i as int] == cases@[i as int]@);
        push_text(&mut v, cases[i].name.to_owned());
        assert(styled_cases().take(i + 1) =~= styled_cases().take(i as int).push(styled_cases()[i as int]));
        i += 1;
    }
    assert(styled_cases().take(i as int) =~= styled_cases());
    v
}

fn scaling_names() -> (v: Vec<String>)
    ensures
        texts(v@) == scaling_cases(),
{
    let mut v: Vec<String> = no_texts();
    push_text(&mut v, "artwork_scales_to_fill_requested_size".to_owned());
    push_text(&mut v, "viewbox_synthesised_when_absent".to_owned());
    push_text(&mut v, "aspect_ratio_handling_is_consistent".to_owned());
    push_text(&mut v, "invalid_input_produces_the_fallback".to_owned());
    push_text(&mut v, "valid_input_is_never_a_fallback".to_owned());
    assert(texts(v@) =~= scaling_cases());
    v
}

/// The names of the cases of the suite.
pub fn case_names() -> (v: Vec<String>)
    ensures
        texts(v@) == case_list(),
{
    let mut v: Vec<String> = sweep_names();
    extend_texts(&mut v, pixel_names());
    extend_texts(&mut v, styled_names());
    let mut spelt: Vec<String> = no_texts();
    push_text(&mut spelt, Spelling::Upper.name().to_owned());
    push_text(&mut spelt, Spelling::Mixed.name().to_owned());
    assert(texts(spelt@) =~= spelling_cases());
    extend_texts(&mut v, spelt);
    extend_texts(&mut v, scaling_names());
    v
}

// ---------------------------------------------------------------
//                     What the checks ask for
// ---------------------------------------------------------------

/// Colours are compared channel by channel: a document counts as styled exactly when
/// blue, green and red each lie within 20 of what the rules ask for and the pixel is
/// nearly opaque. One channel that is off is enough to fail.
pub proof fn styling_is_judged_on_every_channel(p: Bgra, c: StyleView)
    ensures
        applied(p, c) <==> {
            &&& c.blue - 20 <= p.b <= c.blue + 20
            &&& c.green - 20 <= p.g <= c.green + 20
            &&& c.red - 20 <= p.r <= c.red + 20
            &&& p.a > 200
        },
{
}

/// Closeness has no direction, and does not stretch: it holds of a value and itself, and
/// of no two values more than 20 apart.
pub proof fn close_means_within_twenty(a: u8, b: u8)
    ensures
        close(a, a),
        close(a, b) == close(b, a),
        close(a, b) <==> (a <= b && b - a <= 20) || (b <= a && a - b <= 20),
{
}

/// Every document with a style sheet asks for the same green, which is far from black,
/// from white and from the red that losing rules ask for: a document whose rules were
/// not applied never passes.
pub proof fn unstyled_documents_never_pass(i: int, p: Bgra)
    requires
        0 <= i < style_list().len(),
        p.g < 140 || p.r > 20 || p.b > 20,
    ensures
        !applied(p, style_list()[i]),
{
}

/// In particular the default fill of a shape, which is black, never passes for applied.
pub proof fn the_default_fill_never_passes(i: int, alpha: u8)
    requires
        0 <= i < style_list().len(),
    ensures
        !applied(Bgra { b: 0, g: 0, r: 0, a: alpha }, style_list()[i]),
        applied(Bgra { b: 0, g: 160, r: 0, a: 255 }, style_list()[i]),
{
}

/// Every styled document spells out the green that its centre must have.
pub proof fn styled_documents_name_their_colour(i: int)
    requires
        0 <= i < style_list().len(),
    ensures
        style_list().len() == 11,
        occurs("#00a000"@, style_list()[i].svg),
        style_list()[i].blue == 0,
        style_list()[i].green == 160,
        style_list()[i].red == 0,
{
    let colour = "#00a000"@;
    reveal_strlit("#00a000");
    reveal_strlit(".a{fill:#00a000}");
    reveal_strlit("rect{fill:#00a000}");
    reveal_strlit(".x,.a,.y{fill:#00a000}");
    reveal_strlit(".b{fill:#00a000}");
    reveal_strlit(".a{fill:#ff0000}.a{fill:#00a000}");
    reveal_strlit(".a{fill:#ff0000}");
    reveal_strlit("/* comment */.a{fill:#00a000}");
    reveal_strlit("/*.a{fill:#ff0000}*/.a{fill:#00a000}");
    reveal_strlit("@media screen{.a{fill:#00a000}}");
    reveal_strlit(".a{fill:#00a000 !important}");
    reveal_strlit("");
    reveal_strlit(r#"<rect class="a" width="64" height="64" style="fill:#00a000"/>"#);
    reveal_strlit(r#"<rect width="64" height="64" style="fill:#00a000 !important"/>"#);
    if i == 0 {
        lemma_colour_in_style(".a{fill:#00a000}"@, r#"<rect class="a" width="64" height="64"/>"#@, 8);
    } else if i == 1 {
        lemma_colour_in_style("rect{fill:#00a000}"@, r#"<rect width="64" height="64"/>"#@, 10);
    } else if i == 2 {
        lemma_colour_in_style(
            ".x,.a,.y{fill:#00a000}"@,
            r#"<rect class="a" width="64" height="64"/>"#@,
            14,
        );
    } else if i == 3 {
        lemma_colour_in_style(
            ".b{fill:#00a000}"@,
            r#"<rect class="unrelated b" width="64" height="64"/>"#@,
            8,
        );
    } else if i == 4 {
        lemma_colour_in_style(
            ".a{fill:#ff0000}.a{fill:#00a000}"@,
            r#"<rect class="a" width="64" height="64"/>"#@,
            24,
        );
    } else if i == 5 {
        lemma_colour_in_body(
            ".a{fill:#ff0000}"@,
            r#"<rect class="a" width="64" height="64" style="fill:#00a000"/>"#@,
            51,
        );
    } else if i == 6 {
        lemma_colour_in_style(
            "/* comment */.a{fill:#00a000}"@,
            r#"<rect class="a" width="64" height="64"/>"#@,
            21,
        );
    } else if i == 7 {
        lemma_colour_in_style(
            "/*.a{fill:#ff0000}*/.a{fill:#00a000}"@,
            r#"<rect class="a" width="64" height="64"/>"#@,
            28,
        );
    } else if i == 8 {
        lemma_colour_in_style(
            "@media screen{.a{fill:#00a000}}"@,
            r#"<rect class="a" width="64" height="64"/>"#@,
            22,
        );
    } else if i == 9 {
        lemma_colour_in_style(
            ".a{fill:#00a000 !important}"@,
            r#"<rect class="a" width="64" height="64"/>"#@,
            8,
        );
    } else {
        lemma_colour_in_body(
            ""@,
            r#"<rect width="64" height="64" style="fill:#00a000 !important"/>"#@,
            41,
        );
    }
}

proof fn lemma_colour_in_style(style: Seq<char>, body: Seq<char>, at: int)
    requires
        style.len() > 0,
        0 <= at,
        at + "#00a000"@.len() <= style.len(),
        style.subrange(at, at + "#00a000"@.len()) =~= "#00a000"@,
    ensures
        occurs("#00a000"@, styled_document(style, body)),
{
    assert(occurs_at("#00a000"@, style, at));
    let a = r#"<svg xmlns="http://www.w3.org/2000/svg" viewBox="0 0 64 64"><style>"#@;
    let b = "</style>"@ + body + "</svg>"@;
    lemma_occurs_in_more("#00a000"@, a, style, b);
    assert(a + style + b =~= styled_document(style, body));
}

proof fn lemma_colour_in_body(style: Seq<char>, body: Seq<char>, at: int)
    requires
        0 <= at,
        at + "#00a000"@.len() <= body.len(),
        body.subrange(at, at + "#00a000"@.len()) =~= "#00a000"@,
    ensures
        occurs("#00a000"@, styled_document(style, body)),
{
    assert(occurs_at("#00a000"@, body, at));
    let b = "</svg>"@;
    if style.len() == 0 {
        let a = r#"<svg xmlns="http://www.w3.org/2000/svg" viewBox="0 0 64 64">"#@;
        lemma_occurs_in_more("#00a000"@, a, body, b);
    } else {
        let a = r#"<svg xmlns="http://www.w3.org/2000/svg" viewBox="0 0 64 64"><style>"#@ + style
            + "</style>"@;
        lemma_occurs_in_more("#00a000"@, a, body, b);
    }
}

/// Whatever its case, a character in lower case.
pub open spec fn lowered(c: char) -> char {
    if 'A' <= c <= 'Z' {
        (c as u32 + 32) as char
    } else {
        c
    }
}

/// Both spellings are the priority keyword but for their case, and neither is the plain
/// lower-case one.
pub proof fn spellings_differ_in_case_only(s: Spelling)
    ensures
        s.token_text().map_values(|c: char| lowered(c)) == "!important"@,
        s.token_text() != "!important"@,
        Spelling::Upper.token_text() != Spelling::Mixed.token_text(),
        Spelling::Upper.name_text() != Spelling::Mixed.name_text(),
        occurs(s.token_text(), s.document_text()),
{
    reveal_strlit("!important");
    reveal_strlit("!IMPORTANT");
    reveal_strlit("!ImPoRtAnT");
    reveal_strlit("css_important_uppercase_is_stripped");
    reveal_strlit("css_important_mixedcase_is_stripped");
    assert(s.token_text().map_values(|c: char| lowered(c)) =~= "!important"@);
    assert(s.token_text()[1] == 'I');
    assert("!important"@[1] == 'i');
    assert(Spelling::Upper.token_text()[2] == 'M');
    assert(Spelling::Mixed.token_text()[2] == 'm');
    assert(Spelling::Upper.name_text()[14] == 'u');
    assert(Spelling::Mixed.name_text()[14] == 'm');
    let style = ".a{fill:#00a000 "@ + s.token_text() + "}"@;
    let body = r#"<rect class="a" width="64" height="64"/>"#@;
    let a = r#"<svg xmlns="http://www.w3.org/2000/svg" viewBox="0 0 64 64"><style>"#@;
    let b = "</style>"@ + body + "</svg>"@;
    lemma_occurs_between(".a{fill:#00a000 "@, s.token_text(), "}"@);
    lemma_occurs_in_more(s.token_text(), a, style, b);
    assert(style.len() > 0);
    assert(a + style + b =~= styled_document(style, body));
}

/// The sizes rise from one pixel to the largest that the provider accepts, each of them
/// once; what the shell asks for is among them, and so are awkward values next to it.
pub proof fn the_sweep_covers_what_is_accepted()
    ensures
        sweep().len() == 19,
        sweep()[0] == 1,
        sweep()[18] == 4096,
        forall|i: int, j: int| 0 <= i < j < 19 ==> #[trigger] sweep()[i] < #[trigger] sweep()[j],
        forall|k: u32|
            k == 16 || k == 24 || k == 32 || k == 48 || k == 64 || k == 96 || k == 128 || k == 256 || k
                == 512 || k == 1024 || k == 2048 ==> #[trigger] sweep().contains(k),
        forall|k: u32|
            k == 2 || k == 3 || k == 7 || k == 129 || k == 255 || k == 257 ==> #[trigger] sweep().contains(
                k,
            ),
{
    let s = sweep();
    assert(s[1] == 2 && s[2] == 3 && s[3] == 7 && s[4] == 16 && s[5] == 24 && s[6] == 32 && s[7] == 48
        && s[8] == 64 && s[9] == 96 && s[10] == 128 && s[11] == 129 && s[12] == 255 && s[13] == 256
        && s[14] == 257 && s[15] == 512 && s[16] == 1024 && s[17] == 2048);
}

/// A render of the sweep passes exactly when it succeeded with both sides as asked for,
/// says that it has alpha, and, from three pixels on, shows artwork.
pub proof fn what_a_size_must_give(
    r: ReportView,
    size: u32,
    result: Result<Thumb, u32>,
    coverage: Seq<char>,
)
    ensures
        one_check(
            r,
            after_size(r, size, result, coverage),
            sweep_name(size),
            outcome_of(
                result is Ok && result->Ok_0.width == size && result->Ok_0.height == size
                    && result->Ok_0.alpha == 2 && (size >= 3 ==> result->Ok_0.classified()
                    == Rendering::Real),
            ),
        ),
{
}

/// Repeated renders pass exactly when none failed and none differed; the checks that
/// follow make sense unless one failed.
pub proof fn what_repeated_renders_must_give(r: ReportView, results: Seq<Result<Thumb, u32>>)
    requires
        results.len() == REPEATS,
    ensures
        REPEATS == 25,
        one_check(
            r,
            RepeatsView::after(results).reported(r),
            "repeated_renders_are_identical"@,
            outcome_of(
                forall|i: int|
                    0 <= i < results.len() ==> (#[trigger] results[i]) is Ok && results[0] is Ok
                        && results[i]->Ok_0.pixels@ == results[0]->Ok_0.pixels@,
            ),
        ),
{
    lemma_after(results);
    assert(all_alike(results) == (forall|i: int|
        0 <= i < results.len() ==> (#[trigger] results[i]) is Ok && results[0] is Ok
            && results[i]->Ok_0.pixels@ == results[0]->Ok_0.pixels@));
}

/// Two renders of the same document pass exactly when both succeeded with the same
/// bytes; the corners exactly when the render succeeded and all four are without alpha.
pub proof fn what_clean_buffers_must_give(
    r: ReportView,
    first: Result<Thumb, u32>,
    second: Result<Thumb, u32>,
    corners: Result<Thumb, u32>,
)
    ensures
        one_check(
            r,
            after_interleaved(r, first, second),
            "interleaved_inputs_do_not_contaminate"@,
            outcome_of(
                first is Ok && second is Ok && first->Ok_0.pixels@ == second->Ok_0.pixels@,
            ),
        ),
        one_check(
            r,
            after_corners(r, corners),
            "empty_regions_are_fully_transparent"@,
            outcome_of(
                corners is Ok && forall|x: u32, y: u32|
                    (x == 1 || x == 126) && (y == 1 || y == 126) ==> (#[trigger] corners->Ok_0.at(
                        x,
                        y,
                    )).a == 0,
            ),
        ),
{
    if corners is Ok {
        let t = corners->Ok_0;
        if forall|x: u32, y: u32|
            (x == 1 || x == 126) && (y == 1 || y == 126) ==> (#[trigger] t.at(x, y)).a == 0 {
            assert(t.at(1, 1).a == 0 && t.at(126, 1).a == 0 && t.at(1, 126).a == 0 && t.at(
                126,
                126,
            ).a == 0);
        }
    }
}

/// What the centre of a fill must be: for an opaque fill fully opaque and close to its
/// colour in every channel; at half opacity about half opaque with the colour back at
/// nearly white; without opacity nothing at all anywhere; and for a gradient not
/// uniform, more red than blue on the left and more blue than red on the right.
pub proof fn what_alpha_handling_must_give(
    r: ReportView,
    result: Result<Thumb, u32>,
    coverage: Seq<char>,
)
    ensures
        one_check(
            r,
            after_opaque(r, result),
            "opaque_fill_is_fully_opaque"@,
            outcome_of(
                result is Ok && ({
                    let p = result->Ok_0.at(32, 32);
                    p.a == 255 && 219 <= p.b && 117 <= p.g <= 157 && 25 <= p.r <= 65
                }),
            ),
        ),
        one_check(
            r,
            after_half_alpha(r, result),
            "half_alpha_is_unpremultiplied"@,
            outcome_of(
                result is Ok && ({
                    let p = result->Ok_0.at(32, 32);
                    100 <= p.a <= 160 && 240 <= p.b && 240 <= p.g && 240 <= p.r
                }),
            ),
        ),
        one_check(
            r,
            after_zero_alpha(r, result, coverage),
            "fully_transparent_stays_transparent"@,
            outcome_of(
                result is Ok && every_pixel(
                    result->Ok_0.pixels@,
                    |b: u8, g: u8, r: u8, a: u8| a == 0,
                ),
            ),
        ),
        one_check(
            r,
            after_gradient(r, result),
            "gradient_produces_varied_pixels"@,
            outcome_of(
                result is Ok && !result->Ok_0.uniform() && result->Ok_0.at(4, 32).r
                    > result->Ok_0.at(4, 32).b && result->Ok_0.at(59, 32).b > result->Ok_0.at(
                    59,
                    32,
                ).r,
            ),
        ),
{
    if result is Ok {
        let t = result->Ok_0;
        transparent_exactly_when_no_pixel_has_alpha(t);
        let f = |b: u8, g: u8, r: u8, a: u8| a == 0;
        if t.transparent() {
            assert(every_pixel(t.pixels@, f));
        }
        if every_pixel(t.pixels@, f) {
            assert forall|i: int| 0 <= i && 4 * i + 3 < t.pixels@.len() implies #[trigger] t.pixels@[4
                * i + 3] == 0 by {
                assert(f(
                    t.pixels@[4 * i],
                    t.pixels@[4 * i + 1],
                    t.pixels@[4 * i + 2],
                    t.pixels@[4 * i + 3],
                ));
            }
        }
    }
}

/// A styled document passes exactly when it rendered and its centre is close to the
/// green that it asks for, whichever way the priority keyword is spelled.
pub proof fn what_styling_must_give(
    r: ReportView,
    c: StyleView,
    s: Spelling,
    result: Result<Thumb, u32>,
)
    ensures
        one_check(
            r,
            after_style(r, c, result),
            c.name,
            outcome_of(
                result is Ok && ({
                    let p = result->Ok_0.at(32, 32);
                    &&& c.blue - 20 <= p.b <= c.blue + 20
                    &&& c.green - 20 <= p.g <= c.green + 20
                    &&& c.red - 20 <= p.r <= c.red + 20
                    &&& p.a > 200
                }),
            ),
        ),
        one_check(
            r,
            s.reported(r, result),
            s.name_text(),
            outcome_of(
                result is Ok && ({
                    let p = result->Ok_0.at(32, 32);
                    p.b <= 20 && 140 <= p.g <= 180 && p.r <= 20 && p.a > 200
                }),
            ),
        ),
{
}

/// Scaled artwork passes exactly when it rendered and covers more than 95 in 100 of the
/// thumbnail, a wide document when it covers more than 2 in 100 and shows artwork.
/// Garbage may fail, fall back or show nothing; valid input must show artwork.
pub proof fn what_scaling_must_give(
    r: ReportView,
    result: Result<Thumb, u32>,
    coverage: Seq<char>,
)
    ensures
        ({
            let t = result->Ok_0;
            let covered = places(
                t.pixels@,
                t.pixels@.len() / 4,
                |b: u8, g: u8, r: u8, a: u8| a > 0,
            ).len();
            let area = t.width as nat * t.height as nat;
            &&& one_check(
                r,
                after_scaled(r, result, coverage),
                "artwork_scales_to_fill_requested_size"@,
                outcome_of(result is Ok && area > 0 && covered * 100 > 95 * area),
            )
            &&& one_check(
                r,
                after_unboxed(r, result, coverage),
                "viewbox_synthesised_when_absent"@,
                outcome_of(result is Ok && area > 0 && covered * 100 > 95 * area),
            )
            &&& one_check(
                r,
                after_wide(r, result, coverage),
                "aspect_ratio_handling_is_consistent"@,
                outcome_of(
                    result is Ok && area > 0 && covered * 100 > 2 * area && t.classified()
                        == Rendering::Real,
                ),
            )
            &&& one_check(
                r,
                after_invalid_input(r, result),
                "invalid_input_produces_the_fallback"@,
                outcome_of(
                    result is Err || t.classified() == Rendering::RedXFallback || t.classified()
                        == Rendering::BlackSquareFallback || t.classified()
                        == Rendering::Transparent,
                ),
            )
            &&& one_check(
                r,
                after_valid_input(r, result),
                "valid_input_is_never_a_fallback"@,
                outcome_of(result is Ok && t.classified() == Rendering::Real),
            )
        }),
{
    let t = result->Ok_0;
    coverage_is_a_fraction_of_the_area(t, 95, 100);
    coverage_is_a_fraction_of_the_area(t, 2, 100);
}

/// A thumbnail that has all the pixels of its size can be read wherever a check looks:
/// at its corners where it is 128 by 128, at its centre and at both ends of the middle row
/// where it is 64 by 64.
pub proof fn whole_thumbnails_can_be_read(t: Thumb)
    ensures
        t.width == 128 && t.height == 128 && t.pixels@.len() == 65_536 ==> has_corners(&t),
        t.width == 64 && t.height == 64 && t.pixels@.len() == 16_384 ==> has_centre(Ok(t))
            && has_ends(Ok(t)),
        has_centre(Err(0)),
        has_ends(Err(0)),
{
}

} // verus!
