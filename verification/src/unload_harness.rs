//! Crash reproduction for a library that is unloaded, or whose threads exit,
//! while a thread still caches live graphics state.
//!
//! Modes:
//!
//! * `control` - renders on one worker thread; nothing is unloaded and no thread
//!   with a cache ever exits. This must always pass.
//! * `threadexit` - each iteration renders on a fresh worker thread which then
//!   exits while the library stays loaded.
//! * `processexit` - renders on the main thread and on a parked worker, then
//!   exits with the library still loaded.
//! * `freelibrary` - each iteration renders on a worker which then parks, while
//!   the main thread unloads the library, as a host does when idle.
//!
//! Exit codes:
//!   0   survived (all iterations completed, rendering verified)
//!   2   usage error
//!   3   unload precondition failed (the library did not agree to be unloaded)
//!   10  harness or environment failure, inconclusive
//!   12  unloading itself failed, inconclusive

use vstd::prelude::*;
use crate::hresult::S_OK;
use crate::numbers::{dec, decimal, hex32, hex32_text, parse_dec, parse_u64};
use crate::suites::render::{pixel_text, pixel_word};
use crate::supervisor::args::{text_of, value_after};
use crate::text::{five, same, texts, three, two};
use crate::thumb::Bgra;

verus! {

pub const EXIT_USAGE: i32 = 2;

pub const EXIT_BLOCKED: i32 = 3;

pub const EXIT_INCONCLUSIVE: i32 = 10;

pub const EXIT_NOT_FREED: i32 = 12;

/// The document that every iteration renders.
pub const TEST_SVG: &'static str = r##"<svg xmlns="http://www.w3.org/2000/svg" viewBox="0 0 64 64"><rect x="4" y="4" width="56" height="56" fill="#2d89ef"/><circle cx="32" cy="32" r="14" fill="#ffb900"/></svg>"##;

pub const THUMB_SIZE: u32 = 256;

/// The library under test, where none is named.
pub const DEFAULT_DLL: &'static str = "win_svg_thumbs_x64.dll";

pub const USAGE: &'static str = "usage: unload_harness <control|threadexit|processexit|freelibrary> [iterations] [dll_path]";

// ---------------------------------------------------------------
//                           Arguments
// ---------------------------------------------------------------

#[derive(Debug, Clone, Copy, PartialEq, Eq, Structural)]
pub enum HarnessMode {
    Control,
    ThreadExit,
    ProcessExit,
    FreeLibrary,
}

pub open spec fn mode_named(name: Seq<char>) -> Option<HarnessMode> {
    if name == "control"@ {
        Some(HarnessMode::Control)
    } else if name == "threadexit"@ {
        Some(HarnessMode::ThreadExit)
    } else if name == "processexit"@ {
        Some(HarnessMode::ProcessExit)
    } else if name == "freelibrary"@ {
        Some(HarnessMode::FreeLibrary)
    } else {
        None
    }
}

/// The mode with a given name.
pub fn harness_mode(name: &str) -> (r: Option<HarnessMode>)
    ensures
        r == mode_named(name@),
{
    if same(name, "control") {
        Some(HarnessMode::Control)
    } else if same(name, "threadexit") {
        Some(HarnessMode::ThreadExit)
    } else if same(name, "processexit") {
        Some(HarnessMode::ProcessExit)
    } else if same(name, "freelibrary") {
        Some(HarnessMode::FreeLibrary)
    } else {
        None
    }
}

/// Iterations where none, or no number, is given.
pub const DEFAULT_ITERATIONS: u32 = 50;

/// What the arguments say. The first argument is the program itself.
pub struct HarnessArgs {
    pub mode: String,
    pub iterations: u32,
    pub dll: Option<String>,
}

pub open spec fn iterations_of(value: Option<Seq<char>>) -> u32 {
    match value {
        Some(s) => match parse_dec(s, u32::MAX as nat) {
            Some(n) => n as u32,
            None => DEFAULT_ITERATIONS,
        },
        None => DEFAULT_ITERATIONS,
    }
}

fn argument(args: &Vec<String>, i: usize) -> (r: Option<String>)
    requires
        i > 0,
    ensures
        text_of(r) == value_after(texts(args@), i - 1),
{
    if i < args.len() {
        Some(args[i].as_str().to_owned())
    } else {
        None
    }
}

/// What the arguments say: the mode, the number of iterations and the library.
pub open spec fn harness_run(args: Seq<Seq<char>>) -> (Seq<char>, u32, Option<Seq<char>>) {
    (
        match value_after(args, 0) {
            Some(s) => s,
            None => ""@,
        },
        iterations_of(value_after(args, 1)),
        value_after(args, 2),
    )
}

/// Reads the arguments.
pub fn parse_harness_args(args: &Vec<String>) -> (a: HarnessArgs)
    ensures
        (a.mode@, a.iterations, text_of(a.dll)) == harness_run(texts(args@)),
{
    let mode: String = match argument(args, 1) {
        Some(s) => s,
        None => "".to_owned(),
    };
    let iterations: u32 = match argument(args, 2) {
        Some(s) => match parse_u64(s.as_str()) {
            Some(n) => if n <= 0xFFFF_FFFF {
                n as u32
            } else {
                DEFAULT_ITERATIONS
            },
            None => DEFAULT_ITERATIONS,
        },
        None => DEFAULT_ITERATIONS,
    };
    HarnessArgs { mode, iterations, dll: argument(args, 3) }
}

/// The line that opens a run.
pub fn harness_opening(mode: &str, iterations: u32, dll: &str) -> (s: String)
    ensures
        s@ == "unload_harness: mode="@ + mode@ + " iterations="@ + dec(iterations as nat)
            + " dll="@ + dll@,
{
    let mut s: String = three("unload_harness: mode=", mode, " iterations=");
    s.append(decimal(iterations as u64).as_str());
    s.append(" dll=");
    s.append(dll);
    s
}

/// How a run ends whose hazardous state could not be created.
pub open spec fn inconclusive(msg: Seq<char>) -> (Seq<char>, i32) {
    ("HARNESS-INCONCLUSIVE: "@ + msg, EXIT_INCONCLUSIVE)
}

/// The line and the exit code of a run whose hazardous state could not be
/// created: inconclusive rather than a survival or a crash.
pub fn fail_env(msg: &str) -> (r: (String, i32))
    ensures
        (r.0@, r.1) == inconclusive(msg@),
{
    (two("HARNESS-INCONCLUSIVE: ", msg), EXIT_INCONCLUSIVE)
}

// ---------------------------------------------------------------
//                      Verifying the render
// ---------------------------------------------------------------

/// A returned bitmap can be looked at.
pub open spec fn is_readable(described: bool, width: nat, height: nat) -> bool {
    described && width == THUMB_SIZE && height == THUMB_SIZE
}

/// Whether a returned bitmap can be looked at. `described` says that the system
/// described it and that its bits are accessible.
pub fn check_bitmap(described: bool, width: usize, height: usize) -> (r: Result<(), String>)
    ensures
        r is Ok <==> is_readable(described, width as nat, height as nat),
        r is Err ==> r->Err_0@ == (if !described {
            "GetObjectW failed or bitmap has no accessible bits"@
        } else {
            "unexpected bitmap size "@ + dec(width as nat) + "x"@ + dec(height as nat)
        }),
{
    if !described {
        return Err("GetObjectW failed or bitmap has no accessible bits".to_owned());
    }
    if width != THUMB_SIZE as usize || height != THUMB_SIZE as usize {
        let mut s: String = three(
            "unexpected bitmap size ",
            decimal(width as u64).as_str(),
            "x",
        );
        s.append(decimal(height as u64).as_str());
        return Err(s);
    }
    Ok(())
}

/// The pixel in column `x` of the row stored in place `y`.
pub open spec fn stored_pixel(raw: Seq<u8>, stride: int, x: int, y: int) -> Bgra {
    let at = y * stride + x * 4;
    Bgra { b: raw[at], g: raw[at + 1], r: raw[at + 2], a: raw[at + 3] }
}

/// Two channel values are close enough to be the same colour.
pub open spec fn about(a: u8, b: u8) -> bool {
    -16 <= a - b <= 16
}

fn near16(a: u8, b: u8) -> (r: bool)
    ensures
        r == about(a, b),
{
    let d: i32 = a as i32 - b as i32;
    -16 <= d && d <= 16
}

/// The centre of the yellow circle.
pub open spec fn yellow(p: Bgra) -> bool {
    about(p.b, 0x00) && about(p.g, 0xB9) && about(p.r, 0xFF) && p.a >= 250
}

/// Inside the blue rectangle.
pub open spec fn blue(p: Bgra) -> bool {
    about(p.b, 0xEF) && about(p.g, 0x89) && about(p.r, 0x2D) && p.a >= 250
}

/// Outside the rectangle.
pub open spec fn empty(p: Bgra) -> bool {
    p.a <= 10
}

/// The three sampled pixels show the test document. They are chosen so that the
/// expectation is the same whichever way round the rows are stored.
pub open spec fn shows_test_svg(raw: Seq<u8>, stride: int) -> bool {
    &&& yellow(stored_pixel(raw, stride, 128, 128))
    &&& blue(stored_pixel(raw, stride, 32, 32))
    &&& empty(stored_pixel(raw, stride, 4, 4))
}

/// The bytes that the samples lie in are there.
pub open spec fn has_samples(raw: Seq<u8>, stride: int) -> bool {
    128 * stride + 516 <= raw.len()
}

fn pixel_from(raw: &[u8], stride: usize, x: usize, y: usize) -> (p: [u8; 4])
    requires
        has_samples(raw@, stride as int),
        x <= 128,
        y <= 128,
    ensures
        stored_pixel(raw@, stride as int, x as int, y as int) == (Bgra {
            b: p[0],
            g: p[1],
            r: p[2],
            a: p[3],
        }),
{
    let held: usize = raw.len();
    proof {
        assert(0 <= y * stride <= 128 * stride) by (nonlinear_arith)
            requires
                0 <= y <= 128,
                stride >= 0,
        ;
        assert(128 * stride + 516 <= held);
    }
    let at: usize = y * stride + x * 4;
    [raw[at], raw[at + 1], raw[at + 2], raw[at + 3]]
}

/// Verifies that the bitmap contains the rendered test document, so that the real
/// pipeline ran. This guards against a vacuous pass: on failure the library
/// silently returns a fallback bitmap, and no hazardous state would exist at all.
pub fn validate_rendered_pixels(raw: &[u8], stride: usize) -> (r: Result<(), String>)
    requires
        has_samples(raw@, stride as int),
    ensures
        r is Ok <==> shows_test_svg(raw@, stride as int),
        r is Err ==> r->Err_0@
            == "thumbnail pixels do not match the test SVG (D2D path did not run; fallback bitmap suspected). center(BGRA)="@
            + pixel_word(stored_pixel(raw@, stride as int, 128, 128)) + " rect="@ + pixel_word(
            stored_pixel(raw@, stride as int, 32, 32),
        ) + " corner="@ + pixel_word(stored_pixel(raw@, stride as int, 4, 4)),
{
    let center: [u8; 4] = pixel_from(raw, stride, 128, 128);
    let rect: [u8; 4] = pixel_from(raw, stride, 32, 32);
    let corner: [u8; 4] = pixel_from(raw, stride, 4, 4);
    let center_ok: bool = near16(center[0], 0x00) && near16(center[1], 0xB9) && near16(
        center[2],
        0xFF,
    ) && center[3] >= 250;
    let rect_ok: bool = near16(rect[0], 0xEF) && near16(rect[1], 0x89) && near16(rect[2], 0x2D)
        && rect[3] >= 250;
    let corner_ok: bool = corner[3] <= 10;
    if center_ok && rect_ok && corner_ok {
        Ok(())
    } else {
        let mut s: String = five(
            "thumbnail pixels do not match the test SVG (D2D path did not run; fallback bitmap suspected). center(BGRA)=",
            pixel_text(center).as_str(),
            " rect=",
            pixel_text(rect).as_str(),
            " corner=",
        );
        s.append(pixel_text(corner).as_str());
        Err(s)
    }
}

// ---------------------------------------------------------------
//                       Iteration messages
// ---------------------------------------------------------------

/// `iter N: ` and what happened.
pub open spec fn iteration_text(i: u32, what: Seq<char>) -> Seq<char> {
    "iter "@ + dec(i as nat) + ": "@ + what
}

pub fn iteration_line(i: u32, what: &str) -> (s: String)
    ensures
        s@ == iteration_text(i, what@),
{
    let mut s: String = three("iter ", decimal(i as u64).as_str(), ": ");
    s.append(what);
    s
}

/// What the library said about unloading, as it is shown.
pub open spec fn unload_text(i: u32, hr: u32) -> Seq<char> {
    iteration_text(
        i,
        "rendered on parked worker; DllCanUnloadNow = "@ + hex32(hr) + if hr == S_OK {
            " (S_OK - COM accounting says unload is safe)"@
        } else {
            " (NOT S_OK - unload would be blocked)"@
        },
    )
}

/// What the host does after asking whether it may unload.
pub struct UnloadDecision {
    /// What the library said.
    pub line: String,
    /// What is said next: that the unload goes ahead, or why it does not.
    pub next_line: String,
    /// The exit code where the run ends here.
    pub exit: Option<i32>,
}

/// The exit code of a run that ends because the library did not agree.
pub open spec fn exit_after_asking(hr: u32) -> Option<i32> {
    if hr == S_OK {
        None
    } else {
        Some(EXIT_BLOCKED)
    }
}

/// A correct host unloads only after the library has agreed. If it says otherwise
/// the run ends distinctly instead of forcing an invalid unload, so that it can
/// never produce a misleading reproduction.
pub fn decide_unload(i: u32, hr: u32) -> (d: UnloadDecision)
    ensures
        d.line@ == unload_text(i, hr),
        d.exit == exit_after_asking(hr),
        d.next_line@ == iteration_text(
            i,
            if hr == S_OK {
                "calling FreeLibrary (theorized crash site)..."@
            } else {
                "DllCanUnloadNow blocked the unload; a real host would stop here. Exiting with code 3 (premise not met) instead of forcing an invalid FreeLibrary."@
            },
        ),
{
    let ending: &str = if hr == S_OK {
        " (S_OK - COM accounting says unload is safe)"
    } else {
        " (NOT S_OK - unload would be blocked)"
    };
    let what: String = three(
        "rendered on parked worker; DllCanUnloadNow = ",
        hex32_text(hr).as_str(),
        ending,
    );
    let line: String = iteration_line(i, what.as_str());
    if hr == S_OK {
        UnloadDecision {
            line,
            next_line: iteration_line(i, "calling FreeLibrary (theorized crash site)..."),
            exit: None,
        }
    } else {
        UnloadDecision {
            line,
            next_line: iteration_line(
                i,
                "DllCanUnloadNow blocked the unload; a real host would stop here. Exiting with code 3 (premise not met) instead of forcing an invalid FreeLibrary.",
            ),
            exit: Some(EXIT_BLOCKED),
        }
    }
}

/// How a run ends after unloading failed.
pub open spec fn not_freed(i: u32, error: Seq<char>) -> (Seq<char>, i32) {
    (
        iteration_text(
            i,
            "FreeLibrary FAILED ("@ + error + ") - unload was not exercised, exiting with code 12"@,
        ),
        EXIT_NOT_FREED,
    )
}

/// The line and the exit code after unloading failed: no unload was exercised.
pub fn unload_failed(i: u32, error: &str) -> (r: (String, i32))
    ensures
        (r.0@, r.1) == not_freed(i, error@),
{
    let what: String = three(
        "FreeLibrary FAILED (",
        error,
        ") - unload was not exercised, exiting with code 12",
    );
    (iteration_line(i, what.as_str()), EXIT_NOT_FREED)
}

/// The line after unloading succeeded. Success only means that the reference
/// count was decremented; a library that pins itself stays mapped.
pub fn unloaded_line(i: u32, still_mapped: bool) -> (s: String)
    ensures
        s@ == iteration_text(
            i,
            if still_mapped {
                "FreeLibrary succeeded; module STILL MAPPED (self-pinned) after unload request"@
            } else {
                "FreeLibrary succeeded; module UNMAPPED after unload request"@
            },
        ),
{
    if still_mapped {
        iteration_line(
            i,
            "FreeLibrary succeeded; module STILL MAPPED (self-pinned) after unload request",
        )
    } else {
        iteration_line(i, "FreeLibrary succeeded; module UNMAPPED after unload request")
    }
}

// ---------------------------------------------------------------
//                      What the run depends on
// ---------------------------------------------------------------

/// Every mode has a name of its own, and no other name stands for a mode.
pub proof fn modes_and_names_correspond(a: Seq<char>, b: Seq<char>)
    ensures
        mode_named("control"@) == Some(HarnessMode::Control),
        mode_named("threadexit"@) == Some(HarnessMode::ThreadExit),
        mode_named("processexit"@) == Some(HarnessMode::ProcessExit),
        mode_named("freelibrary"@) == Some(HarnessMode::FreeLibrary),
        mode_named(a) is Some ==> a == "control"@ || a == "threadexit"@ || a == "processexit"@ || a
            == "freelibrary"@,
        mode_named(a) is Some && mode_named(a) == mode_named(b) ==> a == b,
{
    reveal_strlit("control");
    reveal_strlit("threadexit");
    reveal_strlit("processexit");
    reveal_strlit("freelibrary");
    assert("control"@.len() == 7 && "threadexit"@.len() == 10);
    assert("processexit"@[0] == 'p' && "freelibrary"@[0] == 'f');
}

/// The number of iterations is the one that is given, where it is a number, and fifty
/// otherwise.
pub proof fn iterations_are_read(n: u32)
    ensures
        iterations_of(Some(dec(n as nat))) == n,
        iterations_of(None) == 50,
        forall|s: Seq<char>|
            #[trigger] parse_dec(s, u32::MAX as nat) is None ==> iterations_of(Some(s)) == 50,
{
    crate::numbers::parse_reads_back_decimal(n as nat, u32::MAX as nat);
}

/// A bitmap is looked at only where it was described and has the size that was asked
/// for on both sides.
pub proof fn only_whole_bitmaps_are_read(described: bool, width: nat, height: nat)
    ensures
        is_readable(described, width, height) <==> described && width == 256 && height == 256,
{
}

/// The bytes of the pixel in column `x` of the row stored in place `y`, and what the
/// three samples ask of them: each colour channel within 16 of its own value, nearly
/// opaque where there is artwork, and nearly nothing where there is none. No pixel
/// passes for two of them, so an image of one colour never does.
pub proof fn samples_tell_the_picture(p: Bgra, raw: Seq<u8>, stride: int, x: int, y: int)
    ensures
        stored_pixel(raw, stride, x, y).b == raw[y * stride + x * 4],
        stored_pixel(raw, stride, x, y).g == raw[y * stride + x * 4 + 1],
        stored_pixel(raw, stride, x, y).r == raw[y * stride + x * 4 + 2],
        stored_pixel(raw, stride, x, y).a == raw[y * stride + x * 4 + 3],
        yellow(p) <==> p.b <= 16 && 169 <= p.g <= 201 && p.r >= 239 && p.a >= 250,
        blue(p) <==> p.b >= 223 && 121 <= p.g <= 153 && 29 <= p.r <= 61 && p.a >= 250,
        empty(p) <==> p.a <= 10,
        !(yellow(p) && blue(p)),
        !(yellow(p) && empty(p)),
        !(blue(p) && empty(p)),
        shows_test_svg(raw, stride) ==> yellow(stored_pixel(raw, stride, 128, 128)) && blue(
            stored_pixel(raw, stride, 32, 32),
        ) && empty(stored_pixel(raw, stride, 4, 4)),
        yellow(stored_pixel(raw, stride, 128, 128)) && blue(stored_pixel(raw, stride, 32, 32))
            && empty(stored_pixel(raw, stride, 4, 4)) ==> shows_test_svg(raw, stride),
{
}

/// The run goes on to unload exactly when the library agreed; every way to end early has
/// a code of its own, none of them the code of a success.
pub proof fn only_an_agreed_unload_goes_ahead(hr: u32, i: u32, msg: Seq<char>)
    ensures
        exit_after_asking(hr) is None <==> hr == 0,
        exit_after_asking(hr) is Some ==> exit_after_asking(hr) == Some(3i32),
        inconclusive(msg).1 == 10,
        not_freed(i, msg).1 == 12,
        EXIT_USAGE == 2,
{
}

/// A run goes by the arguments after the program: the mode, the number of iterations and
/// the library, the last two of which may be left out.
pub proof fn a_run_goes_by_its_arguments(program: Seq<char>, mode: Seq<char>, n: u32, dll: Seq<char>)
    ensures
        harness_run(seq![program, mode, dec(n as nat), dll]) == (mode, n, Some(dll)),
        harness_run(seq![program, mode, dec(n as nat)]) == (mode, n, None::<Seq<char>>),
        harness_run(seq![program, mode]) == (mode, 50u32, None::<Seq<char>>),
        harness_run(seq![program]) == (""@, 50u32, None::<Seq<char>>),
{
    iterations_are_read(n);
}

} // verus!
