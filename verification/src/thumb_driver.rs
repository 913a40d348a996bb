//! Real-shell thumbnail activity, one burst per invocation.
//!
//! Per burst a rotating slice of the corpus is copied into a fresh directory,
//! a thumbnail is requested for every file, every file is renamed, and
//! thumbnails are requested again at a different size.
//!
//! Exit codes:
//!   0   burst completed, at least one thumbnail was produced
//!   20  every thumbnail request failed
//!   21  the provider was found loaded in this very process
//!   2   usage or setup error

use vstd::prelude::*;
use crate::numbers::{dec, dec4, decimal, decimal4, hex32, hex32_text, parse_dec, parse_usize};
use crate::text::{five, no_texts, push_text, texts, three, two};

verus! {

pub const EXIT_ALL_FAILED: i32 = 20;

pub const EXIT_CONTAMINATED: i32 = 21;

/// Files per burst where no number is given.
pub const DEFAULT_FILES: usize = 120;

/// Size of the first requests.
pub const FIRST_SIZE: i32 = 96;

/// Size of the requests after renaming.
pub const SECOND_SIZE: i32 = 256;

pub const DRIVER_USAGE: &'static str = "usage: thumb_driver <svg_source_dir> <work_dir> <burst_index> [files_per_burst=120]";

/// What one burst goes by.
pub struct DriverArgs {
    pub source_dir: String,
    pub work_dir: String,
    pub burst: usize,
    pub files: usize,
}

pub enum DriverArgsError {
    /// Too few arguments.
    Usage,
    /// The burst index is not a number.
    BurstIndex,
}

pub open spec fn files_of(args: Seq<Seq<char>>) -> usize {
    if args.len() > 4 {
        match parse_dec(args[4], usize::MAX as nat) {
            Some(n) => n as usize,
            None => DEFAULT_FILES,
        }
    } else {
        DEFAULT_FILES
    }
}

/// What a `DriverArgs` stands for.
pub struct BurstView {
    pub source_dir: Seq<char>,
    pub work_dir: Seq<char>,
    pub burst: nat,
    pub files: nat,
}

/// What the arguments say, of which the first is the program.
pub open spec fn burst_of(args: Seq<Seq<char>>) -> Result<BurstView, DriverArgsError> {
    if args.len() < 4 {
        Err(DriverArgsError::Usage)
    } else {
        match parse_dec(args[3], usize::MAX as nat) {
            Some(burst) => Ok(
                BurstView {
                    source_dir: args[1],
                    work_dir: args[2],
                    burst,
                    files: files_of(args) as nat,
                },
            ),
            None => Err(DriverArgsError::BurstIndex),
        }
    }
}

/// Reads the arguments, of which the first is the program.
pub fn parse_driver_args(args: &Vec<String>) -> (r: Result<DriverArgs, DriverArgsError>)
    ensures
        match r {
            Ok(a) => burst_of(texts(args@)) == Ok::<BurstView, DriverArgsError>(
                (BurstView {
                    source_dir: a.source_dir@,
                    work_dir: a.work_dir@,
                    burst: a.burst as nat,
                    files: a.files as nat,
                }),
            ),
            Err(e) => burst_of(texts(args@)) == Err::<BurstView, DriverArgsError>(e),
        },
{
    if args.len() < 4 {
        return Err(DriverArgsError::Usage);
    }
    let files: usize = if args.len() > 4 {
        match parse_usize(args[4].as_str()) {
            Some(n) => n,
            None => DEFAULT_FILES,
        }
    } else {
        DEFAULT_FILES
    };
    match parse_usize(args[3].as_str()) {
        Some(burst) => Ok(
            DriverArgs {
                source_dir: args[1].as_str().to_owned(),
                work_dir: args[2].as_str().to_owned(),
                burst,
                files,
            },
        ),
        None => Err(DriverArgsError::BurstIndex),
    }
}

/// Which interface of the shell the requests go through.
#[derive(Debug, Clone, Copy, PartialEq, Eq, Structural)]
pub enum DriverMode {
    ImageFactory,
    ThumbCache,
}

impl DriverMode {
    pub open spec fn word(self) -> Seq<char> {
        match self {
            DriverMode::ImageFactory => "IShellItemImageFactory"@,
            DriverMode::ThumbCache => "IThumbnailCache(FORCEEXTRACTION)"@,
        }
    }

    pub fn text(self) -> (s: &'static str)
        ensures
            s@ == self.word(),
    {
        match self {
            DriverMode::ImageFactory => "IShellItemImageFactory",
            DriverMode::ThumbCache => "IThumbnailCache(FORCEEXTRACTION)",
        }
    }
}

/// The interface that a burst goes through.
pub open spec fn mode_of(burst: nat) -> DriverMode {
    if burst % 2 == 0 {
        DriverMode::ImageFactory
    } else {
        DriverMode::ThumbCache
    }
}

/// Bursts alternate between the two interfaces.
pub fn driver_mode(burst: usize) -> (m: DriverMode)
    ensures
        m == mode_of(burst as nat),
{
    if burst % 2 == 0 {
        DriverMode::ImageFactory
    } else {
        DriverMode::ThumbCache
    }
}

/// The line that opens a burst.
pub fn driver_opening(burst: usize, mode: DriverMode, files: usize, source: &str) -> (s: String)
    ensures
        s@ == "thumb_driver: burst "@ + dec(burst as nat) + " mode="@ + mode.word() + " files="@
            + dec(files as nat) + " source="@ + source@,
{
    let mut s: String = five(
        "thumb_driver: burst ",
        decimal(burst as u64).as_str(),
        " mode=",
        mode.text(),
        " files=",
    );
    s.append(decimal(files as u64).as_str());
    s.append(" source=");
    s.append(source);
    s
}

// ---------------------------------------------------------------
//                        Rotating slices
// ---------------------------------------------------------------

/// Where the slice of a burst starts in a corpus of `len` files.
pub open spec fn slice_start(burst: nat, files: nat, len: nat) -> nat {
    (burst * files) % len
}

/// How many files a burst takes: every file at most once.
pub open spec fn slice_len(files: nat, len: nat) -> nat {
    if files < len {
        files
    } else {
        len
    }
}

/// The places of the files of a burst: consecutive ones, around the end of the
/// corpus.
pub open spec fn slice(burst: nat, files: nat, len: nat) -> Seq<int> {
    Seq::new(
        slice_len(files, len),
        |k: int| (slice_start(burst, files, len) + k) % len as int,
    )
}

/// The places of the files of a burst.
pub fn rotating_slice(burst: usize, files: usize, len: usize) -> (v: Vec<usize>)
    requires
        len > 0,
        burst * files <= usize::MAX,
    ensures
        v@.map_values(|i: usize| i as int) == slice(burst as nat, files as nat, len as nat),
{
    let start: usize = (burst * files) % len;
    let take: usize = if files < len {
        files
    } else {
        len
    };
    let ghost all = slice(burst as nat, files as nat, len as nat);
    let mut v: Vec<usize> = Vec::new();
    let mut at: usize = start;
    let mut k: usize = 0;
    assert(start == slice_start(burst as nat, files as nat, len as nat));
    assert(v@.map_values(|i: usize| i as int) =~= all.take(0));
    proof {
        vstd::arithmetic::div_mod::lemma_small_mod(start as nat, len as nat);
    }
    while k < take
        invariant
            len > 0,
            k <= take <= len,
            start < len,
            at < len,
            at == (start + k) % len as int,
            take == all.len(),
            all == slice(burst as nat, files as nat, len as nat),
            start == slice_start(burst as nat, files as nat, len as nat),
            v@.map_values(|i: usize| i as int) == all.take(k as int),
        decreases take - k,
    {
        let ghost before = v@;
        v.push(at);
        assert(v@.map_values(|i: usize| i as int) =~= before.map_values(
            |i: usize| i as int,
        ).push(at as int));
        assert(all.take(k + 1) =~= all.take(k as int).push(all[k as int]));
        at = if at == len - 1 {
            0
        } else {
            at + 1
        };
        k += 1;
        proof {
            let n = len as int;
            let s = start as int;
            let j = k as int;
            if s + j < n {
                vstd::arithmetic::div_mod::lemma_small_mod((s + j) as nat, len as nat);
                vstd::arithmetic::div_mod::lemma_small_mod((s + j - 1) as nat, len as nat);
            } else {
                vstd::arithmetic::div_mod::lemma_small_mod((s + j - n) as nat, len as nat);
                vstd::arithmetic::div_mod::lemma_mod_add_multiples_vanish(s + j - n, n);
                if s + j - 1 >= n {
                    vstd::arithmetic::div_mod::lemma_small_mod((s + j - 1 - n) as nat, len as nat);
                    vstd::arithmetic::div_mod::lemma_mod_add_multiples_vanish(s + j - 1 - n, n);
                } else {
                    vstd::arithmetic::div_mod::lemma_small_mod((s + j - 1) as nat, len as nat);
                }
            }
        }
    }
    assert(all.take(k as int) =~= all);
    v
}

/// A burst takes no file twice, and only files of the corpus.
pub proof fn a_burst_takes_no_file_twice(burst: nat, files: nat, len: nat, i: int, j: int)
    requires
        len > 0,
        0 <= i < j < slice(burst, files, len).len(),
    ensures
        slice(burst, files, len)[i] != slice(burst, files, len)[j],
        0 <= slice(burst, files, len)[i] < len,
{
    let s = slice_start(burst, files, len) as int;
    let n = len as int;
    vstd::arithmetic::div_mod::lemma_fundamental_div_mod(s + i, n);
    vstd::arithmetic::div_mod::lemma_fundamental_div_mod(s + j, n);
    let q = (s + i) / n;
    let p = (s + j) / n;
    if (s + i) % n == (s + j) % n {
        assert(j - i == n * (p - q)) by (nonlinear_arith)
            requires
                s + i == n * q + (s + i) % n,
                s + j == n * p + (s + j) % n,
                (s + i) % n == (s + j) % n,
        ;
        assert(false) by (nonlinear_arith)
            requires
                j - i == n * (p - q),
                0 < j - i < n,
        ;
    }
}

/// Each burst goes on where the one before it stopped.
pub proof fn bursts_are_consecutive(burst: nat, files: nat, len: nat)
    requires
        len > 0,
    ensures
        slice_start(burst + 1, files, len) == (slice_start(burst, files, len) + files) % len,
{
    assert((burst + 1) * files == burst * files + files) by (nonlinear_arith);
    vstd::arithmetic::div_mod::lemma_add_mod_noop((burst * files) as int, files as int, len as int);
    vstd::arithmetic::div_mod::lemma_add_mod_noop(
        slice_start(burst, files, len) as int,
        files as int,
        len as int,
    );
    vstd::arithmetic::div_mod::lemma_mod_twice((burst * files) as int, len as int);
}

/// Name of the directory of a burst.
pub open spec fn burst_name(burst: nat) -> Seq<char> {
    "burst_"@ + dec4(burst)
}

/// New name of a file with a given stem.
pub open spec fn new_name(stem: Seq<char>, burst: nat) -> Seq<char> {
    stem + "_r"@ + dec(burst) + ".svg"@
}

/// Name of the directory of a burst. New paths mean new identities in the
/// thumbnail cache.
pub fn burst_dir(burst: usize) -> (s: String)
    ensures
        s@ == burst_name(burst as nat),
{
    two("burst_", decimal4(burst as u64).as_str())
}

/// New name of a file with a given stem.
pub fn renamed(stem: &str, burst: usize) -> (s: String)
    ensures
        s@ == new_name(stem@, burst as nat),
{
    let mut s: String = three(stem, "_r", decimal(burst as u64).as_str());
    s.append(".svg");
    s
}

// ---------------------------------------------------------------
//                          The tally
// ---------------------------------------------------------------

/// How many failures are shown.
pub const SHOWN_FAILURES: usize = 5;

/// How the requests of a burst went.
pub struct Requests {
    pub ok: u64,
    pub fail: u64,
    pub first_errors: Vec<String>,
}

/// What a `Requests` stands for.
pub struct RequestsView {
    pub ok: nat,
    pub fail: nat,
    pub first_errors: Seq<Seq<char>>,
}

impl View for Requests {
    type V = RequestsView;

    open spec fn view(&self) -> RequestsView {
        RequestsView {
            ok: self.ok as nat,
            fail: self.fail as nat,
            first_errors: texts(self.first_errors@),
        }
    }
}

pub open spec fn request_failure(name: Seq<char>, size: i32, hr: u32) -> Seq<char> {
    name + " (size "@ + crate::numbers::dec_int(size as int) + "): "@ + hex32(hr)
}

impl RequestsView {
    /// After one more request.
    pub open spec fn noted(self, name: Seq<char>, size: i32, result: Result<(), u32>) -> RequestsView {
        match result {
            Ok(_) => RequestsView { ok: self.ok + 1, ..self },
            Err(hr) => RequestsView {
                fail: self.fail + 1,
                first_errors: if self.first_errors.len() < SHOWN_FAILURES {
                    self.first_errors.push(request_failure(name, size, hr))
                } else {
                    self.first_errors
                },
                ..self
            },
        }
    }

    /// The last line and the exit code of a burst. `in_process` says that the
    /// provider is loaded in this process, so that nothing was isolated.
    pub open spec fn ended(self, burst: nat, mode: DriverMode, in_process: bool) -> (Seq<char>, i32) {
        if in_process {
            (
                "thumb_driver: DRIVER-INPROC-CONTAMINATION - provider DLL is loaded in the driver process; the shell did not isolate extraction into dllhost.exe"@,
                EXIT_CONTAMINATED,
            )
        } else if self.ok == 0 {
            (
                "thumb_driver: DRIVER-ALL-FAILED - 0 of "@ + dec(self.ok + self.fail)
                    + " thumbnail requests succeeded"@,
                EXIT_ALL_FAILED,
            )
        } else {
            (
                "thumb_driver: DRIVER-BURST-OK burst="@ + dec(burst) + " mode="@ + mode.word()
                    + " ok="@ + dec(self.ok) + " fail="@ + dec(self.fail),
                0,
            )
        }
    }
}

impl Requests {
    pub fn new() -> (r: Requests)
        ensures
            r@ == (RequestsView { ok: 0, fail: 0, first_errors: Seq::empty() }),
    {
        Requests { ok: 0, fail: 0, first_errors: no_texts() }
    }

    /// Takes in one request.
    pub fn note(&mut self, name: &str, size: i32, result: Result<(), u32>)
        requires
            old(self)@.ok + old(self)@.fail < u64::MAX,
        ensures
            final(self)@ == old(self)@.noted(name@, size, result),
    {
        match result {
            Ok(_) => {
                self.ok += 1;
            },
            Err(hr) => {
                self.fail += 1;
                if self.first_errors.len() < SHOWN_FAILURES {
                    let mut s: String = three(
                        name,
                        " (size ",
                        crate::numbers::decimal_int(size as i64).as_str(),
                    );
                    s.append("): ");
                    s.append(hex32_text(hr).as_str());
                    push_text(&mut self.first_errors, s);
                }
            },
        }
    }

    /// The last line and the exit code of a burst.
    pub fn finish(&self, burst: usize, mode: DriverMode, in_process: bool) -> (r: (String, i32))
        requires
            self@.ok + self@.fail <= u64::MAX,
        ensures
            (r.0@, r.1) == self@.ended(burst as nat, mode, in_process),
    {
        if in_process {
            return (
                "thumb_driver: DRIVER-INPROC-CONTAMINATION - provider DLL is loaded in the driver process; the shell did not isolate extraction into dllhost.exe".to_owned(),
                EXIT_CONTAMINATED,
            );
        }
        if self.ok == 0 {
            let s: String = three(
                "thumb_driver: DRIVER-ALL-FAILED - 0 of ",
                decimal(self.ok + self.fail).as_str(),
                " thumbnail requests succeeded",
            );
            return (s, EXIT_ALL_FAILED);
        }
        let mut s: String = five(
            "thumb_driver: DRIVER-BURST-OK burst=",
            decimal(burst as u64).as_str(),
            " mode=",
            mode.text(),
            " ok=",
        );
        s.append(decimal(self.ok).as_str());
        s.append(" fail=");
        s.append(decimal(self.fail).as_str());
        (s, 0)
    }
}

/// A burst counts as a success exactly when something was produced, outside this
/// process.
pub proof fn a_burst_succeeds_exactly_when_isolated_and_productive(
    r: RequestsView,
    burst: nat,
    mode: DriverMode,
    in_process: bool,
)
    ensures
        r.ended(burst, mode, in_process).1 == 0 <==> !in_process && r.ok > 0,
{
}

/// Every request is counted once, and at most five failures are shown.
pub proof fn every_request_is_counted_once(
    r: RequestsView,
    name: Seq<char>,
    size: i32,
    result: Result<(), u32>,
)
    requires
        r.first_errors.len() <= SHOWN_FAILURES,
    ensures
        ({
            let after = r.noted(name, size, result);
            &&& after.ok + after.fail == r.ok + r.fail + 1
            &&& after.first_errors.len() <= SHOWN_FAILURES
        }),
{
}

/// Neighbouring bursts go through different interfaces, and the first through the image
/// factory.
pub proof fn bursts_alternate(burst: nat)
    ensures
        mode_of(burst + 1) != mode_of(burst),
        mode_of(burst + 2) == mode_of(burst),
        mode_of(0) == DriverMode::ImageFactory,
        DriverMode::ImageFactory.word() == "IShellItemImageFactory"@,
        DriverMode::ThumbCache.word() == "IThumbnailCache(FORCEEXTRACTION)"@,
{
}

/// The number of files is the one that is given, where it is a number, and 120
/// otherwise.
pub proof fn the_number_of_files_is_read(args: Seq<Seq<char>>, n: usize)
    ensures
        args.len() <= 4 ==> files_of(args) == 120,
        args.len() > 4 && args[4] == dec(n as nat) ==> files_of(args) == n,
        args.len() > 4 && parse_dec(args[4], usize::MAX as nat) is None ==> files_of(args) == 120,
{
    crate::numbers::parse_reads_back_decimal(n as nat, usize::MAX as nat);
}

/// A burst takes consecutive files, as many as asked for or as there are: from where the
/// bursts before it have come to, and from the first file again after the last.
pub proof fn a_burst_takes_consecutive_files(burst: nat, files: nat, len: nat, k: int)
    requires
        len > 0,
    ensures
        slice(burst, files, len).len() <= len,
        slice(burst, files, len).len() <= files,
        slice(burst, files, len).len() == files || slice(burst, files, len).len() == len,
        slice_start(0, files, len) == 0,
        slice_start(burst, files, len) < len,
        slice(burst, files, len).len() > 0 ==> slice(burst, files, len)[0] == slice_start(
            burst,
            files,
            len,
        ),
        0 <= k && k + 1 < slice(burst, files, len).len() ==> slice(burst, files, len)[k + 1] == (
        if slice(burst, files, len)[k] + 1 == len {
            0
        } else {
            slice(burst, files, len)[k] + 1
        }),
{
    let s: int = slice_start(burst, files, len) as int;
    let n: int = len as int;
    assert(0 * files == 0) by (nonlinear_arith);
    vstd::arithmetic::div_mod::lemma_mod_bound((burst * files) as int, n);
    vstd::arithmetic::div_mod::lemma_small_mod(s as nat, len);
    if 0 <= k && k + 1 < slice(burst, files, len).len() {
        vstd::arithmetic::div_mod::lemma_fundamental_div_mod(s + k, n);
        vstd::arithmetic::div_mod::lemma_mod_bound(s + k, n);
        let q: int = (s + k) / n;
        let m: int = (s + k) % n;
        if m + 1 == n {
            assert(s + k + 1 == n * (q + 1)) by (nonlinear_arith)
                requires
                    s + k == n * q + m,
                    m + 1 == n,
            ;
            vstd::arithmetic::div_mod::lemma_mod_multiples_basic(q + 1, n);
            assert((q + 1) * n == n * (q + 1)) by (nonlinear_arith);
        } else {
            vstd::arithmetic::div_mod::lemma_mod_multiples_vanish(q, m + 1, n);
            assert(n * q + (m + 1) == s + k + 1);
            vstd::arithmetic::div_mod::lemma_small_mod((m + 1) as nat, len);
        }
    }
}

/// What one request changes: one of the two counts by one, and only a failure adds to
/// what is shown, as long as fewer than five are; what was there stays.
pub proof fn a_request_counts_as_it_went(
    r: RequestsView,
    name: Seq<char>,
    size: i32,
    result: Result<(), u32>,
)
    ensures
        ({
            let after = r.noted(name, size, result);
            &&& result is Ok ==> after.ok == r.ok + 1 && after.fail == r.fail && after.first_errors
                == r.first_errors
            &&& result is Err ==> after.ok == r.ok && after.fail == r.fail + 1
            &&& result is Err && r.first_errors.len() >= 5 ==> after.first_errors == r.first_errors
            &&& result is Err && r.first_errors.len() < 5 ==> after.first_errors.len()
                == r.first_errors.len() + 1 && after.first_errors.drop_last() == r.first_errors
        }),
{
    let after = r.noted(name, size, result);
    if result is Err && r.first_errors.len() < 5 {
        assert(after.first_errors.drop_last() =~= r.first_errors);
    }
}

/// How a burst ends: contaminated where the provider was loaded here, whatever was
/// produced; failed where nothing was; and well otherwise. Each has its own code.
pub proof fn what_the_end_of_a_burst_says(
    r: RequestsView,
    burst: nat,
    mode: DriverMode,
    in_process: bool,
)
    ensures
        r.ended(burst, mode, in_process).1 == 21 <==> in_process,
        r.ended(burst, mode, in_process).1 == 20 <==> !in_process && r.ok == 0,
        r.ended(burst, mode, in_process).1 == 0 <==> !in_process && r.ok > 0,
        FIRST_SIZE == 96,
        SECOND_SIZE == 256,
{
}

/// A burst goes by the arguments after the program: where the files are, where they go,
/// which burst it is and how many files it takes. Fewer than three are a usage error, and
/// an index that is no number is an error of its own.
pub proof fn a_burst_goes_by_its_arguments(
    program: Seq<char>,
    source: Seq<char>,
    work: Seq<char>,
    index: Seq<char>,
    burst: usize,
    files: usize,
)
    ensures
        burst_of(seq![program, source, work, dec(burst as nat), dec(files as nat)]) == Ok::<
            BurstView,
            DriverArgsError,
        >(
            (BurstView {
                source_dir: source,
                work_dir: work,
                burst: burst as nat,
                files: files as nat,
            }),
        ),
        burst_of(seq![program, source, work, dec(burst as nat)]) == Ok::<
            BurstView,
            DriverArgsError,
        >((BurstView { source_dir: source, work_dir: work, burst: burst as nat, files: 120 })),
        burst_of(seq![program, source, work]) == Err::<BurstView, DriverArgsError>(
            DriverArgsError::Usage,
        ),
        parse_dec(index, usize::MAX as nat) is None ==> burst_of(
            seq![program, source, work, index],
        ) == Err::<BurstView, DriverArgsError>(DriverArgsError::BurstIndex),
{
    crate::numbers::parse_reads_back_decimal(burst as nat, usize::MAX as nat);
    crate::numbers::parse_reads_back_decimal(files as nat, usize::MAX as nat);
}

/// Every burst has a directory of its own and gives every file a name of its own, so no
/// thumbnail is ever found in the cache.
pub proof fn bursts_use_new_names(stem: Seq<char>, a: nat, b: nat)
    ensures
        burst_name(a) == burst_name(b) ==> a == b,
        new_name(stem, a) == new_name(stem, b) ==> a == b,
{
    crate::numbers::leading_zeros_keep_the_value(a);
    crate::numbers::leading_zeros_keep_the_value(b);
    crate::numbers::lemma_dec_digits(a);
    crate::numbers::lemma_dec_digits(b);
    let n: int = "burst_"@.len() as int;
    assert(burst_name(a).skip(n) =~= dec4(a));
    assert(burst_name(b).skip(n) =~= dec4(b));
    let head = stem + "_r"@;
    let m: int = head.len() as int;
    let t: int = ".svg"@.len() as int;
    assert(new_name(stem, a).subrange(m, new_name(stem, a).len() - t) =~= dec(a));
    assert(new_name(stem, b).subrange(m, new_name(stem, b).len() - t) =~= dec(b));
}

} // verus!
