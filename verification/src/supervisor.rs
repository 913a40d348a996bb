//! The supervisor: which suites there are, and what a child's end means.
//!
//! Each suite runs in its own child process under a watchdog:
//!
//!   * a suite that faults takes down only itself, so the remaining suites still
//!     produce results in the same run,
//!   * a suite that deadlocks is killed at a known timeout and reported as a hang
//!     rather than burning the whole time budget,
//!   * every child writes a heartbeat naming the case it is about to attempt, so
//!     a crash or a hang is attributed to one specific input,
//!   * children can cap their own committed memory, so a decompression bomb fails
//!     the test instead of the machine.

use vstd::prelude::*;
use crate::report::{EXIT_ENV, EXIT_FAIL};
use crate::text::{
    columns_are_as_wide_as_asked, left_in, no_texts, pad_right, push_text, same, texts, three,
};

pub mod args;
pub mod probe;
pub mod run;

verus! {

// ---------------------------------------------------------------
//                            Suites
// ---------------------------------------------------------------

/// One suite: its name, its watchdog timeout, and the memory cap of its child.
#[derive(Clone, Copy)]
pub struct SuiteSpec {
    pub name: &'static str,
    pub timeout_secs: u64,
    /// Committed-memory cap for the child process, in MiB; `None` for no cap.
    /// Suites that deliberately feed bombs and oversized inputs run capped so a
    /// genuine blowup fails cleanly rather than taking down the machine.
    pub mem_cap_mb: Option<u64>,
    pub description: &'static str,
}

/// What a `SuiteSpec` stands for.
pub struct SuiteView {
    pub name: Seq<char>,
    pub timeout_secs: u64,
    pub mem_cap_mb: Option<u64>,
    pub description: Seq<char>,
}

impl View for SuiteSpec {
    type V = SuiteView;

    open spec fn view(&self) -> SuiteView {
        SuiteView {
            name: self.name@,
            timeout_secs: self.timeout_secs,
            mem_cap_mb: self.mem_cap_mb,
            description: self.description@,
        }
    }
}

/// What a list of suites stands for.
pub open spec fn suite_views(suites: Seq<SuiteSpec>) -> Seq<SuiteView> {
    suites.map_values(|s: SuiteSpec| s@)
}

pub open spec fn suite(
    name: Seq<char>,
    timeout_secs: u64,
    mem_cap_mb: Option<u64>,
    description: Seq<char>,
) -> SuiteView {
    SuiteView { name, timeout_secs, mem_cap_mb, description }
}

/// Every suite, in the order in which a full run goes through them.
pub open spec fn suite_table() -> Seq<SuiteView> {
    seq![
        suite(
            "api-misuse"@,
            300,
            None,
            "COM contract abuse: null pointers, wrong CLSIDs, aggregation, double initialisation, release ordering, server locks, size boundaries"@,
        ),
        suite(
            "stream-faults"@,
            600,
            Some(2048),
            "Hostile IStream implementations: lying Stat, partial and failing reads, over-reported byte counts, oversized payloads"@,
        ),
        suite(
            "render"@,
            900,
            None,
            "Rendering correctness: size sweep, determinism, alpha un-premultiplication, CSS precedence, scaling, fallback detection"@,
        ),
        suite(
            "adversarial"@,
            1800,
            Some(3072),
            "Synthetic malformed/hostile SVG corpus including XXE and entity expansion"@,
        ),
        suite(
            "svgz"@,
            900,
            Some(3072),
            "Compressed SVG corpus: truncation, corruption, concatenation, decompression bombs"@,
        ),
        suite(
            "size-limits"@,
            900,
            Some(4096),
            "Inputs either side of the documented 101 MiB cap"@,
        ),
        suite(
            "lifecycle"@,
            900,
            None,
            "Randomized COM lifecycle state machine across STA and MTA threads"@,
        ),
        suite(
            "concurrency"@,
            900,
            None,
            "Concurrency storm: contamination detection, threads exiting mid-render"@,
        ),
        // Every one-shot rendering thread leaks a whole device chain by design,
        // so a few hundred of them could drive the machine into swap. With a cap,
        // runaway retention fails the suite cleanly.
        suite(
            "churn"@,
            1800,
            Some(6144),
            "Thread-churn resource retention and GDI/handle accounting"@,
        ),
        suite(
            "breadth"@,
            1800,
            Some(2048),
            "Real-world icon corpus (fetched and cached by CI)"@,
        ),
    ]
}

fn add_suite(
    v: &mut Vec<SuiteSpec>,
    name: &'static str,
    timeout_secs: u64,
    mem_cap_mb: Option<u64>,
    description: &'static str,
)
    ensures
        suite_views(final(v)@) == suite_views(old(v)@).push(
            suite(name@, timeout_secs, mem_cap_mb, description@),
        ),
{
    let s: SuiteSpec = SuiteSpec { name, timeout_secs, mem_cap_mb, description };
    v.push(s);
    assert(suite_views(v@) =~= suite_views(old(v)@).push(s@));
}

/// Every suite.
pub fn suites() -> (v: Vec<SuiteSpec>)
    ensures
        suite_views(v@) == suite_table(),
{
    let mut v: Vec<SuiteSpec> = Vec::new();
    assert(suite_views(v@) =~= Seq::<SuiteView>::empty());
    add_suite(
        &mut v,
        "api-misuse",
        300,
        None,
        "COM contract abuse: null pointers, wrong CLSIDs, aggregation, double initialisation, release ordering, server locks, size boundaries",
    );
    add_suite(
        &mut v,
        "stream-faults",
        600,
        Some(2048),
        "Hostile IStream implementations: lying Stat, partial and failing reads, over-reported byte counts, oversized payloads",
    );
    add_suite(
        &mut v,
        "render",
        900,
        None,
        "Rendering correctness: size sweep, determinism, alpha un-premultiplication, CSS precedence, scaling, fallback detection",
    );
    add_suite(
        &mut v,
        "adversarial",
        1800,
        Some(3072),
        "Synthetic malformed/hostile SVG corpus including XXE and entity expansion",
    );
    add_suite(
        &mut v,
        "svgz",
        900,
        Some(3072),
        "Compressed SVG corpus: truncation, corruption, concatenation, decompression bombs",
    );
    add_suite(
        &mut v,
        "size-limits",
        900,
        Some(4096),
        "Inputs either side of the documented 101 MiB cap",
    );
    add_suite(
        &mut v,
        "lifecycle",
        900,
        None,
        "Randomized COM lifecycle state machine across STA and MTA threads",
    );
    add_suite(
        &mut v,
        "concurrency",
        900,
        None,
        "Concurrency storm: contamination detection, threads exiting mid-render",
    );
    add_suite(
        &mut v,
        "churn",
        1800,
        Some(6144),
        "Thread-churn resource retention and GDI/handle accounting",
    );
    add_suite(
        &mut v,
        "breadth",
        1800,
        Some(2048),
        "Real-world icon corpus (fetched and cached by CI)",
    );
    v
}

/// What a suite does when its child is asked to run it.
#[derive(Clone, Copy, Debug, PartialEq, Eq, Structural)]
pub enum SuiteKind {
    ApiMisuse,
    StreamFaults,
    Render,
    Adversarial,
    Svgz,
    SizeLimits,
    Lifecycle,
    Concurrency,
    Churn,
    Breadth,
}

/// The suite with a given name.
pub open spec fn kind_named(name: Seq<char>) -> Option<SuiteKind> {
    if name == "api-misuse"@ {
        Some(SuiteKind::ApiMisuse)
    } else if name == "stream-faults"@ {
        Some(SuiteKind::StreamFaults)
    } else if name == "render"@ {
        Some(SuiteKind::Render)
    } else if name == "adversarial"@ {
        Some(SuiteKind::Adversarial)
    } else if name == "svgz"@ {
        Some(SuiteKind::Svgz)
    } else if name == "size-limits"@ {
        Some(SuiteKind::SizeLimits)
    } else if name == "lifecycle"@ {
        Some(SuiteKind::Lifecycle)
    } else if name == "concurrency"@ {
        Some(SuiteKind::Concurrency)
    } else if name == "churn"@ {
        Some(SuiteKind::Churn)
    } else if name == "breadth"@ {
        Some(SuiteKind::Breadth)
    } else {
        None
    }
}

/// The suite with a given name.
pub fn suite_kind(name: &str) -> (r: Option<SuiteKind>)
    ensures
        r == kind_named(name@),
{
    if same(name, "api-misuse") {
        Some(SuiteKind::ApiMisuse)
    } else if same(name, "stream-faults") {
        Some(SuiteKind::StreamFaults)
    } else if same(name, "render") {
        Some(SuiteKind::Render)
    } else if same(name, "adversarial") {
        Some(SuiteKind::Adversarial)
    } else if same(name, "svgz") {
        Some(SuiteKind::Svgz)
    } else if same(name, "size-limits") {
        Some(SuiteKind::SizeLimits)
    } else if same(name, "lifecycle") {
        Some(SuiteKind::Lifecycle)
    } else if same(name, "concurrency") {
        Some(SuiteKind::Concurrency)
    } else if same(name, "churn") {
        Some(SuiteKind::Churn)
    } else if same(name, "breadth") {
        Some(SuiteKind::Breadth)
    } else {
        None
    }
}

/// How much work one unit of scale stands for.
pub open spec fn unit_of_work(kind: SuiteKind) -> nat {
    match kind {
        // Random sequences.
        SuiteKind::Lifecycle => 20,
        // Renders per thread.
        SuiteKind::Concurrency => 40,
        // Files of the corpus.
        SuiteKind::Breadth => 600,
        _ => 1,
    }
}

/// Threads of the concurrency storm.
pub const STORM_THREADS: usize = 12;

/// The amount of work of a suite at a given scale.
pub open spec fn work_at(kind: SuiteKind, scale: nat) -> nat {
    unit_of_work(kind) * scale
}

/// The amount of work of a suite at a given scale; nothing when it does not fit
/// into a `usize`.
pub fn workload(kind: SuiteKind, scale: usize) -> (r: Option<usize>)
    ensures
        match r {
            Some(n) => n == work_at(kind, scale as nat),
            None => work_at(kind, scale as nat) > usize::MAX,
        },
{
    let unit: usize = match kind {
        SuiteKind::Lifecycle => 20,
        SuiteKind::Concurrency => 40,
        SuiteKind::Breadth => 600,
        _ => 1,
    };
    unit.checked_mul(scale)
}

/// One line per suite: its name and its description.
pub open spec fn list_lines(table: Seq<SuiteView>) -> Seq<Seq<char>> {
    table.map_values(|s: SuiteView| left_in(s.name, 14) + " "@ + s.description)
}

/// What the `list` command prints.
pub fn list() -> (v: Vec<String>)
    ensures
        texts(v@) == list_lines(suite_table()),
{
    let all: Vec<SuiteSpec> = suites();
    let ghost lines = list_lines(suite_table());
    let mut v: Vec<String> = Vec::new();
    let mut i: usize = 0;
    assert(texts(v@) =~= lines.take(0));
    while i < all.len()
        invariant
            i <= all@.len(),
            suite_views(all@) == suite_table(),
            lines == list_lines(suite_table()),
            texts(v@) == lines.take(i as int),
        decreases all@.len() - i,
    {
        let s: SuiteSpec = all[i];
        assert(s@ == suite_views(all@)[i as int]);
        push_text(&mut v, three(pad_right(s.name, 14).as_str(), " ", s.description));
        i += 1;
        assert(lines.take(i as int) =~= lines.take(i - 1).push(lines[i - 1]));
    }
    assert(lines.take(i as int) =~= lines);
    v
}

/// Every suite of the table can be run by its name.
pub proof fn every_listed_suite_can_run(i: int)
    requires
        0 <= i < suite_table().len(),
    ensures
        kind_named(suite_table()[i].name) is Some,
{
}

// ---------------------------------------------------------------
//                            Verdicts
// ---------------------------------------------------------------

#[derive(Debug, Clone, Copy, PartialEq, Eq, Structural)]
pub enum Verdict {
    Passed,
    Failed,
    /// Unhandled Windows exception in the child.
    Crashed,
    /// Killed by the watchdog.
    Hung,
    /// The child could not run the suite (setup or environment).
    Inconclusive,
    /// The suite itself panicked. Distinct from a crash: it means a bug in the
    /// harness, not a fault in the library under test.
    Panicked,
}

impl Verdict {
    pub open spec fn label_text(self) -> Seq<char> {
        match self {
            Verdict::Passed => "PASS"@,
            Verdict::Failed => "FAIL"@,
            Verdict::Crashed => "CRASH"@,
            Verdict::Hung => "HANG"@,
            Verdict::Inconclusive => "INCONCLUSIVE"@,
            Verdict::Panicked => "PANIC"@,
        }
    }

    pub fn label(self) -> (s: &'static str)
        ensures
            s@ == self.label_text(),
    {
        match self {
            Verdict::Passed => "PASS",
            Verdict::Failed => "FAIL",
            Verdict::Crashed => "CRASH",
            Verdict::Hung => "HANG",
            Verdict::Inconclusive => "INCONCLUSIVE",
            Verdict::Panicked => "PANIC",
        }
    }
}

/// Exit code of a panic that escaped a suite.
pub const EXIT_PANIC: i32 = 101;

/// Exit code that stands for a child killed by the watchdog.
pub const EXIT_HUNG: i32 = 124;

/// What a child's exit code means.
pub open spec fn verdict_of(code: i32) -> Verdict {
    if code == 0 {
        Verdict::Passed
    } else if code == EXIT_FAIL {
        Verdict::Failed
    } else if code == EXIT_ENV {
        Verdict::Inconclusive
    } else if code == EXIT_PANIC {
        Verdict::Panicked
    } else if code < 0 || code >= 0x4000_0000 {
        Verdict::Crashed
    } else {
        Verdict::Failed
    }
}

/// Maps a child exit code onto a verdict.
///
/// Windows reports an unhandled exception as the exception code itself, which is
/// a large negative value when read as i32 (0xC0000005 for an access violation).
/// The suite's own codes are small.
pub fn classify_exit(code: i32) -> (v: Verdict)
    ensures
        v == verdict_of(code),
{
    if code == 0 {
        Verdict::Passed
    } else if code == EXIT_FAIL {
        Verdict::Failed
    } else if code == EXIT_ENV {
        Verdict::Inconclusive
    } else if code == EXIT_PANIC {
        Verdict::Panicked
    } else if code < 0 || code >= 0x4000_0000 {
        Verdict::Crashed
    } else {
        Verdict::Failed
    }
}

/// How a child came to its end.
#[derive(Debug, Clone, Copy, PartialEq, Eq, Structural)]
pub enum ChildEnd {
    Exited(i32),
    TimedOut,
    /// It could not be started, or not be waited for.
    SpawnFailed,
}

impl ChildEnd {
    /// The verdict and the exit code that are reported for this end.
    pub open spec fn meaning(self) -> (Verdict, i32) {
        match self {
            ChildEnd::Exited(code) => (verdict_of(code), code),
            ChildEnd::TimedOut => (Verdict::Hung, EXIT_HUNG),
            ChildEnd::SpawnFailed => (Verdict::Inconclusive, EXIT_ENV),
        }
    }

    pub fn judge(self) -> (r: (Verdict, i32))
        ensures
            r == self.meaning(),
    {
        match self {
            ChildEnd::Exited(code) => (classify_exit(code), code),
            ChildEnd::TimedOut => (Verdict::Hung, EXIT_HUNG),
            ChildEnd::SpawnFailed => (Verdict::Inconclusive, EXIT_ENV),
        }
    }
}

/// What the watchdog sees when it looks at the child.
#[derive(Debug, Clone, Copy, PartialEq, Eq, Structural)]
pub enum Poll {
    /// The child has ended, with an exit code where the system has one.
    Ended(Option<i32>),
    Running,
    /// The child's state could not be read.
    Lost,
}

/// What the watchdog does next.
#[derive(Debug, Clone, Copy, PartialEq, Eq, Structural)]
pub enum WatchdogAction {
    /// Look again after this many milliseconds.
    Sleep(u64),
    /// Kill the child; it then counts as timed out.
    Kill,
    Report(ChildEnd),
}

/// How long the watchdog sleeps between two looks, in milliseconds.
pub const POLL_INTERVAL_MS: u64 = 100;

/// What the watchdog does on what it sees.
pub open spec fn next_action(poll: Poll, past_deadline: bool) -> WatchdogAction {
    match poll {
        Poll::Ended(Some(code)) => WatchdogAction::Report(ChildEnd::Exited(code)),
        Poll::Ended(None) => WatchdogAction::Report(ChildEnd::Exited(-1i32)),
        Poll::Running => if past_deadline {
            WatchdogAction::Kill
        } else {
            WatchdogAction::Sleep(POLL_INTERVAL_MS)
        },
        Poll::Lost => WatchdogAction::Report(ChildEnd::SpawnFailed),
    }
}

/// One step of the watchdog. A child is killed only while it is still running
/// and its deadline has passed.
pub fn watchdog_step(poll: Poll, past_deadline: bool) -> (a: WatchdogAction)
    ensures
        a == next_action(poll, past_deadline),
{
    match poll {
        Poll::Ended(Some(code)) => WatchdogAction::Report(ChildEnd::Exited(code)),
        Poll::Ended(None) => WatchdogAction::Report(ChildEnd::Exited(-1)),
        Poll::Running => {
            if past_deadline {
                WatchdogAction::Kill
            } else {
                WatchdogAction::Sleep(POLL_INTERVAL_MS)
            }
        },
        Poll::Lost => WatchdogAction::Report(ChildEnd::SpawnFailed),
    }
}

/// A suite is green only if its child ran to its end and exited with zero: being
/// killed, never started or ended without an exit code never looks green.
pub proof fn only_a_clean_exit_passes(end: ChildEnd)
    ensures
        end.meaning().0 == Verdict::Passed <==> end == ChildEnd::Exited(0),
{
}

// ---------------------------------------------------------------
//                     The library under test
// ---------------------------------------------------------------

/// File name of the provider for an architecture.
pub open spec fn dll_name(arch: Seq<char>) -> Seq<char> {
    if arch == "x86_64"@ {
        "win_svg_thumbs_x64.dll"@
    } else if arch == "x86"@ {
        "win_svg_thumbs_x86.dll"@
    } else if arch == "aarch64"@ {
        "win_svg_thumbs_arm64.dll"@
    } else {
        "win_svg_thumbs_x64.dll"@
    }
}

/// File name of the provider for the architecture that this program was built
/// for.
///
/// The provider is loaded into this process, so the two must always be the same
/// architecture: a 64-bit harness cannot load the 32-bit provider.
pub fn provider_dll_name(arch: &str) -> (s: &'static str)
    ensures
        s@ == dll_name(arch@),
{
    if same(arch, "x86_64") {
        "win_svg_thumbs_x64.dll"
    } else if same(arch, "x86") {
        "win_svg_thumbs_x86.dll"
    } else if same(arch, "aarch64") {
        "win_svg_thumbs_arm64.dll"
    } else {
        "win_svg_thumbs_x64.dll"
    }
}

/// The names on the path of the library that is tested by default: `file` among the
/// release builds in the directory two levels above the executable. Nothing where the
/// executable does not lie that deep.
pub open spec fn default_library(exe: Seq<Seq<char>>, file: Seq<char>) -> Option<Seq<Seq<char>>> {
    if exe.len() < 2 {
        None
    } else {
        Some(exe.take(exe.len() - 2).push("release"@).push(file))
    }
}

/// Where the library lies that is tested by default. `exe` holds the names on the path
/// of this executable, which may be built into target/debug or
/// target/<triple>/release; the library is always built into release.
pub fn default_library_path(exe: &Vec<String>, file: &str) -> (r: Option<Vec<String>>)
    ensures
        match r {
            Some(v) => default_library(texts(exe@), file@) == Some(texts(v@)),
            None => default_library(texts(exe@), file@) is None,
        },
{
    if exe.len() < 2 {
        return None;
    }
    let mut v: Vec<String> = no_texts();
    let mut i: usize = 0;
    assert(texts(exe@).take(0) =~= Seq::empty());
    while i < exe.len() - 2
        invariant
            2 <= exe@.len(),
            i <= exe@.len() - 2,
            texts(v@) == texts(exe@).take(i as int),
        decreases exe@.len() - i,
    {
        assert(texts(exe@).take(i + 1) =~= texts(exe@).take(i as int).push(exe@[i as int]@));
        push_text(&mut v, exe[i].as_str().to_owned());
        i += 1;
    }
    push_text(&mut v, "release".to_owned());
    push_text(&mut v, file.to_owned());
    Some(v)
}

// ---------------------------------------------------------------
//                     Suites, codes and paths
// ---------------------------------------------------------------

/// Every kind of suite, in the order of their declaration.
pub open spec fn kinds() -> Seq<SuiteKind> {
    seq![
        SuiteKind::ApiMisuse,
        SuiteKind::StreamFaults,
        SuiteKind::Render,
        SuiteKind::Adversarial,
        SuiteKind::Svgz,
        SuiteKind::SizeLimits,
        SuiteKind::Lifecycle,
        SuiteKind::Concurrency,
        SuiteKind::Churn,
        SuiteKind::Breadth,
    ]
}

/// The place of a suite's name in the table.
spec fn name_place(name: Seq<char>) -> int {
    if name.len() == 10 {
        0
    } else if name.len() == 13 {
        1
    } else if name.len() == 6 {
        2
    } else if name.len() == 11 && name[0] == 'a' {
        3
    } else if name.len() == 4 {
        4
    } else if name.len() == 11 && name[0] == 's' {
        5
    } else if name.len() == 9 {
        6
    } else if name.len() == 11 && name[0] == 'c' {
        7
    } else if name.len() == 5 {
        8
    } else {
        9
    }
}

proof fn lemma_name_places()
    ensures
        suite_table().len() == 10,
        forall|i: int| 0 <= i < 10 ==> name_place(#[trigger] suite_table()[i].name) == i,
{
    reveal_strlit("api-misuse");
    reveal_strlit("stream-faults");
    reveal_strlit("render");
    reveal_strlit("adversarial");
    reveal_strlit("svgz");
    reveal_strlit("size-limits");
    reveal_strlit("lifecycle");
    reveal_strlit("concurrency");
    reveal_strlit("churn");
    reveal_strlit("breadth");
}

/// A name runs the suite that it is the name of.
pub proof fn every_name_runs_its_own_suite()
    ensures
        kind_named("api-misuse"@) == Some(SuiteKind::ApiMisuse),
        kind_named("stream-faults"@) == Some(SuiteKind::StreamFaults),
        kind_named("render"@) == Some(SuiteKind::Render),
        kind_named("adversarial"@) == Some(SuiteKind::Adversarial),
        kind_named("svgz"@) == Some(SuiteKind::Svgz),
        kind_named("size-limits"@) == Some(SuiteKind::SizeLimits),
        kind_named("lifecycle"@) == Some(SuiteKind::Lifecycle),
        kind_named("concurrency"@) == Some(SuiteKind::Concurrency),
        kind_named("churn"@) == Some(SuiteKind::Churn),
        kind_named("breadth"@) == Some(SuiteKind::Breadth),
{
    lemma_name_places();
    let t = suite_table();
    assert forall|i: int| 0 <= i < 10 implies name_place(t[i].name) == i by {}
    assert(t[0].name == "api-misuse"@ && t[1].name == "stream-faults"@ && t[2].name == "render"@
        && t[3].name == "adversarial"@ && t[4].name == "svgz"@ && t[5].name == "size-limits"@
        && t[6].name == "lifecycle"@ && t[7].name == "concurrency"@ && t[8].name == "churn"@
        && t[9].name == "breadth"@);
}

/// Names and kinds of suites correspond one to one: the suite at each place of the table
/// has the kind at the same place, different names have different kinds, every kind has
/// a name, and no other name runs anything.
pub proof fn names_and_kinds_correspond(a: Seq<char>, b: Seq<char>, kind: SuiteKind)
    ensures
        suite_table().len() == kinds().len(),
        forall|i: int|
            0 <= i < suite_table().len() ==> kind_named(#[trigger] suite_table()[i].name) == Some(
                kinds()[i],
            ),
        kind_named(a) is Some && kind_named(a) == kind_named(b) ==> a == b,
        exists|i: int|
            0 <= i < suite_table().len() && kind_named(#[trigger] suite_table()[i].name) == Some(
                kind,
            ),
        kind_named(a) is Some <==> exists|i: int|
            0 <= i < suite_table().len() && #[trigger] suite_table()[i].name == a,
{
    let t = suite_table();
    lemma_name_places();
    every_name_runs_its_own_suite();
    assert(t[0].name == "api-misuse"@ && t[1].name == "stream-faults"@ && t[2].name == "render"@
        && t[3].name == "adversarial"@ && t[4].name == "svgz"@ && t[5].name == "size-limits"@
        && t[6].name == "lifecycle"@ && t[7].name == "concurrency"@ && t[8].name == "churn"@
        && t[9].name == "breadth"@);
    let k: int = match kind {
        SuiteKind::ApiMisuse => 0,
        SuiteKind::StreamFaults => 1,
        SuiteKind::Render => 2,
        SuiteKind::Adversarial => 3,
        SuiteKind::Svgz => 4,
        SuiteKind::SizeLimits => 5,
        SuiteKind::Lifecycle => 6,
        SuiteKind::Concurrency => 7,
        SuiteKind::Churn => 8,
        SuiteKind::Breadth => 9,
    };
    assert(kind_named(t[k].name) == Some(kind));
}

/// Suites that feed the library bombs and oversized inputs run with a cap on memory, and
/// so do those that retain a lot; the others run without. Every suite has at least five
/// minutes, and none more than half an hour.
pub proof fn suites_are_bounded(i: int)
    requires
        0 <= i < suite_table().len(),
    ensures
        300 <= suite_table()[i].timeout_secs <= 1800,
        suite_table()[i].timeout_secs % 60 == 0,
        suite_table()[i].mem_cap_mb is None <==> suite_table()[i].name == "api-misuse"@
            || suite_table()[i].name == "render"@ || suite_table()[i].name == "lifecycle"@
            || suite_table()[i].name == "concurrency"@,
        suite_table()[i].mem_cap_mb matches Some(mb) ==> 2048 <= mb <= 6144,
        suite_table()[i].name == "stream-faults"@ || suite_table()[i].name == "breadth"@
            ==> suite_table()[i].mem_cap_mb == Some(2048u64),
        suite_table()[i].name == "adversarial"@ || suite_table()[i].name == "svgz"@
            ==> suite_table()[i].mem_cap_mb == Some(3072u64),
        suite_table()[i].name == "size-limits"@ ==> suite_table()[i].mem_cap_mb == Some(4096u64),
        suite_table()[i].name == "churn"@ ==> suite_table()[i].mem_cap_mb == Some(6144u64),
        suite_table()[i].name == "adversarial"@ || suite_table()[i].name == "churn"@
            || suite_table()[i].name == "breadth"@ <==> suite_table()[i].timeout_secs == 1800,
{
    lemma_name_places();
    let t = suite_table();
    assert(t[0].name == "api-misuse"@ && t[1].name == "stream-faults"@ && t[2].name == "render"@
        && t[3].name == "adversarial"@ && t[4].name == "svgz"@ && t[5].name == "size-limits"@
        && t[6].name == "lifecycle"@ && t[7].name == "concurrency"@ && t[8].name == "churn"@
        && t[9].name == "breadth"@);
    assert(name_place(t[i].name) == i);
}

/// The work grows in step with the scale: nothing at scale zero, one unit more for each
/// further step. One step is 20 random sequences, 40 renders for each thread or 600
/// files; for the other suites the scale itself is the number of rounds.
pub proof fn work_grows_with_the_scale(kind: SuiteKind, scale: nat)
    ensures
        work_at(kind, 0) == 0,
        work_at(kind, scale + 1) > work_at(kind, scale),
        work_at(SuiteKind::Lifecycle, scale) == 20 * scale,
        work_at(SuiteKind::Concurrency, scale) == 40 * scale,
        work_at(SuiteKind::Breadth, scale) == 600 * scale,
        kind != SuiteKind::Lifecycle && kind != SuiteKind::Concurrency && kind != SuiteKind::Breadth
            ==> work_at(kind, scale) == scale,
{
    let u = unit_of_work(kind);
    assert(u * (scale + 1) == u * scale + u) by (nonlinear_arith);
}

/// Exit codes and verdicts. Zero passes and nothing else does; one fails; the code for a
/// missing environment is inconclusive; the code of a panic is a panic of the harness;
/// what Windows reports for an unhandled exception, which is negative or has one of its
/// two top bits set, is a crash; everything else fails.
pub proof fn what_an_exit_code_means(code: i32)
    ensures
        verdict_of(code) == Verdict::Passed <==> code == 0,
        code == 1 ==> verdict_of(code) == Verdict::Failed,
        verdict_of(code) == Verdict::Inconclusive <==> code == 10,
        verdict_of(code) == Verdict::Panicked <==> code == 101,
        verdict_of(code) == Verdict::Crashed <==> code < 0 || code >= 0x4000_0000,
        verdict_of(code) != Verdict::Hung,
        0 <= code < 0x4000_0000 && code != 0 && code != 10 && code != 101 ==> verdict_of(code)
            == Verdict::Failed,
{
}

/// The labels tell the verdicts apart.
pub proof fn verdicts_are_told_apart(a: Verdict, b: Verdict)
    ensures
        a.label_text() == b.label_text() <==> a == b,
        Verdict::Passed.label_text() == "PASS"@,
{
    reveal_strlit("PASS");
    reveal_strlit("FAIL");
    reveal_strlit("CRASH");
    reveal_strlit("HANG");
    reveal_strlit("INCONCLUSIVE");
    reveal_strlit("PANIC");
    assert("PASS"@.len() == 4 && "FAIL"@.len() == 4 && "CRASH"@.len() == 5 && "HANG"@.len() == 4
        && "INCONCLUSIVE"@.len() == 12 && "PANIC"@.len() == 5);
    assert("PASS"@[0] == 'P' && "FAIL"@[0] == 'F' && "HANG"@[0] == 'H' && "CRASH"@[0] == 'C'
        && "PANIC"@[0] == 'P');
}

/// The watchdog ends by killing exactly a child that still runs past its deadline; it
/// waits exactly for one that still runs before it; in every other case it reports, and
/// what it reports is the child's own exit code where there is one. A child that was
/// killed never passes, nor one that was lost or ended without a code.
pub proof fn what_the_watchdog_does(poll: Poll, past_deadline: bool)
    ensures
        next_action(poll, past_deadline) is Kill <==> poll is Running && past_deadline,
        next_action(poll, past_deadline) is Sleep <==> poll is Running && !past_deadline,
        next_action(poll, past_deadline) matches WatchdogAction::Sleep(ms) ==> ms == 100,
        poll == Poll::Ended(None) ==> next_action(poll, past_deadline) == WatchdogAction::Report(
            ChildEnd::Exited(-1i32),
        ),
        poll matches Poll::Ended(Some(code)) ==> next_action(poll, past_deadline)
            == WatchdogAction::Report(ChildEnd::Exited(code)),
        next_action(poll, past_deadline) matches WatchdogAction::Report(end) ==> (
        end.meaning().0 == Verdict::Passed <==> poll == Poll::Ended(Some(0i32))),
        poll is Lost ==> next_action(poll, past_deadline) == WatchdogAction::Report(
            ChildEnd::SpawnFailed,
        ),
        ChildEnd::TimedOut.meaning().0 == Verdict::Hung,
        ChildEnd::SpawnFailed.meaning().0 == Verdict::Inconclusive,
        forall|code: i32| (#[trigger] ChildEnd::Exited(code).meaning()).1 == code,
{
}

/// The library is named after the architecture that this program was built for: the
/// three that are known have three different files, and any other is taken for the
/// first.
pub proof fn libraries_are_named_after_architectures(arch: Seq<char>)
    ensures
        dll_name("x86_64"@) == "win_svg_thumbs_x64.dll"@,
        dll_name("x86"@) == "win_svg_thumbs_x86.dll"@,
        dll_name("aarch64"@) == "win_svg_thumbs_arm64.dll"@,
        dll_name("x86_64"@) != dll_name("x86"@),
        dll_name("x86"@) != dll_name("aarch64"@),
        dll_name("x86_64"@) != dll_name("aarch64"@),
        arch != "x86"@ && arch != "aarch64"@ ==> dll_name(arch) == dll_name("x86_64"@),
{
    reveal_strlit("x86_64");
    reveal_strlit("x86");
    reveal_strlit("aarch64");
    reveal_strlit("win_svg_thumbs_x64.dll");
    reveal_strlit("win_svg_thumbs_x86.dll");
    reveal_strlit("win_svg_thumbs_arm64.dll");
    assert("x86"@.len() == 3 && "aarch64"@.len() == 7 && "x86_64"@.len() == 6);
    assert("win_svg_thumbs_x64.dll"@[16] == '6');
    assert("win_svg_thumbs_x86.dll"@[16] == '8');
}

/// The default library lies among the release builds next to the directory that the
/// executable lies in: `target/debug/gauntlet` and `target/release/gauntlet` give the
/// same library.
pub proof fn the_default_library_is_a_release_build(
    exe: Seq<Seq<char>>,
    dir: Seq<char>,
    name: Seq<char>,
    file: Seq<char>,
)
    ensures
        default_library(exe.push(dir).push(name), file) == Some(exe.push("release"@).push(file)),
        exe.len() < 2 ==> default_library(exe, file) is None,
{
    let all = exe.push(dir).push(name);
    assert(all.take(all.len() - 2) =~= exe);
}

/// The list has a line for every suite, in the order of the table: its name at the
/// beginning, its description from the sixteenth character on.
pub proof fn the_list_names_every_suite(i: int)
    requires
        0 <= i < suite_table().len(),
    ensures
        list_lines(suite_table()).len() == suite_table().len(),
        list_lines(suite_table())[i].take(suite_table()[i].name.len() as int)
            == suite_table()[i].name,
        list_lines(suite_table())[i].skip(15) == suite_table()[i].description,
{
    lemma_name_places();
    let s = suite_table()[i];
    reveal_strlit(" ");
    reveal_strlit("api-misuse");
    reveal_strlit("stream-faults");
    reveal_strlit("render");
    reveal_strlit("adversarial");
    reveal_strlit("svgz");
    reveal_strlit("size-limits");
    reveal_strlit("lifecycle");
    reveal_strlit("concurrency");
    reveal_strlit("churn");
    reveal_strlit("breadth");
    assert(s.name.len() <= 13);
    columns_are_as_wide_as_asked(s.name, 14);
    let line = list_lines(suite_table())[i];
    assert(line == left_in(s.name, 14) + " "@ + s.description);
    assert(line.take(s.name.len() as int) =~= left_in(s.name, 14).take(s.name.len() as int));
    assert(line.skip(15) =~= s.description);
}

} // verus!
