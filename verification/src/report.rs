//! Check bookkeeping and exit-code contract shared by every suite.
//!
//! A suite is a list of named checks. Each check either passes, fails, or is
//! skipped because a precondition could not be met. The distinction between
//! "failed" and "skipped" matters: a skipped check means that the code path
//! could not be exercised at all, which is inconclusive rather than green, so
//! skips are reported separately instead of being counted as success.
//!
//! Exit codes:
//!   0   all checks passed (skips are reported but do not fail)
//!   1   at least one check failed
//!   10  the suite could not run at all (environment or setup failure)
//!   101 panic
//!   negative / >= 0x40000000  unhandled Windows exception, a real crash
//! The supervisor adds 124 for a hang that its watchdog killed.

use vstd::prelude::*;
use crate::numbers::{dec, decimal};
use crate::text::{five, push_text, texts, three, two};

verus! {

pub const EXIT_FAIL: i32 = 1;

pub const EXIT_ENV: i32 = 10;

/// `std::path::PathBuf`, carried through unread.
#[verifier::external_type_specification]
#[verifier::external_body]
pub struct ExPathBuf(std::path::PathBuf);

#[derive(Clone, Copy, PartialEq, Eq, Structural)]
pub enum Outcome {
    Pass,
    Fail,
    Skip,
}

impl Outcome {
    pub open spec fn tag_text(self) -> Seq<char> {
        match self {
            Outcome::Pass => "PASS"@,
            Outcome::Fail => "FAIL"@,
            Outcome::Skip => "SKIP"@,
        }
    }

    fn tag(self) -> (s: &'static str)
        ensures
            s@ == self.tag_text(),
    {
        match self {
            Outcome::Pass => "PASS",
            Outcome::Fail => "FAIL",
            Outcome::Skip => "SKIP",
        }
    }
}

pub struct Check {
    pub name: String,
    pub outcome: Outcome,
    pub detail: String,
}

/// What a `Check` stands for.
pub struct CheckView {
    pub name: Seq<char>,
    pub outcome: Outcome,
    pub detail: Seq<char>,
}

impl View for Check {
    type V = CheckView;

    open spec fn view(&self) -> CheckView {
        CheckView { name: self.name@, outcome: self.outcome, detail: self.detail@ }
    }
}

impl CheckView {
    /// The line that reports this check on the console.
    pub open spec fn line(self) -> Seq<char> {
        "  ["@ + self.outcome.tag_text() + "] "@ + self.name + ": "@ + self.detail
    }
}

impl Check {
    /// The line that reports this check on the console.
    pub fn line(&self) -> (s: String)
        ensures
            s@ == self@.line(),
    {
        let mut s: String = five("  [", self.outcome.tag(), "] ", self.name.as_str(), ": ");
        s.append(self.detail.as_str());
        s
    }
}

/// What a list of checks stands for.
pub open spec fn check_views(checks: Seq<Check>) -> Seq<CheckView> {
    checks.map_values(|c: Check| c@)
}

/// What a list of borrowed checks stands for.
pub open spec fn borrowed_views(checks: Seq<&Check>) -> Seq<CheckView> {
    checks.map_values(|c: &Check| c@)
}

/// The checks of `all` with a given outcome, in order.
pub open spec fn with_outcome(all: Seq<CheckView>, outcome: Outcome) -> Seq<CheckView> {
    all.filter(|c: CheckView| c.outcome == outcome)
}

/// The checks of one suite.
pub struct Report {
    suite: String,
    checks: Vec<Check>,
    /// Where the name of the case in flight is mirrored, so that the supervisor
    /// can name the exact input that was being processed if this process
    /// crashes or is killed for hanging.
    heartbeat_path: Option<std::path::PathBuf>,
    /// How many checks the console has seen.
    shown: usize,
}

/// What a `Report` stands for.
pub struct ReportView {
    pub suite: Seq<char>,
    pub checks: Seq<CheckView>,
    pub heartbeat: Option<std::path::PathBuf>,
    pub shown: nat,
}

impl View for Report {
    type V = ReportView;

    closed spec fn view(&self) -> ReportView {
        ReportView {
            suite: self.suite@,
            checks: check_views(self.checks@),
            heartbeat: self.heartbeat_path,
            shown: self.shown as nat,
        }
    }
}

impl ReportView {
    /// This report with one more check.
    pub open spec fn record(self, name: Seq<char>, outcome: Outcome, detail: Seq<char>) -> ReportView {
        ReportView {
            checks: self.checks.push(CheckView { name: self.suite + "/"@ + name, outcome, detail }),
            ..self
        }
    }

    pub open spec fn pass(self, name: Seq<char>, detail: Seq<char>) -> ReportView {
        self.record(name, Outcome::Pass, detail)
    }

    pub open spec fn fail(self, name: Seq<char>, detail: Seq<char>) -> ReportView {
        self.record(name, Outcome::Fail, detail)
    }

    pub open spec fn skip(self, name: Seq<char>, detail: Seq<char>) -> ReportView {
        self.record(name, Outcome::Skip, detail)
    }

    pub open spec fn check(self, name: Seq<char>, ok: bool, detail: Seq<char>) -> ReportView {
        if ok {
            self.pass(name, detail)
        } else {
            self.fail(name, detail)
        }
    }

    pub open spec fn passes(self) -> Seq<CheckView> {
        with_outcome(self.checks, Outcome::Pass)
    }

    pub open spec fn failures(self) -> Seq<CheckView> {
        with_outcome(self.checks, Outcome::Fail)
    }

    pub open spec fn skips(self) -> Seq<CheckView> {
        with_outcome(self.checks, Outcome::Skip)
    }

    /// The exit code that this report asks for.
    pub open spec fn exit_code(self) -> i32 {
        if self.failures().len() == 0 {
            0
        } else {
            EXIT_FAIL
        }
    }
}

/// Console lines of the checks from `from` on.
pub open spec fn lines_from(checks: Seq<CheckView>, from: int) -> Seq<Seq<char>> {
    if from <= checks.len() {
        checks.skip(from).map_values(|c: CheckView| c.line())
    } else {
        Seq::empty()
    }
}

/// One line for each check: `head`, its name, `middle`, its detail.
pub open spec fn listing(checks: Seq<CheckView>, head: Seq<char>, middle: Seq<char>) -> Seq<Seq<char>> {
    checks.map_values(|c: CheckView| head + c.name + middle + c.detail)
}

impl ReportView {
    /// How many checks passed, failed and were skipped, in words.
    pub open spec fn counts(self, failed_word: Seq<char>) -> Seq<char> {
        dec(self.passes().len()) + " passed, "@ + dec(self.failures().len()) + failed_word + dec(
            self.skips().len(),
        ) + " skipped"@
    }

    /// What the console shows before the result line.
    pub open spec fn summary(self) -> Seq<Seq<char>> {
        seq![
            ""@,
            "SUITE-SUMMARY "@ + self.suite + ": "@ + self.counts(" failed, "@),
        ] + listing(self.failures(), "  FAILED: "@, " - "@) + listing(
            self.skips(),
            "  SKIPPED (could not be checked): "@,
            " - "@,
        )
    }

    /// The last line of the suite.
    pub open spec fn result(self) -> Seq<char> {
        if self.failures().len() == 0 {
            "SUITE-RESULT "@ + self.suite + ": OK"@
        } else {
            "SUITE-RESULT "@ + self.suite + ": FAILED"@
        }
    }

    /// What the run summary of the build says about this suite.
    pub open spec fn github(self) -> Seq<Seq<char>> {
        if self.failures().len() == 0 && self.skips().len() == 0 {
            seq!["- **"@ + self.suite + "**: "@ + dec(self.passes().len()) + " checks passed"@]
        } else {
            seq![
                "<details open><summary><strong>"@ + self.suite + "</strong>: "@ + self.counts(
                    " FAILED, "@,
                ) + "</summary>"@,
                ""@,
            ] + listing(self.failures(), "- **FAILED** `"@, "`<br>"@) + listing(
                self.skips(),
                "- _skipped_ `"@,
                "`: "@,
            ) + seq![""@, "</details>"@, ""@]
        }
    }
}

/// The text of the heartbeat for one case.
pub open spec fn heartbeat_text(suite: Seq<char>, case: Seq<char>) -> Seq<char> {
    suite + "\t"@ + case + "\n"@
}

/// Adding one check adds it to the checks with its outcome and to no others.
pub proof fn lemma_with_outcome_push(all: Seq<CheckView>, c: CheckView, outcome: Outcome)
    ensures
        with_outcome(all.push(c), outcome) == (if c.outcome == outcome {
            with_outcome(all, outcome).push(c)
        } else {
            with_outcome(all, outcome)
        }),
{
    assert(all.push(c).drop_last() =~= all);
    reveal(Seq::filter);
}

fn push_listing(v: &mut Vec<String>, checks: &Vec<&Check>, head: &str, middle: &str)
    ensures
        texts(final(v)@) == texts(old(v)@) + listing(borrowed_views(checks@), head@, middle@),
{
    let ghost all = listing(borrowed_views(checks@), head@, middle@);
    let mut i: usize = 0;
    assert(texts(v@) =~= texts(old(v)@) + all.take(0));
    while i < checks.len()
        invariant
            i <= checks@.len(),
            all == listing(borrowed_views(checks@), head@, middle@),
            texts(v@) == texts(old(v)@) + all.take(i as int),
        decreases checks@.len() - i,
    {
        let c: &Check = checks[i];
        let mut s: String = three(head, c.name.as_str(), middle);
        s.append(c.detail.as_str());
        push_text(v, s);
        i += 1;
        assert(all.take(i as int) =~= all.take(i - 1).push(all[i - 1]));
        assert(texts(v@) =~= texts(old(v)@) + all.take(i as int));
    }
    assert(all.take(i as int) =~= all);
}

impl Report {
    pub fn new(suite: &str) -> (r: Self)
        ensures
            r@ == (ReportView { suite: suite@, checks: Seq::empty(), heartbeat: None, shown: 0 }),
    {
        let r = Self {
            suite: suite.to_owned(),
            checks: Vec::new(),
            heartbeat_path: None,
            shown: 0,
        };
        assert(check_views(r.checks@) =~= Seq::<CheckView>::empty());
        r
    }

    /// Enables crash attribution: from now on `begin_case` asks for this file to
    /// be overwritten.
    pub fn with_heartbeat(self, path: std::path::PathBuf) -> (r: Self)
        ensures
            r@ == (ReportView { heartbeat: Some(path), ..self@ }),
    {
        Self {
            suite: self.suite,
            checks: self.checks,
            heartbeat_path: Some(path),
            shown: self.shown,
        }
    }

    /// The file to overwrite, and its new text, before `case` is attempted.
    pub fn begin_case(&self, case: &str) -> (r: Option<(&std::path::PathBuf, String)>)
        ensures
            r is Some == self@.heartbeat is Some,
            r matches Some((path, text)) ==> Some(*path) == self@.heartbeat && text@
                == heartbeat_text(self@.suite, case@),
    {
        match &self.heartbeat_path {
            Some(path) => {
                let mut text: String = three(self.suite.as_str(), "\t", case);
                text.append("\n");
                Some((path, text))
            },
            None => None,
        }
    }

    pub fn pass(&mut self, name: &str, detail: &str)
        ensures
            final(self)@ == old(self)@.pass(name@, detail@),
    {
        self.record(name, Outcome::Pass, detail);
    }

    pub fn fail(&mut self, name: &str, detail: &str)
        ensures
            final(self)@ == old(self)@.fail(name@, detail@),
    {
        self.record(name, Outcome::Fail, detail);
    }

    pub fn skip(&mut self, name: &str, detail: &str)
        ensures
            final(self)@ == old(self)@.skip(name@, detail@),
    {
        self.record(name, Outcome::Skip, detail);
    }

    /// Records a pass or a fail from a boolean.
    pub fn check(&mut self, name: &str, ok: bool, detail: &str)
        ensures
            final(self)@ == old(self)@.check(name@, ok, detail@),
    {
        if ok {
            self.pass(name, detail);
        } else {
            self.fail(name, detail);
        }
    }

    fn record(&mut self, name: &str, outcome: Outcome, detail: &str)
        ensures
            final(self)@ == old(self)@.record(name@, outcome, detail@),
    {
        let qualified: String = three(self.suite.as_str(), "/", name);
        let c: Check = Check { name: qualified, outcome, detail: detail.to_owned() };
        self.checks.push(c);
        assert(check_views(self.checks@) =~= check_views(old(self).checks@).push(c@));
    }

    /// Console lines of the checks that have not been shown yet; they count as
    /// shown from here on.
    pub fn take_lines(&mut self) -> (v: Vec<String>)
        ensures
            texts(v@) == lines_from(old(self)@.checks, old(self)@.shown as int),
            final(self)@ == (ReportView { shown: old(self)@.checks.len(), ..old(self)@ }),
    {
        let ghost all = lines_from(self@.checks, self@.shown as int);
        let mut v: Vec<String> = Vec::new();
        let mut i: usize = self.shown;
        assert(texts(v@) =~= all.take(0));
        while i < self.checks.len()
            invariant
                self@ == old(self)@,
                self.shown == self@.shown,
                self.checks@.len() == self@.checks.len(),
                check_views(self.checks@) == self@.checks,
                self.shown <= i,
                self.shown <= self.checks@.len() ==> i <= self.checks@.len(),
                self.shown > self.checks@.len() ==> i == self.shown,
                all == lines_from(self@.checks, self@.shown as int),
                texts(v@) == all.take(i - self.shown),
            decreases self.checks@.len() - i,
        {
            let s: String = self.checks[i].line();
            push_text(&mut v, s);
            i += 1;
            assert(all.take(i - self.shown) =~= all.take(i - 1 - self.shown).push(
                all[i - 1 - self.shown],
            ));
        }
        assert(all.take(i - self.shown) =~= all);
        self.shown = self.checks.len();
        v
    }

    fn count(&self, outcome: Outcome) -> (n: usize)
        ensures
            n == with_outcome(self@.checks, outcome).len(),
    {
        self.having(outcome).len()
    }

    fn having(&self, outcome: Outcome) -> (v: Vec<&Check>)
        ensures
            borrowed_views(v@) == with_outcome(self@.checks, outcome),
    {
        let mut v: Vec<&Check> = Vec::new();
        let mut i: usize = 0;
        let ghost all = self@.checks;
        assert(all.take(0) =~= Seq::<CheckView>::empty());
        proof {
            reveal(Seq::filter);
            assert(borrowed_views(v@) =~= with_outcome(all.take(0), outcome));
        }
        while i < self.checks.len()
            invariant
                i <= self.checks@.len(),
                all == check_views(self.checks@),
                borrowed_views(v@) == with_outcome(all.take(i as int), outcome),
            decreases self.checks@.len() - i,
        {
            proof {
                assert(all.take(i + 1) =~= all.take(i as int).push(all[i as int]));
                lemma_with_outcome_push(all.take(i as int), all[i as int], outcome);
            }
            let ghost before = v@;
            if self.checks[i].outcome == outcome {
                v.push(&self.checks[i]);
                assert(borrowed_views(v@) =~= borrowed_views(before).push(all[i as int]));
            }
            i += 1;
        }
        assert(all.take(i as int) =~= all);
        v
    }

    pub fn passed(&self) -> (n: usize)
        ensures
            n == self@.passes().len(),
    {
        self.count(Outcome::Pass)
    }

    /// Every failed check. There is deliberately no allowlist: a check that
    /// fails fails the build, whether or not the cause is already understood.
    pub fn failures(&self) -> (v: Vec<&Check>)
        ensures
            borrowed_views(v@) == self@.failures(),
    {
        self.having(Outcome::Fail)
    }

    pub fn skipped(&self) -> (v: Vec<&Check>)
        ensures
            borrowed_views(v@) == self@.skips(),
    {
        self.having(Outcome::Skip)
    }

    fn counts(&self, failed_word: &str) -> (s: String)
        ensures
            s@ == self@.counts(failed_word@),
    {
        let mut s: String = five(
            decimal(self.passed() as u64).as_str(),
            " passed, ",
            decimal(self.count(Outcome::Fail) as u64).as_str(),
            failed_word,
            decimal(self.count(Outcome::Skip) as u64).as_str(),
        );
        s.append(" skipped");
        s
    }

    /// What the console shows once the last check is done.
    pub fn summary_lines(&self) -> (v: Vec<String>)
        ensures
            texts(v@) == self@.summary(),
    {
        let mut v: Vec<String> = Vec::new();
        let mut s: String = three("SUITE-SUMMARY ", self.suite.as_str(), ": ");
        s.append(self.counts(" failed, ").as_str());
        push_text(&mut v, String::from_str(""));
        push_text(&mut v, s);
        push_listing(&mut v, &self.failures(), "  FAILED: ", " - ");
        push_listing(&mut v, &self.skipped(), "  SKIPPED (could not be checked): ", " - ");
        v
    }

    /// The last line of the suite.
    pub fn result_line(&self) -> (s: String)
        ensures
            s@ == self@.result(),
    {
        if self.count(Outcome::Fail) == 0 {
            three("SUITE-RESULT ", self.suite.as_str(), ": OK")
        } else {
            three("SUITE-RESULT ", self.suite.as_str(), ": FAILED")
        }
    }

    /// Lines for the run summary of the build: the failing check names and the
    /// measured numbers, so that a red run can be triaged without its log.
    pub fn github_summary(&self) -> (v: Vec<String>)
        ensures
            texts(v@) == self@.github(),
    {
        let mut v: Vec<String> = Vec::new();
        if self.count(Outcome::Fail) == 0 && self.count(Outcome::Skip) == 0 {
            let s: String = five(
                "- **",
                self.suite.as_str(),
                "**: ",
                decimal(self.passed() as u64).as_str(),
                " checks passed",
            );
            push_text(&mut v, s);
            assert(texts(v@) =~= self@.github());
            return v;
        }
        let mut s: String = five(
            "<details open><summary><strong>",
            self.suite.as_str(),
            "</strong>: ",
            self.counts(" FAILED, ").as_str(),
            "</summary>",
        );
        push_text(&mut v, s);
        push_text(&mut v, String::from_str(""));
        push_listing(&mut v, &self.failures(), "- **FAILED** `", "`<br>");
        push_listing(&mut v, &self.skipped(), "- _skipped_ `", "`: ");
        push_text(&mut v, String::from_str(""));
        push_text(&mut v, String::from_str("</details>"));
        push_text(&mut v, String::from_str(""));
        assert(texts(v@) =~= self@.github());
        v
    }

    /// The process exit code for this suite.
    pub fn finish(&self) -> (code: i32)
        ensures
            code == self@.exit_code(),
    {
        if self.count(Outcome::Fail) == 0 {
            0
        } else {
            EXIT_FAIL
        }
    }
}

/// The line and the exit code of a suite that cannot run at all. Distinct from a
/// check failure: the environment could not host the test, which says nothing
/// about the library under test.
pub fn env_bail(msg: &str) -> (r: (String, i32))
    ensures
        r.0@ == "SUITE-ENVIRONMENT-FAILURE: "@ + msg@,
        r.1 == EXIT_ENV,
{
    (two("SUITE-ENVIRONMENT-FAILURE: ", msg), EXIT_ENV)
}

/// Every check is counted exactly once: as passed, as failed or as skipped.
pub proof fn every_check_is_counted_once(r: ReportView)
    ensures
        r.passes().len() + r.failures().len() + r.skips().len() == r.checks.len(),
    decreases r.checks.len(),
{
    if r.checks.len() == 0 {
        reveal(Seq::filter);
    } else {
        let before = ReportView { checks: r.checks.drop_last(), ..r };
        every_check_is_counted_once(before);
        assert(r.checks.drop_last().push(r.checks.last()) =~= r.checks);
        lemma_with_outcome_push(r.checks.drop_last(), r.checks.last(), Outcome::Pass);
        lemma_with_outcome_push(r.checks.drop_last(), r.checks.last(), Outcome::Fail);
        lemma_with_outcome_push(r.checks.drop_last(), r.checks.last(), Outcome::Skip);
    }
}

/// A suite exits with zero exactly when none of its checks failed; skipped
/// checks do not fail it.
pub proof fn green_exactly_when_nothing_failed(r: ReportView)
    ensures
        r.exit_code() == 0 <==> forall|i: int|
            0 <= i < r.checks.len() ==> (#[trigger] r.checks[i]).outcome != Outcome::Fail,
        r.exit_code() != 0 ==> r.exit_code() == EXIT_FAIL,
    decreases r.checks.len(),
{
    if r.checks.len() == 0 {
        reveal(Seq::filter);
    } else {
        let before = ReportView { checks: r.checks.drop_last(), ..r };
        green_exactly_when_nothing_failed(before);
        assert(r.checks.drop_last().push(r.checks.last()) =~= r.checks);
        lemma_with_outcome_push(r.checks.drop_last(), r.checks.last(), Outcome::Fail);
        assert(r.checks[r.checks.len() - 1] == r.checks.last());
        assert forall|i: int| 0 <= i < before.checks.len() implies before.checks[i]
            == #[trigger] r.checks[i] by {}
    }
}

/// Once a check has failed, no later check makes the suite green again.
pub proof fn a_failure_is_never_forgotten(
    r: ReportView,
    name: Seq<char>,
    outcome: Outcome,
    detail: Seq<char>,
)
    ensures
        r.exit_code() != 0 ==> r.record(name, outcome, detail).exit_code() != 0,
        outcome == Outcome::Fail ==> r.record(name, outcome, detail).exit_code() != 0,
        outcome != Outcome::Fail ==> r.record(name, outcome, detail).exit_code() == r.exit_code(),
{
    lemma_with_outcome_push(
        r.checks,
        CheckView { name: r.suite + "/"@ + name, outcome, detail },
        Outcome::Fail,
    );
}

/// `after` is `before` with exactly one more check: it is called `name`, after the
/// suite, and has the given outcome.
pub open spec fn one_check(
    before: ReportView,
    after: ReportView,
    name: Seq<char>,
    outcome: Outcome,
) -> bool {
    &&& after.suite == before.suite
    &&& after.checks.len() == before.checks.len() + 1
    &&& forall|i: int|
        0 <= i < before.checks.len() ==> #[trigger] after.checks[i] == before.checks[i]
    &&& after.checks[before.checks.len() as int].name == before.suite + "/"@ + name
    &&& after.checks[before.checks.len() as int].outcome == outcome
}

/// `after` is `before` with exactly these checks more, in this order: each is called as
/// given, after the suite, and has the given outcome.
pub open spec fn checks_added(
    before: ReportView,
    after: ReportView,
    added: Seq<(Seq<char>, Outcome)>,
) -> bool {
    &&& after.suite == before.suite
    &&& after.checks.len() == before.checks.len() + added.len()
    &&& forall|i: int|
        0 <= i < before.checks.len() ==> #[trigger] after.checks[i] == before.checks[i]
    &&& forall|k: int|
        0 <= k < added.len() ==> after.checks[before.checks.len() + k].name == before.suite + "/"@
            + (#[trigger] added[k]).0 && after.checks[before.checks.len() + k].outcome == added[k].1
}

/// How a check turns out.
pub open spec fn outcome_of(ok: bool) -> Outcome {
    if ok {
        Outcome::Pass
    } else {
        Outcome::Fail
    }
}

/// Each of the four ways to record something records one check, with the outcome that
/// it is called after; a boolean passes exactly when it is true.
pub proof fn recording_adds_one_check(r: ReportView, name: Seq<char>, ok: bool, detail: Seq<char>)
    ensures
        one_check(r, r.pass(name, detail), name, Outcome::Pass),
        one_check(r, r.fail(name, detail), name, Outcome::Fail),
        one_check(r, r.skip(name, detail), name, Outcome::Skip),
        ok ==> one_check(r, r.check(name, ok, detail), name, Outcome::Pass),
        !ok ==> one_check(r, r.check(name, ok, detail), name, Outcome::Fail),
        r.pass(name, detail).checks.last().detail == detail,
        r.fail(name, detail).checks.last().detail == detail,
        r.skip(name, detail).checks.last().detail == detail,
        r.check(name, ok, detail).checks.last().detail == detail,
{
}

proof fn lemma_filtered(all: Seq<CheckView>, outcome: Outcome, c: CheckView)
    ensures
        with_outcome(all, outcome).contains(c) <==> all.contains(c) && c.outcome == outcome,
    decreases all.len(),
{
    reveal(Seq::filter);
    if all.len() == 0 {
        assert(!all.contains(c));
    } else {
        let rest = all.drop_last();
        let last = all.last();
        lemma_filtered(rest, outcome, c);
        assert(all =~= rest.push(last));
        lemma_with_outcome_push(rest, last, outcome);
        let kept = with_outcome(rest, outcome);
        if all.contains(c) {
            let i: int = choose|i: int| 0 <= i < all.len() && all[i] == c;
            if i < rest.len() {
                assert(rest[i] == c);
            }
        }
        if rest.contains(c) {
            let i: int = choose|i: int| 0 <= i < rest.len() && rest[i] == c;
            assert(all[i] == c);
        }
        assert(all[all.len() - 1] == last);
        if kept.contains(c) {
            let i: int = choose|i: int| 0 <= i < kept.len() && kept[i] == c;
            assert(kept.push(last)[i] == c);
        }
        assert(kept.push(last)[kept.len() as int] == last);
        if kept.push(last).contains(c) {
            let i: int = choose|i: int| 0 <= i < kept.len() + 1 && kept.push(last)[i] == c;
            if i < kept.len() {
                assert(kept[i] == c);
            }
        }
    }
}

/// A check is listed as passed, failed or skipped exactly when it was recorded with
/// that outcome.
pub proof fn checks_are_listed_by_their_outcome(r: ReportView, c: CheckView)
    ensures
        r.passes().contains(c) <==> r.checks.contains(c) && c.outcome == Outcome::Pass,
        r.failures().contains(c) <==> r.checks.contains(c) && c.outcome == Outcome::Fail,
        r.skips().contains(c) <==> r.checks.contains(c) && c.outcome == Outcome::Skip,
{
    lemma_filtered(r.checks, Outcome::Pass, c);
    lemma_filtered(r.checks, Outcome::Fail, c);
    lemma_filtered(r.checks, Outcome::Skip, c);
}

/// The three tags differ, so a line tells how its check turned out.
pub proof fn outcomes_are_told_apart(a: Outcome, b: Outcome)
    ensures
        a.tag_text() == b.tag_text() <==> a == b,
        Outcome::Pass.tag_text()[0] == 'P',
        Outcome::Fail.tag_text()[0] == 'F',
        Outcome::Skip.tag_text()[0] == 'S',
{
    reveal_strlit("PASS");
    reveal_strlit("FAIL");
    reveal_strlit("SKIP");
    assert(Outcome::Pass.tag_text()[0] == 'P');
    assert(Outcome::Fail.tag_text()[0] == 'F');
    assert(Outcome::Skip.tag_text()[0] == 'S');
}

/// What the console has not seen yet is shown once: one line for each check from there
/// on, in order, with the check's own name and detail in it.
pub proof fn every_new_check_gets_a_line(r: ReportView)
    requires
        r.shown <= r.checks.len(),
    ensures
        lines_from(r.checks, r.shown as int).len() == r.checks.len() - r.shown,
        forall|i: int|
            0 <= i < r.checks.len() - r.shown ==> #[trigger] lines_from(r.checks, r.shown as int)[i]
                == "  ["@ + r.checks[r.shown + i].outcome.tag_text() + "] "@ + r.checks[r.shown
                + i].name + ": "@ + r.checks[r.shown + i].detail,
{
}

/// The summary names every failed and every skipped check with its detail, and nothing
/// besides the line with the counts.
pub proof fn the_summary_names_what_did_not_pass(r: ReportView)
    ensures
        r.summary().len() == 2 + r.failures().len() + r.skips().len(),
        forall|i: int|
            0 <= i < r.failures().len() ==> #[trigger] r.summary()[2 + i] == "  FAILED: "@
                + r.failures()[i].name + " - "@ + r.failures()[i].detail,
        forall|i: int|
            0 <= i < r.skips().len() ==> #[trigger] r.summary()[2 + r.failures().len() + i]
                == "  SKIPPED (could not be checked): "@ + r.skips()[i].name + " - "@
                + r.skips()[i].detail,
        r.summary()[1] == "SUITE-SUMMARY "@ + r.suite + ": "@ + (dec(r.passes().len())
            + " passed, "@ + dec(r.failures().len()) + " failed, "@ + dec(r.skips().len())
            + " skipped"@),
        r.exit_code() == 0 <==> r.result() == "SUITE-RESULT "@ + r.suite + ": OK"@,
{
    let head = seq![
        ""@,
        "SUITE-SUMMARY "@ + r.suite + ": "@ + r.counts(" failed, "@),
    ];
    let fails = listing(r.failures(), "  FAILED: "@, " - "@);
    let skips = listing(r.skips(), "  SKIPPED (could not be checked): "@, " - "@);
    assert(r.summary() == head + fails + skips);
    assert forall|i: int| 0 <= i < r.failures().len() implies #[trigger] r.summary()[2 + i]
        == "  FAILED: "@ + r.failures()[i].name + " - "@ + r.failures()[i].detail by {
        assert(r.summary()[2 + i] == fails[i]);
    }
    assert forall|i: int| 0 <= i < r.skips().len() implies #[trigger] r.summary()[2
        + r.failures().len() + i] == "  SKIPPED (could not be checked): "@ + r.skips()[i].name
        + " - "@ + r.skips()[i].detail by {
        assert(r.summary()[2 + r.failures().len() + i] == skips[i]);
    }
    assert(r.summary()[1] == head[1]);
    reveal_strlit(": OK");
    reveal_strlit(": FAILED");
    let a = "SUITE-RESULT "@ + r.suite + ": OK"@;
    let b = "SUITE-RESULT "@ + r.suite + ": FAILED"@;
    assert(a.len() != b.len());
}

/// The run summary of the build has one line for a suite in which everything was checked
/// and passed; for any other it has a line with the counts and one for every check that
/// failed or was skipped, with its name and detail.
pub proof fn the_build_summary_names_what_did_not_pass(r: ReportView)
    ensures
        r.github().len() == 1 <==> r.failures().len() == 0 && r.skips().len() == 0,
        r.github().len() > 1 ==> r.github().len() == 5 + r.failures().len() + r.skips().len(),
        r.github().len() > 1 ==> (forall|i: int|
            0 <= i < r.failures().len() ==> #[trigger] r.github()[2 + i] == "- **FAILED** `"@
                + r.failures()[i].name + "`<br>"@ + r.failures()[i].detail),
        r.github().len() > 1 ==> (forall|i: int|
            0 <= i < r.skips().len() ==> #[trigger] r.github()[2 + r.failures().len() + i]
                == "- _skipped_ `"@ + r.skips()[i].name + "`: "@ + r.skips()[i].detail),
        r.exit_code() == 0 || r.exit_code() == 1,
        r.exit_code() == 1 <==> r.failures().len() > 0,
{
    if r.github().len() > 1 {
        let fails = listing(r.failures(), "- **FAILED** `"@, "`<br>"@);
        let skips = listing(r.skips(), "- _skipped_ `"@, "`: "@);
        assert forall|i: int| 0 <= i < r.failures().len() implies #[trigger] r.github()[2 + i]
            == "- **FAILED** `"@ + r.failures()[i].name + "`<br>"@ + r.failures()[i].detail by {
            assert(r.github()[2 + i] == fails[i]);
        }
        assert forall|i: int| 0 <= i < r.skips().len() implies #[trigger] r.github()[2
            + r.failures().len() + i] == "- _skipped_ `"@ + r.skips()[i].name + "`: "@
            + r.skips()[i].detail by {
            assert(r.github()[2 + r.failures().len() + i] == skips[i]);
        }
    }
}

} // verus!
