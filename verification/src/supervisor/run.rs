//! One supervised run: which suites it goes through, what it says about each,
//! and how it ends.

use vstd::prelude::*;
use crate::numbers::{dec, dec_int, decimal, decimal_int};
use crate::report::{heartbeat_text, EXIT_ENV, EXIT_FAIL};
use crate::supervisor::args::{replay_words, text_of, Args, ArgsView};
use crate::supervisor::{
    suite_table, suite_views, suites, ChildEnd, SuiteSpec, SuiteView, Verdict,
};
use crate::text::{
    after_last_tab, extend_texts, first_line, is_space, join, joined, last_field, left_in,
    lemma_after_last_tab, lemma_first_line, lemma_trim_back, lemma_trim_front, no_texts, pad_left,
    pad_right, push_text, right_in, same, texts, three, trimmed, trimmed_first_line,
    trimming_removes_white_space_only, two,
};

verus! {

// ---------------------------------------------------------------
//                           Selection
// ---------------------------------------------------------------

/// A suite of the table is called `name`.
pub open spec fn known(name: Seq<char>) -> bool {
    exists|i: int| 0 <= i < suite_table().len() && (#[trigger] suite_table()[i]).name == name
}

/// The first requested name, from place `i` on, that no suite has.
pub open spec fn first_unknown(requested: Seq<Seq<char>>, i: int) -> Option<Seq<char>>
    decreases requested.len() - i,
{
    if i >= requested.len() {
        None
    } else if !known(requested[i]) {
        Some(requested[i])
    } else {
        first_unknown(requested, i + 1)
    }
}

/// The suites that a request selects: all of them when nothing is named, the
/// named ones in the order of the table otherwise. A name that no suite has is
/// an error.
pub open spec fn selection(requested: Seq<Seq<char>>) -> Result<Seq<SuiteView>, Seq<char>> {
    if requested.len() == 0 {
        Ok(suite_table())
    } else {
        match first_unknown(requested, 0) {
            Some(name) => Err(name),
            None => Ok(suite_table().filter(|s: SuiteView| requested.contains(s.name))),
        }
    }
}

fn is_known(all: &Vec<SuiteSpec>, name: &str) -> (r: bool)
    requires
        suite_views(all@) == suite_table(),
    ensures
        r == known(name@),
{
    let mut i: usize = 0;
    while i < all.len()
        invariant
            i <= all@.len(),
            suite_views(all@) == suite_table(),
            forall|k: int| 0 <= k < i ==> (#[trigger] suite_table()[k]).name != name@,
        decreases all@.len() - i,
    {
        assert(suite_table()[i as int] == all@[i as int]@);
        if same(all[i].name, name) {
            return true;
        }
        i += 1;
    }
    false
}

fn contains(names: &Vec<String>, name: &str) -> (r: bool)
    ensures
        r == texts(names@).contains(name@),
{
    let mut i: usize = 0;
    while i < names.len()
        invariant
            i <= names@.len(),
            forall|k: int| 0 <= k < i ==> texts(names@)[k] != name@,
        decreases names@.len() - i,
    {
        if same(names[i].as_str(), name) {
            assert(texts(names@)[i as int] == name@);
            return true;
        }
        i += 1;
    }
    false
}

/// The suites that a request selects, or the first name that no suite has.
pub fn select_suites(requested: &Vec<String>) -> (r: Result<Vec<SuiteSpec>, String>)
    ensures
        match r {
            Ok(v) => selection(texts(requested@)) == Ok::<Seq<SuiteView>, Seq<char>>(
                suite_views(v@),
            ),
            Err(name) => selection(texts(requested@)) == Err::<Seq<SuiteView>, Seq<char>>(name@),
        },
{
    let all: Vec<SuiteSpec> = suites();
    if requested.len() == 0 {
        return Ok(all);
    }
    let ghost names = texts(requested@);
    let mut i: usize = 0;
    while i < requested.len()
        invariant
            i <= requested@.len(),
            names == texts(requested@),
            suite_views(all@) == suite_table(),
            first_unknown(names, 0) == first_unknown(names, i as int),
        decreases requested@.len() - i,
    {
        assert(names[i as int] == requested@[i as int]@);
        if !is_known(&all, requested[i].as_str()) {
            return Err(requested[i].as_str().to_owned());
        }
        i += 1;
    }
    let mut picked: Vec<SuiteSpec> = Vec::new();
    let ghost wanted = |s: SuiteView| names.contains(s.name);
    let mut k: usize = 0;
    proof {
        reveal(Seq::filter);
        assert(suite_views(picked@) =~= suite_table().take(0).filter(wanted));
    }
    while k < all.len()
        invariant
            k <= all@.len(),
            names == texts(requested@),
            wanted == (|s: SuiteView| names.contains(s.name)),
            suite_views(all@) == suite_table(),
            suite_views(picked@) == suite_table().take(k as int).filter(wanted),
        decreases all@.len() - k,
    {
        let s: SuiteSpec = all[k];
        let ghost before = picked@;
        proof {
            assert(suite_table()[k as int] == s@);
            reveal(Seq::filter);
            let next = suite_table().take(k + 1);
            assert(next.drop_last() =~= suite_table().take(k as int));
            assert(next.last() == s@);
        }
        if contains(requested, s.name) {
            picked.push(s);
            assert(suite_views(picked@) =~= suite_views(before).push(s@));
        }
        k += 1;
    }
    assert(suite_table().take(k as int) =~= suite_table());
    Ok(picked)
}

/// Why a run does not start.
pub enum Refusal {
    /// There is no library to test.
    NoLibrary,
    /// No suite is called this.
    UnknownSuite(String),
}

/// What a `Refusal` stands for.
pub enum RefusalView {
    NoLibrary,
    UnknownSuite(Seq<char>),
}

impl View for Refusal {
    type V = RefusalView;

    open spec fn view(&self) -> RefusalView {
        match self {
            Refusal::NoLibrary => RefusalView::NoLibrary,
            Refusal::UnknownSuite(name) => RefusalView::UnknownSuite(name@),
        }
    }
}

/// The exit code of a command line that cannot be carried out.
pub const EXIT_USAGE: i32 = 2;

impl RefusalView {
    /// The exit code that a refusal ends in.
    pub open spec fn code(self) -> i32 {
        match self {
            RefusalView::NoLibrary => EXIT_ENV,
            RefusalView::UnknownSuite(_) => EXIT_USAGE,
        }
    }
}

impl Refusal {
    /// The exit code that this refusal ends in.
    pub fn exit_code(&self) -> (code: i32)
        ensures
            code == self@.code(),
    {
        match self {
            Refusal::NoLibrary => EXIT_ENV,
            Refusal::UnknownSuite(_) => EXIT_USAGE,
        }
    }
}

/// The suites that a run goes through, or why it does not start: without a library
/// there is nothing to run, whatever was asked for; with one, every suite that was
/// asked for must exist.
pub open spec fn admission(requested: Seq<Seq<char>>, library_exists: bool) -> Result<
    Seq<SuiteView>,
    RefusalView,
> {
    if !library_exists {
        Err(RefusalView::NoLibrary)
    } else {
        match selection(requested) {
            Ok(selected) => Ok(selected),
            Err(name) => Err(RefusalView::UnknownSuite(name)),
        }
    }
}

/// A run that is refused never ends as one that passed or as one whose checks
/// failed, and the code tells the reasons apart.
pub proof fn a_refused_run_is_never_green(requested: Seq<Seq<char>>, library_exists: bool)
    ensures
        admission(requested, library_exists) matches Err(refusal) ==> {
            &&& refusal.code() != 0
            &&& refusal.code() != EXIT_FAIL
            &&& refusal.code() == EXIT_ENV <==> !library_exists
        },
        admission(requested, library_exists) is Ok <==> library_exists && forall|i: int|
            0 <= i < requested.len() ==> known(#[trigger] requested[i]),
{
    lemma_first_unknown(requested, 0);
}

proof fn lemma_first_unknown(requested: Seq<Seq<char>>, i: int)
    requires
        0 <= i <= requested.len(),
    ensures
        first_unknown(requested, i) is None <==> forall|k: int|
            i <= k < requested.len() ==> known(#[trigger] requested[k]),
    decreases requested.len() - i,
{
    if i < requested.len() && known(requested[i]) {
        lemma_first_unknown(requested, i + 1);
    }
}

/// A run goes only through suites of the table.
pub proof fn selected_suites_are_known(requested: Seq<Seq<char>>, s: SuiteView)
    requires
        selection(requested) matches Ok(v) && v.contains(s),
    ensures
        suite_table().contains(s),
        requested.len() > 0 ==> requested.contains(s.name),
{
    if requested.len() > 0 {
        let wanted = |t: SuiteView| requested.contains(t.name);
        let v = suite_table().filter(wanted);
        let i = v.index_of(s);
        suite_table().lemma_filter_contains_rev(wanted, s);
        lemma_filtered_satisfy(suite_table(), wanted, s);
    }
}

proof fn lemma_filtered_satisfy(all: Seq<SuiteView>, f: spec_fn(SuiteView) -> bool, s: SuiteView)
    requires
        all.filter(f).contains(s),
    ensures
        f(s),
    decreases all.len(),
{
    reveal(Seq::filter);
    if all.len() > 0 {
        let rest = all.drop_last();
        if rest.filter(f).contains(s) {
            lemma_filtered_satisfy(rest, f, s);
        }
    }
}

// ---------------------------------------------------------------
//                            Results
// ---------------------------------------------------------------

/// What came of one suite.
pub struct SuiteResult {
    pub name: String,
    pub verdict: Verdict,
    pub exit_code: i32,
    /// Wall-clock seconds with one decimal.
    pub seconds: String,
    /// Case that was in flight when the child died, from the heartbeat file.
    pub last_case: Option<String>,
}

/// What a `SuiteResult` stands for.
pub struct ResultView {
    pub name: Seq<char>,
    pub verdict: Verdict,
    pub exit_code: i32,
    pub seconds: Seq<char>,
    pub last_case: Option<Seq<char>>,
}

impl View for SuiteResult {
    type V = ResultView;

    open spec fn view(&self) -> ResultView {
        ResultView {
            name: self.name@,
            verdict: self.verdict,
            exit_code: self.exit_code,
            seconds: self.seconds@,
            last_case: text_of(self.last_case),
        }
    }
}

/// What a list of results stands for.
pub open spec fn result_views(results: Seq<SuiteResult>) -> Seq<ResultView> {
    results.map_values(|r: SuiteResult| r@)
}

/// The case that a heartbeat names, together with its suite: the first line,
/// unless there is nothing in it.
pub open spec fn case_in_flight(heartbeat: Option<Seq<char>>) -> Option<Seq<char>> {
    match heartbeat {
        Some(s) => if trimmed(first_line(s)).len() == 0 {
            None
        } else {
            Some(trimmed(first_line(s)))
        },
        None => None,
    }
}

/// The case that the text of a heartbeat file names.
pub fn read_heartbeat(heartbeat: Option<&str>) -> (r: Option<String>)
    ensures
        text_of(r) == case_in_flight(
            match heartbeat {
                Some(s) => Some(s@),
                None => None,
            },
        ),
{
    match heartbeat {
        Some(s) => {
            let line: &str = trimmed_first_line(s);
            if line.unicode_len() == 0 {
                None
            } else {
                Some(line.to_owned())
            }
        },
        None => None,
    }
}

/// What a suite wrote before it started on a case names that case: the last
/// field of what is read back is the case itself.
pub proof fn heartbeat_names_the_case(suite: Seq<char>, case: Seq<char>)
    requires
        suite.len() > 0,
        !is_space(suite[0]),
        case.len() > 0,
        !is_space(case.last()),
        forall|k: int| 0 <= k < suite.len() ==> suite[k] != '\n',
        forall|k: int| 0 <= k < case.len() ==> case[k] != '\n' && case[k] != '\t',
    ensures
        case_in_flight(Some(heartbeat_text(suite, case))) == Some(suite + "\t"@ + case),
        after_last_tab(suite + "\t"@ + case) == case,
{
    reveal_strlit("\t");
    reveal_strlit("\n");
    let line = suite + "\t"@ + case;
    let n = line.len() as int;
    let all = heartbeat_text(suite, case);
    assert forall|k: int| 0 <= k < n implies all[k] != '\n' by {
        assert(all[k] == line[k]);
        if k < suite.len() {
            assert(line[k] == suite[k]);
        } else if k > suite.len() {
            assert(line[k] == case[k - suite.len() - 1]);
        }
    }
    lemma_first_line(all, n);
    assert(all.take(n) =~= line);
    lemma_trim_front(line, 0);
    assert(line.skip(0) =~= line);
    assert(line[n - 1] == case.last());
    lemma_trim_back(line, n);
    assert(line.take(n) =~= line);
    let at = suite.len() as int + 1;
    assert forall|k: int| at <= k < n implies line[k] != '\t' by {
        assert(line[k] == case[k - at]);
    }
    lemma_after_last_tab(line, at);
    assert(line.skip(at) =~= case);
}

// ---------------------------------------------------------------
//                              Run
// ---------------------------------------------------------------

/// A run of the selected suites, one after the other.
pub struct Run {
    args: Args,
    selected: Vec<SuiteSpec>,
    results: Vec<SuiteResult>,
}

/// What a `Run` stands for.
pub struct RunView {
    pub args: ArgsView,
    pub selected: Seq<SuiteView>,
    pub results: Seq<ResultView>,
}

impl View for Run {
    type V = RunView;

    closed spec fn view(&self) -> RunView {
        RunView {
            args: self.args@,
            selected: suite_views(self.selected@),
            results: result_views(self.results@),
        }
    }
}

pub const RULE: &'static str = "=================================================================";

pub const THIN_RULE: &'static str = "-----------------------------------------------------------------";

/// The verdicts for which the case in flight matters.
pub open spec fn died(v: Verdict) -> bool {
    v == Verdict::Crashed || v == Verdict::Hung || v == Verdict::Panicked
}

impl RunView {
    /// The suite whose turn it is.
    pub open spec fn next(self) -> Option<SuiteView> {
        if self.results.len() < self.selected.len() {
            Some(self.selected[self.results.len() as int])
        } else {
            None
        }
    }

    /// The result of the suite whose turn it is.
    pub open spec fn result_of(
        self,
        end: ChildEnd,
        heartbeat: Option<Seq<char>>,
        seconds: Seq<char>,
    ) -> ResultView {
        ResultView {
            name: self.selected[self.results.len() as int].name,
            verdict: end.meaning().0,
            exit_code: end.meaning().1,
            seconds,
            last_case: case_in_flight(heartbeat),
        }
    }

    /// This run with the result of the suite whose turn it is.
    pub open spec fn concluded(
        self,
        end: ChildEnd,
        heartbeat: Option<Seq<char>>,
        seconds: Seq<char>,
    ) -> RunView {
        RunView { results: self.results.push(self.result_of(end, heartbeat, seconds)), ..self }
    }

    /// Every result so far belongs to the suite in its place.
    pub open spec fn wf(self) -> bool {
        &&& self.results.len() <= self.selected.len()
        &&& forall|i: int|
            0 <= i < self.results.len() ==> (#[trigger] self.results[i]).name
                == self.selected[i].name
    }

    /// What the console says when a suite is done.
    pub open spec fn conclusion(self, r: ResultView) -> Seq<Seq<char>> {
        let head = seq![
            ""@,
            "<<< SUITE "@ + r.name + " -> "@ + r.verdict.label_text() + " (exit "@ + dec_int(
                r.exit_code as int,
            ) + ", "@ + r.seconds + "s)"@,
        ];
        let middle = if !died(r.verdict) {
            Seq::empty()
        } else {
            match r.last_case {
                Some(case) => seq![
                    "    LAST CASE IN FLIGHT: "@ + case,
                    "    reproduce with: gauntlet exec "@ + r.name + " --dll "@ + self.args.dll
                        + " --seed "@ + dec(self.args.seed as nat) + " --only "@ + after_last_tab(
                        case,
                    ),
                ],
                None => seq!["    (no heartbeat recorded; the suite died before its first case)"@],
            }
        };
        head + middle + seq![""@]
    }

    pub open spec fn names(self) -> Seq<Seq<char>> {
        self.selected.map_values(|s: SuiteView| s.name)
    }
}

/// What the console says first: what the run goes by.
pub open spec fn title(a: ArgsView) -> Seq<Seq<char>> {
    seq![
        RULE@,
        " SVG thumbnail provider - test gauntlet"@,
        RULE@,
        "DLL under test : "@ + a.dll,
        "seed           : "@ + dec(a.seed as nat),
        "scale          : "@ + dec(a.scale as nat),
        "corpus         : "@ + a.corpus,
    ]
}

/// What the console says first: what the run goes by.
pub fn title_lines(a: &Args) -> (v: Vec<String>)
    ensures
        texts(v@) == title(a@),
{
    let mut v: Vec<String> = no_texts();
    push_text(&mut v, RULE.to_owned());
    push_text(&mut v, " SVG thumbnail provider - test gauntlet".to_owned());
    push_text(&mut v, RULE.to_owned());
    push_text(&mut v, two("DLL under test : ", a.dll.as_str()));
    push_text(&mut v, two("seed           : ", decimal(a.seed).as_str()));
    push_text(&mut v, two("scale          : ", decimal(a.scale as u64).as_str()));
    push_text(&mut v, two("corpus         : ", a.corpus.as_str()));
    v
}

/// What the console says before a suite starts.
pub open spec fn banner_text(s: SuiteView) -> Seq<Seq<char>> {
    seq![THIN_RULE@, ">>> SUITE "@ + s.name + " ("@ + s.description + ")"@, THIN_RULE@]
}

/// What the console says before a suite starts.
pub fn banner(s: &SuiteSpec) -> (v: Vec<String>)
    ensures
        texts(v@) == banner_text(s@),
{
    let mut v: Vec<String> = no_texts();
    let mut line: String = three(">>> SUITE ", s.name, " (");
    line.append(s.description);
    line.append(")");
    push_text(&mut v, THIN_RULE.to_owned());
    push_text(&mut v, line);
    push_text(&mut v, THIN_RULE.to_owned());
    v
}

/// Name of the heartbeat file of a suite.
pub open spec fn heartbeat_name(suite: Seq<char>) -> Seq<char> {
    "heartbeat-"@ + suite + ".txt"@
}

/// Name of the heartbeat file of a suite.
pub fn heartbeat_file(suite: &str) -> (s: String)
    ensures
        s@ == heartbeat_name(suite@),
{
    three("heartbeat-", suite, ".txt")
}

/// The heading of this run in the run summary of the build.
pub fn github_heading(seed: u64) -> (v: Vec<String>)
    ensures
        texts(v@) == seq!["### Gauntlet (seed `"@ + dec(seed as nat) + "`)"@, ""@],
{
    let mut v: Vec<String> = no_texts();
    push_text(&mut v, three("### Gauntlet (seed `", decimal(seed).as_str(), "`)"));
    push_text(&mut v, "".to_owned());
    v
}

impl Run {
    /// Starts a run of the suites that the arguments select, where there is a library
    /// to run them on.
    pub fn start(args: Args, library_exists: bool) -> (r: Result<Run, Refusal>)
        ensures
            match r {
                Ok(run) => {
                    &&& admission(args@.suites, library_exists) == Ok::<
                        Seq<SuiteView>,
                        RefusalView,
                    >(run@.selected)
                    &&& run@.args == args@
                    &&& run@.results.len() == 0
                    &&& run@.wf()
                },
                Err(refusal) => admission(args@.suites, library_exists) == Err::<
                    Seq<SuiteView>,
                    RefusalView,
                >(refusal@),
            },
    {
        if !library_exists {
            return Err(Refusal::NoLibrary);
        }
        match select_suites(&args.suites) {
            Ok(selected) => Ok(Run { args, selected, results: Vec::new() }),
            Err(name) => Err(Refusal::UnknownSuite(name)),
        }
    }

    /// What this run goes by.
    pub fn args(&self) -> (a: &Args)
        ensures
            a@ == self@.args,
    {
        &self.args
    }

    /// The suite whose turn it is.
    pub fn next(&self) -> (r: Option<SuiteSpec>)
        ensures
            match r {
                Some(s) => self@.next() == Some(s@),
                None => self@.next() is None,
            },
    {
        if self.results.len() < self.selected.len() {
            Some(self.selected[self.results.len()])
        } else {
            None
        }
    }

    /// Records how the child of the current suite ended, and says what the
    /// console shows about it.
    pub fn conclude(&mut self, end: ChildEnd, heartbeat: Option<&str>, seconds: &str) -> (v: Vec<
        String,
    >)
        requires
            old(self)@.wf(),
            old(self)@.next() is Some,
        ensures
            final(self)@.wf(),
            final(self)@ == old(self)@.concluded(
                end,
                match heartbeat {
                    Some(s) => Some(s@),
                    None => None,
                },
                seconds@,
            ),
            texts(v@) == old(self)@.conclusion(final(self)@.results.last()),
    {
        let (verdict, exit_code) = end.judge();
        let r: SuiteResult = SuiteResult {
            name: self.selected[self.results.len()].name.to_owned(),
            verdict,
            exit_code,
            seconds: seconds.to_owned(),
            last_case: read_heartbeat(heartbeat),
        };
        let v: Vec<String> = self.conclusion_lines(&r);
        self.results.push(r);
        assert(result_views(self.results@) =~= result_views(old(self).results@).push(r@));
        v
    }

    fn conclusion_lines(&self, r: &SuiteResult) -> (v: Vec<String>)
        ensures
            texts(v@) == self@.conclusion(r@),
    {
        let mut v: Vec<String> = no_texts();
        let mut line: String = three("<<< SUITE ", r.name.as_str(), " -> ");
        line.append(r.verdict.label());
        line.append(" (exit ");
        line.append(decimal_int(r.exit_code as i64).as_str());
        line.append(", ");
        line.append(r.seconds.as_str());
        line.append("s)");
        push_text(&mut v, "".to_owned());
        push_text(&mut v, line);
        if r.verdict == Verdict::Crashed || r.verdict == Verdict::Hung || r.verdict
            == Verdict::Panicked {
            match &r.last_case {
                Some(case) => {
                    let mut replay: String = three(
                        "    reproduce with: gauntlet exec ",
                        r.name.as_str(),
                        " --dll ",
                    );
                    replay.append(self.args.dll.as_str());
                    replay.append(" --seed ");
                    replay.append(decimal(self.args.seed).as_str());
                    replay.append(" --only ");
                    replay.append(last_field(case.as_str()));
                    push_text(&mut v, two("    LAST CASE IN FLIGHT: ", case.as_str()));
                    push_text(&mut v, replay);
                },
                None => {
                    push_text(
                        &mut v,
                        "    (no heartbeat recorded; the suite died before its first case)".to_owned(),
                    );
                },
            }
        }
        push_text(&mut v, "".to_owned());
        assert(texts(v@) =~= self@.conclusion(r@));
        v
    }

    /// The line that lists the selected suites.
    pub fn suites_line(&self) -> (s: String)
        ensures
            s@ == "suites         : "@ + joined(self@.names(), ", "@),
    {
        let mut names: Vec<String> = Vec::new();
        let mut i: usize = 0;
        assert(texts(names@) =~= self@.names().take(0));
        while i < self.selected.len()
            invariant
                i <= self.selected@.len(),
                self@.selected == suite_views(self.selected@),
                texts(names@) == self@.names().take(i as int),
            decreases self.selected@.len() - i,
        {
            push_text(&mut names, self.selected[i].name.to_owned());
            i += 1;
            assert(self@.names().take(i as int) =~= self@.names().take(i - 1).push(
                self@.names()[i - 1],
            ));
        }
        assert(self@.names().take(i as int) =~= self@.names());
        two("suites         : ", join(&names, ", ").as_str())
    }
}

// ---------------------------------------------------------------
//                            Summary
// ---------------------------------------------------------------

/// The names of the suites with a given verdict, in order.
pub open spec fn names_with(results: Seq<ResultView>, verdict: Verdict) -> Seq<Seq<char>>
    decreases results.len(),
{
    if results.len() == 0 {
        Seq::empty()
    } else {
        let before = names_with(results.drop_last(), verdict);
        if results.last().verdict == verdict {
            before.push(results.last().name)
        } else {
            before
        }
    }
}

/// The line about one suite in the summary.
pub open spec fn result_text(r: ResultView) -> Seq<char> {
    "  "@ + left_in(r.name, 14) + " "@ + left_in(r.verdict.label_text(), 13) + " exit="@ + left_in(
        dec_int(r.exit_code as int),
        6,
    ) + " "@ + right_in(r.seconds, 7) + "s"@ + match r.last_case {
        Some(c) => if r.verdict == Verdict::Crashed || r.verdict == Verdict::Hung {
            "  last case: "@ + after_last_tab(c)
        } else {
            ""@
        },
        None => ""@,
    }
}

/// `head` and the names, when there are any.
pub open spec fn group(head: Seq<char>, names: Seq<Seq<char>>) -> Seq<Seq<char>> {
    if names.len() == 0 {
        Seq::empty()
    } else {
        seq![head + joined(names, ", "@)]
    }
}

pub open spec fn everything_passed(results: Seq<ResultView>) -> bool {
    forall|i: int| 0 <= i < results.len() ==> (#[trigger] results[i]).verdict == Verdict::Passed
}

pub const CRASHED_HEAD: &'static str = "  CRASHES (unhandled exception in the child process): ";

pub const HUNG_HEAD: &'static str = "  HANGS (killed by the watchdog): ";

pub const PANICKED_HEAD: &'static str = "  PANICS (a bug in the gauntlet itself, not necessarily in the DLL): ";

pub const FAILED_HEAD: &'static str = "  FAILED CHECKS: ";

pub const INCONCLUSIVE_HEAD: &'static str = "  INCONCLUSIVE (the suite could not run - this is treated as a failure so that a silently skipped suite cannot look green): ";

pub const ALL_PASSED: &'static str = "  All suites passed.";

/// No suite ended in any of the ways that get a line of their own.
pub open spec fn no_groups(results: Seq<ResultView>) -> bool {
    &&& names_with(results, Verdict::Crashed).len() == 0
    &&& names_with(results, Verdict::Hung).len() == 0
    &&& names_with(results, Verdict::Failed).len() == 0
    &&& names_with(results, Verdict::Inconclusive).len() == 0
    &&& names_with(results, Verdict::Panicked).len() == 0
}

impl RunView {
    pub open spec fn groups(self) -> Seq<Seq<char>> {
        group(CRASHED_HEAD@, names_with(self.results, Verdict::Crashed)) + group(
            HUNG_HEAD@,
            names_with(self.results, Verdict::Hung),
        ) + group(PANICKED_HEAD@, names_with(self.results, Verdict::Panicked)) + group(
            FAILED_HEAD@,
            names_with(self.results, Verdict::Failed),
        ) + group(INCONCLUSIVE_HEAD@, names_with(self.results, Verdict::Inconclusive)) + if no_groups(
            self.results,
        ) {
            seq![ALL_PASSED@]
        } else {
            Seq::empty()
        }
    }

    /// What the console says at the end of the run.
    pub open spec fn summary(self) -> Seq<Seq<char>> {
        seq![RULE@, " GAUNTLET SUMMARY"@, RULE@] + self.results.map_values(
            |r: ResultView| result_text(r),
        ) + seq![""@] + self.groups() + seq![
            ""@,
            "  seed for this run: "@ + dec(self.args.seed as nat),
            "  replay any suite with: gauntlet exec <suite> --dll <path> --seed "@ + dec(
                self.args.seed as nat,
            ),
        ]
    }

    /// What is handed to the next step of the build.
    pub open spec fn output(self) -> Seq<Seq<char>> {
        seq![
            "seed="@ + dec(self.args.seed as nat),
            "crashed="@ + joined(names_with(self.results, Verdict::Crashed), " "@),
            "hung="@ + joined(names_with(self.results, Verdict::Hung), " "@),
            "failed="@ + joined(names_with(self.results, Verdict::Failed), " "@),
            "inconclusive="@ + joined(names_with(self.results, Verdict::Inconclusive), " "@),
            "panicked="@ + joined(names_with(self.results, Verdict::Panicked), " "@),
        ]
    }

    /// Any crash, hang, failure or inconclusive result fails the run. An
    /// inconclusive suite counts as a failure on purpose: a gauntlet that
    /// silently stopped testing something is worse than one that goes red.
    pub open spec fn exit_code(self) -> i32 {
        if everything_passed(self.results) {
            0
        } else {
            1
        }
    }
}

fn result_line(r: &SuiteResult) -> (s: String)
    ensures
        s@ == result_text(r@),
{
    let mut s: String = three("  ", pad_right(r.name.as_str(), 14).as_str(), " ");
    s.append(pad_right(r.verdict.label(), 13).as_str());
    s.append(" exit=");
    s.append(pad_right(decimal_int(r.exit_code as i64).as_str(), 6).as_str());
    s.append(" ");
    s.append(pad_left(r.seconds.as_str(), 7).as_str());
    s.append("s");
    match &r.last_case {
        Some(c) => {
            if r.verdict == Verdict::Crashed || r.verdict == Verdict::Hung {
                s.append(two("  last case: ", last_field(c.as_str())).as_str());
            } else {
                s.append("");
            }
        },
        None => {
            s.append("");
        },
    }
    s
}

fn group_line(head: &str, names: &Vec<String>) -> (v: Vec<String>)
    ensures
        texts(v@) == group(head@, texts(names@)),
{
    let mut v: Vec<String> = no_texts();
    if names.len() > 0 {
        push_text(&mut v, two(head, join(names, ", ").as_str()));
    }
    v
}

impl Run {
    fn named(&self, verdict: Verdict) -> (v: Vec<String>)
        ensures
            texts(v@) == names_with(self@.results, verdict),
    {
        let mut v: Vec<String> = Vec::new();
        let ghost all = self@.results;
        let mut i: usize = 0;
        assert(texts(v@) =~= names_with(all.take(0), verdict));
        while i < self.results.len()
            invariant
                i <= self.results@.len(),
                all == result_views(self.results@),
                texts(v@) == names_with(all.take(i as int), verdict),
            decreases self.results@.len() - i,
        {
            proof {
                assert(all.take(i + 1).drop_last() =~= all.take(i as int));
                assert(all.take(i + 1).last() == self.results@[i as int]@);
            }
            if self.results[i].verdict == verdict {
                push_text(&mut v, self.results[i].name.as_str().to_owned());
            }
            i += 1;
        }
        assert(all.take(i as int) =~= all);
        v
    }

    fn group_lines(&self) -> (v: Vec<String>)
        ensures
            texts(v@) == self@.groups(),
    {
        let crashed: Vec<String> = self.named(Verdict::Crashed);
        let hung: Vec<String> = self.named(Verdict::Hung);
        let failed: Vec<String> = self.named(Verdict::Failed);
        let inconclusive: Vec<String> = self.named(Verdict::Inconclusive);
        let panicked: Vec<String> = self.named(Verdict::Panicked);
        let mut v: Vec<String> = group_line(CRASHED_HEAD, &crashed);
        extend_texts(&mut v, group_line(HUNG_HEAD, &hung));
        extend_texts(&mut v, group_line(PANICKED_HEAD, &panicked));
        extend_texts(&mut v, group_line(FAILED_HEAD, &failed));
        extend_texts(&mut v, group_line(INCONCLUSIVE_HEAD, &inconclusive));
        let mut last: Vec<String> = no_texts();
        if crashed.len() == 0 && hung.len() == 0 && failed.len() == 0 && inconclusive.len() == 0
            && panicked.len() == 0 {
            push_text(&mut last, ALL_PASSED.to_owned());
        }
        extend_texts(&mut v, last);
        v
    }

    fn result_lines(&self) -> (v: Vec<String>)
        ensures
            texts(v@) == self@.results.map_values(|r: ResultView| result_text(r)),
    {
        let ghost lines = self@.results.map_values(|r: ResultView| result_text(r));
        let mut v: Vec<String> = no_texts();
        let mut i: usize = 0;
        assert(texts(v@) =~= lines.take(0));
        while i < self.results.len()
            invariant
                i <= self.results@.len(),
                self@.results == result_views(self.results@),
                lines == self@.results.map_values(|r: ResultView| result_text(r)),
                texts(v@) == lines.take(i as int),
            decreases self.results@.len() - i,
        {
            push_text(&mut v, result_line(&self.results[i]));
            i += 1;
            assert(lines.take(i as int) =~= lines.take(i - 1).push(lines[i - 1]));
        }
        assert(lines.take(i as int) =~= lines);
        v
    }

    fn closing_lines(&self) -> (v: Vec<String>)
        ensures
            texts(v@) == seq![
                ""@,
                "  seed for this run: "@ + dec(self@.args.seed as nat),
                "  replay any suite with: gauntlet exec <suite> --dll <path> --seed "@ + dec(
                    self@.args.seed as nat,
                ),
            ],
    {
        let mut v: Vec<String> = no_texts();
        push_text(&mut v, "".to_owned());
        push_text(&mut v, two("  seed for this run: ", decimal(self.args.seed).as_str()));
        push_text(
            &mut v,
            two(
                "  replay any suite with: gauntlet exec <suite> --dll <path> --seed ",
                decimal(self.args.seed).as_str(),
            ),
        );
        v
    }

    /// What the console says at the end of the run.
    pub fn summary_lines(&self) -> (v: Vec<String>)
        ensures
            texts(v@) == self@.summary(),
    {
        let mut v: Vec<String> = no_texts();
        push_text(&mut v, RULE.to_owned());
        push_text(&mut v, " GAUNTLET SUMMARY".to_owned());
        push_text(&mut v, RULE.to_owned());
        extend_texts(&mut v, self.result_lines());
        let mut gap: Vec<String> = no_texts();
        push_text(&mut gap, "".to_owned());
        extend_texts(&mut v, gap);
        extend_texts(&mut v, self.group_lines());
        extend_texts(&mut v, self.closing_lines());
        v
    }

    /// What is handed to the next step of the build, so that it need not parse
    /// the console.
    pub fn output_lines(&self) -> (v: Vec<String>)
        ensures
            texts(v@) == self@.output(),
    {
        let mut v: Vec<String> = no_texts();
        push_text(&mut v, two("seed=", decimal(self.args.seed).as_str()));
        push_text(&mut v, two("crashed=", join(&self.named(Verdict::Crashed), " ").as_str()));
        push_text(&mut v, two("hung=", join(&self.named(Verdict::Hung), " ").as_str()));
        push_text(&mut v, two("failed=", join(&self.named(Verdict::Failed), " ").as_str()));
        push_text(
            &mut v,
            two("inconclusive=", join(&self.named(Verdict::Inconclusive), " ").as_str()),
        );
        push_text(&mut v, two("panicked=", join(&self.named(Verdict::Panicked), " ").as_str()));
        v
    }

    /// The exit code of the run.
    pub fn exit_code(&self) -> (code: i32)
        ensures
            code == self@.exit_code(),
    {
        let mut i: usize = 0;
        while i < self.results.len()
            invariant
                i <= self.results@.len(),
                self@.results == result_views(self.results@),
                forall|k: int|
                    0 <= k < i ==> (#[trigger] self@.results[k]).verdict == Verdict::Passed,
            decreases self.results@.len() - i,
        {
            assert(self@.results[i as int] == self.results@[i as int]@);
            if self.results[i].verdict != Verdict::Passed {
                return 1;
            }
            i += 1;
        }
        0
    }
}

proof fn lemma_no_groups(results: Seq<ResultView>)
    ensures
        no_groups(results) <==> everything_passed(results),
    decreases results.len(),
{
    if results.len() > 0 {
        let before = results.drop_last();
        lemma_no_groups(before);
        assert(results[results.len() - 1] == results.last());
        if everything_passed(results) {
            assert forall|i: int| 0 <= i < before.len() implies (#[trigger] before[i]).verdict
                == Verdict::Passed by {
                assert(before[i] == results[i]);
            }
        }
        if everything_passed(before) && results.last().verdict == Verdict::Passed {
            assert forall|i: int| 0 <= i < results.len() implies (#[trigger] results[i]).verdict
                == Verdict::Passed by {
                if i < before.len() {
                    assert(before[i] == results[i]);
                }
            }
        }
    }
}

/// A run exits with zero exactly when its summary says that all suites passed:
/// every other outcome, an inconclusive suite as well, both shows and fails.
pub proof fn green_runs_have_nothing_to_show(run: RunView)
    ensures
        run.exit_code() == 0 <==> no_groups(run.results),
        run.exit_code() == 0 ==> run.groups() == seq![ALL_PASSED@],
{
    lemma_no_groups(run.results);
    if no_groups(run.results) {
        assert(run.groups() =~= seq![ALL_PASSED@]);
    }
}

/// How one suite ended has no influence on which suites run after it.
pub proof fn no_suite_stops_the_run(
    run: RunView,
    one: ChildEnd,
    other: ChildEnd,
    heartbeat: Option<Seq<char>>,
    seconds: Seq<char>,
)
    ensures
        run.concluded(one, heartbeat, seconds).next() == run.concluded(
            other,
            heartbeat,
            seconds,
        ).next(),
{
}

/// Once a suite has not passed, the run stays red whatever the later suites do.
pub proof fn a_bad_suite_is_never_forgotten(
    run: RunView,
    end: ChildEnd,
    heartbeat: Option<Seq<char>>,
    seconds: Seq<char>,
)
    ensures
        run.exit_code() != 0 ==> run.concluded(end, heartbeat, seconds).exit_code() != 0,
        end != ChildEnd::Exited(0) ==> run.concluded(end, heartbeat, seconds).exit_code() != 0,
{
    let after = run.concluded(end, heartbeat, seconds);
    if run.exit_code() != 0 {
        let i = choose|i: int|
            0 <= i < run.results.len() && (#[trigger] run.results[i]).verdict != Verdict::Passed;
        assert(after.results[i] == run.results[i]);
    }
    if end != ChildEnd::Exited(0) {
        assert(after.results[run.results.len() as int].verdict != Verdict::Passed);
    }
}

/// What a suite that died with a case in flight is concluded with ends in the
/// command that runs that case again, word for word.
pub proof fn the_dead_leave_a_replay(run: RunView, r: ResultView)
    requires
        died(r.verdict),
        r.last_case is Some,
    ensures
        run.conclusion(r).len() == 5,
        run.conclusion(r)[3] == "    reproduce with: "@ + joined(
            replay_words(r.name, run.args, after_last_tab(r.last_case->0)),
            " "@,
        ),
{
    let words = replay_words(r.name, run.args, after_last_tab(r.last_case->0));
    reveal_strlit("    reproduce with: gauntlet exec ");
    reveal_strlit("    reproduce with: ");
    reveal_strlit("gauntlet");
    reveal_strlit("exec");
    reveal_strlit(" --dll ");
    reveal_strlit("--dll");
    reveal_strlit(" --seed ");
    reveal_strlit("--seed");
    reveal_strlit(" --only ");
    reveal_strlit("--only");
    reveal_strlit(" ");
    lemma_joined_step(words, 1);
    lemma_joined_step(words, 2);
    lemma_joined_step(words, 3);
    lemma_joined_step(words, 4);
    lemma_joined_step(words, 5);
    lemma_joined_step(words, 6);
    lemma_joined_step(words, 7);
    lemma_joined_step(words, 8);
    assert(words.take(9) =~= words);
    assert(joined(words.take(1), " "@) == words[0]);
    assert(run.conclusion(r)[3] =~= "    reproduce with: "@ + joined(words, " "@));
}

proof fn lemma_joined_step(words: Seq<Seq<char>>, n: int)
    requires
        0 < n < words.len(),
    ensures
        joined(words.take(n + 1), " "@) == joined(words.take(n), " "@) + " "@ + words[n],
{
    assert(words.take(n + 1).drop_last() =~= words.take(n));
}

// ---------------------------------------------------------------
//                     What a run goes through
// ---------------------------------------------------------------

proof fn lemma_kept(all: Seq<SuiteView>, f: spec_fn(SuiteView) -> bool, s: SuiteView)
    requires
        all.contains(s),
        f(s),
    ensures
        all.filter(f).contains(s),
    decreases all.len(),
{
    reveal(Seq::filter);
    let rest = all.drop_last();
    let kept = rest.filter(f);
    if all.last() == s {
        assert(kept.push(s)[kept.len() as int] == s);
    } else {
        let i: int = choose|i: int| 0 <= i < all.len() && all[i] == s;
        assert(rest[i] == s);
        lemma_kept(rest, f, s);
        let k: int = choose|k: int| 0 <= k < kept.len() && kept[k] == s;
        assert(kept.push(all.last())[k] == s);
    }
}

/// A list is part of another, in its order: `at` says where each of its items stands.
pub open spec fn stands_at(part: Seq<SuiteView>, all: Seq<SuiteView>, at: Seq<int>) -> bool {
    &&& at.len() == part.len()
    &&& forall|i: int|
        0 <= i < part.len() ==> 0 <= #[trigger] at[i] < all.len() && all[at[i]] == part[i]
    &&& forall|i: int, j: int| 0 <= i < j < at.len() ==> #[trigger] at[i] < #[trigger] at[j]
}

proof fn lemma_in_order(all: Seq<SuiteView>, f: spec_fn(SuiteView) -> bool) -> (at: Seq<int>)
    ensures
        stands_at(all.filter(f), all, at),
    decreases all.len(),
{
    reveal(Seq::filter);
    if all.len() == 0 {
        Seq::empty()
    } else {
        let rest = all.drop_last();
        let before = lemma_in_order(rest, f);
        assert forall|i: int| 0 <= i < rest.filter(f).len() implies 0 <= #[trigger] before[i]
            < all.len() && all[before[i]] == rest.filter(f)[i] by {
            assert(rest[before[i]] == all[before[i]]);
        }
        if f(all.last()) {
            let at = before.push(all.len() - 1);
            assert(all.filter(f) =~= rest.filter(f).push(all.last()));
            at
        } else {
            assert(all.filter(f) =~= rest.filter(f));
            before
        }
    }
}

/// A run goes through exactly the suites that were asked for, or all of them where none
/// was, each once and in the order of the table, however they were asked for.
pub proof fn a_run_goes_through_what_was_asked_for(requested: Seq<Seq<char>>, s: SuiteView)
    requires
        selection(requested) is Ok,
    ensures
        selection(requested)->Ok_0.contains(s) <==> suite_table().contains(s) && (requested.len()
            == 0 || requested.contains(s.name)),
        exists|at: Seq<int>|
            #[trigger] stands_at(selection(requested)->Ok_0, suite_table(), at),
        requested.len() == 0 ==> selection(requested)->Ok_0 == suite_table(),
{
    let table = suite_table();
    let f = |s: SuiteView| requested.contains(s.name);
    if requested.len() == 0 {
        let at = Seq::new(table.len(), |i: int| i);
        assert(stands_at(table, table, at));
    } else {
        let at = lemma_in_order(table, f);
        assert(stands_at(table.filter(f), table, at));
        if table.contains(s) && requested.contains(s.name) {
            lemma_kept(table, f, s);
        }
        if table.filter(f).contains(s) {
            selected_suites_are_known(requested, s);
        }
    }
}

/// A run is refused over the first name that no suite has; every name before it is that
/// of a suite.
pub proof fn the_first_unknown_name_is_reported(requested: Seq<Seq<char>>)
    ensures
        selection(requested) matches Err(name) ==> exists|i: int|
            0 <= i < requested.len() && #[trigger] requested[i] == name && !known(name) && forall|
                k: int,
            |
                0 <= k < i ==> known(#[trigger] requested[k]),
        RefusalView::NoLibrary.code() == 10,
        forall|name: Seq<char>| #[trigger] RefusalView::UnknownSuite(name).code() == 2,
        admission(requested, false) == Err::<Seq<SuiteView>, RefusalView>(RefusalView::NoLibrary),
{
    if selection(requested) is Err {
        lemma_unknown_place(requested, 0);
    }
}

proof fn lemma_unknown_place(requested: Seq<Seq<char>>, from: int)
    requires
        0 <= from,
        first_unknown(requested, from) is Some,
        forall|k: int| 0 <= k < from ==> known(#[trigger] requested[k]),
    ensures
        exists|i: int|
            0 <= i < requested.len() && #[trigger] requested[i] == first_unknown(requested, from)->0
                && !known(requested[i]) && forall|k: int|
                0 <= k < i ==> known(#[trigger] requested[k]),
    decreases requested.len() - from,
{
    if from < requested.len() {
        if known(requested[from]) {
            lemma_unknown_place(requested, from + 1);
        } else {
            assert(requested[from] == first_unknown(requested, from)->0);
        }
    }
}

/// A suite is listed under a verdict exactly when it ended with it.
pub proof fn suites_are_listed_by_their_verdict(
    results: Seq<ResultView>,
    verdict: Verdict,
    name: Seq<char>,
)
    ensures
        names_with(results, verdict).contains(name) <==> exists|i: int|
            0 <= i < results.len() && (#[trigger] results[i]).verdict == verdict && results[i].name
                == name,
    decreases results.len(),
{
    if results.len() > 0 {
        let rest = results.drop_last();
        let last = results.last();
        suites_are_listed_by_their_verdict(rest, verdict, name);
        let before = names_with(rest, verdict);
        let all = names_with(results, verdict);
        if before.contains(name) {
            let i: int = choose|i: int|
                0 <= i < rest.len() && (#[trigger] rest[i]).verdict == verdict && rest[i].name
                    == name;
            assert(results[i] == rest[i]);
            let k: int = choose|k: int| 0 <= k < before.len() && before[k] == name;
            assert(all[k] == name);
        }
        if last.verdict == verdict && last.name == name {
            assert(results[results.len() - 1] == last);
            assert(all[all.len() - 1] == name);
        }
        if all.contains(name) && !before.contains(name) {
            let k: int = choose|k: int| 0 <= k < all.len() && all[k] == name;
            if k < before.len() {
                assert(before[k] == name);
            }
            assert(results[results.len() - 1] == last);
        }
        if exists|i: int|
            0 <= i < results.len() && (#[trigger] results[i]).verdict == verdict && results[i].name
                == name {
            let i: int = choose|i: int|
                0 <= i < results.len() && (#[trigger] results[i]).verdict == verdict
                    && results[i].name == name;
            if i < rest.len() {
                assert(rest[i] == results[i]);
            }
        }
    }
}

/// A run exits with zero exactly when every one of its suites exited with zero on its
/// own, and with one otherwise.
pub proof fn only_clean_suites_make_a_green_run(run: RunView)
    ensures
        run.exit_code() == 0 <==> forall|i: int|
            0 <= i < run.results.len() ==> (#[trigger] run.results[i]).verdict == Verdict::Passed,
        run.exit_code() != 0 ==> run.exit_code() == 1,
{
}

/// How a suite is concluded: under its own name, with the verdict and the code of its
/// end, and the case that its heartbeat names; the results before it stay, and the next
/// suite is the one after it.
pub proof fn how_a_suite_is_concluded(
    run: RunView,
    end: ChildEnd,
    heartbeat: Option<Seq<char>>,
    seconds: Seq<char>,
)
    requires
        run.next() is Some,
    ensures
        ({
            let after = run.concluded(end, heartbeat, seconds);
            let r = after.results.last();
            &&& after.results.drop_last() == run.results
            &&& r.name == run.next()->0.name
            &&& r.verdict == end.meaning().0
            &&& r.exit_code == end.meaning().1
            &&& r.seconds == seconds
            &&& heartbeat is None ==> r.last_case is None
            &&& after.selected == run.selected
            &&& after.args == run.args
            &&& after.next() is Some ==> after.next()->0 == run.selected[run.results.len() + 1int]
            &&& after.next() is None <==> run.results.len() + 1 == run.selected.len()
        }),
        died(Verdict::Crashed),
        died(Verdict::Hung),
        died(Verdict::Panicked),
        !died(Verdict::Passed),
        !died(Verdict::Failed),
        !died(Verdict::Inconclusive),
{
    let after = run.concluded(end, heartbeat, seconds);
    assert(after.results.drop_last() =~= run.results);
}

/// The summary has a line for every suite, in the order in which they ran, and what is
/// handed to the next step of the build has a line for every verdict but a pass.
pub proof fn the_summary_has_every_suite(run: RunView, i: int)
    requires
        0 <= i < run.results.len(),
    ensures
        run.summary()[3 + i] == result_text(run.results[i]),
        run.output().len() == 6,
        run.output()[1] == "crashed="@ + joined(names_with(run.results, Verdict::Crashed), " "@),
        run.output()[2] == "hung="@ + joined(names_with(run.results, Verdict::Hung), " "@),
        run.output()[3] == "failed="@ + joined(names_with(run.results, Verdict::Failed), " "@),
        run.output()[4] == "inconclusive="@ + joined(
            names_with(run.results, Verdict::Inconclusive),
            " "@,
        ),
        run.output()[5] == "panicked="@ + joined(names_with(run.results, Verdict::Panicked), " "@),
{
}

/// No case was in flight exactly where there is no heartbeat or its first line is blank;
/// what is named otherwise has no white space at either end.
pub proof fn a_blank_heartbeat_names_nothing(heartbeat: Option<Seq<char>>)
    ensures
        case_in_flight(heartbeat) is None <==> heartbeat is None || forall|i: int|
            0 <= i < first_line(heartbeat->0).len() ==> is_space(
                #[trigger] first_line(heartbeat->0)[i],
            ),
        case_in_flight(heartbeat) matches Some(c) ==> c.len() > 0 && !is_space(c[0]) && !is_space(
            c.last(),
        ),
{
    if heartbeat is Some {
        let s = first_line(heartbeat->0);
        let t = trimmed(s);
        trimming_removes_white_space_only(s);
        let (a, b): (Seq<char>, Seq<char>) = choose|a: Seq<char>, b: Seq<char>|
            s == #[trigger] (a + trimmed(s) + b) && (forall|i: int|
                0 <= i < a.len() ==> is_space(#[trigger] a[i])) && (forall|i: int|
                0 <= i < b.len() ==> is_space(#[trigger] b[i]));
        if t.len() == 0 {
            assert forall|i: int| 0 <= i < s.len() implies is_space(#[trigger] s[i]) by {
                if i < a.len() {
                    assert(s[i] == a[i]);
                } else {
                    assert(s[i] == b[i - a.len()]);
                }
            }
        } else {
            assert(s[a.len() as int] == t[0]);
        }
    }
}

/// Every suite has a heartbeat file of its own.
pub proof fn heartbeats_do_not_mix(a: Seq<char>, b: Seq<char>)
    ensures
        heartbeat_name(a) == heartbeat_name(b) ==> a == b,
{
    let n: int = "heartbeat-"@.len() as int;
    let t: int = ".txt"@.len() as int;
    assert(heartbeat_name(a).subrange(n, heartbeat_name(a).len() - t) =~= a);
    assert(heartbeat_name(b).subrange(n, heartbeat_name(b).len() - t) =~= b);
}

} // verus!
