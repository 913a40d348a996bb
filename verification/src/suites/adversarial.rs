//! Judging the synthetic adversarial corpus.
//!
//! For hostile input the contract is deliberately weak on output and strict on
//! behaviour:
//!
//!   * the call must return within a per-case time budget,
//!   * the process must not fault,
//!   * committed memory must not grow without bound,
//!   * whatever bitmap comes back must be structurally valid (right size, right
//!     bit depth, readable bits, declared alpha type),
//!   * and no case may cause outbound network access.

use vstd::prelude::*;
use crate::corpus::{views, Case, CaseView, Expect, XxeProbe};
use crate::metrics::{mib1, mib1_signed, mib1_signed_text, mib1_text};
use crate::numbers::{dec, decimal, hex32, hex32_text};
use crate::report::{checks_added, one_check, outcome_of, Outcome, Report, ReportView};
use crate::suites::cases::{lets_through, optional_text, wanted};
use crate::text::{
    bool_text, bool_word, forward_slashed, forward_slashes, lemma_occurs_between, occurs, same, three,
    two,
};
use crate::thumb::{declares_argb, same_pixels, Rendering, Thumb, ALPHA_ARGB};

verus! {

/// What one case may use up.
///
/// The budgets are per suite rather than global, because the size-limit cases
/// are legitimately slow: judging a 101 MiB document against the same deadline
/// as a 200-byte malformed file would flag normal behaviour as a blowup.
#[derive(Clone, Copy, Debug, PartialEq, Eq, Structural)]
pub struct Limits {
    /// Wall-clock seconds for a single render.
    pub seconds: u64,
    /// Bytes that may stay committed once the call has returned. Transient peaks
    /// are not counted: this is about memory that is never given back.
    pub memory: u64,
}

pub const BUDGET_SMALL_INPUT: u64 = 45;

pub const BUDGET_COMPRESSED: u64 = 90;

pub const BUDGET_HUGE_INPUT: u64 = 360;

pub const MEM_BUDGET_SMALL_INPUT: u64 = 512 * 1024 * 1024;

pub const MEM_BUDGET_COMPRESSED: u64 = 1024 * 1024 * 1024;

pub const MEM_BUDGET_HUGE_INPUT: u64 = 1536 * 1024 * 1024;

impl Limits {
    /// What a small document may use up.
    pub open spec fn of_small_input() -> Limits {
        Limits { seconds: BUDGET_SMALL_INPUT, memory: MEM_BUDGET_SMALL_INPUT }
    }

    /// What a compressed document may use up.
    pub open spec fn of_compressed() -> Limits {
        Limits { seconds: BUDGET_COMPRESSED, memory: MEM_BUDGET_COMPRESSED }
    }

    /// What a document around the size limit may use up.
    pub open spec fn of_huge_input() -> Limits {
        Limits { seconds: BUDGET_HUGE_INPUT, memory: MEM_BUDGET_HUGE_INPUT }
    }

    pub fn small_input() -> (l: Limits)
        ensures
            l == Limits::of_small_input(),
    {
        Limits { seconds: BUDGET_SMALL_INPUT, memory: MEM_BUDGET_SMALL_INPUT }
    }

    pub fn compressed() -> (l: Limits)
        ensures
            l == Limits::of_compressed(),
    {
        Limits { seconds: BUDGET_COMPRESSED, memory: MEM_BUDGET_COMPRESSED }
    }

    pub fn huge_input() -> (l: Limits)
        ensures
            l == Limits::of_huge_input(),
    {
        Limits { seconds: BUDGET_HUGE_INPUT, memory: MEM_BUDGET_HUGE_INPUT }
    }
}

// ---------------------------------------------------------------
//                      Network observation
// ---------------------------------------------------------------

/// A local listener and a file on disk, used to make the resolution of external
/// entities observable instead of theoretical.
pub struct NetworkProbe {
    pub hits: u32,
    pub url: String,
    pub sentinel: String,
}

/// Where a listener bound to `address` is reached.
pub open spec fn url_of(address: Seq<char>) -> Seq<char> {
    "http://"@ + address
}

/// The count after one more connection.
pub open spec fn one_more_hit(hits: u32) -> u32 {
    if hits == u32::MAX {
        u32::MAX
    } else {
        (hits + 1) as u32
    }
}

impl NetworkProbe {
    /// A probe for a listener bound to `address`, with a sentinel file at
    /// `sentinel`.
    pub fn new(address: &str, sentinel: &str) -> (p: NetworkProbe)
        ensures
            p.hits == 0,
            p.url@ == url_of(address@),
            p.sentinel@ == sentinel@,
    {
        NetworkProbe { hits: 0, url: two("http://", address), sentinel: sentinel.to_owned() }
    }

    /// Counts one connection. Any connection at all is a finding, so a full counter
    /// stays full.
    pub fn record_hit(&mut self)
        ensures
            final(self).hits == one_more_hit(old(self).hits),
            final(self).url == old(self).url,
            final(self).sentinel == old(self).sentinel,
    {
        if self.hits < u32::MAX {
            self.hits += 1;
        }
    }

    /// Where the cases are aimed.
    pub fn probe(&self) -> (x: XxeProbe)
        ensures
            x.http_url@ == self.url@,
            x.sentinel_path@ == forward_slashes(self.sentinel@),
    {
        XxeProbe {
            http_url: self.url.as_str().to_owned(),
            sentinel_path: forward_slashed(self.sentinel.as_str()),
        }
    }

    pub fn hit_count(&self) -> (n: u32)
        ensures
            n == self.hits,
    {
        self.hits
    }
}

/// Where the cases are aimed when no listener could be bound.
pub fn unbound_probe(missing: &str) -> (x: XxeProbe)
    ensures
        x.http_url@ == "http://127.0.0.1:9/unbound"@,
        x.sentinel_path@ == forward_slashes(missing@),
{
    XxeProbe {
        http_url: "http://127.0.0.1:9/unbound".to_owned(),
        sentinel_path: forward_slashed(missing),
    }
}

/// The report after no listener could be bound.
pub open spec fn after_no_listener(r: ReportView, error: Seq<char>) -> ReportView {
    r.skip(
        "xxe_network_probe"@,
        "could not bind a loopback listener ("@ + error
            + "); XXE cases will run but network access cannot be observed"@,
    )
}

/// Records that network access cannot be observed.
pub fn listener_unavailable(report: &mut Report, error: &str)
    ensures
        final(report)@ == after_no_listener(old(report)@, error@),
{
    report.skip(
        "xxe_network_probe",
        three(
            "could not bind a loopback listener (",
            error,
            "); XXE cases will run but network access cannot be observed",
        ).as_str(),
    );
}

/// What is said about the connections that the listener counted.
pub open spec fn network_detail(hits: u32, url: Seq<char>) -> Seq<char> {
    if hits == 0 {
        "the local listener at "@ + url
            + " recorded no connections across the XXE cases (external DTDs, external general and parameter entities, UNC paths, remote xml-stylesheet and remote <image> hrefs)"@
    } else {
        "SECURITY: "@ + dec(hits as nat) + " outbound connection(s) reached "@ + url
            + " while parsing untrusted SVG - XML external entity resolution is enabled"@
    }
}

/// The report about what the cases reached.
pub open spec fn after_network(
    r: ReportView,
    hits: u32,
    url: Seq<char>,
    sentinel_exists: bool,
) -> ReportView {
    r.check("no_outbound_network_access"@, hits == 0, network_detail(hits, url)).check(
        "xxe_sentinel_still_present"@,
        sentinel_exists,
        "local sentinel file was not modified or removed by parsing"@,
    )
}

/// Nothing in the corpus may have caused the parser to reach out to the network,
/// even though several cases explicitly invite it to.
pub fn judge_network(report: &mut Report, probe: &NetworkProbe, sentinel_exists: bool)
    ensures
        final(report)@ == after_network(old(report)@, probe.hits, probe.url@, sentinel_exists),
{
    let hits: u32 = probe.hit_count();
    let detail: String = if hits == 0 {
        three(
            "the local listener at ",
            probe.url.as_str(),
            " recorded no connections across the XXE cases (external DTDs, external general and parameter entities, UNC paths, remote xml-stylesheet and remote <image> hrefs)",
        )
    } else {
        let mut s: String = three(
            "SECURITY: ",
            decimal(hits as u64).as_str(),
            " outbound connection(s) reached ",
        );
        s.append(probe.url.as_str());
        s.append(" while parsing untrusted SVG - XML external entity resolution is enabled");
        s
    };
    report.check("no_outbound_network_access", hits == 0, detail.as_str());
    report.check(
        "xxe_sentinel_still_present",
        sentinel_exists,
        "local sentinel file was not modified or removed by parsing",
    );
}

// ---------------------------------------------------------------
//                            One case
// ---------------------------------------------------------------

/// Outcome of one case, as observed from the calling side.
pub struct Observed {
    pub elapsed_ns: u128,
    /// The elapsed time as it is shown.
    pub elapsed_text: String,
    /// Nothing when the call failed, what the bitmap shows otherwise.
    pub rendering: Option<Rendering>,
    pub hresult: u32,
    pub geometry_ok: bool,
    pub alpha_declared: bool,
    pub memory_growth: i64,
}

/// What was observed is what the render gave.
pub open spec fn read_off(o: Observed, result: Result<Thumb, u32>, size: u32) -> bool {
    match result {
        Ok(t) => {
            &&& o.rendering == Some(t.classified())
            &&& o.hresult == 0
            &&& o.geometry_ok == (t.width == size && t.height == size)
            &&& o.alpha_declared == (t.alpha == ALPHA_ARGB)
        },
        Err(hr) => {
            &&& o.rendering is None
            &&& o.hresult == hr
            &&& o.geometry_ok
            &&& o.alpha_declared
        },
    }
}

/// Reads off a render what matters about it. A returned bitmap must always match
/// the requested geometry, however malformed the input was; where nothing was
/// returned there is nothing to check.
pub fn observe(
    result: &Result<Thumb, u32>,
    size: u32,
    elapsed_ns: u128,
    elapsed_text: &str,
    memory_growth: i64,
) -> (o: Observed)
    ensures
        o.elapsed_ns == elapsed_ns,
        o.elapsed_text@ == elapsed_text@,
        o.memory_growth == memory_growth,
        read_off(o, *result, size),
{
    match result {
        Ok(t) => Observed {
            elapsed_ns,
            elapsed_text: elapsed_text.to_owned(),
            rendering: Some(t.classify()),
            hresult: 0,
            geometry_ok: t.width == size && t.height == size,
            alpha_declared: declares_argb(t),
            memory_growth,
        },
        Err(hr) => Observed {
            elapsed_ns,
            elapsed_text: elapsed_text.to_owned(),
            rendering: None,
            hresult: *hr,
            geometry_ok: true,
            alpha_declared: true,
            memory_growth,
        },
    }
}

/// An optional rendering as it is shown.
pub open spec fn rendering_word(r: Option<Rendering>) -> Seq<char> {
    match r {
        Some(x) => "Some("@ + x.word() + ")"@,
        None => "None"@,
    }
}

pub fn rendering_text(r: Option<Rendering>) -> (s: String)
    ensures
        s@ == rendering_word(r),
{
    match r {
        Some(x) => three("Some(", x.text(), ")"),
        None => "None".to_owned(),
    }
}

pub open spec fn returned_word(o: &Observed) -> Seq<char> {
    if o.rendering is Some {
        "returned a bitmap"@
    } else {
        "failed"@
    }
}

pub open spec fn summary_text(o: &Observed) -> Seq<char> {
    returned_word(o) + " in "@ + o.elapsed_text@ + ", rendering="@ + rendering_word(o.rendering)
        + ", hr="@ + hex32(o.hresult) + ", mem="@ + mib1_signed(o.memory_growth as int) + "MiB"@
}

fn summary(o: &Observed) -> (s: String)
    ensures
        s@ == summary_text(o),
{
    let returned: &str = match o.rendering {
        Some(_) => "returned a bitmap",
        None => "failed",
    };
    let mut s: String = three(returned, " in ", o.elapsed_text.as_str());
    s.append(", rendering=");
    s.append(rendering_text(o.rendering).as_str());
    s.append(", hr=");
    s.append(hex32_text(o.hresult).as_str());
    s.append(", mem=");
    s.append(mib1_signed_text(o.memory_growth).as_str());
    s.append("MiB");
    s
}

/// The render took longer than it may.
pub open spec fn too_slow(o: &Observed, limits: Limits) -> bool {
    o.elapsed_ns > limits.seconds * 1_000_000_000
}

/// The case was rendered the way its expectation asks for.
pub open spec fn as_expected(expect: Expect, rendering: Option<Rendering>) -> bool {
    match expect {
        // Coming back at all means no fault and no watchdog kill.
        Expect::Survive => true,
        Expect::RealRender => rendering == Some(Rendering::Real),
        // A successful real render would mean that the limit is not enforced.
        Expect::RejectOrFallback => rendering is None || rendering->0.fallback(),
    }
}

/// What is said about a case apart from its invariants.
pub open spec fn verdict_detail(expect: Expect, rendering: Option<Rendering>, summary: Seq<char>) -> Seq<
    char,
> {
    if as_expected(expect, rendering) {
        summary
    } else if expect == Expect::RealRender {
        "valid input did not render as real artwork - a fallback here means the ordinary rendering path regressed: "@
            + summary
    } else {
        "input past a documented limit was rendered as if valid: "@ + summary
    }
}

/// `r` with a failure when `bad`, and `r` itself otherwise.
pub open spec fn fail_if(r: ReportView, bad: bool, name: Seq<char>, detail: Seq<char>) -> ReportView {
    if bad {
        r.fail(name, detail)
    } else {
        r
    }
}

/// The report after one case: a failure for each invariant that was broken, and
/// then the case itself.
pub open spec fn after_case(r: ReportView, case: CaseView, size: u32, limits: Limits, o: &Observed) -> ReportView {
    let name = case.name;
    let summary = summary_text(o);
    let a = fail_if(
        r,
        !o.geometry_ok,
        name + "/geometry"@,
        "returned a bitmap whose size does not match the requested "@ + dec(size as nat) + "x"@
            + dec(size as nat) + ": "@ + summary,
    );
    let b = fail_if(
        a,
        o.rendering is Some && !o.alpha_declared,
        name + "/alpha-type"@,
        "returned a bitmap without declaring WTSAT_ARGB: "@ + summary,
    );
    let c = fail_if(
        b,
        too_slow(o, limits),
        name + "/time-budget"@,
        "exceeded the "@ + dec(limits.seconds as nat) + "s per-case budget: "@ + summary,
    );
    let d = fail_if(
        c,
        o.memory_growth > limits.memory,
        name + "/memory-budget"@,
        "left "@ + mib1(o.memory_growth as nat) + " MiB committed after the call returned, budget is "@
            + dec((limits.memory / 1048576) as nat) + " MiB: "@ + summary,
    );
    d.check(
        name,
        as_expected(case.expect, o.rendering),
        verdict_detail(case.expect, o.rendering, summary),
    )
}

/// Records the checks for one case.
pub fn judge_case(report: &mut Report, case: &Case, size: u32, limits: Limits, o: &Observed)
    ensures
        final(report)@ == after_case(old(report)@, case@, size, limits, o),
{
    let text: String = summary(o);
    let name: &str = case.name.as_str();
    if !o.geometry_ok {
        let mut s: String = three(
            "returned a bitmap whose size does not match the requested ",
            decimal(size as u64).as_str(),
            "x",
        );
        s.append(decimal(size as u64).as_str());
        s.append(": ");
        s.append(text.as_str());
        report.fail(two(name, "/geometry").as_str(), s.as_str());
    }
    if o.rendering.is_some() && !o.alpha_declared {
        report.fail(
            two(name, "/alpha-type").as_str(),
            two("returned a bitmap without declaring WTSAT_ARGB: ", text.as_str()).as_str(),
        );
    }
    if o.elapsed_ns > limits.seconds as u128 * 1_000_000_000 {
        let mut s: String = three(
            "exceeded the ",
            decimal(limits.seconds).as_str(),
            "s per-case budget: ",
        );
        s.append(text.as_str());
        report.fail(two(name, "/time-budget").as_str(), s.as_str());
    }
    if o.memory_growth > 0 && o.memory_growth as u64 > limits.memory {
        let mut s: String = three(
            "left ",
            mib1_text(o.memory_growth as u64).as_str(),
            " MiB committed after the call returned, budget is ",
        );
        s.append(decimal(limits.memory / 1048576).as_str());
        s.append(" MiB: ");
        s.append(text.as_str());
        report.fail(two(name, "/memory-budget").as_str(), s.as_str());
    }
    match case.expect {
        Expect::Survive => {
            report.pass(name, text.as_str());
        },
        Expect::RealRender => {
            let ok: bool = match o.rendering {
                Some(r) => r == Rendering::Real,
                None => false,
            };
            if ok {
                report.pass(name, text.as_str());
            } else {
                report.fail(
                    name,
                    two(
                        "valid input did not render as real artwork - a fallback here means the ordinary rendering path regressed: ",
                        text.as_str(),
                    ).as_str(),
                );
            }
        },
        Expect::RejectOrFallback => {
            let ok: bool = match o.rendering {
                Some(r) => r.is_fallback(),
                None => true,
            };
            if ok {
                report.pass(name, text.as_str());
            } else {
                report.fail(
                    name,
                    two(
                        "input past a documented limit was rendered as if valid: ",
                        text.as_str(),
                    ).as_str(),
                );
            }
        },
    }
}

/// A case was handled well: every invariant holds, and it was rendered the way
/// its expectation asks for.
pub open spec fn handled_well(expect: Expect, limits: Limits, o: &Observed) -> bool {
    &&& o.geometry_ok
    &&& o.rendering is Some ==> o.alpha_declared
    &&& !too_slow(o, limits)
    &&& o.memory_growth <= limits.memory
    &&& as_expected(expect, o.rendering)
}

/// A case turns a green suite red exactly when it was not handled well.
pub proof fn a_case_fails_exactly_when_mishandled(
    r: ReportView,
    case: CaseView,
    size: u32,
    limits: Limits,
    o: &Observed,
)
    requires
        r.exit_code() == 0,
    ensures
        after_case(r, case, size, limits, o).exit_code() == 0 <==> handled_well(
            case.expect,
            limits,
            o,
        ),
{
    let name = case.name;
    let summary = summary_text(o);
    let g = "returned a bitmap whose size does not match the requested "@ + dec(size as nat) + "x"@
        + dec(size as nat) + ": "@ + summary;
    let a = fail_if(r, !o.geometry_ok, name + "/geometry"@, g);
    let alpha = "returned a bitmap without declaring WTSAT_ARGB: "@ + summary;
    let b = fail_if(a, o.rendering is Some && !o.alpha_declared, name + "/alpha-type"@, alpha);
    let time = "exceeded the "@ + dec(limits.seconds as nat) + "s per-case budget: "@ + summary;
    let c = fail_if(b, too_slow(o, limits), name + "/time-budget"@, time);
    let mem = "left "@ + mib1(o.memory_growth as nat)
        + " MiB committed after the call returned, budget is "@ + dec(
        (limits.memory / 1048576) as nat,
    ) + " MiB: "@ + summary;
    let d = fail_if(c, o.memory_growth > limits.memory, name + "/memory-budget"@, mem);
    let detail = verdict_detail(case.expect, o.rendering, summary);
    crate::report::a_failure_is_never_forgotten(r, name + "/geometry"@, Outcome::Fail, g);
    crate::report::a_failure_is_never_forgotten(a, name + "/alpha-type"@, Outcome::Fail, alpha);
    crate::report::a_failure_is_never_forgotten(b, name + "/time-budget"@, Outcome::Fail, time);
    crate::report::a_failure_is_never_forgotten(c, name + "/memory-budget"@, Outcome::Fail, mem);
    crate::report::a_failure_is_never_forgotten(d, name, Outcome::Fail, detail);
    crate::report::a_failure_is_never_forgotten(d, name, Outcome::Pass, detail);
}

// ---------------------------------------------------------------
//                         Whole corpora
// ---------------------------------------------------------------

/// The places of those among the first `n` cases that a filter lets through.
pub open spec fn chosen(cases: Seq<CaseView>, only: Option<Seq<char>>, n: nat) -> Seq<int>
    decreases n,
{
    if n == 0 {
        Seq::empty()
    } else {
        let before = chosen(cases, only, (n - 1) as nat);
        if lets_through(only, cases[n - 1].name) {
            before.push(n - 1)
        } else {
            before
        }
    }
}

/// The places of the cases that a filter lets through, in order.
pub fn choose_cases(cases: &Vec<Case>, only: Option<&str>) -> (v: Vec<usize>)
    ensures
        v@.map_values(|i: usize| i as int) == chosen(
            views(cases@),
            optional_text(only),
            cases@.len(),
        ),
        forall|k: int| 0 <= k < v@.len() ==> #[trigger] v@[k] < cases@.len(),
{
    let mut v: Vec<usize> = Vec::new();
    let ghost all = views(cases@);
    let ghost filter = optional_text(only);
    let mut i: usize = 0;
    assert(v@.map_values(|i: usize| i as int) =~= Seq::<int>::empty());
    while i < cases.len()
        invariant
            i <= cases@.len(),
            all == views(cases@),
            filter == optional_text(only),
            v@.map_values(|i: usize| i as int) == chosen(all, filter, i as nat),
            forall|k: int| 0 <= k < v@.len() ==> #[trigger] v@[k] < cases@.len(),
        decreases cases@.len() - i,
    {
        assert(all[i as int].name == cases@[i as int].name@);
        if wanted(only, cases[i].name.as_str()) {
            let ghost before = v@;
            v.push(i);
            assert(v@.map_values(|i: usize| i as int) =~= before.map_values(
                |i: usize| i as int,
            ).push(i as int));
        }
        i += 1;
    }
    v
}

/// The size at which the `ran`-th case is rendered. It varies so that scaling is
/// exercised alongside parsing, without multiplying the corpus by a size sweep.
pub open spec fn size_for(ran: nat) -> u32 {
    if ran % 4 == 0 {
        16
    } else if ran % 4 == 1 {
        64
    } else if ran % 4 == 2 {
        256
    } else {
        // Deliberately not a power of two.
        133
    }
}

pub fn case_size(ran: usize) -> (size: u32)
    ensures
        size == size_for(ran as nat),
{
    match ran % 4 {
        0 => 16,
        1 => 64,
        2 => 256,
        _ => 133,
    }
}

/// The size at which compressed cases are rendered.
pub const SVGZ_SIZE: u32 = 128;

/// The size at which cases around the size limit are rendered.
pub const SIZE_LIMIT_SIZE: u32 = 96;

/// Without a filter every case runs, once and in order.
pub proof fn unfiltered_runs_everything(cases: Seq<CaseView>, n: nat)
    ensures
        chosen(cases, None, n) == Seq::new(n, |i: int| i),
    decreases n,
{
    if n > 0 {
        unfiltered_runs_everything(cases, (n - 1) as nat);
        assert(Seq::new(n, |i: int| i) =~= Seq::new((n - 1) as nat, |i: int| i).push(n - 1));
    } else {
        assert(chosen(cases, None, n) =~= Seq::new(n, |i: int| i));
    }
}

/// No two cases share a name.
pub open spec fn distinct_names(cases: Seq<CaseView>) -> bool {
    forall|i: int, j: int|
        0 <= i < j < cases.len() ==> (#[trigger] cases[i]).name != (#[trigger] cases[j]).name
}

/// Where names are distinct, asking for a case by its name runs that case and no
/// other.
pub proof fn a_name_selects_one_case(cases: Seq<CaseView>, i: int, n: nat)
    requires
        distinct_names(cases),
        0 <= i < cases.len(),
        n <= cases.len(),
    ensures
        chosen(cases, Some(cases[i].name), n) == (if i < n {
            seq![i]
        } else {
            Seq::empty()
        }),
    decreases n,
{
    if n > 0 {
        a_name_selects_one_case(cases, i, (n - 1) as nat);
        let last = n - 1;
        if last < i {
            assert(cases[last].name != cases[i].name);
        } else if i < last {
            assert(cases[i].name != cases[last].name);
        } else {
            assert(Seq::<int>::empty().push(i) =~= seq![i]);
        }
    }
}

/// The line that closes the corpus of plain documents.
pub fn svg_tally(ran: usize, total: usize) -> (s: String)
    ensures
        s@ == "  (ran "@ + dec(ran as nat) + " of "@ + dec(total as nat)
            + " synthetic .svg cases)"@,
{
    let mut s: String = three("  (ran ", decimal(ran as u64).as_str(), " of ");
    s.append(decimal(total as u64).as_str());
    s.append(" synthetic .svg cases)");
    s
}

/// The line that closes the corpus of compressed documents.
pub fn svgz_tally(ran: usize, total: usize) -> (s: String)
    ensures
        s@ == "  (ran "@ + dec(ran as nat) + " of "@ + dec(total as nat)
            + " synthetic .svgz cases)"@,
{
    let mut s: String = three("  (ran ", decimal(ran as u64).as_str(), " of ");
    s.append(decimal(total as u64).as_str());
    s.append(" synthetic .svgz cases)");
    s
}

/// The case that holds the two forms of one document against each other.
pub const AGREEMENT_CASE: &'static str = "svgz_and_svg_agree";

/// The report after a filter let no plain document through.
pub open spec fn after_no_svg(r: ReportView, total: nat) -> ReportView {
    r.skip(
        "corpus"@,
        "no case matched the --only filter (corpus has "@ + dec(total) + " cases)"@,
    )
}

/// The report after a filter let no compressed document through.
pub open spec fn after_no_svgz(r: ReportView, total: nat) -> ReportView {
    r.skip("svgz_corpus"@, "no case matched the --only filter ("@ + dec(total) + " cases)"@)
}

/// The report after a filter let no oversized document through.
pub open spec fn after_no_size_limit(r: ReportView, total: nat) -> ReportView {
    r.skip("size_limit_corpus"@, "no case matched the --only filter ("@ + dec(total) + " cases)"@)
}

/// Records that the filter let no plain document through.
pub fn nothing_matched_svg(report: &mut Report, total: usize)
    ensures
        final(report)@ == after_no_svg(old(report)@, total as nat),
{
    report.skip(
        "corpus",
        three(
            "no case matched the --only filter (corpus has ",
            decimal(total as u64).as_str(),
            " cases)",
        ).as_str(),
    );
}

/// Records that the filter let no compressed document through.
pub fn nothing_matched_svgz(report: &mut Report, total: usize)
    ensures
        final(report)@ == after_no_svgz(old(report)@, total as nat),
{
    report.skip(
        "svgz_corpus",
        three(
            "no case matched the --only filter (",
            decimal(total as u64).as_str(),
            " cases)",
        ).as_str(),
    );
}

/// Records that the filter let no oversized document through.
pub fn nothing_matched_size_limits(report: &mut Report, total: usize)
    ensures
        final(report)@ == after_no_size_limit(old(report)@, total as nat),
{
    report.skip(
        "size_limit_corpus",
        three(
            "no case matched the --only filter (",
            decimal(total as u64).as_str(),
            " cases)",
        ).as_str(),
    );
}

/// The place of the first case called `name`.
pub open spec fn is_first_named(cases: Seq<CaseView>, name: Seq<char>, i: int) -> bool {
    &&& 0 <= i < cases.len()
    &&& cases[i].name == name
    &&& forall|k: int| 0 <= k < i ==> (#[trigger] cases[k]).name != name
}

pub fn find_case(cases: &Vec<Case>, name: &str) -> (r: Option<usize>)
    ensures
        match r {
            Some(i) => is_first_named(views(cases@), name@, i as int),
            None => forall|k: int|
                0 <= k < cases@.len() ==> (#[trigger] views(cases@)[k]).name != name@,
        },
{
    let mut i: usize = 0;
    while i < cases.len()
        invariant
            i <= cases@.len(),
            forall|k: int| 0 <= k < i ==> (#[trigger] views(cases@)[k]).name != name@,
        decreases cases@.len() - i,
    {
        assert(views(cases@)[i as int].name == cases@[i as int].name@);
        if same(cases[i].name.as_str(), name) {
            return Some(i);
        }
        i += 1;
    }
    None
}

/// The report after the same artwork was rendered plain and compressed.
pub open spec fn after_agreement(
    r: ReportView,
    plain: Result<Thumb, u32>,
    compressed: Option<Result<Thumb, u32>>,
) -> ReportView {
    match compressed {
        None => r.skip("svgz_and_svg_agree"@, "svgz-valid case not present in the corpus"@),
        Some(gz) => match (plain, gz) {
            (Ok(a), Ok(b)) => r.check(
                "svgz_and_svg_agree"@,
                a.classified() == Rendering::Real && b.classified() == Rendering::Real
                    && a.pixels@ == b.pixels@,
                "plain="@ + a.classified().word() + " gz="@ + b.classified().word()
                    + " pixels_identical="@ + bool_word(a.pixels@ == b.pixels@),
            ),
            _ => r.fail(
                "svgz_and_svg_agree"@,
                "could not render both forms: plain_ok="@ + bool_word(plain is Ok) + " gz_ok="@
                    + bool_word(gz is Ok),
            ),
        },
    }
}

/// Compressed input takes a different route through the provider; the two must
/// agree on the same artwork, pixel for pixel.
pub fn judge_agreement(
    report: &mut Report,
    plain: &Result<Thumb, u32>,
    compressed: &Option<Result<Thumb, u32>>,
)
    ensures
        final(report)@ == after_agreement(old(report)@, *plain, *compressed),
{
    match compressed {
        None => {
            report.skip("svgz_and_svg_agree", "svgz-valid case not present in the corpus");
        },
        Some(gz) => match (plain, gz) {
            (Ok(a), Ok(b)) => {
                let identical: bool = same_pixels(a, b);
                let both_real: bool = a.classify() == Rendering::Real && b.classify()
                    == Rendering::Real;
                let mut s: String = three("plain=", a.classify().text(), " gz=");
                s.append(b.classify().text());
                s.append(" pixels_identical=");
                s.append(bool_text(identical));
                report.check("svgz_and_svg_agree", both_real && identical, s.as_str());
            },
            (a, b) => {
                let mut s: String = three(
                    "could not render both forms: plain_ok=",
                    bool_text(a.is_ok()),
                    " gz_ok=",
                );
                s.append(bool_text(b.is_ok()));
                report.fail("svgz_and_svg_agree", s.as_str());
            },
        },
    }
}

// ---------------------------------------------------------------
//                     What the checks ask for
// ---------------------------------------------------------------

/// What is observed of a render: its picture, with whether both sides have the size that
/// was asked for and whether it says that it has alpha; of a failed one its status, and
/// nothing to object to.
pub proof fn what_is_observed(o: Observed, result: Result<Thumb, u32>, size: u32)
    requires
        read_off(o, result, size),
    ensures
        o.rendering is Some <==> result is Ok,
        result is Ok ==> o.rendering == Some(result->Ok_0.classified()),
        o.geometry_ok <==> result is Err || (result->Ok_0.width == size && result->Ok_0.height
            == size),
        o.alpha_declared <==> result is Err || result->Ok_0.alpha == 2,
        o.hresult == (if result is Ok {
            0
        } else {
            result->Err_0
        }),
{
}

/// What an expectation asks of the picture: nothing of a hostile input, artwork and
/// nothing else of a valid one, and of one beyond a limit that there is no picture or a
/// placeholder.
pub proof fn what_is_expected(expect: Expect, rendering: Option<Rendering>)
    ensures
        expect == Expect::Survive ==> as_expected(expect, rendering),
        expect == Expect::RealRender ==> (as_expected(expect, rendering) <==> rendering == Some(
            Rendering::Real,
        )),
        expect == Expect::RejectOrFallback ==> (as_expected(expect, rendering) <==> rendering
            == None::<Rendering> || rendering == Some(Rendering::RedXFallback) || rendering == Some(
            Rendering::BlackSquareFallback,
        )),
{
}

/// What one case adds to the report: a failure of its own for a bitmap of the wrong
/// size, for one that does not say that it has alpha, for a render that took longer than
/// it may and for memory that was not given back, in this order, and then the case
/// itself, by whether it was rendered as its expectation asks. Both budgets may be used
/// up entirely.
pub proof fn what_a_case_adds(
    r: ReportView,
    case: CaseView,
    size: u32,
    limits: Limits,
    o: &Observed,
)
    ensures
        ({
            let geometry = if o.geometry_ok {
                Seq::empty()
            } else {
                seq![(case.name + "/geometry"@, Outcome::Fail)]
            };
            let alpha = if o.rendering is None || o.alpha_declared {
                Seq::empty()
            } else {
                seq![(case.name + "/alpha-type"@, Outcome::Fail)]
            };
            let time = if o.elapsed_ns <= 1_000_000_000 * limits.seconds {
                Seq::empty()
            } else {
                seq![(case.name + "/time-budget"@, Outcome::Fail)]
            };
            let memory = if o.memory_growth <= limits.memory {
                Seq::empty()
            } else {
                seq![(case.name + "/memory-budget"@, Outcome::Fail)]
            };
            checks_added(
                r,
                after_case(r, case, size, limits, o),
                geometry + alpha + time + memory + seq![
                    (case.name, outcome_of(as_expected(case.expect, o.rendering))),
                ],
            )
        }),
{
}

/// What a case may use up: the more it may hold, the more time and memory it has.
pub proof fn limits_grow_with_the_input()
    ensures
        Limits::of_small_input().seconds == 45,
        Limits::of_compressed().seconds == 90,
        Limits::of_huge_input().seconds == 360,
        Limits::of_small_input().memory == 536_870_912,
        Limits::of_compressed().memory == 1_073_741_824,
        Limits::of_huge_input().memory == 1_610_612_736,
{
}

/// Nothing that the listener counted is let pass, and the file must still be there; where
/// no listener could be had, that is recorded as not checked.
pub proof fn what_the_cases_may_reach(
    r: ReportView,
    hits: u32,
    url: Seq<char>,
    sentinel_exists: bool,
    error: Seq<char>,
)
    ensures
        checks_added(
            r,
            after_network(r, hits, url, sentinel_exists),
            seq![
                ("no_outbound_network_access"@, outcome_of(hits == 0)),
                ("xxe_sentinel_still_present"@, outcome_of(sentinel_exists)),
            ],
        ),
        one_check(r, after_no_listener(r, error), "xxe_network_probe"@, Outcome::Skip),
        one_more_hit(hits) > 0,
        hits < 0xFFFF_FFFF ==> one_more_hit(hits) == hits + 1,
{
}

/// Sizes take turns: four of them, all different, one of them no power of two.
pub proof fn sizes_take_turns(ran: nat, other: nat)
    ensures
        size_for(ran + 4) == size_for(ran),
        size_for(ran) == size_for(other) <==> ran % 4 == other % 4,
        size_for(0) == 16,
        size_for(1) == 64,
        size_for(2) == 256,
        size_for(3) == 133,
{
}

/// A filter picks the places, in ascending order, of exactly the cases that it lets
/// through.
pub proof fn a_filter_picks_what_it_lets_through(
    cases: Seq<CaseView>,
    only: Option<Seq<char>>,
    n: nat,
    i: int,
)
    requires
        n <= cases.len(),
    ensures
        chosen(cases, only, n).contains(i) <==> 0 <= i < n && (only matches Some(name)
            ==> cases[i].name == name),
        forall|a: int, b: int|
            0 <= a < b < chosen(cases, only, n).len() ==> #[trigger] chosen(cases, only, n)[a]
                < #[trigger] chosen(cases, only, n)[b],
        forall|a: int|
            0 <= a < chosen(cases, only, n).len() ==> 0 <= #[trigger] chosen(cases, only, n)[a] < n,
    decreases n,
{
    if n > 0 {
        let m = (n - 1) as nat;
        a_filter_picks_what_it_lets_through(cases, only, m, i);
        let before = chosen(cases, only, m);
        let all = chosen(cases, only, n);
        if lets_through(only, cases[n - 1].name) {
            assert(all[all.len() - 1] == n - 1);
            if before.contains(i) {
                let k: int = choose|k: int| 0 <= k < before.len() && before[k] == i;
                assert(all[k] == i);
            }
            if all.contains(i) {
                let k: int = choose|k: int| 0 <= k < all.len() && all[k] == i;
                if k < before.len() {
                    assert(before[k] == i);
                }
            }
        }
    }
}

/// A filter that lets nothing through is recorded, and never as a pass; the two forms of
/// one document agree exactly when both rendered as artwork with the same bytes.
pub proof fn what_is_recorded_beside_the_cases(
    r: ReportView,
    total: nat,
    plain: Result<Thumb, u32>,
    compressed: Option<Result<Thumb, u32>>,
)
    ensures
        one_check(r, after_no_svg(r, total), "corpus"@, Outcome::Skip),
        one_check(r, after_no_svgz(r, total), "svgz_corpus"@, Outcome::Skip),
        one_check(r, after_no_size_limit(r, total), "size_limit_corpus"@, Outcome::Skip),
        one_check(
            r,
            after_agreement(r, plain, compressed),
            "svgz_and_svg_agree"@,
            match compressed {
                None => Outcome::Skip,
                Some(gz) => outcome_of(
                    plain is Ok && gz is Ok && plain->Ok_0.classified() == Rendering::Real
                        && gz->Ok_0.classified() == Rendering::Real && plain->Ok_0.pixels@
                        == gz->Ok_0.pixels@,
                ),
            },
        ),
{
}

/// The first case of a name is one place and no other, and there is one where any case
/// has the name, not after it.
pub proof fn there_is_one_first_case(cases: Seq<CaseView>, name: Seq<char>, i: int, j: int)
    ensures
        is_first_named(cases, name, i) && is_first_named(cases, name, j) ==> i == j,
        is_first_named(cases, name, i) ==> 0 <= i < cases.len() && cases[i].name == name,
        0 <= j < cases.len() && cases[j].name == name ==> exists|k: int|
            k <= j && #[trigger] is_first_named(cases, name, k),
    decreases j,
{
    if is_first_named(cases, name, i) && is_first_named(cases, name, j) {
        if i < j {
            assert(cases[i].name != name);
        }
        if j < i {
            assert(cases[j].name != name);
        }
    }
    if 0 <= j < cases.len() && cases[j].name == name && !is_first_named(cases, name, j) {
        let k: int = choose|k: int| 0 <= k < j && (#[trigger] cases[k]).name == name;
        there_is_one_first_case(cases, name, i, k);
        let first: int = choose|m: int| m <= k && #[trigger] is_first_named(cases, name, m);
        assert(first <= j && is_first_named(cases, name, first));
    }
}

/// What is said about the network tells whether anything was reached: how often, where
/// something was.
pub proof fn the_network_line_says_what_was_reached(hits: u32, url: Seq<char>)
    ensures
        hits > 0 ==> occurs(dec(hits as nat) + " outbound connection(s) reached "@ + url, network_detail(
            hits,
            url,
        )),
        hits == 0 ==> occurs(url + " recorded no connections"@, network_detail(hits, url)),
{
    let none = Seq::<char>::empty();
    if hits > 0 {
        let part = dec(hits as nat) + " outbound connection(s) reached "@ + url;
        let tail = " while parsing untrusted SVG - XML external entity resolution is enabled"@;
        lemma_occurs_between("SECURITY: "@, part, tail);
        assert("SECURITY: "@ + part + tail =~= network_detail(hits, url));
    } else {
        reveal_strlit(" recorded no connections");
        reveal_strlit(" recorded no connections across the XXE cases (external DTDs, external general and parameter entities, UNC paths, remote xml-stylesheet and remote <image> hrefs)");
        let long = " recorded no connections across the XXE cases (external DTDs, external general and parameter entities, UNC paths, remote xml-stylesheet and remote <image> hrefs)"@;
        let short = " recorded no connections"@;
        let n: int = short.len() as int;
        assert(long =~= short + long.skip(n));
        lemma_occurs_between("the local listener at "@, url + short, long.skip(n));
        assert("the local listener at "@ + (url + short) + long.skip(n) =~= network_detail(hits, url));
    }
}

/// A listener is reached over plain HTTP at its own address.
pub proof fn listeners_are_reached_at_their_address(address: Seq<char>, other: Seq<char>)
    ensures
        url_of(address).take(7) == "http://"@,
        url_of(address).skip(7) == address,
        url_of(address) == url_of(other) ==> address == other,
{
    reveal_strlit("http://");
    assert(url_of(address).take(7) =~= "http://"@);
    assert(url_of(address).skip(7) =~= address);
    assert(url_of(other).skip(7) =~= other);
}

} // verus!
