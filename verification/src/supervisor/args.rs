//! Command-line arguments.

use vstd::prelude::*;
use crate::numbers::{dec, decimal, parse_dec, parse_reads_back_decimal, parse_u64, parse_usize};
use crate::suites::cases::lets_through;
use crate::supervisor::{kind_named, SuiteSpec, SuiteView};
use crate::text::{begins_with, no_texts, push_text, same, starts_with, texts};

verus! {

/// The text of an optional string.
pub open spec fn text_of(s: Option<String>) -> Option<Seq<char>> {
    match s {
        Some(t) => Some(t@),
        None => None,
    }
}

/// What the arguments say, before defaults.
pub struct Parsed {
    pub dll: Option<String>,
    pub suites: Vec<String>,
    pub seed: Option<u64>,
    pub scale: usize,
    pub only: Option<String>,
    pub corpus: Option<String>,
    pub work_dir: Option<String>,
    pub mem_cap_mb: Option<u64>,
    /// Arguments that were not recognised.
    pub ignored: Vec<String>,
}

/// What a `Parsed` stands for.
pub struct ParsedView {
    pub dll: Option<Seq<char>>,
    pub suites: Seq<Seq<char>>,
    pub seed: Option<u64>,
    pub scale: usize,
    pub only: Option<Seq<char>>,
    pub corpus: Option<Seq<char>>,
    pub work_dir: Option<Seq<char>>,
    pub mem_cap_mb: Option<u64>,
    pub ignored: Seq<Seq<char>>,
}

impl View for Parsed {
    type V = ParsedView;

    open spec fn view(&self) -> ParsedView {
        ParsedView {
            dll: text_of(self.dll),
            suites: texts(self.suites@),
            seed: self.seed,
            scale: self.scale,
            only: text_of(self.only),
            corpus: text_of(self.corpus),
            work_dir: text_of(self.work_dir),
            mem_cap_mb: self.mem_cap_mb,
            ignored: texts(self.ignored@),
        }
    }
}

/// The value that follows place `i`, if any does.
pub open spec fn value_after(args: Seq<Seq<char>>, i: int) -> Option<Seq<char>> {
    if i + 1 < args.len() {
        Some(args[i + 1])
    } else {
        None
    }
}

/// `value` as a number of at most `max`.
pub open spec fn number(value: Option<Seq<char>>, max: nat) -> Option<nat> {
    match value {
        Some(v) => parse_dec(v, max),
        None => None,
    }
}

pub open spec fn as_u64(n: Option<nat>) -> Option<u64> {
    match n {
        Some(v) => Some(v as u64),
        None => None,
    }
}

pub open spec fn scale_of(value: Option<Seq<char>>) -> usize {
    match number(value, usize::MAX as nat) {
        Some(n) => n as usize,
        None => 1,
    }
}

/// The names of the options that take a value.
pub open spec fn takes_value(arg: Seq<char>) -> bool {
    ||| arg == "--dll"@
    ||| arg == "--suite"@
    ||| arg == "--seed"@
    ||| arg == "--scale"@
    ||| arg == "--only"@
    ||| arg == "--corpus"@
    ||| arg == "--work-dir"@
    ||| arg == "--mem-cap-mb"@
}

/// The effect of the argument in place `i` on what was read before it.
pub open spec fn take_arg(args: Seq<Seq<char>>, i: int, p: ParsedView) -> ParsedView {
    let arg = args[i];
    let value = value_after(args, i);
    if arg == "--dll"@ {
        ParsedView { dll: value, ..p }
    } else if arg == "--suite"@ {
        match value {
            Some(v) => ParsedView { suites: p.suites.push(v), ..p },
            None => p,
        }
    } else if arg == "--seed"@ {
        ParsedView { seed: as_u64(number(value, u64::MAX as nat)), ..p }
    } else if arg == "--scale"@ {
        ParsedView { scale: scale_of(value), ..p }
    } else if arg == "--only"@ {
        ParsedView { only: value, ..p }
    } else if arg == "--corpus"@ {
        ParsedView { corpus: value, ..p }
    } else if arg == "--work-dir"@ {
        ParsedView { work_dir: value, ..p }
    } else if arg == "--mem-cap-mb"@ {
        ParsedView { mem_cap_mb: as_u64(number(value, u64::MAX as nat)), ..p }
    } else if !begins_with(arg, "--"@) && p.suites.len() == 0 {
        // A bare name selects the suite, so that `exec render` works.
        ParsedView { suites: p.suites.push(arg), ..p }
    } else {
        ParsedView { ignored: p.ignored.push(arg), ..p }
    }
}

/// Where the next argument is.
pub open spec fn next_arg(args: Seq<Seq<char>>, i: int) -> int {
    if takes_value(args[i]) {
        i + 2
    } else {
        i + 1
    }
}

/// What the arguments from place `i` on make of what was read before them.
pub open spec fn parse_from(args: Seq<Seq<char>>, i: int, p: ParsedView) -> ParsedView
    decreases
            if i < args.len() {
                args.len() - i
            } else {
                0
            },
{
    if i >= args.len() {
        p
    } else {
        parse_from(args, next_arg(args, i), take_arg(args, i, p))
    }
}

pub open spec fn nothing_said() -> ParsedView {
    ParsedView {
        dll: None,
        suites: Seq::empty(),
        seed: None,
        scale: 1,
        only: None,
        corpus: None,
        work_dir: None,
        mem_cap_mb: None,
        ignored: Seq::empty(),
    }
}

/// What the arguments say.
pub open spec fn parsed(args: Seq<Seq<char>>) -> ParsedView {
    parse_from(args, 0, nothing_said())
}

fn value_at(args: &Vec<String>, i: usize) -> (r: Option<String>)
    requires
        i < args@.len(),
    ensures
        text_of(r) == value_after(texts(args@), i as int),
{
    if i < args.len() - 1 {
        Some(args[i + 1].as_str().to_owned())
    } else {
        None
    }
}

fn number_at(args: &Vec<String>, i: usize) -> (r: Option<u64>)
    requires
        i < args@.len(),
    ensures
        r == as_u64(number(value_after(texts(args@), i as int), u64::MAX as nat)),
{
    match value_at(args, i) {
        Some(v) => parse_u64(v.as_str()),
        None => None,
    }
}

fn scale_at(args: &Vec<String>, i: usize) -> (r: usize)
    requires
        i < args@.len(),
    ensures
        r == scale_of(value_after(texts(args@), i as int)),
{
    match value_at(args, i) {
        Some(v) => match parse_usize(v.as_str()) {
            Some(n) => n,
            None => 1,
        },
        None => 1,
    }
}

/// Reads the arguments.
pub fn parse_args(args: &Vec<String>) -> (p: Parsed)
    ensures
        p@ == parsed(texts(args@)),
{
    let mut p: Parsed = Parsed {
        dll: None,
        suites: Vec::new(),
        seed: None,
        scale: 1,
        only: None,
        corpus: None,
        work_dir: None,
        mem_cap_mb: None,
        ignored: Vec::new(),
    };
    let ghost all = texts(args@);
    proof {
        assert(texts(p.suites@) =~= Seq::<Seq<char>>::empty());
        assert(texts(p.ignored@) =~= Seq::<Seq<char>>::empty());
    }
    let mut i: usize = 0;
    while i < args.len()
        invariant
            all == texts(args@),
            all.len() == args@.len(),
            parsed(all) == parse_from(all, i as int, p@),
        decreases args@.len() - i,
    {
        let arg: &str = args[i].as_str();
        let ghost before = p@;
        let mut width: usize = 2;
        assert(arg@ == all[i as int]);
        assert(p.suites@.len() == before.suites.len());
        if same(arg, "--dll") {
            p.dll = value_at(args, i);
        } else if same(arg, "--suite") {
            if let Some(v) = value_at(args, i) {
                push_text(&mut p.suites, v);
            }
        } else if same(arg, "--seed") {
            p.seed = number_at(args, i);
        } else if same(arg, "--scale") {
            p.scale = scale_at(args, i);
        } else if same(arg, "--only") {
            p.only = value_at(args, i);
        } else if same(arg, "--corpus") {
            p.corpus = value_at(args, i);
        } else if same(arg, "--work-dir") {
            p.work_dir = value_at(args, i);
        } else if same(arg, "--mem-cap-mb") {
            p.mem_cap_mb = number_at(args, i);
        } else {
            width = 1;
            if !starts_with(arg, "--") && p.suites.len() == 0 {
                push_text(&mut p.suites, arg.to_owned());
            } else {
                push_text(&mut p.ignored, arg.to_owned());
            }
        }
        assert(p@ == take_arg(all, i as int, before));
        assert(next_arg(all, i as int) == i + width);
        if args.len() - i <= width {
            assert(parse_from(all, i + width, p@) == p@);
            i = args.len();
        } else {
            i += width;
        }
    }
    p
}

/// What a run goes by.
pub struct Args {
    pub dll: String,
    pub suites: Vec<String>,
    pub seed: u64,
    pub scale: usize,
    pub only: Option<String>,
    pub corpus: String,
    pub work_dir: String,
    pub mem_cap_mb: Option<u64>,
}

/// What an `Args` stands for.
pub struct ArgsView {
    pub dll: Seq<char>,
    pub suites: Seq<Seq<char>>,
    pub seed: u64,
    pub scale: usize,
    pub only: Option<Seq<char>>,
    pub corpus: Seq<char>,
    pub work_dir: Seq<char>,
    pub mem_cap_mb: Option<u64>,
}

impl View for Args {
    type V = ArgsView;

    open spec fn view(&self) -> ArgsView {
        ArgsView {
            dll: self.dll@,
            suites: texts(self.suites@),
            seed: self.seed,
            scale: self.scale,
            only: text_of(self.only),
            corpus: self.corpus@,
            work_dir: self.work_dir@,
            mem_cap_mb: self.mem_cap_mb,
        }
    }
}

pub open spec fn text_or(s: Option<Seq<char>>, default: Seq<char>) -> Seq<char> {
    match s {
        Some(t) => t,
        None => default,
    }
}

impl ParsedView {
    /// These arguments with defaults where nothing was said. A scale of zero
    /// counts as one.
    pub open spec fn completed(self, default_dll: Seq<char>, fresh_seed: u64) -> ArgsView {
        ArgsView {
            dll: text_or(self.dll, default_dll),
            suites: self.suites,
            seed: match self.seed {
                Some(n) => n,
                None => fresh_seed,
            },
            scale: if self.scale == 0 {
                1
            } else {
                self.scale
            },
            only: self.only,
            corpus: text_or(self.corpus, "svg-corpus"@),
            work_dir: text_or(self.work_dir, "gauntlet-work"@),
            mem_cap_mb: self.mem_cap_mb,
        }
    }
}

fn string_or(s: Option<String>, default: &str) -> (r: String)
    ensures
        r@ == text_or(text_of(s), default@),
{
    match s {
        Some(t) => t,
        None => default.to_owned(),
    }
}

impl Parsed {
    /// These arguments with defaults where nothing was said.
    pub fn complete(self, default_dll: &str, fresh_seed: u64) -> (a: Args)
        ensures
            a@ == self@.completed(default_dll@, fresh_seed),
            a.scale >= 1,
    {
        Args {
            dll: string_or(self.dll, default_dll),
            suites: self.suites,
            seed: match self.seed {
                Some(n) => n,
                None => fresh_seed,
            },
            scale: if self.scale == 0 {
                1
            } else {
                self.scale
            },
            only: self.only,
            corpus: string_or(self.corpus, "svg-corpus"),
            work_dir: string_or(self.work_dir, "gauntlet-work"),
            mem_cap_mb: self.mem_cap_mb,
        }
    }
}

// ---------------------------------------------------------------
//                     Arguments of a child
// ---------------------------------------------------------------

/// Arguments that make a child run one suite the way this run goes.
pub open spec fn child_args(s: SuiteView, a: ArgsView) -> Seq<Seq<char>> {
    let common = seq![
        "exec"@,
        s.name,
        "--dll"@,
        a.dll,
        "--seed"@,
        dec(a.seed as nat),
        "--scale"@,
        dec(a.scale as nat),
        "--corpus"@,
        a.corpus,
        "--work-dir"@,
        a.work_dir,
    ];
    match s.mem_cap_mb {
        Some(mb) => common.push("--mem-cap-mb"@).push(dec(mb as nat)),
        None => common,
    }
}

/// Arguments that make a child run one suite the way this run goes.
pub fn child_arguments(s: &SuiteSpec, a: &Args) -> (v: Vec<String>)
    ensures
        texts(v@) == child_args(s@, a@),
{
    let mut v: Vec<String> = no_texts();
    push_text(&mut v, "exec".to_owned());
    push_text(&mut v, s.name.to_owned());
    push_text(&mut v, "--dll".to_owned());
    push_text(&mut v, a.dll.as_str().to_owned());
    push_text(&mut v, "--seed".to_owned());
    push_text(&mut v, decimal(a.seed));
    push_text(&mut v, "--scale".to_owned());
    push_text(&mut v, decimal(a.scale as u64));
    push_text(&mut v, "--corpus".to_owned());
    push_text(&mut v, a.corpus.as_str().to_owned());
    push_text(&mut v, "--work-dir".to_owned());
    push_text(&mut v, a.work_dir.as_str().to_owned());
    if let Some(mb) = s.mem_cap_mb {
        push_text(&mut v, "--mem-cap-mb".to_owned());
        push_text(&mut v, decimal(mb));
    }
    v
}

proof fn lemma_options_differ()
    ensures
        "--dll"@ != "--suite"@,
        "--seed"@ != "--dll"@,
        "--seed"@ != "--suite"@,
        "--scale"@ != "--dll"@,
        "--scale"@ != "--suite"@,
        "--scale"@ != "--seed"@,
        "--only"@ != "--dll"@,
        "--only"@ != "--suite"@,
        "--only"@ != "--seed"@,
        "--only"@ != "--scale"@,
        "--corpus"@ != "--dll"@,
        "--corpus"@ != "--suite"@,
        "--corpus"@ != "--seed"@,
        "--corpus"@ != "--scale"@,
        "--corpus"@ != "--only"@,
        "--work-dir"@ != "--dll"@,
        "--work-dir"@ != "--suite"@,
        "--work-dir"@ != "--seed"@,
        "--work-dir"@ != "--scale"@,
        "--work-dir"@ != "--only"@,
        "--work-dir"@ != "--corpus"@,
        "--mem-cap-mb"@ != "--dll"@,
        "--mem-cap-mb"@ != "--suite"@,
        "--mem-cap-mb"@ != "--seed"@,
        "--mem-cap-mb"@ != "--scale"@,
        "--mem-cap-mb"@ != "--only"@,
        "--mem-cap-mb"@ != "--corpus"@,
        "--mem-cap-mb"@ != "--work-dir"@,
{
    reveal_strlit("--dll");
    reveal_strlit("--suite");
    reveal_strlit("--seed");
    reveal_strlit("--scale");
    reveal_strlit("--only");
    reveal_strlit("--corpus");
    reveal_strlit("--work-dir");
    reveal_strlit("--mem-cap-mb");
    assert("--dll"@.len() == 5 && "--suite"@.len() == 7 && "--seed"@.len() == 6);
    assert("--scale"@[3] != "--suite"@[3]);
    assert("--only"@[2] != "--seed"@[2]);
    assert("--corpus"@.len() == 8 && "--work-dir"@.len() == 10 && "--mem-cap-mb"@.len() == 12);
    assert("--only"@.len() == 6 && "--scale"@.len() == 7);
}

proof fn lemma_name_is_no_option(name: Seq<char>)
    requires
        kind_named(name) is Some,
    ensures
        !begins_with(name, "--"@),
        !takes_value(name),
{
    reveal_strlit("--");
    reveal_strlit("api-misuse");
    reveal_strlit("stream-faults");
    reveal_strlit("render");
    reveal_strlit("adversarial");
    reveal_strlit("svgz");
    reveal_strlit("size-limits");
    reveal_strlit("lifecycle");
    reveal_strlit("concurrency");
    reveal_strlit("churn");
    reveal_strlit("breadth");
    reveal_strlit("--dll");
    reveal_strlit("--suite");
    reveal_strlit("--seed");
    reveal_strlit("--scale");
    reveal_strlit("--only");
    reveal_strlit("--corpus");
    reveal_strlit("--work-dir");
    reveal_strlit("--mem-cap-mb");
    assert(name[0] != '-');
    if begins_with(name, "--"@) {
        assert(name.take(2)[0] == name[0]);
    }
}

/// A child reads from its arguments exactly the run that they were made for: the
/// same library, seed, scale, corpus and working directory, its own suite and
/// memory cap, and nothing besides.
pub proof fn child_replays_the_run(s: SuiteView, a: ArgsView, default_dll: Seq<char>, fresh: u64)
    requires
        kind_named(s.name) is Some,
        a.scale >= 1,
    ensures
        parsed(child_args(s, a).skip(1)).completed(default_dll, fresh) == (ArgsView {
            suites: seq![s.name],
            only: None,
            mem_cap_mb: s.mem_cap_mb,
            ..a
        }),
        parsed(child_args(s, a).skip(1)).ignored.len() == 0,
{
    let args = child_args(s, a).skip(1);
    lemma_options_differ();
    lemma_name_is_no_option(s.name);
    parse_reads_back_decimal(a.seed as nat, u64::MAX as nat);
    parse_reads_back_decimal(a.scale as nat, usize::MAX as nat);
    let p0 = nothing_said();
    assert(args[0] == s.name && args[1] == "--dll"@ && args[2] == a.dll);
    assert(args[3] == "--seed"@ && args[4] == dec(a.seed as nat));
    assert(args[5] == "--scale"@ && args[6] == dec(a.scale as nat));
    assert(args[7] == "--corpus"@ && args[8] == a.corpus);
    assert(args[9] == "--work-dir"@ && args[10] == a.work_dir);
    let p1 = take_arg(args, 0, p0);
    let p2 = take_arg(args, 1, p1);
    let p3 = take_arg(args, 3, p2);
    let p4 = take_arg(args, 5, p3);
    let p5 = take_arg(args, 7, p4);
    let p6 = take_arg(args, 9, p5);
    assert(parse_from(args, 0, p0) == parse_from(args, 1, p1));
    assert(parse_from(args, 1, p1) == parse_from(args, 3, p2));
    assert(parse_from(args, 3, p2) == parse_from(args, 5, p3));
    assert(parse_from(args, 5, p3) == parse_from(args, 7, p4));
    assert(parse_from(args, 7, p4) == parse_from(args, 9, p5));
    assert(parse_from(args, 9, p5) == parse_from(args, 11, p6));
    assert(p6.suites =~= seq![s.name]);
    match s.mem_cap_mb {
        Some(mb) => {
            parse_reads_back_decimal(mb as nat, u64::MAX as nat);
            assert(args.len() == 13);
            assert(args[11] == "--mem-cap-mb"@ && args[12] == dec(mb as nat));
            let p7 = take_arg(args, 11, p6);
            assert(parse_from(args, 11, p6) == parse_from(args, 13, p7));
            assert(parse_from(args, 13, p7) == p7);
        },
        None => {
            assert(args.len() == 11);
            assert(parse_from(args, 11, p6) == p6);
        },
    }
}

/// The words of the command that runs one case of a suite again.
pub open spec fn replay_words(suite: Seq<char>, a: ArgsView, case: Seq<char>) -> Seq<Seq<char>> {
    seq![
        "gauntlet"@,
        "exec"@,
        suite,
        "--dll"@,
        a.dll,
        "--seed"@,
        dec(a.seed as nat),
        "--only"@,
        case,
    ]
}

/// The command that runs a case again reads back as that suite, and the library and
/// the seed of the run it comes from; and of all cases it lets that one through and no
/// other.
pub proof fn a_replay_runs_the_case(
    suite: Seq<char>,
    a: ArgsView,
    case: Seq<char>,
    default_dll: Seq<char>,
    fresh: u64,
)
    requires
        kind_named(suite) is Some,
    ensures
        ({
            let again = parsed(replay_words(suite, a, case).skip(2)).completed(default_dll, fresh);
            &&& again.suites == seq![suite]
            &&& again.dll == a.dll
            &&& again.seed == a.seed
            &&& again.only == Some(case)
            &&& forall|name: Seq<char>| #[trigger] lets_through(again.only, name) <==> name == case
        }),
        parsed(replay_words(suite, a, case).skip(2)).ignored.len() == 0,
{
    let args = replay_words(suite, a, case).skip(2);
    lemma_options_differ();
    lemma_name_is_no_option(suite);
    parse_reads_back_decimal(a.seed as nat, u64::MAX as nat);
    let p0 = nothing_said();
    assert(args.len() == 7);
    assert(args[0] == suite && args[1] == "--dll"@ && args[2] == a.dll);
    assert(args[3] == "--seed"@ && args[4] == dec(a.seed as nat));
    assert(args[5] == "--only"@ && args[6] == case);
    let p1 = take_arg(args, 0, p0);
    let p2 = take_arg(args, 1, p1);
    let p3 = take_arg(args, 3, p2);
    let p4 = take_arg(args, 5, p3);
    assert(parse_from(args, 0, p0) == parse_from(args, 1, p1));
    assert(parse_from(args, 1, p1) == parse_from(args, 3, p2));
    assert(parse_from(args, 3, p2) == parse_from(args, 5, p3));
    assert(parse_from(args, 5, p3) == parse_from(args, 7, p4));
    assert(parse_from(args, 7, p4) == p4);
    assert(p4.suites =~= seq![suite]);
}

/// What one argument changes. An option sets what it is named after to the value that
/// follows it, and leaves the rest alone; `--suite` adds a suite, and so does the first
/// bare word where none was named before it; anything else is noted as ignored.
pub proof fn what_one_argument_changes(args: Seq<Seq<char>>, i: int, p: ParsedView)
    requires
        0 <= i < args.len(),
    ensures
        ({
            let next = take_arg(args, i, p);
            let arg = args[i];
            let value = value_after(args, i);
            &&& next.dll == (if arg == "--dll"@ {
                value
            } else {
                p.dll
            })
            &&& next.only == (if arg == "--only"@ {
                value
            } else {
                p.only
            })
            &&& next.corpus == (if arg == "--corpus"@ {
                value
            } else {
                p.corpus
            })
            &&& next.work_dir == (if arg == "--work-dir"@ {
                value
            } else {
                p.work_dir
            })
            &&& arg != "--seed"@ ==> next.seed == p.seed
            &&& arg != "--scale"@ ==> next.scale == p.scale
            &&& arg != "--mem-cap-mb"@ ==> next.mem_cap_mb == p.mem_cap_mb
            &&& arg == "--suite"@ && value is Some ==> next.suites == p.suites.push(value->0)
            &&& takes_value(arg) && arg != "--suite"@ ==> next.suites == p.suites
            &&& !takes_value(arg) && !begins_with(arg, "--"@) && p.suites.len() == 0 ==> next.suites
                == seq![arg] && next.ignored == p.ignored
            &&& !takes_value(arg) && (begins_with(arg, "--"@) || p.suites.len() > 0) ==> next.suites
                == p.suites && next.ignored == p.ignored.push(arg)
            &&& takes_value(arg) ==> next.ignored == p.ignored
            &&& next_arg(args, i) == (if takes_value(arg) {
                i + 2
            } else {
                i + 1
            })
        }),
{
    lemma_options_differ();
    assert(seq![args[i]] =~= Seq::<Seq<char>>::empty().push(args[i]));
    if p.suites.len() == 0 {
        assert(p.suites.push(args[i]) =~= seq![args[i]]);
    }
}

/// A number is read where it is one and fits; a seed or a memory cap that is none counts
/// as not given, and a scale that is none as one.
pub proof fn numbers_are_read_or_left_out(
    args: Seq<Seq<char>>,
    i: int,
    p: ParsedView,
    n: u64,
    scale: usize,
)
    requires
        0 <= i < args.len(),
    ensures
        ({
            let next = take_arg(args, i, p);
            let value = value_after(args, i);
            &&& args[i] == "--seed"@ && value == Some(dec(n as nat)) ==> next.seed == Some(n)
            &&& args[i] == "--mem-cap-mb"@ && value == Some(dec(n as nat)) ==> next.mem_cap_mb
                == Some(n)
            &&& args[i] == "--scale"@ && value == Some(dec(scale as nat)) ==> next.scale == scale
            &&& args[i] == "--seed"@ && (value is None || parse_dec(value->0, u64::MAX as nat) is None)
                ==> next.seed is None
            &&& args[i] == "--mem-cap-mb"@ && (value is None || parse_dec(
                value->0,
                u64::MAX as nat,
            ) is None) ==> next.mem_cap_mb is None
            &&& args[i] == "--scale"@ && (value is None || parse_dec(
                value->0,
                usize::MAX as nat,
            ) is None) ==> next.scale == 1
        }),
{
    lemma_options_differ();
    parse_reads_back_decimal(n as nat, u64::MAX as nat);
    parse_reads_back_decimal(scale as nat, usize::MAX as nat);
}

/// What is not said is filled in, and what is said is kept: the library and the seed that
/// are handed over, a scale of at least one, and fixed names for the corpus and the
/// working directory.
pub proof fn defaults_fill_in_what_is_not_said(p: ParsedView, dll: Seq<char>, seed: u64)
    ensures
        p.dll is Some ==> p.completed(dll, seed).dll == p.dll->0,
        p.dll is None ==> p.completed(dll, seed).dll == dll,
        p.seed is Some ==> p.completed(dll, seed).seed == p.seed->0,
        p.seed is None ==> p.completed(dll, seed).seed == seed,
        p.scale >= 1 ==> p.completed(dll, seed).scale == p.scale,
        p.scale == 0 ==> p.completed(dll, seed).scale == 1,
        p.corpus is Some ==> p.completed(dll, seed).corpus == p.corpus->0,
        p.corpus is None ==> p.completed(dll, seed).corpus == "svg-corpus"@,
        p.work_dir is Some ==> p.completed(dll, seed).work_dir == p.work_dir->0,
        p.work_dir is None ==> p.completed(dll, seed).work_dir == "gauntlet-work"@,
        p.completed(dll, seed).suites == p.suites,
        p.completed(dll, seed).only == p.only,
        p.completed(dll, seed).mem_cap_mb == p.mem_cap_mb,
        nothing_said().completed(dll, seed).scale == 1,
        nothing_said().completed(dll, seed).suites.len() == 0,
        nothing_said().completed(dll, seed).only is None,
        nothing_said().completed(dll, seed).mem_cap_mb is None,
{
}

} // verus!
