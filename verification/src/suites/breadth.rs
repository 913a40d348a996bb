//! Breadth over a real-world corpus.
//!
//! Synthetic cases probe the edges deliberately; a real corpus finds the things
//! nobody thought to write a case for. Every file is valid production artwork,
//! so a fallback means that the provider could not handle something real-world.
//! Every file that renders is also compressed and rendered again, which gives the
//! compressed path the same breadth and asserts that the two agree.
//!
//! If the corpus is absent the suite skips rather than fails: a missing corpus
//! is an environment problem, not a defect in the provider.

use vstd::prelude::*;
use crate::gzip::{compress, gzip_member, Effort};
use crate::metrics::Delta;
use crate::numbers::{dec, decimal, hex32, hex32_text};
use crate::report::{checks_added, one_check, outcome_of, Outcome, Report, ReportView};
use crate::text::{
    begins_with, join, join_first, joined, joining_keeps_every_item, lemma_occurs_at_the_end,
    lemma_occurs_between, lemma_occurs_in_more, no_texts, occurs, push_text, texts, three, two,
};
use crate::thumb::{Rendering, Thumb};

verus! {

/// Seconds that one file may take. Real icons are small; anything slower is a
/// pathological input worth naming individually.
pub const PER_FILE_BUDGET: u64 = 20;

// ---------------------------------------------------------------
//                      What is done to a file
// ---------------------------------------------------------------

/// The size at which the `i`-th file is rendered. Sizes rotate so that the
/// corpus is not rendered at one size only.
pub open spec fn size_of_file(i: nat) -> u32 {
    if i % 6 == 0 {
        16
    } else if i % 6 == 1 {
        32
    } else if i % 6 == 2 {
        48
    } else if i % 6 == 3 {
        96
    } else if i % 6 == 4 {
        256
    } else {
        1024
    }
}

pub fn file_size(i: usize) -> (size: u32)
    ensures
        size == size_of_file(i as nat),
{
    match i % 6 {
        0 => 16,
        1 => 32,
        2 => 48,
        3 => 96,
        4 => 256,
        _ => 1024,
    }
}

/// The compressed form of a file, where it rendered.
pub open spec fn compressed_of(plain: Result<Thumb, u32>, bytes: Seq<u8>) -> Option<Seq<u8>> {
    match plain {
        Ok(_) => Some(gzip_member(bytes, Effort::Usual.level())),
        Err(_) => None,
    }
}

/// The compressed form in which a file is rendered once more, at the compressor's
/// default effort: every file that rendered has one.
pub fn compressed_form(plain: &Result<Thumb, u32>, bytes: &[u8]) -> (r: Option<Vec<u8>>)
    ensures
        match r {
            Some(member) => compressed_of(*plain, bytes@) == Some(member@),
            None => compressed_of(*plain, bytes@) is None,
        },
{
    match plain {
        Ok(_) => Some(compress(bytes, Effort::Usual)),
        Err(_) => None,
    }
}

// ---------------------------------------------------------------
//                        Keeping the tally
// ---------------------------------------------------------------

/// What has been seen of the corpus so far.
pub struct Tally {
    pub rendered: u32,
    pub fell_back: Vec<String>,
    pub failed: Vec<String>,
    pub slow: Vec<String>,
    pub geometry_bad: Vec<String>,
    pub gz_disagreed: Vec<String>,
    pub worst_ns: u128,
    /// The longest time as it is shown.
    pub worst_text: String,
    /// The file that took longest.
    pub worst_name: String,
}

/// What a `Tally` stands for.
pub struct TallyView {
    pub rendered: nat,
    pub fell_back: Seq<Seq<char>>,
    pub failed: Seq<Seq<char>>,
    pub slow: Seq<Seq<char>>,
    pub geometry_bad: Seq<Seq<char>>,
    pub gz_disagreed: Seq<Seq<char>>,
    pub worst_ns: u128,
    pub worst_text: Seq<char>,
    pub worst_name: Seq<char>,
}

impl View for Tally {
    type V = TallyView;

    open spec fn view(&self) -> TallyView {
        TallyView {
            rendered: self.rendered as nat,
            fell_back: texts(self.fell_back@),
            failed: texts(self.failed@),
            slow: texts(self.slow@),
            geometry_bad: texts(self.geometry_bad@),
            gz_disagreed: texts(self.gz_disagreed@),
            worst_ns: self.worst_ns,
            worst_text: self.worst_text@,
            worst_name: self.worst_name@,
        }
    }
}

/// `items` with `item` appended when `add`.
pub open spec fn push_if(items: Seq<Seq<char>>, add: bool, item: Seq<char>) -> Seq<Seq<char>> {
    if add {
        items.push(item)
    } else {
        items
    }
}

/// What is said about a file that took too long.
pub open spec fn slow_text(name: Seq<char>, elapsed: Seq<char>, size: u32) -> Seq<char> {
    name + ": "@ + elapsed + " at "@ + dec(size as nat) + "px"@
}

/// What is said about a bitmap of the wrong size.
pub open spec fn geometry_text(name: Seq<char>, size: u32, t: &Thumb) -> Seq<char> {
    name + ": asked for "@ + dec(size as nat) + "x"@ + dec(size as nat) + ", got "@ + dec(
        t.width as nat,
    ) + "x"@ + dec(t.height as nat)
}

/// What is said about a file that came back as a placeholder.
pub open spec fn fallback_text(name: Seq<char>, r: Rendering, size: u32) -> Seq<char> {
    name + " ("@ + r.word() + ") at "@ + dec(size as nat) + "px"@
}

/// What is said about a file that failed.
pub open spec fn failed_text(name: Seq<char>, hr: u32, size: u32) -> Seq<char> {
    name + ": hr="@ + hex32(hr) + " at "@ + dec(size as nat) + "px"@
}

/// What is said about a file that is artwork in one form and not in the other.
pub open spec fn disagreement_text(name: Seq<char>, plain: Rendering, gz: Rendering) -> Seq<char> {
    name + ": svg="@ + plain.word() + " svgz="@ + gz.word()
}

/// What is said about a file whose compressed form failed.
pub open spec fn gz_failed_text(name: Seq<char>, hr: u32) -> Seq<char> {
    name + ": svg rendered but svgz failed with "@ + hex32(hr)
}

impl TallyView {
    /// The tally after a file could not be read.
    pub open spec fn unreadable(self, name: Seq<char>) -> TallyView {
        TallyView { failed: self.failed.push(name + ": could not read file"@), ..self }
    }

    /// The tally after the time that a file took.
    pub open spec fn timed(
        self,
        name: Seq<char>,
        size: u32,
        elapsed_ns: u128,
        elapsed: Seq<char>,
    ) -> TallyView {
        let worse = elapsed_ns > self.worst_ns;
        TallyView {
            worst_ns: if worse {
                elapsed_ns
            } else {
                self.worst_ns
            },
            worst_text: if worse {
                elapsed
            } else {
                self.worst_text
            },
            worst_name: if worse {
                name
            } else {
                self.worst_name
            },
            slow: push_if(
                self.slow,
                elapsed_ns > PER_FILE_BUDGET * 1_000_000_000,
                slow_text(name, elapsed, size),
            ),
            ..self
        }
    }

    /// The tally after what came of a file.
    pub open spec fn ended(self, name: Seq<char>, size: u32, result: Result<Thumb, u32>) -> TallyView {
        match result {
            Ok(t) => TallyView {
                rendered: self.rendered + 1,
                geometry_bad: push_if(
                    self.geometry_bad,
                    t.width != size || t.height != size,
                    geometry_text(name, size, &t),
                ),
                fell_back: push_if(
                    self.fell_back,
                    t.classified().fallback(),
                    fallback_text(name, t.classified(), size),
                ),
                ..self
            },
            Err(hr) => TallyView { failed: self.failed.push(failed_text(name, hr, size)), ..self },
        }
    }

    /// The tally after a file that rendered was rendered compressed as well. The
    /// two are held against each other by what they show, not pixel by pixel: the
    /// plain path rewrites styles, so identical output is not guaranteed.
    pub open spec fn compared(self, name: Seq<char>, plain: &Thumb, gz: Result<Thumb, u32>) -> TallyView {
        match gz {
            Ok(t) => TallyView {
                gz_disagreed: push_if(
                    self.gz_disagreed,
                    (plain.classified() == Rendering::Real) != (t.classified() == Rendering::Real),
                    disagreement_text(name, plain.classified(), t.classified()),
                ),
                ..self
            },
            Err(hr) => TallyView {
                gz_disagreed: self.gz_disagreed.push(gz_failed_text(name, hr)),
                ..self
            },
        }
    }
}

impl Tally {
    pub fn new() -> (t: Tally)
        ensures
            t@ == blank(),
    {
        Tally {
            rendered: 0,
            fell_back: no_texts(),
            failed: no_texts(),
            slow: no_texts(),
            geometry_bad: no_texts(),
            gz_disagreed: no_texts(),
            worst_ns: 0,
            worst_text: "0ns".to_owned(),
            worst_name: "".to_owned(),
        }
    }

    /// Notes a file that could not be read.
    pub fn unreadable(&mut self, name: &str)
        ensures
            final(self)@ == old(self)@.unreadable(name@),
    {
        push_text(&mut self.failed, two(name, ": could not read file"));
    }

    fn time(&mut self, name: &str, size: u32, elapsed_ns: u128, elapsed: &str)
        ensures
            final(self)@ == old(self)@.timed(name@, size, elapsed_ns, elapsed@),
    {
        if elapsed_ns > self.worst_ns {
            self.worst_ns = elapsed_ns;
            self.worst_text = elapsed.to_owned();
            self.worst_name = name.to_owned();
        }
        if elapsed_ns > PER_FILE_BUDGET as u128 * 1_000_000_000 {
            let mut s: String = three(name, ": ", elapsed);
            s.append(" at ");
            s.append(decimal(size as u64).as_str());
            s.append("px");
            push_text(&mut self.slow, s);
        }
    }

    fn end(&mut self, name: &str, size: u32, result: &Result<Thumb, u32>)
        requires
            old(self)@.rendered < u32::MAX,
        ensures
            final(self)@ == old(self)@.ended(name@, size, *result),
    {
        match result {
            Ok(t) => {
                self.rendered += 1;
                if t.width != size || t.height != size {
                    let mut s: String = three(name, ": asked for ", decimal(size as u64).as_str());
                    s.append("x");
                    s.append(decimal(size as u64).as_str());
                    s.append(", got ");
                    s.append(decimal(t.width as u64).as_str());
                    s.append("x");
                    s.append(decimal(t.height as u64).as_str());
                    push_text(&mut self.geometry_bad, s);
                }
                let r: Rendering = t.classify();
                if r.is_fallback() {
                    let mut s: String = three(name, " (", r.text());
                    s.append(") at ");
                    s.append(decimal(size as u64).as_str());
                    s.append("px");
                    push_text(&mut self.fell_back, s);
                }
            },
            Err(hr) => {
                let mut s: String = three(name, ": hr=", hex32_text(*hr).as_str());
                s.append(" at ");
                s.append(decimal(size as u64).as_str());
                s.append("px");
                push_text(&mut self.failed, s);
            },
        }
    }

    /// Notes what came of rendering a file, and how long it took.
    pub fn file_done(
        &mut self,
        name: &str,
        size: u32,
        result: &Result<Thumb, u32>,
        elapsed_ns: u128,
        elapsed: &str,
    )
        requires
            old(self)@.rendered < u32::MAX,
        ensures
            final(self)@ == old(self)@.timed(name@, size, elapsed_ns, elapsed@).ended(
                name@,
                size,
                *result,
            ),
    {
        self.time(name, size, elapsed_ns, elapsed);
        self.end(name, size, result);
    }

    /// Notes what came of rendering the compressed form of a file that rendered.
    pub fn compressed_done(&mut self, name: &str, plain: &Thumb, gz: &Result<Thumb, u32>)
        ensures
            final(self)@ == old(self)@.compared(name@, plain, *gz),
    {
        match gz {
            Ok(t) => {
                let plain_real: bool = plain.classify() == Rendering::Real;
                let gz_real: bool = t.classify() == Rendering::Real;
                if plain_real != gz_real {
                    let mut s: String = three(name, ": svg=", plain.classify().text());
                    s.append(" svgz=");
                    s.append(t.classify().text());
                    push_text(&mut self.gz_disagreed, s);
                }
            },
            Err(hr) => {
                push_text(
                    &mut self.gz_disagreed,
                    three(
                        name,
                        ": svg rendered but svgz failed with ",
                        hex32_text(*hr).as_str(),
                    ),
                );
            },
        }
    }
}

/// What came of one file of the corpus.
pub struct FileView {
    pub name: Seq<char>,
    pub size: u32,
    /// Whether it could be read. Where it could not, the rest is of no account.
    pub read: bool,
    pub plain: Result<Thumb, u32>,
    pub elapsed_ns: u128,
    pub elapsed: Seq<char>,
    /// What came of its compressed form, where the plain one rendered.
    pub gz: Result<Thumb, u32>,
}

impl FileView {
    pub open spec fn rendered(self) -> bool {
        self.read && self.plain is Ok
    }

    /// Whether the compressed form shows artwork exactly where the plain one does.
    pub open spec fn agrees(self) -> bool {
        self.rendered() ==> self.gz is Ok && (self.plain->Ok_0.classified() == Rendering::Real) == (
        self.gz->Ok_0.classified() == Rendering::Real)
    }
}

/// The tally of nothing.
pub open spec fn blank() -> TallyView {
    TallyView {
        rendered: 0,
        fell_back: Seq::empty(),
        failed: Seq::empty(),
        slow: Seq::empty(),
        geometry_bad: Seq::empty(),
        gz_disagreed: Seq::empty(),
        worst_ns: 0,
        worst_text: "0ns"@,
        worst_name: ""@,
    }
}

/// The tally after one more file, with its compressed form where it has one.
pub open spec fn noted(t: TallyView, f: FileView) -> TallyView {
    if !f.read {
        t.unreadable(f.name)
    } else {
        let after = t.timed(f.name, f.size, f.elapsed_ns, f.elapsed).ended(f.name, f.size, f.plain);
        match f.plain {
            Ok(plain) => after.compared(f.name, &plain, f.gz),
            Err(_) => after,
        }
    }
}

/// The tally of a whole corpus.
pub open spec fn tallied(files: Seq<FileView>) -> TallyView
    decreases files.len(),
{
    if files.len() == 0 {
        blank()
    } else {
        noted(tallied(files.drop_last()), files.last())
    }
}

/// Every file is counted exactly once, as rendered or as failed, and a list of
/// complaints is empty exactly when no file of the corpus gives cause for one. In
/// particular the two forms are found to agree exactly when every file that
/// rendered renders compressed as well, as artwork where it was artwork.
pub proof fn every_file_is_counted_once(files: Seq<FileView>)
    ensures
        tallied(files).rendered + tallied(files).failed.len() == files.len(),
        tallied(files).failed.len() == 0 <==> forall|i: int|
            0 <= i < files.len() ==> (#[trigger] files[i]).rendered(),
        tallied(files).fell_back.len() == 0 <==> forall|i: int|
            0 <= i < files.len() && (#[trigger] files[i]).rendered()
                ==> !files[i].plain->Ok_0.classified().fallback(),
        tallied(files).geometry_bad.len() == 0 <==> forall|i: int|
            0 <= i < files.len() && (#[trigger] files[i]).rendered() ==> files[i].plain->Ok_0.width
                == files[i].size && files[i].plain->Ok_0.height == files[i].size,
        tallied(files).slow.len() == 0 <==> forall|i: int|
            0 <= i < files.len() && (#[trigger] files[i]).read ==> files[i].elapsed_ns
                <= PER_FILE_BUDGET * 1_000_000_000,
        tallied(files).gz_disagreed.len() == 0 <==> forall|i: int|
            0 <= i < files.len() ==> (#[trigger] files[i]).agrees(),
    decreases files.len(),
{
    if files.len() > 0 {
        let rest = files.drop_last();
        every_file_is_counted_once(rest);
        let n: int = files.len() - 1;
        assert(forall|i: int|
            #![trigger rest[i]]
            #![trigger files[i]]
            0 <= i < n ==> rest[i] == files[i]);
        assert(files.last() == files[n]);
    }
}

// ---------------------------------------------------------------
//                            Verdicts
// ---------------------------------------------------------------

/// How many entries of a list are shown.
pub const SAMPLE_MAX: usize = 12;

/// A list, cut so that one systemic problem cannot flood the log, while still
/// making clear how much was left out.
pub open spec fn sampled(items: Seq<Seq<char>>) -> Seq<char> {
    if items.len() <= SAMPLE_MAX {
        joined(items, "\n      "@)
    } else {
        joined(items.take(SAMPLE_MAX as int), "\n      "@) + "\n      ... and "@ + dec(
            (items.len() - SAMPLE_MAX) as nat,
        ) + " more"@
    }
}

pub fn sample(items: &Vec<String>) -> (s: String)
    ensures
        s@ == sampled(texts(items@)),
{
    if items.len() <= SAMPLE_MAX {
        join(items, "\n      ")
    } else {
        let mut s: String = join_first(items, SAMPLE_MAX, "\n      ");
        s.append("\n      ... and ");
        s.append(decimal((items.len() - SAMPLE_MAX) as u64).as_str());
        s.append(" more");
        s
    }
}

/// There is a corpus to work on.
pub open spec fn is_usable(files: Option<usize>) -> bool {
    files is Some && files->0 > 0
}

/// The report after the corpus was looked for.
pub open spec fn after_search(r: ReportView, dir: Seq<char>, files: Option<usize>) -> ReportView {
    match files {
        None => r.skip("corpus_available"@, "corpus directory "@ + dir + " does not exist"@),
        Some(n) => if n == 0 {
            r.skip("corpus_available"@, "no .svg files under "@ + dir)
        } else {
            r.pass("corpus_available"@, dec(n as nat) + " files from "@ + dir)
        },
    }
}

/// Records whether there is a corpus to work on. `files` is the number of files
/// found, where the directory exists.
pub fn corpus_found(report: &mut Report, dir: &str, files: Option<usize>) -> (usable: bool)
    ensures
        usable == is_usable(files),
        final(report)@ == after_search(old(report)@, dir@, files),
{
    match files {
        None => {
            report.skip(
                "corpus_available",
                three("corpus directory ", dir, " does not exist").as_str(),
            );
            false
        },
        Some(n) => {
            if n == 0 {
                report.skip("corpus_available", two("no .svg files under ", dir).as_str());
                false
            } else {
                report.pass(
                    "corpus_available",
                    three(decimal(n as u64).as_str(), " files from ", dir).as_str(),
                );
                true
            }
        },
    }
}

pub open spec fn renders_detail(t: TallyView, files: nat) -> Seq<char> {
    if t.failed.len() == 0 {
        "all "@ + dec(files) + " corpus files produced a bitmap"@
    } else {
        dec(t.failed.len()) + " of "@ + dec(files) + " corpus files failed to render:\n      "@
            + sampled(t.failed)
    }
}

pub open spec fn fallback_detail(t: TallyView) -> Seq<char> {
    if t.fell_back.len() == 0 {
        "none of the "@ + dec(t.rendered) + " rendered files produced a fallback thumbnail"@
    } else {
        dec(t.fell_back.len()) + " of "@ + dec(t.rendered)
            + " files fell back to the placeholder thumbnail, meaning the provider could not render valid production artwork:\n      "@
            + sampled(t.fell_back)
    }
}

pub open spec fn geometry_detail(t: TallyView) -> Seq<char> {
    if t.geometry_bad.len() == 0 {
        "every returned bitmap matched the requested size"@
    } else {
        dec(t.geometry_bad.len()) + " size mismatches:\n      "@ + sampled(t.geometry_bad)
    }
}

pub open spec fn budget_detail(t: TallyView) -> Seq<char> {
    if t.slow.len() == 0 {
        "slowest file was "@ + t.worst_name + " at "@ + t.worst_text
    } else {
        dec(t.slow.len()) + " file(s) exceeded the "@ + dec(PER_FILE_BUDGET as nat)
            + "s budget:\n      "@ + sampled(t.slow)
    }
}

pub open spec fn agreement_detail(t: TallyView) -> Seq<char> {
    if t.gz_disagreed.len() == 0 {
        "gzip round-trips of the corpus files rendered equivalently"@
    } else {
        dec(t.gz_disagreed.len())
            + " file(s) rendered differently as .svgz than as .svg:\n      "@ + sampled(
            t.gz_disagreed,
        )
    }
}

/// The report after the whole corpus.
pub open spec fn after_corpus(r: ReportView, t: TallyView, files: nat, d: Delta) -> ReportView {
    r.check(
        "every_real_world_file_renders"@,
        t.failed.len() == 0,
        renders_detail(t, files),
    ).check(
        "no_real_world_file_falls_back"@,
        t.fell_back.len() == 0,
        fallback_detail(t),
    ).check(
        "corpus_geometry_always_matches_request"@,
        t.geometry_bad.len() == 0,
        geometry_detail(t),
    ).check(
        "corpus_files_render_within_budget"@,
        t.slow.len() == 0,
        budget_detail(t),
    ).check(
        "svg_and_svgz_agree_on_real_corpus"@,
        t.gz_disagreed.len() == 0,
        agreement_detail(t),
    ).check(
        "corpus_run_does_not_leak_handles"@,
        d.gdi_objects <= 32 && d.handles <= 128,
        "across the whole corpus run: "@ + d.described(),
    )
}

impl Tally {
    fn renders_text(&self, files: usize) -> (s: String)
        ensures
            s@ == renders_detail(self@, files as nat),
    {
        if self.failed.len() == 0 {
            three("all ", decimal(files as u64).as_str(), " corpus files produced a bitmap")
        } else {
            let mut s: String = three(
                decimal(self.failed.len() as u64).as_str(),
                " of ",
                decimal(files as u64).as_str(),
            );
            s.append(" corpus files failed to render:\n      ");
            s.append(sample(&self.failed).as_str());
            s
        }
    }

    fn fallback_text(&self) -> (s: String)
        ensures
            s@ == fallback_detail(self@),
    {
        if self.fell_back.len() == 0 {
            three(
                "none of the ",
                decimal(self.rendered as u64).as_str(),
                " rendered files produced a fallback thumbnail",
            )
        } else {
            let mut s: String = three(
                decimal(self.fell_back.len() as u64).as_str(),
                " of ",
                decimal(self.rendered as u64).as_str(),
            );
            s.append(
                " files fell back to the placeholder thumbnail, meaning the provider could not render valid production artwork:\n      ",
            );
            s.append(sample(&self.fell_back).as_str());
            s
        }
    }

    fn geometry_text(&self) -> (s: String)
        ensures
            s@ == geometry_detail(self@),
    {
        if self.geometry_bad.len() == 0 {
            "every returned bitmap matched the requested size".to_owned()
        } else {
            three(
                decimal(self.geometry_bad.len() as u64).as_str(),
                " size mismatches:\n      ",
                sample(&self.geometry_bad).as_str(),
            )
        }
    }

    fn budget_text(&self) -> (s: String)
        ensures
            s@ == budget_detail(self@),
    {
        if self.slow.len() == 0 {
            let mut s: String = three("slowest file was ", self.worst_name.as_str(), " at ");
            s.append(self.worst_text.as_str());
            s
        } else {
            let mut s: String = three(
                decimal(self.slow.len() as u64).as_str(),
                " file(s) exceeded the ",
                decimal(PER_FILE_BUDGET).as_str(),
            );
            s.append("s budget:\n      ");
            s.append(sample(&self.slow).as_str());
            s
        }
    }

    fn agreement_text(&self) -> (s: String)
        ensures
            s@ == agreement_detail(self@),
    {
        if self.gz_disagreed.len() == 0 {
            "gzip round-trips of the corpus files rendered equivalently".to_owned()
        } else {
            three(
                decimal(self.gz_disagreed.len() as u64).as_str(),
                " file(s) rendered differently as .svgz than as .svg:\n      ",
                sample(&self.gz_disagreed).as_str(),
            )
        }
    }

    /// Records the verdicts on the whole corpus of `files` files, over which the
    /// process changed by `d`.
    pub fn judge(&self, report: &mut Report, files: usize, d: &Delta)
        ensures
            final(report)@ == after_corpus(old(report)@, self@, files as nat, *d),
    {
        report.check(
            "every_real_world_file_renders",
            self.failed.len() == 0,
            self.renders_text(files).as_str(),
        );
        report.check(
            "no_real_world_file_falls_back",
            self.fell_back.len() == 0,
            self.fallback_text().as_str(),
        );
        report.check(
            "corpus_geometry_always_matches_request",
            self.geometry_bad.len() == 0,
            self.geometry_text().as_str(),
        );
        report.check(
            "corpus_files_render_within_budget",
            self.slow.len() == 0,
            self.budget_text().as_str(),
        );
        report.check(
            "svg_and_svgz_agree_on_real_corpus",
            self.gz_disagreed.len() == 0,
            self.agreement_text().as_str(),
        );
        report.check(
            "corpus_run_does_not_leak_handles",
            d.gdi_objects <= 32 && d.handles <= 128,
            two("across the whole corpus run: ", d.describe().as_str()).as_str(),
        );
    }
}

// ---------------------------------------------------------------
//                     What the checks ask for
// ---------------------------------------------------------------

/// Sizes take turns: six of them, all different, from the smallest icon to a large one.
pub proof fn file_sizes_take_turns(i: nat, j: nat)
    ensures
        size_of_file(i + 6) == size_of_file(i),
        size_of_file(i) == size_of_file(j) <==> i % 6 == j % 6,
        size_of_file(0) == 16,
        size_of_file(1) == 32,
        size_of_file(2) == 48,
        size_of_file(3) == 96,
        size_of_file(4) == 256,
        size_of_file(5) == 1024,
{
}

/// A file is rendered compressed exactly when it rendered plain, and then from its own
/// bytes.
pub proof fn every_rendered_file_is_compressed(plain: Result<Thumb, u32>, bytes: Seq<u8>)
    ensures
        compressed_of(plain, bytes) is Some <==> plain is Ok,
        plain is Ok ==> compressed_of(plain, bytes) == Some(gzip_member(bytes, 6)),
{
}

/// The corpus is usable exactly when some file was found; a missing one is never taken
/// for a pass.
pub proof fn a_missing_corpus_never_passes(r: ReportView, dir: Seq<char>, files: Option<usize>)
    ensures
        is_usable(files) <==> files is Some && files != Some(0usize),
        one_check(
            r,
            after_search(r, dir, files),
            "corpus_available"@,
            if files is None || files == Some(0usize) {
                Outcome::Skip
            } else {
                Outcome::Pass
            },
        ),
{
}

/// How the compressed form of a file must turn out.
pub proof fn when_two_forms_agree(f: FileView)
    ensures
        PER_FILE_BUDGET == 20,
        f.rendered() <==> f.read && f.plain is Ok,
        f.agrees() <==> !f.read || f.plain is Err || (f.gz is Ok && (
        f.plain->Ok_0.classified() == Rendering::Real <==> f.gz->Ok_0.classified()
            == Rendering::Real)),
{
}

/// A list grew by at most one entry, which begins with a name.
pub open spec fn grew_by(before: Seq<Seq<char>>, after: Seq<Seq<char>>, name: Seq<char>) -> bool {
    after == before || (after.len() == before.len() + 1 && after.drop_last() == before
        && begins_with(after.last(), name))
}

/// Whatever is held against a file is written down under its name, and nothing that was
/// written down before is lost.
pub proof fn complaints_name_their_file(t: TallyView, f: FileView)
    ensures
        grew_by(t.failed, noted(t, f).failed, f.name),
        grew_by(t.fell_back, noted(t, f).fell_back, f.name),
        grew_by(t.slow, noted(t, f).slow, f.name),
        grew_by(t.geometry_bad, noted(t, f).geometry_bad, f.name),
        grew_by(t.gz_disagreed, noted(t, f).gz_disagreed, f.name),
{
    lemma_one_more(t.failed, f.name, ": could not read file"@);
    let s = f.size;
    let e = f.elapsed;
    let hr = f.plain->Err_0;
    let p = f.plain->Ok_0;
    lemma_one_more(t.failed, f.name, ": hr="@ + hex32(hr) + " at "@ + dec(s as nat) + "px"@);
    assert(failed_text(f.name, hr, s) =~= f.name + (": hr="@ + hex32(hr) + " at "@ + dec(s as nat)
        + "px"@));
    lemma_one_more(
        t.fell_back,
        f.name,
        " ("@ + p.classified().word() + ") at "@ + dec(s as nat) + "px"@,
    );
    assert(fallback_text(f.name, p.classified(), s) =~= f.name + (" ("@ + p.classified().word()
        + ") at "@ + dec(s as nat) + "px"@));
    lemma_one_more(t.slow, f.name, ": "@ + e + " at "@ + dec(s as nat) + "px"@);
    assert(slow_text(f.name, e, s) =~= f.name + (": "@ + e + " at "@ + dec(s as nat) + "px"@));
    let wrong = ": asked for "@ + dec(s as nat) + "x"@ + dec(s as nat) + ", got "@ + dec(
        p.width as nat,
    ) + "x"@ + dec(p.height as nat);
    lemma_one_more(t.geometry_bad, f.name, wrong);
    assert(geometry_text(f.name, s, &p) =~= f.name + wrong);
    let g = f.gz->Ok_0;
    let differ = ": svg="@ + p.classified().word() + " svgz="@ + g.classified().word();
    lemma_one_more(t.gz_disagreed, f.name, differ);
    assert(disagreement_text(f.name, p.classified(), g.classified()) =~= f.name + differ);
    let broke = ": svg rendered but svgz failed with "@ + hex32(f.gz->Err_0);
    lemma_one_more(t.gz_disagreed, f.name, broke);
    assert(gz_failed_text(f.name, f.gz->Err_0) =~= f.name + broke);
}

proof fn lemma_one_more(items: Seq<Seq<char>>, name: Seq<char>, rest: Seq<char>)
    ensures
        grew_by(items, items.push(name + rest), name),
{
    assert(items.push(name + rest).drop_last() =~= items);
    assert((name + rest).take(name.len() as int) =~= name);
}

/// The longest time is that of some file, which is the one that is named, and no file
/// took longer; without a file that took any time, none is named.
pub proof fn the_slowest_file_is_named(files: Seq<FileView>)
    ensures
        forall|i: int|
            0 <= i < files.len() && (#[trigger] files[i]).read ==> files[i].elapsed_ns <= tallied(
                files,
            ).worst_ns,
        tallied(files).worst_ns > 0 ==> exists|i: int|
            0 <= i < files.len() && (#[trigger] files[i]).read && files[i].elapsed_ns == tallied(
                files,
            ).worst_ns && files[i].name == tallied(files).worst_name && files[i].elapsed == tallied(
                files,
            ).worst_text,
    decreases files.len(),
{
    if files.len() > 0 {
        let rest = files.drop_last();
        let f = files.last();
        the_slowest_file_is_named(rest);
        let before = tallied(rest);
        let after = tallied(files);
        assert forall|i: int| 0 <= i < files.len() && (#[trigger] files[i]).read implies files[i].elapsed_ns
            <= after.worst_ns by {
            if i < rest.len() {
                assert(rest[i] == files[i]);
            }
        }
        if after.worst_ns > 0 {
            if f.read && f.elapsed_ns > before.worst_ns {
                assert(files[files.len() - 1] == f);
            } else {
                let i: int = choose|i: int|
                    0 <= i < rest.len() && (#[trigger] rest[i]).read && rest[i].elapsed_ns
                        == before.worst_ns && rest[i].name == before.worst_name && rest[i].elapsed
                        == before.worst_text;
                assert(files[i] == rest[i]);
            }
        }
    }
}

/// A sample shows the first twelve entries of a list, or all of them where there are no
/// more, and says how many it leaves out.
pub proof fn samples_show_the_first_entries(items: Seq<Seq<char>>, k: int)
    requires
        0 <= k < items.len(),
        k < 12,
    ensures
        occurs(items[k], sampled(items)),
        items.len() > 12 ==> exists|head: Seq<char>|
            sampled(items) == #[trigger] (head + ("\n      ... and "@ + dec((items.len() - 12) as nat)
                + " more"@)),
{
    let sep = "\n      "@;
    let none = Seq::<char>::empty();
    if items.len() <= 12 {
        joining_keeps_every_item(items, sep, k);
    } else {
        let first = items.take(12);
        joining_keeps_every_item(first, sep, k);
        let head = joined(first, sep);
        let more = "\n      ... and "@ + dec((items.len() - 12) as nat) + " more"@;
        lemma_occurs_in_more(items[k], none, head, more);
        assert(none + head + more =~= sampled(items));
        assert(sampled(items) =~= head + more);
    }
}

/// What the checks on the whole corpus ask: that no file failed, fell back, came back in
/// the wrong size, took too long or differs when compressed, and that at most 32 GDI
/// objects and 128 handles were left behind.
pub proof fn what_the_corpus_checks_ask(r: ReportView, files: Seq<FileView>, d: Delta)
    ensures
        checks_added(
            r,
            after_corpus(r, tallied(files), files.len(), d),
            seq![
                (
                    "every_real_world_file_renders"@,
                    outcome_of(
                        forall|i: int| 0 <= i < files.len() ==> (#[trigger] files[i]).rendered(),
                    ),
                ),
                (
                    "no_real_world_file_falls_back"@,
                    outcome_of(
                        forall|i: int|
                            0 <= i < files.len() && (#[trigger] files[i]).rendered()
                                ==> files[i].plain->Ok_0.classified() != Rendering::RedXFallback
                                && files[i].plain->Ok_0.classified()
                                != Rendering::BlackSquareFallback,
                    ),
                ),
                (
                    "corpus_geometry_always_matches_request"@,
                    outcome_of(
                        forall|i: int|
                            0 <= i < files.len() && (#[trigger] files[i]).rendered()
                                ==> files[i].plain->Ok_0.width == files[i].size
                                && files[i].plain->Ok_0.height == files[i].size,
                    ),
                ),
                (
                    "corpus_files_render_within_budget"@,
                    outcome_of(
                        forall|i: int|
                            0 <= i < files.len() && (#[trigger] files[i]).read
                                ==> files[i].elapsed_ns <= 20_000_000_000,
                    ),
                ),
                (
                    "svg_and_svgz_agree_on_real_corpus"@,
                    outcome_of(
                        forall|i: int| 0 <= i < files.len() ==> (#[trigger] files[i]).agrees(),
                    ),
                ),
                (
                    "corpus_run_does_not_leak_handles"@,
                    outcome_of(d.gdi_objects <= 32 && d.handles <= 128),
                ),
            ],
        ),
{
    every_file_is_counted_once(files);
}

/// What is said about files that failed or fell back names them, the first twelve of
/// each kind; where none failed it says so of all of them.
pub proof fn the_details_name_what_failed(t: TallyView, files: nat, k: int)
    requires
        0 <= k < 12,
    ensures
        k < t.failed.len() ==> occurs(t.failed[k], renders_detail(t, files)),
        k < t.fell_back.len() ==> occurs(t.fell_back[k], fallback_detail(t)),
        t.failed.len() == 0 ==> occurs("all "@ + dec(files), renders_detail(t, files)),
{
    let none = Seq::<char>::empty();
    if k < t.failed.len() {
        let head = dec(t.failed.len()) + " of "@ + dec(files)
            + " corpus files failed to render:\n      "@;
        lemma_sample_within(t.failed, k, head);
        assert(renders_detail(t, files) == head + sampled(t.failed));
    }
    if k < t.fell_back.len() {
        let head = dec(t.fell_back.len()) + " of "@ + dec(t.rendered)
            + " files fell back to the placeholder thumbnail, meaning the provider could not render valid production artwork:\n      "@;
        lemma_sample_within(t.fell_back, k, head);
        assert(fallback_detail(t) == head + sampled(t.fell_back));
    }
    if t.failed.len() == 0 {
        let part = "all "@ + dec(files);
        lemma_occurs_between(none, part, " corpus files produced a bitmap"@);
        assert(none + part + " corpus files produced a bitmap"@ =~= renders_detail(t, files));
    }
}

/// What is said about files of the wrong size, slow ones and ones that differ when
/// compressed names them, the first twelve of each kind; where none was slow it names the
/// slowest.
pub proof fn the_details_name_what_differed(t: TallyView, k: int)
    requires
        0 <= k < 12,
    ensures
        k < t.geometry_bad.len() ==> occurs(t.geometry_bad[k], geometry_detail(t)),
        k < t.slow.len() ==> occurs(t.slow[k], budget_detail(t)),
        k < t.gz_disagreed.len() ==> occurs(t.gz_disagreed[k], agreement_detail(t)),
        t.slow.len() == 0 ==> occurs(t.worst_name + " at "@ + t.worst_text, budget_detail(t)),
{
    if k < t.geometry_bad.len() {
        assert(occurs(t.geometry_bad[k], geometry_detail(t))) by {
            let head = dec(t.geometry_bad.len()) + " size mismatches:\n      "@;
            lemma_sample_within(t.geometry_bad, k, head);
        }
    }
    if k < t.slow.len() {
        assert(occurs(t.slow[k], budget_detail(t))) by {
            let head = dec(t.slow.len()) + " file(s) exceeded the "@ + dec(PER_FILE_BUDGET as nat)
                + "s budget:\n      "@;
            lemma_sample_within(t.slow, k, head);
        }
    }
    if t.slow.len() == 0 {
        lemma_occurs_at_the_end("slowest file was "@, t.worst_name, " at "@, t.worst_text);
    }
    if k < t.gz_disagreed.len() {
        assert(occurs(t.gz_disagreed[k], agreement_detail(t))) by {
            let head = dec(t.gz_disagreed.len())
                + " file(s) rendered differently as .svgz than as .svg:\n      "@;
            lemma_sample_within(t.gz_disagreed, k, head);
        }
    }
}

proof fn lemma_sample_within(items: Seq<Seq<char>>, k: int, head: Seq<char>)
    requires
        0 <= k < items.len(),
        k < 12,
    ensures
        occurs(items[k], head + sampled(items)),
{
    let none = Seq::<char>::empty();
    samples_show_the_first_entries(items, k);
    lemma_occurs_in_more(items[k], head, sampled(items), none);
    assert(head + sampled(items) + none =~= head + sampled(items));
}

} // verus!
