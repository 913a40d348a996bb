//! Synthetic adversarial input corpus.
//!
//! Every case is generated deterministically at run time, so a case can be
//! described by its name alone and any single one can be run again in isolation.
//!
//! Expectations are deliberately asymmetric. For hostile input the contract is
//! only "return, fail or fall back within budget; never crash, hang or corrupt
//! the host". Only inputs that are unambiguously valid SVG are required to
//! render.

use vstd::prelude::*;
use vstd::utf8::encode_utf8;
use crate::corpus::css::{css_cases, css_list};
use crate::corpus::entity::{entity_cases, entity_list};
use crate::corpus::numeric::{numeric_cases, numeric_list};
use crate::corpus::size_limits::{size_limit_cases, size_limit_list};
use crate::corpus::structural::{structural_cases, structural_list};
use crate::corpus::valid::{valid_cases, valid_list};
use crate::corpus::xml_scale::{xml_scale_cases, xml_scale_list};
use crate::text::{lemma_occurs_between, occurs, text_bytes};

pub mod css;
pub mod entity;
pub mod names;
pub mod numeric;
pub mod pieces;
pub mod size_limits;
pub mod sizes;
pub mod structural;
pub mod svgz;
pub mod valid;
pub mod xml_scale;

verus! {

/// What a case is allowed to do.
#[derive(Clone, Copy, Debug, PartialEq, Eq, Structural)]
pub enum Expect {
    /// Any outcome is acceptable except a crash, a hang, or a malformed bitmap.
    /// Hostile and malformed inputs use this.
    Survive,
    /// Must produce genuine artwork - not the red-X fallback, not the black
    /// square, not a fully transparent image. Used for inputs that are valid
    /// SVG built from primitives Direct2D supports.
    RealRender,
    /// Must be rejected or fall back, never rendered as if it were valid. Used
    /// for inputs that exceed a documented limit.
    RejectOrFallback,
}

/// One input of the corpus.
pub struct Case {
    pub name: String,
    pub bytes: Vec<u8>,
    pub expect: Expect,
}

/// What a `Case` stands for.
pub struct CaseView {
    pub name: Seq<char>,
    pub bytes: Seq<u8>,
    pub expect: Expect,
}

impl View for Case {
    type V = CaseView;

    open spec fn view(&self) -> CaseView {
        CaseView { name: self.name@, bytes: self.bytes@, expect: self.expect }
    }
}

/// What a list of cases stands for.
pub open spec fn views(cases: Seq<Case>) -> Seq<CaseView> {
    cases.map_values(|c: Case| c@)
}

/// Endpoints that a case may try to reach. The suite fills these in with a live
/// local listener and a real file on disk, so any attempt to resolve them is
/// observable rather than theoretical.
pub struct XxeProbe {
    /// For example "http://127.0.0.1:53535/dtd".
    pub http_url: String,
    /// For example "C:/.../sentinel.txt", already forward-slashed for a file: URI.
    pub sentinel_path: String,
}

/// A minimal, unambiguously valid SVG used as the base for mutation cases.
pub const BASE_SVG: &'static str = r##"<svg xmlns="http://www.w3.org/2000/svg" viewBox="0 0 64 64"><rect x="4" y="4" width="56" height="56" fill="#2d89ef"/><circle cx="32" cy="32" r="14" fill="#ffb900"/></svg>"##;

/// A case whose bytes are the text `text`.
pub open spec fn text_case(name: Seq<char>, text: Seq<char>, expect: Expect) -> CaseView {
    CaseView { name, bytes: encode_utf8(text), expect }
}

/// A hostile text that must be survived.
pub open spec fn hostile(name: Seq<char>, text: Seq<char>) -> CaseView {
    text_case(name, text, Expect::Survive)
}

/// A valid text that must render.
pub open spec fn artwork(name: Seq<char>, text: Seq<char>) -> CaseView {
    text_case(name, text, Expect::RealRender)
}

/// A hostile byte string that must be survived.
pub open spec fn hostile_bytes(name: Seq<char>, bytes: Seq<u8>) -> CaseView {
    CaseView { name, bytes, expect: Expect::Survive }
}

pub fn case(name: &str, bytes: Vec<u8>, expect: Expect) -> (c: Case)
    ensures
        c@ == (CaseView { name: name@, bytes: bytes@, expect }),
{
    Case { name: name.to_owned(), bytes, expect }
}

/// Appends one case.
pub fn add_bytes(v: &mut Vec<Case>, name: &str, bytes: Vec<u8>, expect: Expect)
    ensures
        views(final(v)@) == views(old(v)@).push(CaseView { name: name@, bytes: bytes@, expect }),
{
    let c: Case = case(name, bytes, expect);
    v.push(c);
    assert(views(v@) =~= views(old(v)@).push(c@));
}

/// Appends a hostile text.
pub fn add_hostile(v: &mut Vec<Case>, name: &str, text: &str)
    ensures
        views(final(v)@) == views(old(v)@).push(hostile(name@, text@)),
{
    add_bytes(v, name, text_bytes(text), Expect::Survive);
}

/// Appends a valid text.
pub fn add_artwork(v: &mut Vec<Case>, name: &str, text: &str)
    ensures
        views(final(v)@) == views(old(v)@).push(artwork(name@, text@)),
{
    add_bytes(v, name, text_bytes(text), Expect::RealRender);
}

/// Appends a hostile byte string.
pub fn add_hostile_bytes(v: &mut Vec<Case>, name: &str, bytes: Vec<u8>)
    ensures
        views(final(v)@) == views(old(v)@).push(hostile_bytes(name@, bytes@)),
{
    add_bytes(v, name, bytes, Expect::Survive);
}

/// An empty list of cases.
pub fn no_cases() -> (v: Vec<Case>)
    ensures
        views(v@) == Seq::<CaseView>::empty(),
{
    let v: Vec<Case> = Vec::new();
    assert(views(v@) =~= Seq::<CaseView>::empty());
    v
}

/// Appends a whole group.
pub fn extend(v: &mut Vec<Case>, group: Vec<Case>)
    ensures
        views(final(v)@) == views(old(v)@) + views(group@),
{
    let mut group: Vec<Case> = group;
    let ghost before = v@;
    let ghost more = group@;
    v.append(&mut group);
    assert(views(before + more) =~= views(before) + views(more));
}

/// The full synthetic corpus, aimed at the endpoints `url` and `sentinel`.
pub open spec fn all_list(url: Seq<char>, sentinel: Seq<char>) -> Seq<CaseView> {
    valid_list() + structural_list() + xml_scale_list() + css_list() + numeric_list()
        + entity_list(url, sentinel)
}

/// The full synthetic corpus.
pub fn all_cases(probe: &XxeProbe) -> (v: Vec<Case>)
    ensures
        views(v@) == all_list(probe.http_url@, probe.sentinel_path@),
{
    let mut v: Vec<Case> = valid_cases();
    extend(&mut v, structural_cases());
    extend(&mut v, xml_scale_cases());
    extend(&mut v, css_cases());
    extend(&mut v, numeric_cases());
    extend(&mut v, entity_cases(probe));
    v
}

/// Cases that are large enough to be worth running separately, because they
/// dominate wall-clock time and memory.
pub fn heavy_cases() -> (v: Vec<Case>)
    ensures
        views(v@) == size_limit_list(),
{
    size_limit_cases()
}

/// A document that the bytes of a case spell holds a text.
pub open spec fn spells(c: CaseView, part: Seq<char>) -> bool {
    exists|doc: Seq<char>| #[trigger] encode_utf8(doc) == c.bytes && occurs(part, doc)
}

/// What stands between two texts is spelled where the whole is.
pub proof fn lemma_spells(c: CaseView, a: Seq<char>, part: Seq<char>, b: Seq<char>)
    requires
        c.bytes == encode_utf8(a + part + b),
    ensures
        spells(c, part),
{
    lemma_occurs_between(a, part, b);
    assert(encode_utf8(a + part + b) == c.bytes);
}

/// What a case is worth: a hostile one must be survived, artwork must render, and the
/// bytes of a text are the text in UTF-8.
pub proof fn what_a_case_is_worth(name: Seq<char>, text: Seq<char>, bytes: Seq<u8>)
    ensures
        hostile(name, text).expect == Expect::Survive,
        artwork(name, text).expect == Expect::RealRender,
        hostile_bytes(name, bytes).expect == Expect::Survive,
        hostile(name, text).name == name,
        artwork(name, text).name == name,
        hostile_bytes(name, bytes).name == name,
        hostile(name, text).bytes == encode_utf8(text),
        artwork(name, text).bytes == encode_utf8(text),
        hostile_bytes(name, bytes).bytes == bytes,
{
}

/// The full corpus holds every group, one after the other and nothing besides.
pub proof fn the_corpus_holds_every_group(url: Seq<char>, sentinel: Seq<char>, c: CaseView)
    ensures
        all_list(url, sentinel).contains(c) <==> valid_list().contains(c)
            || structural_list().contains(c) || xml_scale_list().contains(c) || css_list().contains(
            c,
        ) || numeric_list().contains(c) || entity_list(url, sentinel).contains(c),
        all_list(url, sentinel).len() == valid_list().len() + structural_list().len()
            + xml_scale_list().len() + css_list().len() + numeric_list().len() + entity_list(
            url,
            sentinel,
        ).len(),
{
    let a = valid_list();
    let b = a + structural_list();
    let d = b + xml_scale_list();
    let e = d + css_list();
    let f = e + numeric_list();
    lemma_either(a, structural_list(), c);
    lemma_either(b, xml_scale_list(), c);
    lemma_either(d, css_list(), c);
    lemma_either(e, numeric_list(), c);
    lemma_either(f, entity_list(url, sentinel), c);
}

proof fn lemma_either(a: Seq<CaseView>, b: Seq<CaseView>, c: CaseView)
    ensures
        (a + b).contains(c) <==> a.contains(c) || b.contains(c),
{
    let both = a + b;
    if both.contains(c) {
        let i: int = choose|i: int| 0 <= i < both.len() && both[i] == c;
        if i < a.len() {
            assert(a[i] == c);
        } else {
            assert(b[i - a.len()] == c);
        }
    }
    if a.contains(c) {
        let i: int = choose|i: int| 0 <= i < a.len() && a[i] == c;
        assert(both[i] == c);
    }
    if b.contains(c) {
        let i: int = choose|i: int| 0 <= i < b.len() && b[i] == c;
        assert(both[a.len() + i] == c);
    }
}

} // verus!
