//! Compressed documents.
//!
//! The provider's size limit applies to the compressed stream it is handed, not
//! to whatever that expands into, and compressed input skips the style
//! processing altogether, so this is a different path through the provider
//! rather than a second run of the same one.

use vstd::prelude::*;
use vstd::utf8::encode_utf8;
use crate::corpus::size_limits::filled;
use crate::corpus::structural::{
    a_portion_is_rounded_down, base_bytes, portion, portion_of, slice_of,
};
use crate::corpus::xml_scale::{nested_document, nested_svg};
use crate::corpus::{
    add_bytes, add_hostile_bytes, extend, hostile_bytes, no_cases, views, Case, CaseView, Expect,
    BASE_SVG,
};
use crate::gzip::{compress, gzip_member, Effort};
use crate::numbers::{dec, decimal};
use crate::text::{
    copies_stand_side_by_side, lemma_occurs_between, occurs, repeat, repeated, text_bytes, three, two,
};

verus! {

// ---------------------------------------------------------------
//                       Uncompressed payloads
// ---------------------------------------------------------------

pub const BOMB_HEAD: &'static str = r##"<svg xmlns="http://www.w3.org/2000/svg" viewBox="0 0 64 64"><rect width="64" height="64" fill="#0a0"/><!--"##;

pub const BOMB_TAIL: &'static str = "--></svg>";

/// The byte `A`.
pub const BOMB_FILLER: u8 = 65;

/// `mb` MiB of highly compressible filler inside a comment, so that the
/// decompressed result is still well-formed.
pub open spec fn bomb_payload(mb: nat) -> Seq<u8> {
    encode_utf8(BOMB_HEAD@) + Seq::new(mb * 1024 * 1024, |i: int| BOMB_FILLER) + encode_utf8(
        BOMB_TAIL@,
    )
}

pub fn bomb(mb: usize) -> (v: Vec<u8>)
    requires
        mb * 1024 * 1024 <= usize::MAX,
    ensures
        v@ == bomb_payload(mb as nat),
{
    let mut v: Vec<u8> = text_bytes(BOMB_HEAD);
    let mut filler: Vec<u8> = filled(BOMB_FILLER, mb * 1024 * 1024);
    let mut tail: Vec<u8> = text_bytes(BOMB_TAIL);
    v.append(&mut filler);
    v.append(&mut tail);
    assert(v@ =~= bomb_payload(mb as nat));
    v
}

/// A huge style block: small when compressed, and a bomb for any parser that is
/// handed it.
pub open spec fn css_bomb_payload(n: nat) -> Seq<char> {
    r#"<svg xmlns="http://www.w3.org/2000/svg" viewBox="0 0 64 64"><style>"#@ + repeated(
        ".a{fill:#0a0}"@,
        n,
    ) + r#"</style><rect class="a" width="64" height="64"/></svg>"#@
}

pub fn css_bomb(n: usize) -> (s: String)
    ensures
        s@ == css_bomb_payload(n as nat),
{
    three(
        r#"<svg xmlns="http://www.w3.org/2000/svg" viewBox="0 0 64 64"><style>"#,
        repeat(".a{fill:#0a0}", n).as_str(),
        r#"</style><rect class="a" width="64" height="64"/></svg>"#,
    )
}

// ---------------------------------------------------------------
//                        Compressed members
// ---------------------------------------------------------------

/// The gzip members that the compressed cases are made from.
pub struct Members {
    /// The base document with the usual effort: the one that gets damaged.
    pub valid: Vec<u8>,
    pub stored: Vec<u8>,
    pub best: Vec<u8>,
    /// A member without payload.
    pub empty: Vec<u8>,
    /// A member whose payload is not XML.
    pub plain_text: Vec<u8>,
    /// `valid`, compressed once more.
    pub double: Vec<u8>,
    pub bomb_64: Vec<u8>,
    pub bomb_512: Vec<u8>,
    /// Nesting that only appears after decompression.
    pub deep: Vec<u8>,
    pub css: Vec<u8>,
}

/// What `Members` holds.
pub struct MembersView {
    pub valid: Seq<u8>,
    pub stored: Seq<u8>,
    pub best: Seq<u8>,
    pub empty: Seq<u8>,
    pub plain_text: Seq<u8>,
    pub double: Seq<u8>,
    pub bomb_64: Seq<u8>,
    pub bomb_512: Seq<u8>,
    pub deep: Seq<u8>,
    pub css: Seq<u8>,
}

impl View for Members {
    type V = MembersView;

    open spec fn view(&self) -> MembersView {
        MembersView {
            valid: self.valid@,
            stored: self.stored@,
            best: self.best@,
            empty: self.empty@,
            plain_text: self.plain_text@,
            double: self.double@,
            bomb_64: self.bomb_64@,
            bomb_512: self.bomb_512@,
            deep: self.deep@,
            css: self.css@,
        }
    }
}

/// The members as the compressor makes them.
pub open spec fn compressed_members() -> MembersView {
    let usual = Effort::Usual.level();
    let best = Effort::Best.level();
    MembersView {
        valid: gzip_member(base_bytes(), usual),
        stored: gzip_member(base_bytes(), Effort::Stored.level()),
        best: gzip_member(base_bytes(), best),
        empty: gzip_member(Seq::empty(), usual),
        plain_text: gzip_member(encode_utf8("just some text, not svg"@), usual),
        double: gzip_member(gzip_member(base_bytes(), usual), usual),
        bomb_64: gzip_member(bomb_payload(64), best),
        bomb_512: gzip_member(bomb_payload(512), best),
        deep: gzip_member(encode_utf8(nested_svg(20_000)), best),
        css: gzip_member(encode_utf8(css_bomb_payload(200_000)), best),
    }
}

/// Compresses every payload.
pub fn members() -> (m: Members)
    ensures
        m@ == compressed_members(),
        m.valid@.len() >= 18,
        m.valid@[0] == 0x1F && m.valid@[1] == 0x8B && m.valid@[2] == 8 && m.valid@[3] == 0,
{
    let valid: Vec<u8> = compress(BASE_SVG.as_bytes(), Effort::Usual);
    let stored: Vec<u8> = compress(BASE_SVG.as_bytes(), Effort::Stored);
    let best: Vec<u8> = compress(BASE_SVG.as_bytes(), Effort::Best);
    let nothing: Vec<u8> = Vec::new();
    assert(nothing@ =~= Seq::<u8>::empty());
    let empty: Vec<u8> = compress(nothing.as_slice(), Effort::Usual);
    let plain_text: Vec<u8> = compress("just some text, not svg".as_bytes(), Effort::Usual);
    let double: Vec<u8> = compress(valid.as_slice(), Effort::Usual);
    let bomb_64: Vec<u8> = compress(bomb(64).as_slice(), Effort::Best);
    let bomb_512: Vec<u8> = compress(bomb(512).as_slice(), Effort::Best);
    let deep: Vec<u8> = compress(nested_document(20_000).as_str().as_bytes(), Effort::Best);
    let css: Vec<u8> = compress(css_bomb(200_000).as_str().as_bytes(), Effort::Best);
    Members { valid, stored, best, empty, plain_text, double, bomb_64, bomb_512, deep, css }
}

// ---------------------------------------------------------------
//                              Cases
// ---------------------------------------------------------------

pub open spec fn rendered(name: Seq<char>, bytes: Seq<u8>) -> CaseView {
    CaseView { name, bytes, expect: Expect::RealRender }
}

/// `c` alone when `present`, nothing otherwise.
pub open spec fn only_if(present: bool, c: CaseView) -> Seq<CaseView> {
    if present {
        seq![c]
    } else {
        Seq::empty()
    }
}

pub open spec fn whole_list(m: MembersView) -> Seq<CaseView> {
    seq![
        rendered("svgz-valid"@, m.valid),
        rendered("svgz-valid-stored"@, m.stored),
        rendered("svgz-valid-best"@, m.best),
        // A bare magic number with nothing behind it.
        hostile_bytes("svgz-magic-only"@, seq![0x1Fu8, 0x8Bu8]),
        hostile_bytes(
            "svgz-magic-plus-garbage"@,
            seq![0x1Fu8, 0x8Bu8] + encode_utf8("not actually gzip data at all"@),
        ),
        hostile_bytes("svgz-empty-payload"@, m.empty),
        hostile_bytes("svgz-of-plain-text"@, m.plain_text),
        hostile_bytes("svgz-double-compressed"@, m.double),
    ]
}

fn copy_of(bytes: &Vec<u8>) -> (v: Vec<u8>)
    ensures
        v@ == bytes@,
{
    vstd::slice::slice_to_vec(bytes.as_slice())
}

fn whole_cases(m: &Members) -> (v: Vec<Case>)
    ensures
        views(v@) == whole_list(m@),
{
    let mut v: Vec<Case> = no_cases();
    add_bytes(&mut v, "svgz-valid", copy_of(&m.valid), Expect::RealRender);
    add_bytes(&mut v, "svgz-valid-stored", copy_of(&m.stored), Expect::RealRender);
    add_bytes(&mut v, "svgz-valid-best", copy_of(&m.best), Expect::RealRender);
    let magic: Vec<u8> = vec![0x1Fu8, 0x8Bu8];
    assert(magic@ =~= seq![0x1Fu8, 0x8Bu8]);
    let mut garbage: Vec<u8> = copy_of(&magic);
    garbage.extend_from_slice("not actually gzip data at all".as_bytes());
    assert(garbage@ =~= seq![0x1Fu8, 0x8Bu8] + encode_utf8("not actually gzip data at all"@));
    add_hostile_bytes(&mut v, "svgz-magic-only", magic);
    add_hostile_bytes(&mut v, "svgz-magic-plus-garbage", garbage);
    add_hostile_bytes(&mut v, "svgz-empty-payload", copy_of(&m.empty));
    add_hostile_bytes(&mut v, "svgz-of-plain-text", copy_of(&m.plain_text));
    add_hostile_bytes(&mut v, "svgz-double-compressed", copy_of(&m.double));
    v
}

/// The member cut inside its ten-byte header.
pub open spec fn header_cut(valid: Seq<u8>, cut: nat) -> CaseView {
    hostile_bytes("svgz-truncated-header-"@ + dec(cut), valid.take(cut as int))
}

/// Header cuts after `1..=n` bytes, as far as the member is longer.
pub open spec fn header_cuts(valid: Seq<u8>, n: nat) -> Seq<CaseView>
    decreases n,
{
    if n == 0 {
        Seq::empty()
    } else {
        header_cuts(valid, (n - 1) as nat) + only_if(valid.len() > n, header_cut(valid, n))
    }
}

/// The member cut inside its body.
pub open spec fn body_cut(valid: Seq<u8>, percent: nat) -> CaseView {
    hostile_bytes(
        "svgz-truncated-body-"@ + dec(percent) + "pct"@,
        valid.take(portion(valid.len(), percent) as int),
    )
}

pub open spec fn body_cut_if(valid: Seq<u8>, percent: nat) -> Seq<CaseView> {
    only_if(portion(valid.len(), percent) > 10, body_cut(valid, percent))
}

pub open spec fn svgz_truncation_list(valid: Seq<u8>) -> Seq<CaseView> {
    header_cuts(valid, 9) + body_cut_if(valid, 20) + body_cut_if(valid, 40) + body_cut_if(valid, 60)
        + body_cut_if(valid, 80) + body_cut_if(valid, 95)
    // Missing only the eight-byte trailer.
     + only_if(
        valid.len() > 8,
        hostile_bytes("svgz-missing-trailer"@, valid.take(valid.len() - 8)),
    )
}

fn add_prefix(v: &mut Vec<Case>, name: &str, bytes: &Vec<u8>, cut: usize)
    requires
        cut <= bytes@.len(),
    ensures
        views(final(v)@) == views(old(v)@) + seq![
            hostile_bytes(name@, bytes@.take(cut as int)),
        ],
{
    assert(bytes@.subrange(0, cut as int) =~= bytes@.take(cut as int));
    add_hostile_bytes(v, name, slice_of(bytes, 0, cut));
    assert(views(v@) =~= views(old(v)@) + seq![hostile_bytes(name@, bytes@.take(cut as int))]);
}

fn add_body_cut(v: &mut Vec<Case>, valid: &Vec<u8>, percent: usize)
    requires
        percent <= 100,
    ensures
        views(final(v)@) == views(old(v)@) + body_cut_if(valid@, percent as nat),
{
    let cut: usize = portion_of(valid.len(), percent);
    if cut > 10 {
        let name: String = three("svgz-truncated-body-", decimal(percent as u64).as_str(), "pct");
        add_prefix(v, name.as_str(), valid, cut);
    } else {
        assert(views(v@) =~= views(old(v)@) + Seq::<CaseView>::empty());
    }
}

fn truncation_cases(valid: &Vec<u8>) -> (v: Vec<Case>)
    ensures
        views(v@) == svgz_truncation_list(valid@),
{
    let mut v: Vec<Case> = no_cases();
    let mut cut: usize = 1;
    while cut <= 9
        invariant
            1 <= cut <= 10,
            views(v@) == header_cuts(valid@, (cut - 1) as nat),
        decreases 10 - cut,
    {
        if valid.len() > cut {
            let name: String = two("svgz-truncated-header-", decimal(cut as u64).as_str());
            add_prefix(&mut v, name.as_str(), valid, cut);
        } else {
            assert(views(v@) =~= views(v@) + Seq::<CaseView>::empty());
        }
        cut += 1;
    }
    add_body_cut(&mut v, valid, 20);
    add_body_cut(&mut v, valid, 40);
    add_body_cut(&mut v, valid, 60);
    add_body_cut(&mut v, valid, 80);
    add_body_cut(&mut v, valid, 95);
    if valid.len() > 8 {
        add_prefix(&mut v, "svgz-missing-trailer", valid, valid.len() - 8);
    } else {
        assert(views(v@) =~= views(v@) + Seq::<CaseView>::empty());
    }
    v
}

/// `bytes` with every bit of the byte at `i` flipped.
pub open spec fn flipped(bytes: Seq<u8>, i: int) -> Seq<u8> {
    bytes.update(i, bytes[i] ^ 0xFF)
}

/// A flipped byte is the only damage, and it always is damage: flipping the same
/// byte again repairs the member.
pub proof fn flipping_damages_one_byte(bytes: Seq<u8>, i: int)
    requires
        0 <= i < bytes.len(),
    ensures
        flipped(bytes, i).len() == bytes.len(),
        flipped(bytes, i)[i] != bytes[i],
        forall|j: int| 0 <= j < bytes.len() && j != i ==> flipped(bytes, i)[j] == bytes[j],
        flipped(flipped(bytes, i), i) == bytes,
{
    let b = bytes[i];
    assert(b ^ 0xFF != b && (b ^ 0xFF) ^ 0xFF == b) by (bit_vector);
    assert(flipped(flipped(bytes, i), i) =~= bytes);
}

pub open spec fn corruption_list(valid: Seq<u8>) -> Seq<CaseView> {
    let n = valid.len() as int;
    // The payload inflates cleanly but fails verification.
    only_if(n > 8, hostile_bytes("svgz-bad-crc"@, flipped(valid, n - 8)))
    // The uncompressed-size field is the last four bytes.
     + only_if(
        n > 8,
        hostile_bytes("svgz-bad-isize"@, flipped(flipped(valid, n - 4), n - 3)),
    )
    // A byte in the middle of the compressed stream.
     + only_if(n > 20, hostile_bytes("svgz-corrupt-deflate-stream"@, flipped(valid, n / 2)))
    // An unknown compression method, and reserved flag bits.
     + only_if(n > 10, hostile_bytes("svgz-unknown-compression-method"@, valid.update(2, 0x07u8)))
        + only_if(n > 10, hostile_bytes("svgz-reserved-flag-bits"@, valid.update(3, 0xE0u8)))
}

fn flip(bytes: &mut Vec<u8>, i: usize)
    requires
        i < old(bytes)@.len(),
    ensures
        final(bytes)@ == flipped(old(bytes)@, i as int),
{
    let b: u8 = bytes[i] ^ 0xFF;
    bytes.set(i, b);
}

fn add_damaged(v: &mut Vec<Case>, name: &str, bytes: Vec<u8>)
    ensures
        views(final(v)@) == views(old(v)@) + seq![hostile_bytes(name@, bytes@)],
{
    let ghost held = bytes@;
    add_hostile_bytes(v, name, bytes);
    assert(views(v@) =~= views(old(v)@) + seq![hostile_bytes(name@, held)]);
}

proof fn lemma_nothing_added(s: Seq<CaseView>)
    ensures
        s + Seq::<CaseView>::empty() == s,
{
    assert(s + Seq::<CaseView>::empty() =~= s);
}

/// Every one of the cases is a proper prefix of `valid`.
pub open spec fn all_cut(cases: Seq<CaseView>, valid: Seq<u8>) -> bool {
    forall|i: int|
        0 <= i < cases.len() ==> (#[trigger] cases[i]).bytes.len() < valid.len() && cases[i].bytes
            == valid.take(cases[i].bytes.len() as int)
}

/// Every one of the cases is as long as `valid` and differs from it.
pub open spec fn all_damaged(cases: Seq<CaseView>, valid: Seq<u8>) -> bool {
    forall|i: int|
        0 <= i < cases.len() ==> (#[trigger] cases[i]).bytes.len() == valid.len() && cases[i].bytes
            != valid
}

proof fn lemma_portion_is_less(len: nat, percent: nat)
    requires
        len > 0,
        percent < 100,
    ensures
        portion(len, percent) < len,
{
    assert(len * percent < len * 100) by (nonlinear_arith)
        requires
            len > 0,
            percent < 100,
    ;
    assert(len * percent / 100 < len) by (nonlinear_arith)
        requires
            len * percent < len * 100,
    ;
}

proof fn lemma_header_cuts_are_cut(valid: Seq<u8>, n: nat)
    ensures
        all_cut(header_cuts(valid, n), valid),
    decreases n,
{
    if n > 0 {
        lemma_header_cuts_are_cut(valid, (n - 1) as nat);
    }
}

proof fn lemma_body_cut_is_cut(valid: Seq<u8>, percent: nat)
    requires
        percent < 100,
    ensures
        all_cut(body_cut_if(valid, percent), valid),
{
    if valid.len() > 0 {
        lemma_portion_is_less(valid.len(), percent);
    }
}

/// Every truncated member is a proper prefix of the valid one.
pub proof fn truncations_are_proper_prefixes(valid: Seq<u8>)
    ensures
        all_cut(svgz_truncation_list(valid), valid),
{
    lemma_header_cuts_are_cut(valid, 9);
    lemma_body_cut_is_cut(valid, 20);
    lemma_body_cut_is_cut(valid, 40);
    lemma_body_cut_is_cut(valid, 60);
    lemma_body_cut_is_cut(valid, 80);
    lemma_body_cut_is_cut(valid, 95);
}

/// Every corrupted member is as long as the valid one and differs from it, where
/// the valid one names the usual method and sets no flag.
pub proof fn corruptions_differ(valid: Seq<u8>)
    requires
        valid.len() > 3 ==> valid[2] == 8 && valid[3] == 0,
    ensures
        all_damaged(corruption_list(valid), valid),
{
    let n = valid.len() as int;
    if n > 8 {
        flipping_damages_one_byte(valid, n - 8);
        let once = flipped(valid, n - 4);
        flipping_damages_one_byte(valid, n - 4);
        flipping_damages_one_byte(once, n - 3);
        assert(flipped(once, n - 3)[n - 3] != valid[n - 3]);
        flipping_damages_one_byte(valid, n / 2);
    }
    if n > 10 {
        assert(valid.update(2, 0x07u8)[2] != valid[2]);
        assert(valid.update(3, 0xE0u8)[3] != valid[3]);
    }
}

fn corruption_cases(valid: &Vec<u8>) -> (v: Vec<Case>)
    ensures
        views(v@) == corruption_list(valid@),
{
    let mut v: Vec<Case> = no_cases();
    let n: usize = valid.len();
    proof {
        lemma_nothing_added(Seq::empty());
    }
    if n > 8 {
        let mut bad_crc: Vec<u8> = copy_of(valid);
        flip(&mut bad_crc, n - 8);
        add_damaged(&mut v, "svgz-bad-crc", bad_crc);
        assert(views(v@) =~= seq![hostile_bytes("svgz-bad-crc"@, flipped(valid@, n - 8))]);
    }
    if n > 8 {
        let mut bad_isize: Vec<u8> = copy_of(valid);
        flip(&mut bad_isize, n - 4);
        flip(&mut bad_isize, n - 3);
        add_damaged(&mut v, "svgz-bad-isize", bad_isize);
    } else {
        proof {
            lemma_nothing_added(views(v@));
        }
    }
    if n > 20 {
        let mut bad_body: Vec<u8> = copy_of(valid);
        flip(&mut bad_body, n / 2);
        add_damaged(&mut v, "svgz-corrupt-deflate-stream", bad_body);
    } else {
        proof {
            lemma_nothing_added(views(v@));
        }
    }
    if n > 10 {
        let mut bad_method: Vec<u8> = copy_of(valid);
        bad_method.set(2, 0x07u8);
        add_damaged(&mut v, "svgz-unknown-compression-method", bad_method);
    } else {
        proof {
            lemma_nothing_added(views(v@));
        }
    }
    if n > 10 {
        let mut bad_flags: Vec<u8> = copy_of(valid);
        bad_flags.set(3, 0xE0u8);
        add_damaged(&mut v, "svgz-reserved-flag-bits", bad_flags);
    } else {
        proof {
            lemma_nothing_added(views(v@));
        }
    }
    v
}

/// The four bytes `DE AD BE EF`, `n` times over.
pub open spec fn dead_beef(n: nat) -> Seq<u8>
    decreases n,
{
    if n == 0 {
        Seq::empty()
    } else {
        dead_beef((n - 1) as nat) + seq![0xDEu8, 0xADu8, 0xBEu8, 0xEFu8]
    }
}

fn add_dead_beef(v: &mut Vec<u8>, n: usize)
    ensures
        final(v)@ == old(v)@ + dead_beef(n as nat),
{
    let mut i: usize = 0;
    assert(v@ =~= old(v)@ + dead_beef(0));
    while i < n
        invariant
            i <= n,
            v@ == old(v)@ + dead_beef(i as nat),
        decreases n - i,
    {
        v.push(0xDEu8);
        v.push(0xADu8);
        v.push(0xBEu8);
        v.push(0xEFu8);
        i += 1;
        assert(v@ =~= old(v)@ + dead_beef(i as nat));
    }
}

pub open spec fn tail_list(m: MembersView) -> Seq<CaseView> {
    seq![
        // Legal gzip, and a decoder that stops after the first member silently
        // drops data.
        hostile_bytes("svgz-concatenated-members"@, m.valid + m.valid),
        hostile_bytes("svgz-trailing-garbage"@, m.valid + dead_beef(64)),
        hostile_bytes("svgz-decompression-bomb-64mb"@, m.bomb_64),
        hostile_bytes("svgz-decompression-bomb-512mb"@, m.bomb_512),
        hostile_bytes("svgz-deep-nesting-after-inflate"@, m.deep),
        hostile_bytes("svgz-css-bomb-after-inflate"@, m.css),
    ]
}

fn tail_cases(m: &Members) -> (v: Vec<Case>)
    ensures
        views(v@) == tail_list(m@),
{
    let mut v: Vec<Case> = no_cases();
    let mut concatenated: Vec<u8> = copy_of(&m.valid);
    let mut again: Vec<u8> = copy_of(&m.valid);
    concatenated.append(&mut again);
    add_hostile_bytes(&mut v, "svgz-concatenated-members", concatenated);
    let mut trailing: Vec<u8> = copy_of(&m.valid);
    add_dead_beef(&mut trailing, 64);
    add_hostile_bytes(&mut v, "svgz-trailing-garbage", trailing);
    add_hostile_bytes(&mut v, "svgz-decompression-bomb-64mb", copy_of(&m.bomb_64));
    add_hostile_bytes(&mut v, "svgz-decompression-bomb-512mb", copy_of(&m.bomb_512));
    add_hostile_bytes(&mut v, "svgz-deep-nesting-after-inflate", copy_of(&m.deep));
    add_hostile_bytes(&mut v, "svgz-css-bomb-after-inflate", copy_of(&m.css));
    v
}

pub open spec fn svgz_list(m: MembersView) -> Seq<CaseView> {
    whole_list(m) + svgz_truncation_list(m.valid) + corruption_list(m.valid) + tail_list(m)
}

/// The compressed corpus made from given members.
pub fn svgz_cases_from(m: &Members) -> (v: Vec<Case>)
    ensures
        views(v@) == svgz_list(m@),
{
    let mut v: Vec<Case> = whole_cases(m);
    extend(&mut v, truncation_cases(&m.valid));
    extend(&mut v, corruption_cases(&m.valid));
    extend(&mut v, tail_cases(m));
    v
}

/// The compressed corpus.
pub fn svgz_cases() -> (v: Vec<Case>)
    ensures
        views(v@) == svgz_list(compressed_members()),
{
    svgz_cases_from(&members())
}

// ---------------------------------------------------------------
//                     What the cases hold
// ---------------------------------------------------------------

/// A bomb holds the asked-for number of MiB of one byte, between a head and a tail that
/// leave it well-formed; the style sheet holds one rule as often as asked.
pub proof fn bombs_are_as_large_as_asked(mb: nat, n: nat, i: int)
    ensures
        bomb_payload(mb).len() == encode_utf8(BOMB_HEAD@).len() + 1_048_576 * mb + encode_utf8(
            BOMB_TAIL@,
        ).len(),
        bomb_payload(mb).take(encode_utf8(BOMB_HEAD@).len() as int) == encode_utf8(BOMB_HEAD@),
        bomb_payload(mb).skip(bomb_payload(mb).len() - encode_utf8(BOMB_TAIL@).len())
            == encode_utf8(BOMB_TAIL@),
        encode_utf8(BOMB_HEAD@).len() <= i < encode_utf8(BOMB_HEAD@).len() + 1_048_576 * mb
            ==> bomb_payload(mb)[i] == 65,
        occurs(repeated(".a{fill:#0a0}"@, n), css_bomb_payload(n)),
        repeated(".a{fill:#0a0}"@, n).len() == 13 * n,
{
    assert(mb * 1024 * 1024 == 1_048_576 * mb) by (nonlinear_arith);
    let head = encode_utf8(BOMB_HEAD@);
    let tail = encode_utf8(BOMB_TAIL@);
    assert(bomb_payload(mb).take(head.len() as int) =~= head);
    assert(bomb_payload(mb).skip(bomb_payload(mb).len() - tail.len()) =~= tail);
    reveal_strlit(".a{fill:#0a0}");
    copies_stand_side_by_side(".a{fill:#0a0}"@, n, 0);
    lemma_occurs_between(
        r#"<svg xmlns="http://www.w3.org/2000/svg" viewBox="0 0 64 64"><style>"#@,
        repeated(".a{fill:#0a0}"@, n),
        r#"</style><rect class="a" width="64" height="64"/></svg>"#@,
    );
}

/// Which payload each member is made from: the base document three times, stored, with
/// the usual effort and with the most; nothing; a text that is no document; a member once
/// more; and four bombs of different kinds.
pub proof fn members_hold_their_payload()
    ensures
        ({
            let m = compressed_members();
            &&& m.valid == gzip_member(base_bytes(), 6)
            &&& m.stored == gzip_member(base_bytes(), 0)
            &&& m.best == gzip_member(base_bytes(), 9)
            &&& m.empty == gzip_member(Seq::empty(), 6)
            &&& m.double == gzip_member(m.valid, 6)
            &&& m.bomb_64 == gzip_member(bomb_payload(64), 9)
            &&& m.bomb_512 == gzip_member(bomb_payload(512), 9)
            &&& m.deep == gzip_member(encode_utf8(nested_svg(20_000)), 9)
            &&& m.css == gzip_member(encode_utf8(css_bomb_payload(200_000)), 9)
        }),
{
}

/// The three sound members must render; everything else has merely to be survived.
pub proof fn sound_members_must_render(m: MembersView, i: int)
    ensures
        0 <= i < whole_list(m).len() ==> whole_list(m)[i].expect == (if i < 3 {
            Expect::RealRender
        } else {
            Expect::Survive
        }),
        whole_list(m)[0].bytes == m.valid,
        whole_list(m)[1].bytes == m.stored,
        whole_list(m)[2].bytes == m.best,
        whole_list(m)[3].bytes == seq![0x1Fu8, 0x8Bu8],
        whole_list(m)[5].bytes == m.empty,
        whole_list(m)[6].bytes == m.plain_text,
        whole_list(m)[7].bytes == m.double,
        0 <= i < tail_list(m).len() ==> tail_list(m)[i].expect == Expect::Survive,
        tail_list(m)[0].bytes.take(m.valid.len() as int) == m.valid,
        tail_list(m)[0].bytes.skip(m.valid.len() as int) == m.valid,
        tail_list(m)[1].bytes.take(m.valid.len() as int) == m.valid,
        tail_list(m)[1].bytes.len() == m.valid.len() + 256,
        tail_list(m)[2].bytes == m.bomb_64,
        tail_list(m)[3].bytes == m.bomb_512,
        tail_list(m)[4].bytes == m.deep,
        tail_list(m)[5].bytes == m.css,
{
    let n: int = m.valid.len() as int;
    assert((m.valid + m.valid).take(n) =~= m.valid);
    assert((m.valid + m.valid).skip(n) =~= m.valid);
    garbage_repeats_four_bytes(64, 0);
    assert((m.valid + dead_beef(64)).take(n) =~= m.valid);
}

/// The garbage is four bytes over and over.
pub proof fn garbage_repeats_four_bytes(n: nat, i: int)
    ensures
        dead_beef(n).len() == 4 * n,
        0 <= i < 4 * n ==> dead_beef(n)[i] == (if i % 4 == 0 {
            0xDEu8
        } else if i % 4 == 1 {
            0xADu8
        } else if i % 4 == 2 {
            0xBEu8
        } else {
            0xEFu8
        }),
    decreases n,
{
    if n > 0 {
        garbage_repeats_four_bytes((n - 1) as nat, i);
    }
}

/// Where a member of at least 22 bytes is damaged: in the first byte of its checksum, in
/// two bytes of its size, in the middle of its data, in its method, and in its flags;
/// each in its own copy and nowhere else.
pub proof fn damage_is_where_it_is_said_to_be(valid: Seq<u8>, j: int)
    requires
        valid.len() > 21,
        0 <= j < valid.len(),
    ensures
        ({
            let n = valid.len() as int;
            let bad = corruption_list(valid);
            &&& bad.len() == 5
            &&& j != n - 8 ==> bad[0].bytes[j] == valid[j]
            &&& j != n - 4 && j != n - 3 ==> bad[1].bytes[j] == valid[j]
            &&& j != n / 2 ==> bad[2].bytes[j] == valid[j]
            &&& j != 2 ==> bad[3].bytes[j] == valid[j]
            &&& j != 3 ==> bad[4].bytes[j] == valid[j]
            &&& j == n - 8 ==> bad[0].bytes[j] != valid[j]
            &&& j == n - 4 || j == n - 3 ==> bad[1].bytes[j] != valid[j]
            &&& j == n / 2 ==> bad[2].bytes[j] != valid[j]
            &&& bad[3].bytes[2] == 7
            &&& bad[4].bytes[3] == 0xE0
            &&& bad[0].name == "svgz-bad-crc"@
            &&& bad[1].name == "svgz-bad-isize"@
            &&& bad[2].name == "svgz-corrupt-deflate-stream"@
            &&& bad[3].name == "svgz-unknown-compression-method"@
            &&& bad[4].name == "svgz-reserved-flag-bits"@
        }),
{
    let n: int = valid.len() as int;
    flipping_damages_one_byte(valid, n - 8);
    flipping_damages_one_byte(valid, n - 4);
    flipping_damages_one_byte(flipped(valid, n - 4), n - 3);
    flipping_damages_one_byte(valid, n / 2);
    let a = hostile_bytes("svgz-bad-crc"@, flipped(valid, n - 8));
    let b = hostile_bytes("svgz-bad-isize"@, flipped(flipped(valid, n - 4), n - 3));
    let c = hostile_bytes("svgz-corrupt-deflate-stream"@, flipped(valid, n / 2));
    let d = hostile_bytes("svgz-unknown-compression-method"@, valid.update(2, 0x07u8));
    let e = hostile_bytes("svgz-reserved-flag-bits"@, valid.update(3, 0xE0u8));
    assert(corruption_list(valid) =~= seq![a, b, c, d, e]);
}

/// Cuts inside the header leave one byte, two bytes and so on; where the member is longer
/// than `n` bytes, the `k`-th of `n` of them leaves `k + 1`.
pub proof fn header_cuts_leave_one_byte_more_each(valid: Seq<u8>, n: nat, k: int)
    requires
        valid.len() > n,
        0 <= k < n,
    ensures
        header_cuts(valid, n).len() == n,
        header_cuts(valid, n)[k].bytes == valid.take(k + 1),
        header_cuts(valid, n)[k].bytes.len() == k + 1,
        header_cuts(valid, n)[k].name == "svgz-truncated-header-"@ + dec((k + 1) as nat),
    decreases n,
{
    if n > 1 {
        if k < n - 1 {
            header_cuts_leave_one_byte_more_each(valid, (n - 1) as nat, k);
        } else {
            header_cuts_leave_one_byte_more_each(valid, (n - 1) as nat, 0);
        }
    } else {
        assert(header_cuts(valid, 0).len() == 0);
    }
}

/// Cuts inside the body leave their share of the member, rounded down, where that is more
/// than the header; and one cut takes away exactly the eight bytes at the end.
pub proof fn body_cuts_leave_their_share(valid: Seq<u8>, percent: nat)
    requires
        percent <= 100,
    ensures
        body_cut(valid, percent).bytes.len() * 100 <= valid.len() * percent < body_cut(
            valid,
            percent,
        ).bytes.len() * 100 + 100,
        body_cut_if(valid, percent).len() == (if body_cut(valid, percent).bytes.len() > 10 {
            1nat
        } else {
            0nat
        }),
        valid.len() > 8 ==> svgz_truncation_list(valid).last().bytes.len() + 8 == valid.len(),
        svgz_truncation_list(valid).len() <= 15,
{
    a_portion_is_rounded_down(valid.len(), percent);
    lemma_header_cuts_at_most(valid, 9);
}

proof fn lemma_header_cuts_at_most(valid: Seq<u8>, n: nat)
    ensures
        header_cuts(valid, n).len() <= n,
    decreases n,
{
    if n > 0 {
        lemma_header_cuts_at_most(valid, (n - 1) as nat);
    }
}

/// Which cuts are made of a member of some size: nine inside its header, five inside its
/// body, and the one that takes away its end.
pub proof fn every_cut_is_made(valid: Seq<u8>)
    requires
        valid.len() >= 56,
    ensures
        svgz_truncation_list(valid).len() == 15,
        forall|k: int|
            0 <= k < 9 ==> (#[trigger] svgz_truncation_list(valid)[k]).bytes == valid.take(k + 1),
        svgz_truncation_list(valid)[9] == body_cut(valid, 20),
        svgz_truncation_list(valid)[10] == body_cut(valid, 40),
        svgz_truncation_list(valid)[11] == body_cut(valid, 60),
        svgz_truncation_list(valid)[12] == body_cut(valid, 80),
        svgz_truncation_list(valid)[13] == body_cut(valid, 95),
        svgz_truncation_list(valid)[14].bytes == valid.take(valid.len() - 8),
{
    header_cuts_leave_one_byte_more_each(valid, 9, 0);
    let all = svgz_truncation_list(valid);
    let h = header_cuts(valid, 9);
    assert forall|k: int| 0 <= k < 9 implies (#[trigger] all[k]).bytes == valid.take(k + 1) by {
        header_cuts_leave_one_byte_more_each(valid, 9, k);
        assert(all[k] == h[k]);
    }
}

/// A member is damaged in as many ways as it is long enough for.
pub proof fn short_members_are_damaged_less(valid: Seq<u8>)
    ensures
        corruption_list(valid).len() == (if valid.len() <= 8 {
            0int
        } else if valid.len() <= 10 {
            2
        } else if valid.len() <= 20 {
            4
        } else {
            5
        }),
{
}

} // verus!
