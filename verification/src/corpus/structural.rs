//! Document structure, encodings and truncation.

use vstd::prelude::*;
use vstd::utf8::encode_utf8;
use crate::corpus::{
    add_artwork, add_hostile, add_hostile_bytes, artwork, extend, hostile, hostile_bytes, no_cases,
    views, Case, CaseView, Expect, BASE_SVG,
};
use crate::numbers::{dec, dec2, decimal, decimal2};
use crate::text::{chars_of, text_bytes, two};

verus! {

// ---------------------------------------------------------------
//                      Document structure
// ---------------------------------------------------------------

pub open spec fn document_list() -> Seq<CaseView> {
    seq![
        hostile_bytes("empty-file"@, Seq::empty()),
        hostile_bytes("single-nul"@, seq![0u8]),
        hostile("whitespace-only"@, "   \r\n\t  "@),
        hostile("plain-text-not-xml"@, "this is not an svg at all"@),
        hostile("html-not-svg"@, "<html><body><p>hi</p></body></html>"@),
        hostile("xml-but-not-svg"@, r#"<?xml version="1.0"?><root><a/></root>"#@),
        hostile("bare-svg-no-namespace"@, "<svg><rect width='10' height='10'/></svg>"@),
        hostile("svg-empty-element"@, "<svg/>"@),
        hostile(
            "svg-no-children"@,
            r#"<svg xmlns="http://www.w3.org/2000/svg" viewBox="0 0 10 10"></svg>"#@,
        ),
        hostile("unclosed-root"@, r#"<svg xmlns="http://www.w3.org/2000/svg"><rect/>"#@),
        hostile("mismatched-tags"@, "<svg><rect></circle></svg>"@),
        hostile("only-closing-tag"@, "</svg>"@),
        hostile(
            "doctype-svg"@,
            r#"<!DOCTYPE svg PUBLIC "-//W3C//DTD SVG 1.1//EN" "http://www.w3.org/Graphics/SVG/1.1/DTD/svg11.dtd">"#@
                + BASE_SVG@,
        ),
        artwork(
            "xml-declaration"@,
            r#"<?xml version="1.0" encoding="UTF-8" standalone="no"?>"#@ + BASE_SVG@,
        ),
        hostile(
            "processing-instruction"@,
            r#"<?xml-stylesheet type="text/css" href="x.css"?>"#@ + BASE_SVG@,
        ),
        artwork("comment-before-root"@, "<!-- leading comment -->"@ + BASE_SVG@),
        hostile("unterminated-comment"@, BASE_SVG@ + "<!-- never closed"@),
        hostile(
            "cdata-section"@,
            r#"<svg xmlns="http://www.w3.org/2000/svg" viewBox="0 0 10 10"><desc><![CDATA[<not><xml>]]></desc><rect width="10" height="10" fill="red"/></svg>"#@,
        ),
        hostile(
            "unterminated-cdata"@,
            r#"<svg xmlns="http://www.w3.org/2000/svg"><desc><![CDATA[unterminated</svg>"#@,
        ),
    ]
}

fn document_cases() -> (v: Vec<Case>)
    ensures
        views(v@) == document_list(),
{
    let mut v: Vec<Case> = no_cases();
    let empty: Vec<u8> = Vec::new();
    let mut nul: Vec<u8> = Vec::new();
    nul.push(0u8);
    assert(nul@ =~= seq![0u8]);
    assert(empty@ =~= Seq::empty());
    add_hostile_bytes(&mut v, "empty-file", empty);
    add_hostile_bytes(&mut v, "single-nul", nul);
    add_hostile(&mut v, "whitespace-only", "   \r\n\t  ");
    add_hostile(&mut v, "plain-text-not-xml", "this is not an svg at all");
    add_hostile(&mut v, "html-not-svg", "<html><body><p>hi</p></body></html>");
    add_hostile(&mut v, "xml-but-not-svg", r#"<?xml version="1.0"?><root><a/></root>"#);
    add_hostile(&mut v, "bare-svg-no-namespace", "<svg><rect width='10' height='10'/></svg>");
    add_hostile(&mut v, "svg-empty-element", "<svg/>");
    add_hostile(
        &mut v,
        "svg-no-children",
        r#"<svg xmlns="http://www.w3.org/2000/svg" viewBox="0 0 10 10"></svg>"#,
    );
    add_hostile(&mut v, "unclosed-root", r#"<svg xmlns="http://www.w3.org/2000/svg"><rect/>"#);
    add_hostile(&mut v, "mismatched-tags", "<svg><rect></circle></svg>");
    add_hostile(&mut v, "only-closing-tag", "</svg>");
    add_hostile(
        &mut v,
        "doctype-svg",
        two(
            r#"<!DOCTYPE svg PUBLIC "-//W3C//DTD SVG 1.1//EN" "http://www.w3.org/Graphics/SVG/1.1/DTD/svg11.dtd">"#,
            BASE_SVG,
        ).as_str(),
    );
    add_artwork(
        &mut v,
        "xml-declaration",
        two(r#"<?xml version="1.0" encoding="UTF-8" standalone="no"?>"#, BASE_SVG).as_str(),
    );
    add_hostile(
        &mut v,
        "processing-instruction",
        two(r#"<?xml-stylesheet type="text/css" href="x.css"?>"#, BASE_SVG).as_str(),
    );
    add_artwork(&mut v, "comment-before-root", two("<!-- leading comment -->", BASE_SVG).as_str());
    add_hostile(&mut v, "unterminated-comment", two(BASE_SVG, "<!-- never closed").as_str());
    add_hostile(
        &mut v,
        "cdata-section",
        r#"<svg xmlns="http://www.w3.org/2000/svg" viewBox="0 0 10 10"><desc><![CDATA[<not><xml>]]></desc><rect width="10" height="10" fill="red"/></svg>"#,
    );
    add_hostile(
        &mut v,
        "unterminated-cdata",
        r#"<svg xmlns="http://www.w3.org/2000/svg"><desc><![CDATA[unterminated</svg>"#,
    );
    v
}

// ---------------------------------------------------------------
//                           Encodings
// ---------------------------------------------------------------
//
// The provider hands bytes straight to its parser, so byte-order marks and wide
// encodings are a genuine input class rather than a theoretical one.

/// The UTF-16 code units of one character.
pub open spec fn utf16_units(c: char) -> Seq<u16> {
    let n = c as u32;
    if n < 0x1_0000 {
        seq![n as u16]
    } else {
        seq![(0xD800 + (n - 0x1_0000) / 0x400) as u16, (0xDC00 + (n - 0x1_0000) % 0x400) as u16]
    }
}

/// The two bytes of a code unit.
pub open spec fn unit_bytes(u: u16, big_endian: bool) -> Seq<u8> {
    let low = (u % 256) as u8;
    let high = (u / 256) as u8;
    if big_endian {
        seq![high, low]
    } else {
        seq![low, high]
    }
}

/// The bytes of a run of code units.
pub open spec fn units_bytes(units: Seq<u16>, big_endian: bool) -> Seq<u8>
    decreases units.len(),
{
    if units.len() == 0 {
        Seq::empty()
    } else {
        units_bytes(units.drop_last(), big_endian) + unit_bytes(units.last(), big_endian)
    }
}

/// The UTF-16 code units of a text.
pub open spec fn utf16(s: Seq<char>) -> Seq<u16>
    decreases s.len(),
{
    if s.len() == 0 {
        Seq::empty()
    } else {
        utf16(s.drop_last()) + utf16_units(s.last())
    }
}

fn push_unit(v: &mut Vec<u8>, u: u16, big_endian: bool)
    ensures
        final(v)@ == old(v)@ + unit_bytes(u, big_endian),
{
    let low: u8 = (u % 256) as u8;
    let high: u8 = (u / 256) as u8;
    if big_endian {
        v.push(high);
        v.push(low);
    } else {
        v.push(low);
        v.push(high);
    }
    assert(v@ =~= old(v)@ + unit_bytes(u, big_endian));
}

proof fn lemma_units_push(units: Seq<u16>, u: u16, big_endian: bool)
    ensures
        units_bytes(units.push(u), big_endian) == units_bytes(units, big_endian) + unit_bytes(
            u,
            big_endian,
        ),
{
    assert(units.push(u).drop_last() =~= units);
}

/// The UTF-16 form of a text after its byte-order mark `mark`.
#[verifier::rlimit(40)]
pub fn utf16_document(mark: u16, s: &str, big_endian: bool) -> (v: Vec<u8>)
    ensures
        v@ == unit_bytes(mark, big_endian) + units_bytes(utf16(s@), big_endian),
{
    let cs: Vec<char> = chars_of(s);
    let mut v: Vec<u8> = Vec::new();
    push_unit(&mut v, mark, big_endian);
    assert(v@ =~= unit_bytes(mark, big_endian) + units_bytes(utf16(s@.take(0)), big_endian));
    let mut i: usize = 0;
    while i < cs.len()
        invariant
            cs@ == s@,
            i <= cs@.len(),
            v@ == unit_bytes(mark, big_endian) + units_bytes(utf16(s@.take(i as int)), big_endian),
        decreases cs@.len() - i,
    {
        let c: char = cs[i];
        let n: u32 = c as u32;
        let ghost before = utf16(s@.take(i as int));
        let ghost written = v@;
        let ghost head = unit_bytes(mark, big_endian);
        proof {
            assert(s@.take(i + 1).drop_last() =~= s@.take(i as int));
            assert(s@.take(i + 1).last() == c);
            vstd::utf8::char_is_scalar(c);
        }
        if n < 0x1_0000 {
            let u: u16 = n as u16;
            push_unit(&mut v, u, big_endian);
            proof {
                lemma_units_push(before, u, big_endian);
                assert(utf16(s@.take(i + 1)) =~= before.push(u));
                assert(v@ =~= head + units_bytes(before.push(u), big_endian));
            }
        } else {
            let high: u16 = (0xD800 + (n - 0x1_0000) / 0x400) as u16;
            let low: u16 = (0xDC00 + (n - 0x1_0000) % 0x400) as u16;
            push_unit(&mut v, high, big_endian);
            push_unit(&mut v, low, big_endian);
            proof {
                lemma_units_push(before, high, big_endian);
                lemma_units_push(before.push(high), low, big_endian);
                assert(utf16(s@.take(i + 1)) =~= before.push(high).push(low));
                assert(v@ =~= head + units_bytes(before.push(high).push(low), big_endian));
            }
        }
        i += 1;
    }
    assert(s@.take(s@.len() as int) =~= s@);
    v
}

/// `bytes` with `piece` inserted at `at`.
pub open spec fn inserted(bytes: Seq<u8>, at: int, piece: Seq<u8>) -> Seq<u8> {
    bytes.take(at) + piece + bytes.skip(at)
}

/// Copies of the bytes `from..to`.
pub fn slice_of(bytes: &Vec<u8>, from: usize, to: usize) -> (v: Vec<u8>)
    requires
        from <= to <= bytes@.len(),
    ensures
        v@ == bytes@.subrange(from as int, to as int),
{
    vstd::slice::slice_to_vec(vstd::slice::slice_subrange(bytes.as_slice(), from, to))
}

fn insert_bytes(bytes: &Vec<u8>, at: usize, piece: Vec<u8>) -> (v: Vec<u8>)
    requires
        at <= bytes@.len(),
    ensures
        v@ == inserted(bytes@, at as int, piece@),
{
    let mut piece: Vec<u8> = piece;
    let mut v: Vec<u8> = slice_of(bytes, 0, at);
    let mut rest: Vec<u8> = slice_of(bytes, at, bytes.len());
    let ghost middle = piece@;
    v.append(&mut piece);
    v.append(&mut rest);
    assert(v@ =~= inserted(bytes@, at as int, middle));
    v
}

pub open spec fn base_bytes() -> Seq<u8> {
    encode_utf8(BASE_SVG@)
}

pub open spec fn encoding_list() -> Seq<CaseView> {
    seq![
        hostile_bytes("utf8-bom"@, seq![0xEFu8, 0xBBu8, 0xBFu8] + base_bytes()),
        hostile_bytes(
            "utf16le-bom"@,
            unit_bytes(0xFEFF, false) + units_bytes(utf16(BASE_SVG@), false),
        ),
        hostile_bytes(
            "utf16be-bom"@,
            unit_bytes(0xFEFF, true) + units_bytes(utf16(BASE_SVG@), true),
        ),
        // Declared encoding that contradicts the actual bytes.
        hostile(
            "encoding-mismatch-declared-utf16"@,
            r#"<?xml version="1.0" encoding="UTF-16"?>"#@ + BASE_SVG@,
        ),
        // Invalid UTF-8 in the middle of an attribute value.
        hostile_bytes(
            "invalid-utf8-midway"@,
            inserted(
                base_bytes(),
                base_bytes().len() as int / 2,
                seq![0xC3u8, 0x28u8, 0xA0u8, 0xFFu8, 0xFEu8],
            ),
        ),
        // Embedded NUL bytes, which terminate C strings but are legal in a byte
        // stream.
        hostile_bytes("embedded-nul-bytes"@, inserted(base_bytes(), 30, seq![0u8, 0u8, 0u8])),
    ]
}

/// A text has at least as many bytes as characters.
pub proof fn lemma_utf8_not_shorter(s: Seq<char>)
    ensures
        encode_utf8(s).len() >= s.len(),
    decreases s.len(),
{
    if s.len() > 0 {
        lemma_utf8_not_shorter(s.drop_first());
    }
}

proof fn lemma_base_length()
    ensures
        base_bytes().len() >= 100,
{
    reveal_strlit(
        r##"<svg xmlns="http://www.w3.org/2000/svg" viewBox="0 0 64 64"><rect x="4" y="4" width="56" height="56" fill="#2d89ef"/><circle cx="32" cy="32" r="14" fill="#ffb900"/></svg>"##,
    );
    lemma_utf8_not_shorter(BASE_SVG@);
}

fn encoding_cases() -> (v: Vec<Case>)
    ensures
        views(v@) == encoding_list(),
{
    let mut v: Vec<Case> = no_cases();
    let base: Vec<u8> = text_bytes(BASE_SVG);
    proof {
        lemma_base_length();
    }

    let mut bom: Vec<u8> = vec![0xEFu8, 0xBBu8, 0xBFu8];
    bom.extend_from_slice(BASE_SVG.as_bytes());
    assert(bom@ =~= seq![0xEFu8, 0xBBu8, 0xBFu8] + base_bytes());
    add_hostile_bytes(&mut v, "utf8-bom", bom);

    add_hostile_bytes(&mut v, "utf16le-bom", utf16_document(0xFEFF, BASE_SVG, false));
    add_hostile_bytes(&mut v, "utf16be-bom", utf16_document(0xFEFF, BASE_SVG, true));
    add_hostile(
        &mut v,
        "encoding-mismatch-declared-utf16",
        two(r#"<?xml version="1.0" encoding="UTF-16"?>"#, BASE_SVG).as_str(),
    );

    let broken: Vec<u8> = vec![0xC3u8, 0x28u8, 0xA0u8, 0xFFu8, 0xFEu8];
    assert(broken@ =~= seq![0xC3u8, 0x28u8, 0xA0u8, 0xFFu8, 0xFEu8]);
    add_hostile_bytes(&mut v, "invalid-utf8-midway", insert_bytes(&base, base.len() / 2, broken));

    let nuls: Vec<u8> = vec![0u8, 0u8, 0u8];
    assert(nuls@ =~= seq![0u8, 0u8, 0u8]);
    add_hostile_bytes(&mut v, "embedded-nul-bytes", insert_bytes(&base, 30, nuls));
    v
}

// ---------------------------------------------------------------
//                           Truncation
// ---------------------------------------------------------------
//
// Every cut leaves the parser in a different partial state, and a single
// mishandled state is enough to fault.

/// `percent` hundredths of `len`, rounded down.
pub open spec fn portion(len: nat, percent: nat) -> nat {
    len * percent / 100
}

/// `percent` hundredths of `len`, computed without a product that could
/// overflow.
pub fn portion_of(len: usize, percent: usize) -> (r: usize)
    requires
        percent <= 100,
    ensures
        r == portion(len as nat, percent as nat),
        r <= len,
{
    let whole: usize = len / 100;
    let rest: usize = len % 100;
    proof {
        assert(whole * percent <= whole * 100) by (nonlinear_arith)
            requires
                percent <= 100,
        ;
        assert(rest * percent <= rest * 100) by (nonlinear_arith)
            requires
                percent <= 100,
        ;
        assert(len * percent == 100 * (whole * percent) + rest * percent) by (nonlinear_arith)
            requires
                len == 100 * whole + rest,
        ;
        assert(rest * percent <= 9900);
    }
    whole * percent + rest * percent / 100
}

pub open spec fn truncated(percent: nat) -> CaseView {
    hostile_bytes(
        "truncated-"@ + dec2(percent) + "pct"@,
        base_bytes().take(portion(base_bytes().len(), percent) as int),
    )
}

/// A cut `back` bytes before the end, where the closing tag lives.
pub open spec fn truncated_end(back: nat) -> CaseView {
    hostile_bytes("truncated-minus"@ + dec(back), base_bytes().take(base_bytes().len() - back))
}

pub open spec fn truncation_list() -> Seq<CaseView> {
    seq![
        truncated(1),
        truncated(5),
        truncated(10),
        truncated(17),
        truncated(25),
        truncated(33),
        truncated(50),
        truncated(66),
        truncated(75),
        truncated(90),
        truncated(95),
        truncated(99),
        truncated_end(1),
        truncated_end(2),
        truncated_end(3),
        truncated_end(6),
        truncated_end(7),
    ]
}

fn add_truncated(v: &mut Vec<Case>, base: &Vec<u8>, percent: usize)
    requires
        base@ == base_bytes(),
        percent <= 100,
    ensures
        views(final(v)@) == views(old(v)@).push(truncated(percent as nat)),
{
    let mut name: String = "truncated-".to_owned();
    name.append(decimal2(percent as u64).as_str());
    name.append("pct");
    let cut: usize = portion_of(base.len(), percent);
    assert(base@.subrange(0, cut as int) =~= base@.take(cut as int));
    add_hostile_bytes(v, name.as_str(), slice_of(base, 0, cut));
}

fn add_truncated_end(v: &mut Vec<Case>, base: &Vec<u8>, back: usize)
    requires
        base@ == base_bytes(),
        back <= base@.len(),
    ensures
        views(final(v)@) == views(old(v)@).push(truncated_end(back as nat)),
{
    let mut name: String = "truncated-minus".to_owned();
    name.append(decimal(back as u64).as_str());
    let cut: usize = base.len() - back;
    assert(base@.subrange(0, cut as int) =~= base@.take(cut as int));
    add_hostile_bytes(v, name.as_str(), slice_of(base, 0, cut));
}

fn truncation_cases() -> (v: Vec<Case>)
    ensures
        views(v@) == truncation_list(),
{
    let base: Vec<u8> = text_bytes(BASE_SVG);
    proof {
        lemma_base_length();
    }
    let mut v: Vec<Case> = no_cases();
    add_truncated(&mut v, &base, 1);
    add_truncated(&mut v, &base, 5);
    add_truncated(&mut v, &base, 10);
    add_truncated(&mut v, &base, 17);
    add_truncated(&mut v, &base, 25);
    add_truncated(&mut v, &base, 33);
    add_truncated(&mut v, &base, 50);
    add_truncated(&mut v, &base, 66);
    add_truncated(&mut v, &base, 75);
    add_truncated(&mut v, &base, 90);
    add_truncated(&mut v, &base, 95);
    add_truncated(&mut v, &base, 99);
    add_truncated_end(&mut v, &base, 1);
    add_truncated_end(&mut v, &base, 2);
    add_truncated_end(&mut v, &base, 3);
    add_truncated_end(&mut v, &base, 6);
    add_truncated_end(&mut v, &base, 7);
    v
}

pub open spec fn structural_list() -> Seq<CaseView> {
    document_list() + encoding_list() + truncation_list()
}

pub fn structural_cases() -> (v: Vec<Case>)
    ensures
        views(v@) == structural_list(),
{
    let mut v: Vec<Case> = document_cases();
    extend(&mut v, encoding_cases());
    extend(&mut v, truncation_cases());
    v
}

// ---------------------------------------------------------------
//                     What the cases hold
// ---------------------------------------------------------------

/// A portion is the whole number of items that is nearest to the given share from below.
pub proof fn a_portion_is_rounded_down(len: nat, percent: nat)
    ensures
        100 * portion(len, percent) <= len * percent < 100 * portion(len, percent) + 100,
        percent <= 100 ==> portion(len, percent) <= len,
        portion(len, 0) == 0,
        portion(len, 100) == len,
{
    assert(len * 0 == 0) by (nonlinear_arith);
    if percent <= 100 {
        assert(len * percent <= len * 100) by (nonlinear_arith)
            requires
                percent <= 100,
        ;
    }
}

/// Every truncated document is the front of the base document and shorter than it: cut
/// to its share, or by the given number of bytes at its end.
pub proof fn truncations_are_cut_as_named(percent: nat, back: nat)
    ensures
        percent < 100 ==> truncated(percent).bytes.len() < base_bytes().len(),
        percent <= 100 ==> truncated(percent).bytes.len() * 100 <= base_bytes().len() * percent
            < truncated(percent).bytes.len() * 100 + 100,
        percent <= 100 ==> truncated(percent).bytes == base_bytes().take(
            truncated(percent).bytes.len() as int,
        ),
        0 < back <= 100 ==> truncated_end(back).bytes.len() == base_bytes().len() - back
            && truncated_end(back).bytes == base_bytes().take(truncated_end(back).bytes.len() as int),
        truncated(percent).expect == Expect::Survive,
        truncated_end(back).expect == Expect::Survive,
{
    lemma_base_length();
    let n = base_bytes().len();
    a_portion_is_rounded_down(n, percent);
    if percent < 100 {
        assert(n * percent < n * 100) by (nonlinear_arith)
            requires
                percent < 100,
                n > 0,
        ;
    }
}

/// The code units of a character give it back: one unit for the common ones, and for
/// the others a high and a low surrogate, each in its own range.
pub proof fn code_units_give_the_character_back(c: char)
    ensures
        (c as u32) < 0x1_0000 ==> utf16_units(c).len() == 1 && utf16_units(c)[0] as u32 == c as u32,
        (c as u32) >= 0x1_0000 ==> {
            let u = utf16_units(c);
            &&& u.len() == 2
            &&& 0xD800 <= u[0] < 0xDC00
            &&& 0xDC00 <= u[1] < 0xE000
            &&& c as u32 == 0x1_0000 + (u[0] - 0xD800) * 0x400 + (u[1] - 0xDC00)
        },
{
}

/// The two bytes of a code unit give it back, the high one first or last by the byte
/// order; in a run the `i`-th unit takes the `i`-th pair.
pub proof fn bytes_give_the_units_back(units: Seq<u16>, big_endian: bool, i: int)
    ensures
        units_bytes(units, big_endian).len() == 2 * units.len(),
        0 <= i < units.len() ==> {
            let b = units_bytes(units, big_endian);
            units[i] == (if big_endian {
                256 * b[2 * i] + b[2 * i + 1]
            } else {
                b[2 * i] + 256 * b[2 * i + 1]
            })
        },
    decreases units.len(),
{
    if units.len() > 0 {
        let rest = units.drop_last();
        bytes_give_the_units_back(rest, big_endian, i);
        if i == units.len() - 1 {
            assert(units.last() == units[i]);
        } else if 0 <= i < rest.len() {
            assert(rest[i] == units[i]);
        }
    }
}

/// A text of common characters has one code unit for each, in order.
pub proof fn common_texts_have_one_unit_each(s: Seq<char>, i: int)
    requires
        forall|k: int| 0 <= k < s.len() ==> (#[trigger] s[k]) as u32 <= 0xFFFF,
    ensures
        utf16(s).len() == s.len(),
        0 <= i < s.len() ==> utf16(s)[i] as u32 == s[i] as u32,
    decreases s.len(),
{
    if s.len() > 0 {
        let rest = s.drop_last();
        assert forall|k: int| 0 <= k < rest.len() implies (#[trigger] rest[k]) as u32 <= 0xFFFF by {
            assert(rest[k] == s[k]);
        }
        common_texts_have_one_unit_each(rest, i);
        code_units_give_the_character_back(s.last());
        assert(s.last() == s[s.len() - 1]);
    }
}

/// A piece that was inserted stands in its place, and taking it out again gives back the
/// bytes that it was inserted into.
pub proof fn inserting_keeps_the_rest(bytes: Seq<u8>, at: int, piece: Seq<u8>)
    requires
        0 <= at <= bytes.len(),
    ensures
        inserted(bytes, at, piece).len() == bytes.len() + piece.len(),
        inserted(bytes, at, piece).subrange(at, at + piece.len()) == piece,
        inserted(bytes, at, piece).take(at) + inserted(bytes, at, piece).skip(at + piece.len())
            == bytes,
{
    let all = inserted(bytes, at, piece);
    assert(all.subrange(at, at + piece.len()) =~= piece);
    assert(all.take(at) + all.skip(at + piece.len()) =~= bytes);
}

/// What the encodings begin with: the byte-order mark of UTF-8 before the document
/// itself, and that of UTF-16 in either order before its code units. The damaged one has
/// bytes that no UTF-8 text has in its middle, and another has three zero bytes.
pub proof fn encodings_begin_with_their_mark()
    ensures
        encoding_list().len() == 6,
        encoding_list()[0].bytes.take(3) == seq![0xEFu8, 0xBBu8, 0xBFu8],
        encoding_list()[0].bytes.skip(3) == base_bytes(),
        encoding_list()[1].bytes.take(2) == seq![0xFFu8, 0xFEu8],
        encoding_list()[1].bytes.skip(2) == units_bytes(utf16(BASE_SVG@), false),
        encoding_list()[2].bytes.take(2) == seq![0xFEu8, 0xFFu8],
        encoding_list()[2].bytes.skip(2) == units_bytes(utf16(BASE_SVG@), true),
        encoding_list()[4].bytes.len() == base_bytes().len() + 5,
        encoding_list()[4].bytes[base_bytes().len() as int / 2] == 0xC3,
        encoding_list()[4].bytes[base_bytes().len() as int / 2 + 1] == 0x28,
        encoding_list()[4].bytes[base_bytes().len() as int / 2 + 3] == 0xFF,
        encoding_list()[5].bytes.len() == base_bytes().len() + 3,
        encoding_list()[5].bytes.subrange(30, 33) == seq![0u8, 0u8, 0u8],
        forall|i: int| 0 <= i < 6 ==> (#[trigger] encoding_list()[i]).expect == Expect::Survive,
{
    lemma_base_length();
    let e = encoding_list();
    assert(e[0].bytes.take(3) =~= seq![0xEFu8, 0xBBu8, 0xBFu8]);
    assert(e[0].bytes.skip(3) =~= base_bytes());
    assert(e[1].bytes.take(2) =~= seq![0xFFu8, 0xFEu8]);
    assert(e[1].bytes.skip(2) =~= units_bytes(utf16(BASE_SVG@), false));
    assert(e[2].bytes.take(2) =~= seq![0xFEu8, 0xFFu8]);
    assert(e[2].bytes.skip(2) =~= units_bytes(utf16(BASE_SVG@), true));
    assert(e[5].bytes.subrange(30, 33) =~= seq![0u8, 0u8, 0u8]);
}

/// What must render among these documents: the base document after a declaration and
/// after a comment. Every other one has merely to be survived.
pub proof fn sound_documents_must_render(i: int)
    ensures
        0 <= i < document_list().len() ==> document_list()[i].expect == (if i == 13 || i == 15 {
            Expect::RealRender
        } else {
            Expect::Survive
        }),
        document_list()[13].name == "xml-declaration"@,
        document_list()[15].name == "comment-before-root"@,
        document_list()[0].bytes.len() == 0,
        document_list()[1].bytes == seq![0u8],
        0 <= i < truncation_list().len() ==> truncation_list()[i].expect == Expect::Survive,
{
}

/// Which truncations are made: twelve shares of the document, and five cuts around its
/// closing tag.
pub proof fn every_truncation_is_made(percent: nat, back: nat)
    ensures
        truncation_list().len() == 17,
        percent == 1 || percent == 5 || percent == 10 || percent == 17 || percent == 25 || percent
            == 33 || percent == 50 || percent == 66 || percent == 75 || percent == 90 || percent == 95
            || percent == 99 ==> truncation_list().contains(truncated(percent)),
        back == 1 || back == 2 || back == 3 || back == 6 || back == 7 ==> truncation_list().contains(
            truncated_end(back),
        ),
{
    let l = truncation_list();
    assert(l[0] == truncated(1) && l[1] == truncated(5) && l[2] == truncated(10) && l[3] == truncated(
        17,
    ) && l[4] == truncated(25) && l[5] == truncated(33) && l[6] == truncated(50) && l[7]
        == truncated(66) && l[8] == truncated(75) && l[9] == truncated(90) && l[10] == truncated(95)
        && l[11] == truncated(99));
    assert(l[12] == truncated_end(1) && l[13] == truncated_end(2) && l[14] == truncated_end(3)
        && l[15] == truncated_end(6) && l[16] == truncated_end(7));
}

} // verus!
