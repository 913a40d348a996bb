//! Sizes of cases.
//!
//! The heavy corpus is kept apart because it dominates time and memory. The proof
//! adds up what every other case can take at most and shows that the line between
//! the two runs where it should.

use vstd::prelude::*;
use vstd::utf8::{encode_utf8, is_ascii_chars, is_ascii_chars_encode_utf8};
use crate::corpus::css::{
    at_rule_list, css_list, important_list, rule_list, rule_scale_list, RECT,
};
use crate::corpus::entity::{entity_list, expansion_list, external_list, laughs};
use crate::corpus::names::every_case_has_its_own_name;
use crate::corpus::numeric::{
    buffer_list, coordinate_list, decimals_upto, dimension_list, fill_list, long_path,
    numeric_list, opacity_list, path_list, segments, viewbox_list,
};
use crate::corpus::pieces::{counted, counted_twice};
use crate::corpus::size_limits::{
    lemma_utf8_at_most_four, padded_sizes, rejected_exactly_over_the_limit, size_limit_list,
    MAX_INPUT,
};
use crate::corpus::structural::{
    base_bytes, document_list, encoding_list, structural_list, truncated, truncation_list,
    units_bytes, utf16,
};
use crate::corpus::svgz::{svgz_list, MembersView};
use crate::corpus::valid::valid_list;
use crate::corpus::xml_scale::{nested_svg, rectangles, siblings, xml_scale_list};
use crate::corpus::{all_list, CaseView, Expect, BASE_SVG};
use crate::numbers::dec;
use crate::suites::adversarial::distinct_names;
use crate::text::{joined, repeated};

verus! {

/// Every heavy case has at least this many bytes, and every other one fewer.
pub const SPLIT: usize = 8 * 1024 * 1024;

/// The texts that a probe puts into a case are shorter than this.
pub const PROBE_MAX: usize = 1024 * 1024;

/// Every case of a list is on the light side of the line.
#[verifier::opaque]
pub open spec fn all_below(cases: Seq<CaseView>) -> bool {
    forall|i: int| 0 <= i < cases.len() ==> (#[trigger] cases[i]).bytes.len() < SPLIT
}

// ---------------------------------------------------------------
//                          Text as bytes
// ---------------------------------------------------------------

/// A text has at least one byte per character.
proof fn lemma_utf8_at_least_one(s: Seq<char>)
    ensures
        s.len() <= encode_utf8(s).len(),
    decreases s.len(),
{
    if s.len() > 0 {
        lemma_utf8_at_least_one(s.drop_first());
    }
}

/// The bytes of two texts in a row are those of the one and then of the other.
proof fn lemma_utf8_of_both(a: Seq<char>, b: Seq<char>)
    ensures
        encode_utf8(a + b) == encode_utf8(a) + encode_utf8(b),
    decreases a.len(),
{
    if a.len() == 0 {
        assert(a + b =~= b);
        assert(encode_utf8(a) + encode_utf8(b) =~= encode_utf8(b));
    } else {
        let rest = a.drop_first();
        lemma_utf8_of_both(rest, b);
        assert((a + b).drop_first() =~= rest + b);
        assert((a + b)[0] == a[0]);
        assert(encode_utf8(a + b) =~= encode_utf8(a) + encode_utf8(b));
    }
}

proof fn lemma_units(units: Seq<u16>, big_endian: bool)
    ensures
        units_bytes(units, big_endian).len() == 2 * units.len(),
    decreases units.len(),
{
    if units.len() > 0 {
        lemma_units(units.drop_last(), big_endian);
    }
}

proof fn lemma_utf16(s: Seq<char>)
    ensures
        utf16(s).len() <= 2 * s.len(),
    decreases s.len(),
{
    if s.len() > 0 {
        lemma_utf16(s.drop_last());
    }
}

// ---------------------------------------------------------------
//                          Runs of markup
// ---------------------------------------------------------------

proof fn lemma_dec_length(n: nat)
    ensures
        n < 100 ==> dec(n).len() <= 2,
        n < 100_000 ==> dec(n).len() <= 5,
{
    reveal_with_fuel(dec, 6);
}

proof fn lemma_repeated(s: Seq<char>, n: nat, per: nat)
    requires
        s.len() <= per,
    ensures
        repeated(s, n).len() <= n * per,
    decreases n,
{
    if n > 0 {
        lemma_repeated(s, (n - 1) as nat, per);
        assert((n - 1) * per + per == n * per) by (nonlinear_arith);
    }
}

proof fn lemma_counted(n: nat, head: Seq<char>, tail: Seq<char>, per: nat)
    requires
        n <= 100_000,
        head.len() + tail.len() + 5 <= per,
    ensures
        counted(n, head, tail).len() <= n * per,
    decreases n,
{
    if n > 0 {
        lemma_counted((n - 1) as nat, head, tail, per);
        lemma_dec_length((n - 1) as nat);
        assert((n - 1) * per + per == n * per) by (nonlinear_arith);
    }
}

proof fn lemma_counted_twice(n: nat, head: Seq<char>, middle: Seq<char>, tail: Seq<char>, per: nat)
    requires
        n <= 100_000,
        head.len() + middle.len() + tail.len() + 10 <= per,
    ensures
        counted_twice(n, head, middle, tail).len() <= n * per,
    decreases n,
{
    if n > 0 {
        lemma_counted_twice((n - 1) as nat, head, middle, tail, per);
        lemma_dec_length((n - 1) as nat);
        assert((n - 1) * per + per == n * per) by (nonlinear_arith);
    }
}

proof fn lemma_nested(depth: nat)
    ensures
        nested_svg(depth).len() <= 7 * depth + 200,
{
    reveal_strlit(r#"<svg xmlns="http://www.w3.org/2000/svg" viewBox="0 0 64 64">"#);
    reveal_strlit("<g>");
    reveal_strlit(r##"<rect width="64" height="64" fill="#0a0"/>"##);
    reveal_strlit("</g>");
    reveal_strlit("</svg>");
    lemma_repeated("<g>"@, depth, 3);
    lemma_repeated("</g>"@, depth, 4);
}

/// The rest of a rectangle is plain ASCII, so it has one byte per character.
proof fn lemma_rest_of_rectangle()
    ensures
        encode_utf8(r##"" width="1" height="1" fill="#00f"/>"##@).len() == 36,
{
    reveal_strlit(r##"" width="1" height="1" fill="#00f"/>"##);
    let s = r##"" width="1" height="1" fill="#00f"/>"##@;
    assert(s.len() == 36);
    assert forall|i: int| 0 <= i < s.len() implies (#[trigger] s[i]) as u32 <= 127 by {
        assert(i == 0 || i == 1 || i == 2 || i == 3 || i == 4 || i == 5 || i == 6 || i == 7 || i == 8
            || i == 9 || i == 10 || i == 11 || i == 12 || i == 13 || i == 14 || i == 15 || i == 16 || i == 17
            || i == 18 || i == 19 || i == 20 || i == 21 || i == 22 || i == 23 || i == 24 || i == 25 || i == 26
            || i == 27 || i == 28 || i == 29 || i == 30 || i == 31 || i == 32 || i == 33 || i == 34 || i == 35);
    }
    assert(is_ascii_chars(s));
    is_ascii_chars_encode_utf8(s);
}

/// These are many enough for their bytes to be counted rather than bounded by the
/// longest characters.
proof fn lemma_rectangles(n: nat)
    ensures
        encode_utf8(rectangles(n)).len() <= n * 108,
    decreases n,
{
    broadcast use lemma_utf8_at_most_four;

    if n > 0 {
        let i = (n - 1) as nat;
        lemma_rectangles(i);
        reveal_strlit(r#"<rect x=""#);
        reveal_strlit(r#"" y=""#);
        lemma_dec_length(i % 64);
        lemma_dec_length((i / 64) % 64);
        lemma_rest_of_rectangle();
        let a = rectangles(i);
        let b = a + r#"<rect x=""#@;
        let c = b + dec(i % 64);
        let d = c + r#"" y=""#@;
        let e = d + dec((i / 64) % 64);
        lemma_utf8_of_both(a, r#"<rect x=""#@);
        lemma_utf8_of_both(b, dec(i % 64));
        lemma_utf8_of_both(c, r#"" y=""#@);
        lemma_utf8_of_both(d, dec((i / 64) % 64));
        lemma_utf8_of_both(e, r##"" width="1" height="1" fill="#00f"/>"##@);
    }
}

proof fn lemma_siblings(n: nat)
    requires
        n <= 50_000,
    ensures
        siblings(n).bytes.len() < SPLIT,
{
    broadcast use lemma_utf8_at_most_four;

    reveal_strlit(r#"<svg xmlns="http://www.w3.org/2000/svg" viewBox="0 0 64 64">"#);
    reveal_strlit("</svg>");
    let head = r#"<svg xmlns="http://www.w3.org/2000/svg" viewBox="0 0 64 64">"#@;
    lemma_rectangles(n);
    lemma_utf8_of_both(head, rectangles(n));
    lemma_utf8_of_both(head + rectangles(n), "</svg>"@);
}

proof fn lemma_segments(n: nat)
    ensures
        segments(n).len() <= n * 6,
    decreases n,
{
    if n > 0 {
        let i = (n - 1) as nat;
        lemma_segments(i);
        reveal_strlit("L");
        reveal_strlit(" ");
        lemma_dec_length(i % 64);
        lemma_dec_length((i * 7) % 64);
    }
}

proof fn lemma_decimals(n: nat)
    requires
        n <= 100,
    ensures
        joined(decimals_upto(n), " "@).len() <= n * 9,
    decreases n,
{
    reveal_strlit(" ");
    reveal_strlit(".00000");
    let all = decimals_upto(n);
    if n > 0 {
        lemma_dec_length((n - 1) as nat);
        assert(all.last() == dec((n - 1) as nat) + ".00000"@);
        lemma_decimals((n - 1) as nat);
        assert(all.drop_last() =~= decimals_upto((n - 1) as nat));
    }
}

proof fn lemma_laughs(n: nat)
    requires
        n < 100_000,
    ensures
        laughs(n).len() <= n * 200,
    decreases n,
{
    if n > 0 {
        lemma_laughs((n - 1) as nat);
        reveal_strlit("<!ENTITY l");
        reveal_strlit(r#" ""#);
        reveal_strlit("&l");
        reveal_strlit(";");
        reveal_strlit(r#"">"#);
        lemma_dec_length(n);
        lemma_dec_length((n - 1) as nat);
        lemma_repeated("&l"@ + dec((n - 1) as nat) + ";"@, 10, 8);
    }
}

// ---------------------------------------------------------------
//                     Group after group
// ---------------------------------------------------------------

proof fn lemma_constants()
    ensures
        30 <= BASE_SVG@.len() <= 200,
        30 <= base_bytes().len() <= 800,
        RECT@.len() <= 50,
{
    reveal_strlit(
        r##"<svg xmlns="http://www.w3.org/2000/svg" viewBox="0 0 64 64"><rect x="4" y="4" width="56" height="56" fill="#2d89ef"/><circle cx="32" cy="32" r="14" fill="#ffb900"/></svg>"##,
    );
    reveal_strlit(r#"<rect class="a" width="64" height="64"/>"#);
    lemma_utf8_at_most_four(BASE_SVG@);
    lemma_utf8_at_least_one(BASE_SVG@);
}

proof fn lemma_truncated(percent: nat)
    requires
        percent <= 100,
    ensures
        truncated(percent).bytes.len() < SPLIT,
{
    lemma_constants();
    let n = base_bytes().len();
    assert(0 <= n * percent / 100 <= n) by (nonlinear_arith)
        requires
            percent <= 100,
    ;
}

proof fn lemma_truncations()
    ensures
        all_below(truncation_list()),
{
    reveal(all_below);
    lemma_constants();
    lemma_truncated(1);
    lemma_truncated(5);
    lemma_truncated(10);
    lemma_truncated(17);
    lemma_truncated(25);
    lemma_truncated(33);
    lemma_truncated(50);
    lemma_truncated(66);
    lemma_truncated(75);
    lemma_truncated(90);
    lemma_truncated(95);
    lemma_truncated(99);
    let l = truncation_list();
    assert(l[0].bytes.len() < SPLIT);
    assert(l[1].bytes.len() < SPLIT);
    assert(l[2].bytes.len() < SPLIT);
    assert(l[3].bytes.len() < SPLIT);
    assert(l[4].bytes.len() < SPLIT);
    assert(l[5].bytes.len() < SPLIT);
    assert(l[6].bytes.len() < SPLIT);
    assert(l[7].bytes.len() < SPLIT);
    assert(l[8].bytes.len() < SPLIT);
    assert(l[9].bytes.len() < SPLIT);
    assert(l[10].bytes.len() < SPLIT);
    assert(l[11].bytes.len() < SPLIT);
    assert(l[12].bytes.len() < SPLIT);
    assert(l[13].bytes.len() < SPLIT);
    assert(l[14].bytes.len() < SPLIT);
    assert(l[15].bytes.len() < SPLIT);
    assert(l[16].bytes.len() < SPLIT);
}

proof fn lemma_valid()
    ensures
        all_below(valid_list()),
{
    broadcast use lemma_utf8_at_most_four;

    reveal(all_below);
    reveal_strlit(r##"<svg xmlns="http://www.w3.org/2000/svg" viewBox="0 0 64 64"><rect width="64" height="64" fill="#2d89ef"/></svg>"##);
    reveal_strlit(r##"<svg xmlns="http://www.w3.org/2000/svg" viewBox="0 0 64 64"><rect width="64" height="64" fill="#ffffff" fill-opacity="0.5"/></svg>"##);
    reveal_strlit(r##"<svg xmlns="http://www.w3.org/2000/svg" viewBox="0 0 64 64"><defs><linearGradient id="g"><stop offset="0" stop-color="#ff0000"/><stop offset="1" stop-color="#0000ff"/></linearGradient></defs><rect width="64" height="64" fill="url(#g)"/></svg>"##);
    reveal_strlit(r##"<svg xmlns="http://www.w3.org/2000/svg" viewBox="0 0 64 64"><g transform="translate(32,32) rotate(45)"><rect x="-16" y="-16" width="32" height="32" fill="#0a0"/></g></svg>"##);
    reveal_strlit(r##"<svg xmlns="http://www.w3.org/2000/svg" viewBox="0 0 64 64"><polygon points="32,4 60,60 4,60" fill="#e81123"/></svg>"##);
    reveal_strlit(r##"<svg xmlns="http://www.w3.org/2000/svg" viewBox="0 0 64 64"><path d="M8 32 L32 8 L56 32 L32 56 Z" fill="#8764b8"/></svg>"##);
    reveal_strlit(r##"<svg xmlns="http://www.w3.org/2000/svg" width="64" height="64"><rect width="64" height="64" fill="#0a0"/></svg>"##);
    reveal_strlit(r##"<svg xmlns="http://www.w3.org/2000/svg" viewBox="0 0 512 16"><rect width="512" height="16" fill="#0a0"/></svg>"##);
    reveal_strlit(r##"<svg xmlns="http://www.w3.org/2000/svg" viewBox="0 0 16 512"><rect width="16" height="512" fill="#0a0"/></svg>"##);
    reveal_strlit(r##"<svg xmlns="http://www.w3.org/2000/svg" viewBox="100 200 64 64"><rect x="100" y="200" width="64" height="64" fill="#0a0"/></svg>"##);
    reveal_strlit(r##"<svg xmlns="http://www.w3.org/2000/svg" viewBox="0 0 64 64"><svg x="0" y="0" width="64" height="64" viewBox="0 0 32 32"><rect width="32" height="32" fill="#0a0"/></svg></svg>"##);
    lemma_constants();
    let l = valid_list();
    assert(l[0].bytes.len() < SPLIT);
    assert(l[1].bytes.len() < SPLIT);
    assert(l[2].bytes.len() < SPLIT);
    assert(l[3].bytes.len() < SPLIT);
    assert(l[4].bytes.len() < SPLIT);
    assert(l[5].bytes.len() < SPLIT);
    assert(l[6].bytes.len() < SPLIT);
    assert(l[7].bytes.len() < SPLIT);
    assert(l[8].bytes.len() < SPLIT);
    assert(l[9].bytes.len() < SPLIT);
    assert(l[10].bytes.len() < SPLIT);
    assert(l[11].bytes.len() < SPLIT);
}

proof fn lemma_documents()
    ensures
        all_below(document_list()),
{
    broadcast use lemma_utf8_at_most_four;

    reveal(all_below);
    reveal_strlit("   \r\n\t  ");
    reveal_strlit("this is not an svg at all");
    reveal_strlit("<html><body><p>hi</p></body></html>");
    reveal_strlit(r#"<?xml version="1.0"?><root><a/></root>"#);
    reveal_strlit("<svg><rect width='10' height='10'/></svg>");
    reveal_strlit("<svg/>");
    reveal_strlit(r#"<svg xmlns="http://www.w3.org/2000/svg" viewBox="0 0 10 10"></svg>"#);
    reveal_strlit(r#"<svg xmlns="http://www.w3.org/2000/svg"><rect/>"#);
    reveal_strlit("<svg><rect></circle></svg>");
    reveal_strlit("</svg>");
    reveal_strlit(r#"<!DOCTYPE svg PUBLIC "-//W3C//DTD SVG 1.1//EN" "http://www.w3.org/Graphics/SVG/1.1/DTD/svg11.dtd">"#);
    reveal_strlit(r#"<?xml version="1.0" encoding="UTF-8" standalone="no"?>"#);
    reveal_strlit(r#"<?xml-stylesheet type="text/css" href="x.css"?>"#);
    reveal_strlit("<!-- leading comment -->");
    reveal_strlit("<!-- never closed");
    reveal_strlit(r#"<svg xmlns="http://www.w3.org/2000/svg" viewBox="0 0 10 10"><desc><![CDATA[<not><xml>]]></desc><rect width="10" height="10" fill="red"/></svg>"#);
    reveal_strlit(r#"<svg xmlns="http://www.w3.org/2000/svg"><desc><![CDATA[unterminated</svg>"#);
    lemma_constants();
    let l = document_list();
    assert(l[0].bytes.len() < SPLIT);
    assert(l[1].bytes.len() < SPLIT);
    assert(l[2].bytes.len() < SPLIT);
    assert(l[3].bytes.len() < SPLIT);
    assert(l[4].bytes.len() < SPLIT);
    assert(l[5].bytes.len() < SPLIT);
    assert(l[6].bytes.len() < SPLIT);
    assert(l[7].bytes.len() < SPLIT);
    assert(l[8].bytes.len() < SPLIT);
    assert(l[9].bytes.len() < SPLIT);
    assert(l[10].bytes.len() < SPLIT);
    assert(l[11].bytes.len() < SPLIT);
    assert(l[12].bytes.len() < SPLIT);
    assert(l[13].bytes.len() < SPLIT);
    assert(l[14].bytes.len() < SPLIT);
    assert(l[15].bytes.len() < SPLIT);
    assert(l[16].bytes.len() < SPLIT);
    assert(l[17].bytes.len() < SPLIT);
    assert(l[18].bytes.len() < SPLIT);
}

proof fn lemma_encodings()
    ensures
        all_below(encoding_list()),
{
    broadcast use lemma_utf8_at_most_four;

    reveal(all_below);
    reveal_strlit(r#"<?xml version="1.0" encoding="UTF-16"?>"#);
    lemma_constants();
    lemma_utf8_at_least_one(BASE_SVG@);
    lemma_units(utf16(BASE_SVG@), false);
    lemma_units(utf16(BASE_SVG@), true);
    lemma_utf16(BASE_SVG@);
    let l = encoding_list();
    assert(l[0].bytes.len() < SPLIT);
    assert(l[1].bytes.len() < SPLIT);
    assert(l[2].bytes.len() < SPLIT);
    assert(l[3].bytes.len() < SPLIT);
    assert(l[4].bytes.len() < SPLIT);
    assert(l[5].bytes.len() < SPLIT);
}

proof fn lemma_xml_scale()
    ensures
        all_below(xml_scale_list()),
{
    broadcast use lemma_utf8_at_most_four;

    reveal(all_below);
    reveal_strlit(r#"<svg xmlns="http://www.w3.org/2000/svg" viewBox="0 0 64 64">"#);
    reveal_strlit("<g>");
    reveal_strlit(r##"<rect width="64" height="64" fill="#0a0"/>"##);
    reveal_strlit("</g>");
    reveal_strlit("</svg>");
    reveal_strlit(r#"<svg xmlns="http://www.w3.org/2000/svg" viewBox="0 0 10 10" data-x=""#);
    reveal_strlit("a");
    reveal_strlit(r#""><rect width="10" height="10" fill="red"/></svg>"#);
    reveal_strlit(r#"<svg xmlns="http://www.w3.org/2000/svg">"#);
    reveal_strlit(r#"<svg xmlns="http://www.w3.org/2000/svg" viewBox="0 0 10 10"><rect"#);
    reveal_strlit(" data-a");
    reveal_strlit(r#"=""#);
    reveal_strlit(r#"""#);
    reveal_strlit(r#" width="10" height="10" fill="red"/></svg>"#);
    reveal_strlit(r#"<svg xmlns="http://www.w3.org/2000/svg""#);
    reveal_strlit(" xmlns:n");
    reveal_strlit(r#"="urn:test:"#);
    reveal_strlit(r#" viewBox="0 0 10 10"><rect width="10" height="10" fill="red"/></svg>"#);
    reveal_strlit(r##"<s:svg xmlns:s="http://www.w3.org/2000/svg" viewBox="0 0 10 10"><s:rect width="10" height="10" fill="#0f0"/></s:svg>"##);
    reveal_strlit(r#"<svg xmlns="http://www.w3.org/2000/svg" viewBox="0 0 10 10"><style>.c0{fill:red}</style><rect class=""#);
    reveal_strlit("c");
    reveal_strlit(" ");
    reveal_strlit(r#"" width="10" height="10"/></svg>"#);
    reveal_strlit(r##"<svg xmlns="http://www.w3.org/2000/svg" xmlns:xlink="http://www.w3.org/1999/xlink" viewBox="0 0 10 10"><g id="a"><use xlink:href="#a"/></g><use xlink:href="#a"/></svg>"##);
    reveal_strlit(r##"<svg xmlns="http://www.w3.org/2000/svg" xmlns:xlink="http://www.w3.org/1999/xlink" viewBox="0 0 10 10"><g id="a"><use xlink:href="#b"/></g><g id="b"><use xlink:href="#a"/></g><use xlink:href="#a"/></svg>"##);
    lemma_nested(64);
    lemma_nested(512);
    lemma_nested(5_000);
    lemma_nested(50_000);
    lemma_repeated("<g>"@, 10_000, 3);
    lemma_repeated("a"@, 64 * 1024, 1);
    lemma_repeated("a"@, 1024 * 1024, 1);
    lemma_counted_twice(20_000, " data-a"@, r#"=""#@, r#"""#@, 20);
    lemma_counted_twice(500, " xmlns:n"@, r#"="urn:test:"#@, r#"""#@, 30);
    lemma_siblings(1_000);
    lemma_siblings(50_000);
    lemma_counted(5_000, "c"@, " "@, 7);
    let l = xml_scale_list();
    assert(l[0].bytes.len() < SPLIT);
    assert(l[1].bytes.len() < SPLIT);
    assert(l[2].bytes.len() < SPLIT);
    assert(l[3].bytes.len() < SPLIT);
    assert(l[4].bytes.len() < SPLIT);
    assert(l[5].bytes.len() < SPLIT);
    assert(l[6].bytes.len() < SPLIT);
    assert(l[7].bytes.len() < SPLIT);
    assert(l[8].bytes.len() < SPLIT);
    assert(l[9].bytes.len() < SPLIT);
    assert(l[10].bytes.len() < SPLIT);
    assert(l[11].bytes.len() < SPLIT);
    assert(l[12].bytes.len() < SPLIT);
    assert(l[13].bytes.len() < SPLIT);
    assert(l[14].bytes.len() < SPLIT);
}

proof fn lemma_rules()
    ensures
        all_below(rule_list()),
{
    broadcast use lemma_utf8_at_most_four;

    reveal(all_below);
    reveal_strlit(r#"<svg xmlns="http://www.w3.org/2000/svg" viewBox="0 0 64 64"><style>"#);
    reveal_strlit("</style>");
    reveal_strlit("</svg>");
    reveal_strlit(".a{fill:#0a0}");
    reveal_strlit("rect{fill:#0a0}");
    reveal_strlit(r#"<rect width="64" height="64"/>"#);
    reveal_strlit("");
    reveal_strlit("/* nothing */");
    reveal_strlit(".a{fill:#0a0");
    reveal_strlit(".a}fill:#0a0}");
    reveal_strlit("{{{{{{{{");
    reveal_strlit("}}}}}}}}");
    reveal_strlit(".a{fill:#0a0} /* never closed");
    reveal_strlit(r#".a{content:"unterminated; fill:#0a0}"#);
    reveal_strlit(r#".a{content:"}"; fill:#0a0}"#);
    reveal_strlit(r#".a{content:"\""; fill:#0a0}"#);
    reveal_strlit(r".a{fill:#0a0}\");
    reveal_strlit(",,,,{fill:#0a0}");
    reveal_strlit(".a{}");
    reveal_strlit(".a{;;;;fill:#0a0;;;;}");
    reveal_strlit("@charset \"utf-8\";.a{fill:#0a0}");
    reveal_strlit(".a{fill:#0a0}\u{0}");
    reveal_strlit(".\u{e9}{fill:#0a0}.a{fill:#00a}");
    lemma_constants();
    let l = rule_list();
    assert(l[0].bytes.len() < SPLIT);
    assert(l[1].bytes.len() < SPLIT);
    assert(l[2].bytes.len() < SPLIT);
    assert(l[3].bytes.len() < SPLIT);
    assert(l[4].bytes.len() < SPLIT);
    assert(l[5].bytes.len() < SPLIT);
    assert(l[6].bytes.len() < SPLIT);
    assert(l[7].bytes.len() < SPLIT);
    assert(l[8].bytes.len() < SPLIT);
    assert(l[9].bytes.len() < SPLIT);
    assert(l[10].bytes.len() < SPLIT);
    assert(l[11].bytes.len() < SPLIT);
    assert(l[12].bytes.len() < SPLIT);
    assert(l[13].bytes.len() < SPLIT);
    assert(l[14].bytes.len() < SPLIT);
    assert(l[15].bytes.len() < SPLIT);
    assert(l[16].bytes.len() < SPLIT);
    assert(l[17].bytes.len() < SPLIT);
    assert(l[18].bytes.len() < SPLIT);
    assert(l[19].bytes.len() < SPLIT);
}

proof fn lemma_important()
    ensures
        all_below(important_list()),
{
    broadcast use lemma_utf8_at_most_four;

    reveal(all_below);
    reveal_strlit(r#"<svg xmlns="http://www.w3.org/2000/svg" viewBox="0 0 64 64"><style>"#);
    reveal_strlit("</style>");
    reveal_strlit("</svg>");
    reveal_strlit(".a{fill:#0a0 ");
    reveal_strlit("}");
    reveal_strlit(r#"<svg xmlns="http://www.w3.org/2000/svg" viewBox="0 0 64 64"><rect width="64" height="64" style="fill:#0a0 "#);
    reveal_strlit(r#""/></svg>"#);
    reveal_strlit("!important");
    reveal_strlit("!IMPORTANT");
    reveal_strlit("!ImPoRtAnT");
    reveal_strlit("! important");
    lemma_constants();
    let l = important_list();
    assert(l[0].bytes.len() < SPLIT);
    assert(l[1].bytes.len() < SPLIT);
    assert(l[2].bytes.len() < SPLIT);
    assert(l[3].bytes.len() < SPLIT);
    assert(l[4].bytes.len() < SPLIT);
    assert(l[5].bytes.len() < SPLIT);
    assert(l[6].bytes.len() < SPLIT);
    assert(l[7].bytes.len() < SPLIT);
}

proof fn lemma_at_rules()
    ensures
        all_below(at_rule_list()),
{
    broadcast use lemma_utf8_at_most_four;

    reveal(all_below);
    reveal_strlit(r#"<svg xmlns="http://www.w3.org/2000/svg" viewBox="0 0 64 64"><style>"#);
    reveal_strlit("</style>");
    reveal_strlit("</svg>");
    reveal_strlit("@media screen{");
    reveal_strlit(".a{fill:#0a0}");
    reveal_strlit("}");
    reveal_strlit("@media screen{.a{fill:#0a0}}");
    lemma_constants();
    lemma_repeated("@media screen{"@, 1, 14);
    lemma_repeated("}"@, 1, 1);
    lemma_repeated("@media screen{"@, 255, 14);
    lemma_repeated("}"@, 255, 1);
    lemma_repeated("@media screen{"@, 256, 14);
    lemma_repeated("}"@, 256, 1);
    lemma_repeated("@media screen{"@, 257, 14);
    lemma_repeated("}"@, 257, 1);
    lemma_repeated("@media screen{"@, 1000, 14);
    lemma_repeated("}"@, 1000, 1);
    lemma_repeated("@media screen{.a{fill:#0a0}}"@, 255, 28);
    lemma_repeated("@media screen{.a{fill:#0a0}}"@, 256, 28);
    lemma_repeated("@media screen{.a{fill:#0a0}}"@, 257, 28);
    lemma_repeated("@media screen{.a{fill:#0a0}}"@, 2000, 28);
    lemma_repeated("@media screen{"@, 300, 14);
    let l = at_rule_list();
    assert(l[0].bytes.len() < SPLIT);
    assert(l[1].bytes.len() < SPLIT);
    assert(l[2].bytes.len() < SPLIT);
    assert(l[3].bytes.len() < SPLIT);
    assert(l[4].bytes.len() < SPLIT);
    assert(l[5].bytes.len() < SPLIT);
    assert(l[6].bytes.len() < SPLIT);
    assert(l[7].bytes.len() < SPLIT);
    assert(l[8].bytes.len() < SPLIT);
    assert(l[9].bytes.len() < SPLIT);
}

proof fn lemma_rule_scale()
    ensures
        all_below(rule_scale_list()),
{
    broadcast use lemma_utf8_at_most_four;

    reveal(all_below);
    reveal_strlit(r#"<svg xmlns="http://www.w3.org/2000/svg" viewBox="0 0 64 64"><style>"#);
    reveal_strlit("</style>");
    reveal_strlit("</svg>");
    reveal_strlit(".c");
    reveal_strlit("{fill:#000}");
    reveal_strlit(".a{fill:#000}");
    reveal_strlit(".s");
    reveal_strlit(",");
    reveal_strlit(".a{");
    reveal_strlit("fill:#000000;stroke:#ffffff;");
    reveal_strlit("}");
    reveal_strlit(r#"<svg xmlns="http://www.w3.org/2000/svg" viewBox="0 0 64 64">"#);
    reveal_strlit("<style>.c");
    reveal_strlit("{fill:#111}</style>");
    reveal_strlit(r#"<svg xmlns="http://www.w3.org/2000/svg" viewBox="0 0 64 64"><style><![CDATA[.a{fill:#0a0}]]></style>"#);
    reveal_strlit(r#"<svg xmlns="http://www.w3.org/2000/svg" viewBox="0 0 64 64"><style>.a{fill:#ff0000}</style><rect class="a" width="64" height="64" style="fill:#00ff00"/></svg>"#);
    lemma_constants();
    lemma_counted(20_000, ".c"@, "{fill:#000}"@, 18);
    lemma_repeated(".a{fill:#000}"@, 20_000, 13);
    lemma_counted(5_000, ".s"@, ","@, 8);
    lemma_repeated("fill:#000000;stroke:#ffffff;"@, 20, 28);
    lemma_counted(2_000, "<style>.c"@, "{fill:#111}</style>"@, 33);
    let l = rule_scale_list();
    assert(l[0].bytes.len() < SPLIT);
    assert(l[1].bytes.len() < SPLIT);
    assert(l[2].bytes.len() < SPLIT);
    assert(l[3].bytes.len() < SPLIT);
    assert(l[4].bytes.len() < SPLIT);
    assert(l[5].bytes.len() < SPLIT);
}

proof fn lemma_viewboxes()
    ensures
        all_below(viewbox_list()),
{
    broadcast use lemma_utf8_at_most_four;

    reveal(all_below);
    reveal_strlit(r##"<svg xmlns="http://www.w3.org/2000/svg" viewBox=""##);
    reveal_strlit(r##""><rect width="64" height="64" fill="#0a0"/></svg>"##);
    reveal_strlit("0 0 0 0");
    reveal_strlit("0 0 0 64");
    reveal_strlit("0 0 64 0");
    reveal_strlit("0 0 -64 -64");
    reveal_strlit("-1000 -1000 64 64");
    reveal_strlit("0 0 1e30 1e30");
    reveal_strlit("0 0 1e-30 1e-30");
    reveal_strlit("0 0 NaN NaN");
    reveal_strlit("0 0 Infinity Infinity");
    reveal_strlit("0 0 64");
    reveal_strlit("0 0 64 64 64");
    reveal_strlit("a b c d");
    reveal_strlit("");
    reveal_strlit("0,0,64,64");
    reveal_strlit("  0   0   64   64  ");
    let l = viewbox_list();
    assert(l[0].bytes.len() < SPLIT);
    assert(l[1].bytes.len() < SPLIT);
    assert(l[2].bytes.len() < SPLIT);
    assert(l[3].bytes.len() < SPLIT);
    assert(l[4].bytes.len() < SPLIT);
    assert(l[5].bytes.len() < SPLIT);
    assert(l[6].bytes.len() < SPLIT);
    assert(l[7].bytes.len() < SPLIT);
    assert(l[8].bytes.len() < SPLIT);
    assert(l[9].bytes.len() < SPLIT);
    assert(l[10].bytes.len() < SPLIT);
    assert(l[11].bytes.len() < SPLIT);
    assert(l[12].bytes.len() < SPLIT);
    assert(l[13].bytes.len() < SPLIT);
    assert(l[14].bytes.len() < SPLIT);
}

proof fn lemma_dimensions()
    ensures
        all_below(dimension_list()),
{
    broadcast use lemma_utf8_at_most_four;

    reveal(all_below);
    reveal_strlit(r##"<svg xmlns="http://www.w3.org/2000/svg" "##);
    reveal_strlit(r##"><rect width="64" height="64" fill="#0a0"/></svg>"##);
    reveal_strlit(r#"width="100%" height="100%""#);
    reveal_strlit(r#"width="10em" height="10em""#);
    reveal_strlit(r#"width="72pt" height="72pt""#);
    reveal_strlit(r#"width="64px" height="64px""#);
    reveal_strlit(r#"width="0" height="0""#);
    reveal_strlit(r#"width="-64" height="-64""#);
    reveal_strlit(r#"width="1e30" height="1e30""#);
    reveal_strlit(r#"width="NaN" height="NaN""#);
    reveal_strlit(r#"width="64""#);
    reveal_strlit(r#"height="64""#);
    reveal_strlit(r#"width="" height="""#);
    reveal_strlit(r#"width="  " height="  ""#);
    let l = dimension_list();
    assert(l[0].bytes.len() < SPLIT);
    assert(l[1].bytes.len() < SPLIT);
    assert(l[2].bytes.len() < SPLIT);
    assert(l[3].bytes.len() < SPLIT);
    assert(l[4].bytes.len() < SPLIT);
    assert(l[5].bytes.len() < SPLIT);
    assert(l[6].bytes.len() < SPLIT);
    assert(l[7].bytes.len() < SPLIT);
    assert(l[8].bytes.len() < SPLIT);
    assert(l[9].bytes.len() < SPLIT);
    assert(l[10].bytes.len() < SPLIT);
    assert(l[11].bytes.len() < SPLIT);
}

proof fn lemma_buffers()
    ensures
        all_below(buffer_list()),
{
    broadcast use lemma_utf8_at_most_four;

    reveal(all_below);
    reveal_strlit(r##"<svg xmlns="http://www.w3.org/2000/svg" width=""##);
    reveal_strlit("1");
    reveal_strlit(r##"" height=""##);
    reveal_strlit("2");
    reveal_strlit(r##""><rect width="64" height="64" fill="#0a0"/></svg>"##);
    reveal_strlit(r##"<svg xmlns="http://www.w3.org/2000/svg" viewBox=""##);
    reveal_strlit(" ");
    lemma_repeated("1"@, 200, 1);
    lemma_repeated("2"@, 200, 1);
    lemma_decimals(40);
    let l = buffer_list();
    assert(l[0].bytes.len() < SPLIT);
    assert(l[1].bytes.len() < SPLIT);
}

proof fn lemma_coordinates()
    ensures
        all_below(coordinate_list()),
{
    broadcast use lemma_utf8_at_most_four;

    reveal(all_below);
    reveal_strlit(r##"<svg xmlns="http://www.w3.org/2000/svg" viewBox="0 0 64 64"><rect "##);
    reveal_strlit(r##" fill="#0a0"/></svg>"##);
    reveal_strlit(r#"x="NaN" y="NaN" width="NaN" height="NaN""#);
    reveal_strlit(r#"x="Infinity" y="-Infinity" width="Infinity" height="Infinity""#);
    reveal_strlit(r#"x="1e308" y="-1e308" width="1e308" height="1e308""#);
    reveal_strlit(r#"x="1e-320" y="1e-320" width="1e-320" height="1e-320""#);
    reveal_strlit(r#"x="0.123456789012345678901234567890" y="0" width="64" height="64""#);
    reveal_strlit(r#"x="+4" y="+4" width="+56" height="+56""#);
    reveal_strlit(r#"x="0x10" y="0x10" width="0x10" height="0x10""#);
    let l = coordinate_list();
    assert(l[0].bytes.len() < SPLIT);
    assert(l[1].bytes.len() < SPLIT);
    assert(l[2].bytes.len() < SPLIT);
    assert(l[3].bytes.len() < SPLIT);
    assert(l[4].bytes.len() < SPLIT);
    assert(l[5].bytes.len() < SPLIT);
    assert(l[6].bytes.len() < SPLIT);
}

proof fn lemma_long_path()
    ensures
        all_below(seq![long_path()]),
{
    broadcast use lemma_utf8_at_most_four;

    reveal(all_below);
    reveal_strlit(r##"<svg xmlns="http://www.w3.org/2000/svg" viewBox="0 0 64 64"><path d="M0 0 "##);
    reveal_strlit(r##"" stroke="#0a0" fill="none"/></svg>"##);
    lemma_segments(50_000);
    let l = seq![long_path()];
    assert(l[0].bytes.len() < SPLIT);
}

proof fn lemma_paths()
    ensures
        all_below(path_list()),
{
    broadcast use lemma_utf8_at_most_four;

    reveal(all_below);
    reveal_strlit(r##"<svg xmlns="http://www.w3.org/2000/svg" viewBox="0 0 64 64"><path d=""##);
    reveal_strlit(r##"" stroke="#0a0" fill="none"/></svg>"##);
    reveal_strlit("QQQQQQQQ");
    reveal_strlit("M0 0 L");
    reveal_strlit("M NaN NaN L Infinity Infinity");
    reveal_strlit("");
    reveal_strlit("     ");
    reveal_strlit("M1e308 1e308 L-1e308 -1e308");
    let l = path_list();
    assert(l[0].bytes.len() < SPLIT);
    assert(l[1].bytes.len() < SPLIT);
    assert(l[2].bytes.len() < SPLIT);
    assert(l[3].bytes.len() < SPLIT);
    assert(l[4].bytes.len() < SPLIT);
    assert(l[5].bytes.len() < SPLIT);
}

proof fn lemma_fills()
    ensures
        all_below(fill_list()),
{
    broadcast use lemma_utf8_at_most_four;

    reveal(all_below);
    reveal_strlit(r#"<svg xmlns="http://www.w3.org/2000/svg" viewBox="0 0 64 64"><rect width="64" height="64" fill=""#);
    reveal_strlit(r#""/></svg>"#);
    reveal_strlit("rebeccapurple");
    reveal_strlit("#0a0");
    reveal_strlit("#00aa00");
    reveal_strlit("#00aa0080");
    reveal_strlit("rgb(0,170,0)");
    reveal_strlit("rgb(0%,66%,0%)");
    reveal_strlit("rgba(0,170,0,0.5)");
    reveal_strlit("hsl(120,100%,33%)");
    reveal_strlit("#zzzzzz");
    reveal_strlit("notacolour");
    reveal_strlit("");
    reveal_strlit("currentColor");
    reveal_strlit("url(#nonexistent)");
    let l = fill_list();
    assert(l[0].bytes.len() < SPLIT);
    assert(l[1].bytes.len() < SPLIT);
    assert(l[2].bytes.len() < SPLIT);
    assert(l[3].bytes.len() < SPLIT);
    assert(l[4].bytes.len() < SPLIT);
    assert(l[5].bytes.len() < SPLIT);
    assert(l[6].bytes.len() < SPLIT);
    assert(l[7].bytes.len() < SPLIT);
    assert(l[8].bytes.len() < SPLIT);
    assert(l[9].bytes.len() < SPLIT);
    assert(l[10].bytes.len() < SPLIT);
    assert(l[11].bytes.len() < SPLIT);
    assert(l[12].bytes.len() < SPLIT);
}

proof fn lemma_opacities()
    ensures
        all_below(opacity_list()),
{
    broadcast use lemma_utf8_at_most_four;

    reveal(all_below);
    reveal_strlit(r##"<svg xmlns="http://www.w3.org/2000/svg" viewBox="0 0 64 64"><rect width="64" height="64" fill="#0a0" opacity=""##);
    reveal_strlit(r##""/></svg>"##);
    reveal_strlit("0");
    reveal_strlit("1");
    reveal_strlit("0.5");
    reveal_strlit("-1");
    reveal_strlit("2");
    reveal_strlit("NaN");
    reveal_strlit("0.0000001");
    reveal_strlit("0.99999999");
    let l = opacity_list();
    assert(l[0].bytes.len() < SPLIT);
    assert(l[1].bytes.len() < SPLIT);
    assert(l[2].bytes.len() < SPLIT);
    assert(l[3].bytes.len() < SPLIT);
    assert(l[4].bytes.len() < SPLIT);
    assert(l[5].bytes.len() < SPLIT);
    assert(l[6].bytes.len() < SPLIT);
    assert(l[7].bytes.len() < SPLIT);
}

proof fn lemma_external(url: Seq<char>, sentinel: Seq<char>)
    requires
        encode_utf8(url).len() < PROBE_MAX,
        encode_utf8(sentinel).len() < PROBE_MAX,
    ensures
        all_below(external_list(url, sentinel)),
{
    broadcast use lemma_utf8_at_most_four;

    reveal(all_below);
    reveal_strlit(r#"<?xml version="1.0"?><!DOCTYPE svg SYSTEM ""#);
    reveal_strlit(r#"/external.dtd"><svg xmlns="http://www.w3.org/2000/svg" viewBox="0 0 10 10"><rect width="10" height="10" fill="red"/></svg>"#);
    reveal_strlit(r#"<?xml version="1.0"?><!DOCTYPE svg [<!ENTITY xxe SYSTEM ""#);
    reveal_strlit(r#"/entity">]><svg xmlns="http://www.w3.org/2000/svg" viewBox="0 0 10 10"><desc>&xxe;</desc><rect width="10" height="10" fill="red"/></svg>"#);
    reveal_strlit(r#"<?xml version="1.0"?><!DOCTYPE svg [<!ENTITY xxe SYSTEM "file:///"#);
    reveal_strlit(r#"">]><svg xmlns="http://www.w3.org/2000/svg" viewBox="0 0 10 10"><desc>&xxe;</desc><rect width="10" height="10" fill="red"/></svg>"#);
    reveal_strlit(r#"<?xml version="1.0"?><!DOCTYPE svg [<!ENTITY % pe SYSTEM ""#);
    reveal_strlit(r#"/param.dtd">%pe;]><svg xmlns="http://www.w3.org/2000/svg" viewBox="0 0 10 10"><rect width="10" height="10" fill="red"/></svg>"#);
    reveal_strlit(r#"<?xml version="1.0"?><!DOCTYPE svg [<!ENTITY xxe SYSTEM "\\127.0.0.1\share\probe.dtd">]><svg xmlns="http://www.w3.org/2000/svg" viewBox="0 0 10 10"><desc>&xxe;</desc><rect width="10" height="10" fill="red"/></svg>"#);
    reveal_strlit(r#"/attr">]><svg xmlns="http://www.w3.org/2000/svg" viewBox="0 0 10 10"><rect width="10" height="10" fill="red" data-x="&xxe;"/></svg>"#);
    reveal_strlit(r#"<?xml version="1.0"?><?xml-stylesheet type="text/css" href=""#);
    reveal_strlit(r#"/style.css"?><svg xmlns="http://www.w3.org/2000/svg" viewBox="0 0 10 10"><rect width="10" height="10" fill="red"/></svg>"#);
    reveal_strlit(r#"<svg xmlns="http://www.w3.org/2000/svg" xmlns:xlink="http://www.w3.org/1999/xlink" viewBox="0 0 10 10"><image xlink:href=""#);
    reveal_strlit(r#"/image.png" width="10" height="10"/></svg>"#);
    lemma_utf8_at_least_one(url);
    lemma_utf8_at_least_one(sentinel);
    let l = external_list(url, sentinel);
    assert(l[0].bytes.len() < SPLIT);
    assert(l[1].bytes.len() < SPLIT);
    assert(l[2].bytes.len() < SPLIT);
    assert(l[3].bytes.len() < SPLIT);
    assert(l[4].bytes.len() < SPLIT);
    assert(l[5].bytes.len() < SPLIT);
    assert(l[6].bytes.len() < SPLIT);
    assert(l[7].bytes.len() < SPLIT);
}

proof fn lemma_expansions()
    ensures
        all_below(expansion_list()),
{
    broadcast use lemma_utf8_at_most_four;

    reveal(all_below);
    reveal_strlit(r#"<?xml version="1.0"?><!DOCTYPE svg [<!ENTITY l0 "aaaaaaaaaa">"#);
    reveal_strlit(r#"]><svg xmlns="http://www.w3.org/2000/svg" viewBox="0 0 10 10"><desc>&l9;</desc><rect width="10" height="10" fill="red"/></svg>"#);
    reveal_strlit(r#"<?xml version="1.0"?><!DOCTYPE svg [<!ENTITY big ""#);
    reveal_strlit("b");
    reveal_strlit(r#"">]><svg xmlns="http://www.w3.org/2000/svg" viewBox="0 0 10 10"><desc>"#);
    reveal_strlit("&big;");
    reveal_strlit(r#"</desc><rect width="10" height="10" fill="red"/></svg>"#);
    reveal_strlit(r#"<?xml version="1.0"?><!DOCTYPE svg [<!ENTITY a "&b;"><!ENTITY b "&a;">]><svg xmlns="http://www.w3.org/2000/svg" viewBox="0 0 10 10"><desc>&a;</desc></svg>"#);
    reveal_strlit(r#"<svg xmlns="http://www.w3.org/2000/svg" viewBox="0 0 10 10"><desc>&nope;</desc><rect width="10" height="10" fill="red"/></svg>"#);
    lemma_laughs(9);
    lemma_repeated("b"@, 50_000, 1);
    lemma_repeated("&big;"@, 2_000, 5);
    let l = expansion_list();
    assert(l[0].bytes.len() < SPLIT);
    assert(l[1].bytes.len() < SPLIT);
    assert(l[2].bytes.len() < SPLIT);
    assert(l[3].bytes.len() < SPLIT);
}

proof fn lemma_both(a: Seq<CaseView>, b: Seq<CaseView>)
    requires
        all_below(a),
        all_below(b),
    ensures
        all_below(a + b),
{
    reveal(all_below);
    assert forall|i: int| 0 <= i < (a + b).len() implies (#[trigger] (a + b)[i]).bytes.len()
        < SPLIT by {
        if i < a.len() {
            assert((a + b)[i] == a[i]);
        } else {
            assert((a + b)[i] == b[i - a.len()]);
        }
    }
}

proof fn lemma_structural()
    ensures
        all_below(structural_list()),
{
    lemma_documents();
    lemma_encodings();
    lemma_truncations();
    lemma_both(document_list(), encoding_list());
    lemma_both(document_list() + encoding_list(), truncation_list());
}

proof fn lemma_css()
    ensures
        all_below(css_list()),
{
    lemma_rules();
    lemma_important();
    lemma_at_rules();
    lemma_rule_scale();
    lemma_both(rule_list(), important_list());
    lemma_both(rule_list() + important_list(), at_rule_list());
    lemma_both(rule_list() + important_list() + at_rule_list(), rule_scale_list());
}

proof fn lemma_numeric()
    ensures
        all_below(numeric_list()),
{
    lemma_viewboxes();
    lemma_dimensions();
    lemma_buffers();
    lemma_coordinates();
    lemma_long_path();
    lemma_paths();
    lemma_fills();
    lemma_opacities();
    let a = viewbox_list() + dimension_list();
    let b = a + buffer_list();
    let c = b + coordinate_list();
    let d = c + seq![long_path()];
    let e = d + path_list();
    let f = e + fill_list();
    lemma_both(viewbox_list(), dimension_list());
    lemma_both(a, buffer_list());
    lemma_both(b, coordinate_list());
    lemma_both(c, seq![long_path()]);
    lemma_both(d, path_list());
    lemma_both(e, fill_list());
    lemma_both(f, opacity_list());
}

proof fn lemma_all(url: Seq<char>, sentinel: Seq<char>)
    requires
        encode_utf8(url).len() < PROBE_MAX,
        encode_utf8(sentinel).len() < PROBE_MAX,
    ensures
        all_below(all_list(url, sentinel)),
{
    lemma_valid();
    lemma_structural();
    lemma_xml_scale();
    lemma_css();
    lemma_numeric();
    lemma_external(url, sentinel);
    lemma_expansions();
    lemma_both(external_list(url, sentinel), expansion_list());
    let a = valid_list() + structural_list();
    let b = a + xml_scale_list();
    let c = b + css_list();
    let d = c + numeric_list();
    lemma_both(valid_list(), structural_list());
    lemma_both(a, xml_scale_list());
    lemma_both(b, css_list());
    lemma_both(c, numeric_list());
    lemma_both(d, entity_list(url, sentinel));
}

proof fn lemma_one_below(cases: Seq<CaseView>, i: int)
    requires
        all_below(cases),
        0 <= i < cases.len(),
    ensures
        cases[i].bytes.len() < SPLIT,
{
    reveal(all_below);
}

proof fn lemma_names_apart(
    a: Seq<CaseView>,
    between: Seq<CaseView>,
    b: Seq<CaseView>,
    i: int,
    j: int,
)
    requires
        distinct_names(a + between + b),
        0 <= i < a.len(),
        0 <= j < b.len(),
    ensures
        a[i].name != b[j].name,
{
    let all = a + between + b;
    assert(all[i] == a[i]);
    assert(all[a.len() + between.len() + j] == b[j]);
}

proof fn lemma_heavy(j: int)
    requires
        0 <= j < size_limit_list().len(),
    ensures
        size_limit_list().len() == 4,
        SPLIT <= size_limit_list()[j].bytes.len(),
{
    padded_sizes();
}

/// The heavy corpus holds the large documents and no others: every case of it is
/// larger than every case of the plain corpus, and is called otherwise. The line
/// between them is at 8 MiB, as long as the texts of the probe are below 1 MiB. Of
/// the heavy cases exactly those over the documented limit must be rejected.
pub proof fn the_heavy_cases_are_the_large_ones(
    url: Seq<char>,
    sentinel: Seq<char>,
    i: int,
    j: int,
)
    requires
        encode_utf8(url).len() < PROBE_MAX,
        encode_utf8(sentinel).len() < PROBE_MAX,
        0 <= i < all_list(url, sentinel).len(),
        0 <= j < size_limit_list().len(),
    ensures
        size_limit_list().len() == 4,
        all_list(url, sentinel)[i].bytes.len() < SPLIT <= size_limit_list()[j].bytes.len(),
        all_list(url, sentinel)[i].name != size_limit_list()[j].name,
        size_limit_list()[j].expect == Expect::RejectOrFallback <==> size_limit_list()[j].bytes.len()
            > MAX_INPUT,
{
    lemma_all(url, sentinel);
    lemma_one_below(all_list(url, sentinel), i);
    lemma_heavy(j);
    rejected_exactly_over_the_limit(j);
    let m: MembersView = arbitrary();
    every_case_has_its_own_name(url, sentinel, m);
    lemma_names_apart(all_list(url, sentinel), svgz_list(m), size_limit_list(), i, j);
}

} // verus!
