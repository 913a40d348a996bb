//! XML shape and scale.

use vstd::prelude::*;
use crate::corpus::pieces::{count_run, count_run_twice, counted, counted_twice};
use crate::corpus::{
    add_hostile, hostile, lemma_spells, no_cases, spells, views, Case, CaseView, Expect,
};
use crate::numbers::{dec, decimal};
use crate::text::{
    copies_stand_side_by_side, lemma_occurs_between, occurs, occurs_at, repeat, repeated, three, two,
};

verus! {

/// A document of groups nested `depth` deep around one rectangle.
pub open spec fn nested_svg(depth: nat) -> Seq<char> {
    r#"<svg xmlns="http://www.w3.org/2000/svg" viewBox="0 0 64 64">"#@ + repeated("<g>"@, depth)
        + r##"<rect width="64" height="64" fill="#0a0"/>"##@ + repeated("</g>"@, depth) + "</svg>"@
}

pub fn nested_document(depth: usize) -> (s: String)
    ensures
        s@ == nested_svg(depth as nat),
{
    let mut s: String = r#"<svg xmlns="http://www.w3.org/2000/svg" viewBox="0 0 64 64">"#.to_owned();
    s.append(repeat("<g>", depth).as_str());
    s.append(r##"<rect width="64" height="64" fill="#0a0"/>"##);
    s.append(repeat("</g>", depth).as_str());
    s.append("</svg>");
    s
}

/// Deep element nesting costs both parse and traversal.
pub open spec fn deep_nesting(depth: nat) -> CaseView {
    hostile("deep-nesting-"@ + dec(depth), nested_svg(depth))
}

fn add_deep_nesting(v: &mut Vec<Case>, depth: usize)
    ensures
        views(final(v)@) == views(old(v)@).push(deep_nesting(depth as nat)),
{
    let name: String = two("deep-nesting-", decimal(depth as u64).as_str());
    add_hostile(v, name.as_str(), nested_document(depth).as_str());
}

/// An enormous single attribute value.
pub open spec fn huge_attribute(kb: nat) -> CaseView {
    hostile(
        "huge-attribute-"@ + dec(kb) + "kb"@,
        r#"<svg xmlns="http://www.w3.org/2000/svg" viewBox="0 0 10 10" data-x=""#@ + repeated(
            "a"@,
            kb * 1024,
        ) + r#""><rect width="10" height="10" fill="red"/></svg>"#@,
    )
}

fn add_huge_attribute(v: &mut Vec<Case>, kb: usize)
    requires
        kb <= 1024,
    ensures
        views(final(v)@) == views(old(v)@).push(huge_attribute(kb as nat)),
{
    let name: String = three("huge-attribute-", decimal(kb as u64).as_str(), "kb");
    let text: String = three(
        r#"<svg xmlns="http://www.w3.org/2000/svg" viewBox="0 0 10 10" data-x=""#,
        repeat("a", kb * 1024).as_str(),
        r#""><rect width="10" height="10" fill="red"/></svg>"#,
    );
    add_hostile(v, name.as_str(), text.as_str());
}

/// `n` one-pixel rectangles, laid out in rows of 64.
pub open spec fn rectangles(n: nat) -> Seq<char>
    decreases n,
{
    if n == 0 {
        Seq::empty()
    } else {
        let i = (n - 1) as nat;
        rectangles(i) + r#"<rect x=""#@ + dec(i % 64) + r#"" y=""#@ + dec((i / 64) % 64)
            + r##"" width="1" height="1" fill="#00f"/>"##@
    }
}

fn rectangle_run(n: usize) -> (s: String)
    ensures
        s@ == rectangles(n as nat),
{
    let mut s: String = String::new();
    let mut i: usize = 0;
    while i < n
        invariant
            i <= n,
            s@ == rectangles(i as nat),
        decreases n - i,
    {
        s.append(r#"<rect x=""#);
        s.append(decimal((i % 64) as u64).as_str());
        s.append(r#"" y=""#);
        s.append(decimal(((i / 64) % 64) as u64).as_str());
        s.append(r##"" width="1" height="1" fill="#00f"/>"##);
        i += 1;
    }
    s
}

/// Very many sibling elements, the realistic shape of a huge icon.
pub open spec fn siblings(n: nat) -> CaseView {
    hostile(
        dec(n) + "-sibling-elements"@,
        r#"<svg xmlns="http://www.w3.org/2000/svg" viewBox="0 0 64 64">"#@ + rectangles(n)
            + "</svg>"@,
    )
}

fn add_siblings(v: &mut Vec<Case>, n: usize)
    ensures
        views(final(v)@) == views(old(v)@).push(siblings(n as nat)),
{
    let name: String = two(decimal(n as u64).as_str(), "-sibling-elements");
    let text: String = three(
        r#"<svg xmlns="http://www.w3.org/2000/svg" viewBox="0 0 64 64">"#,
        rectangle_run(n).as_str(),
        "</svg>",
    );
    add_hostile(v, name.as_str(), text.as_str());
}

pub open spec fn xml_scale_list() -> Seq<CaseView> {
    seq![
        deep_nesting(64),
        deep_nesting(512),
        deep_nesting(5_000),
        deep_nesting(50_000),
        // Opens without closes.
        hostile(
            "deep-nesting-unclosed"@,
            r#"<svg xmlns="http://www.w3.org/2000/svg">"#@ + repeated("<g>"@, 10_000),
        ),
        huge_attribute(64),
        huge_attribute(1024),
        // Very many attributes on one element.
        hostile(
            "20k-attributes-on-one-element"@,
            r#"<svg xmlns="http://www.w3.org/2000/svg" viewBox="0 0 10 10"><rect"#@ + counted_twice(
                20_000,
                " data-a"@,
                r#"=""#@,
                r#"""#@,
            ) + r#" width="10" height="10" fill="red"/></svg>"#@,
        ),
        siblings(1_000),
        siblings(50_000),
        // Hundreds of namespace declarations, each of which the parser must track.
        hostile(
            "500-namespace-declarations"@,
            r#"<svg xmlns="http://www.w3.org/2000/svg""#@ + counted_twice(
                500,
                " xmlns:n"@,
                r#"="urn:test:"#@,
                r#"""#@,
            ) + r#" viewBox="0 0 10 10"><rect width="10" height="10" fill="red"/></svg>"#@,
        ),
        // The provider strips prefixes when matching element selectors.
        hostile(
            "prefixed-svg-elements"@,
            r##"<s:svg xmlns:s="http://www.w3.org/2000/svg" viewBox="0 0 10 10"><s:rect width="10" height="10" fill="#0f0"/></s:svg>"##@,
        ),
        // Thousands of classes on a single element.
        hostile(
            "5k-classes-on-one-element"@,
            r#"<svg xmlns="http://www.w3.org/2000/svg" viewBox="0 0 10 10"><style>.c0{fill:red}</style><rect class=""#@
                + counted(5_000, "c"@, " "@) + r#"" width="10" height="10"/></svg>"#@,
        ),
        // Self-referential <use>, the classic SVG recursion bomb.
        hostile(
            "recursive-use"@,
            r##"<svg xmlns="http://www.w3.org/2000/svg" xmlns:xlink="http://www.w3.org/1999/xlink" viewBox="0 0 10 10"><g id="a"><use xlink:href="#a"/></g><use xlink:href="#a"/></svg>"##@,
        ),
        hostile(
            "mutually-recursive-use"@,
            r##"<svg xmlns="http://www.w3.org/2000/svg" xmlns:xlink="http://www.w3.org/1999/xlink" viewBox="0 0 10 10"><g id="a"><use xlink:href="#b"/></g><g id="b"><use xlink:href="#a"/></g><use xlink:href="#a"/></svg>"##@,
        ),
    ]
}

pub fn xml_scale_cases() -> (v: Vec<Case>)
    ensures
        views(v@) == xml_scale_list(),
{
    let mut v: Vec<Case> = no_cases();
    add_deep_nesting(&mut v, 64);
    add_deep_nesting(&mut v, 512);
    add_deep_nesting(&mut v, 5_000);
    add_deep_nesting(&mut v, 50_000);
    add_hostile(
        &mut v,
        "deep-nesting-unclosed",
        two(
            r#"<svg xmlns="http://www.w3.org/2000/svg">"#,
            repeat("<g>", 10_000).as_str(),
        ).as_str(),
    );
    add_huge_attribute(&mut v, 64);
    add_huge_attribute(&mut v, 1024);
    add_hostile(
        &mut v,
        "20k-attributes-on-one-element",
        three(
            r#"<svg xmlns="http://www.w3.org/2000/svg" viewBox="0 0 10 10"><rect"#,
            count_run_twice(20_000, " data-a", r#"=""#, r#"""#).as_str(),
            r#" width="10" height="10" fill="red"/></svg>"#,
        ).as_str(),
    );
    add_siblings(&mut v, 1_000);
    add_siblings(&mut v, 50_000);
    add_hostile(
        &mut v,
        "500-namespace-declarations",
        three(
            r#"<svg xmlns="http://www.w3.org/2000/svg""#,
            count_run_twice(500, " xmlns:n", r#"="urn:test:"#, r#"""#).as_str(),
            r#" viewBox="0 0 10 10"><rect width="10" height="10" fill="red"/></svg>"#,
        ).as_str(),
    );
    add_hostile(
        &mut v,
        "prefixed-svg-elements",
        r##"<s:svg xmlns:s="http://www.w3.org/2000/svg" viewBox="0 0 10 10"><s:rect width="10" height="10" fill="#0f0"/></s:svg>"##,
    );
    add_hostile(
        &mut v,
        "5k-classes-on-one-element",
        three(
            r#"<svg xmlns="http://www.w3.org/2000/svg" viewBox="0 0 10 10"><style>.c0{fill:red}</style><rect class=""#,
            count_run(5_000, "c", " ").as_str(),
            r#"" width="10" height="10"/></svg>"#,
        ).as_str(),
    );
    add_hostile(
        &mut v,
        "recursive-use",
        r##"<svg xmlns="http://www.w3.org/2000/svg" xmlns:xlink="http://www.w3.org/1999/xlink" viewBox="0 0 10 10"><g id="a"><use xlink:href="#a"/></g><use xlink:href="#a"/></svg>"##,
    );
    add_hostile(
        &mut v,
        "mutually-recursive-use",
        r##"<svg xmlns="http://www.w3.org/2000/svg" xmlns:xlink="http://www.w3.org/1999/xlink" viewBox="0 0 10 10"><g id="a"><use xlink:href="#b"/></g><g id="b"><use xlink:href="#a"/></g><use xlink:href="#a"/></svg>"##,
    );
    v
}

/// Groups nested `depth` deep: as many opening tags before the rectangle as closing ones
/// after it, one of each for every level, and nothing else inside the document.
pub proof fn nesting_is_as_deep_as_asked(depth: nat)
    ensures
        occurs(
            repeated("<g>"@, depth) + r##"<rect width="64" height="64" fill="#0a0"/>"##@ + repeated(
                "</g>"@,
                depth,
            ),
            nested_svg(depth),
        ),
        repeated("<g>"@, depth).len() == 3 * depth,
        repeated("</g>"@, depth).len() == 4 * depth,
        forall|k: nat|
            k < depth ==> occurs_at("<g>"@, repeated("<g>"@, depth), #[trigger] times(k, 3))
                && occurs_at("</g>"@, repeated("</g>"@, depth), times(k, 4)),
        nested_svg(depth).len() == nested_svg(0).len() + 7 * depth,
        spells(deep_nesting(depth), repeated("<g>"@, depth)),
        spells(deep_nesting(depth), repeated("</g>"@, depth)),
        deep_nesting(depth).expect == Expect::Survive,
{
    reveal_strlit("<g>");
    reveal_strlit("</g>");
    let head = r#"<svg xmlns="http://www.w3.org/2000/svg" viewBox="0 0 64 64">"#@;
    let rect = r##"<rect width="64" height="64" fill="#0a0"/>"##@;
    let tail = "</svg>"@;
    let opens = repeated("<g>"@, depth);
    let closes = repeated("</g>"@, depth);
    lemma_occurs_between(head, opens + rect + closes, tail);
    assert(head + (opens + rect + closes) + tail =~= nested_svg(depth));
    copies_stand_side_by_side("<g>"@, depth, 0);
    copies_stand_side_by_side("</g>"@, depth, 0);
    copies_stand_side_by_side("<g>"@, 0, 0);
    copies_stand_side_by_side("</g>"@, 0, 0);
    assert forall|k: nat| k < depth implies occurs_at(
        "<g>"@,
        opens,
        #[trigger] times(k, 3),
    ) && occurs_at("</g>"@, closes, times(k, 4)) by {
        copies_stand_side_by_side("<g>"@, depth, k);
        copies_stand_side_by_side("</g>"@, depth, k);
    }
    assert(head + opens + (rect + closes + tail) =~= nested_svg(depth));
    lemma_spells(deep_nesting(depth), head, opens, rect + closes + tail);
    lemma_spells(deep_nesting(depth), head + opens + rect, closes, tail);
}

/// A product.
pub open spec fn times(k: nat, n: nat) -> int {
    (k * n) as int
}

/// An attribute that is asked for in KiB has that many times 1024 characters.
pub proof fn attributes_are_as_long_as_asked(kb: nat)
    ensures
        spells(huge_attribute(kb), r#" data-x=""#@ + repeated("a"@, kb * 1024) + r#"""#@),
        repeated("a"@, kb * 1024).len() == 1024 * kb,
        huge_attribute(kb).expect == Expect::Survive,
{
    reveal_strlit("a");
    reveal_strlit(r#"<svg xmlns="http://www.w3.org/2000/svg" viewBox="0 0 10 10" data-x=""#);
    reveal_strlit(r#" data-x=""#);
    reveal_strlit(r#""><rect width="10" height="10" fill="red"/></svg>"#);
    reveal_strlit(r#"""#);
    copies_stand_side_by_side("a"@, kb * 1024, 0);
    let head = r#"<svg xmlns="http://www.w3.org/2000/svg" viewBox="0 0 10 10" data-x=""#@;
    let tail = r#""><rect width="10" height="10" fill="red"/></svg>"#@;
    let value = repeated("a"@, kb * 1024);
    let cut: int = head.len() - 9;
    assert(head =~= head.take(cut) + r#" data-x=""#@);
    assert(tail =~= r#"""#@ + tail.skip(1));
    let part = r#" data-x=""#@ + value + r#"""#@;
    assert(head.take(cut) + part + tail.skip(1) =~= head + value + tail);
    lemma_spells(huge_attribute(kb), head.take(cut), part, tail.skip(1));
}

/// The markup of the rectangle in column `x` of row `y`.
pub open spec fn rectangle_at(x: nat, y: nat) -> Seq<char> {
    r#"<rect x=""#@ + dec(x) + r#"" y=""#@ + dec(y) + r##"" width="1" height="1" fill="#00f"/>"##@
}

/// Every rectangle of the run has its place, in rows of 64 from the top left, one after
/// the other; after 64 rows they begin again at the top.
pub proof fn rectangles_fill_rows(n: nat, k: nat)
    requires
        k < n,
    ensures
        occurs_at(rectangle_at(k % 64, (k / 64) % 64), rectangles(n), rectangles(k).len() as int),
        rectangles(0).len() == 0,
        rectangles(k + 1).len() == rectangles(k).len() + rectangle_at(k % 64, (k / 64) % 64).len(),
        spells(siblings(n), rectangles(n)),
        siblings(n).expect == Expect::Survive,
    decreases n,
{
    let before = rectangles((n - 1) as nat);
    let whole = rectangles(n);
    let piece = rectangle_at(k % 64, (k / 64) % 64);
    assert(rectangles(k + 1) =~= rectangles(k) + piece);
    if k + 1 < n {
        rectangles_fill_rows((n - 1) as nat, k);
        let i: int = rectangles(k).len() as int;
        assert(whole.subrange(i, i + piece.len()) =~= before.subrange(i, i + piece.len()));
    } else {
        let i: int = before.len() as int;
        assert(whole.subrange(i, i + piece.len()) =~= piece);
    }
    lemma_spells(
        siblings(n),
        r#"<svg xmlns="http://www.w3.org/2000/svg" viewBox="0 0 64 64">"#@,
        rectangles(n),
        "</svg>"@,
    );
}

/// None of these documents has to render; all of them have to be survived.
pub proof fn large_documents_must_be_survived(i: int)
    requires
        0 <= i < xml_scale_list().len(),
    ensures
        xml_scale_list()[i].expect == Expect::Survive,
        xml_scale_list().len() == 15,
{
}

/// How large the documents get: nesting over three orders of magnitude, attributes of 64
/// KiB and of one MiB, and up to fifty thousand siblings.
pub proof fn documents_get_as_large_as_they_should()
    ensures
        xml_scale_list().contains(deep_nesting(64)),
        xml_scale_list().contains(deep_nesting(512)),
        xml_scale_list().contains(deep_nesting(5_000)),
        xml_scale_list().contains(deep_nesting(50_000)),
        xml_scale_list().contains(huge_attribute(64)),
        xml_scale_list().contains(huge_attribute(1024)),
        xml_scale_list().contains(siblings(1_000)),
        xml_scale_list().contains(siblings(50_000)),
{
    let l = xml_scale_list();
    assert(l[0] == deep_nesting(64));
    assert(l[1] == deep_nesting(512));
    assert(l[2] == deep_nesting(5_000));
    assert(l[3] == deep_nesting(50_000));
    assert(l[5] == huge_attribute(64));
    assert(l[6] == huge_attribute(1024));
    assert(l[8] == siblings(1_000));
    assert(l[9] == siblings(50_000));
}

} // verus!
