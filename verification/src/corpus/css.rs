//! Stylesheet torture.
//!
//! The provider extracts `<style>` content, strips `!important`, parses the rest
//! with a hand-written brace matcher and applies matching rules as inline
//! styles. That parser works through an explicit stack capped at 256 and a map
//! that avoids quadratic behaviour, so these cases aim straight at those limits
//! and at the states a hand-written matcher tends to get wrong.

use vstd::prelude::*;
use vstd::utf8::encode_utf8;
use crate::corpus::pieces::{count_run, counted};
use crate::corpus::{
    add_artwork, add_hostile, artwork, extend, hostile, lemma_spells, no_cases, spells, views, Case,
    CaseView, Expect,
};
use crate::numbers::{dec, decimal};
use crate::text::{copies_stand_side_by_side, five, repeat, repeated, three, two};

verus! {

/// The rectangle that most style cases apply to.
pub const RECT: &'static str = r#"<rect class="a" width="64" height="64"/>"#;

/// A document with one style element before `body`.
pub open spec fn styled(style: Seq<char>, body: Seq<char>) -> Seq<char> {
    r#"<svg xmlns="http://www.w3.org/2000/svg" viewBox="0 0 64 64"><style>"#@ + style + "</style>"@
        + body + "</svg>"@
}

pub fn styled_svg(style: &str, body: &str) -> (s: String)
    ensures
        s@ == styled(style@, body@),
{
    five(
        r#"<svg xmlns="http://www.w3.org/2000/svg" viewBox="0 0 64 64"><style>"#,
        style,
        "</style>",
        body,
        "</svg>",
    )
}

pub open spec fn rule_list() -> Seq<CaseView> {
    seq![
        artwork("css-basic-class"@, styled(".a{fill:#0a0}"@, RECT@)),
        artwork("css-element-selector"@, styled("rect{fill:#0a0}"@, r#"<rect width="64" height="64"/>"#@)),
        hostile("css-empty-style"@, styled(""@, RECT@)),
        hostile("css-only-comment"@, styled("/* nothing */"@, RECT@)),
        hostile("css-unmatched-open-brace"@, styled(".a{fill:#0a0"@, RECT@)),
        hostile("css-unmatched-close-brace"@, styled(".a}fill:#0a0}"@, RECT@)),
        hostile("css-only-braces"@, styled("{{{{{{{{"@, RECT@)),
        hostile("css-only-close-braces"@, styled("}}}}}}}}"@, RECT@)),
        hostile("css-unterminated-comment"@, styled(".a{fill:#0a0} /* never closed"@, RECT@)),
        hostile("css-unterminated-string"@, styled(r#".a{content:"unterminated; fill:#0a0}"#@, RECT@)),
        hostile("css-brace-inside-string"@, styled(r#".a{content:"}"; fill:#0a0}"#@, RECT@)),
        hostile("css-escaped-quote"@, styled(r#".a{content:"\""; fill:#0a0}"#@, RECT@)),
        hostile("css-trailing-backslash"@, styled(r".a{fill:#0a0}\"@, RECT@)),
        hostile("css-empty-selector-list"@, styled(",,,,{fill:#0a0}"@, RECT@)),
        hostile("css-empty-rule-body"@, styled(".a{}"@, RECT@)),
        hostile("css-semicolon-spam"@, styled(".a{;;;;fill:#0a0;;;;}"@, RECT@)),
        hostile("css-no-semicolons"@, styled(".a{fill:#0a0}"@, RECT@)),
        hostile("css-at-rule-bare"@, styled("@charset \"utf-8\";.a{fill:#0a0}"@, RECT@)),
        hostile("css-nul-in-style"@, styled(".a{fill:#0a0}\u{0}"@, RECT@)),
        hostile("css-unicode-selector"@, styled(".\u{e9}{fill:#0a0}.a{fill:#00a}"@, RECT@)),
    ]
}

fn rule_cases() -> (v: Vec<Case>)
    ensures
        views(v@) == rule_list(),
{
    let mut v: Vec<Case> = no_cases();
    add_artwork(&mut v, "css-basic-class", styled_svg(".a{fill:#0a0}", RECT).as_str());
    add_artwork(&mut v, "css-element-selector", styled_svg("rect{fill:#0a0}", r#"<rect width="64" height="64"/>"#).as_str());
    add_hostile(&mut v, "css-empty-style", styled_svg("", RECT).as_str());
    add_hostile(&mut v, "css-only-comment", styled_svg("/* nothing */", RECT).as_str());
    add_hostile(&mut v, "css-unmatched-open-brace", styled_svg(".a{fill:#0a0", RECT).as_str());
    add_hostile(&mut v, "css-unmatched-close-brace", styled_svg(".a}fill:#0a0}", RECT).as_str());
    add_hostile(&mut v, "css-only-braces", styled_svg("{{{{{{{{", RECT).as_str());
    add_hostile(&mut v, "css-only-close-braces", styled_svg("}}}}}}}}", RECT).as_str());
    add_hostile(&mut v, "css-unterminated-comment", styled_svg(".a{fill:#0a0} /* never closed", RECT).as_str());
    add_hostile(&mut v, "css-unterminated-string", styled_svg(r#".a{content:"unterminated; fill:#0a0}"#, RECT).as_str());
    add_hostile(&mut v, "css-brace-inside-string", styled_svg(r#".a{content:"}"; fill:#0a0}"#, RECT).as_str());
    add_hostile(&mut v, "css-escaped-quote", styled_svg(r#".a{content:"\""; fill:#0a0}"#, RECT).as_str());
    add_hostile(&mut v, "css-trailing-backslash", styled_svg(r".a{fill:#0a0}\", RECT).as_str());
    add_hostile(&mut v, "css-empty-selector-list", styled_svg(",,,,{fill:#0a0}", RECT).as_str());
    add_hostile(&mut v, "css-empty-rule-body", styled_svg(".a{}", RECT).as_str());
    add_hostile(&mut v, "css-semicolon-spam", styled_svg(".a{;;;;fill:#0a0;;;;}", RECT).as_str());
    add_hostile(&mut v, "css-no-semicolons", styled_svg(".a{fill:#0a0}", RECT).as_str());
    add_hostile(&mut v, "css-at-rule-bare", styled_svg("@charset \"utf-8\";.a{fill:#0a0}", RECT).as_str());
    add_hostile(&mut v, "css-nul-in-style", styled_svg(".a{fill:#0a0}\u{0}", RECT).as_str());
    add_hostile(&mut v, "css-unicode-selector", styled_svg(".\u{e9}{fill:#0a0}.a{fill:#00a}", RECT).as_str());
    v
}

// `!important` in every casing, in a rule and inline. The provider looks for the
// token without regard to case but strips it with regard to case, which is
// exactly the kind of asymmetry worth pinning.

pub open spec fn important(tag: Seq<char>, token: Seq<char>) -> CaseView {
    hostile("css-important-"@ + tag, styled(".a{fill:#0a0 "@ + token + "}"@, RECT@))
}

pub open spec fn important_inline(tag: Seq<char>, token: Seq<char>) -> CaseView {
    hostile(
        "css-important-inline-"@ + tag,
        r#"<svg xmlns="http://www.w3.org/2000/svg" viewBox="0 0 64 64"><rect width="64" height="64" style="fill:#0a0 "#@
            + token + r#""/></svg>"#@,
    )
}

fn add_important(v: &mut Vec<Case>, tag: &str, token: &str)
    ensures
        views(final(v)@) == views(old(v)@).push(important(tag@, token@)).push(
            important_inline(tag@, token@),
        ),
{
    let rule: String = three(".a{fill:#0a0 ", token, "}");
    add_hostile(v, two("css-important-", tag).as_str(), styled_svg(rule.as_str(), RECT).as_str());
    let inline: String = three(
        r#"<svg xmlns="http://www.w3.org/2000/svg" viewBox="0 0 64 64"><rect width="64" height="64" style="fill:#0a0 "#,
        token,
        r#""/></svg>"#,
    );
    add_hostile(v, two("css-important-inline-", tag).as_str(), inline.as_str());
}

pub open spec fn important_list() -> Seq<CaseView> {
    seq![
        important("lower"@, "!important"@),
        important_inline("lower"@, "!important"@),
        important("upper"@, "!IMPORTANT"@),
        important_inline("upper"@, "!IMPORTANT"@),
        important("mixed"@, "!ImPoRtAnT"@),
        important_inline("mixed"@, "!ImPoRtAnT"@),
        important("spaced"@, "! important"@),
        important_inline("spaced"@, "! important"@),
    ]
}

fn important_cases() -> (v: Vec<Case>)
    ensures
        views(v@) == important_list(),
{
    let mut v: Vec<Case> = no_cases();
    add_important(&mut v, "lower", "!important");
    add_important(&mut v, "upper", "!IMPORTANT");
    add_important(&mut v, "mixed", "!ImPoRtAnT");
    add_important(&mut v, "spaced", "! important");
    v
}

/// At-rules nested `depth` deep, right around the parser's cap.
pub open spec fn at_rule_nested(depth: nat) -> CaseView {
    hostile(
        "css-at-rule-nested-"@ + dec(depth),
        styled(
            repeated("@media screen{"@, depth) + ".a{fill:#0a0}"@ + repeated("}"@, depth),
            RECT@,
        ),
    )
}

fn add_at_rule_nested(v: &mut Vec<Case>, depth: usize)
    ensures
        views(final(v)@) == views(old(v)@).push(at_rule_nested(depth as nat)),
{
    let name: String = two("css-at-rule-nested-", decimal(depth as u64).as_str());
    let css: String = three(
        repeat("@media screen{", depth).as_str(),
        ".a{fill:#0a0}",
        repeat("}", depth).as_str(),
    );
    add_hostile(v, name.as_str(), styled_svg(css.as_str(), RECT).as_str());
}

/// `n` at-rules side by side: the shape that lands on the work stack all at
/// once.
pub open spec fn at_rule_siblings(n: nat) -> CaseView {
    hostile(
        "css-at-rule-siblings-"@ + dec(n),
        styled(repeated("@media screen{.a{fill:#0a0}}"@, n), RECT@),
    )
}

fn add_at_rule_siblings(v: &mut Vec<Case>, n: usize)
    ensures
        views(final(v)@) == views(old(v)@).push(at_rule_siblings(n as nat)),
{
    let name: String = two("css-at-rule-siblings-", decimal(n as u64).as_str());
    let css: String = repeat("@media screen{.a{fill:#0a0}}", n);
    add_hostile(v, name.as_str(), styled_svg(css.as_str(), RECT).as_str());
}

pub open spec fn at_rule_list() -> Seq<CaseView> {
    seq![
        at_rule_nested(1),
        at_rule_nested(255),
        at_rule_nested(256),
        at_rule_nested(257),
        at_rule_nested(1_000),
        at_rule_siblings(255),
        at_rule_siblings(256),
        at_rule_siblings(257),
        at_rule_siblings(2_000),
        hostile("css-at-rule-unclosed"@, styled(repeated("@media screen{"@, 300), RECT@)),
    ]
}

fn at_rule_cases() -> (v: Vec<Case>)
    ensures
        views(v@) == at_rule_list(),
{
    let mut v: Vec<Case> = no_cases();
    add_at_rule_nested(&mut v, 1);
    add_at_rule_nested(&mut v, 255);
    add_at_rule_nested(&mut v, 256);
    add_at_rule_nested(&mut v, 257);
    add_at_rule_nested(&mut v, 1_000);
    add_at_rule_siblings(&mut v, 255);
    add_at_rule_siblings(&mut v, 256);
    add_at_rule_siblings(&mut v, 257);
    add_at_rule_siblings(&mut v, 2_000);
    add_hostile(
        &mut v,
        "css-at-rule-unclosed",
        styled_svg(repeat("@media screen{", 300).as_str(), RECT).as_str(),
    );
    v
}

pub open spec fn rule_scale_list() -> Seq<CaseView> {
    seq![
        hostile(
            "css-20k-distinct-rules"@,
            styled(counted(20_000, ".c"@, "{fill:#000}"@), RECT@),
        ),
        hostile("css-20k-duplicate-rules"@, styled(repeated(".a{fill:#000}"@, 20_000), RECT@)),
        // The property block is normalised once per selector, so a long selector
        // list is the worst-case output amplification.
        hostile(
            "css-5k-selector-list"@,
            styled(
                counted(5_000, ".s"@, ","@) + ".a{"@ + repeated(
                    "fill:#000000;stroke:#ffffff;"@,
                    20,
                ) + "}"@,
                RECT@,
            ),
        ),
        // Many style elements rather than one big one.
        hostile(
            "css-2k-style-elements"@,
            r#"<svg xmlns="http://www.w3.org/2000/svg" viewBox="0 0 64 64">"#@ + (counted(
                2_000,
                "<style>.c"@,
                "{fill:#111}</style>"@,
            ) + RECT@) + "</svg>"@,
        ),
        // Style content wrapped in CDATA, as many authoring tools emit it.
        hostile(
            "css-in-cdata"@,
            r#"<svg xmlns="http://www.w3.org/2000/svg" viewBox="0 0 64 64"><style><![CDATA[.a{fill:#0a0}]]></style>"#@
                + RECT@ + "</svg>"@,
        ),
        // Inline style must win over a class rule.
        artwork(
            "css-inline-overrides-class"@,
            r#"<svg xmlns="http://www.w3.org/2000/svg" viewBox="0 0 64 64"><style>.a{fill:#ff0000}</style><rect class="a" width="64" height="64" style="fill:#00ff00"/></svg>"#@,
        ),
    ]
}

fn rule_scale_cases() -> (v: Vec<Case>)
    ensures
        views(v@) == rule_scale_list(),
{
    let mut v: Vec<Case> = no_cases();
    let distinct: String = count_run(20_000, ".c", "{fill:#000}");
    add_hostile(&mut v, "css-20k-distinct-rules", styled_svg(distinct.as_str(), RECT).as_str());
    let duplicated: String = repeat(".a{fill:#000}", 20_000);
    add_hostile(&mut v, "css-20k-duplicate-rules", styled_svg(duplicated.as_str(), RECT).as_str());

    let mut listed: String = count_run(5_000, ".s", ",");
    listed.append(".a{");
    listed.append(repeat("fill:#000000;stroke:#ffffff;", 20).as_str());
    listed.append("}");
    add_hostile(&mut v, "css-5k-selector-list", styled_svg(listed.as_str(), RECT).as_str());

    let mut many: String = count_run(2_000, "<style>.c", "{fill:#111}</style>");
    many.append(RECT);
    add_hostile(
        &mut v,
        "css-2k-style-elements",
        three(
            r#"<svg xmlns="http://www.w3.org/2000/svg" viewBox="0 0 64 64">"#,
            many.as_str(),
            "</svg>",
        ).as_str(),
    );
    add_hostile(
        &mut v,
        "css-in-cdata",
        three(
            r#"<svg xmlns="http://www.w3.org/2000/svg" viewBox="0 0 64 64"><style><![CDATA[.a{fill:#0a0}]]></style>"#,
            RECT,
            "</svg>",
        ).as_str(),
    );
    add_artwork(
        &mut v,
        "css-inline-overrides-class",
        r#"<svg xmlns="http://www.w3.org/2000/svg" viewBox="0 0 64 64"><style>.a{fill:#ff0000}</style><rect class="a" width="64" height="64" style="fill:#00ff00"/></svg>"#,
    );
    v
}

pub open spec fn css_list() -> Seq<CaseView> {
    rule_list() + important_list() + at_rule_list() + rule_scale_list()
}

pub fn css_cases() -> (v: Vec<Case>)
    ensures
        views(v@) == css_list(),
{
    let mut v: Vec<Case> = rule_cases();
    extend(&mut v, important_cases());
    extend(&mut v, at_rule_cases());
    extend(&mut v, rule_scale_cases());
    v
}

/// At-rules nested `depth` deep open as often as they close, once for each level, around
/// one rule; side by side each is complete.
pub proof fn at_rules_are_as_many_as_asked(n: nat)
    ensures
        spells(
            at_rule_nested(n),
            repeated("@media screen{"@, n) + ".a{fill:#0a0}"@ + repeated("}"@, n),
        ),
        repeated("@media screen{"@, n).len() == 14 * n,
        repeated("}"@, n).len() == n,
        spells(at_rule_siblings(n), repeated("@media screen{.a{fill:#0a0}}"@, n)),
        repeated("@media screen{.a{fill:#0a0}}"@, n).len() == 28 * n,
        at_rule_nested(n).expect == Expect::Survive,
        at_rule_siblings(n).expect == Expect::Survive,
{
    reveal_strlit("@media screen{");
    reveal_strlit("}");
    reveal_strlit("@media screen{.a{fill:#0a0}}");
    copies_stand_side_by_side("@media screen{"@, n, 0);
    copies_stand_side_by_side("}"@, n, 0);
    copies_stand_side_by_side("@media screen{.a{fill:#0a0}}"@, n, 0);
    lemma_style_spells(
        at_rule_nested(n),
        repeated("@media screen{"@, n) + ".a{fill:#0a0}"@ + repeated("}"@, n),
    );
    lemma_style_spells(at_rule_siblings(n), repeated("@media screen{.a{fill:#0a0}}"@, n));
}

proof fn lemma_style_spells(c: CaseView, style: Seq<char>)
    requires
        c.bytes == encode_utf8(styled(style, RECT@)),
    ensures
        spells(c, style),
{
    let head = r#"<svg xmlns="http://www.w3.org/2000/svg" viewBox="0 0 64 64"><style>"#@;
    let tail = "</style>"@ + RECT@ + "</svg>"@;
    assert(head + style + tail =~= styled(style, RECT@));
    lemma_spells(c, head, style, tail);
}

/// Nested and side by side, at-rules are tried on both sides of the parser's cap of 256
/// and far beyond it.
pub proof fn both_sides_of_the_cap_are_tried()
    ensures
        at_rule_list().contains(at_rule_nested(255)),
        at_rule_list().contains(at_rule_nested(256)),
        at_rule_list().contains(at_rule_nested(257)),
        at_rule_list().contains(at_rule_siblings(255)),
        at_rule_list().contains(at_rule_siblings(256)),
        at_rule_list().contains(at_rule_siblings(257)),
        at_rule_list().contains(at_rule_nested(1_000)),
        at_rule_list().contains(at_rule_siblings(2_000)),
{
    let l = at_rule_list();
    assert(l[1] == at_rule_nested(255) && l[2] == at_rule_nested(256) && l[3] == at_rule_nested(257)
        && l[4] == at_rule_nested(1_000) && l[5] == at_rule_siblings(255) && l[6]
        == at_rule_siblings(256) && l[7] == at_rule_siblings(257) && l[8] == at_rule_siblings(
        2_000,
    ));
}

/// The priority keyword is tried in a rule and inline, in lower case, in upper case,
/// mixed, and with a space; each case spells its own.
pub proof fn the_keyword_is_tried_both_ways(tag: Seq<char>, token: Seq<char>)
    ensures
        spells(important(tag, token), token),
        spells(important_inline(tag, token), token),
        important(tag, token).expect == Expect::Survive,
        important_inline(tag, token).expect == Expect::Survive,
        important_list().contains(important("lower"@, "!important"@)),
        important_list().contains(important_inline("lower"@, "!important"@)),
        important_list().contains(important("upper"@, "!IMPORTANT"@)),
        important_list().contains(important_inline("upper"@, "!IMPORTANT"@)),
        important_list().contains(important("mixed"@, "!ImPoRtAnT"@)),
        important_list().contains(important_inline("mixed"@, "!ImPoRtAnT"@)),
        important_list().contains(important("spaced"@, "! important"@)),
        important_list().contains(important_inline("spaced"@, "! important"@)),
{
    let head = r#"<svg xmlns="http://www.w3.org/2000/svg" viewBox="0 0 64 64"><style>"#@;
    let tail = "</style>"@ + RECT@ + "</svg>"@;
    let style = ".a{fill:#0a0 "@ + token + "}"@;
    assert(head + ".a{fill:#0a0 "@ + token + ("}"@ + tail) =~= styled(style, RECT@));
    lemma_spells(important(tag, token), head + ".a{fill:#0a0 "@, token, "}"@ + tail);
    lemma_spells(
        important_inline(tag, token),
        r#"<svg xmlns="http://www.w3.org/2000/svg" viewBox="0 0 64 64"><rect width="64" height="64" style="fill:#0a0 "#@,
        token,
        r#""/></svg>"#@,
    );
    let l = important_list();
    assert(l[0] == important("lower"@, "!important"@));
    assert(l[1] == important_inline("lower"@, "!important"@));
    assert(l[2] == important("upper"@, "!IMPORTANT"@));
    assert(l[3] == important_inline("upper"@, "!IMPORTANT"@));
    assert(l[4] == important("mixed"@, "!ImPoRtAnT"@));
    assert(l[5] == important_inline("mixed"@, "!ImPoRtAnT"@));
    assert(l[6] == important("spaced"@, "! important"@));
    assert(l[7] == important_inline("spaced"@, "! important"@));
}

/// What must render among the style cases: the two plain selectors and the inline style
/// that beats a rule. Every other one has merely to be survived.
pub proof fn sound_style_sheets_must_render(i: int)
    ensures
        0 <= i < rule_list().len() ==> rule_list()[i].expect == (if i < 2 {
            Expect::RealRender
        } else {
            Expect::Survive
        }),
        0 <= i < at_rule_list().len() ==> at_rule_list()[i].expect == Expect::Survive,
        0 <= i < rule_scale_list().len() ==> rule_scale_list()[i].expect == (if i == 5 {
            Expect::RealRender
        } else {
            Expect::Survive
        }),
        rule_list()[0].name == "css-basic-class"@,
        rule_list()[1].name == "css-element-selector"@,
        rule_scale_list()[5].name == "css-inline-overrides-class"@,
{
}

} // verus!
