//! Numeric extremes.

use vstd::prelude::*;
use vstd::utf8::encode_utf8;
use crate::corpus::{
    add_hostile, extend, hostile, lemma_spells, no_cases, spells, views, Case, CaseView, Expect,
};
use crate::numbers::{dec, decimal, lemma_dec_digits};
use crate::text::{
    copies_stand_side_by_side, five, join, joined, occurs_at, repeat, repeated, texts, three, two,
};

verus! {

/// A viewBox that is degenerate, inverted, enormous or not numeric.
pub open spec fn viewbox(tag: Seq<char>, value: Seq<char>) -> CaseView {
    hostile(
        "viewbox-"@ + tag,
        r##"<svg xmlns="http://www.w3.org/2000/svg" viewBox=""##@ + value
            + r##""><rect width="64" height="64" fill="#0a0"/></svg>"##@,
    )
}

fn add_viewbox(v: &mut Vec<Case>, tag: &str, value: &str)
    ensures
        views(final(v)@) == views(old(v)@).push(viewbox(tag@, value@)),
{
    let name: String = two("viewbox-", tag);
    let text: String = three(
        r##"<svg xmlns="http://www.w3.org/2000/svg" viewBox=""##,
        value,
        r##""><rect width="64" height="64" fill="#0a0"/></svg>"##,
    );
    add_hostile(v, name.as_str(), text.as_str());
}

pub open spec fn viewbox_list() -> Seq<CaseView> {
    seq![
        viewbox("zero"@, "0 0 0 0"@),
        viewbox("zero-width"@, "0 0 0 64"@),
        viewbox("zero-height"@, "0 0 64 0"@),
        viewbox("negative-size"@, "0 0 -64 -64"@),
        viewbox("negative-origin"@, "-1000 -1000 64 64"@),
        viewbox("huge"@, "0 0 1e30 1e30"@),
        viewbox("tiny"@, "0 0 1e-30 1e-30"@),
        viewbox("nan"@, "0 0 NaN NaN"@),
        viewbox("inf"@, "0 0 Infinity Infinity"@),
        viewbox("too-few-values"@, "0 0 64"@),
        viewbox("too-many-values"@, "0 0 64 64 64"@),
        viewbox("non-numeric"@, "a b c d"@),
        viewbox("empty"@, ""@),
        viewbox("comma-separated"@, "0,0,64,64"@),
        viewbox("extra-whitespace"@, "  0   0   64   64  "@),
    ]
}

fn viewbox_cases() -> (v: Vec<Case>)
    ensures
        views(v@) == viewbox_list(),
{
    let mut v: Vec<Case> = no_cases();
    add_viewbox(&mut v, "zero", "0 0 0 0");
    add_viewbox(&mut v, "zero-width", "0 0 0 64");
    add_viewbox(&mut v, "zero-height", "0 0 64 0");
    add_viewbox(&mut v, "negative-size", "0 0 -64 -64");
    add_viewbox(&mut v, "negative-origin", "-1000 -1000 64 64");
    add_viewbox(&mut v, "huge", "0 0 1e30 1e30");
    add_viewbox(&mut v, "tiny", "0 0 1e-30 1e-30");
    add_viewbox(&mut v, "nan", "0 0 NaN NaN");
    add_viewbox(&mut v, "inf", "0 0 Infinity Infinity");
    add_viewbox(&mut v, "too-few-values", "0 0 64");
    add_viewbox(&mut v, "too-many-values", "0 0 64 64 64");
    add_viewbox(&mut v, "non-numeric", "a b c d");
    add_viewbox(&mut v, "empty", "");
    add_viewbox(&mut v, "comma-separated", "0,0,64,64");
    add_viewbox(&mut v, "extra-whitespace", "  0   0   64   64  ");
    v
}

/// Width and height without a viewBox, so that one has to be synthesised.
pub open spec fn dimensions(tag: Seq<char>, value: Seq<char>) -> CaseView {
    hostile(
        "dimensions-"@ + tag + "-no-viewbox"@,
        r##"<svg xmlns="http://www.w3.org/2000/svg" "##@ + value
            + r##"><rect width="64" height="64" fill="#0a0"/></svg>"##@,
    )
}

fn add_dimensions(v: &mut Vec<Case>, tag: &str, value: &str)
    ensures
        views(final(v)@) == views(old(v)@).push(dimensions(tag@, value@)),
{
    let name: String = three("dimensions-", tag, "-no-viewbox");
    let text: String = three(
        r##"<svg xmlns="http://www.w3.org/2000/svg" "##,
        value,
        r##"><rect width="64" height="64" fill="#0a0"/></svg>"##,
    );
    add_hostile(v, name.as_str(), text.as_str());
}

pub open spec fn dimension_list() -> Seq<CaseView> {
    seq![
        dimensions("percent"@, r#"width="100%" height="100%""#@),
        dimensions("em-units"@, r#"width="10em" height="10em""#@),
        dimensions("pt-units"@, r#"width="72pt" height="72pt""#@),
        dimensions("px-units"@, r#"width="64px" height="64px""#@),
        dimensions("zero"@, r#"width="0" height="0""#@),
        dimensions("negative"@, r#"width="-64" height="-64""#@),
        dimensions("huge"@, r#"width="1e30" height="1e30""#@),
        dimensions("nan"@, r#"width="NaN" height="NaN""#@),
        dimensions("only-width"@, r#"width="64""#@),
        dimensions("only-height"@, r#"height="64""#@),
        dimensions("empty"@, r#"width="" height="""#@),
        dimensions("whitespace"@, r#"width="  " height="  ""#@),
    ]
}

fn dimension_cases() -> (v: Vec<Case>)
    ensures
        views(v@) == dimension_list(),
{
    let mut v: Vec<Case> = no_cases();
    add_dimensions(&mut v, "percent", r#"width="100%" height="100%""#);
    add_dimensions(&mut v, "em-units", r#"width="10em" height="10em""#);
    add_dimensions(&mut v, "pt-units", r#"width="72pt" height="72pt""#);
    add_dimensions(&mut v, "px-units", r#"width="64px" height="64px""#);
    add_dimensions(&mut v, "zero", r#"width="0" height="0""#);
    add_dimensions(&mut v, "negative", r#"width="-64" height="-64""#);
    add_dimensions(&mut v, "huge", r#"width="1e30" height="1e30""#);
    add_dimensions(&mut v, "nan", r#"width="NaN" height="NaN""#);
    add_dimensions(&mut v, "only-width", r#"width="64""#);
    add_dimensions(&mut v, "only-height", r#"height="64""#);
    add_dimensions(&mut v, "empty", r#"width="" height="""#);
    add_dimensions(&mut v, "whitespace", r#"width="  " height="  ""#);
    v
}

// A width or height long enough to overflow the fixed buffer of 32 units that
// attributes are read into, and a viewBox longer than its buffer of 64.

/// The numbers below `n`, each with five decimals.
pub open spec fn decimals_upto(n: nat) -> Seq<Seq<char>> {
    Seq::new(n, |i: int| dec(i as nat) + ".00000"@)
}

fn decimals(n: usize) -> (v: Vec<String>)
    ensures
        texts(v@) == decimals_upto(n as nat),
{
    let mut v: Vec<String> = Vec::new();
    let mut i: usize = 0;
    while i < n
        invariant
            i <= n,
            v@.len() == i,
            forall|k: int| 0 <= k < i ==> (#[trigger] v@[k])@ == dec(k as nat) + ".00000"@,
        decreases n - i,
    {
        v.push(two(decimal(i as u64).as_str(), ".00000"));
        i += 1;
    }
    assert(texts(v@) =~= decimals_upto(n as nat));
    v
}

pub open spec fn buffer_list() -> Seq<CaseView> {
    seq![
        hostile(
            "dimensions-overflowing-attribute-buffer"@,
            r##"<svg xmlns="http://www.w3.org/2000/svg" width=""##@ + repeated("1"@, 200)
                + r##"" height=""##@ + repeated("2"@, 200)
                + r##""><rect width="64" height="64" fill="#0a0"/></svg>"##@,
        ),
        hostile(
            "viewbox-overflowing-attribute-buffer"@,
            r##"<svg xmlns="http://www.w3.org/2000/svg" viewBox=""##@ + joined(
                decimals_upto(40),
                " "@,
            ) + r##""><rect width="64" height="64" fill="#0a0"/></svg>"##@,
        ),
    ]
}

fn buffer_cases() -> (v: Vec<Case>)
    ensures
        views(v@) == buffer_list(),
{
    let mut v: Vec<Case> = no_cases();
    add_hostile(
        &mut v,
        "dimensions-overflowing-attribute-buffer",
        five(
            r##"<svg xmlns="http://www.w3.org/2000/svg" width=""##,
            repeat("1", 200).as_str(),
            r##"" height=""##,
            repeat("2", 200).as_str(),
            r##""><rect width="64" height="64" fill="#0a0"/></svg>"##,
        ).as_str(),
    );
    add_hostile(
        &mut v,
        "viewbox-overflowing-attribute-buffer",
        three(
            r##"<svg xmlns="http://www.w3.org/2000/svg" viewBox=""##,
            join(&decimals(40), " ").as_str(),
            r##""><rect width="64" height="64" fill="#0a0"/></svg>"##,
        ).as_str(),
    );
    v
}

/// Coordinate extremes on a shape.
pub open spec fn coords(tag: Seq<char>, value: Seq<char>) -> CaseView {
    hostile(
        "coords-"@ + tag,
        r##"<svg xmlns="http://www.w3.org/2000/svg" viewBox="0 0 64 64"><rect "##@ + value
            + r##" fill="#0a0"/></svg>"##@,
    )
}

fn add_coords(v: &mut Vec<Case>, tag: &str, value: &str)
    ensures
        views(final(v)@) == views(old(v)@).push(coords(tag@, value@)),
{
    let name: String = two("coords-", tag);
    let text: String = three(
        r##"<svg xmlns="http://www.w3.org/2000/svg" viewBox="0 0 64 64"><rect "##,
        value,
        r##" fill="#0a0"/></svg>"##,
    );
    add_hostile(v, name.as_str(), text.as_str());
}

pub open spec fn coordinate_list() -> Seq<CaseView> {
    seq![
        coords("nan-coords"@, r#"x="NaN" y="NaN" width="NaN" height="NaN""#@),
        coords("inf-coords"@, r#"x="Infinity" y="-Infinity" width="Infinity" height="Infinity""#@),
        coords("huge-exponent"@, r#"x="1e308" y="-1e308" width="1e308" height="1e308""#@),
        coords("denormal"@, r#"x="1e-320" y="1e-320" width="1e-320" height="1e-320""#@),
        coords("many-digits"@, r#"x="0.123456789012345678901234567890" y="0" width="64" height="64""#@),
        coords("leading-plus"@, r#"x="+4" y="+4" width="+56" height="+56""#@),
        coords("hex-numbers"@, r#"x="0x10" y="0x10" width="0x10" height="0x10""#@),
    ]
}

fn coordinate_cases() -> (v: Vec<Case>)
    ensures
        views(v@) == coordinate_list(),
{
    let mut v: Vec<Case> = no_cases();
    add_coords(&mut v, "nan-coords", r#"x="NaN" y="NaN" width="NaN" height="NaN""#);
    add_coords(&mut v, "inf-coords", r#"x="Infinity" y="-Infinity" width="Infinity" height="Infinity""#);
    add_coords(&mut v, "huge-exponent", r#"x="1e308" y="-1e308" width="1e308" height="1e308""#);
    add_coords(&mut v, "denormal", r#"x="1e-320" y="1e-320" width="1e-320" height="1e-320""#);
    add_coords(&mut v, "many-digits", r#"x="0.123456789012345678901234567890" y="0" width="64" height="64""#);
    add_coords(&mut v, "leading-plus", r#"x="+4" y="+4" width="+56" height="+56""#);
    add_coords(&mut v, "hex-numbers", r#"x="0x10" y="0x10" width="0x10" height="0x10""#);
    v
}

/// `n` line segments that wander over a 64 by 64 grid.
pub open spec fn segments(n: nat) -> Seq<char>
    decreases n,
{
    if n == 0 {
        Seq::empty()
    } else {
        let i = (n - 1) as nat;
        segments(i) + "L"@ + dec(i % 64) + " "@ + dec((i * 7) % 64)
    }
}

fn segment_run(n: usize) -> (s: String)
    requires
        n <= 100_000,
    ensures
        s@ == segments(n as nat),
{
    let mut s: String = String::new();
    let mut i: usize = 0;
    while i < n
        invariant
            i <= n <= 100_000,
            s@ == segments(i as nat),
        decreases n - i,
    {
        s.append("L");
        s.append(decimal((i % 64) as u64).as_str());
        s.append(" ");
        s.append(decimal(((i * 7) % 64) as u64).as_str());
        i += 1;
    }
    s
}

/// An enormous single path.
pub open spec fn long_path() -> CaseView {
    hostile(
        "path-50k-segments"@,
        r##"<svg xmlns="http://www.w3.org/2000/svg" viewBox="0 0 64 64"><path d="M0 0 "##@ + segments(
            50_000,
        ) + r##"" stroke="#0a0" fill="none"/></svg>"##@,
    )
}

fn long_path_cases() -> (v: Vec<Case>)
    ensures
        views(v@) == seq![long_path()],
{
    let mut v: Vec<Case> = no_cases();
    add_hostile(
        &mut v,
        "path-50k-segments",
        three(
            r##"<svg xmlns="http://www.w3.org/2000/svg" viewBox="0 0 64 64"><path d="M0 0 "##,
            segment_run(50_000).as_str(),
            r##"" stroke="#0a0" fill="none"/></svg>"##,
        ).as_str(),
    );
    v
}

/// Path data with malformed or extreme commands.
pub open spec fn path(tag: Seq<char>, value: Seq<char>) -> CaseView {
    hostile(
        "path-"@ + tag,
        r##"<svg xmlns="http://www.w3.org/2000/svg" viewBox="0 0 64 64"><path d=""##@ + value
            + r##"" stroke="#0a0" fill="none"/></svg>"##@,
    )
}

fn add_path(v: &mut Vec<Case>, tag: &str, value: &str)
    ensures
        views(final(v)@) == views(old(v)@).push(path(tag@, value@)),
{
    let name: String = two("path-", tag);
    let text: String = three(
        r##"<svg xmlns="http://www.w3.org/2000/svg" viewBox="0 0 64 64"><path d=""##,
        value,
        r##"" stroke="#0a0" fill="none"/></svg>"##,
    );
    add_hostile(v, name.as_str(), text.as_str());
}

pub open spec fn path_list() -> Seq<CaseView> {
    seq![
        path("garbage"@, "QQQQQQQQ"@),
        path("truncated-command"@, "M0 0 L"@),
        path("nan-in-path"@, "M NaN NaN L Infinity Infinity"@),
        path("empty"@, ""@),
        path("only-spaces"@, "     "@),
        path("huge-numbers"@, "M1e308 1e308 L-1e308 -1e308"@),
    ]
}

fn path_cases() -> (v: Vec<Case>)
    ensures
        views(v@) == path_list(),
{
    let mut v: Vec<Case> = no_cases();
    add_path(&mut v, "garbage", "QQQQQQQQ");
    add_path(&mut v, "truncated-command", "M0 0 L");
    add_path(&mut v, "nan-in-path", "M NaN NaN L Infinity Infinity");
    add_path(&mut v, "empty", "");
    add_path(&mut v, "only-spaces", "     ");
    add_path(&mut v, "huge-numbers", "M1e308 1e308 L-1e308 -1e308");
    v
}

/// Colour syntax variants, including invalid ones.
pub open spec fn fill(tag: Seq<char>, value: Seq<char>) -> CaseView {
    hostile(
        "fill-"@ + tag,
        r#"<svg xmlns="http://www.w3.org/2000/svg" viewBox="0 0 64 64"><rect width="64" height="64" fill=""#@ + value
            + r#""/></svg>"#@,
    )
}

fn add_fill(v: &mut Vec<Case>, tag: &str, value: &str)
    ensures
        views(final(v)@) == views(old(v)@).push(fill(tag@, value@)),
{
    let name: String = two("fill-", tag);
    let text: String = three(
        r#"<svg xmlns="http://www.w3.org/2000/svg" viewBox="0 0 64 64"><rect width="64" height="64" fill=""#,
        value,
        r#""/></svg>"#,
    );
    add_hostile(v, name.as_str(), text.as_str());
}

pub open spec fn fill_list() -> Seq<CaseView> {
    seq![
        fill("named"@, "rebeccapurple"@),
        fill("hex3"@, "#0a0"@),
        fill("hex6"@, "#00aa00"@),
        fill("hex8-with-alpha"@, "#00aa0080"@),
        fill("rgb"@, "rgb(0,170,0)"@),
        fill("rgb-percent"@, "rgb(0%,66%,0%)"@),
        fill("rgba"@, "rgba(0,170,0,0.5)"@),
        fill("hsl"@, "hsl(120,100%,33%)"@),
        fill("invalid-hex"@, "#zzzzzz"@),
        fill("invalid-name"@, "notacolour"@),
        fill("empty"@, ""@),
        fill("currentcolor"@, "currentColor"@),
        fill("url-reference-missing"@, "url(#nonexistent)"@),
    ]
}

fn fill_cases() -> (v: Vec<Case>)
    ensures
        views(v@) == fill_list(),
{
    let mut v: Vec<Case> = no_cases();
    add_fill(&mut v, "named", "rebeccapurple");
    add_fill(&mut v, "hex3", "#0a0");
    add_fill(&mut v, "hex6", "#00aa00");
    add_fill(&mut v, "hex8-with-alpha", "#00aa0080");
    add_fill(&mut v, "rgb", "rgb(0,170,0)");
    add_fill(&mut v, "rgb-percent", "rgb(0%,66%,0%)");
    add_fill(&mut v, "rgba", "rgba(0,170,0,0.5)");
    add_fill(&mut v, "hsl", "hsl(120,100%,33%)");
    add_fill(&mut v, "invalid-hex", "#zzzzzz");
    add_fill(&mut v, "invalid-name", "notacolour");
    add_fill(&mut v, "empty", "");
    add_fill(&mut v, "currentcolor", "currentColor");
    add_fill(&mut v, "url-reference-missing", "url(#nonexistent)");
    v
}

/// Opacity extremes, which feed straight into the alpha conversion.
pub open spec fn opacity(tag: Seq<char>, value: Seq<char>) -> CaseView {
    hostile(
        "opacity-"@ + tag,
        r##"<svg xmlns="http://www.w3.org/2000/svg" viewBox="0 0 64 64"><rect width="64" height="64" fill="#0a0" opacity=""##@ + value
            + r##""/></svg>"##@,
    )
}

fn add_opacity(v: &mut Vec<Case>, tag: &str, value: &str)
    ensures
        views(final(v)@) == views(old(v)@).push(opacity(tag@, value@)),
{
    let name: String = two("opacity-", tag);
    let text: String = three(
        r##"<svg xmlns="http://www.w3.org/2000/svg" viewBox="0 0 64 64"><rect width="64" height="64" fill="#0a0" opacity=""##,
        value,
        r##""/></svg>"##,
    );
    add_hostile(v, name.as_str(), text.as_str());
}

pub open spec fn opacity_list() -> Seq<CaseView> {
    seq![
        opacity("zero"@, "0"@),
        opacity("one"@, "1"@),
        opacity("half"@, "0.5"@),
        opacity("negative"@, "-1"@),
        opacity("over-one"@, "2"@),
        opacity("nan"@, "NaN"@),
        opacity("tiny"@, "0.0000001"@),
        opacity("almost-one"@, "0.99999999"@),
    ]
}

fn opacity_cases() -> (v: Vec<Case>)
    ensures
        views(v@) == opacity_list(),
{
    let mut v: Vec<Case> = no_cases();
    add_opacity(&mut v, "zero", "0");
    add_opacity(&mut v, "one", "1");
    add_opacity(&mut v, "half", "0.5");
    add_opacity(&mut v, "negative", "-1");
    add_opacity(&mut v, "over-one", "2");
    add_opacity(&mut v, "nan", "NaN");
    add_opacity(&mut v, "tiny", "0.0000001");
    add_opacity(&mut v, "almost-one", "0.99999999");
    v
}

pub open spec fn numeric_list() -> Seq<CaseView> {
    viewbox_list() + dimension_list() + buffer_list() + coordinate_list() + seq![long_path()]
        + path_list() + fill_list() + opacity_list()
}

pub fn numeric_cases() -> (v: Vec<Case>)
    ensures
        views(v@) == numeric_list(),
{
    let mut v: Vec<Case> = viewbox_cases();
    extend(&mut v, dimension_cases());
    extend(&mut v, buffer_cases());
    extend(&mut v, coordinate_cases());
    extend(&mut v, long_path_cases());
    extend(&mut v, path_cases());
    extend(&mut v, fill_cases());
    extend(&mut v, opacity_cases());
    v
}

/// Every segment of the path has its place: the `k`-th leads to column `k` and row `7 k`
/// of the grid, both modulo its size.
pub proof fn segments_wander_over_the_grid(n: nat, k: nat)
    requires
        k < n,
    ensures
        occurs_at(
            "L"@ + dec(k % 64) + " "@ + dec((k * 7) % 64),
            segments(n),
            segments(k).len() as int,
        ),
        segments(0).len() == 0,
        segments(k + 1).len() == segments(k).len() + ("L"@ + dec(k % 64) + " "@ + dec(
            (k * 7) % 64,
        )).len(),
        spells(long_path(), segments(50_000)),
    decreases n,
{
    let before = segments((n - 1) as nat);
    let whole = segments(n);
    let piece = "L"@ + dec(k % 64) + " "@ + dec((k * 7) % 64);
    assert(segments(k + 1) =~= segments(k) + piece);
    if k + 1 < n {
        segments_wander_over_the_grid((n - 1) as nat, k);
        let i: int = segments(k).len() as int;
        assert(whole.subrange(i, i + piece.len()) =~= before.subrange(i, i + piece.len()));
    } else {
        assert(whole =~= before + piece);
        let i: int = before.len() as int;
        assert(whole.subrange(i, i + piece.len()) =~= piece);
    }
    lemma_spells(
        long_path(),
        r##"<svg xmlns="http://www.w3.org/2000/svg" viewBox="0 0 64 64"><path d="M0 0 "##@,
        segments(50_000),
        r##"" stroke="#0a0" fill="none"/></svg>"##@,
    );
}

/// Every case of these groups spells out the value that it is about, between the quotes
/// of its attribute where it has one, and has merely to be survived.
pub proof fn cases_spell_their_value(tag: Seq<char>, value: Seq<char>)
    ensures
        spells(viewbox(tag, value), r##"viewBox=""##@ + value + r##"">"##@),
        spells(dimensions(tag, value), value),
        spells(coords(tag, value), "<rect "@ + value),
        spells(path(tag, value), r##"<path d=""##@ + value + r##"""##@),
        spells(fill(tag, value), r#"fill=""#@ + value + r#"""#@),
        spells(opacity(tag, value), r##"opacity=""##@ + value + r##"""##@),
        viewbox(tag, value).expect == Expect::Survive,
        dimensions(tag, value).expect == Expect::Survive,
        coords(tag, value).expect == Expect::Survive,
        path(tag, value).expect == Expect::Survive,
        fill(tag, value).expect == Expect::Survive,
        opacity(tag, value).expect == Expect::Survive,
        viewbox(tag, value).name == "viewbox-"@ + tag,
        dimensions(tag, value).name == "dimensions-"@ + tag + "-no-viewbox"@,
        coords(tag, value).name == "coords-"@ + tag,
        path(tag, value).name == "path-"@ + tag,
        fill(tag, value).name == "fill-"@ + tag,
        opacity(tag, value).name == "opacity-"@ + tag,
{
    lemma_viewbox_spells(tag, value);
    lemma_shape_spells(tag, value);
    lemma_colour_spells(tag, value);
    lemma_spells(
        dimensions(tag, value),
        r##"<svg xmlns="http://www.w3.org/2000/svg" "##@,
        value,
        r##"><rect width="64" height="64" fill="#0a0"/></svg>"##@,
    );
}

/// A value between the end of one text and the beginning of another is spelled with
/// them.
proof fn lemma_spells_with(
    c: CaseView,
    head: Seq<char>,
    from: int,
    value: Seq<char>,
    tail: Seq<char>,
    to: int,
)
    requires
        c.bytes == encode_utf8(head + value + tail),
        0 <= from <= head.len(),
        0 <= to <= tail.len(),
    ensures
        spells(c, head.skip(from) + value + tail.take(to)),
{
    let part = head.skip(from) + value + tail.take(to);
    assert(head.take(from) + part + tail.skip(to) =~= head + value + tail);
    lemma_spells(c, head.take(from), part, tail.skip(to));
}

proof fn lemma_viewbox_spells(tag: Seq<char>, value: Seq<char>)
    ensures
        spells(viewbox(tag, value), r##"viewBox=""##@ + value + r##"">"##@),
{
    reveal_strlit(r##"<svg xmlns="http://www.w3.org/2000/svg" viewBox=""##);
    reveal_strlit(r##""><rect width="64" height="64" fill="#0a0"/></svg>"##);
    reveal_strlit(r##"viewBox=""##);
    reveal_strlit(r##"">"##);
    let head = r##"<svg xmlns="http://www.w3.org/2000/svg" viewBox=""##@;
    let tail = r##""><rect width="64" height="64" fill="#0a0"/></svg>"##@;
    lemma_spells_with(viewbox(tag, value), head, head.len() - 9, value, tail, 2);
    assert(head.skip(head.len() - 9) =~= r##"viewBox=""##@);
    assert(tail.take(2) =~= r##"">"##@);
}

proof fn lemma_shape_spells(tag: Seq<char>, value: Seq<char>)
    ensures
        spells(coords(tag, value), "<rect "@ + value),
        spells(path(tag, value), r##"<path d=""##@ + value + r##"""##@),
{
    reveal_strlit(r##"<svg xmlns="http://www.w3.org/2000/svg" viewBox="0 0 64 64"><rect "##);
    reveal_strlit("<rect ");
    let head = r##"<svg xmlns="http://www.w3.org/2000/svg" viewBox="0 0 64 64"><rect "##@;
    let tail = r##" fill="#0a0"/></svg>"##@;
    lemma_spells_with(coords(tag, value), head, head.len() - 6, value, tail, 0);
    assert(head.skip(head.len() - 6) + value + tail.take(0) =~= "<rect "@ + value);
    reveal_strlit(r##"<svg xmlns="http://www.w3.org/2000/svg" viewBox="0 0 64 64"><path d=""##);
    reveal_strlit(r##"<path d=""##);
    reveal_strlit(r##"" stroke="#0a0" fill="none"/></svg>"##);
    reveal_strlit(r##"""##);
    let first = r##"<svg xmlns="http://www.w3.org/2000/svg" viewBox="0 0 64 64"><path d=""##@;
    let last = r##"" stroke="#0a0" fill="none"/></svg>"##@;
    lemma_spells_with(path(tag, value), first, first.len() - 9, value, last, 1);
    assert(first.skip(first.len() - 9) =~= r##"<path d=""##@);
    assert(last.take(1) =~= r##"""##@);
}

proof fn lemma_colour_spells(tag: Seq<char>, value: Seq<char>)
    ensures
        spells(fill(tag, value), r#"fill=""#@ + value + r#"""#@),
        spells(opacity(tag, value), r##"opacity=""##@ + value + r##"""##@),
{
    reveal_strlit(r#"<svg xmlns="http://www.w3.org/2000/svg" viewBox="0 0 64 64"><rect width="64" height="64" fill=""#);
    reveal_strlit(r#"fill=""#);
    reveal_strlit(r#""/></svg>"#);
    reveal_strlit(r#"""#);
    let head = r#"<svg xmlns="http://www.w3.org/2000/svg" viewBox="0 0 64 64"><rect width="64" height="64" fill=""#@;
    let tail = r#""/></svg>"#@;
    lemma_spells_with(fill(tag, value), head, head.len() - 6, value, tail, 1);
    assert(head.skip(head.len() - 6) =~= r#"fill=""#@);
    assert(tail.take(1) =~= r#"""#@);
    reveal_strlit(r##"<svg xmlns="http://www.w3.org/2000/svg" viewBox="0 0 64 64"><rect width="64" height="64" fill="#0a0" opacity=""##);
    reveal_strlit(r##"opacity=""##);
    reveal_strlit(r##""/></svg>"##);
    reveal_strlit(r##"""##);
    let first = r##"<svg xmlns="http://www.w3.org/2000/svg" viewBox="0 0 64 64"><rect width="64" height="64" fill="#0a0" opacity=""##@;
    let last = r##""/></svg>"##@;
    lemma_spells_with(opacity(tag, value), first, first.len() - 9, value, last, 1);
    assert(first.skip(first.len() - 9) =~= r##"opacity=""##@);
    assert(last.take(1) =~= r##"""##@);
}

proof fn lemma_joined_length(n: nat)
    ensures
        joined(decimals_upto(n), " "@).len() >= 7 * n,
    decreases n,
{
    reveal_strlit(".00000");
    let items = decimals_upto(n);
    if n > 0 {
        lemma_joined_length((n - 1) as nat);
        assert(items.drop_last() =~= decimals_upto((n - 1) as nat));
        lemma_dec_digits((n - 1) as nat);
        assert(items.last() == dec((n - 1) as nat) + ".00000"@);
        if n == 1 {
            assert(items[0] == items.last());
        }
    }
}

/// The two overlong attributes are longer than the buffers of 32 and 64 units that they
/// are there to overflow.
pub proof fn overlong_attributes_do_not_fit()
    ensures
        spells(buffer_list()[0], repeated("1"@, 200)),
        spells(buffer_list()[0], repeated("2"@, 200)),
        repeated("1"@, 200).len() == 200,
        repeated("2"@, 200).len() == 200,
        spells(buffer_list()[1], joined(decimals_upto(40), " "@)),
        joined(decimals_upto(40), " "@).len() > 64,
        buffer_list()[0].expect == Expect::Survive,
        buffer_list()[1].expect == Expect::Survive,
{
    reveal_strlit("1");
    reveal_strlit("2");
    copies_stand_side_by_side("1"@, 200, 0);
    copies_stand_side_by_side("2"@, 200, 0);
    lemma_joined_length(40);
    let a = r##"<svg xmlns="http://www.w3.org/2000/svg" width=""##@;
    let b = r##"" height=""##@;
    let c = r##""><rect width="64" height="64" fill="#0a0"/></svg>"##@;
    let ones = repeated("1"@, 200);
    let twos = repeated("2"@, 200);
    assert(a + ones + (b + twos + c) =~= a + ones + b + twos + c);
    lemma_spells(buffer_list()[0], a, ones, b + twos + c);
    lemma_spells(buffer_list()[0], a + ones + b, twos, c);
    lemma_spells(
        buffer_list()[1],
        r##"<svg xmlns="http://www.w3.org/2000/svg" viewBox=""##@,
        joined(decimals_upto(40), " "@),
        c,
    );
}

} // verus!
