//! Entity expansion and external entities.
//!
//! A thumbnail handler processes files that arrive from anywhere, so any XML
//! feature that can cause network traffic or local file access during parsing
//! is a concern of its own. The parser's defaults are safe; these cases exist so
//! that a change to its configuration is caught.

use vstd::prelude::*;
use crate::corpus::{
    add_hostile, extend, hostile, lemma_spells, no_cases, spells, views, Case, CaseView, Expect,
    XxeProbe,
};
use crate::numbers::{dec, decimal, lemma_dec_digits};
use crate::text::{
    lemma_occurs_between, lemma_occurs_in_more, lemma_repeated_front, occurs, repeat, repeated, three,
    two,
};
use vstd::utf8::encode_utf8;

verus! {

pub open spec fn external_list(url: Seq<char>, sentinel: Seq<char>) -> Seq<CaseView> {
    seq![
        hostile(
            "xxe-external-dtd"@,
            r#"<?xml version="1.0"?><!DOCTYPE svg SYSTEM ""#@ + url
                + r#"/external.dtd"><svg xmlns="http://www.w3.org/2000/svg" viewBox="0 0 10 10"><rect width="10" height="10" fill="red"/></svg>"#@,
        ),
        hostile(
            "xxe-external-general-entity-http"@,
            r#"<?xml version="1.0"?><!DOCTYPE svg [<!ENTITY xxe SYSTEM ""#@ + url
                + r#"/entity">]><svg xmlns="http://www.w3.org/2000/svg" viewBox="0 0 10 10"><desc>&xxe;</desc><rect width="10" height="10" fill="red"/></svg>"#@,
        ),
        hostile(
            "xxe-external-entity-file"@,
            r#"<?xml version="1.0"?><!DOCTYPE svg [<!ENTITY xxe SYSTEM "file:///"#@ + sentinel
                + r#"">]><svg xmlns="http://www.w3.org/2000/svg" viewBox="0 0 10 10"><desc>&xxe;</desc><rect width="10" height="10" fill="red"/></svg>"#@,
        ),
        hostile(
            "xxe-parameter-entity"@,
            r#"<?xml version="1.0"?><!DOCTYPE svg [<!ENTITY % pe SYSTEM ""#@ + url
                + r#"/param.dtd">%pe;]><svg xmlns="http://www.w3.org/2000/svg" viewBox="0 0 10 10"><rect width="10" height="10" fill="red"/></svg>"#@,
        ),
        hostile(
            "xxe-unc-path"@,
            r#"<?xml version="1.0"?><!DOCTYPE svg [<!ENTITY xxe SYSTEM "\\127.0.0.1\share\probe.dtd">]><svg xmlns="http://www.w3.org/2000/svg" viewBox="0 0 10 10"><desc>&xxe;</desc><rect width="10" height="10" fill="red"/></svg>"#@,
        ),
        hostile(
            "xxe-entity-in-attribute"@,
            r#"<?xml version="1.0"?><!DOCTYPE svg [<!ENTITY xxe SYSTEM ""#@ + url
                + r#"/attr">]><svg xmlns="http://www.w3.org/2000/svg" viewBox="0 0 10 10"><rect width="10" height="10" fill="red" data-x="&xxe;"/></svg>"#@,
        ),
        hostile(
            "xxe-stylesheet-href"@,
            r#"<?xml version="1.0"?><?xml-stylesheet type="text/css" href=""#@ + url
                + r#"/style.css"?><svg xmlns="http://www.w3.org/2000/svg" viewBox="0 0 10 10"><rect width="10" height="10" fill="red"/></svg>"#@,
        ),
        hostile(
            "external-image-href"@,
            r#"<svg xmlns="http://www.w3.org/2000/svg" xmlns:xlink="http://www.w3.org/1999/xlink" viewBox="0 0 10 10"><image xlink:href=""#@
                + url + r#"/image.png" width="10" height="10"/></svg>"#@,
        ),
    ]
}

fn external_cases(url: &str, sentinel: &str) -> (v: Vec<Case>)
    ensures
        views(v@) == external_list(url@, sentinel@),
{
    let mut v: Vec<Case> = no_cases();
    add_hostile(
        &mut v,
        "xxe-external-dtd",
        three(
            r#"<?xml version="1.0"?><!DOCTYPE svg SYSTEM ""#,
            url,
            r#"/external.dtd"><svg xmlns="http://www.w3.org/2000/svg" viewBox="0 0 10 10"><rect width="10" height="10" fill="red"/></svg>"#,
        ).as_str(),
    );
    add_hostile(
        &mut v,
        "xxe-external-general-entity-http",
        three(
            r#"<?xml version="1.0"?><!DOCTYPE svg [<!ENTITY xxe SYSTEM ""#,
            url,
            r#"/entity">]><svg xmlns="http://www.w3.org/2000/svg" viewBox="0 0 10 10"><desc>&xxe;</desc><rect width="10" height="10" fill="red"/></svg>"#,
        ).as_str(),
    );
    add_hostile(
        &mut v,
        "xxe-external-entity-file",
        three(
            r#"<?xml version="1.0"?><!DOCTYPE svg [<!ENTITY xxe SYSTEM "file:///"#,
            sentinel,
            r#"">]><svg xmlns="http://www.w3.org/2000/svg" viewBox="0 0 10 10"><desc>&xxe;</desc><rect width="10" height="10" fill="red"/></svg>"#,
        ).as_str(),
    );
    add_hostile(
        &mut v,
        "xxe-parameter-entity",
        three(
            r#"<?xml version="1.0"?><!DOCTYPE svg [<!ENTITY % pe SYSTEM ""#,
            url,
            r#"/param.dtd">%pe;]><svg xmlns="http://www.w3.org/2000/svg" viewBox="0 0 10 10"><rect width="10" height="10" fill="red"/></svg>"#,
        ).as_str(),
    );
    add_hostile(
        &mut v,
        "xxe-unc-path",
        r#"<?xml version="1.0"?><!DOCTYPE svg [<!ENTITY xxe SYSTEM "\\127.0.0.1\share\probe.dtd">]><svg xmlns="http://www.w3.org/2000/svg" viewBox="0 0 10 10"><desc>&xxe;</desc><rect width="10" height="10" fill="red"/></svg>"#,
    );
    add_hostile(
        &mut v,
        "xxe-entity-in-attribute",
        three(
            r#"<?xml version="1.0"?><!DOCTYPE svg [<!ENTITY xxe SYSTEM ""#,
            url,
            r#"/attr">]><svg xmlns="http://www.w3.org/2000/svg" viewBox="0 0 10 10"><rect width="10" height="10" fill="red" data-x="&xxe;"/></svg>"#,
        ).as_str(),
    );
    add_hostile(
        &mut v,
        "xxe-stylesheet-href",
        three(
            r#"<?xml version="1.0"?><?xml-stylesheet type="text/css" href=""#,
            url,
            r#"/style.css"?><svg xmlns="http://www.w3.org/2000/svg" viewBox="0 0 10 10"><rect width="10" height="10" fill="red"/></svg>"#,
        ).as_str(),
    );
    add_hostile(
        &mut v,
        "external-image-href",
        three(
            r#"<svg xmlns="http://www.w3.org/2000/svg" xmlns:xlink="http://www.w3.org/1999/xlink" viewBox="0 0 10 10"><image xlink:href=""#,
            url,
            r#"/image.png" width="10" height="10"/></svg>"#,
        ).as_str(),
    );
    v
}

/// Entity definitions `1..=n`, each ten references to the one before.
pub open spec fn laughs(n: nat) -> Seq<char>
    decreases n,
{
    if n == 0 {
        Seq::empty()
    } else {
        laughs((n - 1) as nat) + "<!ENTITY l"@ + dec(n) + r#" ""#@ + repeated(
            "&l"@ + dec((n - 1) as nat) + ";"@,
            10,
        ) + r#"">"#@
    }
}

fn laugh_run(n: usize) -> (s: String)
    requires
        n < usize::MAX,
    ensures
        s@ == laughs(n as nat),
{
    let mut s: String = String::new();
    let mut i: usize = 1;
    while i <= n
        invariant
            1 <= i <= n + 1,
            n < usize::MAX,
            s@ == laughs((i - 1) as nat),
        decreases n + 1 - i,
    {
        let reference: String = three("&l", decimal((i - 1) as u64).as_str(), ";");
        s.append("<!ENTITY l");
        s.append(decimal(i as u64).as_str());
        s.append(r#" ""#);
        s.append(repeat(reference.as_str(), 10).as_str());
        s.append(r#"">"#);
        i += 1;
    }
    s
}

pub open spec fn expansion_list() -> Seq<CaseView> {
    seq![
        // Nested internal entities that expand exponentially: entirely local, so
        // it tests memory bounding rather than network access.
        hostile(
            "entity-billion-laughs"@,
            r#"<?xml version="1.0"?><!DOCTYPE svg [<!ENTITY l0 "aaaaaaaaaa">"#@ + laughs(9)
                + r#"]><svg xmlns="http://www.w3.org/2000/svg" viewBox="0 0 10 10"><desc>&l9;</desc><rect width="10" height="10" fill="red"/></svg>"#@,
        ),
        // One large entity referenced many times.
        hostile(
            "entity-quadratic-blowup"@,
            r#"<?xml version="1.0"?><!DOCTYPE svg [<!ENTITY big ""#@ + repeated("b"@, 50_000)
                + r#"">]><svg xmlns="http://www.w3.org/2000/svg" viewBox="0 0 10 10"><desc>"#@
                + repeated("&big;"@, 2_000)
                + r#"</desc><rect width="10" height="10" fill="red"/></svg>"#@,
        ),
        // A recursive definition is illegal XML and must be rejected rather than
        // expanded forever.
        hostile(
            "entity-recursive"@,
            r#"<?xml version="1.0"?><!DOCTYPE svg [<!ENTITY a "&b;"><!ENTITY b "&a;">]><svg xmlns="http://www.w3.org/2000/svg" viewBox="0 0 10 10"><desc>&a;</desc></svg>"#@,
        ),
        hostile(
            "entity-undefined"@,
            r#"<svg xmlns="http://www.w3.org/2000/svg" viewBox="0 0 10 10"><desc>&nope;</desc><rect width="10" height="10" fill="red"/></svg>"#@,
        ),
    ]
}

fn expansion_cases() -> (v: Vec<Case>)
    ensures
        views(v@) == expansion_list(),
{
    let mut v: Vec<Case> = no_cases();
    add_hostile(
        &mut v,
        "entity-billion-laughs",
        three(
            r#"<?xml version="1.0"?><!DOCTYPE svg [<!ENTITY l0 "aaaaaaaaaa">"#,
            laugh_run(9).as_str(),
            r#"]><svg xmlns="http://www.w3.org/2000/svg" viewBox="0 0 10 10"><desc>&l9;</desc><rect width="10" height="10" fill="red"/></svg>"#,
        ).as_str(),
    );
    let mut blowup: String = two(
        r#"<?xml version="1.0"?><!DOCTYPE svg [<!ENTITY big ""#,
        repeat("b", 50_000).as_str(),
    );
    blowup.append(r#"">]><svg xmlns="http://www.w3.org/2000/svg" viewBox="0 0 10 10"><desc>"#);
    blowup.append(repeat("&big;", 2_000).as_str());
    blowup.append(r#"</desc><rect width="10" height="10" fill="red"/></svg>"#);
    add_hostile(&mut v, "entity-quadratic-blowup", blowup.as_str());
    add_hostile(
        &mut v,
        "entity-recursive",
        r#"<?xml version="1.0"?><!DOCTYPE svg [<!ENTITY a "&b;"><!ENTITY b "&a;">]><svg xmlns="http://www.w3.org/2000/svg" viewBox="0 0 10 10"><desc>&a;</desc></svg>"#,
    );
    add_hostile(
        &mut v,
        "entity-undefined",
        r#"<svg xmlns="http://www.w3.org/2000/svg" viewBox="0 0 10 10"><desc>&nope;</desc><rect width="10" height="10" fill="red"/></svg>"#,
    );
    v
}

pub open spec fn entity_list(url: Seq<char>, sentinel: Seq<char>) -> Seq<CaseView> {
    external_list(url, sentinel) + expansion_list()
}

pub fn entity_cases(probe: &XxeProbe) -> (v: Vec<Case>)
    ensures
        views(v@) == entity_list(probe.http_url@, probe.sentinel_path@),
{
    let mut v: Vec<Case> = external_cases(probe.http_url.as_str(), probe.sentinel_path.as_str());
    extend(&mut v, expansion_cases());
    v
}

// ---------------------------------------------------------------
//                     What references expand to
// ---------------------------------------------------------------

/// The declaration of an internal entity.
pub open spec fn declaration(name: Seq<char>, value: Seq<char>) -> Seq<char> {
    "<!ENTITY "@ + name + r#" ""#@ + value + r#"">"#@
}

/// A reference to an entity.
pub open spec fn reference(name: Seq<char>) -> Seq<char> {
    "&"@ + name + ";"@
}

/// `entities` gives every entity the value that a document declares for it.
pub open spec fn declared_in(entities: Map<Seq<char>, Seq<char>>, doc: Seq<char>) -> bool {
    forall|name: Seq<char>, value: Seq<char>|
        !value.contains('"') && occurs(#[trigger] declaration(name, value), doc)
            ==> entities[name] == value
}

/// How many characters come before the first semicolon.
pub open spec fn until_semicolon(s: Seq<char>) -> nat
    decreases s.len(),
{
    if s.len() == 0 || s[0] == ';' {
        0
    } else {
        1 + until_semicolon(s.skip(1))
    }
}

/// How many characters a text has once its references have been substituted, at most
/// `depth` within one another.
pub open spec fn expanded_length(
    entities: Map<Seq<char>, Seq<char>>,
    text: Seq<char>,
    depth: nat,
) -> nat
    decreases depth, text.len(),
{
    if text.len() == 0 {
        0
    } else if text[0] == '&' && depth > 0 && until_semicolon(text) < text.len() {
        let end = until_semicolon(text) as int;
        expanded_length(entities, entities[text.subrange(1, end)], (depth - 1) as nat)
            + expanded_length(entities, text.skip(end + 1), depth)
    } else {
        1 + expanded_length(entities, text.skip(1), depth)
    }
}

/// Ten to the power `k`.
pub open spec fn pow10(k: nat) -> nat
    decreases k,
{
    if k == 0 {
        1
    } else {
        10 * pow10((k - 1) as nat)
    }
}

/// The name of the `n`-th entity of the run.
pub open spec fn laugh_name(n: nat) -> Seq<char> {
    "l"@ + dec(n)
}

proof fn lemma_until_semicolon(a: Seq<char>, b: Seq<char>)
    requires
        !a.contains(';'),
        b.len() > 0,
        b[0] == ';',
    ensures
        until_semicolon(a + b) == a.len(),
    decreases a.len(),
{
    let s = a + b;
    if a.len() == 0 {
        assert(s =~= b);
    } else {
        assert(a[0] != ';');
        let t = a.skip(1);
        if t.contains(';') {
            let i: int = choose|i: int| 0 <= i < t.len() && t[i] == ';';
            assert(a[i + 1] == ';');
        }
        assert(s.skip(1) =~= t + b);
        lemma_until_semicolon(t, b);
    }
}

proof fn lemma_one_reference(
    entities: Map<Seq<char>, Seq<char>>,
    name: Seq<char>,
    rest: Seq<char>,
    depth: nat,
)
    requires
        !name.contains(';'),
        depth > 0,
    ensures
        expanded_length(entities, reference(name) + rest, depth) == expanded_length(
            entities,
            entities[name],
            (depth - 1) as nat,
        ) + expanded_length(entities, rest, depth),
{
    reveal_strlit("&");
    reveal_strlit(";");
    let text = reference(name) + rest;
    let front = "&"@ + name;
    let back = ";"@ + rest;
    assert(text =~= front + back);
    if front.contains(';') {
        let i: int = choose|i: int| 0 <= i < front.len() && front[i] == ';';
        assert(name[i - 1] == ';');
    }
    lemma_until_semicolon(front, back);
    let end: int = front.len() as int;
    assert(text.subrange(1, end) =~= name);
    assert(text.skip(end + 1) =~= rest);
}

proof fn lemma_references(
    entities: Map<Seq<char>, Seq<char>>,
    name: Seq<char>,
    n: nat,
    depth: nat,
)
    requires
        !name.contains(';'),
        depth > 0,
    ensures
        expanded_length(entities, repeated(reference(name), n), depth) == n * expanded_length(
            entities,
            entities[name],
            (depth - 1) as nat,
        ),
    decreases n,
{
    let one = expanded_length(entities, entities[name], (depth - 1) as nat);
    if n > 0 {
        let m = (n - 1) as nat;
        lemma_references(entities, name, m, depth);
        lemma_repeated_front(reference(name), n);
        lemma_one_reference(entities, name, repeated(reference(name), m), depth);
        assert(n * one == one + m * one) by (nonlinear_arith)
            requires
                m == n - 1,
        ;
    } else {
        assert(n * one == 0) by (nonlinear_arith)
            requires
                n == 0,
        ;
    }
}

proof fn lemma_plain(entities: Map<Seq<char>, Seq<char>>, c: Seq<char>, n: nat, depth: nat)
    requires
        c.len() == 1,
        c[0] != '&',
    ensures
        expanded_length(entities, repeated(c, n), depth) == n,
    decreases n,
{
    if n > 0 {
        let m = (n - 1) as nat;
        lemma_repeated_front(c, n);
        lemma_plain(entities, c, m, depth);
        assert(repeated(c, n).skip(1) =~= repeated(c, m));
    }
}

proof fn lemma_no_quote(name: Seq<char>, n: nat)
    requires
        !name.contains('"'),
    ensures
        !repeated(reference(name), n).contains('"'),
    decreases n,
{
    if n > 0 {
        reveal_strlit("&");
        reveal_strlit(";");
        let m = (n - 1) as nat;
        lemma_no_quote(name, m);
        let a = repeated(reference(name), m);
        let whole = repeated(reference(name), n);
        if whole.contains('"') {
            let i: int = choose|i: int| 0 <= i < whole.len() && whole[i] == '"';
            if i < a.len() {
                assert(a[i] == '"');
            } else {
                let j: int = i - a.len() - 1;
                assert(name[j] == '"');
            }
        }
    }
}

proof fn lemma_laugh_name(n: nat)
    ensures
        !laugh_name(n).contains(';'),
        !laugh_name(n).contains('"'),
{
    reveal_strlit("l");
    lemma_dec_digits(n);
    let name = laugh_name(n);
    assert forall|i: int| 0 <= i < name.len() implies name[i] != ';' && name[i] != '"' by {
        if i > 0 {
            assert(crate::numbers::is_digit(dec(n)[i - 1]));
        }
    }
}

proof fn lemma_laugh_declared(n: nat, k: nat)
    requires
        1 <= k <= n,
    ensures
        occurs(
            declaration(laugh_name(k), repeated(reference(laugh_name((k - 1) as nat)), 10)),
            laughs(n),
        ),
    decreases n,
{
    let none = Seq::<char>::empty();
    let before = laughs((n - 1) as nat);
    let last = declaration(laugh_name(n), repeated(reference(laugh_name((n - 1) as nat)), 10));
    reveal_strlit("<!ENTITY ");
    reveal_strlit("<!ENTITY l");
    reveal_strlit("l");
    reveal_strlit("&l");
    reveal_strlit("&");
    let prev = (n - 1) as nat;
    assert("&l"@ + dec(prev) + ";"@ =~= reference(laugh_name(prev)));
    let value = repeated(reference(laugh_name(prev)), 10);
    assert(before + "<!ENTITY l"@ + dec(n) + r#" ""#@ + value + r#"">"#@ =~= before + last);
    if k == n {
        lemma_occurs_between(before, last, none);
        assert(before + last + none =~= before + last);
    } else {
        lemma_laugh_declared(prev, k);
        let part = declaration(laugh_name(k), repeated(reference(laugh_name((k - 1) as nat)), 10));
        lemma_occurs_in_more(part, none, before, last);
        assert(none + before + last =~= before + last);
    }
}

/// Every entity of the run expands to ten times the length of the one before it, as a
/// reader finds by substituting what the document declares: with ten characters to
/// start from, the `n`-th expands to ten to the power `n + 1` of them.
pub proof fn every_laugh_multiplies_by_ten(
    entities: Map<Seq<char>, Seq<char>>,
    doc: Seq<char>,
    n: nat,
)
    requires
        declared_in(entities, doc),
        occurs(declaration(laugh_name(0), "aaaaaaaaaa"@), doc),
        occurs(laughs(n), doc),
    ensures
        expanded_length(entities, reference(laugh_name(n)), n + 1) == pow10(n + 1),
        forall|k: nat|
            1 <= k <= n ==> #[trigger] expanded_length(entities, reference(laugh_name(k)), k + 1)
                == 10 * expanded_length(entities, reference(laugh_name((k - 1) as nat)), k),
{
    lemma_laughs_expand(entities, doc, n, n);
    assert forall|k: nat| 1 <= k <= n implies #[trigger] expanded_length(
        entities,
        reference(laugh_name(k)),
        k + 1,
    ) == 10 * expanded_length(entities, reference(laugh_name((k - 1) as nat)), k) by {
        lemma_laughs_expand(entities, doc, n, k);
        lemma_laughs_expand(entities, doc, n, (k - 1) as nat);
    }
}

proof fn lemma_laughs_expand(
    entities: Map<Seq<char>, Seq<char>>,
    doc: Seq<char>,
    n: nat,
    k: nat,
)
    requires
        declared_in(entities, doc),
        occurs(declaration(laugh_name(0), "aaaaaaaaaa"@), doc),
        occurs(laughs(n), doc),
        k <= n,
    ensures
        expanded_length(entities, reference(laugh_name(k)), k + 1) == pow10(k + 1),
    decreases k,
{
    let none = Seq::<char>::empty();
    let name = laugh_name(k);
    lemma_laugh_name(k);
    lemma_one_reference(entities, name, none, k + 1);
    assert(reference(name) + none =~= reference(name));
    if k == 0 {
        let ten = "aaaaaaaaaa"@;
        reveal_strlit("aaaaaaaaaa");
        assert(!ten.contains('"'));
        assert(entities[name] == ten);
        reveal_with_fuel(expanded_length, 12);
        reveal_with_fuel(pow10, 3);
    } else {
        let prev = (k - 1) as nat;
        let value = repeated(reference(laugh_name(prev)), 10);
        lemma_laugh_name(prev);
        lemma_no_quote(laugh_name(prev), 10);
        lemma_laugh_declared(n, k);
        lemma_occurs_within(declaration(name, value), laughs(n), doc);
        assert(entities[name] == value);
        lemma_references(entities, laugh_name(prev), 10, k);
        lemma_laughs_expand(entities, doc, n, prev);
        lemma_one_reference(entities, laugh_name(prev), none, k);
        assert(reference(laugh_name(prev)) + none =~= reference(laugh_name(prev)));
    }
}

proof fn lemma_occurs_within(part: Seq<char>, middle: Seq<char>, whole: Seq<char>)
    requires
        occurs(part, middle),
        occurs(middle, whole),
    ensures
        occurs(part, whole),
{
    let i: int = choose|i: int| crate::text::occurs_at(middle, whole, i);
    let a = whole.take(i);
    let b = whole.skip(i + middle.len());
    lemma_occurs_in_more(part, a, middle, b);
    assert(a + middle + b =~= whole);
}

/// The bytes of the case spell a document whose one reference expands to ten thousand
/// million characters, with whatever table of entities a reader makes of it.
pub proof fn the_billion_laughs_expand(entities: Map<Seq<char>, Seq<char>>)
    ensures
        exists|doc: Seq<char>|
            #[trigger] encode_utf8(doc) == expansion_list()[0].bytes && occurs(
                "<desc>&l9;</desc>"@,
                doc,
            ) && (declared_in(entities, doc) ==> expanded_length(entities, "&l9;"@, 10)
                >= 10_000_000_000),
        expansion_list()[0].name == "entity-billion-laughs"@,
{
    let none = Seq::<char>::empty();
    let head = r#"<?xml version="1.0"?><!DOCTYPE svg [<!ENTITY l0 "aaaaaaaaaa">"#@;
    let tail = r#"]><svg xmlns="http://www.w3.org/2000/svg" viewBox="0 0 10 10"><desc>&l9;</desc><rect width="10" height="10" fill="red"/></svg>"#@;
    let doc = head + laughs(9) + tail;
    assert(encode_utf8(doc) == expansion_list()[0].bytes);
    lemma_occurs_between(head, laughs(9), tail);
    reveal_strlit(r#"]><svg xmlns="http://www.w3.org/2000/svg" viewBox="0 0 10 10"><desc>&l9;</desc><rect width="10" height="10" fill="red"/></svg>"#);
    reveal_strlit("<desc>&l9;</desc>");
    let shown = "<desc>&l9;</desc>"@;
    assert(tail.subrange(62, 62int + shown.len()) =~= shown);
    assert(crate::text::occurs_at(shown, tail, 62));
    lemma_occurs_in_more(shown, head + laughs(9), tail, none);
    assert(head + laughs(9) + tail + none =~= doc);
    let first = declaration(laugh_name(0), "aaaaaaaaaa"@);
    reveal_strlit(r#"<?xml version="1.0"?><!DOCTYPE svg [<!ENTITY l0 "aaaaaaaaaa">"#);
    reveal_strlit("<!ENTITY ");
    reveal_strlit("l");
    reveal_strlit(r#" ""#);
    reveal_strlit("aaaaaaaaaa");
    reveal_strlit(r#"">"#);
    assert(head.subrange(36, 36int + first.len()) =~= first);
    assert(crate::text::occurs_at(first, head, 36));
    lemma_occurs_in_more(first, none, head, laughs(9) + tail);
    assert(none + head + (laughs(9) + tail) =~= doc);
    if declared_in(entities, doc) {
        every_laugh_multiplies_by_ten(entities, doc, 9);
        reveal_with_fuel(pow10, 12);
        reveal_strlit("&l9;");
        reveal_strlit("&");
        reveal_strlit(";");
        assert("&l9;"@ =~= reference(laugh_name(9)));
    }
}

/// The other blow-up: one long entity referenced so often that the references expand to
/// a hundred million characters.
pub proof fn the_large_entity_expands(entities: Map<Seq<char>, Seq<char>>)
    ensures
        exists|doc: Seq<char>|
            #[trigger] encode_utf8(doc) == expansion_list()[1].bytes && occurs(
                repeated(reference("big"@), 2_000),
                doc,
            ) && (declared_in(entities, doc) ==> expanded_length(
                entities,
                repeated(reference("big"@), 2_000),
                1,
            ) == 100_000_000),
        expansion_list()[1].name == "entity-quadratic-blowup"@,
{
    let none = Seq::<char>::empty();
    let head = r#"<?xml version="1.0"?><!DOCTYPE svg [<!ENTITY big ""#@;
    let value = repeated("b"@, 50_000);
    let middle = r#"">]><svg xmlns="http://www.w3.org/2000/svg" viewBox="0 0 10 10"><desc>"#@;
    let uses = repeated("&big;"@, 2_000);
    let tail = r#"</desc><rect width="10" height="10" fill="red"/></svg>"#@;
    let doc = head + value + middle + uses + tail;
    assert(encode_utf8(doc) == expansion_list()[1].bytes);
    lemma_occurs_between(head + value + middle, uses, tail);
    reveal_strlit("&big;");
    reveal_strlit("&");
    reveal_strlit("big");
    reveal_strlit(";");
    assert("&big;"@ =~= reference("big"@));
    reveal_strlit(r#"<?xml version="1.0"?><!DOCTYPE svg [<!ENTITY big ""#);
    reveal_strlit(r#"">]><svg xmlns="http://www.w3.org/2000/svg" viewBox="0 0 10 10"><desc>"#);
    reveal_strlit("<!ENTITY ");
    reveal_strlit(r#" ""#);
    reveal_strlit(r#"">"#);
    let decl = declaration("big"@, value);
    let a = head.take(36);
    let b = middle.skip(2) + uses + tail;
    assert(head =~= a + ("<!ENTITY "@ + "big"@ + r#" ""#@));
    assert(middle =~= r#"">"#@ + middle.skip(2));
    assert(a + decl + b =~= doc);
    lemma_occurs_between(a, decl, b);
    if declared_in(entities, doc) {
        reveal_strlit("b");
        lemma_all_b(50_000);
        assert(entities["big"@] == value);
        assert(!"big"@.contains(';'));
        lemma_references(entities, "big"@, 2_000, 1);
        lemma_plain(entities, "b"@, 50_000, 0);
    }
}

proof fn lemma_all_b(n: nat)
    ensures
        !repeated("b"@, n).contains('"'),
    decreases n,
{
    reveal_strlit("b");
    if n > 0 {
        let m = (n - 1) as nat;
        lemma_all_b(m);
        let whole = repeated("b"@, n);
        if whole.contains('"') {
            let i: int = choose|i: int| 0 <= i < whole.len() && whole[i] == '"';
            assert(repeated("b"@, m)[i] == '"');
        }
    }
}

/// Every external case names something outside to fetch: the listener, the file that
/// must not be read, or a share; none of them may be reached, so each has merely to be
/// survived.
pub proof fn external_cases_reach_outside(url: Seq<char>, sentinel: Seq<char>)
    ensures
        external_list(url, sentinel).len() == 8,
        forall|i: int|
            0 <= i < 8 && i != 2 && i != 4 ==> spells(#[trigger] external_list(url, sentinel)[i], url),
        spells(external_list(url, sentinel)[2], sentinel),
        spells(external_list(url, sentinel)[4], r"\\127.0.0.1\share\probe.dtd"@),
        forall|i: int|
            0 <= i < 8 ==> (#[trigger] external_list(url, sentinel)[i]).expect == Expect::Survive,
{
    let e = external_list(url, sentinel);
    lemma_spells(
        e[0],
        r#"<?xml version="1.0"?><!DOCTYPE svg SYSTEM ""#@,
        url,
        r#"/external.dtd"><svg xmlns="http://www.w3.org/2000/svg" viewBox="0 0 10 10"><rect width="10" height="10" fill="red"/></svg>"#@,
    );
    lemma_spells(
        e[1],
        r#"<?xml version="1.0"?><!DOCTYPE svg [<!ENTITY xxe SYSTEM ""#@,
        url,
        r#"/entity">]><svg xmlns="http://www.w3.org/2000/svg" viewBox="0 0 10 10"><desc>&xxe;</desc><rect width="10" height="10" fill="red"/></svg>"#@,
    );
    lemma_spells(
        e[2],
        r#"<?xml version="1.0"?><!DOCTYPE svg [<!ENTITY xxe SYSTEM "file:///"#@,
        sentinel,
        r#"">]><svg xmlns="http://www.w3.org/2000/svg" viewBox="0 0 10 10"><desc>&xxe;</desc><rect width="10" height="10" fill="red"/></svg>"#@,
    );
    lemma_spells(
        e[3],
        r#"<?xml version="1.0"?><!DOCTYPE svg [<!ENTITY % pe SYSTEM ""#@,
        url,
        r#"/param.dtd">%pe;]><svg xmlns="http://www.w3.org/2000/svg" viewBox="0 0 10 10"><rect width="10" height="10" fill="red"/></svg>"#@,
    );
    lemma_share();
    lemma_spells(
        e[4],
        r#"<?xml version="1.0"?><!DOCTYPE svg [<!ENTITY xxe SYSTEM ""#@,
        r"\\127.0.0.1\share\probe.dtd"@,
        r#"">]><svg xmlns="http://www.w3.org/2000/svg" viewBox="0 0 10 10"><desc>&xxe;</desc><rect width="10" height="10" fill="red"/></svg>"#@,
    );
    lemma_spells(
        e[5],
        r#"<?xml version="1.0"?><!DOCTYPE svg [<!ENTITY xxe SYSTEM ""#@,
        url,
        r#"/attr">]><svg xmlns="http://www.w3.org/2000/svg" viewBox="0 0 10 10"><rect width="10" height="10" fill="red" data-x="&xxe;"/></svg>"#@,
    );
    lemma_spells(
        e[6],
        r#"<?xml version="1.0"?><?xml-stylesheet type="text/css" href=""#@,
        url,
        r#"/style.css"?><svg xmlns="http://www.w3.org/2000/svg" viewBox="0 0 10 10"><rect width="10" height="10" fill="red"/></svg>"#@,
    );
    lemma_spells(
        e[7],
        r#"<svg xmlns="http://www.w3.org/2000/svg" xmlns:xlink="http://www.w3.org/1999/xlink" viewBox="0 0 10 10"><image xlink:href=""#@,
        url,
        r#"/image.png" width="10" height="10"/></svg>"#@,
    );
}

proof fn lemma_share()
    ensures
        r#"<?xml version="1.0"?><!DOCTYPE svg [<!ENTITY xxe SYSTEM "\\127.0.0.1\share\probe.dtd">]><svg xmlns="http://www.w3.org/2000/svg" viewBox="0 0 10 10"><desc>&xxe;</desc><rect width="10" height="10" fill="red"/></svg>"#@
            == r#"<?xml version="1.0"?><!DOCTYPE svg [<!ENTITY xxe SYSTEM ""#@
            + r"\\127.0.0.1\share\probe.dtd"@
            + r#"">]><svg xmlns="http://www.w3.org/2000/svg" viewBox="0 0 10 10"><desc>&xxe;</desc><rect width="10" height="10" fill="red"/></svg>"#@,
{
    reveal_strlit(r#"<?xml version="1.0"?><!DOCTYPE svg [<!ENTITY xxe SYSTEM "\\127.0.0.1\share\probe.dtd">]><svg xmlns="http://www.w3.org/2000/svg" viewBox="0 0 10 10"><desc>&xxe;</desc><rect width="10" height="10" fill="red"/></svg>"#);
    reveal_strlit(r#"<?xml version="1.0"?><!DOCTYPE svg [<!ENTITY xxe SYSTEM ""#);
    reveal_strlit(r"\\127.0.0.1\share\probe.dtd");
    reveal_strlit(r#"">]><svg xmlns="http://www.w3.org/2000/svg" viewBox="0 0 10 10"><desc>&xxe;</desc><rect width="10" height="10" fill="red"/></svg>"#);
    assert(r#"<?xml version="1.0"?><!DOCTYPE svg [<!ENTITY xxe SYSTEM "\\127.0.0.1\share\probe.dtd">]><svg xmlns="http://www.w3.org/2000/svg" viewBox="0 0 10 10"><desc>&xxe;</desc><rect width="10" height="10" fill="red"/></svg>"#@
        =~= r#"<?xml version="1.0"?><!DOCTYPE svg [<!ENTITY xxe SYSTEM ""#@
        + r"\\127.0.0.1\share\probe.dtd"@
        + r#"">]><svg xmlns="http://www.w3.org/2000/svg" viewBox="0 0 10 10"><desc>&xxe;</desc><rect width="10" height="10" fill="red"/></svg>"#@);
}

} // verus!
