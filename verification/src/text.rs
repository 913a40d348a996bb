//! Text building blocks shared by every suite.
//!
//! Each executable function here has a mathematical twin over `Seq<char>`: the
//! contracts of the rest of the crate are written with the twins, so a report
//! line is pinned character by character.

use vstd::prelude::*;
use vstd::utf8::encode_utf8;

verus! {

/// `String::push`: appends one character to the end of the string.
pub assume_specification[ String::push ](s: &mut String, c: char)
    ensures
        final(s)@ == old(s)@.push(c),
;

// ---------------------------------------------------------------
//                     Comparison and scanning
// ---------------------------------------------------------------

/// Whether two texts are the same sequence of characters.
pub fn same(a: &str, b: &str) -> (r: bool)
    ensures
        r == (a@ == b@),
{
    let x: &[u8] = a.as_bytes();
    let y: &[u8] = b.as_bytes();
    proof {
        vstd::utf8::encode_utf8_decode_utf8(a@);
        vstd::utf8::encode_utf8_decode_utf8(b@);
    }
    if x.len() != y.len() {
        return false;
    }
    let n: usize = x.len();
    let mut i: usize = 0;
    while i < n
        invariant
            x@.len() == n,
            y@.len() == n,
            i <= n,
            x@ == encode_utf8(a@),
            y@ == encode_utf8(b@),
            forall|k: int| 0 <= k < i ==> x@[k] == y@[k],
        decreases n - i,
    {
        if x[i] != y[i] {
            return false;
        }
        i += 1;
    }
    assert(x@ =~= y@);
    true
}

/// The characters of a text, in order.
pub fn chars_of(s: &str) -> (v: Vec<char>)
    ensures
        v@ == s@,
{
    let mut v: Vec<char> = Vec::new();
    for c in it: s.chars()
        invariant
            v@ == it.seq().take(it.index() as int),
            it.seq() == s@,
    {
        v.push(c);
    }
    assert(v@ =~= s@);
    v
}

/// Whether `s` begins with `prefix`.
pub open spec fn begins_with(s: Seq<char>, prefix: Seq<char>) -> bool {
    prefix.len() <= s.len() && s.take(prefix.len() as int) == prefix
}

pub fn starts_with(s: &str, prefix: &str) -> (r: bool)
    ensures
        r == begins_with(s@, prefix@),
{
    let x: Vec<char> = chars_of(s);
    let y: Vec<char> = chars_of(prefix);
    if x.len() < y.len() {
        return false;
    }
    let mut i: usize = 0;
    while i < y.len()
        invariant
            x@ == s@,
            y@ == prefix@,
            i <= y@.len() <= x@.len(),
            forall|k: int| 0 <= k < i ==> x@[k] == y@[k],
        decreases y@.len() - i,
    {
        if x[i] != y[i] {
            assert(s@.take(prefix@.len() as int)[i as int] != prefix@[i as int]);
            return false;
        }
        i += 1;
    }
    assert(s@.take(prefix@.len() as int) =~= prefix@);
    true
}

/// `s` up to, and without, its first newline.
pub open spec fn first_line(s: Seq<char>) -> Seq<char>
    decreases s.len(),
{
    if s.len() == 0 || s[0] == '\n' {
        Seq::empty()
    } else {
        seq![s[0]] + first_line(s.drop_first())
    }
}

/// `s` after its first newline; empty when there is none.
pub open spec fn after_first_line(s: Seq<char>) -> Seq<char>
    decreases s.len(),
{
    if s.len() == 0 {
        Seq::empty()
    } else if s[0] == '\n' {
        s.drop_first()
    } else {
        after_first_line(s.drop_first())
    }
}

pub proof fn lemma_first_line(s: Seq<char>, i: int)
    requires
        0 <= i <= s.len(),
        forall|k: int| 0 <= k < i ==> s[k] != '\n',
        i == s.len() || s[i] == '\n',
    ensures
        first_line(s) == s.take(i),
        after_first_line(s) == (if i < s.len() {
            s.skip(i + 1)
        } else {
            Seq::empty()
        }),
    decreases s.len(),
{
    if s.len() == 0 || s[0] == '\n' {
        assert(first_line(s) =~= s.take(i));
        if s.len() > 0 {
            assert(i == 0);
            assert(s.drop_first() =~= s.skip(1));
        }
    } else {
        let t = s.drop_first();
        assert forall|k: int| 0 <= k < i - 1 implies t[k] != '\n' by {
            assert(t[k] == s[k + 1]);
        }
        lemma_first_line(t, i - 1);
        assert(seq![s[0]] + t.take(i - 1) =~= s.take(i));
        if i < s.len() {
            assert(t.skip(i) =~= s.skip(i + 1));
        }
    }
}

/// Unicode `White_Space`.
pub open spec fn is_space(c: char) -> bool {
    ||| '\u{9}' <= c <= '\u{d}'
    ||| c == ' '
    ||| c == '\u{85}'
    ||| c == '\u{a0}'
    ||| c == '\u{1680}'
    ||| '\u{2000}' <= c <= '\u{200a}'
    ||| c == '\u{2028}'
    ||| c == '\u{2029}'
    ||| c == '\u{202f}'
    ||| c == '\u{205f}'
    ||| c == '\u{3000}'
}

pub fn white_space(c: char) -> (r: bool)
    ensures
        r == is_space(c),
{
    ('\u{9}' <= c && c <= '\u{d}') || c == ' ' || c == '\u{85}' || c == '\u{a0}' || c == '\u{1680}' || (
    '\u{2000}' <= c && c <= '\u{200a}') || c == '\u{2028}' || c == '\u{2029}' || c == '\u{202f}' || c
        == '\u{205f}' || c == '\u{3000}'
}

/// `s` without its leading white space.
pub open spec fn trim_front(s: Seq<char>) -> Seq<char>
    decreases s.len(),
{
    if s.len() > 0 && is_space(s[0]) {
        trim_front(s.drop_first())
    } else {
        s
    }
}

/// `s` without its trailing white space.
pub open spec fn trim_back(s: Seq<char>) -> Seq<char>
    decreases s.len(),
{
    if s.len() > 0 && is_space(s.last()) {
        trim_back(s.drop_last())
    } else {
        s
    }
}

/// `s` without white space at either end.
pub open spec fn trimmed(s: Seq<char>) -> Seq<char> {
    trim_back(trim_front(s))
}

pub proof fn lemma_trim_front(s: Seq<char>, i: int)
    requires
        0 <= i <= s.len(),
        forall|k: int| 0 <= k < i ==> is_space(s[k]),
        i == s.len() || !is_space(s[i]),
    ensures
        trim_front(s) == s.skip(i),
    decreases i,
{
    if i == 0 {
        assert(s.skip(0) =~= s);
    } else {
        let t = s.drop_first();
        assert forall|k: int| 0 <= k < i - 1 implies is_space(t[k]) by {
            assert(t[k] == s[k + 1]);
        }
        lemma_trim_front(t, i - 1);
        assert(t.skip(i - 1) =~= s.skip(i));
    }
}

pub proof fn lemma_trim_back(s: Seq<char>, j: int)
    requires
        0 <= j <= s.len(),
        forall|k: int| j <= k < s.len() ==> is_space(s[k]),
        j == 0 || !is_space(s[j - 1]),
    ensures
        trim_back(s) == s.take(j),
    decreases s.len() - j,
{
    if j == s.len() {
        assert(s.take(j) =~= s);
    } else {
        lemma_trim_back(s.drop_last(), j);
        assert(s.drop_last().take(j) =~= s.take(j));
    }
}

/// The part of `s` from character `from` to character `to`, without white
/// space at either end.
fn trim_range<'a>(s: &'a str, v: &Vec<char>, from: usize, to: usize) -> (r: &'a str)
    requires
        v@ == s@,
        from <= to <= s@.len(),
    ensures
        r@ == trimmed(s@.subrange(from as int, to as int)),
{
    let ghost part = s@.subrange(from as int, to as int);
    let mut i: usize = from;
    while i < to && white_space(v[i])
        invariant
            v@ == s@,
            part == s@.subrange(from as int, to as int),
            from <= i <= to <= s@.len(),
            forall|k: int| 0 <= k < i - from ==> is_space(part[k]),
        decreases to - i,
    {
        i += 1;
    }
    proof {
        assert(i < to ==> part[i - from] == s@[i as int]);
        lemma_trim_front(part, i - from);
    }
    let ghost rest = part.skip(i - from);
    let mut j: usize = to;
    while j > i && white_space(v[j - 1])
        invariant
            v@ == s@,
            part == s@.subrange(from as int, to as int),
            rest == part.skip(i - from),
            from <= i <= j <= to <= s@.len(),
            forall|k: int| j - i <= k < rest.len() ==> is_space(rest[k]),
        decreases j,
    {
        j -= 1;
    }
    proof {
        assert(j > i ==> rest[j - i - 1] == s@[j - 1]);
        lemma_trim_back(rest, j - i);
        assert(rest.take(j - i) =~= s@.subrange(i as int, j as int));
    }
    s.substring_char(i, j)
}

/// `s` without white space at either end.
pub fn trim(s: &str) -> (r: &str)
    ensures
        r@ == trimmed(s@),
{
    let v: Vec<char> = chars_of(s);
    proof {
        assert(s@.subrange(0, s@.len() as int) =~= s@);
    }
    trim_range(s, &v, 0, v.len())
}

/// The first line of `s`, without white space at either end.
pub fn trimmed_first_line(s: &str) -> (r: &str)
    ensures
        r@ == trimmed(first_line(s@)),
{
    let v: Vec<char> = chars_of(s);
    let mut i: usize = 0;
    while i < v.len() && v[i] != '\n'
        invariant
            v@ == s@,
            i <= v@.len(),
            forall|k: int| 0 <= k < i ==> v@[k] != '\n',
        decreases v@.len() - i,
    {
        i += 1;
    }
    proof {
        lemma_first_line(s@, i as int);
        assert(s@.subrange(0, i as int) =~= s@.take(i as int));
    }
    trim_range(s, &v, 0, i)
}

/// The part of `s` after its last tab; all of `s` when it has none.
pub open spec fn after_last_tab(s: Seq<char>) -> Seq<char>
    decreases s.len(),
{
    if s.len() == 0 || s.last() == '\t' {
        Seq::empty()
    } else {
        after_last_tab(s.drop_last()).push(s.last())
    }
}

pub proof fn lemma_after_last_tab(s: Seq<char>, i: int)
    requires
        0 <= i <= s.len(),
        forall|k: int| i <= k < s.len() ==> s[k] != '\t',
        i == 0 || s[i - 1] == '\t',
    ensures
        after_last_tab(s) == s.skip(i),
    decreases s.len(),
{
    if s.len() == i {
        assert(s.skip(i) =~= Seq::empty());
    } else {
        lemma_after_last_tab(s.drop_last(), i);
        assert(s.drop_last().skip(i).push(s.last()) =~= s.skip(i));
    }
}

pub fn last_field(s: &str) -> (r: &str)
    ensures
        r@ == after_last_tab(s@),
{
    let v: Vec<char> = chars_of(s);
    let mut i: usize = v.len();
    while i > 0 && v[i - 1] != '\t'
        invariant
            v@ == s@,
            i <= v@.len(),
            forall|k: int| i <= k < v@.len() ==> v@[k] != '\t',
        decreases i,
    {
        i -= 1;
    }
    proof {
        lemma_after_last_tab(s@, i as int);
        assert(s@.subrange(i as int, s@.len() as int) =~= s@.skip(i as int));
    }
    s.substring_char(i, v.len())
}

/// `s` with every backslash turned into a forward slash.
pub open spec fn forward_slashes(s: Seq<char>) -> Seq<char> {
    s.map_values(
        |c: char|
            if c == '\\' {
                '/'
            } else {
                c
            },
    )
}

pub fn forward_slashed(s: &str) -> (r: String)
    ensures
        r@ == forward_slashes(s@),
{
    let v: Vec<char> = chars_of(s);
    let mut r: String = String::new();
    let mut i: usize = 0;
    while i < v.len()
        invariant
            v@ == s@,
            i <= v@.len(),
            r@ == forward_slashes(s@.take(i as int)),
        decreases v@.len() - i,
    {
        let c: char = v[i];
        proof {
            assert(s@.take(i + 1) =~= s@.take(i as int).push(c));
            assert(forward_slashes(s@.take(i + 1)) =~= forward_slashes(s@.take(i as int)).push(
                if c == '\\' {
                    '/'
                } else {
                    c
                },
            ));
        }
        if c == '\\' {
            r.push('/');
        } else {
            r.push(c);
        }
        i += 1;
    }
    assert(s@.take(s@.len() as int) =~= s@);
    r
}

// ---------------------------------------------------------------
//                         Concatenation
// ---------------------------------------------------------------

pub fn two(a: &str, b: &str) -> (s: String)
    ensures
        s@ == a@ + b@,
{
    let mut s: String = a.to_owned();
    s.append(b);
    s
}

pub fn three(a: &str, b: &str, c: &str) -> (s: String)
    ensures
        s@ == a@ + b@ + c@,
{
    let mut s: String = two(a, b);
    s.append(c);
    s
}

pub fn five(a: &str, b: &str, c: &str, d: &str, e: &str) -> (s: String)
    ensures
        s@ == a@ + b@ + c@ + d@ + e@,
{
    let mut s: String = three(a, b, c);
    s.append(d);
    s.append(e);
    s
}

// ---------------------------------------------------------------
//                       Repetition and joining
// ---------------------------------------------------------------

/// `s`, `n` times over.
pub open spec fn repeated(s: Seq<char>, n: nat) -> Seq<char>
    decreases n,
{
    if n == 0 {
        Seq::empty()
    } else {
        repeated(s, (n - 1) as nat) + s
    }
}

pub fn repeat(s: &str, n: usize) -> (r: String)
    ensures
        r@ == repeated(s@, n as nat),
{
    let mut r: String = String::new();
    let mut i: usize = 0;
    while i < n
        invariant
            i <= n,
            r@ == repeated(s@, i as nat),
        decreases n - i,
    {
        r.append(s);
        i += 1;
    }
    r
}

/// The texts that a list of strings holds.
pub open spec fn texts(items: Seq<String>) -> Seq<Seq<char>> {
    items.map_values(|s: String| s@)
}

/// Appends a list of texts to another.
pub fn extend_texts(v: &mut Vec<String>, more: Vec<String>)
    ensures
        texts(final(v)@) == texts(old(v)@) + texts(more@),
{
    let mut more: Vec<String> = more;
    let ghost added = more@;
    v.append(&mut more);
    assert(texts(old(v)@ + added) =~= texts(old(v)@) + texts(added));
}

/// An empty list of texts.
pub fn no_texts() -> (v: Vec<String>)
    ensures
        texts(v@) == Seq::<Seq<char>>::empty(),
{
    let v: Vec<String> = Vec::new();
    assert(texts(v@) =~= Seq::<Seq<char>>::empty());
    v
}

/// Appends one text to a list.
pub fn push_text(v: &mut Vec<String>, s: String)
    ensures
        texts(final(v)@) == texts(old(v)@).push(s@),
{
    let ghost held = s@;
    v.push(s);
    assert(texts(v@) =~= texts(old(v)@).push(held));
}

/// `items` one after another, with `sep` between neighbours.
pub open spec fn joined(items: Seq<Seq<char>>, sep: Seq<char>) -> Seq<char>
    decreases items.len(),
{
    if items.len() == 0 {
        Seq::empty()
    } else if items.len() == 1 {
        items[0]
    } else {
        joined(items.drop_last(), sep) + sep + items.last()
    }
}

/// Joins the first `n` items.
pub fn join_first(items: &Vec<String>, n: usize, sep: &str) -> (r: String)
    requires
        n <= items@.len(),
    ensures
        r@ == joined(texts(items@).take(n as int), sep@),
{
    let mut r: String = String::new();
    let mut i: usize = 0;
    assert(texts(items@).take(0) =~= Seq::empty());
    while i < n
        invariant
            i <= n <= items@.len(),
            r@ == joined(texts(items@).take(i as int), sep@),
        decreases n - i,
    {
        let ghost before = r@;
        if i > 0 {
            r.append(sep);
        }
        r.append(items[i].as_str());
        proof {
            let next = texts(items@).take(i + 1);
            assert(next.drop_last() =~= texts(items@).take(i as int));
            assert(next.last() == items@[i as int]@);
            if i == 0 {
                assert(before =~= Seq::empty());
                assert(r@ =~= next[0]);
            }
        }
        i += 1;
    }
    r
}

pub fn join(items: &Vec<String>, sep: &str) -> (r: String)
    ensures
        r@ == joined(texts(items@), sep@),
{
    assert(texts(items@).take(items@.len() as int) =~= texts(items@));
    join_first(items, items.len(), sep)
}

// ---------------------------------------------------------------
//                            Columns
// ---------------------------------------------------------------

/// As many spaces as `len` characters need to fill `width`.
pub open spec fn filler(len: nat, width: nat) -> Seq<char> {
    repeated(seq![' '], if len < width {
        (width - len) as nat
    } else {
        0
    })
}

/// `s` on the left of a column.
pub open spec fn left_in(s: Seq<char>, width: nat) -> Seq<char> {
    s + filler(s.len(), width)
}

/// `s` on the right of a column.
pub open spec fn right_in(s: Seq<char>, width: nat) -> Seq<char> {
    filler(s.len(), width) + s
}

fn spaces(len: usize, width: usize) -> (r: String)
    ensures
        r@ == filler(len as nat, width as nat),
{
    proof {
        reveal_strlit(" ");
        assert(" "@ =~= seq![' ']);
    }
    let n: usize = if len < width {
        width - len
    } else {
        0
    };
    repeat(" ", n)
}

pub fn pad_right(s: &str, width: usize) -> (r: String)
    ensures
        r@ == left_in(s@, width as nat),
{
    let mut r: String = s.to_owned();
    let n: usize = chars_of(s).len();
    r.append(spaces(n, width).as_str());
    r
}

pub fn pad_left(s: &str, width: usize) -> (r: String)
    ensures
        r@ == right_in(s@, width as nat),
{
    let n: usize = chars_of(s).len();
    let mut r: String = spaces(n, width);
    r.append(s);
    r
}

// ---------------------------------------------------------------
//                          Small values
// ---------------------------------------------------------------

pub open spec fn bool_word(b: bool) -> Seq<char> {
    if b {
        "true"@
    } else {
        "false"@
    }
}

pub fn bool_text(b: bool) -> (r: &'static str)
    ensures
        r@ == bool_word(b),
{
    if b {
        "true"
    } else {
        "false"
    }
}

/// Bytes of a text.
pub fn text_bytes(s: &str) -> (v: Vec<u8>)
    ensures
        v@ == encode_utf8(s@),
{
    vstd::slice::slice_to_vec(s.as_bytes())
}

// ---------------------------------------------------------------
//                       Texts within texts
// ---------------------------------------------------------------

/// `part` stands in `whole` from character `i` on.
pub open spec fn occurs_at(part: Seq<char>, whole: Seq<char>, i: int) -> bool {
    &&& 0 <= i
    &&& i + part.len() <= whole.len()
    &&& whole.subrange(i, i + part.len()) == part
}

/// `part` stands somewhere in `whole`.
pub open spec fn occurs(part: Seq<char>, whole: Seq<char>) -> bool {
    exists|i: int| occurs_at(part, whole, i)
}

/// What stands between two texts stands in the whole.
pub proof fn lemma_occurs_between(a: Seq<char>, part: Seq<char>, b: Seq<char>)
    ensures
        occurs(part, a + part + b),
{
    let whole = a + part + b;
    let i: int = a.len() as int;
    assert(whole.subrange(i, i + part.len()) =~= part);
    assert(occurs_at(part, whole, i));
}

/// What stands in a text stands in every longer one.
pub proof fn lemma_occurs_in_more(part: Seq<char>, a: Seq<char>, whole: Seq<char>, b: Seq<char>)
    requires
        occurs(part, whole),
    ensures
        occurs(part, a + whole + b),
{
    let i: int = choose|i: int| occurs_at(part, whole, i);
    let more = a + whole + b;
    let j: int = a.len() + i;
    assert(more.subrange(j, j + part.len()) =~= whole.subrange(i, i + part.len()));
    assert(occurs_at(part, more, j));
}

/// A text `n` times over has `n` times its length; every copy stands in its place.
pub proof fn copies_stand_side_by_side(s: Seq<char>, n: nat, k: nat)
    ensures
        repeated(s, n).len() == n * s.len(),
        k < n ==> occurs_at(s, repeated(s, n), (k * s.len()) as int),
    decreases n,
{
    if n > 0 {
        let m = (n - 1) as nat;
        copies_stand_side_by_side(s, m, k);
        let whole = repeated(s, n);
        assert(m * s.len() + s.len() == n * s.len()) by (nonlinear_arith)
            requires
                m == n - 1,
        ;
        if k < m {
            let i: int = (k * s.len()) as int;
            assert(whole.subrange(i, i + s.len()) =~= repeated(s, m).subrange(i, i + s.len()));
        } else if k == m {
            let i: int = (k * s.len()) as int;
            assert(i == repeated(s, m).len());
            assert(whole.subrange(i, i + s.len()) =~= s);
        }
    } else {
        assert(n * s.len() == 0) by (nonlinear_arith)
            requires
                n == 0,
        ;
    }
}

/// A repeated text begins with one copy and goes on with the others.
pub proof fn lemma_repeated_front(s: Seq<char>, n: nat)
    requires
        n > 0,
    ensures
        repeated(s, n) == s + repeated(s, (n - 1) as nat),
    decreases n,
{
    let m = (n - 1) as nat;
    if m > 0 {
        lemma_repeated_front(s, m);
        assert(s + repeated(s, (m - 1) as nat) + s =~= s + (repeated(s, (m - 1) as nat) + s));
    } else {
        assert(repeated(s, 0) + s =~= s + repeated(s, 0));
    }
}

/// Trimming takes away nothing but white space, and leaves none at either end.
pub proof fn trimming_removes_white_space_only(s: Seq<char>)
    ensures
        trimmed(s).len() > 0 ==> !is_space(trimmed(s)[0]) && !is_space(trimmed(s).last()),
        exists|a: Seq<char>, b: Seq<char>|
            s == #[trigger] (a + trimmed(s) + b) && (forall|i: int|
                0 <= i < a.len() ==> is_space(#[trigger] a[i])) && (forall|i: int|
                0 <= i < b.len() ==> is_space(#[trigger] b[i])),
{
    let t = trim_front(s);
    lemma_trimmed_front(s);
    lemma_trimmed_back(t);
    let i: int = choose|i: int|
        0 <= i <= s.len() && t == s.skip(i) && forall|k: int| 0 <= k < i ==> is_space(#[trigger] s[k]);
    let j: int = choose|j: int|
        0 <= j <= t.len() && trimmed(s) == t.take(j) && forall|k: int|
            j <= k < t.len() ==> is_space(#[trigger] t[k]);
    let a = s.take(i);
    let b = t.skip(j);
    assert(s =~= a + trimmed(s) + b);
    if trimmed(s).len() > 0 {
        assert(trimmed(s)[0] == t[0]);
    }
}

proof fn lemma_trimmed_front(s: Seq<char>)
    ensures
        trim_front(s).len() > 0 ==> !is_space(trim_front(s)[0]),
        exists|i: int|
            0 <= i <= s.len() && trim_front(s) == s.skip(i) && forall|k: int|
                0 <= k < i ==> is_space(#[trigger] s[k]),
    decreases s.len(),
{
    if s.len() > 0 && is_space(s[0]) {
        let t = s.drop_first();
        lemma_trimmed_front(t);
        let i: int = choose|i: int|
            0 <= i <= t.len() && trim_front(t) == t.skip(i) && forall|k: int|
                0 <= k < i ==> is_space(#[trigger] t[k]);
        assert(t.skip(i) =~= s.skip(i + 1));
        assert forall|k: int| 0 <= k < i + 1 implies is_space(#[trigger] s[k]) by {
            if k > 0 {
                assert(t[k - 1] == s[k]);
            }
        }
    } else {
        assert(s.skip(0) =~= s);
    }
}

proof fn lemma_trimmed_back(s: Seq<char>)
    ensures
        trim_back(s).len() > 0 ==> !is_space(trim_back(s).last()),
        exists|j: int|
            0 <= j <= s.len() && trim_back(s) == s.take(j) && forall|k: int|
                j <= k < s.len() ==> is_space(#[trigger] s[k]),
    decreases s.len(),
{
    if s.len() > 0 && is_space(s.last()) {
        let t = s.drop_last();
        lemma_trimmed_back(t);
        let j: int = choose|j: int|
            0 <= j <= t.len() && trim_back(t) == t.take(j) && forall|k: int|
                j <= k < t.len() ==> is_space(#[trigger] t[k]);
        assert(t.take(j) =~= s.take(j));
        assert forall|k: int| j <= k < s.len() implies is_space(#[trigger] s[k]) by {
            if k < t.len() {
                assert(t[k] == s[k]);
            }
        }
    } else {
        assert(s.take(s.len() as int) =~= s);
    }
}

/// The first line has no newline in it, and what follows it is what comes after the
/// newline that ends it.
pub proof fn the_first_line_ends_at_the_first_newline(s: Seq<char>)
    ensures
        !first_line(s).contains('\n'),
        s.contains('\n') ==> s == first_line(s) + seq!['\n'] + after_first_line(s),
        !s.contains('\n') ==> first_line(s) == s && after_first_line(s).len() == 0,
    decreases s.len(),
{
    if s.len() > 0 && s[0] != '\n' {
        let t = s.drop_first();
        the_first_line_ends_at_the_first_newline(t);
        if first_line(s).contains('\n') {
            let i: int = choose|i: int|
                0 <= i < first_line(s).len() && first_line(s)[i] == '\n';
            assert(first_line(t)[i - 1] == '\n');
        }
        if s.contains('\n') {
            let i: int = choose|i: int| 0 <= i < s.len() && s[i] == '\n';
            assert(t[i - 1] == '\n');
            assert(s =~= seq![s[0]] + t);
            let rest = seq!['\n'] + after_first_line(t);
            assert(t =~= first_line(t) + rest);
            assert(seq![s[0]] + (first_line(t) + rest) =~= first_line(s) + rest);
            assert(s =~= first_line(s) + seq!['\n'] + after_first_line(s));
        } else {
            if t.contains('\n') {
                let i: int = choose|i: int| 0 <= i < t.len() && t[i] == '\n';
                assert(s[i + 1] == '\n');
            }
            assert(first_line(s) =~= s);
        }
    } else if s.len() > 0 {
        assert(s[0] == '\n');
        assert(s =~= first_line(s) + seq!['\n'] + after_first_line(s));
    }
}

/// The last field has no tab in it, and a tab stands before it where it is not the whole
/// text.
pub proof fn the_last_field_follows_the_last_tab(s: Seq<char>)
    ensures
        !after_last_tab(s).contains('\t'),
        s.contains('\t') ==> exists|a: Seq<char>|
            s == #[trigger] (a + seq!['\t'] + after_last_tab(s)),
        !s.contains('\t') ==> after_last_tab(s) == s,
    decreases s.len(),
{
    if s.len() > 0 && s.last() != '\t' {
        let t = s.drop_last();
        the_last_field_follows_the_last_tab(t);
        let f = after_last_tab(s);
        if f.contains('\t') {
            let i: int = choose|i: int| 0 <= i < f.len() && f[i] == '\t';
            assert(after_last_tab(t)[i] == '\t');
        }
        if s.contains('\t') {
            let i: int = choose|i: int| 0 <= i < s.len() && s[i] == '\t';
            assert(t[i] == '\t');
            let a = choose|a: Seq<char>| t == #[trigger] (a + seq!['\t'] + after_last_tab(t));
            assert(s =~= t.push(s.last()));
            assert((a + seq!['\t'] + after_last_tab(t)).push(s.last()) =~= a + seq!['\t'] + f);
            assert(s =~= a + seq!['\t'] + f);
        } else {
            if t.contains('\t') {
                let i: int = choose|i: int| 0 <= i < t.len() && t[i] == '\t';
                assert(s[i] == '\t');
            }
            assert(f =~= s);
        }
    } else if s.len() > 0 {
        let a = s.drop_last();
        assert(s[s.len() - 1] == '\t');
        assert(s =~= a + seq!['\t'] + after_last_tab(s));
    }
}

/// Forward slashes keep the length, leave no backslash, and change nothing else.
pub proof fn forward_slashes_change_backslashes_only(s: Seq<char>, i: int)
    requires
        0 <= i < s.len(),
    ensures
        forward_slashes(s).len() == s.len(),
        s[i] == '\\' ==> forward_slashes(s)[i] == '/',
        s[i] != '\\' ==> forward_slashes(s)[i] == s[i],
{
}

/// A column is as wide as asked for, or as its text where that is wider; the text stands
/// at the named end and only spaces are added.
pub proof fn columns_are_as_wide_as_asked(s: Seq<char>, width: nat)
    ensures
        left_in(s, width).len() == (if s.len() < width {
            width
        } else {
            s.len()
        }),
        right_in(s, width).len() == left_in(s, width).len(),
        left_in(s, width).take(s.len() as int) == s,
        right_in(s, width).skip(right_in(s, width).len() - s.len()) == s,
        forall|i: int|
            s.len() <= i < left_in(s, width).len() ==> #[trigger] left_in(s, width)[i] == ' ',
        forall|i: int|
            0 <= i < right_in(s, width).len() - s.len() ==> #[trigger] right_in(s, width)[i] == ' ',
{
    let n: nat = if s.len() < width {
        (width - s.len()) as nat
    } else {
        0
    };
    lemma_spaces(n);
    assert(left_in(s, width).take(s.len() as int) =~= s);
    assert(right_in(s, width).skip(right_in(s, width).len() - s.len()) =~= s);
}

proof fn lemma_spaces(n: nat)
    ensures
        repeated(seq![' '], n).len() == n,
        forall|i: int| 0 <= i < n ==> #[trigger] repeated(seq![' '], n)[i] == ' ',
    decreases n,
{
    if n > 0 {
        lemma_spaces((n - 1) as nat);
    }
}

/// Every item stands in the joined text, with the separator after each but the last.
pub proof fn joining_keeps_every_item(items: Seq<Seq<char>>, sep: Seq<char>, k: int)
    requires
        0 <= k < items.len(),
    ensures
        occurs(items[k], joined(items, sep)),
        k + 1 < items.len() ==> occurs(items[k] + sep + items[k + 1], joined(items, sep)),
    decreases items.len(),
{
    let n = items.len();
    let none = Seq::<char>::empty();
    if n == 1 {
        lemma_occurs_between(none, items[0], none);
        assert(none + items[0] + none =~= items[0]);
    } else {
        let rest = items.drop_last();
        if k < n - 1 {
            joining_keeps_every_item(rest, sep, k);
            assert(rest[k] == items[k]);
            lemma_joined_more(items[k], items, sep);
            if k + 1 < n - 1 {
                assert(rest[k + 1] == items[k + 1]);
                lemma_joined_more(items[k] + sep + items[k + 1], items, sep);
            } else {
                lemma_joined_pair(items, sep);
            }
        } else {
            let front = joined(rest, sep) + sep;
            lemma_occurs_between(front, items[k], none);
            assert(front + items[k] + none =~= front + items[k]);
        }
    }
}

proof fn lemma_joined_more(part: Seq<char>, items: Seq<Seq<char>>, sep: Seq<char>)
    requires
        items.len() > 1,
        occurs(part, joined(items.drop_last(), sep)),
    ensures
        occurs(part, joined(items, sep)),
{
    let none = Seq::<char>::empty();
    let front = joined(items.drop_last(), sep);
    lemma_occurs_in_more(part, none, front, sep + items.last());
    assert(none + front + (sep + items.last()) =~= front + sep + items.last());
}

proof fn lemma_joined_pair(items: Seq<Seq<char>>, sep: Seq<char>)
    requires
        items.len() > 1,
    ensures
        occurs(items[items.len() - 2] + sep + items[items.len() - 1], joined(items, sep)),
{
    let rest = items.drop_last();
    lemma_joined_end(rest, sep);
    let a = choose|a: Seq<char>| joined(rest, sep) == #[trigger] (a + rest.last());
    lemma_occurs_at_the_end(a, rest.last(), sep, items.last());
    assert(rest.last() == items[items.len() - 2]);
}

/// What stands at the end stands in the whole.
pub proof fn lemma_occurs_at_the_end(a: Seq<char>, x: Seq<char>, sep: Seq<char>, y: Seq<char>)
    ensures
        occurs(x + sep + y, (a + x) + sep + y),
{
    let whole = (a + x) + sep + y;
    let part = x + sep + y;
    let i: int = a.len() as int;
    assert(whole.subrange(i, i + part.len()) =~= part);
    assert(occurs_at(part, whole, i));
}

proof fn lemma_joined_end(items: Seq<Seq<char>>, sep: Seq<char>)
    requires
        items.len() > 0,
    ensures
        exists|a: Seq<char>| joined(items, sep) == #[trigger] (a + items.last()),
{
    if items.len() == 1 {
        let a = Seq::<char>::empty();
        assert(a + items.last() =~= items[0]);
    } else {
        let a = joined(items.drop_last(), sep) + sep;
        assert(joined(items, sep) == a + items.last());
    }
}

/// A text begins with a prefix exactly when the prefix can be completed to the text;
/// every text begins with itself and with nothing.
pub proof fn what_a_text_begins_with(prefix: Seq<char>, rest: Seq<char>, s: Seq<char>)
    ensures
        begins_with(prefix + rest, prefix),
        begins_with(s, s),
        begins_with(s, Seq::empty()),
        begins_with(s, prefix) ==> s == prefix + s.skip(prefix.len() as int),
{
    assert((prefix + rest).take(prefix.len() as int) =~= prefix);
    assert(s.take(s.len() as int) =~= s);
    assert(s.take(0) =~= Seq::<char>::empty());
    if begins_with(s, prefix) {
        assert(s =~= prefix + s.skip(prefix.len() as int));
    }
}

} // verus!
