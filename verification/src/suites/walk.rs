//! Choosing the files of a corpus.
//!
//! A corpus is a directory with documents at any depth. The walk goes through it
//! depth first, every directory in the order of its names, so that a given corpus
//! always produces the same selection, which keeps failures reproducible.

use vstd::prelude::*;
use crate::text::chars_of;

verus! {

/// An upper-case ASCII letter as its lower-case one; anything else as it is.
pub open spec fn lower(c: char) -> char {
    if 'A' <= c <= 'Z' {
        ((c as u32) + 32) as char
    } else {
        c
    }
}

/// A file extension that names a plain document, in any mixture of case.
pub open spec fn names_svg(extension: Seq<char>) -> bool {
    &&& extension.len() == 3
    &&& lower(extension[0]) == 's'
    &&& lower(extension[1]) == 'v'
    &&& lower(extension[2]) == 'g'
}

/// Whether a file extension names a plain document.
pub fn is_svg(extension: &str) -> (r: bool)
    ensures
        r == names_svg(extension@),
{
    let v: Vec<char> = chars_of(extension);
    v.len() == 3 && (v[0] == 's' || v[0] == 'S') && (v[1] == 'v' || v[1] == 'V') && (v[2] == 'g'
        || v[2] == 'G')
}

/// What an entry of a directory is to the walk.
#[derive(Clone, Copy, Debug, PartialEq, Eq, Structural)]
pub enum EntryKind {
    Directory,
    Document,
    Other,
}

/// An entry of a directory.
#[derive(Debug, PartialEq, Eq)]
pub struct Entry {
    /// Its name in the encoding by which names are ordered.
    pub name: Vec<u8>,
    /// A number that stands for its path.
    pub id: usize,
    pub kind: EntryKind,
}

/// What an `Entry` stands for.
#[verifier::ext_equal]
pub struct EntryView {
    pub name: Seq<u8>,
    pub id: usize,
    pub kind: EntryKind,
}

impl View for Entry {
    type V = EntryView;

    open spec fn view(&self) -> EntryView {
        EntryView { name: self.name@, id: self.id, kind: self.kind }
    }
}

/// What a list of entries stands for.
pub open spec fn entry_views(entries: Seq<Entry>) -> Seq<EntryView> {
    entries.map_values(|e: Entry| e@)
}

pub open spec fn kind_of(is_dir: bool, extension: Option<Seq<char>>) -> EntryKind {
    if is_dir {
        EntryKind::Directory
    } else if extension is Some && names_svg(extension->0) {
        EntryKind::Document
    } else {
        EntryKind::Other
    }
}

/// A directory is walked whatever it is called; a file counts by its extension.
pub fn entry_kind(is_dir: bool, extension: Option<&str>) -> (k: EntryKind)
    ensures
        k == kind_of(
            is_dir,
            match extension {
                Some(e) => Some(e@),
                None => None,
            },
        ),
{
    if is_dir {
        return EntryKind::Directory;
    }
    match extension {
        Some(e) => if is_svg(e) {
            EntryKind::Document
        } else {
            EntryKind::Other
        },
        None => EntryKind::Other,
    }
}

// ---------------------------------------------------------------
//                        The order of names
// ---------------------------------------------------------------

/// `a` and `b` are the same up to place `k`, where `a` ends or has the smaller
/// byte.
pub open spec fn name_parts_at(a: Seq<u8>, b: Seq<u8>, k: int) -> bool {
    &&& 0 <= k <= a.len()
    &&& k < b.len()
    &&& a.take(k) == b.take(k)
    &&& k == a.len() || a[k] < b[k]
}

/// `a` comes before `b`, byte by byte.
pub open spec fn name_before(a: Seq<u8>, b: Seq<u8>) -> bool {
    exists|k: int| name_parts_at(a, b, k)
}

/// Whether a name comes before another.
pub fn comes_before(a: &[u8], b: &[u8]) -> (r: bool)
    ensures
        r == name_before(a@, b@),
{
    let mut k: usize = 0;
    while k < a.len() && k < b.len() && a[k] == b[k]
        invariant
            k <= a@.len(),
            k <= b@.len(),
            a@.take(k as int) == b@.take(k as int),
        decreases a@.len() - k,
    {
        assert(a@.take(k + 1) =~= a@.take(k as int).push(a@[k as int]));
        assert(b@.take(k + 1) =~= b@.take(k as int).push(b@[k as int]));
        k += 1;
    }
    let r: bool = k < b.len() && (k == a.len() || a[k] < b[k]);
    proof {
        if r {
            assert(name_parts_at(a@, b@, k as int));
        } else if name_before(a@, b@) {
            let j: int = choose|j: int| name_parts_at(a@, b@, j);
            assert(a@.take(j) == b@.take(j));
            if j < k {
                assert(a@.take(k as int)[j] == b@.take(k as int)[j]);
            } else if j > k {
                assert(a@.take(j)[k as int] == b@.take(j)[k as int]);
            }
            assert(false);
        }
    }
    r
}

/// No name comes before itself, of two different names one comes before the
/// other, and the order carries over a name between.
pub proof fn names_are_ordered(a: Seq<u8>, b: Seq<u8>, c: Seq<u8>)
    ensures
        !name_before(a, a),
        !(name_before(a, b) && name_before(b, a)),
        a != b ==> name_before(a, b) || name_before(b, a),
        name_before(a, b) && name_before(b, c) ==> name_before(a, c),
{
    if name_before(a, b) && name_before(b, c) {
        lemma_names_carry_over(a, b, c);
    }
    lemma_no_name_before_itself(a);
    if name_before(a, b) && name_before(b, a) {
        lemma_names_carry_over(a, b, a);
    }
    if a != b {
        assert(a.take(0) =~= b.take(0));
        lemma_names_part(a, b, 0);
    }
}

proof fn lemma_no_name_before_itself(a: Seq<u8>)
    ensures
        !name_before(a, a),
{
    if name_before(a, a) {
        let k: int = choose|k: int| name_parts_at(a, a, k);
        assert(name_parts_at(a, a, k));
    }
}

proof fn lemma_names_carry_over(a: Seq<u8>, b: Seq<u8>, c: Seq<u8>)
    requires
        name_before(a, b),
        name_before(b, c),
    ensures
        name_before(a, c),
{
    let j: int = choose|j: int| name_parts_at(a, b, j);
    let k: int = choose|k: int| name_parts_at(b, c, k);
    let m: int = if j < k {
        j
    } else {
        k
    };
    assert(a.take(m) =~= a.take(j).take(m));
    assert(b.take(m) =~= b.take(j).take(m));
    assert(b.take(m) =~= b.take(k).take(m));
    assert(c.take(m) =~= c.take(k).take(m));
    if j < k {
        assert(b.take(k)[j] == c.take(k)[j]);
    } else if k < j {
        assert(a.take(j)[k] == b.take(j)[k]);
    }
    assert(name_parts_at(a, c, m));
}

proof fn lemma_names_part(a: Seq<u8>, b: Seq<u8>, k: int)
    requires
        a != b,
        0 <= k <= a.len(),
        k <= b.len(),
        a.take(k) == b.take(k),
    ensures
        name_before(a, b) || name_before(b, a),
    decreases a.len() - k,
{
    if k == a.len() || k == b.len() {
        if k == a.len() && k == b.len() {
            assert(a =~= a.take(k));
            assert(b =~= b.take(k));
        } else if k == a.len() {
            assert(name_parts_at(a, b, k));
        } else {
            assert(name_parts_at(b, a, k));
        }
    } else if a[k] == b[k] {
        assert(a.take(k + 1) =~= a.take(k).push(a[k]));
        assert(b.take(k + 1) =~= b.take(k).push(b[k]));
        lemma_names_part(a, b, k + 1);
    } else if a[k] < b[k] {
        assert(name_parts_at(a, b, k));
    } else {
        assert(name_parts_at(b, a, k));
    }
}

// ---------------------------------------------------------------
//                     Ordering a directory
// ---------------------------------------------------------------

/// An entry put into an ordered list, before the first that does not come before
/// it.
pub open spec fn placed(e: EntryView, sorted: Seq<EntryView>) -> Seq<EntryView>
    decreases sorted.len(),
{
    if sorted.len() == 0 || !name_before(sorted[0].name, e.name) {
        seq![e] + sorted
    } else {
        seq![sorted[0]] + placed(e, sorted.drop_first())
    }
}

/// The entries of a directory in the order of their names.
pub open spec fn ordered(entries: Seq<EntryView>) -> Seq<EntryView>
    decreases entries.len(),
{
    if entries.len() == 0 {
        Seq::empty()
    } else {
        placed(entries[0], ordered(entries.drop_first()))
    }
}

/// No two entries have one name.
pub open spec fn distinct_names(entries: Seq<EntryView>) -> bool {
    forall|i: int, j: int|
        0 <= i < j < entries.len() ==> (#[trigger] entries[i]).name != (
        #[trigger] entries[j]).name
}

/// The same entries, in whatever order.
pub open spec fn same_entries(a: Seq<EntryView>, b: Seq<EntryView>) -> bool {
    forall|e: EntryView|
        #![trigger a.contains(e)]
        #![trigger b.contains(e)]
        a.contains(e) <==> b.contains(e)
}

/// Every entry comes before all that follow it.
pub open spec fn by_name(entries: Seq<EntryView>) -> bool {
    forall|i: int, j: int|
        0 <= i < j < entries.len() ==> name_before(
            (#[trigger] entries[i]).name,
            (#[trigger] entries[j]).name,
        )
}

/// Where an entry is put.
proof fn lemma_place(e: EntryView, sorted: Seq<EntryView>) -> (p: int)
    ensures
        0 <= p <= sorted.len(),
        forall|q: int| 0 <= q < p ==> name_before((#[trigger] sorted[q]).name, e.name),
        p < sorted.len() ==> !name_before(sorted[p].name, e.name),
        placed(e, sorted) == sorted.insert(p, e),
    decreases sorted.len(),
{
    if sorted.len() == 0 || !name_before(sorted[0].name, e.name) {
        assert(seq![e] + sorted =~= sorted.insert(0, e));
        0
    } else {
        let rest = sorted.drop_first();
        let p: int = lemma_place(e, rest);
        assert forall|q: int| 0 <= q < p + 1 implies name_before(
            (#[trigger] sorted[q]).name,
            e.name,
        ) by {
            if q > 0 {
                assert(sorted[q] == rest[q - 1]);
            }
        }
        assert(seq![sorted[0]] + rest.insert(p, e) =~= sorted.insert(p + 1, e));
        p + 1
    }
}

/// What `ordered` lists is what the directory holds, in the order of the names.
pub proof fn the_order_is_by_name(entries: Seq<EntryView>)
    ensures
        ordered(entries).len() == entries.len(),
        same_entries(ordered(entries), entries),
        distinct_names(entries) ==> by_name(ordered(entries)),
    decreases entries.len(),
{
    if entries.len() > 0 {
        let e = entries[0];
        let rest = entries.drop_first();
        let sorted = ordered(rest);
        the_order_is_by_name(rest);
        let p: int = lemma_place(e, sorted);
        let all = sorted.insert(p, e);
        assert(ordered(entries) == all);
        assert forall|x: EntryView| #[trigger] all.contains(x) <==> entries.contains(x) by {
            if all.contains(x) {
                let i: int = choose|i: int| 0 <= i < all.len() && all[i] == x;
                if i < p {
                    assert(sorted[i] == x);
                } else if i > p {
                    assert(sorted[i - 1] == x);
                }
                if i == p {
                    assert(entries[0] == x);
                } else {
                    assert(sorted.contains(x));
                    let j: int = choose|j: int| 0 <= j < rest.len() && rest[j] == x;
                    assert(entries[j + 1] == x);
                }
            }
            if entries.contains(x) {
                let i: int = choose|i: int| 0 <= i < entries.len() && entries[i] == x;
                if i == 0 {
                    assert(all[p] == x);
                } else {
                    assert(rest[i - 1] == x);
                    assert(sorted.contains(x));
                    let j: int = choose|j: int| 0 <= j < sorted.len() && sorted[j] == x;
                    assert(all[if j < p {
                        j
                    } else {
                        j + 1
                    }] == x);
                }
            }
        }
        if distinct_names(entries) {
            assert(distinct_names(rest)) by {
                assert forall|i: int, j: int| 0 <= i < j < rest.len() implies (
                #[trigger] rest[i]).name != (#[trigger] rest[j]).name by {
                    assert(rest[i] == entries[i + 1]);
                    assert(rest[j] == entries[j + 1]);
                }
            }
            assert forall|i: int, j: int| 0 <= i < j < all.len() implies name_before(
                (#[trigger] all[i]).name,
                (#[trigger] all[j]).name,
            ) by {
                if i < p && j < p {
                    assert(all[i] == sorted[i] && all[j] == sorted[j]);
                } else if i < p && j == p {
                    assert(all[i] == sorted[i]);
                } else if i < p {
                    assert(all[i] == sorted[i] && all[j] == sorted[j - 1]);
                } else if i > p {
                    assert(all[i] == sorted[i - 1] && all[j] == sorted[j - 1]);
                } else {
                    assert(all[i] == e && all[j] == sorted[j - 1]);
                    assert(sorted.contains(sorted[p]));
                    let k: int = choose|k: int| 0 <= k < rest.len() && rest[k] == sorted[p];
                    assert(entries[k + 1].name == sorted[p].name);
                    names_are_ordered(e.name, sorted[p].name, sorted[j - 1].name);
                }
            }
        }
    }
}

proof fn lemma_one_order(a: Seq<EntryView>, b: Seq<EntryView>)
    requires
        by_name(a),
        by_name(b),
        same_entries(a, b),
    ensures
        a == b,
    decreases a.len(),
{
    if a.len() == 0 {
        if b.len() > 0 {
            assert(b.contains(b[0]));
        }
        assert(a =~= b);
    } else {
        assert(a.contains(a[0]));
        let j: int = choose|j: int| 0 <= j < b.len() && b[j] == a[0];
        assert(b.contains(b[0]));
        let i: int = choose|i: int| 0 <= i < a.len() && a[i] == b[0];
        if j > 0 {
            assert(name_before(b[0].name, b[j].name));
            if i > 0 {
                assert(name_before(a[0].name, a[i].name));
            }
            names_are_ordered(a[0].name, b[0].name, a[0].name);
        }
        assert(a[0] == b[0]);
        let rest_a = a.drop_first();
        let rest_b = b.drop_first();
        assert forall|i: int, j: int| 0 <= i < j < rest_a.len() implies name_before(
            (#[trigger] rest_a[i]).name,
            (#[trigger] rest_a[j]).name,
        ) by {
            assert(rest_a[i] == a[i + 1] && rest_a[j] == a[j + 1]);
        }
        assert forall|i: int, j: int| 0 <= i < j < rest_b.len() implies name_before(
            (#[trigger] rest_b[i]).name,
            (#[trigger] rest_b[j]).name,
        ) by {
            assert(rest_b[i] == b[i + 1] && rest_b[j] == b[j + 1]);
        }
        assert forall|e: EntryView| #[trigger] rest_a.contains(e) <==> rest_b.contains(e) by {
            if rest_a.contains(e) {
                let k: int = choose|k: int| 0 <= k < rest_a.len() && rest_a[k] == e;
                lemma_in_the_rest(a, b, k + 1);
            }
            if rest_b.contains(e) {
                let k: int = choose|k: int| 0 <= k < rest_b.len() && rest_b[k] == e;
                lemma_in_the_rest(b, a, k + 1);
            }
        }
        lemma_one_order(rest_a, rest_b);
        assert(a =~= seq![a[0]] + rest_a);
        assert(b =~= seq![b[0]] + rest_b);
    }
}

proof fn lemma_in_the_rest(a: Seq<EntryView>, b: Seq<EntryView>, k: int)
    requires
        by_name(a),
        b.len() > 0,
        a[0] == b[0],
        0 < k < a.len(),
        same_entries(a, b),
    ensures
        b.drop_first().contains(a[k]),
{
    assert(a.contains(a[k]));
    let m: int = choose|m: int| 0 <= m < b.len() && b[m] == a[k];
    assert(name_before(a[0].name, a[k].name));
    lemma_no_name_before_itself(a[0].name);
    assert(m != 0);
    assert(b.drop_first()[m - 1] == a[k]);
}

/// Two listings of one directory that differ in their order alone are brought
/// into the same order.
pub proof fn any_listing_gives_one_order(a: Seq<EntryView>, b: Seq<EntryView>)
    requires
        distinct_names(a),
        distinct_names(b),
        same_entries(a, b),
    ensures
        ordered(a) == ordered(b),
{
    the_order_is_by_name(a);
    the_order_is_by_name(b);
    lemma_one_order(ordered(a), ordered(b));
}

/// Puts an entry into a list that is ordered from its end on.
fn place(done: &mut Vec<Entry>, e: Entry)
    ensures
        entry_views(final(done)@).reverse() == placed(e@, entry_views(old(done)@).reverse()),
{
    let ghost sorted = entry_views(done@).reverse();
    let n: usize = done.len();
    let mut at: usize = n;
    while at > 0 && comes_before(done[at - 1].name.as_slice(), e.name.as_slice())
        invariant
            at <= n,
            n == done@.len(),
            sorted == entry_views(done@).reverse(),
            forall|q: int| 0 <= q < n - at ==> name_before((#[trigger] sorted[q]).name, e@.name),
        decreases at,
    {
        assert(sorted[n - at] == done@[at - 1]@);
        at -= 1;
    }
    proof {
        let p: int = lemma_place(e@, sorted);
        if at > 0 {
            assert(sorted[n - at] == done@[at - 1]@);
        }
        if p < n - at {
            assert(name_before(sorted[p].name, e@.name));
        } else if p > n - at {
            assert(name_before(sorted[n - at].name, e@.name));
        }
        assert(p == n - at);
        let after = entry_views(done@.insert(at as int, e)).reverse();
        assert(after =~= sorted.insert(p, e@));
    }
    done.insert(at, e);
}

/// The entries of a directory in the order of their names, the first one last.
fn in_order(entries: Vec<Entry>) -> (r: Vec<Entry>)
    ensures
        entry_views(r@).reverse() == ordered(entry_views(entries@)),
{
    let ghost all = entry_views(entries@);
    let mut left: Vec<Entry> = entries;
    let mut done: Vec<Entry> = Vec::new();
    assert(all.take(all.len() as int) =~= all);
    assert(all.skip(all.len() as int) =~= Seq::empty());
    assert(entry_views(done@).reverse() =~= Seq::empty());
    while left.len() > 0
        invariant
            left@.len() <= all.len(),
            entry_views(left@) == all.take(left@.len() as int),
            entry_views(done@).reverse() == ordered(all.skip(left@.len() as int)),
        decreases left@.len(),
    {
        let ghost before = left@;
        match left.pop() {
            Some(e) => {
                proof {
                    let here = all.skip(left@.len() as int);
                    assert(entry_views(before)[before.len() - 1] == e@);
                    assert(here[0] == e@);
                    assert(here.drop_first() =~= all.skip(before.len() as int));
                    assert(entry_views(left@) =~= entry_views(before).drop_last());
                    assert(entry_views(left@) =~= all.take(left@.len() as int));
                }
                place(&mut done, e);
            },
            None => {},
        }
    }
    assert(all.skip(0) =~= all);
    done
}

// ---------------------------------------------------------------
//                            The walk
// ---------------------------------------------------------------

/// A depth-first walk that collects documents up to a limit. It works through the
/// entries it has been given; where it meets a directory it asks for that one's
/// entries, which it brings into order and puts before everything that was waiting.
pub struct Walk {
    limit: usize,
    /// What is still to be looked at, the next one last.
    waiting: Vec<Entry>,
    found: Vec<usize>,
}

#[verifier::ext_equal]
pub struct WalkView {
    pub limit: nat,
    /// What is still to be looked at, the next one first.
    pub pending: Seq<EntryView>,
    pub found: Seq<usize>,
}

impl WalkView {
    pub open spec fn is_over(self) -> bool {
        self.found.len() >= self.limit || self.pending.len() == 0
    }

    /// The walk after its next entry.
    pub open spec fn past_next(self) -> WalkView {
        WalkView {
            limit: self.limit,
            pending: self.pending.drop_first(),
            found: if self.pending[0].kind == EntryKind::Document {
                self.found.push(self.pending[0].id)
            } else {
                self.found
            },
        }
    }

    /// The walk up to and with the next directory, and that directory; or up to
    /// its end.
    pub open spec fn advanced(self) -> (WalkView, Option<usize>)
        decreases self.pending.len(),
    {
        if self.is_over() {
            (self, None)
        } else if self.pending[0].kind == EntryKind::Directory {
            (self.past_next(), Some(self.pending[0].id))
        } else {
            self.past_next().advanced()
        }
    }

    /// The walk with the entries of a directory, in whatever order they are
    /// listed.
    pub open spec fn entered(self, entries: Seq<EntryView>) -> WalkView {
        WalkView { limit: self.limit, pending: ordered(entries) + self.pending, found: self.found }
    }
}

/// The first documents of all, as many as the limit admits.
pub open spec fn first_of(all: Seq<usize>, limit: nat) -> Seq<usize> {
    if all.len() < limit {
        all
    } else {
        all.take(limit as int)
    }
}

/// A walk carried on to its end, with every directory it asks for listed; nothing
/// where `steps` directories are not enough.
pub open spec fn carried_on(
    w: WalkView,
    below: spec_fn(usize) -> Seq<EntryView>,
    steps: nat,
) -> Option<WalkView>
    decreases steps,
{
    match w.advanced() {
        (end, None) => Some(end),
        (next, Some(id)) => if steps == 0 {
            None
        } else {
            carried_on(next.entered(below(id)), below, (steps - 1) as nat)
        },
    }
}

impl View for Walk {
    type V = WalkView;

    closed spec fn view(&self) -> WalkView {
        WalkView {
            limit: self.limit as nat,
            pending: entry_views(self.waiting@).reverse(),
            found: self.found@,
        }
    }
}

impl Walk {
    /// Starts a walk that has been given nothing yet.
    pub fn new(limit: usize) -> (w: Walk)
        ensures
            w@ == (WalkView {
                limit: limit as nat,
                pending: Seq::empty(),
                found: Seq::empty(),
            }),
    {
        let w: Walk = Walk { limit, waiting: Vec::new(), found: Vec::new() };
        assert(w@.pending =~= Seq::empty());
        w
    }

    /// Hands over the entries of a directory, in whatever order they are listed.
    pub fn enter(&mut self, entries: Vec<Entry>)
        ensures
            final(self)@ == old(self)@.entered(entry_views(entries@)),
    {
        let ghost before = self.waiting@;
        let mut sorted: Vec<Entry> = in_order(entries);
        let ghost added = sorted@;
        self.waiting.append(&mut sorted);
        assert(entry_views(before + added).reverse() =~= entry_views(added).reverse()
            + entry_views(before).reverse());
    }

    /// Goes on to the next directory and names it, or to the end of the walk.
    pub fn next(&mut self) -> (r: Option<usize>)
        ensures
            (final(self)@, r) == old(self)@.advanced(),
    {
        let ghost start = self@;
        while self.found.len() < self.limit && self.waiting.len() > 0
            invariant
                start == old(self)@,
                start.advanced() == self@.advanced(),
            decreases self.waiting@.len(),
        {
            let ghost here = self@;
            match self.waiting.pop() {
                Some(e) => {
                    assert(here.pending[0] == e@);
                    assert(here.pending.drop_first() =~= self@.pending);
                    match e.kind {
                        EntryKind::Directory => {
                            assert(self@ =~= here.past_next());
                            assert(here.advanced() == (self@, Some(e.id)));
                            return Some(e.id);
                        },
                        EntryKind::Document => {
                            self.found.push(e.id);
                            assert(self@ =~= here.past_next());
                        },
                        EntryKind::Other => {
                            assert(self@ =~= here.past_next());
                        },
                    }
                },
                None => {},
            }
        }
        None
    }

    /// What has been collected so far.
    pub fn found(&self) -> (v: &Vec<usize>)
        ensures
            v@ == self@.found,
    {
        &self.found
    }
}

/// The walk never collects more than its limit.
pub proof fn the_limit_holds(w: WalkView)
    requires
        w.found.len() <= w.limit,
    ensures
        w.advanced().0.found.len() <= w.limit,
        w.advanced().0.limit == w.limit,
    decreases w.pending.len(),
{
    if !w.is_over() && w.pending[0].kind != EntryKind::Directory {
        the_limit_holds(w.past_next());
    }
}

// ---------------------------------------------------------------
//                     What the walk leads to
// ---------------------------------------------------------------

/// A file system, as far as a walk sees it.
pub struct Tree {
    /// The entries of each directory, as they happen to be listed; none where it
    /// cannot be read.
    pub below: spec_fn(usize) -> Seq<EntryView>,
    /// The names that lead to each path.
    pub path: spec_fn(usize) -> Seq<Seq<u8>>,
    /// How deep each directory is nested, at most.
    pub height: spec_fn(usize) -> nat,
}

impl Tree {
    /// What is below a directory is nested less deep.
    pub open spec fn is_finite(self) -> bool {
        forall|dir: usize, i: int|
            0 <= i < (self.below)(dir).len() && (#[trigger] (self.below)(dir)[i]).kind
                == EntryKind::Directory ==> (self.height)((self.below)(dir)[i].id) < (self.height)(
                dir,
            )
    }

    /// An entry's path is that of its directory and its own name, which no other
    /// entry of that directory has.
    pub open spec fn is_named(self) -> bool {
        &&& forall|dir: usize| distinct_names(#[trigger] (self.below)(dir))
        &&& forall|dir: usize, i: int|
            0 <= i < (self.below)(dir).len() ==> (self.path)(
                (#[trigger] (self.below)(dir)[i]).id,
            ) == (self.path)(dir).push((self.below)(dir)[i].name)
    }

    /// The documents at and below some entries whose directories are nested less
    /// deep than `bound`, depth first and every directory in order.
    pub open spec fn listed(self, bound: nat, entries: Seq<EntryView>) -> Seq<usize>
        decreases bound, entries.len(),
    {
        if entries.len() == 0 {
            Seq::empty()
        } else {
            (match entries[0].kind {
                EntryKind::Directory => {
                    let height = (self.height)(entries[0].id);
                    if height < bound {
                        self.listed(height, ordered((self.below)(entries[0].id)))
                    } else {
                        Seq::empty()
                    }
                },
                EntryKind::Document => seq![entries[0].id],
                EntryKind::Other => Seq::empty(),
            }) + self.listed(bound, entries.drop_first())
        }
    }

    /// All documents below a directory, depth first and every directory in order.
    pub open spec fn documents(self, dir: usize) -> Seq<usize> {
        self.listed((self.height)(dir), ordered((self.below)(dir)))
    }

    /// The documents that one entry stands for: itself, everything below it, or
    /// nothing.
    pub open spec fn documents_of(self, e: EntryView) -> Seq<usize> {
        match e.kind {
            EntryKind::Directory => self.documents(e.id),
            EntryKind::Document => seq![e.id],
            EntryKind::Other => Seq::empty(),
        }
    }

    /// The documents that some entries stand for, one after the other.
    pub open spec fn outline(self, entries: Seq<EntryView>) -> Seq<usize>
        decreases entries.len(),
    {
        if entries.len() == 0 {
            Seq::empty()
        } else {
            self.documents_of(entries[0]) + self.outline(entries.drop_first())
        }
    }

    /// How many directories there are among and below some entries, those among them
    /// nested less deep than `bound`.
    pub open spec fn nested(self, bound: nat, entries: Seq<EntryView>) -> nat
        decreases bound, entries.len(),
    {
        if entries.len() == 0 {
            0
        } else {
            let height = (self.height)(entries[0].id);
            (if entries[0].kind == EntryKind::Directory && height < bound {
                1 + self.nested(height, ordered((self.below)(entries[0].id)))
            } else {
                0
            }) + self.nested(bound, entries.drop_first())
        }
    }

    /// How many directories there are among and below some entries.
    pub open spec fn directories(self, entries: Seq<EntryView>) -> nat
        decreases entries.len(),
    {
        if entries.len() == 0 {
            0
        } else {
            (if entries[0].kind == EntryKind::Directory {
                1 + self.nested(
                    (self.height)(entries[0].id),
                    ordered((self.below)(entries[0].id)),
                )
            } else {
                0
            }) + self.directories(entries.drop_first())
        }
    }

    /// A document lies somewhere below a directory.
    pub open spec fn has(self, dir: usize, document: usize) -> bool
        decreases (self.height)(dir),
    {
        exists|i: int|
            0 <= i < (self.below)(dir).len() && match (#[trigger] (self.below)(dir)[i]).kind {
                EntryKind::Directory => (self.height)((self.below)(dir)[i].id) < (self.height)(dir)
                    && self.has((self.below)(dir)[i].id, document),
                EntryKind::Document => (self.below)(dir)[i].id == document,
                EntryKind::Other => false,
            }
    }

    /// An entry is a document, or a directory above it.
    pub open spec fn leads_to(self, e: EntryView, document: usize) -> bool {
        match e.kind {
            EntryKind::Directory => self.has(e.id, document),
            EntryKind::Document => e.id == document,
            EntryKind::Other => false,
        }
    }

    proof fn lemma_listed(self, bound: nat, entries: Seq<EntryView>)
        requires
            forall|i: int|
                0 <= i < entries.len() && (#[trigger] entries[i]).kind == EntryKind::Directory
                    ==> (self.height)(entries[i].id) < bound,
        ensures
            self.listed(bound, entries) == self.outline(entries),
            self.nested(bound, entries) == self.directories(entries),
        decreases entries.len(),
    {
        if entries.len() > 0 {
            let rest = entries.drop_first();
            assert forall|i: int|
                0 <= i < rest.len() && (#[trigger] rest[i]).kind == EntryKind::Directory implies (
            self.height)(rest[i].id) < bound by {
                assert(rest[i] == entries[i + 1]);
            }
            assert(entries[0].kind == EntryKind::Directory ==> (self.height)(entries[0].id)
                < bound);
            self.lemma_listed(bound, rest);
        }
    }

    /// An entry of the ordered directory is one of the listed ones.
    proof fn lemma_ordered_entry(self, dir: usize, k: int) -> (i: int)
        requires
            0 <= k < ordered((self.below)(dir)).len(),
        ensures
            0 <= i < (self.below)(dir).len(),
            (self.below)(dir)[i] == ordered((self.below)(dir))[k],
    {
        let entries = (self.below)(dir);
        the_order_is_by_name(entries);
        assert(ordered(entries).contains(ordered(entries)[k]));
        assert(entries.contains(ordered(entries)[k]));
        choose|i: int| 0 <= i < entries.len() && entries[i] == ordered(entries)[k]
    }

    proof fn lemma_documents(self, dir: usize)
        requires
            self.is_finite(),
        ensures
            self.documents(dir) == self.outline(ordered((self.below)(dir))),
            self.nested((self.height)(dir), ordered((self.below)(dir))) == self.directories(
                ordered((self.below)(dir)),
            ),
    {
        let sorted = ordered((self.below)(dir));
        assert forall|k: int|
            0 <= k < sorted.len() && (#[trigger] sorted[k]).kind == EntryKind::Directory implies (
        self.height)(sorted[k].id) < (self.height)(dir) by {
            let i: int = self.lemma_ordered_entry(dir, k);
            assert((self.below)(dir)[i].kind == EntryKind::Directory);
        }
        self.lemma_listed((self.height)(dir), sorted);
    }

    proof fn lemma_outline_of_both(self, a: Seq<EntryView>, b: Seq<EntryView>)
        ensures
            self.outline(a + b) == self.outline(a) + self.outline(b),
            self.directories(a + b) == self.directories(a) + self.directories(b),
        decreases a.len(),
    {
        if a.len() == 0 {
            assert(a + b =~= b);
            assert(self.outline(a) + self.outline(b) =~= self.outline(b));
        } else {
            let rest = a.drop_first();
            self.lemma_outline_of_both(rest, b);
            assert((a + b).drop_first() =~= rest + b);
            assert((a + b)[0] == a[0]);
            let own = self.documents_of(a[0]);
            assert(own + (self.outline(rest) + self.outline(b)) =~= own + self.outline(rest)
                + self.outline(b));
        }
    }
}

/// A walk that asks for a directory and is given its entries still leads to the
/// same documents; one that is over has collected the first of them.
pub proof fn a_step_keeps_the_outcome(w: WalkView, tree: Tree)
    requires
        tree.is_finite(),
        w.found.len() <= w.limit,
    ensures
        match w.advanced() {
            (next, Some(id)) => {
                let entered = next.entered((tree.below)(id));
                entered.found + tree.outline(entered.pending) == w.found + tree.outline(w.pending)
            },
            (end, None) => end.found == first_of(w.found + tree.outline(w.pending), w.limit),
        },
    decreases w.pending.len(),
{
    if w.is_over() {
        assert(first_of(w.found + tree.outline(w.pending), w.limit) =~= w.found);
    } else {
        let e = w.pending[0];
        let rest = w.pending.drop_first();
        assert(tree.outline(w.pending) == tree.documents_of(e) + tree.outline(rest));
        if e.kind == EntryKind::Directory {
            tree.lemma_documents(e.id);
            tree.lemma_outline_of_both(ordered((tree.below)(e.id)), rest);
        } else {
            let next = w.past_next();
            a_step_keeps_the_outcome(next, tree);
            assert(next.found + tree.outline(rest) =~= w.found + tree.outline(w.pending));
        }
    }
}

/// The whole walk collects the first documents of the corpus, depth first and in
/// order, as many as the limit admits.
pub proof fn the_walk_takes_the_first_documents(w: WalkView, tree: Tree, steps: nat)
    requires
        tree.is_finite(),
        w.found.len() <= w.limit,
    ensures
        carried_on(w, tree.below, steps) matches Some(end) ==> end.found == first_of(
            w.found + tree.outline(w.pending),
            w.limit,
        ),
    decreases steps,
{
    a_step_keeps_the_outcome(w, tree);
    the_limit_holds(w);
    match w.advanced() {
        (_, None) => {},
        (next, Some(id)) => if steps > 0 {
            the_walk_takes_the_first_documents(
                next.entered((tree.below)(id)),
                tree,
                (steps - 1) as nat,
            );
        },
    }
}

/// Every directory that a walk asks for is one of those among and below its
/// entries.
proof fn lemma_directories_left(w: WalkView, tree: Tree)
    requires
        tree.is_finite(),
    ensures
        w.advanced() matches (next, Some(id)) ==> tree.directories(
            next.entered((tree.below)(id)).pending,
        ) < tree.directories(w.pending),
    decreases w.pending.len(),
{
    if !w.is_over() {
        let e = w.pending[0];
        let next = w.past_next();
        if e.kind == EntryKind::Directory {
            tree.lemma_documents(e.id);
            tree.lemma_outline_of_both(ordered((tree.below)(e.id)), next.pending);
        } else {
            lemma_directories_left(next, tree);
        }
    }
}

/// A walk ends: it asks for at most as many directories as there are.
pub proof fn the_walk_ends(w: WalkView, tree: Tree, steps: nat)
    requires
        tree.is_finite(),
        steps >= tree.directories(w.pending),
    ensures
        carried_on(w, tree.below, steps) is Some,
    decreases steps,
{
    lemma_directories_left(w, tree);
    if let (next, Some(id)) = w.advanced() {
        the_walk_ends(next.entered((tree.below)(id)), tree, (steps - 1) as nat);
    }
}

/// The selection does not depend on the order in which directories happen to be
/// listed: over two listings of the same files the walk asks for the same
/// directories and collects the same documents.
pub proof fn the_listing_order_does_not_matter(
    w: WalkView,
    a: spec_fn(usize) -> Seq<EntryView>,
    b: spec_fn(usize) -> Seq<EntryView>,
    steps: nat,
)
    requires
        forall|dir: usize|
            distinct_names(#[trigger] a(dir)) && distinct_names(b(dir)) && same_entries(
                a(dir),
                b(dir),
            ),
    ensures
        carried_on(w, a, steps) == carried_on(w, b, steps),
    decreases steps,
{
    match w.advanced() {
        (_, None) => {},
        (next, Some(id)) => if steps > 0 {
            any_listing_gives_one_order(a(id), b(id));
            the_listing_order_does_not_matter(next.entered(a(id)), a, b, (steps - 1) as nat);
        },
    }
}

// ---------------------------------------------------------------
//                        The order of paths
// ---------------------------------------------------------------

/// `a` and `b` have the same names up to place `k`, where `a` ends or has the
/// earlier name.
pub open spec fn path_parts_at(a: Seq<Seq<u8>>, b: Seq<Seq<u8>>, k: int) -> bool {
    &&& 0 <= k <= a.len()
    &&& k < b.len()
    &&& a.take(k) == b.take(k)
    &&& k == a.len() || name_before(a[k], b[k])
}

/// `a` comes before `b`, name by name.
pub open spec fn path_before(a: Seq<Seq<u8>>, b: Seq<Seq<u8>>) -> bool {
    exists|k: int| path_parts_at(a, b, k)
}

impl Tree {
    /// Every document's path comes before those of all that follow it, so none is
    /// there twice.
    pub open spec fn by_path(self, documents: Seq<usize>) -> bool {
        forall|i: int, j: int|
            0 <= i < j < documents.len() ==> path_before(
                (self.path)(#[trigger] documents[i]),
                (self.path)(#[trigger] documents[j]),
            )
    }

    /// A document's path starts with `names`.
    pub open spec fn starts_with(self, document: usize, names: Seq<Seq<u8>>) -> bool {
        &&& names.len() <= (self.path)(document).len()
        &&& (self.path)(document).take(names.len() as int) == names
    }

    proof fn lemma_documents_by_path(self, dir: usize)
        requires
            self.is_finite(),
            self.is_named(),
        ensures
            self.by_path(self.documents(dir)),
            forall|i: int|
                0 <= i < self.documents(dir).len() ==> self.starts_with(
                    #[trigger] self.documents(dir)[i],
                    (self.path)(dir),
                ),
        decreases (self.height)(dir), ordered((self.below)(dir)).len() + 1,
    {
        let sorted = ordered((self.below)(dir));
        let names = (self.path)(dir);
        self.lemma_documents(dir);
        the_order_is_by_name((self.below)(dir));
        assert(sorted.skip(0) =~= sorted);
        self.lemma_outline_by_path(dir, 0);
        let all = self.documents(dir);
        assert forall|i: int| 0 <= i < all.len() implies self.starts_with(
            #[trigger] all[i],
            names,
        ) by {
            let k: int = choose|k: int|
                0 <= k < sorted.len() && self.starts_with(
                    all[i],
                    names.push((#[trigger] sorted[k]).name),
                );
            let longer = names.push(sorted[k].name);
            assert((self.path)(all[i]).take(names.len() as int) =~= (self.path)(all[i]).take(
                longer.len() as int,
            ).take(names.len() as int));
            assert(longer.take(names.len() as int) =~= names);
        }
    }

    /// The same from the `from`-th entry of the directory on.
    proof fn lemma_outline_by_path(self, dir: usize, from: int)
        requires
            self.is_finite(),
            self.is_named(),
            0 <= from <= ordered((self.below)(dir)).len(),
        ensures
            self.by_path(self.outline(ordered((self.below)(dir)).skip(from))),
            forall|i: int|
                0 <= i < self.outline(ordered((self.below)(dir)).skip(from)).len() ==> exists|k: int|
                    from <= k < ordered((self.below)(dir)).len() && self.starts_with(
                        #[trigger] self.outline(ordered((self.below)(dir)).skip(from))[i],
                        (self.path)(dir).push((#[trigger] ordered((self.below)(dir))[k]).name),
                    ),
        decreases (self.height)(dir), ordered((self.below)(dir)).len() - from,
    {
        let sorted = ordered((self.below)(dir));
        let names = (self.path)(dir);
        let here = sorted.skip(from);
        if from < sorted.len() {
            the_order_is_by_name((self.below)(dir));
            let e = sorted[from];
            let at: int = self.lemma_ordered_entry(dir, from);
            assert((self.path)((self.below)(dir)[at].id) == names.push(e.name));
            let own = self.documents_of(e);
            if e.kind == EntryKind::Directory {
                assert((self.below)(dir)[at].kind == EntryKind::Directory);
                self.lemma_documents_by_path(e.id);
            }
            assert forall|i: int| 0 <= i < own.len() implies self.starts_with(
                #[trigger] own[i],
                names.push(e.name),
            ) by {
                if e.kind == EntryKind::Document {
                    assert((self.path)(e.id).take(names.len() as int + 1) =~= (self.path)(e.id));
                }
            }
            self.lemma_outline_by_path(dir, from + 1);
            let later = self.outline(sorted.skip(from + 1));
            assert(here.drop_first() =~= sorted.skip(from + 1));
            assert(here[0] == e);
            let all = self.outline(here);
            assert(all == own + later);
            assert forall|i: int| 0 <= i < all.len() implies exists|k: int|
                from <= k < sorted.len() && self.starts_with(
                    #[trigger] all[i],
                    names.push((#[trigger] sorted[k]).name),
                ) by {
                if i < own.len() {
                    assert(all[i] == own[i]);
                    assert(self.starts_with(all[i], names.push(sorted[from].name)));
                } else {
                    assert(all[i] == later[i - own.len()]);
                }
            }
            assert forall|i: int, j: int| 0 <= i < j < all.len() implies path_before(
                (self.path)(#[trigger] all[i]),
                (self.path)(#[trigger] all[j]),
            ) by {
                if j < own.len() {
                    assert(all[i] == own[i] && all[j] == own[j]);
                } else if i >= own.len() {
                    assert(all[i] == later[i - own.len()] && all[j] == later[j - own.len()]);
                } else {
                    assert(all[i] == own[i] && all[j] == later[j - own.len()]);
                    let k: int = choose|k: int|
                        from + 1 <= k < sorted.len() && self.starts_with(
                            later[j - own.len()],
                            names.push((#[trigger] sorted[k]).name),
                        );
                    lemma_paths_part(
                        names,
                        e.name,
                        sorted[k].name,
                        (self.path)(all[i]),
                        (self.path)(all[j]),
                    );
                }
            }
        } else {
            assert(here =~= Seq::empty());
        }
    }

    proof fn lemma_outline_leads(self, entries: Seq<EntryView>, document: usize)
        requires
            self.is_finite(),
        ensures
            self.outline(entries).contains(document) <==> exists|i: int|
                0 <= i < entries.len() && self.documents_of(#[trigger] entries[i]).contains(
                    document,
                ),
        decreases entries.len(),
    {
        if entries.len() > 0 {
            let rest = entries.drop_first();
            let own = self.documents_of(entries[0]);
            let later = self.outline(rest);
            self.lemma_outline_leads(rest, document);
            if (own + later).contains(document) {
                let i: int = choose|i: int|
                    0 <= i < (own + later).len() && (own + later)[i] == document;
                if i < own.len() {
                    assert(own[i] == document);
                    assert(self.documents_of(entries[0]).contains(document));
                } else {
                    assert(later[i - own.len()] == document);
                    assert(later.contains(document));
                    let k: int = choose|k: int|
                        0 <= k < rest.len() && self.documents_of(#[trigger] rest[k]).contains(
                            document,
                        );
                    assert(entries[k + 1] == rest[k]);
                }
            }
            if exists|i: int|
                0 <= i < entries.len() && self.documents_of(#[trigger] entries[i]).contains(
                    document,
                ) {
                let i: int = choose|i: int|
                    0 <= i < entries.len() && self.documents_of(#[trigger] entries[i]).contains(
                        document,
                    );
                if i == 0 {
                    let k: int = choose|k: int| 0 <= k < own.len() && own[k] == document;
                    assert((own + later)[k] == document);
                } else {
                    assert(rest[i - 1] == entries[i]);
                    assert(later.contains(document));
                    let k: int = choose|k: int| 0 <= k < later.len() && later[k] == document;
                    assert((own + later)[own.len() + k] == document);
                }
            }
        }
    }

    proof fn lemma_documents_are_all(self, dir: usize, document: usize)
        requires
            self.is_finite(),
        ensures
            self.documents(dir).contains(document) <==> self.has(dir, document),
        decreases (self.height)(dir),
    {
        let entries = (self.below)(dir);
        let sorted = ordered(entries);
        self.lemma_documents(dir);
        self.lemma_outline_leads(sorted, document);
        the_order_is_by_name(entries);
        assert forall|i: int| 0 <= i < entries.len() implies self.documents_of(
            #[trigger] entries[i],
        ).contains(document) == self.leads_to(entries[i], document) by {
            match entries[i].kind {
                EntryKind::Directory => {
                    self.lemma_documents_are_all(entries[i].id, document);
                },
                EntryKind::Document => {
                    assert(seq![entries[i].id][0] == entries[i].id);
                },
                EntryKind::Other => {},
            }
        }
        if self.documents(dir).contains(document) {
            let k: int = choose|k: int|
                0 <= k < sorted.len() && self.documents_of(#[trigger] sorted[k]).contains(document);
            let i: int = self.lemma_ordered_entry(dir, k);
            assert(self.leads_to(entries[i], document));
        }
        if self.has(dir, document) {
            let i: int = choose|i: int|
                0 <= i < entries.len() && match (#[trigger] entries[i]).kind {
                    EntryKind::Directory => (self.height)(entries[i].id) < (self.height)(dir)
                        && self.has(entries[i].id, document),
                    EntryKind::Document => entries[i].id == document,
                    EntryKind::Other => false,
                };
            assert(self.leads_to(entries[i], document));
            assert(entries.contains(entries[i]));
            assert(sorted.contains(entries[i]));
            let k: int = choose|k: int| 0 <= k < sorted.len() && sorted[k] == entries[i];
            assert(self.documents_of(sorted[k]).contains(document));
        }
    }
}

proof fn lemma_paths_part(
    names: Seq<Seq<u8>>,
    a: Seq<u8>,
    b: Seq<u8>,
    p: Seq<Seq<u8>>,
    q: Seq<Seq<u8>>,
)
    requires
        name_before(a, b),
        names.len() < p.len(),
        names.len() < q.len(),
        p.take(names.len() as int + 1) == names.push(a),
        q.take(names.len() as int + 1) == names.push(b),
    ensures
        path_before(p, q),
{
    let k: int = names.len() as int;
    assert(p.take(k) =~= p.take(k + 1).take(k));
    assert(q.take(k) =~= q.take(k + 1).take(k));
    assert(names.push(a).take(k) =~= names.push(b).take(k));
    assert(p.take(k + 1)[k] == a);
    assert(q.take(k + 1)[k] == b);
    assert(path_parts_at(p, q, k));
}

/// What a walk of a directory selects: of all the documents somewhere below it,
/// each once and in the order of their paths, the first ones, as many as the limit
/// admits. A directory that cannot be read has none.
pub proof fn the_selection_is_by_path(tree: Tree, root: usize, limit: nat, steps: nat)
    requires
        tree.is_finite(),
        tree.is_named(),
    ensures
        ({
            let start = WalkView { limit, pending: Seq::empty(), found: Seq::empty() };
            let walk = carried_on(start.entered((tree.below)(root)), tree.below, steps);
            let all = tree.documents(root);
            &&& steps >= tree.directories(ordered((tree.below)(root))) ==> walk is Some
            &&& walk matches Some(end) ==> end.found == first_of(all, limit)
            &&& tree.by_path(all)
            &&& forall|document: usize| #[trigger]
                all.contains(document) <==> tree.has(root, document)
            &&& (tree.below)(root).len() == 0 ==> all.len() == 0
        }),
{
    let start = WalkView { limit, pending: Seq::empty(), found: Seq::empty() };
    let w = start.entered((tree.below)(root));
    let all = tree.documents(root);
    tree.lemma_documents(root);
    assert(w.pending =~= ordered((tree.below)(root)));
    assert(w.found + tree.outline(w.pending) =~= all);
    the_walk_takes_the_first_documents(w, tree, steps);
    if steps >= tree.directories(w.pending) {
        the_walk_ends(w, tree, steps);
    }
    tree.lemma_documents_by_path(root);
    assert forall|document: usize| #[trigger] all.contains(document) <==> tree.has(
        root,
        document,
    ) by {
        tree.lemma_documents_are_all(root, document);
    }
}

/// A file is a document exactly when its extension is `svg`, whatever its case; a
/// directory never is, whatever it is called.
pub proof fn documents_are_told_by_their_extension(extension: Seq<char>)
    ensures
        names_svg(extension) <==> extension.map_values(|c: char| lower(c)) == "svg"@,
        kind_of(true, Some(extension)) == EntryKind::Directory,
        kind_of(true, None) == EntryKind::Directory,
        kind_of(false, None) == EntryKind::Other,
        kind_of(false, Some(extension)) == EntryKind::Document <==> names_svg(extension),
        kind_of(false, Some(extension)) == EntryKind::Other <==> !names_svg(extension),
        forall|c: char| 'a' <= c <= 'z' ==> #[trigger] lower(c) == c,
        lower('S') == 's',
        lower('V') == 'v',
        lower('G') == 'g',
{
    reveal_strlit("svg");
    let low = extension.map_values(|c: char| lower(c));
    if names_svg(extension) {
        assert(low =~= "svg"@);
    }
    if low == "svg"@ {
        assert(low.len() == 3);
        assert(low[0] == 's' && low[1] == 'v' && low[2] == 'g');
    }
}

} // verus!
