//! Numbered runs of markup.

use vstd::prelude::*;
use crate::numbers::{dec, decimal};
use crate::text::occurs_at;

verus! {

/// `head`, a number and `tail`, for every number below `n`.
pub open spec fn counted(n: nat, head: Seq<char>, tail: Seq<char>) -> Seq<char>
    decreases n,
{
    if n == 0 {
        Seq::empty()
    } else {
        counted((n - 1) as nat, head, tail) + head + dec((n - 1) as nat) + tail
    }
}

pub fn count_run(n: usize, head: &str, tail: &str) -> (s: String)
    ensures
        s@ == counted(n as nat, head@, tail@),
{
    let mut s: String = String::new();
    let mut i: usize = 0;
    while i < n
        invariant
            i <= n,
            s@ == counted(i as nat, head@, tail@),
        decreases n - i,
    {
        s.append(head);
        s.append(decimal(i as u64).as_str());
        s.append(tail);
        i += 1;
    }
    s
}

/// `head`, a number, `middle`, the number again and `tail`, for every number
/// below `n`.
pub open spec fn counted_twice(
    n: nat,
    head: Seq<char>,
    middle: Seq<char>,
    tail: Seq<char>,
) -> Seq<char>
    decreases n,
{
    if n == 0 {
        Seq::empty()
    } else {
        let i = (n - 1) as nat;
        counted_twice(i, head, middle, tail) + head + dec(i) + middle + dec(i) + tail
    }
}

pub fn count_run_twice(n: usize, head: &str, middle: &str, tail: &str) -> (s: String)
    ensures
        s@ == counted_twice(n as nat, head@, middle@, tail@),
{
    let mut s: String = String::new();
    let mut i: usize = 0;
    while i < n
        invariant
            i <= n,
            s@ == counted_twice(i as nat, head@, middle@, tail@),
        decreases n - i,
    {
        let number: String = decimal(i as u64);
        s.append(head);
        s.append(number.as_str());
        s.append(middle);
        s.append(number.as_str());
        s.append(tail);
        i += 1;
    }
    s
}

/// Every number below `n` has its piece in the run, in order: the `k`-th stands right
/// after those of the numbers below it, and nothing stands between.
pub proof fn every_number_has_its_piece(n: nat, k: nat, head: Seq<char>, tail: Seq<char>)
    requires
        k < n,
    ensures
        occurs_at(
            head + dec(k) + tail,
            counted(n, head, tail),
            counted(k, head, tail).len() as int,
        ),
        counted(0, head, tail).len() == 0,
        counted(k + 1, head, tail).len() == counted(k, head, tail).len() + head.len() + dec(k).len()
            + tail.len(),
        counted(k, head, tail).len() < counted(n, head, tail).len() || head.len() + dec(k).len()
            + tail.len() == 0,
    decreases n,
{
    let before = counted((n - 1) as nat, head, tail);
    let whole = counted(n, head, tail);
    if k + 1 < n {
        every_number_has_its_piece((n - 1) as nat, k, head, tail);
        let piece = head + dec(k) + tail;
        let i: int = counted(k, head, tail).len() as int;
        assert(whole.subrange(i, i + piece.len()) =~= before.subrange(i, i + piece.len()));
    } else {
        let piece = head + dec(k) + tail;
        assert(whole =~= before + piece);
        let i: int = before.len() as int;
        assert(whole.subrange(i, i + piece.len()) =~= piece);
    }
}

/// The same where the number stands in the piece twice.
pub proof fn every_number_has_its_double_piece(
    n: nat,
    k: nat,
    head: Seq<char>,
    middle: Seq<char>,
    tail: Seq<char>,
)
    requires
        k < n,
    ensures
        occurs_at(
            head + dec(k) + middle + dec(k) + tail,
            counted_twice(n, head, middle, tail),
            counted_twice(k, head, middle, tail).len() as int,
        ),
        counted_twice(0, head, middle, tail).len() == 0,
        counted_twice(k + 1, head, middle, tail).len() == counted_twice(k, head, middle, tail).len()
            + head.len() + 2 * dec(k).len() + middle.len() + tail.len(),
    decreases n,
{
    let before = counted_twice((n - 1) as nat, head, middle, tail);
    let whole = counted_twice(n, head, middle, tail);
    let piece = head + dec(k) + middle + dec(k) + tail;
    if k + 1 < n {
        every_number_has_its_double_piece((n - 1) as nat, k, head, middle, tail);
        let i: int = counted_twice(k, head, middle, tail).len() as int;
        assert(whole.subrange(i, i + piece.len()) =~= before.subrange(i, i + piece.len()));
    } else {
        assert(whole =~= before + piece);
        let i: int = before.len() as int;
        assert(whole.subrange(i, i + piece.len()) =~= piece);
    }
}

} // verus!
