//! Deterministic pseudo-random numbers.
//!
//! Every randomized suite derives all of its choices from a single seed that is
//! printed on both success and failure, so a failing run can be replayed
//! exactly from the printed number.

use vstd::prelude::*;

verus! {

/// State that a zero seed stands for.
pub const NONZERO_STATE: u64 = 0x9E37_79B9_7F4A_7C15;

/// Multiplier of the output scrambler.
pub const SCRAMBLE: u64 = 0x2545_F491_4F6C_DD1D;

/// Seed used when the clock reads before its epoch.
pub const CLOCKLESS_SEED: u64 = 0x1234_5678;

/// The state after one xorshift step from `x`.
pub open spec fn step(x: u64) -> u64 {
    let a = x ^ (x >> 12);
    let b = a ^ (a << 25);
    b ^ (b >> 27)
}

/// The state after `n` steps from `x`.
pub open spec fn steps(x: u64, n: nat) -> u64
    decreases n,
{
    if n == 0 {
        x
    } else {
        steps(step(x), (n - 1) as nat)
    }
}

/// The number drawn when the state becomes `x`.
pub open spec fn output(x: u64) -> u64 {
    ((x as nat * SCRAMBLE as nat) % 0x1_0000_0000_0000_0000) as u64
}

/// The number that the next draw from state `x` gives.
pub open spec fn draw(x: u64) -> u64 {
    output(step(x))
}

/// A draw from state `x` reduced to `0..n`; zero when `n` is.
pub open spec fn draw_below(x: u64, n: nat) -> nat {
    if n == 0 {
        0
    } else {
        draw(x) as nat % n
    }
}

/// A chance of `percent` in a hundred comes true at state `x`.
pub open spec fn lucky(x: u64, percent: nat) -> bool {
    draw_below(x, 100) < percent
}

/// The state after a reduced draw: an empty range consumes nothing.
pub open spec fn state_below(x: u64, n: nat) -> u64 {
    if n == 0 {
        x
    } else {
        step(x)
    }
}

/// A draw from state `x` in `lo..=hi`.
pub open spec fn draw_range(x: u64, lo: u32, hi: u32) -> u32 {
    if hi <= lo {
        lo
    } else {
        (lo + draw(x) as int % (hi - lo + 1)) as u32
    }
}

/// The state after a draw in `lo..=hi`: a range of one value consumes nothing.
pub open spec fn state_range(x: u64, lo: u32, hi: u32) -> u64 {
    if hi <= lo {
        x
    } else {
        step(x)
    }
}

/// xorshift64*: tiny, fast and stable across platforms. Not cryptographic; it
/// only has to be reproducible.
pub struct Rng(u64);

impl View for Rng {
    type V = u64;

    closed spec fn view(&self) -> u64 {
        self.0
    }
}

impl Rng {
    /// Starts from `seed`. A zero state is a fixed point of xorshift, so a zero
    /// seed is replaced.
    pub fn new(seed: u64) -> (r: Self)
        ensures
            r@ == seed_state(seed),
    {
        Rng(
            if seed == 0 {
                NONZERO_STATE
            } else {
                seed
            },
        )
    }

    pub fn next_u64(&mut self) -> (r: u64)
        ensures
            final(self)@ == step(old(self)@),
            r == draw(old(self)@),
    {
        let mut x: u64 = self.0;
        x = x ^ (x >> 12);
        x = x ^ (x << 25);
        x = x ^ (x >> 27);
        self.0 = x;
        x.wrapping_mul(SCRAMBLE)
    }

    /// Roughly uniform value in `0..n`. Returns 0 for `n == 0`.
    pub fn below(&mut self, n: usize) -> (r: usize)
        ensures
            final(self)@ == state_below(old(self)@, n as nat),
            r == draw_below(old(self)@, n as nat),
            n > 0 ==> r < n,
    {
        if n == 0 {
            0
        } else {
            (self.next_u64() % (n as u64)) as usize
        }
    }

    /// Value in the inclusive range `lo..=hi`; `lo` when the range is empty.
    pub fn range(&mut self, lo: u32, hi: u32) -> (r: u32)
        ensures
            final(self)@ == state_range(old(self)@, lo, hi),
            r == draw_range(old(self)@, lo, hi),
            lo <= hi ==> lo <= r <= hi,
    {
        if hi <= lo {
            return lo;
        }
        let span: u64 = (hi - lo) as u64 + 1;
        lo + (self.next_u64() % span) as u32
    }

    /// One of `items`.
    pub fn pick<'a, T>(&mut self, items: &'a [T]) -> (r: &'a T)
        requires
            items@.len() > 0,
        ensures
            final(self)@ == step(old(self)@),
            *r == items@[draw_below(old(self)@, items@.len()) as int],
    {
        let i: usize = self.below(items.len());
        &items[i]
    }

    /// True with probability `percent`/100.
    pub fn chance(&mut self, percent: u32) -> (r: bool)
        ensures
            final(self)@ == step(old(self)@),
            r == lucky(old(self)@, percent as nat),
    {
        self.below(100) < percent as usize
    }
}

/// The state that a seed starts from.
pub open spec fn seed_state(seed: u64) -> u64 {
    if seed == 0 {
        NONZERO_STATE
    } else {
        seed
    }
}

/// `x * y` modulo two to the 64th.
pub open spec fn wrapping_product(x: u64, y: u64) -> u64 {
    ((x as nat * y as nat) % 0x1_0000_0000_0000_0000) as u64
}

/// `x + y` modulo two to the 64th.
pub open spec fn wrapping_sum(x: u64, y: u64) -> u64 {
    ((x as nat + y as nat) % 0x1_0000_0000_0000_0000) as u64
}

/// Seed to use when none was supplied: the low 64 bits of the clock reading in
/// nanoseconds since its epoch (`None` when the clock reads earlier than that),
/// spread by the process id, so repeated runs explore different states.
pub fn arbitrary_seed(nanos: Option<u128>, process_id: u32) -> (r: u64)
    ensures
        r == (match nanos {
            Some(n) => (n % 0x1_0000_0000_0000_0000) as u64,
            None => CLOCKLESS_SEED,
        }) ^ wrapping_product(process_id as u64, NONZERO_STATE),
{
    let clock: u64 = match nanos {
        Some(n) => (n % 0x1_0000_0000_0000_0000u128) as u64,
        None => CLOCKLESS_SEED,
    };
    clock ^ (process_id as u64).wrapping_mul(NONZERO_STATE)
}

/// A state that is not zero never becomes zero, so the generator never sticks.
pub proof fn state_stays_nonzero(x: u64)
    requires
        x != 0,
    ensures
        step(x) != 0,
{
    let a = x ^ (x >> 12);
    let b = a ^ (a << 25);
    assert(x != 0 ==> (x ^ (x >> 12)) != 0) by (bit_vector);
    assert(a != 0 ==> (a ^ (a << 25)) != 0) by (bit_vector);
    assert(b != 0 ==> (b ^ (b >> 27)) != 0) by (bit_vector);
}

/// Every state reachable from a seed is non-zero.
pub proof fn seeded_states_are_nonzero(seed: u64, n: nat)
    ensures
        steps(seed_state(seed), n) != 0,
{
    lemma_steps_nonzero(seed_state(seed), n);
}

proof fn lemma_steps_nonzero(x: u64, n: nat)
    requires
        x != 0,
    ensures
        steps(x, n) != 0,
    decreases n,
{
    if n > 0 {
        state_stays_nonzero(x);
        lemma_steps_nonzero(step(x), (n - 1) as nat);
    }
}

/// Different states give different states: no two runs merge.
pub proof fn step_is_injective(x: u64, y: u64)
    requires
        step(x) == step(y),
    ensures
        x == y,
{
    let ax = x ^ (x >> 12);
    let ay = y ^ (y >> 12);
    let bx = ax ^ (ax << 25);
    let by_ = ay ^ (ay << 25);
    assert((bx ^ (bx >> 27)) == (by_ ^ (by_ >> 27)) ==> bx == by_) by (bit_vector);
    assert((ax ^ (ax << 25)) == (ay ^ (ay << 25)) ==> ax == ay) by (bit_vector);
    assert((x ^ (x >> 12)) == (y ^ (y >> 12)) ==> x == y) by (bit_vector);
}

/// What undoes the scrambler: the inverse of its odd multiplier modulo two to the
/// 64th.
pub const UNSCRAMBLE: u64 = 0x59071D96D81ECD35;

/// The number that the draw after `n` others gives, from a seed.
pub open spec fn nth_draw(seed: u64, n: nat) -> u64 {
    draw(steps(seed_state(seed), n))
}

/// A drawn number tells the state it comes from.
proof fn lemma_unscrambled(x: u64)
    ensures
        wrapping_product(output(x), UNSCRAMBLE) == x,
{
    let m: int = 0x1_0000_0000_0000_0000;
    let c = SCRAMBLE as int;
    let u = UNSCRAMBLE as int;
    let n = x as int;
    assert(c * u == 1 + 934034299265436267int * m);
    vstd::arithmetic::div_mod::lemma_mul_mod_noop_left(n * c, u, m);
    assert((n * c) * u == n * (c * u)) by (nonlinear_arith);
    assert(n * (1 + 934034299265436267int * m) == n + m * (934034299265436267int * n)) by (nonlinear_arith);
    vstd::arithmetic::div_mod::lemma_mod_multiples_vanish(934034299265436267int * n, n, m);
    vstd::arithmetic::div_mod::lemma_small_mod(x as nat, m as nat);
}

/// A generator that was seeded never draws zero.
pub proof fn draws_are_nonzero(seed: u64, n: nat)
    ensures
        nth_draw(seed, n) != 0,
{
    let x = steps(seed_state(seed), n);
    seeded_states_are_nonzero(seed, n);
    state_stays_nonzero(x);
    lemma_unscrambled(step(x));
}

/// Different seeds draw different numbers, each time: only the zero seed shares
/// its numbers with another.
pub proof fn seeds_draw_apart(a: u64, b: u64, n: nat)
    requires
        a != b,
        a != 0,
        b != 0,
    ensures
        nth_draw(a, n) != nth_draw(b, n),
{
    lemma_steps_apart(a, b, n);
    let x = steps(a, n);
    let y = steps(b, n);
    lemma_unscrambled(step(x));
    lemma_unscrambled(step(y));
    if step(x) == step(y) {
        step_is_injective(x, y);
    }
}

proof fn lemma_steps_apart(x: u64, y: u64, n: nat)
    requires
        x != y,
    ensures
        steps(x, n) != steps(y, n),
    decreases n,
{
    if n > 0 {
        if step(x) == step(y) {
            step_is_injective(x, y);
        }
        lemma_steps_apart(step(x), step(y), (n - 1) as nat);
    }
}

/// Multiplying by the constant that spreads seeds loses nothing: different factors give
/// different products, though only the low 64 bits are kept.
pub proof fn spreading_keeps_values_apart(x: u64, y: u64)
    ensures
        wrapping_product(x, NONZERO_STATE) == wrapping_product(y, NONZERO_STATE) ==> x == y,
{
    let m: int = 0x1_0000_0000_0000_0000;
    let c: int = NONZERO_STATE as int;
    let a: int = x as int;
    let b: int = y as int;
    if wrapping_product(x, NONZERO_STATE) == wrapping_product(y, NONZERO_STATE) {
        vstd::arithmetic::div_mod::lemma_fundamental_div_mod(a * c, m);
        vstd::arithmetic::div_mod::lemma_fundamental_div_mod(b * c, m);
        let k: int = (a * c) / m - (b * c) / m;
        assert(a * c - b * c == m * k) by (nonlinear_arith)
            requires
                a * c == m * ((a * c) / m) + (a * c) % m,
                b * c == m * ((b * c) / m) + (b * c) % m,
                (a * c) % m == (b * c) % m,
                k == (a * c) / m - (b * c) / m,
        ;
        let v: int = 17428512612931826493;
        let q: int = 10771413168148108919;
        assert(c * v == 1 + q * m);
        assert((a - b) * (c * v) == m * (k * v)) by (nonlinear_arith)
            requires
                a * c - b * c == m * k,
        ;
        let z: int = k * v - (a - b) * q;
        assert(a - b == m * z) by (nonlinear_arith)
            requires
                (a - b) * (c * v) == m * (k * v),
                c * v == 1 + q * m,
                z == k * v - (a - b) * q,
        ;
        assert(z == 0) by (nonlinear_arith)
            requires
                a - b == m * z,
                -m < a - b < m,
                m > 0,
        ;
    }
}

/// A draw below a bound is one of the values below it, and differs from the full draw by
/// a multiple of the bound.
pub proof fn draws_stay_below(x: u64, n: nat)
    requires
        n > 0,
    ensures
        draw_below(x, n) < n,
        exists|k: nat| draw(x) == #[trigger] (k * n) + draw_below(x, n),
{
    vstd::arithmetic::div_mod::lemma_fundamental_div_mod(draw(x) as int, n as int);
    let k: nat = draw(x) as nat / n;
    assert(k * n == n * k) by (nonlinear_arith);
    assert(draw(x) == (k * n) + draw_below(x, n));
}

/// A draw in a range is one of its values, both ends among them, counted from the lower
/// end by what the full draw leaves.
pub proof fn draws_stay_in_range(x: u64, lo: u32, hi: u32)
    requires
        lo <= hi,
    ensures
        lo <= draw_range(x, lo, hi) <= hi,
        draw_range(x, lo, hi) - lo == draw_below(x, (hi - lo + 1) as nat),
{
}

/// Adding a value modulo two to the 64th keeps different values apart.
pub proof fn shifting_keeps_values_apart(base: u64, x: u64, y: u64)
    ensures
        wrapping_sum(base, x) == wrapping_sum(base, y) ==> x == y,
        wrapping_sum(base, 0) == base,
{
}

/// A chance of nothing never comes true, and one of a hundred in a hundred always does; a
/// larger one comes true wherever a smaller one does.
pub proof fn chances_are_out_of_a_hundred(x: u64, less: nat, more: nat)
    requires
        less <= more,
    ensures
        !lucky(x, 0),
        lucky(x, 100),
        lucky(x, less) ==> lucky(x, more),
        lucky(x, more) && !lucky(x, less) ==> less <= draw_below(x, 100) < more,
{
    draws_stay_below(x, 100);
}

/// A draw takes one step of the generator, except where there is nothing to choose: that
/// takes none, and gives the one value there is.
pub proof fn only_a_choice_takes_a_step(x: u64, n: nat, lo: u32, hi: u32)
    ensures
        state_below(x, 0) == x,
        draw_below(x, 0) == 0,
        n > 0 ==> state_below(x, n) == step(x),
        hi <= lo ==> state_range(x, lo, hi) == x && draw_range(x, lo, hi) == lo,
        lo < hi ==> state_range(x, lo, hi) == step(x),
{
}

} // verus!
