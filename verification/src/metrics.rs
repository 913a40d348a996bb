//! Process resource samples for the retention suites.
//!
//! A rendering thread deliberately keeps its graphics cache when it exits. That
//! nothing meaningful accumulates is an assumption about the host, so the
//! suites sample these counters around their work and report the difference.

use vstd::prelude::*;
use crate::numbers::{dec, dec2, dec_signed, decimal, decimal2, decimal_signed, magnitude};

verus! {

/// Bytes in a MiB.
pub const MIB: u64 = 1048576;

/// First integer from which not every integer is a double.
pub const DOUBLE_LIMIT: u64 = 9007199254740992;

/// Resource counters of the process at one moment.
#[derive(Clone, Copy, Debug)]
pub struct Snapshot {
    /// Private committed bytes - the number that matters for a leak, since the
    /// working set can be trimmed by the system at any time.
    pub private_bytes: u64,
    pub working_set: u64,
    pub handles: u32,
    pub gdi_objects: u32,
    pub user_objects: u32,
    pub threads: u32,
    pub modules: u32,
}

/// Signed difference between two snapshots.
#[derive(Clone, Copy, Debug)]
pub struct Delta {
    pub private_bytes: i64,
    pub working_set: i64,
    pub handles: i64,
    pub gdi_objects: i64,
    pub user_objects: i64,
    pub threads: i64,
    pub modules: i64,
}

impl Default for Snapshot {
    fn default() -> (r: Self)
        ensures
            r == (Snapshot {
                private_bytes: 0,
                working_set: 0,
                handles: 0,
                gdi_objects: 0,
                user_objects: 0,
                threads: 0,
                modules: 0,
            }),
    {
        Snapshot {
            private_bytes: 0,
            working_set: 0,
            handles: 0,
            gdi_objects: 0,
            user_objects: 0,
            threads: 0,
            modules: 0,
        }
    }
}

impl Default for Delta {
    fn default() -> (r: Self)
        ensures
            r == (Delta {
                private_bytes: 0,
                working_set: 0,
                handles: 0,
                gdi_objects: 0,
                user_objects: 0,
                threads: 0,
                modules: 0,
            }),
    {
        Delta {
            private_bytes: 0,
            working_set: 0,
            handles: 0,
            gdi_objects: 0,
            user_objects: 0,
            threads: 0,
            modules: 0,
        }
    }
}

// ---------------------------------------------------------------
//                     Byte counts as MiB text
// ---------------------------------------------------------------

/// `num / den` rounded to the nearest integer, ties to even.
pub open spec fn nearest(num: nat, den: nat) -> nat {
    let q = num / den;
    let r = num % den;
    if 2 * r < den || (2 * r == den && q % 2 == 0) {
        q
    } else {
        q + 1
    }
}

/// Spacing of the doubles around `v`, tried from `unit` upward in powers of
/// two.
pub open spec fn spacing_from(v: nat, unit: nat) -> nat
    decreases v - unit,
    when unit > 0
{
    if v < DOUBLE_LIMIT * unit {
        unit
    } else {
        spacing_from(v, 2 * unit)
    }
}

/// The double nearest to the integer `v`.
pub open spec fn nearest_double(v: nat) -> nat {
    nearest(v, spacing_from(v, 1)) * spacing_from(v, 1)
}

/// Whole and fractional part of a count of tenths.
pub open spec fn tenths_text(n: nat) -> Seq<char> {
    dec(n / 10) + "."@ + dec(n % 10)
}

/// Whole and fractional part of a count of hundredths.
pub open spec fn hundredths_text(n: nat) -> Seq<char> {
    dec(n / 100) + "."@ + dec2(n % 100)
}

/// `bytes` in MiB with one decimal.
pub open spec fn mib1(bytes: nat) -> Seq<char> {
    tenths_text(nearest(nearest_double(bytes) * 10, MIB as nat))
}

/// `bytes` in MiB with two decimals.
pub open spec fn mib2(bytes: nat) -> Seq<char> {
    hundredths_text(nearest(nearest_double(bytes) * 100, MIB as nat))
}

/// The sign that a signed byte count is written with.
pub open spec fn sign_of(bytes: int) -> Seq<char> {
    if bytes < 0 {
        "-"@
    } else {
        "+"@
    }
}

/// `i` without its sign.
pub open spec fn abs_nat(i: int) -> nat {
    if i < 0 {
        (-i) as nat
    } else {
        i as nat
    }
}

/// A signed byte count in MiB with one decimal.
pub open spec fn mib1_signed(bytes: int) -> Seq<char> {
    sign_of(bytes) + mib1(abs_nat(bytes))
}

/// A signed byte count in MiB with two decimals.
pub open spec fn mib2_signed(bytes: int) -> Seq<char> {
    sign_of(bytes) + mib2(abs_nat(bytes))
}

fn round_ratio(num: u128, den: u128) -> (r: u128)
    requires
        0 < den < 0x1_0000_0000_0000_0000_0000,
        num < 0x1_0000_0000_0000_0000_0000,
    ensures
        r == nearest(num as nat, den as nat),
        r <= num / den + 1,
{
    let q: u128 = num / den;
    let r: u128 = num % den;
    if 2 * r < den || (2 * r == den && q % 2 == 0) {
        q
    } else {
        q + 1
    }
}

proof fn lemma_spacing(v: nat, unit: nat)
    requires
        unit > 0,
    ensures
        v >= DOUBLE_LIMIT * unit ==> spacing_from(v, unit) == spacing_from(v, 2 * unit),
        v < DOUBLE_LIMIT * unit ==> spacing_from(v, unit) == unit,
{
}

fn round_to_double(v: u64) -> (r: u128)
    ensures
        r == nearest_double(v as nat),
        r <= 0x1_0000_0000_0000_0000,
{
    let wide: u128 = v as u128;
    let mut unit: u128 = 1;
    while wide >= DOUBLE_LIMIT as u128 * unit
        invariant
            wide == v,
            1 <= unit <= 2048,
            unit == 1 || unit == 2 || unit == 4 || unit == 8 || unit == 16 || unit == 32 || unit
                == 64 || unit == 128 || unit == 256 || unit == 512 || unit == 1024 || unit == 2048,
            spacing_from(v as nat, 1) == spacing_from(v as nat, unit as nat),
        decreases 4096 - unit,
    {
        proof {
            lemma_spacing(v as nat, unit as nat);
        }
        unit = unit * 2;
    }
    proof {
        lemma_spacing(v as nat, unit as nat);
    }
    let q: u128 = round_ratio(wide, unit);
    proof {
        let d = unit as nat;
        let w = v as nat;
        assert(spacing_from(w, 1) == d);
        assert(q <= 0x20_0000_0000_0000 && q * unit <= 0x1_0000_0000_0000_0000) by (nonlinear_arith)
            requires
                q <= wide / unit + 1,
                wide < 0x20_0000_0000_0000 * unit,
                wide < 0x1_0000_0000_0000_0000,
                q == nearest(wide as nat, unit as nat),
                unit == 1 || unit == 2 || unit == 4 || unit == 8 || unit == 16 || unit == 32 || unit
                    == 64 || unit == 128 || unit == 256 || unit == 512 || unit == 1024 || unit == 2048,
        {
        }
    }
    q * unit
}

/// `bytes` in MiB with one decimal.
pub fn mib1_text(bytes: u64) -> (s: String)
    ensures
        s@ == mib1(bytes as nat),
{
    let n: u128 = round_ratio(round_to_double(bytes) * 10, 1048576);
    let mut s: String = decimal((n / 10) as u64);
    s.append(".");
    s.append(decimal((n % 10) as u64).as_str());
    s
}

/// `bytes` in MiB with two decimals.
pub fn mib2_text(bytes: u64) -> (s: String)
    ensures
        s@ == mib2(bytes as nat),
{
    let n: u128 = round_ratio(round_to_double(bytes) * 100, 1048576);
    let mut s: String = decimal((n / 100) as u64);
    s.append(".");
    s.append(decimal2((n % 100) as u64).as_str());
    s
}

fn sign_text(bytes: i64) -> (s: &'static str)
    ensures
        s@ == sign_of(bytes as int),
{
    if bytes < 0 {
        "-"
    } else {
        "+"
    }
}

/// A signed byte count in MiB with one decimal.
pub fn mib1_signed_text(bytes: i64) -> (s: String)
    ensures
        s@ == mib1_signed(bytes as int),
{
    let mut s: String = sign_text(bytes).to_owned();
    s.append(mib1_text(magnitude(bytes)).as_str());
    s
}

/// A signed byte count in MiB with two decimals.
pub fn mib2_signed_text(bytes: i64) -> (s: String)
    ensures
        s@ == mib2_signed(bytes as int),
{
    let mut s: String = sign_text(bytes).to_owned();
    s.append(mib2_text(magnitude(bytes)).as_str());
    s
}

// ---------------------------------------------------------------
//                          Differences
// ---------------------------------------------------------------

/// A counter read as a signed 64-bit number.
pub open spec fn signed(x: u64) -> int {
    if x <= i64::MAX {
        x as int
    } else {
        x - 0x1_0000_0000_0000_0000
    }
}

fn signed_value(x: u64) -> (r: i64)
    ensures
        r == signed(x),
{
    if x <= 0x7FFF_FFFF_FFFF_FFFFu64 {
        x as i64
    } else {
        i64::MIN + (x - 0x8000_0000_0000_0000u64) as i64
    }
}

/// Whether two counters differ by a signed 64-bit number.
pub open spec fn difference_fits(a: u64, b: u64) -> bool {
    i64::MIN <= signed(a) - signed(b) <= i64::MAX
}

/// `d` is what changed between two snapshots.
pub open spec fn is_change(d: Delta, before: Snapshot, after: Snapshot) -> bool {
    &&& d.private_bytes == signed(after.private_bytes) - signed(before.private_bytes)
    &&& d.working_set == signed(after.working_set) - signed(before.working_set)
    &&& d.handles == after.handles - before.handles
    &&& d.gdi_objects == after.gdi_objects - before.gdi_objects
    &&& d.user_objects == after.user_objects - before.user_objects
    &&& d.threads == after.threads - before.threads
    &&& d.modules == after.modules - before.modules
}

impl Snapshot {
    /// Signed difference against an earlier snapshot.
    pub fn delta(&self, base: &Snapshot) -> (d: Delta)
        requires
            difference_fits(self.private_bytes, base.private_bytes),
            difference_fits(self.working_set, base.working_set),
        ensures
            is_change(d, *base, *self),
    {
        Delta {
            private_bytes: signed_value(self.private_bytes) - signed_value(base.private_bytes),
            working_set: signed_value(self.working_set) - signed_value(base.working_set),
            handles: self.handles as i64 - base.handles as i64,
            gdi_objects: self.gdi_objects as i64 - base.gdi_objects as i64,
            user_objects: self.user_objects as i64 - base.user_objects as i64,
            threads: self.threads as i64 - base.threads as i64,
            modules: self.modules as i64 - base.modules as i64,
        }
    }

    /// One line for a log.
    pub open spec fn described(&self) -> Seq<char> {
        "private="@ + mib1(self.private_bytes as nat) + "MiB ws="@ + mib1(self.working_set as nat)
            + "MiB handles="@ + dec(self.handles as nat) + " gdi="@ + dec(self.gdi_objects as nat)
            + " user="@ + dec(self.user_objects as nat) + " threads="@ + dec(self.threads as nat)
            + " modules="@ + dec(self.modules as nat)
    }

    pub fn describe(&self) -> (s: String)
        ensures
            s@ == self.described(),
    {
        let mut s: String = "private=".to_owned();
        s.append(mib1_text(self.private_bytes).as_str());
        s.append("MiB ws=");
        s.append(mib1_text(self.working_set).as_str());
        s.append("MiB handles=");
        s.append(decimal(self.handles as u64).as_str());
        s.append(" gdi=");
        s.append(decimal(self.gdi_objects as u64).as_str());
        s.append(" user=");
        s.append(decimal(self.user_objects as u64).as_str());
        s.append(" threads=");
        s.append(decimal(self.threads as u64).as_str());
        s.append(" modules=");
        s.append(decimal(self.modules as u64).as_str());
        s
    }
}

impl Delta {
    /// One line for a log, every number with its sign.
    pub open spec fn described(&self) -> Seq<char> {
        "private="@ + mib2_signed(self.private_bytes as int) + "MiB ws="@ + mib2_signed(
            self.working_set as int,
        ) + "MiB handles="@ + dec_signed(self.handles as int) + " gdi="@ + dec_signed(
            self.gdi_objects as int,
        ) + " user="@ + dec_signed(self.user_objects as int) + " threads="@ + dec_signed(
            self.threads as int,
        ) + " modules="@ + dec_signed(self.modules as int)
    }

    pub fn describe(&self) -> (s: String)
        ensures
            s@ == self.described(),
    {
        let mut s: String = "private=".to_owned();
        s.append(mib2_signed_text(self.private_bytes).as_str());
        s.append("MiB ws=");
        s.append(mib2_signed_text(self.working_set).as_str());
        s.append("MiB handles=");
        s.append(decimal_signed(self.handles).as_str());
        s.append(" gdi=");
        s.append(decimal_signed(self.gdi_objects).as_str());
        s.append(" user=");
        s.append(decimal_signed(self.user_objects).as_str());
        s.append(" threads=");
        s.append(decimal_signed(self.threads).as_str());
        s.append(" modules=");
        s.append(decimal_signed(self.modules).as_str());
        s
    }
}

// ---------------------------------------------------------------
//                       Reading the system
// ---------------------------------------------------------------

/// How many of the first `n` threads belong to a process.
pub open spec fn owned(owners: Seq<u32>, process_id: u32, n: nat) -> nat
    decreases n,
{
    if n == 0 {
        0
    } else {
        owned(owners, process_id, (n - 1) as nat) + if owners[n - 1] == process_id {
            1nat
        } else {
            0nat
        }
    }
}

/// How many threads belong to a process, from the owners of all threads of the
/// system.
pub fn count_threads(owners: &Vec<u32>, process_id: u32) -> (count: u32)
    requires
        owners@.len() <= u32::MAX,
    ensures
        count == owned(owners@, process_id, owners@.len()),
{
    let mut count: u32 = 0;
    let mut i: usize = 0;
    while i < owners.len()
        invariant
            i <= owners@.len() <= u32::MAX,
            count <= i,
            count == owned(owners@, process_id, i as nat),
        decreases owners@.len() - i,
    {
        if owners[i] == process_id {
            count += 1;
        }
        i += 1;
    }
    count
}

/// How many modules a list of module handles holds, from its size in bytes.
pub fn count_modules(list_bytes: u32, handle_bytes: u32) -> (count: u32)
    requires
        handle_bytes > 0,
    ensures
        count == modules_in(list_bytes as nat, handle_bytes as nat),
{
    list_bytes / handle_bytes
}

/// A memory cap in bytes.
pub open spec fn cap_bytes(mb: u64) -> nat {
    (mb * 1048576) as nat
}

/// How many handles a list of modules holds.
pub open spec fn modules_in(list_bytes: nat, handle_bytes: nat) -> nat {
    list_bytes / handle_bytes
}

/// A memory cap in bytes; nothing when it does not fit into 64 bits. The system
/// takes the cap as a `usize`, which holds only its low bits where a `usize` has
/// fewer.
pub fn memory_cap(mb: u64) -> (r: Option<usize>)
    ensures
        match r {
            Some(bytes) => cap_bytes(mb) <= u64::MAX && bytes == cap_bytes(mb) as usize,
            None => cap_bytes(mb) > u64::MAX,
        },
{
    if mb > u64::MAX / 1048576 {
        return None;
    }
    Some((mb * 1048576) as usize)
}

// ---------------------------------------------------------------
//                      What the numbers mean
// ---------------------------------------------------------------

/// A change is what has to be added to the earlier counter for the later one: it is
/// positive where the counter grew, and swapping the two snapshots negates it.
pub proof fn changes_are_later_minus_earlier(
    d: Delta,
    back: Delta,
    before: Snapshot,
    after: Snapshot,
)
    requires
        is_change(d, before, after),
        is_change(back, after, before),
    ensures
        before.handles + d.handles == after.handles,
        before.gdi_objects + d.gdi_objects == after.gdi_objects,
        before.user_objects + d.user_objects == after.user_objects,
        before.threads + d.threads == after.threads,
        before.modules + d.modules == after.modules,
        before.private_bytes <= i64::MAX && after.private_bytes <= i64::MAX ==> before.private_bytes
            + d.private_bytes == after.private_bytes,
        before.working_set <= i64::MAX && after.working_set <= i64::MAX ==> before.working_set
            + d.working_set == after.working_set,
        d.handles == -back.handles,
        d.gdi_objects == -back.gdi_objects,
        d.user_objects == -back.user_objects,
        d.threads == -back.threads,
        d.modules == -back.modules,
        d.private_bytes == -back.private_bytes,
        d.working_set == -back.working_set,
{
}

/// Rounding gives the nearest integer: it is off by at most one half, and where two are
/// equally near it gives the even one.
pub proof fn rounding_is_to_the_nearest(num: nat, den: nat)
    requires
        den > 0,
    ensures
        2 * num <= (2 * nearest(num, den) + 1) * den,
        (2 * nearest(num, den) - 1) * den <= 2 * num,
        2 * num == (2 * nearest(num, den) + 1) * den || 2 * num == (2 * nearest(num, den) - 1) * den
            ==> nearest(num, den) % 2 == 0,
{
    let q: int = (num / den) as int;
    let r: int = (num % den) as int;
    let d: int = den as int;
    let n: int = num as int;
    vstd::arithmetic::div_mod::lemma_fundamental_div_mod(n, d);
    assert(n == d * q + r);
    assert((2 * q + 1) * d == 2 * (d * q) + d) by (nonlinear_arith);
    assert((2 * q - 1) * d == 2 * (d * q) - d) by (nonlinear_arith);
    assert((2 * (q + 1) + 1) * d == 2 * (d * q) + 3 * d) by (nonlinear_arith);
    assert((2 * (q + 1) - 1) * d == 2 * (d * q) + d) by (nonlinear_arith);
}

/// How many threads belong to a process: as many as there are places in the list that
/// name it.
pub proof fn threads_are_counted_by_their_owner(owners: Seq<u32>, process_id: u32, n: nat)
    requires
        n <= owners.len(),
    ensures
        Set::new(|i: int| 0 <= i < n && owners[i] == process_id).finite(),
        owned(owners, process_id, n) == Set::new(
            |i: int| 0 <= i < n && owners[i] == process_id,
        ).len(),
    decreases n,
{
    let here = Set::new(|i: int| 0 <= i < n && owners[i] == process_id);
    if n == 0 {
        assert(here =~= Set::empty());
    } else {
        let m = (n - 1) as nat;
        threads_are_counted_by_their_owner(owners, process_id, m);
        let before = Set::new(|i: int| 0 <= i < m && owners[i] == process_id);
        if owners[n - 1] == process_id {
            assert(here =~= before.insert(m as int));
        } else {
            assert(here =~= before);
        }
    }
}

/// Byte counts up to the first that a double cannot hold are shown exactly rounded; a
/// signed one shows its sign, and otherwise what the count without it shows.
pub proof fn small_counts_are_not_rounded_first(bytes: nat)
    ensures
        bytes < 9_007_199_254_740_992 ==> nearest_double(bytes) == bytes,
        mib1_signed(bytes as int) == "+"@ + mib1(bytes),
        bytes > 0 ==> mib1_signed(-(bytes as int)) == "-"@ + mib1(bytes),
        mib2_signed(bytes as int) == "+"@ + mib2(bytes),
        bytes > 0 ==> mib2_signed(-(bytes as int)) == "-"@ + mib2(bytes),
{
    if bytes < 9_007_199_254_740_992 {
        assert(spacing_from(bytes, 1) == 1);
        vstd::arithmetic::div_mod::lemma_fundamental_div_mod(bytes as int, 1);
        vstd::arithmetic::div_mod::lemma_mod_bound(bytes as int, 1);
        assert(nearest(bytes, 1) == bytes);
        assert(nearest(bytes, 1) * 1 == bytes) by (nonlinear_arith)
            requires
                nearest(bytes, 1) == bytes,
        ;
    }
}

/// Tenths and hundredths are shown as a whole part, a point, and one or two digits that
/// together are the number.
pub proof fn decimals_show_the_number(n: nat)
    ensures
        exists|whole: nat, part: nat|
            n == 10 * whole + part && part < 10 && tenths_text(n) == #[trigger] dec(whole) + "."@
                + #[trigger] dec(part),
        exists|whole: nat, part: nat|
            n == 100 * whole + part && part < 100 && hundredths_text(n) == #[trigger] dec(whole)
                + "."@ + #[trigger] dec2(part),
{
    assert(tenths_text(n) == dec(n / 10) + "."@ + dec(n % 10));
    assert(hundredths_text(n) == dec(n / 100) + "."@ + dec2(n % 100));
}

/// A counter read as signed is the counter itself, or less than it by two to the 64th
/// where it does not fit.
pub proof fn signed_counters_wrap(x: u64)
    ensures
        i64::MIN <= signed(x) <= i64::MAX,
        signed(x) == x || signed(x) == x - 18_446_744_073_709_551_616,
{
}

/// A cap of one MiB is 1024 times 1024 bytes, and caps add up; a list of handles holds as
/// many as their size goes into its own.
pub proof fn caps_and_lists_scale(mb: u64, handles: nat, handle_bytes: nat)
    requires
        handle_bytes > 0,
    ensures
        cap_bytes(1) == 1024 * 1024,
        mb < u64::MAX ==> cap_bytes((mb + 1) as u64) == cap_bytes(mb) + cap_bytes(1),
        modules_in(handles * handle_bytes, handle_bytes) == handles,
{
    vstd::arithmetic::div_mod::lemma_div_multiples_vanish(handles as int, handle_bytes as int);
    assert(handles * handle_bytes == handle_bytes * handles) by (nonlinear_arith);
}

} // verus!
