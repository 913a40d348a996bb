//! Decimal and hexadecimal numbers, written and read.

use vstd::prelude::*;
use crate::text::chars_of;

verus! {

// ---------------------------------------------------------------
//                            Decimal
// ---------------------------------------------------------------

/// The character of a decimal digit.
pub open spec fn digit(d: nat) -> char {
    (48 + d) as char
}

/// `n` in decimal, without leading zeros.
pub open spec fn dec(n: nat) -> Seq<char>
    decreases n,
{
    if n < 10 {
        seq![digit(n)]
    } else {
        dec(n / 10).push(digit(n % 10))
    }
}

pub fn digit_char(d: u64) -> (c: char)
    requires
        d < 10,
    ensures
        c == digit(d as nat),
{
    let b: u8 = 48u8 + d as u8;
    b as char
}

pub fn decimal(n: u64) -> (s: String)
    ensures
        s@ == dec(n as nat),
    decreases n,
{
    let mut s: String = if n < 10 {
        String::new()
    } else {
        decimal(n / 10)
    };
    s.push(digit_char(n % 10));
    assert(n < 10 ==> s@ =~= seq![digit(n as nat)]);
    s
}

/// `n` in decimal, with a leading zero below ten.
pub open spec fn dec2(n: nat) -> Seq<char> {
    if n < 10 {
        seq!['0', digit(n)]
    } else {
        dec(n)
    }
}

pub fn decimal2(n: u64) -> (s: String)
    ensures
        s@ == dec2(n as nat),
{
    if n < 10 {
        let mut s: String = String::new();
        s.push('0');
        s.push(digit_char(n));
        assert(s@ =~= seq!['0', digit(n as nat)]);
        s
    } else {
        decimal(n)
    }
}

/// `n` in decimal, with leading zeros up to four digits.
pub open spec fn dec4(n: nat) -> Seq<char> {
    if n < 10 {
        seq!['0', '0', '0'] + dec(n)
    } else if n < 100 {
        seq!['0', '0'] + dec(n)
    } else if n < 1000 {
        seq!['0'] + dec(n)
    } else {
        dec(n)
    }
}

pub fn decimal4(n: u64) -> (s: String)
    ensures
        s@ == dec4(n as nat),
{
    let mut s: String = String::new();
    if n < 10 {
        s.push('0');
    }
    if n < 100 {
        s.push('0');
    }
    if n < 1000 {
        s.push('0');
    }
    s.append(decimal(n).as_str());
    assert(s@ =~= dec4(n as nat));
    s
}

/// `i` in decimal, with a minus sign when it is negative.
pub open spec fn dec_int(i: int) -> Seq<char> {
    if i < 0 {
        seq!['-'] + dec((-i) as nat)
    } else {
        dec(i as nat)
    }
}

/// `i` in decimal, always with a sign.
pub open spec fn dec_signed(i: int) -> Seq<char> {
    if i < 0 {
        seq!['-'] + dec((-i) as nat)
    } else {
        seq!['+'] + dec(i as nat)
    }
}

/// The absolute value of `i`.
pub fn magnitude(i: i64) -> (r: u64)
    ensures
        r == (if i < 0 {
            -i
        } else {
            i as int
        }),
{
    if i >= 0 {
        i as u64
    } else if i == i64::MIN {
        9223372036854775808u64
    } else {
        (-i) as u64
    }
}

pub fn decimal_int(i: i64) -> (s: String)
    ensures
        s@ == dec_int(i as int),
{
    let mut s: String = String::new();
    if i < 0 {
        s.push('-');
    }
    s.append(decimal(magnitude(i)).as_str());
    assert(s@ =~= dec_int(i as int));
    s
}

pub fn decimal_signed(i: i64) -> (s: String)
    ensures
        s@ == dec_signed(i as int),
{
    let mut s: String = String::new();
    if i < 0 {
        s.push('-');
    } else {
        s.push('+');
    }
    s.append(decimal(magnitude(i)).as_str());
    assert(s@ =~= dec_signed(i as int));
    s
}

pub open spec fn is_digit(c: char) -> bool {
    '0' <= c <= '9'
}

/// The number that a run of decimal digits denotes.
pub open spec fn value(s: Seq<char>) -> nat
    decreases s.len(),
{
    if s.len() == 0 {
        0
    } else {
        value(s.drop_last()) * 10 + (s.last() as nat - 48) as nat
    }
}

/// `s` without the plus sign that it may begin with.
pub open spec fn unsigned_part(s: Seq<char>) -> Seq<char> {
    if s.len() > 0 && s[0] == '+' {
        s.skip(1)
    } else {
        s
    }
}

pub open spec fn all_digits(s: Seq<char>) -> bool {
    forall|i: int| 0 <= i < s.len() ==> is_digit(#[trigger] s[i])
}

/// The number that a text denotes: an optional plus sign and one or more
/// decimal digits, at most `max`.
pub open spec fn parse_dec(s: Seq<char>, max: nat) -> Option<nat> {
    let digits = unsigned_part(s);
    if digits.len() > 0 && all_digits(digits) && value(digits) <= max {
        Some(value(digits))
    } else {
        None
    }
}

proof fn lemma_value_prefix(s: Seq<char>, i: int)
    requires
        0 <= i <= s.len(),
        all_digits(s),
    ensures
        value(s.take(i)) <= value(s),
    decreases s.len(),
{
    if i == s.len() {
        assert(s.take(i) =~= s);
    } else {
        assert forall|k: int| 0 <= k < s.len() - 1 implies is_digit(#[trigger] s.drop_last()[k]) by {
            assert(s.drop_last()[k] == s[k]);
        }
        lemma_value_prefix(s.drop_last(), i);
        assert(s.drop_last().take(i) =~= s.take(i));
    }
}

fn parse_bounded(s: &str, max: u64) -> (r: Option<u64>)
    ensures
        match r {
            Some(n) => parse_dec(s@, max as nat) == Some(n as nat),
            None => parse_dec(s@, max as nat) is None,
        },
{
    let v: Vec<char> = chars_of(s);
    let start: usize = if v.len() > 0 && v[0] == '+' {
        1
    } else {
        0
    };
    let ghost digits = unsigned_part(s@);
    if v.len() == start {
        return None;
    }
    let mut n: u64 = 0;
    let mut i: usize = start;
    while i < v.len()
        invariant
            v@ == s@,
            start <= i <= v@.len(),
            start < v@.len(),
            digits.len() == v@.len() - start,
            digits == unsigned_part(s@),
            forall|k: int| 0 <= k < digits.len() ==> digits[k] == #[trigger] v@[k + start],
            forall|k: int| 0 <= k < i - start ==> is_digit(#[trigger] digits[k]),
            n == value(digits.take(i - start)),
            n <= max,
        decreases v@.len() - i,
    {
        let c: char = v[i];
        assert(digits[i - start] == v@[(i - start) + start]);
        if !('0' <= c && c <= '9') {
            assert(!is_digit(digits[i - start]));
            return None;
        }
        let d: u64 = (c as u32 - 48) as u64;
        let ghost next = digits.take(i - start + 1);
        proof {
            assert(next.drop_last() =~= digits.take(i - start));
            assert(next.last() == c);
            assert(value(next) == n * 10 + d);
        }
        let wide: u128 = (n as u128) * 10 + (d as u128);
        if wide > max as u128 {
            proof {
                if all_digits(digits) {
                    lemma_value_prefix(digits, i - start + 1);
                }
            }
            return None;
        }
        n = wide as u64;
        i += 1;
    }
    assert(digits.take(digits.len() as int) =~= digits);
    Some(n)
}

/// Reads a `u64` the way a command line writes one.
pub fn parse_u64(s: &str) -> (r: Option<u64>)
    ensures
        match r {
            Some(n) => parse_dec(s@, u64::MAX as nat) == Some(n as nat),
            None => parse_dec(s@, u64::MAX as nat) is None,
        },
{
    parse_bounded(s, u64::MAX)
}

/// Reads a `usize` the way a command line writes one.
pub fn parse_usize(s: &str) -> (r: Option<usize>)
    ensures
        match r {
            Some(n) => parse_dec(s@, usize::MAX as nat) == Some(n as nat),
            None => parse_dec(s@, usize::MAX as nat) is None,
        },
{
    match parse_bounded(s, usize::MAX as u64) {
        Some(n) => Some(n as usize),
        None => None,
    }
}

pub proof fn lemma_dec_digits(n: nat)
    ensures
        dec(n).len() > 0,
        all_digits(dec(n)),
        value(dec(n)) == n,
    decreases n,
{
    if n < 10 {
        assert(dec(n).drop_last() =~= Seq::empty());
        assert(value(dec(n).drop_last()) == 0);
    } else {
        lemma_dec_digits(n / 10);
        assert(dec(n).drop_last() =~= dec(n / 10));
    }
}

/// Reading a number back from its decimal form gives the number.
pub proof fn parse_reads_back_decimal(n: nat, max: nat)
    requires
        n <= max,
    ensures
        parse_dec(dec(n), max) == Some(n),
{
    lemma_dec_digits(n);
    assert(is_digit(dec(n)[0]));
}

// ---------------------------------------------------------------
//                          Hexadecimal
// ---------------------------------------------------------------

/// The upper-case character of a hexadecimal digit.
pub open spec fn hex_digit(d: nat) -> char {
    if d < 10 {
        (48 + d) as char
    } else {
        (55 + d) as char
    }
}

/// The lower-case character of a hexadecimal digit.
pub open spec fn hex_digit_lower(d: nat) -> char {
    if d < 10 {
        (48 + d) as char
    } else {
        (87 + d) as char
    }
}

/// The low `width` hexadecimal digits of `n`, upper case, most significant
/// first.
pub open spec fn hex_fixed(n: nat, width: nat) -> Seq<char>
    decreases width,
{
    if width == 0 {
        Seq::empty()
    } else {
        hex_fixed(n / 16, (width - 1) as nat).push(hex_digit(n % 16))
    }
}

/// A 32-bit code as eight upper-case hexadecimal digits after `0x`.
pub open spec fn hex32(n: u32) -> Seq<char> {
    "0x"@ + hex_fixed(n as nat, 8)
}

fn hex_char(d: u32) -> (c: char)
    requires
        d < 16,
    ensures
        c == hex_digit(d as nat),
{
    let b: u8 = if d < 10 {
        48u8 + d as u8
    } else {
        55u8 + d as u8
    };
    b as char
}

fn hex_digits(n: u32, width: u32) -> (s: String)
    ensures
        s@ == hex_fixed(n as nat, width as nat),
    decreases width,
{
    if width == 0 {
        String::new()
    } else {
        let mut s: String = hex_digits(n / 16, width - 1);
        s.push(hex_char(n % 16));
        s
    }
}

/// `0x` and eight hexadecimal digits.
pub fn hex32_text(n: u32) -> (s: String)
    ensures
        s@ == hex32(n),
{
    let mut s: String = "0x".to_owned();
    s.append(hex_digits(n, 8).as_str());
    s
}

/// A byte as two lower-case hexadecimal digits.
pub open spec fn hex_byte(b: u8) -> Seq<char> {
    seq![hex_digit_lower(b as nat / 16), hex_digit_lower(b as nat % 16)]
}

fn hex_char_lower(d: u8) -> (c: char)
    requires
        d < 16,
    ensures
        c == hex_digit_lower(d as nat),
{
    let b: u8 = if d < 10 {
        48u8 + d
    } else {
        87u8 + d
    };
    b as char
}

pub fn hex_byte_text(b: u8) -> (s: String)
    ensures
        s@ == hex_byte(b),
{
    let mut s: String = String::new();
    s.push(hex_char_lower(b / 16));
    s.push(hex_char_lower(b % 16));
    assert(s@ =~= hex_byte(b));
    s
}

/// What a character is worth as a hexadecimal digit, in either case.
pub open spec fn hex_value_of(c: char) -> Option<nat> {
    if '0' <= c <= '9' {
        Some((c as nat - 48) as nat)
    } else if 'A' <= c <= 'F' {
        Some((c as nat - 55) as nat)
    } else if 'a' <= c <= 'f' {
        Some((c as nat - 87) as nat)
    } else {
        None
    }
}

/// The number that a run of hexadecimal digits denotes.
pub open spec fn hex_value(s: Seq<char>) -> nat
    decreases s.len(),
{
    if s.len() == 0 {
        0
    } else {
        hex_value(s.drop_last()) * 16 + hex_value_of(s.last()).unwrap()
    }
}

pub open spec fn all_hex(s: Seq<char>) -> bool {
    forall|i: int| 0 <= i < s.len() ==> hex_value_of(#[trigger] s[i]) is Some
}

/// The 32-bit number that a text denotes in hexadecimal: an optional plus sign
/// and one or more digits.
pub open spec fn parse_hex32(s: Seq<char>) -> Option<u32> {
    let digits = unsigned_part(s);
    if digits.len() > 0 && all_hex(digits) && hex_value(digits) <= u32::MAX {
        Some(hex_value(digits) as u32)
    } else {
        None
    }
}

fn hex_digit_value(c: char) -> (r: Option<u32>)
    ensures
        match r {
            Some(d) => hex_value_of(c) == Some(d as nat) && d < 16,
            None => hex_value_of(c) is None,
        },
{
    if '0' <= c && c <= '9' {
        Some(c as u32 - 48)
    } else if 'A' <= c && c <= 'F' {
        Some(c as u32 - 55)
    } else if 'a' <= c && c <= 'f' {
        Some(c as u32 - 87)
    } else {
        None
    }
}

proof fn lemma_hex_value_prefix(s: Seq<char>, i: int)
    requires
        0 <= i <= s.len(),
        all_hex(s),
    ensures
        hex_value(s.take(i)) <= hex_value(s),
    decreases s.len(),
{
    if i == s.len() {
        assert(s.take(i) =~= s);
    } else {
        assert forall|k: int| 0 <= k < s.len() - 1 implies hex_value_of(
            #[trigger] s.drop_last()[k],
        ) is Some by {
            assert(s.drop_last()[k] == s[k]);
        }
        lemma_hex_value_prefix(s.drop_last(), i);
        assert(s.drop_last().take(i) =~= s.take(i));
    }
}

/// Reads the characters of `v` from `from` on as a hexadecimal number.
pub fn parse_hex_from(v: &Vec<char>, from: usize, to: usize) -> (r: Option<u32>)
    requires
        from <= to <= v@.len(),
    ensures
        r == parse_hex32(v@.subrange(from as int, to as int)),
{
    let ghost part = v@.subrange(from as int, to as int);
    let start: usize = if from < to && v[from] == '+' {
        from + 1
    } else {
        from
    };
    let ghost digits = unsigned_part(part);
    assert(digits =~= v@.subrange(start as int, to as int));
    if to == start {
        return None;
    }
    let mut n: u32 = 0;
    let mut i: usize = start;
    while i < to
        invariant
            start <= i <= to <= v@.len(),
            start < to,
            digits == v@.subrange(start as int, to as int),
            part == v@.subrange(from as int, to as int),
            digits == unsigned_part(part),
            forall|k: int| 0 <= k < i - start ==> hex_value_of(#[trigger] digits[k]) is Some,
            n == hex_value(digits.take(i - start)),
        decreases to - i,
    {
        assert(digits[i - start] == v@[i as int]);
        match hex_digit_value(v[i]) {
            None => {
                assert(hex_value_of(digits[i - start]) is None);
                return None;
            },
            Some(d) => {
                let ghost next = digits.take(i - start + 1);
                proof {
                    assert(next.drop_last() =~= digits.take(i - start));
                    assert(next.last() == v@[i as int]);
                    assert(hex_value(next) == n * 16 + d);
                }
                let wide: u64 = (n as u64) * 16 + (d as u64);
                if wide > 0xFFFF_FFFFu64 {
                    proof {
                        if all_hex(digits) {
                            lemma_hex_value_prefix(digits, i - start + 1);
                        }
                    }
                    return None;
                }
                n = wide as u32;
            },
        }
        i += 1;
    }
    assert(digits.take(digits.len() as int) =~= digits);
    Some(n)
}

pub proof fn lemma_hex_fixed(n: nat, width: nat)
    ensures
        hex_fixed(n, width).len() == width,
        all_hex(hex_fixed(n, width)),
        n < pow16(width) ==> hex_value(hex_fixed(n, width)) == n,
    decreases width,
{
    if width > 0 {
        lemma_hex_fixed(n / 16, (width - 1) as nat);
        assert(hex_fixed(n, width).drop_last() =~= hex_fixed(n / 16, (width - 1) as nat));
        assert(hex_value_of(hex_digit(n % 16)) == Some(n % 16));
    }
}

/// Sixteen to the power `k`.
pub open spec fn pow16(k: nat) -> nat
    decreases k,
{
    if k == 0 {
        1
    } else {
        16 * pow16((k - 1) as nat)
    }
}

/// Reading a 32-bit number back from its eight hexadecimal digits gives the
/// number.
pub proof fn parse_reads_back_hex(n: u32)
    ensures
        parse_hex32(hex_fixed(n as nat, 8)) == Some(n),
{
    lemma_hex_fixed(n as nat, 8);
    assert(pow16(8) == 0x1_0000_0000) by {
        reveal_with_fuel(pow16, 9);
    }
    let s = hex_fixed(n as nat, 8);
    assert(hex_value_of(s[0]) is Some);
}

/// Leading zeros change the length of a number and not its value: with them it has at
/// least two digits, or four.
pub proof fn leading_zeros_keep_the_value(n: nat)
    ensures
        value(dec2(n)) == n,
        all_digits(dec2(n)),
        dec2(n).len() >= 2,
        n < 100 ==> dec2(n).len() == 2,
        value(dec4(n)) == n,
        all_digits(dec4(n)),
        dec4(n).len() >= 4,
        n < 10_000 ==> dec4(n).len() == 4,
{
    lemma_dec_digits(n);
    lemma_dec_lengths(n);
    let d = dec(n);
    if n < 10 {
        lemma_zero_in_front(d);
        assert(dec2(n) =~= seq!['0'] + d);
        lemma_zero_in_front(seq!['0'] + d);
        lemma_zero_in_front(seq!['0'] + (seq!['0'] + d));
        assert(dec4(n) =~= seq!['0'] + (seq!['0'] + (seq!['0'] + d)));
    } else if n < 100 {
        lemma_zero_in_front(d);
        lemma_zero_in_front(seq!['0'] + d);
        assert(dec4(n) =~= seq!['0'] + (seq!['0'] + d));
    } else if n < 1000 {
        lemma_zero_in_front(d);
    }
}

proof fn lemma_zero_in_front(s: Seq<char>)
    requires
        all_digits(s),
    ensures
        all_digits(seq!['0'] + s),
        value(seq!['0'] + s) == value(s),
    decreases s.len(),
{
    let t = seq!['0'] + s;
    assert forall|i: int| 0 <= i < t.len() implies is_digit(#[trigger] t[i]) by {
        if i > 0 {
            assert(t[i] == s[i - 1]);
        }
    }
    if s.len() == 0 {
        assert(t.drop_last() =~= Seq::empty());
        assert(value(t.drop_last()) == 0);
    } else {
        let rest = s.drop_last();
        assert forall|i: int| 0 <= i < rest.len() implies is_digit(#[trigger] rest[i]) by {
            assert(rest[i] == s[i]);
        }
        lemma_zero_in_front(rest);
        assert(t.drop_last() =~= seq!['0'] + rest);
        assert(t.last() == s.last());
    }
}

proof fn lemma_dec_lengths(n: nat)
    ensures
        n < 10 ==> dec(n).len() == 1,
        10 <= n < 100 ==> dec(n).len() == 2,
        100 <= n < 1000 ==> dec(n).len() == 3,
        1000 <= n < 10_000 ==> dec(n).len() == 4,
        n >= 10_000 ==> dec(n).len() >= 4,
{
    reveal_with_fuel(dec, 5);
}

/// A signed number is shown with a minus sign exactly where it is negative, and a plus
/// sign only where asked for; the digits are those of its size.
pub proof fn signs_are_shown(n: nat)
    ensures
        dec_int(n as int) == dec(n),
        dec_signed(n as int) == seq!['+'] + dec(n),
        n > 0 ==> dec_int(-(n as int)) == seq!['-'] + dec(n),
        n > 0 ==> dec_signed(-(n as int)) == seq!['-'] + dec(n),
{
}

/// What counts as a number: digits, at least one and after at most one plus sign, whose
/// value is not above the bound. Nothing else is read as one.
pub proof fn what_counts_as_a_number(s: Seq<char>, max: nat)
    ensures
        parse_dec(s, max) matches Some(n) ==> n <= max && (s[0] == '+' || is_digit(s[0])) && forall|
            i: int,
        |
            0 < i < s.len() ==> is_digit(#[trigger] s[i]),
        s.len() == 0 ==> parse_dec(s, max) is None,
        s == seq!['+'] ==> parse_dec(s, max) is None,
        parse_dec(s, max) is Some && s.len() > 0 && s[0] != '+' ==> parse_dec(seq!['+'] + s, max)
            == parse_dec(s, max),
        forall|i: int|
            0 <= i < s.len() && !is_digit(#[trigger] s[i]) && s[i] != '+' ==> parse_dec(s, max) is None,
{
    let digits = unsigned_part(s);
    if s.len() > 0 && s[0] == '+' {
        assert forall|i: int| 0 < i < s.len() implies s[i] == #[trigger] digits[i - 1] by {}
        assert forall|i: int|
            0 < i < s.len() && parse_dec(s, max) is Some implies is_digit(#[trigger] s[i]) by {
            assert(is_digit(digits[i - 1]));
        }
    } else if s.len() > 0 {
        assert((seq!['+'] + s).skip(1) =~= s);
    }
}

/// A byte is shown as two hexadecimal digits that read back as the byte.
pub proof fn bytes_read_back_from_hexadecimal(b: u8)
    ensures
        hex_byte(b).len() == 2,
        all_hex(hex_byte(b)),
        hex_value(hex_byte(b)) == b,
{
    let s = hex_byte(b);
    assert(s.drop_last() =~= seq![s[0]]);
    assert(s.drop_last().drop_last() =~= Seq::empty());
    assert(hex_value(s.drop_last().drop_last()) == 0);
    assert(hex_value(s.drop_last()) == hex_value_of(s[0]).unwrap());
}

/// A code is shown as ten characters, of which the last eight read back as the code; no
/// digits at all are no number.
pub proof fn codes_have_eight_digits(n: u32)
    ensures
        hex32(n).len() == 10,
        hex32(n).take(2) == "0x"@,
        parse_hex32(hex32(n).skip(2)) == Some(n),
        parse_hex32(Seq::empty()) is None,
        parse_hex32(seq!['+']) is None,
{
    reveal_strlit("0x");
    lemma_hex_fixed(n as nat, 8);
    parse_reads_back_hex(n);
    assert(hex32(n).take(2) =~= "0x"@);
    assert(hex32(n).skip(2) =~= hex_fixed(n as nat, 8));
    assert(seq!['+'].skip(1) =~= Seq::<char>::empty());
}

} // verus!
