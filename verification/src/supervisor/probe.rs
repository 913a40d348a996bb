//! Isolated crash probes.
//!
//! Probes exist for checks that may legitimately fault the process. Running them
//! in a child means that an access violation is data (an exit code) rather than
//! the end of the run. The probe writes the status that it observed to its
//! output, and that is read back here.

use vstd::prelude::*;
use crate::numbers::{
    hex32, hex32_text, hex_fixed, hex_value_of, lemma_hex_fixed, parse_hex32, parse_hex_from,
    parse_reads_back_hex,
};
use crate::supervisor::{classify_exit, verdict_of, Verdict};
use crate::text::{
    after_first_line, begins_with, chars_of, first_line, lemma_first_line, lemma_trim_back,
    lemma_trim_front, starts_with, trim, trimmed, two,
};

verus! {

/// Result of an out-of-process probe.
#[derive(Debug, Clone, Copy, PartialEq, Eq, Structural)]
pub struct ProbeOutcome {
    pub crashed: bool,
    pub exit_code: i32,
    pub hresult: Option<u32>,
}

/// What stands before the status in the probe's output.
pub const HRESULT_MARK: &'static str = "PROBE-HRESULT=";

pub proof fn lemma_rest_is_shorter(s: Seq<char>)
    requires
        s.len() > 0,
    ensures
        after_first_line(s).len() < s.len(),
    decreases s.len(),
{
    if s[0] != '\n' && s.len() > 1 {
        lemma_rest_is_shorter(s.drop_first());
    } else if s[0] != '\n' {
        assert(after_first_line(s.drop_first()) =~= Seq::empty());
    }
}

/// What follows the mark in the first line of `s` that begins with it.
pub open spec fn marked(s: Seq<char>, mark: Seq<char>) -> Option<Seq<char>>
    decreases s.len(),
{
    if s.len() == 0 {
        None
    } else if begins_with(first_line(s), mark) {
        Some(first_line(s).skip(mark.len() as int))
    } else {
        proof {
            lemma_rest_is_shorter(s);
        }
        marked(after_first_line(s), mark)
    }
}

/// `s` without any number of leading `0x`.
pub open spec fn without_0x(s: Seq<char>) -> Seq<char>
    decreases s.len(),
{
    if s.len() >= 2 && s[0] == '0' && s[1] == 'x' {
        without_0x(s.skip(2))
    } else {
        s
    }
}

/// The status that a probe's output reports.
pub open spec fn reported_status(stdout: Seq<char>) -> Option<u32> {
    match marked(stdout, HRESULT_MARK@) {
        Some(v) => parse_hex32(without_0x(trimmed(v))),
        None => None,
    }
}

fn line_stop(s: &Vec<char>, from: usize) -> (to: usize)
    requires
        from <= s@.len(),
    ensures
        from <= to <= s@.len(),
        first_line(s@.skip(from as int)) == s@.subrange(from as int, to as int),
        after_first_line(s@.skip(from as int)) == (if to < s@.len() {
            s@.skip(to + 1)
        } else {
            Seq::empty()
        }),
{
    let mut to: usize = from;
    while to < s.len() && s[to] != '\n'
        invariant
            from <= to <= s@.len(),
            forall|k: int| from <= k < to ==> s@[k] != '\n',
        decreases s@.len() - to,
    {
        to += 1;
    }
    proof {
        let rest = s@.skip(from as int);
        assert forall|k: int| 0 <= k < to - from implies rest[k] != '\n' by {
            assert(rest[k] == s@[from + k]);
        }
        lemma_first_line(rest, to - from);
        assert(rest.take(to - from) =~= s@.subrange(from as int, to as int));
        if to < s@.len() {
            assert(rest.skip(to - from + 1) =~= s@.skip(to + 1));
        }
    }
    to
}

fn hex_status(value: &str) -> (r: Option<u32>)
    ensures
        r == parse_hex32(without_0x(trimmed(value@))),
{
    let digits: Vec<char> = chars_of(trim(value));
    let ghost all = digits@;
    let mut k: usize = 0;
    assert(all.skip(0) =~= all);
    while digits.len() - k >= 2 && digits[k] == '0' && digits[k + 1] == 'x'
        invariant
            k <= digits@.len(),
            all == digits@,
            without_0x(all) == without_0x(all.skip(k as int)),
        decreases digits@.len() - k,
    {
        assert(all.skip(k as int)[0] == all[k as int]);
        assert(all.skip(k as int)[1] == all[k + 1]);
        assert(all.skip(k as int).skip(2) =~= all.skip(k + 2));
        k += 2;
    }
    proof {
        let rest = all.skip(k as int);
        if rest.len() >= 2 {
            assert(rest[0] == all[k as int] && rest[1] == all[k + 1]);
        }
        assert(all.subrange(k as int, all.len() as int) =~= rest);
    }
    parse_hex_from(&digits, k, digits.len())
}

/// The status that a probe's output reports: read from the first line that
/// begins with the mark.
pub fn read_status(stdout: &str) -> (r: Option<u32>)
    ensures
        r == reported_status(stdout@),
{
    let all: Vec<char> = chars_of(stdout);
    let width: usize = chars_of(HRESULT_MARK).len();
    let mut i: usize = 0;
    assert(stdout@.skip(0) =~= stdout@);
    while i < all.len()
        invariant
            all@ == stdout@,
            i <= all@.len(),
            width == HRESULT_MARK@.len(),
            marked(stdout@, HRESULT_MARK@) == marked(stdout@.skip(i as int), HRESULT_MARK@),
        decreases all@.len() - i,
    {
        let stop: usize = line_stop(&all, i);
        let line: &str = stdout.substring_char(i, stop);
        if starts_with(line, HRESULT_MARK) {
            assert(line@.subrange(width as int, line@.len() as int) =~= line@.skip(width as int));
            return hex_status(line.substring_char(width, stop - i));
        }
        if stop < all.len() {
            i = stop + 1;
        } else {
            assert(stdout@.skip(all@.len() as int) =~= Seq::<char>::empty());
            i = all.len();
        }
    }
    None
}

/// How a probe ended.
pub open spec fn outcome(exit_code: Option<i32>, stdout: Seq<char>) -> ProbeOutcome {
    let code = match exit_code {
        Some(c) => c,
        None => -1i32,
    };
    ProbeOutcome {
        crashed: verdict_of(code) == Verdict::Crashed,
        exit_code: code,
        hresult: reported_status(stdout),
    }
}

/// Classifies how a probe ended, from its exit code, where the system has one,
/// and from its output.
pub fn probe_outcome(exit_code: Option<i32>, stdout: &str) -> (r: ProbeOutcome)
    ensures
        r == outcome(exit_code, stdout@),
{
    let code: i32 = match exit_code {
        Some(c) => c,
        None => -1,
    };
    ProbeOutcome {
        crashed: classify_exit(code) == Verdict::Crashed,
        exit_code: code,
        hresult: read_status(stdout),
    }
}

// ---------------------------------------------------------------
//                      What a probe writes
// ---------------------------------------------------------------

pub open spec fn null_or_valid(null: bool) -> Seq<char> {
    if null {
        "NULL"@
    } else {
        "valid"@
    }
}

fn null_word(null: bool) -> (s: &'static str)
    ensures
        s@ == null_or_valid(null),
{
    if null {
        "NULL"
    } else {
        "valid"
    }
}

/// The line that announces the call.
pub open spec fn call_text(null_hbmp: bool, null_alpha: bool) -> Seq<char> {
    "PROBE: calling GetThumbnail with phbmp="@ + null_or_valid(null_hbmp) + " pdwalpha="@
        + null_or_valid(null_alpha)
}

pub fn call_line(null_hbmp: bool, null_alpha: bool) -> (s: String)
    ensures
        s@ == call_text(null_hbmp, null_alpha),
{
    let mut s: String = two("PROBE: calling GetThumbnail with phbmp=", null_word(null_hbmp));
    s.append(" pdwalpha=");
    s.append(null_word(null_alpha));
    s
}

/// The line that reports the status.
pub open spec fn status_text(hr: u32) -> Seq<char> {
    HRESULT_MARK@ + hex32(hr)
}

pub fn status_line(hr: u32) -> (s: String)
    ensures
        s@ == status_text(hr),
{
    two(HRESULT_MARK, hex32_text(hr).as_str())
}

proof fn lemma_call_text(null_hbmp: bool, null_alpha: bool)
    ensures
        call_text(null_hbmp, null_alpha).len() > 6,
        call_text(null_hbmp, null_alpha)[5] == ':',
        forall|k: int|
            0 <= k < call_text(null_hbmp, null_alpha).len() ==> call_text(null_hbmp, null_alpha)[k]
                != '\n',
{
    reveal_strlit("PROBE: calling GetThumbnail with phbmp=");
    reveal_strlit(" pdwalpha=");
    reveal_strlit("NULL");
    reveal_strlit("valid");
}

proof fn lemma_hex_text(hr: u32)
    ensures
        trimmed(hex32(hr)) == hex32(hr),
        without_0x(hex32(hr)) == hex_fixed(hr as nat, 8),
        forall|k: int| 0 <= k < hex32(hr).len() ==> hex32(hr)[k] != '\n',
{
    let digits = hex_fixed(hr as nat, 8);
    let s = hex32(hr);
    reveal_strlit("0x");
    lemma_hex_fixed(hr as nat, 8);
    assert(s.len() == 10 && s[0] == '0' && s[1] == 'x');
    assert forall|k: int| 2 <= k < 10 implies #[trigger] s[k] == digits[k - 2] && hex_value_of(
        s[k],
    ) is Some by {
        assert(hex_value_of(digits[k - 2]) is Some);
    }
    lemma_trim_front(s, 0);
    assert(s.skip(0) =~= s);
    lemma_trim_back(s, 10);
    assert(s.take(10) =~= s);
    assert(s.skip(2) =~= digits);
    assert(hex_value_of(digits[1]) is Some);
    assert(digits[1] != 'x');
    assert(without_0x(digits) == digits);
}

/// The status that a probe observed is the status that is read back from its
/// output, whatever it writes after that.
pub proof fn status_reads_back(null_hbmp: bool, null_alpha: bool, hr: u32, rest: Seq<char>)
    ensures
        reported_status(
            call_text(null_hbmp, null_alpha) + "\n"@ + status_text(hr) + "\n"@ + rest,
        ) == Some(hr),
{
    let first = call_text(null_hbmp, null_alpha);
    let second = status_text(hr);
    let all = first + "\n"@ + second + "\n"@ + rest;
    let tail = second + "\n"@ + rest;
    reveal_strlit("\n");
    reveal_strlit("PROBE-HRESULT=");
    lemma_call_text(null_hbmp, null_alpha);
    lemma_hex_text(hr);
    parse_reads_back_hex(hr);
    assert forall|k: int| 0 <= k < first.len() implies all[k] != '\n' by {
        assert(all[k] == first[k]);
    }
    lemma_first_line(all, first.len() as int);
    assert(all.take(first.len() as int) =~= first);
    assert(all.skip(first.len() as int + 1) =~= tail);
    if begins_with(first, HRESULT_MARK@) {
        assert(first.take(14)[5] == first[5]);
        assert(false);
    }
    assert(marked(all, HRESULT_MARK@) == marked(tail, HRESULT_MARK@));
    assert forall|k: int| 0 <= k < second.len() implies tail[k] != '\n' by {
        assert(tail[k] == second[k]);
        if k >= 14 {
            assert(second[k] == hex32(hr)[k - 14]);
        }
    }
    lemma_first_line(tail, second.len() as int);
    assert(tail.take(second.len() as int) =~= second);
    assert(second.take(14) =~= HRESULT_MARK@);
    assert(second.skip(14) =~= hex32(hr));
}

/// How a probe ended: crashed exactly when its code is negative or has one of its two top
/// bits set, which it counts as when the system has no code for it; the code itself is
/// kept, and the status is read from the output alone.
pub proof fn how_a_probe_ended(exit_code: Option<i32>, other: Option<i32>, stdout: Seq<char>)
    ensures
        exit_code is None ==> outcome(exit_code, stdout).crashed,
        exit_code matches Some(code) ==> outcome(exit_code, stdout).exit_code == code && (
        outcome(exit_code, stdout).crashed <==> code < 0 || code >= 0x4000_0000),
        outcome(exit_code, stdout).hresult == outcome(other, stdout).hresult,
{
}

/// The line that announces the call says of each output whether it is null.
pub proof fn the_call_says_which_output_is_null(a: bool, b: bool)
    ensures
        null_or_valid(true) == "NULL"@,
        null_or_valid(false) == "valid"@,
        call_text(a, b) == "PROBE: calling GetThumbnail with phbmp="@ + (if a {
            "NULL"@
        } else {
            "valid"@
        }) + " pdwalpha="@ + (if b {
            "NULL"@
        } else {
            "valid"@
        }),
{
}

} // verus!
