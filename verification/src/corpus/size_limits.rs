//! Documents on either side of the documented size limit.
//!
//! The provider rejects inputs over 101 MiB. These are padded but valid
//! documents just under and just over that line, so that both the accepting and
//! the rejecting branch run.

use vstd::prelude::*;
use vstd::utf8::encode_utf8;
use crate::corpus::{add_bytes, no_cases, views, Case, CaseView, Expect};
use crate::text::text_bytes;

verus! {

/// The documented limit on the size of an input, in bytes.
pub const MAX_INPUT: usize = 101 * 1024 * 1024;

pub const PADDED_HEAD: &'static str = r##"<svg xmlns="http://www.w3.org/2000/svg" viewBox="0 0 64 64"><rect width="64" height="64" fill="#0a0"/><desc>"##;

pub const PADDED_TAIL: &'static str = "</desc></svg>";

/// The byte `x`.
pub const PADDING: u8 = 120;

/// Bytes that the frame of a padded document takes.
pub open spec fn frame_size() -> nat {
    encode_utf8(PADDED_HEAD@).len() + encode_utf8(PADDED_TAIL@).len()
}

/// A document padded to `total` bytes; just its frame when that is larger.
pub open spec fn padded(total: nat) -> Seq<u8> {
    let pad = if total >= frame_size() {
        (total - frame_size()) as nat
    } else {
        0
    };
    encode_utf8(PADDED_HEAD@) + Seq::new(pad, |i: int| PADDING) + encode_utf8(PADDED_TAIL@)
}

/// `n` copies of one byte.
pub fn filled(byte: u8, n: usize) -> (v: Vec<u8>)
    ensures
        v@ == Seq::new(n as nat, |i: int| byte),
{
    let v: Vec<u8> = vec![byte;n];
    assert(v@ =~= Seq::new(n as nat, |i: int| byte));
    v
}

pub fn padded_document(total: usize) -> (v: Vec<u8>)
    ensures
        v@ == padded(total as nat),
{
    let mut v: Vec<u8> = text_bytes(PADDED_HEAD);
    let mut tail: Vec<u8> = text_bytes(PADDED_TAIL);
    proof {
        lemma_frame_size();
    }
    let frame: usize = v.len() + tail.len();
    let pad: usize = total.saturating_sub(frame);
    let mut filler: Vec<u8> = filled(PADDING, pad);
    v.append(&mut filler);
    v.append(&mut tail);
    assert(v@ =~= padded(total as nat));
    v
}

/// A text has at most four bytes per character.
pub broadcast proof fn lemma_utf8_at_most_four(s: Seq<char>)
    ensures
        (#[trigger] encode_utf8(s)).len() <= 4 * s.len(),
    decreases s.len(),
{
    if s.len() > 0 {
        lemma_utf8_at_most_four(s.drop_first());
    }
}

proof fn lemma_frame_size()
    ensures
        frame_size() <= 1024,
{
    reveal_strlit(
        r##"<svg xmlns="http://www.w3.org/2000/svg" viewBox="0 0 64 64"><rect width="64" height="64" fill="#0a0"/><desc>"##,
    );
    reveal_strlit("</desc></svg>");
    lemma_utf8_at_most_four(PADDED_HEAD@);
    lemma_utf8_at_most_four(PADDED_TAIL@);
}

pub open spec fn size_limit_list() -> Seq<CaseView> {
    seq![
        // Comfortably under the limit: must still be processed normally.
        CaseView {
            name: "size-8mib-under-cap"@,
            bytes: padded(8 * 1024 * 1024),
            expect: Expect::Survive,
        },
        // One byte on either side of the boundary.
        CaseView {
            name: "size-one-byte-under-cap"@,
            bytes: padded((MAX_INPUT - 1) as nat),
            expect: Expect::Survive,
        },
        CaseView {
            name: "size-one-byte-over-cap"@,
            bytes: padded((MAX_INPUT + 1) as nat),
            expect: Expect::RejectOrFallback,
        },
        CaseView {
            name: "size-well-over-cap"@,
            bytes: padded((MAX_INPUT + 32 * 1024 * 1024) as nat),
            expect: Expect::RejectOrFallback,
        },
    ]
}

pub fn size_limit_cases() -> (v: Vec<Case>)
    ensures
        views(v@) == size_limit_list(),
{
    let mut v: Vec<Case> = no_cases();
    add_bytes(
        &mut v,
        "size-8mib-under-cap",
        padded_document(8 * 1024 * 1024),
        Expect::Survive,
    );
    add_bytes(
        &mut v,
        "size-one-byte-under-cap",
        padded_document(MAX_INPUT - 1),
        Expect::Survive,
    );
    add_bytes(
        &mut v,
        "size-one-byte-over-cap",
        padded_document(MAX_INPUT + 1),
        Expect::RejectOrFallback,
    );
    add_bytes(
        &mut v,
        "size-well-over-cap",
        padded_document(MAX_INPUT + 32 * 1024 * 1024),
        Expect::RejectOrFallback,
    );
    v
}

/// A padded document has exactly the size asked for, once its frame fits.
pub proof fn padded_has_requested_size(total: nat)
    requires
        total >= frame_size(),
    ensures
        padded(total).len() == total,
{
}

/// The sizes of the heavy cases.
pub proof fn padded_sizes()
    ensures
        size_limit_list()[0].bytes.len() == 8 * 1024 * 1024,
        size_limit_list()[1].bytes.len() == MAX_INPUT - 1,
        size_limit_list()[2].bytes.len() == MAX_INPUT + 1,
        size_limit_list()[3].bytes.len() == MAX_INPUT + 32 * 1024 * 1024,
{
    lemma_frame_size();
    padded_has_requested_size(8 * 1024 * 1024);
    padded_has_requested_size((MAX_INPUT - 1) as nat);
    padded_has_requested_size((MAX_INPUT + 1) as nat);
    padded_has_requested_size((MAX_INPUT + 32 * 1024 * 1024) as nat);
}

/// A heavy case must be rejected exactly when it is larger than the limit.
pub proof fn rejected_exactly_over_the_limit(i: int)
    requires
        0 <= i < size_limit_list().len(),
    ensures
        size_limit_list()[i].expect == Expect::RejectOrFallback <==> size_limit_list()[i].bytes.len()
            > MAX_INPUT,
        size_limit_list()[i].expect == Expect::Survive <==> size_limit_list()[i].bytes.len()
            <= MAX_INPUT,
{
    padded_sizes();
}

/// A padded document begins with its head, ends with its tail, and has nothing but
/// padding between, which is text: the document stays well-formed whatever its size.
pub proof fn padding_stands_between_head_and_tail(total: nat, i: int)
    requires
        total >= frame_size(),
    ensures
        padded(total).take(encode_utf8(PADDED_HEAD@).len() as int) == encode_utf8(PADDED_HEAD@),
        padded(total).skip(total - encode_utf8(PADDED_TAIL@).len()) == encode_utf8(PADDED_TAIL@),
        encode_utf8(PADDED_HEAD@).len() <= i < total - encode_utf8(PADDED_TAIL@).len() ==> padded(
            total,
        )[i] == 120,
        MAX_INPUT == 105_906_176,
{
    let head = encode_utf8(PADDED_HEAD@);
    let tail = encode_utf8(PADDED_TAIL@);
    assert(padded(total).take(head.len() as int) =~= head);
    assert(padded(total).skip(total - tail.len()) =~= tail);
}

} // verus!
