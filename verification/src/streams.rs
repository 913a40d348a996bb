//! Deliberately hostile streams.
//!
//! A stream is the provider's entire input surface. Its read loop has a size
//! check up front, a running size cap, and a path for when the size is unknown,
//! and none of that is reachable from a well-behaved memory stream, which always
//! reports the truth and always fills the buffer.
//!
//! These streams break each of those assumptions individually. The contract
//! under test is not "produce a correct thumbnail" but "never crash, never hang,
//! never read out of bounds, and never commit unbounded memory, no matter what
//! the stream claims".

use vstd::prelude::*;
use crate::corpus::size_limits::MAX_INPUT;
use crate::hresult::{E_FAIL, E_POINTER, S_FALSE, S_OK};

verus! {

/// What the stream reports when the provider asks for its size.
#[derive(Clone, Copy, Debug, PartialEq, Eq, Structural)]
pub enum StatMode {
    /// Report the true length.
    Truthful,
    /// Fail the call, forcing the provider onto its "size unknown" path where
    /// the only protection left is the running cap inside the read loop.
    Fail,
    /// Claim u64::MAX bytes. A provider that allocated from this number would
    /// abort the process on a failed allocation.
    Huge,
    /// Claim zero while actually holding data.
    Zero,
    /// Claim more than the provider's documented 101 MiB ceiling so the fast
    /// reject fires without any data being transferred.
    OverCap,
    /// Claim far less than the stream really holds, so the fast reject passes
    /// and only the in-loop cap can stop an oversized file.
    UnderReport,
}

/// How the stream behaves once the provider starts reading.
#[derive(Clone, Copy, Debug, PartialEq, Eq, Structural)]
pub enum ReadMode {
    /// Fill every request completely.
    Truthful,
    /// Hand back a single byte per call - the pathological but legal case that
    /// proves the loop reassembles chunk boundaries correctly.
    OneByte,
    /// Never deliver more than `n` bytes per call.
    Short(u32),
    /// Deliver `n` bytes successfully, then fail. The provider ends up with a
    /// truncated document and must degrade rather than crash.
    FailAfter(usize),
    /// Immediately report success with zero bytes read, forever. A loop that
    /// only terminated on error would spin here.
    ZeroForever,
    /// Report having written MORE bytes than were requested. This is a protocol
    /// violation that a caller could turn into an out-of-bounds read if it
    /// trusted the count; the provider must not.
    OverReport,
    /// Succeed without ever updating the caller's byte count.
    NeverSetCount,
    /// Report a partial read by a success code of its own, which is legal and
    /// must be treated as success.
    SFalse,
}

/// Comfortably past the provider's 101 MiB limit.
pub const OVER_CAP_SIZE: u64 = 200 * 1024 * 1024;

pub const SEEK_SET: u32 = 0;

pub const SEEK_CUR: u32 = 1;

pub const SEEK_END: u32 = 2;

/// A stream whose size report and read behaviour are configurable.
pub struct HostileStream {
    data: Vec<u8>,
    pos: usize,
    delivered: usize,
    /// How often it was read from; the counter stays at its largest value.
    read_calls: u32,
    stat_mode: StatMode,
    read_mode: ReadMode,
    /// The size reported in `StatMode::UnderReport`.
    under_report_to: u64,
}

/// What a `HostileStream` stands for.
pub struct StreamView {
    pub data: Seq<u8>,
    pub pos: nat,
    pub delivered: nat,
    pub read_calls: nat,
    pub stat_mode: StatMode,
    pub read_mode: ReadMode,
    pub under_report_to: u64,
}

/// How one read was answered.
pub struct ReadReply {
    pub status: u32,
    /// The bytes written to the front of the caller's buffer.
    pub bytes: Vec<u8>,
    /// The count written back to the caller, if any was.
    pub reported: Option<u32>,
}

pub open spec fn least(a: nat, b: nat) -> nat {
    if a <= b {
        a
    } else {
        b
    }
}

impl StreamView {
    /// The position lies within the data, the deflated claim is at most one byte,
    /// and a stream that fails after some bytes has not delivered more than those.
    pub open spec fn wf(self) -> bool {
        &&& self.pos <= self.data.len()
        &&& self.under_report_to <= 1
        &&& self.read_mode matches ReadMode::FailAfter(limit) ==> self.delivered <= limit
    }

    /// The read fails without delivering anything.
    pub open spec fn exhausted(self) -> bool {
        self.read_mode matches ReadMode::FailAfter(limit) && self.delivered >= limit
    }

    /// How many bytes a request for `cb` bytes hands back.
    pub open spec fn allowed(self, cb: u32) -> nat {
        let wanted = least((self.data.len() - self.pos) as nat, cb as nat);
        match self.read_mode {
            ReadMode::OneByte => least(wanted, 1),
            ReadMode::Short(n) => least(wanted, n as nat),
            ReadMode::ZeroForever => 0,
            ReadMode::FailAfter(limit) => if self.delivered >= limit {
                0
            } else {
                least(wanted, (limit - self.delivered) as nat)
            },
            _ => wanted,
        }
    }

    /// What was delivered can still be counted after one more read of `cb` bytes, and
    /// so can what is written back, where anything is.
    pub open spec fn has_room(self, cb: u32, no_count: bool) -> bool {
        &&& self.delivered + self.allowed(cb) <= usize::MAX
        &&& self.read_mode == ReadMode::OverReport && !no_count ==> cb + 4096 <= u32::MAX
    }

    /// This stream after a request for `cb` bytes that was not refused outright.
    pub open spec fn after_read(self, cb: u32) -> StreamView {
        StreamView {
            pos: self.pos + self.allowed(cb),
            delivered: self.delivered + self.allowed(cb),
            read_calls: least(self.read_calls + 1, u32::MAX as nat),
            ..self
        }
    }

    /// The count that a read writes back.
    pub open spec fn claimed(self, cb: u32) -> nat {
        if self.read_mode == ReadMode::OverReport {
            let quadruple = least(cb as nat * 4, u32::MAX as nat);
            if quadruple >= cb + 4096 {
                quadruple
            } else {
                (cb + 4096) as nat
            }
        } else {
            self.allowed(cb)
        }
    }

    /// The status of a read that was not refused outright.
    pub open spec fn read_status(self, cb: u32) -> u32 {
        if self.exhausted() {
            E_FAIL
        } else if self.read_mode == ReadMode::SFalse && self.allowed(cb) < cb {
            S_FALSE
        } else {
            S_OK
        }
    }

    pub open spec fn reported_size(self) -> u64 {
        match self.stat_mode {
            StatMode::Truthful | StatMode::Fail => self.data.len() as u64,
            StatMode::Huge => u64::MAX,
            StatMode::Zero => 0,
            StatMode::OverCap => OVER_CAP_SIZE,
            StatMode::UnderReport => self.under_report_to,
        }
    }

    /// A stream over `data` that has not been read from.
    pub open spec fn over(data: Seq<u8>, stat_mode: StatMode, read_mode: ReadMode) -> StreamView {
        StreamView {
            data,
            pos: 0,
            delivered: 0,
            read_calls: 0,
            stat_mode,
            read_mode,
            under_report_to: if data.len() == 0 {
                0
            } else {
                1
            },
        }
    }

    /// The count that a read of `cb` bytes writes back, if it writes any.
    pub open spec fn count_written(self, cb: u32, no_count: bool) -> Option<u32> {
        if no_count || self.exhausted() || self.read_mode == ReadMode::NeverSetCount {
            None
        } else {
            Some(self.claimed(cb) as u32)
        }
    }

    /// What the stream answers when it is asked for its size.
    pub open spec fn stat_reply(self, no_stat: bool) -> Result<u64, u32> {
        if self.stat_mode == StatMode::Fail {
            Err(E_FAIL)
        } else if no_stat {
            Err(E_POINTER)
        } else {
            Ok(self.reported_size())
        }
    }

    /// Where a seek with this origin starts; nothing for an unknown origin.
    pub open spec fn seek_base(self, origin: u32) -> Option<nat> {
        if origin == SEEK_SET {
            Some(0)
        } else if origin == SEEK_CUR {
            Some(self.pos)
        } else if origin == SEEK_END {
            Some(self.data.len())
        } else {
            None
        }
    }

    /// Where a seek by `by` from `base` ends: never outside the data.
    pub open spec fn seek_target(self, base: nat, by: i64) -> nat {
        let target = base + by;
        if target < 0 {
            0
        } else if target > self.data.len() {
            self.data.len()
        } else {
            target as nat
        }
    }
}

impl View for HostileStream {
    type V = StreamView;

    closed spec fn view(&self) -> StreamView {
        StreamView {
            data: self.data@,
            pos: self.pos as nat,
            delivered: self.delivered as nat,
            read_calls: self.read_calls as nat,
            stat_mode: self.stat_mode,
            read_mode: self.read_mode,
            under_report_to: self.under_report_to,
        }
    }
}

fn smaller(a: usize, b: usize) -> (r: usize)
    ensures
        r == least(a as nat, b as nat),
{
    if a <= b {
        a
    } else {
        b
    }
}

impl HostileStream {
    pub fn new(data: Vec<u8>, stat_mode: StatMode, read_mode: ReadMode) -> (s: HostileStream)
        ensures
            s@ == StreamView::over(data@, stat_mode, read_mode),
            s@.wf(),
    {
        let under_report_to: u64 = if data.len() == 0 {
            0
        } else {
            1
        };
        HostileStream {
            data,
            pos: 0,
            delivered: 0,
            read_calls: 0,
            stat_mode,
            read_mode,
            under_report_to,
        }
    }

    fn reported_size(&self, actual: u64) -> (size: u64)
        requires
            actual == self@.data.len() as u64,
        ensures
            size == self@.reported_size(),
    {
        match self.stat_mode {
            StatMode::Truthful | StatMode::Fail => actual,
            StatMode::Huge => u64::MAX,
            StatMode::Zero => 0,
            StatMode::OverCap => OVER_CAP_SIZE,
            StatMode::UnderReport => self.under_report_to,
        }
    }

    fn allowed(&self, cb: u32) -> (n: usize)
        requires
            self@.wf(),
        ensures
            n == self@.allowed(cb),
    {
        let remaining: usize = self.data.len() - self.pos;
        let wanted: usize = smaller(remaining, cb as usize);
        match self.read_mode {
            ReadMode::Truthful
            | ReadMode::SFalse
            | ReadMode::OverReport
            | ReadMode::NeverSetCount => wanted,
            ReadMode::OneByte => smaller(wanted, 1),
            ReadMode::Short(n) => smaller(wanted, n as usize),
            ReadMode::ZeroForever => 0,
            ReadMode::FailAfter(limit) => {
                if self.delivered >= limit {
                    0
                } else {
                    smaller(wanted, limit - self.delivered)
                }
            },
        }
    }

    /// Whether what was delivered can still be counted after one more read of `cb`
    /// bytes, and what is written back, where anything is.
    pub fn has_room(&self, cb: u32, no_count: bool) -> (r: bool)
        requires
            self@.wf(),
        ensures
            r == self@.has_room(cb, no_count),
    {
        self.allowed(cb) <= usize::MAX - self.delivered && (self.read_mode != ReadMode::OverReport
            || no_count || cb <= u32::MAX - 4096)
    }

    /// Answers a request for `cb` bytes. `no_buffer` and `no_count` say that the
    /// caller passed null for its buffer and for its count.
    pub fn read(&mut self, cb: u32, no_buffer: bool, no_count: bool) -> (r: ReadReply)
        requires
            old(self)@.wf(),
            (no_buffer && cb != 0) || old(self)@.has_room(cb, no_count),
        ensures
            final(self)@.wf(),
            // A null buffer for a request that is not empty is itself a protocol
            // error and changes nothing.
            no_buffer && cb != 0 ==> {
                &&& r.status == E_FAIL
                &&& r.bytes@.len() == 0
                &&& r.reported is None
                &&& final(self)@ == old(self)@
            },
            !(no_buffer && cb != 0) ==> {
                &&& final(self)@ == old(self)@.after_read(cb)
                &&& r.status == old(self)@.read_status(cb)
                &&& r.bytes@ == old(self)@.data.subrange(
                    old(self)@.pos as int,
                    final(self)@.pos as int,
                )
                &&& r.reported == old(self)@.count_written(cb, no_count)
            },
    {
        if no_buffer && cb != 0 {
            return ReadReply { status: E_FAIL, bytes: Vec::new(), reported: None };
        }
        let allowed: usize = self.allowed(cb);
        if self.read_calls < u32::MAX {
            self.read_calls += 1;
        }
        if let ReadMode::FailAfter(limit) = self.read_mode {
            if self.delivered >= limit {
                // The failure leaves the count alone, exactly as a failing
                // filesystem stream would.
                let r = ReadReply { status: E_FAIL, bytes: Vec::new(), reported: None };
                assert(r.bytes@ =~= self@.data.subrange(self@.pos as int, self@.pos as int));
                return r;
            }
        }
        let held: usize = self.data.len();
        assert(self.pos + allowed <= held);
        let bytes: Vec<u8> = vstd::slice::slice_to_vec(
            vstd::slice::slice_subrange(self.data.as_slice(), self.pos, self.pos + allowed),
        );
        self.pos += allowed;
        self.delivered += allowed;
        let reported: Option<u32> = if no_count {
            None
        } else {
            match self.read_mode {
                // The hostile case: claim to have filled far more of the
                // caller's buffer than was requested.
                ReadMode::OverReport => {
                    let quadruple: u32 = if cb <= u32::MAX / 4 {
                        cb * 4
                    } else {
                        u32::MAX
                    };
                    if quadruple >= cb + 4096 {
                        Some(quadruple)
                    } else {
                        Some(cb + 4096)
                    }
                },
                ReadMode::NeverSetCount => None,
                _ => Some(allowed as u32),
            }
        };
        let status: u32 = match self.read_mode {
            ReadMode::SFalse => {
                if allowed < cb as usize {
                    S_FALSE
                } else {
                    S_OK
                }
            },
            _ => S_OK,
        };
        ReadReply { status, bytes, reported }
    }

    /// Moves the position by `by` from `origin`, and returns it. An unknown origin
    /// fails and moves nothing.
    pub fn seek(&mut self, by: i64, origin: u32) -> (r: Result<u64, u32>)
        requires
            old(self)@.wf(),
        ensures
            final(self)@.wf(),
            match old(self)@.seek_base(origin) {
                Some(base) => {
                    &&& final(self)@ == (StreamView {
                        pos: old(self)@.seek_target(base, by),
                        ..old(self)@
                    })
                    &&& r == Ok::<u64, u32>(final(self)@.pos as u64)
                },
                None => r == Err::<u64, u32>(E_FAIL) && final(self)@ == old(self)@,
            },
    {
        let base: usize = if origin == SEEK_SET {
            0
        } else if origin == SEEK_CUR {
            self.pos
        } else if origin == SEEK_END {
            self.data.len()
        } else {
            return Err(E_FAIL);
        };
        let target: i128 = base as i128 + by as i128;
        if target < 0 {
            self.pos = 0;
        } else if target > self.data.len() as i128 {
            self.pos = self.data.len();
        } else {
            self.pos = target as usize;
        }
        Ok(self.pos as u64)
    }

    /// The size that the stream reports, or why it reports none. `no_stat` says
    /// that the caller passed null for the result.
    pub fn stat(&self, no_stat: bool) -> (r: Result<u64, u32>)
        ensures
            r == self@.stat_reply(no_stat),
    {
        if self.stat_mode == StatMode::Fail {
            return Err(E_FAIL);
        }
        if no_stat {
            return Err(E_POINTER);
        }
        Ok(self.reported_size(self.data.len() as u64))
    }
}

/// Consecutive reads hand out consecutive stretches of the data: whatever the
/// chunking, nothing is lost, repeated or reordered.
pub proof fn reads_are_consecutive(s: StreamView, first: u32, second: u32)
    requires
        s.wf(),
    ensures
        ({
            let one = s.after_read(first);
            let two = one.after_read(second);
            s.data.subrange(s.pos as int, one.pos as int) + s.data.subrange(
                one.pos as int,
                two.pos as int,
            ) == s.data.subrange(s.pos as int, two.pos as int)
        }),
        s.after_read(first).wf(),
        s.after_read(first).data == s.data,
{
    let one = s.after_read(first);
    let two = one.after_read(second);
    assert(s.data.subrange(s.pos as int, one.pos as int) + s.data.subrange(
        one.pos as int,
        two.pos as int,
    ) =~= s.data.subrange(s.pos as int, two.pos as int));
}

/// The stream after a run of requests, none of which was refused outright.
pub open spec fn after_reads(s: StreamView, requests: Seq<u32>) -> StreamView
    decreases requests.len(),
{
    if requests.len() == 0 {
        s
    } else {
        after_reads(s.after_read(requests[0]), requests.drop_first())
    }
}

/// What a run of requests hands out, one after another.
pub open spec fn handed_out(s: StreamView, requests: Seq<u32>) -> Seq<u8>
    decreases requests.len(),
{
    if requests.len() == 0 {
        Seq::empty()
    } else {
        let next = s.after_read(requests[0]);
        s.data.subrange(s.pos as int, next.pos as int) + handed_out(next, requests.drop_first())
    }
}

/// A run of reads of any length, with no seek between them, hands out one stretch
/// of the data: from a fresh stream, the data up to the position reached.
pub proof fn a_run_of_reads_is_one_stretch(s: StreamView, requests: Seq<u32>)
    requires
        s.wf(),
    ensures
        ({
            let end = after_reads(s, requests);
            &&& end.wf()
            &&& end.data == s.data && end.read_mode == s.read_mode
            &&& s.pos <= end.pos
            &&& end.delivered - s.delivered == end.pos - s.pos
            &&& handed_out(s, requests) == s.data.subrange(s.pos as int, end.pos as int)
            &&& s.pos == 0 ==> handed_out(s, requests) == s.data.take(end.pos as int)
        }),
    decreases requests.len(),
{
    let end = after_reads(s, requests);
    if requests.len() > 0 {
        let next = s.after_read(requests[0]);
        a_run_of_reads_is_one_stretch(next, requests.drop_first());
        assert(s.data.subrange(s.pos as int, next.pos as int) + s.data.subrange(
            next.pos as int,
            end.pos as int,
        ) =~= s.data.subrange(s.pos as int, end.pos as int));
    } else {
        assert(s.data.subrange(s.pos as int, s.pos as int) =~= Seq::empty());
    }
    if s.pos == 0 {
        assert(s.data.subrange(0, end.pos as int) =~= s.data.take(end.pos as int));
    }
}

/// A mode that delivers all the data and never fails.
pub open spec fn is_honest(mode: ReadMode) -> bool {
    match mode {
        ReadMode::Truthful | ReadMode::OneByte | ReadMode::SFalse => true,
        ReadMode::Short(n) => n > 0,
        _ => false,
    }
}

/// A stream that has not been read from.
pub open spec fn is_fresh(s: StreamView) -> bool {
    &&& s.wf()
    &&& s.pos == 0
    &&& s.delivered == 0
    &&& s.data.len() <= usize::MAX
}

/// Where a run of requests that all ask for something has come to, at least.
proof fn lemma_reads_come_far(s: StreamView, requests: Seq<u32>, goal: nat)
    requires
        s.wf(),
        goal <= s.data.len(),
        is_honest(s.read_mode) || (s.read_mode matches ReadMode::FailAfter(limit) && s.pos
            == s.delivered && goal <= limit),
        forall|i: int| 0 <= i < requests.len() ==> #[trigger] requests[i] > 0,
    ensures
        after_reads(s, requests).pos >= least(goal, s.pos + requests.len()),
    decreases requests.len(),
{
    if requests.len() > 0 {
        let next = s.after_read(requests[0]);
        let rest = requests.drop_first();
        assert forall|i: int| 0 <= i < rest.len() implies #[trigger] rest[i] > 0 by {
            assert(rest[i] == requests[i + 1]);
        }
        lemma_reads_come_far(next, rest, goal);
        assert(s.pos < goal ==> next.pos > s.pos);
    }
}

/// What the modes with nothing to hide promise, from a fresh stream on, with no seek
/// and no empty request: no read fails, and none overflows a counter; each gives at
/// most what was asked for and what the mode admits, says how much that was, and
/// says in the one mode that does so that it was less; nothing is given exactly when
/// all the data has been handed out, in order and once; and that is so after as many
/// reads as there are bytes at the latest.
pub proof fn an_honest_stream_hands_out_everything(s: StreamView, requests: Seq<u32>)
    requires
        is_fresh(s),
        is_honest(s.read_mode),
        forall|i: int| 0 <= i < requests.len() ==> #[trigger] requests[i] > 0,
    ensures
        forall|k: int|
            0 <= k < requests.len() ==> {
                let at = after_reads(s, #[trigger] requests.take(k));
                let cb = requests[k];
                &&& at.has_room(cb, false)
                &&& !at.exhausted()
                &&& at.read_status(cb) == (if s.read_mode == ReadMode::SFalse && at.claimed(cb)
                    < cb {
                    S_FALSE
                } else {
                    S_OK
                })
                &&& at.claimed(cb) == at.allowed(cb) <= cb
                &&& s.read_mode == ReadMode::OneByte ==> at.allowed(cb) <= 1
                &&& s.read_mode matches ReadMode::Short(n) ==> at.allowed(cb) <= n
                &&& at.allowed(cb) == 0 <==> handed_out(s, requests.take(k)) == s.data
            },
        handed_out(s, requests) == s.data.take(handed_out(s, requests).len() as int),
        requests.len() >= s.data.len() ==> handed_out(s, requests) == s.data,
{
    assert forall|k: int| 0 <= k < requests.len() implies {
        let at = after_reads(s, #[trigger] requests.take(k));
        let cb = requests[k];
        &&& at.has_room(cb, false)
        &&& !at.exhausted()
        &&& at.read_status(cb) == (if s.read_mode == ReadMode::SFalse && at.claimed(cb) < cb {
            S_FALSE
        } else {
            S_OK
        })
        &&& at.claimed(cb) == at.allowed(cb) <= cb
        &&& s.read_mode == ReadMode::OneByte ==> at.allowed(cb) <= 1
        &&& s.read_mode matches ReadMode::Short(n) ==> at.allowed(cb) <= n
        &&& at.allowed(cb) == 0 <==> handed_out(s, requests.take(k)) == s.data
    } by {
        let before = requests.take(k);
        let at = after_reads(s, before);
        a_run_of_reads_is_one_stretch(s, before);
        assert(handed_out(s, before).len() == at.pos);
        assert(requests[k] > 0);
        if at.pos == s.data.len() {
            assert(s.data.take(at.pos as int) =~= s.data);
        }
    }
    a_run_of_reads_is_one_stretch(s, requests);
    let end = after_reads(s, requests);
    assert(handed_out(s, requests).len() == end.pos);
    lemma_reads_come_far(s, requests, s.data.len());
    assert(s.data.take(s.data.len() as int) =~= s.data);
}

/// What a stream promises that fails after `limit` bytes, where it holds as many:
/// from a fresh stream on, with no seek and no empty request, a read succeeds, with
/// something in it, exactly as long as fewer than `limit` bytes have been handed out;
/// once it fails it hands out nothing and writes no count; and what the reads hand
/// out are the first `limit` bytes, all of them after as many reads at the latest.
pub proof fn a_failing_stream_delivers_its_limit(s: StreamView, limit: usize, requests: Seq<u32>)
    requires
        is_fresh(s),
        s.read_mode == ReadMode::FailAfter(limit),
        limit <= s.data.len(),
        forall|i: int| 0 <= i < requests.len() ==> #[trigger] requests[i] > 0,
    ensures
        forall|k: int|
            0 <= k < requests.len() ==> {
                let before = #[trigger] requests.take(k);
                let at = after_reads(s, before);
                let cb = requests[k];
                &&& at.has_room(cb, false)
                &&& handed_out(s, before).len() < limit ==> {
                    &&& at.read_status(cb) == S_OK
                    &&& !at.exhausted()
                    &&& 0 < at.claimed(cb) == at.allowed(cb) <= cb
                }
                &&& handed_out(s, before).len() >= limit ==> {
                    &&& at.read_status(cb) == E_FAIL
                    &&& at.exhausted()
                    &&& at.allowed(cb) == 0
                }
            },
        handed_out(s, requests).len() <= limit,
        handed_out(s, requests) == s.data.take(handed_out(s, requests).len() as int),
        requests.len() >= limit ==> handed_out(s, requests) == s.data.take(limit as int),
{
    assert forall|k: int| 0 <= k < requests.len() implies {
        let before = #[trigger] requests.take(k);
        let at = after_reads(s, before);
        let cb = requests[k];
        &&& at.has_room(cb, false)
        &&& handed_out(s, before).len() < limit ==> {
            &&& at.read_status(cb) == S_OK
            &&& !at.exhausted()
            &&& 0 < at.claimed(cb) == at.allowed(cb) <= cb
        }
        &&& handed_out(s, before).len() >= limit ==> {
            &&& at.read_status(cb) == E_FAIL
            &&& at.exhausted()
            &&& at.allowed(cb) == 0
        }
    } by {
        let before = requests.take(k);
        a_run_of_reads_is_one_stretch(s, before);
        assert(handed_out(s, before).len() == after_reads(s, before).pos);
        assert(requests[k] > 0);
    }
    a_run_of_reads_is_one_stretch(s, requests);
    assert(handed_out(s, requests).len() == after_reads(s, requests).pos);
    lemma_reads_come_far(s, requests, limit as nat);
}

/// No mode ever writes more than was asked for.
pub proof fn never_overfills(s: StreamView, cb: u32)
    requires
        s.wf(),
    ensures
        s.allowed(cb) <= cb,
        s.pos + s.allowed(cb) <= s.data.len(),
{
}

/// Only the over-reporting mode claims to have written more than it wrote, and
/// it always claims more than was asked for.
pub proof fn only_over_report_lies(s: StreamView, cb: u32)
    requires
        s.wf(),
        s.has_room(cb, false),
    ensures
        s.read_mode != ReadMode::OverReport ==> s.claimed(cb) == s.allowed(cb),
        s.read_mode == ReadMode::OverReport ==> cb + 4096 <= s.claimed(cb) <= u32::MAX,
{
}

/// What the claims are for: the inflated ones are past the documented limit, so
/// that the check up front must refuse the stream, and the deflated ones pass that
/// check however much the stream holds.
pub proof fn claims_decide_the_check_up_front(s: StreamView)
    requires
        s.wf(),
    ensures
        s.stat_mode == StatMode::OverCap || s.stat_mode == StatMode::Huge ==> s.reported_size()
            > MAX_INPUT,
        s.stat_mode == StatMode::Zero || s.stat_mode == StatMode::UnderReport ==> s.reported_size()
            <= 1,
{
}

/// A read makes progress whenever data is left and something was asked for,
/// except in the modes that are there to starve the reader.
pub proof fn honest_modes_make_progress(s: StreamView, cb: u32)
    requires
        s.wf(),
        s.pos < s.data.len(),
        cb > 0,
        s.read_mode != ReadMode::ZeroForever,
        s.read_mode != ReadMode::Short(0),
        !s.exhausted(),
    ensures
        s.after_read(cb).pos > s.pos,
{
}

// ---------------------------------------------------------------
//                       What a call may see
// ---------------------------------------------------------------

/// How much one read hands out: never more than is left nor than was asked for, and of
/// that as much as the mode admits, which is one byte, the given number, nothing, what is
/// left of the limit, or all of it.
pub proof fn what_one_read_hands_out(s: StreamView, cb: u32)
    requires
        s.wf(),
    ensures
        ({
            let left = s.data.len() - s.pos;
            let whole = if left < cb {
                left
            } else {
                cb as int
            };
            match s.read_mode {
                ReadMode::OneByte => s.allowed(cb) == (if whole == 0 {
                    0nat
                } else {
                    1nat
                }),
                ReadMode::Short(n) => s.allowed(cb) == (if whole < n {
                    whole
                } else {
                    n as int
                }),
                ReadMode::ZeroForever => s.allowed(cb) == 0,
                ReadMode::FailAfter(limit) => s.allowed(cb) == (if whole < limit - s.delivered {
                    whole
                } else {
                    limit - s.delivered
                }),
                ReadMode::Truthful
                | ReadMode::OverReport
                | ReadMode::NeverSetCount
                | ReadMode::SFalse => s.allowed(cb) == whole,
            }
        }),
        s.after_read(cb).pos == s.pos + s.allowed(cb),
        s.after_read(cb).delivered == s.delivered + s.allowed(cb),
        s.read_calls < 0xFFFF_FFFF ==> s.after_read(cb).read_calls == s.read_calls + 1,
        s.after_read(cb).data == s.data,
{
}

/// What one read answers: failure exactly where its limit is used up, the code for a
/// partial success exactly where the mode has it and less than asked for was handed out,
/// and success otherwise. No count is written where the caller wants none, where the read
/// fails or where the mode never does; otherwise it is the true one, but for the mode
/// that lies.
pub proof fn what_one_read_answers(s: StreamView, cb: u32, no_count: bool)
    requires
        s.wf(),
        s.has_room(cb, no_count),
    ensures
        s.read_status(cb) == 0x8000_4005u32 <==> s.read_mode is FailAfter && s.delivered
            >= s.read_mode->FailAfter_0,
        s.read_status(cb) == 1 <==> s.read_mode == ReadMode::SFalse && s.allowed(cb) < cb,
        s.read_status(cb) == 0 || s.read_status(cb) == 1 || s.read_status(cb) == 0x8000_4005u32,
        s.count_written(cb, no_count) is None <==> no_count || s.read_status(cb) == 0x8000_4005u32
            || s.read_mode == ReadMode::NeverSetCount,
        s.count_written(cb, no_count) is Some && s.read_mode != ReadMode::OverReport
            ==> s.count_written(cb, no_count)->0 == s.allowed(cb),
        s.count_written(cb, no_count) is Some && s.read_mode == ReadMode::OverReport
            ==> s.count_written(cb, no_count)->0 > cb,
{
}

/// What is answered about the size: nothing but failure where the mode fails, the code
/// for a null pointer where there is no place for it, and otherwise the claim: the truth,
/// the largest number, nothing, more than 101 MiB, or at most one byte.
pub proof fn what_is_said_of_the_size(data: Seq<u8>, stat_mode: StatMode, read_mode: ReadMode)
    requires
        data.len() <= u64::MAX,
    ensures
        ({
            let s = StreamView::over(data, stat_mode, read_mode);
            &&& s.wf()
            &&& s.pos == 0 && s.delivered == 0 && s.read_calls == 0 && s.data == data
            &&& s.stat_mode == stat_mode && s.read_mode == read_mode
            &&& s.stat_reply(false) is Err <==> stat_mode == StatMode::Fail
            &&& s.stat_reply(true) == Err::<u64, u32>(
                if stat_mode == StatMode::Fail {
                    0x8000_4005u32
                } else {
                    0x8000_4003u32
                },
            )
            &&& stat_mode == StatMode::Truthful ==> s.stat_reply(false) == Ok::<u64, u32>(
                data.len() as u64,
            )
            &&& stat_mode == StatMode::Huge ==> s.stat_reply(false) == Ok::<u64, u32>(u64::MAX)
            &&& stat_mode == StatMode::Zero ==> s.stat_reply(false) == Ok::<u64, u32>(0)
            &&& stat_mode == StatMode::OverCap ==> s.stat_reply(false) is Ok && s.stat_reply(
                false,
            )->Ok_0 > 105_906_176
            &&& stat_mode == StatMode::UnderReport ==> s.stat_reply(false) is Ok && s.stat_reply(
                false,
            )->Ok_0 <= 1 && s.stat_reply(false)->Ok_0 <= data.len()
            &&& stat_mode == StatMode::UnderReport && data.len() > 0 ==> s.stat_reply(false)->Ok_0
                == 1
        }),
{
}

/// A seek starts at the beginning, at the position or at the end, by its origin, and ends
/// where its distance leads, or at the nearer end of the data where that leads outside.
pub proof fn where_a_seek_leads(s: StreamView, by: i64, origin: u32)
    requires
        s.wf(),
    ensures
        s.seek_base(origin) is None <==> origin > 2,
        s.seek_base(0) == Some(0nat),
        s.seek_base(1) == Some(s.pos),
        s.seek_base(2) == Some(s.data.len()),
        s.seek_base(origin) matches Some(base) ==> {
            let to = s.seek_target(base, by);
            &&& to <= s.data.len()
            &&& 0 <= base + by <= s.data.len() ==> to == base + by
            &&& base + by < 0 ==> to == 0
            &&& base + by > s.data.len() ==> to == s.data.len()
        },
{
}

} // verus!
