use gauntlet::hresult::{succeeded, E_FAIL, E_POINTER, S_FALSE, S_OK};
use gauntlet::streams::{
    HostileStream, ReadMode, StatMode, OVER_CAP_SIZE, SEEK_CUR, SEEK_END, SEEK_SET,
};

fn data() -> Vec<u8> {
    (0..100u8).collect()
}

fn stream(read: ReadMode) -> HostileStream {
    HostileStream::new(data(), StatMode::Truthful, read)
}

/// Reads until nothing comes any more.
fn drain(s: &mut HostileStream, cb: u32) -> Vec<u8> {
    let mut all = Vec::new();
    loop {
        let r = s.read(cb, false, false);
        if r.bytes.is_empty() || !succeeded(r.status) {
            return all;
        }
        all.extend(r.bytes);
    }
}

#[test]
fn whatever_the_chunking_the_data_arrives_in_order() {
    for mode in [ReadMode::Truthful, ReadMode::OneByte, ReadMode::Short(7), ReadMode::SFalse, ReadMode::NeverSetCount] {
        for cb in [1u32, 3, 64, 1000] {
            assert_eq!(drain(&mut stream(mode), cb), data(), "{mode:?} {cb}");
        }
    }
}

#[test]
fn a_truthful_read_fills_the_request() {
    let mut s = stream(ReadMode::Truthful);
    let r = s.read(40, false, false);
    assert_eq!((r.status, r.reported, r.bytes), (S_OK, Some(40), data()[..40].to_vec()));
    let r = s.read(100, false, false);
    assert_eq!((r.status, r.reported, r.bytes), (S_OK, Some(60), data()[40..].to_vec()));
    let r = s.read(100, false, false);
    assert_eq!((r.status, r.reported, r.bytes), (S_OK, Some(0), vec![]));
}

#[test]
fn one_byte_at_a_time() {
    let mut s = stream(ReadMode::OneByte);
    let r = s.read(40, false, false);
    assert_eq!((r.status, r.reported, r.bytes), (S_OK, Some(1), vec![0]));
    let r = s.read(0, false, false);
    assert_eq!((r.status, r.reported, r.bytes), (S_OK, Some(0), vec![]));
}

#[test]
fn short_reads_are_capped() {
    let mut s = stream(ReadMode::Short(3));
    assert_eq!(s.read(40, false, false).bytes, vec![0, 1, 2]);
    assert_eq!(s.read(2, false, false).bytes, vec![3, 4]);
}

#[test]
fn failing_after_some_bytes() {
    let mut s = stream(ReadMode::FailAfter(50));
    assert_eq!(s.read(40, false, false).bytes.len(), 40);
    assert_eq!(s.read(40, false, false).bytes.len(), 10);
    let r = s.read(40, false, false);
    assert_eq!((r.status, r.reported, r.bytes), (E_FAIL, None, vec![]));
    let r = stream(ReadMode::FailAfter(0)).read(1, false, false);
    assert_eq!((r.status, r.reported), (E_FAIL, None));
}

#[test]
fn a_run_of_reads_hands_out_a_prefix() {
    let requests = [7u32, 0, 30, 1, 500, 2];
    for mode in [ReadMode::Truthful, ReadMode::OneByte, ReadMode::Short(9), ReadMode::FailAfter(50)] {
        let mut s = stream(mode);
        let mut all = Vec::new();
        for cb in requests {
            all.extend(s.read(cb, false, false).bytes);
            assert_eq!(all, data()[..all.len()]);
        }
    }
    let mut s = stream(ReadMode::FailAfter(50));
    let mut all = Vec::new();
    while all.len() < 50 {
        let r = s.read(8, false, false);
        assert_eq!(r.status, S_OK);
        all.extend(r.bytes);
    }
    assert_eq!(all, data()[..50]);
    assert_eq!(s.read(8, false, false).status, E_FAIL);
}

#[test]
fn zero_bytes_forever() {
    let mut s = stream(ReadMode::ZeroForever);
    for _ in 0..5 {
        let r = s.read(10, false, false);
        assert_eq!((r.status, r.reported, r.bytes), (S_OK, Some(0), vec![]));
    }
}

#[test]
fn over_reporting_claims_too_much_and_writes_no_more() {
    for cb in [0u32, 1, 100, 65536, 0x3FFF_FFFF, 0x8000_0000] {
        let r = stream(ReadMode::OverReport).read(cb, false, false);
        assert_eq!(r.reported, Some(cb.saturating_mul(4).max(cb + 4096)));
        assert!(r.bytes.len() <= cb as usize);
        assert_eq!(r.status, S_OK);
    }
    assert!(!stream(ReadMode::OverReport).has_room(u32::MAX, false));
    assert!(stream(ReadMode::Truthful).has_room(u32::MAX, false));
    // Without a count to write back there is nothing to overflow.
    assert!(stream(ReadMode::OverReport).has_room(u32::MAX, true));
    let r = stream(ReadMode::OverReport).read(u32::MAX, false, true);
    assert_eq!((r.status, r.reported, r.bytes), (S_OK, None, data()));
}

#[test]
fn the_count_may_never_be_set() {
    let r = stream(ReadMode::NeverSetCount).read(10, false, false);
    assert_eq!((r.status, r.reported, r.bytes.len()), (S_OK, None, 10));
}

#[test]
fn a_partial_read_may_be_flagged() {
    let mut s = stream(ReadMode::SFalse);
    assert_eq!(s.read(90, false, false).status, S_OK);
    let r = s.read(90, false, false);
    assert_eq!((r.status, r.reported), (S_FALSE, Some(10)));
}

#[test]
fn a_missing_buffer_is_refused() {
    let mut s = stream(ReadMode::Truthful);
    let r = s.read(10, true, false);
    assert_eq!((r.status, r.reported, r.bytes), (E_FAIL, None, vec![]));
    assert_eq!(s.read(0, true, false).status, S_OK);
    let r = s.read(10, false, true);
    assert_eq!((r.status, r.reported, r.bytes.len()), (S_OK, None, 10));
}

#[test]
fn what_the_size_is_said_to_be() {
    let size = |mode| HostileStream::new(data(), mode, ReadMode::Truthful).stat(false);
    assert_eq!(size(StatMode::Truthful), Ok(100));
    assert_eq!(size(StatMode::Fail), Err(E_FAIL));
    assert_eq!(size(StatMode::Huge), Ok(u64::MAX));
    assert_eq!(size(StatMode::Zero), Ok(0));
    assert_eq!(size(StatMode::OverCap), Ok(200 * 1024 * 1024));
    assert_eq!(size(StatMode::UnderReport), Ok(1));
    assert_eq!(OVER_CAP_SIZE, 200 * 1024 * 1024);
    let empty = HostileStream::new(vec![], StatMode::UnderReport, ReadMode::Truthful);
    assert_eq!(empty.stat(false), Ok(0));
    assert_eq!(stream(ReadMode::Truthful).stat(true), Err(E_POINTER));
    let failing = HostileStream::new(data(), StatMode::Fail, ReadMode::Truthful);
    assert_eq!(failing.stat(true), Err(E_FAIL));
}

#[test]
fn seeking_stays_within_the_data() {
    let mut s = stream(ReadMode::Truthful);
    assert_eq!(s.seek(10, SEEK_SET), Ok(10));
    assert_eq!(s.seek(5, SEEK_CUR), Ok(15));
    assert_eq!(s.read(1, false, false).bytes, vec![15]);
    assert_eq!(s.seek(-4, SEEK_END), Ok(96));
    assert_eq!(s.seek(1000, SEEK_CUR), Ok(100));
    assert_eq!(s.seek(-1000, SEEK_CUR), Ok(0));
    assert_eq!(s.seek(i64::MIN, SEEK_END), Ok(0));
    assert_eq!(s.seek(i64::MAX, SEEK_END), Ok(100));
    assert_eq!(s.seek(0, 3), Err(E_FAIL));
}

#[test]
fn rewinding_does_not_undo_a_failure() {
    let mut s = stream(ReadMode::FailAfter(10));
    assert_eq!(s.read(10, false, false).bytes.len(), 10);
    assert_eq!(s.seek(0, SEEK_SET), Ok(0));
    assert_eq!(s.read(10, false, false).status, E_FAIL);
}

#[test]
fn success_codes_have_no_top_bit() {
    for hr in [S_OK, S_FALSE, 0x7FFF_FFFF] {
        assert!(succeeded(hr));
    }
    for hr in [E_FAIL, E_POINTER, 0x8000_0000, u32::MAX] {
        assert!(!succeeded(hr));
    }
}

#[test]
fn honest_streams_hand_out_everything() {
    for mode in [ReadMode::Truthful, ReadMode::OneByte, ReadMode::Short(9), ReadMode::SFalse] {
        for cb in [1u32, 4, 33, 5000] {
            let mut s = stream(mode);
            let mut all = Vec::new();
            loop {
                let r = s.read(cb, false, false);
                let count = r.bytes.len() as u32;
                assert_eq!(r.reported, Some(count));
                let partial = mode == ReadMode::SFalse && count < cb;
                assert_eq!(r.status, if partial { S_FALSE } else { S_OK });
                all.extend(r.bytes);
                if count == 0 {
                    break;
                }
            }
            assert_eq!(all, data());
        }
    }
}
