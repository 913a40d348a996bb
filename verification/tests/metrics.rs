use gauntlet::metrics::{
    count_modules, count_threads, memory_cap, mib1_signed_text, mib1_text, mib2_signed_text,
    mib2_text, Delta, Snapshot,
};

const MIB: f64 = 1048576.0;

fn awkward() -> Vec<u64> {
    let mut v = vec![0u64, 1, 52428, 52429, 104857, 104858, 524288, 1048575, 1048576, 1572864];
    // Halfway between two decimals, where the last digit goes to the even one.
    for k in 0..200u64 {
        v.push(k * 131072);
        v.push(k * 26214 + 13107);
    }
    let mut x: u64 = 12345;
    for _ in 0..500 {
        x = x.wrapping_mul(6364136223846793005).wrapping_add(1442695040888963407);
        v.push(x >> 20);
        v.push(x >> 34);
    }
    v
}

#[test]
fn mebibytes_are_written_as_floats_would_be() {
    for b in awkward() {
        assert_eq!(mib1_text(b), format!("{:.1}", b as f64 / MIB), "{b}");
        assert_eq!(mib2_text(b), format!("{:.2}", b as f64 / MIB), "{b}");
        for i in [b as i64, -(b as i64)] {
            assert_eq!(mib1_signed_text(i), format!("{:+.1}", i as f64 / MIB), "{i}");
            assert_eq!(mib2_signed_text(i), format!("{:+.2}", i as f64 / MIB), "{i}");
        }
    }
}

#[test]
fn mebibytes_past_the_exact_floats_are_rounded_as_floats_are() {
    for b in [u64::MAX, u64::MAX - 1024, (1 << 53) + 1, (1 << 54) + 3, (1 << 60) + 12345] {
        assert_eq!(mib1_text(b), format!("{:.1}", b as f64 / MIB), "{b}");
        assert_eq!(mib2_text(b), format!("{:.2}", b as f64 / MIB), "{b}");
    }
}

fn snapshot(base: u64) -> Snapshot {
    Snapshot {
        private_bytes: base * 1_000_003,
        working_set: base * 777_777,
        handles: base as u32 + 1,
        gdi_objects: base as u32 + 2,
        user_objects: base as u32 + 3,
        threads: base as u32 + 4,
        modules: base as u32 + 5,
    }
}

#[test]
fn a_delta_is_the_signed_difference() {
    let a = snapshot(10);
    let b = snapshot(25);
    let d = b.delta(&a);
    assert_eq!(d.private_bytes, 15 * 1_000_003);
    assert_eq!(d.working_set, 15 * 777_777);
    assert_eq!((d.handles, d.gdi_objects, d.user_objects, d.threads, d.modules), (15, 15, 15, 15, 15));
    let e = a.delta(&b);
    assert_eq!(e.private_bytes, -15 * 1_000_003);
    assert_eq!(e.handles, -15);
}

#[test]
fn a_snapshot_describes_itself() {
    let s = snapshot(1234);
    assert_eq!(
        s.describe(),
        format!(
            "private={:.1}MiB ws={:.1}MiB handles={} gdi={} user={} threads={} modules={}",
            s.private_bytes as f64 / MIB,
            s.working_set as f64 / MIB,
            s.handles,
            s.gdi_objects,
            s.user_objects,
            s.threads,
            s.modules
        )
    );
}

#[test]
fn a_delta_describes_itself() {
    let d = Delta {
        private_bytes: -5_000_000,
        working_set: 0,
        handles: 0,
        gdi_objects: -3,
        user_objects: 4,
        threads: 5,
        modules: -6,
    };
    assert_eq!(
        d.describe(),
        format!(
            "private={:+.2}MiB ws={:+.2}MiB handles={:+} gdi={:+} user={:+} threads={:+} modules={:+}",
            d.private_bytes as f64 / MIB,
            d.working_set as f64 / MIB,
            d.handles,
            d.gdi_objects,
            d.user_objects,
            d.threads,
            d.modules
        )
    );
}

#[test]
fn only_own_threads_count() {
    assert_eq!(count_threads(&vec![], 7), 0);
    assert_eq!(count_threads(&vec![7, 8, 7, 9, 7], 7), 3);
    assert_eq!(count_threads(&vec![8, 9], 7), 0);
}

#[test]
fn modules_are_counted_by_handle_size() {
    assert_eq!(count_modules(8 * 37, 8), 37);
    assert_eq!(count_modules(4 * 37 + 3, 4), 37);
    assert_eq!(count_modules(0, 8), 0);
}

#[test]
fn a_memory_cap_is_in_bytes() {
    assert_eq!(memory_cap(2048), Some(2048 * 1024 * 1024));
    assert_eq!(memory_cap(0), Some(0));
    assert_eq!(memory_cap(u64::MAX), None);
}
