use gauntlet::rng::{arbitrary_seed, Rng};

fn reference(state: &mut u64) -> u64 {
    let mut x = *state;
    x ^= x >> 12;
    x ^= x << 25;
    x ^= x >> 27;
    *state = x;
    x.wrapping_mul(0x2545_F491_4F6C_DD1D)
}

#[test]
fn the_generator_is_xorshift64_star() {
    let mut state: u64 = 42;
    let mut rng = Rng::new(42);
    for _ in 0..1000 {
        assert_eq!(rng.next_u64(), reference(&mut state));
    }
}

#[test]
fn a_zero_seed_is_replaced() {
    let mut zero = Rng::new(0);
    let mut known = Rng::new(0x9E37_79B9_7F4A_7C15);
    for _ in 0..10 {
        assert_eq!(zero.next_u64(), known.next_u64());
    }
}

#[test]
fn equal_seeds_replay_and_different_seeds_differ() {
    let mut a = Rng::new(7);
    let mut b = Rng::new(7);
    let mut c = Rng::new(8);
    let from_a: Vec<u64> = (0..20).map(|_| a.next_u64()).collect();
    let from_b: Vec<u64> = (0..20).map(|_| b.next_u64()).collect();
    let from_c: Vec<u64> = (0..20).map(|_| c.next_u64()).collect();
    assert_eq!(from_a, from_b);
    assert_ne!(from_a, from_c);
}

#[test]
fn below_takes_the_remainder() {
    let mut state: u64 = 99;
    let mut rng = Rng::new(99);
    for n in 1..200usize {
        assert_eq!(rng.below(n), (reference(&mut state) % n as u64) as usize);
    }
}

#[test]
fn below_zero_draws_nothing() {
    let mut rng = Rng::new(5);
    assert_eq!(rng.below(0), 0);
    assert_eq!(rng.next_u64(), Rng::new(5).next_u64());
}

#[test]
fn a_range_includes_both_ends() {
    let mut rng = Rng::new(1);
    let mut seen = [false; 4];
    for _ in 0..200 {
        let v = rng.range(3, 6);
        assert!((3..=6).contains(&v));
        seen[(v - 3) as usize] = true;
    }
    assert_eq!(seen, [true; 4]);
}

#[test]
fn the_whole_range_can_be_drawn_from() {
    let mut state: u64 = 17;
    let mut rng = Rng::new(17);
    for _ in 0..100 {
        assert_eq!(rng.range(0, u32::MAX), reference(&mut state) as u32);
    }
    let mut high = false;
    for _ in 0..100 {
        let v = rng.range(1, u32::MAX);
        assert!(v >= 1);
        high |= v > u32::MAX / 2;
    }
    assert!(high);
}

#[test]
fn seeds_draw_apart_and_never_zero() {
    let mut rngs: Vec<Rng> = (1..50u64).map(Rng::new).collect();
    for _ in 0..50 {
        let mut drawn: Vec<u64> = rngs.iter_mut().map(|r| r.next_u64()).collect();
        assert!(!drawn.contains(&0));
        drawn.sort();
        drawn.dedup();
        assert_eq!(drawn.len(), 49);
    }
}

#[test]
fn an_empty_range_gives_its_lower_end() {
    let mut rng = Rng::new(1);
    assert_eq!(rng.range(9, 9), 9);
    assert_eq!(rng.range(9, 3), 9);
    assert_eq!(rng.next_u64(), Rng::new(1).next_u64());
}

#[test]
fn pick_goes_by_below() {
    let items = [10, 20, 30, 40, 50];
    let mut a = Rng::new(77);
    let mut b = Rng::new(77);
    for _ in 0..50 {
        assert_eq!(*a.pick(&items), items[b.below(5)]);
    }
}

#[test]
fn chance_is_a_percentage() {
    let mut rng = Rng::new(3);
    for _ in 0..50 {
        assert!(!rng.chance(0));
        assert!(rng.chance(100));
    }
    let mut a = Rng::new(4);
    let mut b = Rng::new(4);
    for _ in 0..50 {
        assert_eq!(a.chance(20), b.below(100) < 20);
    }
}

#[test]
fn a_fresh_seed_mixes_clock_and_process() {
    let nanos: u128 = 1_700_000_000_123_456_789;
    let pid: u32 = 4321;
    let mixed = (pid as u64).wrapping_mul(0x9E37_79B9_7F4A_7C15);
    assert_eq!(arbitrary_seed(Some(nanos), pid), nanos as u64 ^ mixed);
    assert_eq!(arbitrary_seed(None, pid), 0x1234_5678 ^ mixed);
    let wide: u128 = (1u128 << 64) + 5;
    assert_eq!(arbitrary_seed(Some(wide), 0), 5);
}

#[test]
fn different_states_stay_different() {
    let mut firsts: Vec<u64> = (1..500u64).map(|s| Rng::new(s).next_u64()).collect();
    firsts.sort();
    firsts.dedup();
    assert_eq!(firsts.len(), 499);
}
