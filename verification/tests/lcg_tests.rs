use dragon_game::lcg::{Lcg, GAME_SEED};

#[test]
fn game_seed_gives_known_draws() {
    let mut rng = Lcg::new(GAME_SEED);
    assert_eq!(rng.next_u32(), 3764621701);
    assert_eq!(rng.next_u32(), 331114011);
    assert_eq!(rng.next_u32(), 2098114678);
    assert_eq!(rng.next_u32(), 2245606087);
}

#[test]
fn zero_seed_steps_to_one() {
    let mut rng = Lcg::new(0);
    // state becomes 1, whose upper half is 0
    assert_eq!(rng.next_u32(), 0);
    // state becomes the multiplier plus one
    assert_eq!(rng.next_u32(), ((6364136223846793005u64 + 1) >> 32) as u32);
}

#[test]
fn largest_seed_wraps_around() {
    let mut rng = Lcg::new(u64::MAX);
    assert_eq!(rng.next_u32(), 2813201362);
}

#[test]
fn same_seed_same_sequence() {
    let mut a = Lcg::new(12345);
    let mut b = Lcg::new(12345);
    for _ in 0..100 {
        assert_eq!(a.next_u32(), b.next_u32());
    }
}
