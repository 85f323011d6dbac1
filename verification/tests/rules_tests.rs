use dragon_game::lcg::{Lcg, GAME_SEED};
use dragon_game::rules::{
    dragon_collides, obstacle_height_for_roll, obstacle_height_for_score, obstacle_top,
    register_pass, ObstacleCell, ROLL_25_PERCENT, ROLL_30_PERCENT, ROLL_45_PERCENT,
    ROLL_60_PERCENT, ROLL_70_PERCENT, ROLL_90_PERCENT, ROLL_95_PERCENT,
};

#[test]
fn early_heights_follow_thresholds() {
    for score in [0u32, 3, 5] {
        assert_eq!(obstacle_height_for_roll(score, 0), 1);
        assert_eq!(obstacle_height_for_roll(score, ROLL_45_PERCENT - 1), 1);
        assert_eq!(obstacle_height_for_roll(score, ROLL_45_PERCENT), 2);
        assert_eq!(obstacle_height_for_roll(score, ROLL_90_PERCENT - 1), 2);
        assert_eq!(obstacle_height_for_roll(score, ROLL_90_PERCENT), 3);
        assert_eq!(obstacle_height_for_roll(score, u32::MAX), 3);
    }
}

#[test]
fn middle_heights_follow_thresholds() {
    for score in [6u32, 10, 14] {
        assert_eq!(obstacle_height_for_roll(score, ROLL_30_PERCENT - 1), 1);
        assert_eq!(obstacle_height_for_roll(score, ROLL_30_PERCENT), 2);
        assert_eq!(obstacle_height_for_roll(score, ROLL_70_PERCENT - 1), 2);
        assert_eq!(obstacle_height_for_roll(score, ROLL_70_PERCENT), 3);
        assert_eq!(obstacle_height_for_roll(score, ROLL_95_PERCENT - 1), 3);
        assert_eq!(obstacle_height_for_roll(score, ROLL_95_PERCENT), 4);
    }
}

#[test]
fn late_heights_follow_thresholds() {
    for score in [15u32, 100, u32::MAX] {
        assert_eq!(obstacle_height_for_roll(score, ROLL_25_PERCENT - 1), 1);
        assert_eq!(obstacle_height_for_roll(score, ROLL_25_PERCENT), 2);
        assert_eq!(obstacle_height_for_roll(score, ROLL_60_PERCENT - 1), 2);
        assert_eq!(obstacle_height_for_roll(score, ROLL_60_PERCENT), 3);
        assert_eq!(obstacle_height_for_roll(score, ROLL_90_PERCENT - 1), 3);
        assert_eq!(obstacle_height_for_roll(score, ROLL_90_PERCENT), 4);
    }
}

#[test]
fn thresholds_match_single_precision_fractions() {
    // the draw read as a fraction of u32::MAX, as the game's float code reads it
    let frac = |r: u32| r as f32 / u32::MAX as f32;
    let cases: [(u32, f32); 7] = [
        (ROLL_45_PERCENT, 0.45),
        (ROLL_90_PERCENT, 0.9),
        (ROLL_30_PERCENT, 0.3),
        (ROLL_70_PERCENT, 0.7),
        (ROLL_95_PERCENT, 0.95),
        (ROLL_25_PERCENT, 0.25),
        (ROLL_60_PERCENT, 0.6),
    ];
    for (t, p) in cases {
        assert!(frac(t - 1) < p);
        assert!(!(frac(t) < p));
    }
}

#[test]
fn heights_stay_in_range_for_many_draws() {
    let mut rng = Lcg::new(GAME_SEED);
    for score in 0u32..40 {
        for _ in 0..50 {
            let h = obstacle_height_for_score(&mut rng, score);
            assert!((1..=4).contains(&h));
            if score <= 5 {
                assert!(h <= 3);
            }
        }
    }
}

#[test]
fn first_obstacle_of_a_game() {
    let mut rng = Lcg::new(GAME_SEED);
    // first draw is 3764621701: at least 45 and below 90 percent
    assert_eq!(obstacle_height_for_score(&mut rng, 0), 2);
    // the generator moved on: the second draw is 331114011
    let mut again = Lcg::new(GAME_SEED);
    again.next_u32();
    assert_eq!(rng.next_u32(), again.next_u32());
}

#[test]
fn obstacle_tops() {
    assert_eq!(obstacle_top(0), 15);
    assert_eq!(obstacle_top(1), 15);
    assert_eq!(obstacle_top(2), 14);
    assert_eq!(obstacle_top(4), 12);
    assert_eq!(obstacle_top(16), 0);
    assert_eq!(obstacle_top(17), 0);
    assert_eq!(obstacle_top(usize::MAX), 0);
}

#[test]
fn collision_needs_same_column_and_low_dragon() {
    let obstacles = vec![ObstacleCell { col: 8, height: 3 }];
    // top of a three-row obstacle is row 13
    assert!(dragon_collides(&obstacles, 15));
    assert!(dragon_collides(&obstacles, 13));
    assert!(!dragon_collides(&obstacles, 12));
    let elsewhere = vec![ObstacleCell { col: 7, height: 3 }, ObstacleCell { col: 9, height: 4 }];
    assert!(!dragon_collides(&elsewhere, 15));
    assert!(!dragon_collides(&Vec::new(), 15));
    let mixed = vec![ObstacleCell { col: 20, height: 1 }, ObstacleCell { col: 8, height: 1 }];
    assert!(dragon_collides(&mixed, 15));
    assert!(!dragon_collides(&mixed, 14));
}

#[test]
fn pass_is_counted_once() {
    assert_eq!(register_pass(false, false, 4), (false, 4));
    assert_eq!(register_pass(false, true, 4), (true, 5));
    let (passed, score) = register_pass(false, true, 4);
    assert_eq!(register_pass(passed, true, score), (true, 5));
    assert_eq!(register_pass(passed, false, score), (true, 5));
    assert_eq!(register_pass(true, true, u32::MAX), (true, u32::MAX));
}
