use dragon_game::dragon::JumpState;

#[test]
fn two_jumps_then_refused() {
    let mut jumps = JumpState::new();
    assert_eq!(jumps.jumps_used(), 0);
    assert_eq!(jumps.jumps_left(), 2);
    assert!(jumps.jump());
    assert_eq!(jumps.jumps_left(), 1);
    assert!(jumps.jump());
    assert_eq!(jumps.jumps_used(), 2);
    assert_eq!(jumps.jumps_left(), 0);
    assert!(!jumps.jump());
    assert_eq!(jumps.jumps_used(), 2);
}

#[test]
fn landing_restores_jumps() {
    let mut jumps = JumpState::new();
    jumps.jump();
    jumps.jump();
    jumps.land();
    assert_eq!(jumps.jumps_used(), 0);
    assert!(jumps.jump());
    assert_eq!(jumps.jumps_used(), 1);
}
