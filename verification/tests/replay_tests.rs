use wg::replay::ReplayWindow;
use wg::{REJECT_AFTER_MESSAGES, REPLAY_WINDOW_SIZE};

#[test]
fn window_accepts_each_counter_once_in_any_order() {
    let mut w = ReplayWindow::new();
    // 37 is odd, so i -> i * 37 mod 2048 is a permutation of 0..2048.
    for i in 0..REPLAY_WINDOW_SIZE {
        let c = (i * 37) % REPLAY_WINDOW_SIZE;
        assert!(w.check_and_update(c), "counter {} should be fresh", c);
    }
    for c in 0..REPLAY_WINDOW_SIZE {
        assert!(!w.check_and_update(c), "counter {} should be a replay", c);
    }
    assert_eq!(w.highest(), REPLAY_WINDOW_SIZE - 1);
}

#[test]
fn below_floor_always_rejected() {
    let mut w = ReplayWindow::new();
    assert!(w.check_and_update(5000));
    // floor is 5000 - 2048 + 1; anything below it is rejected unseen.
    assert!(!w.check_and_update(5000 - REPLAY_WINDOW_SIZE));
    assert!(!w.check_and_update(0));
    // still inside the window: accepted.
    assert!(w.check_and_update(5000 - REPLAY_WINDOW_SIZE + 1));
}

#[test]
fn counter_ceiling_rejected() {
    let mut w = ReplayWindow::new();
    assert!(!w.check_and_update(REJECT_AFTER_MESSAGES));
    assert!(!w.check_and_update(u64::MAX));
    assert!(w.check_and_update(REJECT_AFTER_MESSAGES - 1));
}

#[test]
fn duplicate_rejected_immediately() {
    let mut w = ReplayWindow::new();
    assert!(w.check_and_update(42));
    assert!(!w.check_and_update(42));
    assert!(w.check_and_update(41));
    assert!(w.check_and_update(43));
    assert!(!w.check_and_update(41));
}
