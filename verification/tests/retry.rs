use tuun::retry::Retry;

fn tries(limit: u32, succeeds_at: u32) -> u32 {
    let mut retry = Retry::new(limit);
    let mut done = false;
    let mut tries = 0;
    while retry.again(done) {
        tries += 1;
        done = tries == succeeds_at;
    }
    tries
}

#[test]
fn what_fails_is_tried_as_often_as_allowed() {
    assert_eq!(tries(4, 99), 4);
    assert_eq!(tries(0, 1), 0);
    assert_eq!(tries(65535, 0), 65535);
}

#[test]
fn what_succeeds_is_not_tried_again() {
    assert_eq!(tries(4, 1), 1);
    assert_eq!(tries(4, 3), 3);
    assert_eq!(tries(4, 4), 4);
}

#[test]
fn nothing_is_used_up_by_what_is_done() {
    let mut retry = Retry::new(1);
    assert!(!retry.again(true));
    assert!(retry.again(false));
    assert!(!retry.again(false));
}
