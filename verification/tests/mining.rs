use terarria::mining::MineClock;

#[test]
fn first_press_mines_at_once() {
    let mut c = MineClock::primed(100);
    assert_eq!(c, MineClock { elapsed_ns: 100, interval_ns: 100 });
    assert!(c.step(true, 0));
    assert_eq!(c.elapsed_ns, 0);
}

#[test]
fn holding_mines_every_interval() {
    let mut c = MineClock::primed(100);
    assert!(c.step(true, 10));
    assert_eq!(c.elapsed_ns, 10);
    assert!(!c.step(true, 50));
    assert_eq!(c.elapsed_ns, 60);
    assert!(c.step(true, 50));
    assert_eq!(c.elapsed_ns, 10);
}

#[test]
fn long_frame_mines_once_and_keeps_remainder() {
    let mut c = MineClock { elapsed_ns: 10, interval_ns: 100 };
    assert!(c.step(true, 350));
    assert_eq!(c.elapsed_ns, 60);
}

#[test]
fn release_rearms_the_clock() {
    let mut c = MineClock::primed(100);
    assert!(c.step(true, 10));
    assert!(!c.step(false, 5));
    assert_eq!(c.elapsed_ns, 100);
    assert!(c.step(true, 1));
}

#[test]
fn mining_rate_is_limited() {
    let mut c = MineClock::primed(100);
    let mut mined = 0;
    for _ in 0..100 {
        if c.step(true, 10) {
            mined += 1;
        }
    }
    assert!(mined <= 1 + 1000 / 100);
    assert_eq!(mined, 11);
}

#[test]
fn huge_values_do_not_overflow() {
    let mut c = MineClock::primed(u64::MAX);
    assert!(c.step(true, u64::MAX));
    assert_eq!(c.elapsed_ns, 0);
}
