use tixy::clock::Clock;
use tixy::rational::Rat;

#[test]
fn clock_reference_config_has_90_frames() {
    let clock = Clock::new(Rat::new(6, 1), 15);
    assert_eq!(clock.frames, 90);
    assert_eq!(clock.frame, 0);
}

#[test]
fn clock_is_some_through_the_whole_run() {
    let mut clock = Clock::new(Rat::new(6, 1), 15);
    let mut steps: usize = 0;
    while clock.is_some() {
        assert!(!clock.is_none());
        clock.tick();
        steps += 1;
        assert!(steps <= 90);
    }
    assert_eq!(steps, 90);
    assert_eq!(clock.frame, 90);
    assert!(clock.is_none());
}

#[test]
fn clock_tick_increments_by_exactly_one() {
    let mut clock = Clock::new(Rat::new(6, 1), 15);
    for expected in 1..=5usize {
        clock.tick();
        assert_eq!(clock.frame, expected);
    }
}

#[test]
fn clock_t_is_frame_over_framerate() {
    let mut clock = Clock::new(Rat::new(6, 1), 15);
    clock.tick();
    clock.tick();
    clock.tick();
    let t = clock.t();
    assert_eq!(t.num, 3);
    assert_eq!(t.den, 15);
    assert!(t.eq_value(&Rat::new(1, 5)));
}

#[test]
fn clock_dt_is_one_over_framerate() {
    let clock = Clock::new(Rat::new(6, 1), 15);
    let dt = clock.dt();
    assert_eq!(dt.num, 1);
    assert_eq!(dt.den, 15);
}

#[test]
fn clock_len_returns_the_duration_unchanged() {
    let clock = Clock::new(Rat::new(6, 1), 15);
    assert_eq!(clock.len(), Rat::new(6, 1));
}

#[test]
fn clock_truncates_the_duration_before_multiplying() {
    // 6.5 seconds at 4 fps: floor(6.5) * 4 == 24, not floor(6.5 * 4) == 26.
    let clock = Clock::new(Rat::new(13, 2), 4);
    assert_eq!(clock.frames, 24);
}

#[test]
fn clock_zero_length_never_runs() {
    let clock = Clock::new(Rat::new(0, 1), 15);
    assert_eq!(clock.frames, 0);
    assert!(clock.is_none());
    assert!(!clock.is_some());
}
