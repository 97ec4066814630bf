use tixy::clock::Clock;
use tixy::complex::Cx;
use tixy::compose::{frame_byte_len, normalized_time, quadrant_transforms};
use tixy::rational::Rat;

#[test]
fn four_quadrants_in_drawing_order() {
    let quads = quadrant_transforms();
    assert_eq!(quads.len(), 4);
    // Top-left: half scale, no reflection, center (-1/2, -1/2).
    assert!(quads[0].sx.eq_value(&Rat::new(1, 2)));
    assert!(quads[0].sy.eq_value(&Rat::new(1, 2)));
    assert!(quads[0].tx.eq_value(&Rat::new(-1, 2)));
    assert!(quads[0].ty.eq_value(&Rat::new(-1, 2)));
    // Top-right: mirrored on x.
    assert!(quads[1].sx.eq_value(&Rat::new(-1, 2)));
    assert!(quads[1].sy.eq_value(&Rat::new(1, 2)));
    // Bottom-left: mirrored on y.
    assert!(quads[2].sx.eq_value(&Rat::new(1, 2)));
    assert!(quads[2].sy.eq_value(&Rat::new(-1, 2)));
    // Bottom-right: mirrored on both.
    assert!(quads[3].sx.eq_value(&Rat::new(-1, 2)));
    assert!(quads[3].sy.eq_value(&Rat::new(-1, 2)));
}

#[test]
fn quadrants_place_points_as_mirror_images() {
    let quads = quadrant_transforms();
    let p = Cx::new(Rat::new(1, 4), Rat::new(-1, 3));
    let tl = quads[0].apply(&p).unwrap();
    let tr = quads[1].apply(&p).unwrap();
    let bl = quads[2].apply(&p).unwrap();
    let br = quads[3].apply(&p).unwrap();
    // Horizontal mirror about the canvas center.
    assert!(tr.re.eq_value(&tl.re.neg()));
    assert!(tr.im.eq_value(&tl.im));
    // Vertical mirror.
    assert!(bl.re.eq_value(&tl.re));
    assert!(bl.im.eq_value(&tl.im.neg()));
    // Both.
    assert!(br.re.eq_value(&tl.re.neg()));
    assert!(br.im.eq_value(&tl.im.neg()));
}

#[test]
fn normalized_time_is_the_fraction_of_run_progress() {
    let mut clock = Clock::new(Rat::new(6, 1), 15);
    // Frame 0: progress 0.
    assert!(normalized_time(&clock).unwrap().eq_value(&Rat::new(0, 1)));
    // Frame 45 of 90: t() is 3 seconds, normalized 3/6 == 1/2.
    for _ in 0..45 {
        clock.tick();
    }
    assert!(normalized_time(&clock).unwrap().eq_value(&Rat::new(1, 2)));
}

#[test]
fn normalized_time_stays_below_one_while_running() {
    let mut clock = Clock::new(Rat::new(6, 1), 15);
    let one = Rat::new(1, 1);
    while clock.is_some() {
        let time = normalized_time(&clock).unwrap();
        assert!(time.lt(&one));
        assert!(!time.is_neg());
        clock.tick();
    }
}

#[test]
fn reference_frame_is_four_megabytes() {
    assert_eq!(frame_byte_len(1024, 1024), Some(1024 * 1024 * 4));
}

#[test]
fn reference_run_exports_ninety_frames() {
    // The pipeline writes one frame per tick while the clock runs: with the
    // reference configuration that is exactly 90 frames of 1024*1024*4 bytes.
    let mut clock = Clock::new(Rat::new(6, 1), 15);
    let mut written: usize = 0;
    while clock.is_some() {
        let bytes = frame_byte_len(1024, 1024).unwrap();
        assert_eq!(bytes, 4_194_304);
        written += 1;
        clock.tick();
    }
    assert_eq!(written, 90);
}
