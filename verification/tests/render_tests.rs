use tixy::complex::Cx;
use tixy::rational::Rat;
use tixy::render::{cell_ndc, color_for, dot_radius_sq, grid_cells, rotate, Color};

#[test]
fn color_is_white_only_for_negative_phase() {
    // Negative imaginary part: negative phase, white.
    let below = Cx::new(Rat::new(1, 2), Rat::new(-1, 2));
    assert_eq!(color_for(&below), Color::White);
    // Positive imaginary part: positive phase, super pink.
    let above = Cx::new(Rat::new(1, 2), Rat::new(1, 2));
    assert_eq!(color_for(&above), Color::SuperPink);
}

#[test]
fn color_boundary_phase_zero_is_super_pink() {
    // Imaginary part exactly zero: phase exactly zero, which falls on the
    // super pink side of the strict comparison.
    let boundary = Cx::new(Rat::new(3, 4), Rat::new(0, 1));
    assert_eq!(color_for(&boundary), Color::SuperPink);
}

#[test]
fn radius_is_monotone_below_the_clamp() {
    let mr = Rat::new(1, 16);
    let small = dot_radius_sq(&Rat::new(1, 1), &mr).unwrap();
    let large = dot_radius_sq(&Rat::new(2, 1), &mr).unwrap();
    assert!(small.lt(&large));
}

#[test]
fn radius_saturates_at_the_maximum() {
    let mr = Rat::new(1, 16);
    let mr_sq = Rat::new(1, 256);
    // Squared magnitude exactly 4 (magnitude 2) and anything above it give
    // the full radius.
    let at = dot_radius_sq(&Rat::new(4, 1), &mr).unwrap();
    assert!(at.eq_value(&mr_sq));
    let beyond = dot_radius_sq(&Rat::new(9, 1), &mr).unwrap();
    assert!(beyond.eq_value(&mr_sq));
}

#[test]
fn radius_exact_value_halfway() {
    // Squared magnitude 1 (magnitude 1): radius is max_radius / 2, so the
    // squared radius is max_radius^2 / 4.
    let mr = Rat::new(1, 16);
    let r = dot_radius_sq(&Rat::new(1, 1), &mr).unwrap();
    assert!(r.eq_value(&Rat::new(1, 1024)));
}

#[test]
fn grid_is_row_major_with_origin_first() {
    let cells = grid_cells(16, 16);
    assert_eq!(cells.len(), 256);
    assert_eq!(cells[0], (0, 0));
    assert_eq!(cells[1], (0, 1));
    assert_eq!(cells[15], (0, 15));
    assert_eq!(cells[16], (1, 0));
    assert_eq!(cells[255], (15, 15));
}

#[test]
fn first_cell_ndc_is_minus_one_plus_max_radius() {
    let mr = Rat::new(1, 16);
    let (x, y) = cell_ndc(0, 0, 16, 16, &mr).unwrap();
    assert!(x.eq_value(&Rat::new(-15, 16)));
    assert!(y.eq_value(&Rat::new(-15, 16)));
}

#[test]
fn cell_ndc_matches_the_affine_formula() {
    // Cell (2, 5) of a 16x16 grid with max radius 1/16:
    // ndc_x = 2*5/16 - 1 + 1/16 = -5/16, ndc_y = 2*2/16 - 1 + 1/16 = -11/16.
    let mr = Rat::new(1, 16);
    let (x, y) = cell_ndc(2, 5, 16, 16, &mr).unwrap();
    assert!(x.eq_value(&Rat::new(-5, 16)));
    assert!(y.eq_value(&Rat::new(-11, 16)));
}

#[test]
fn rotation_by_a_unit_direction_preserves_the_magnitude() {
    // (3/5, 4/5) is a unit direction; rotating (1, 2) by it gives (-1, 2)
    // and keeps the squared magnitude at 5.
    let source = Cx::new(Rat::new(1, 1), Rat::new(2, 1));
    let dir = Cx::new(Rat::new(3, 5), Rat::new(4, 5));
    let turned = rotate(&source, &dir).unwrap();
    assert!(turned.re.eq_value(&Rat::new(-1, 1)));
    assert!(turned.im.eq_value(&Rat::new(2, 1)));
    let before = source.norm_sq().unwrap();
    let after = turned.norm_sq().unwrap();
    assert!(before.eq_value(&after));
    assert!(before.eq_value(&Rat::new(5, 1)));
}
