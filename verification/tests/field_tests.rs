use tixy::complex::Cx;
use tixy::field::{Layer, ResNet};
use tixy::rational::{isqrt, Rat};

fn cx(re_num: i64, re_den: i64, im_num: i64, im_den: i64) -> Cx {
    Cx::new(Rat::new(re_num, re_den), Rat::new(im_num, im_den))
}

#[test]
fn isqrt_exact_values() {
    assert_eq!(isqrt(0), 0);
    assert_eq!(isqrt(1), 1);
    assert_eq!(isqrt(3), 1);
    assert_eq!(isqrt(4), 2);
    assert_eq!(isqrt(10), 3);
    assert_eq!(isqrt(144), 12);
    assert_eq!(isqrt(145), 12);
}

#[test]
fn sqrt_approx_is_exact_on_perfect_squares() {
    // sqrt(9/4) == 3/2, computed as isqrt(9*4)/4 == 6/4.
    let s = Rat::new(9, 4).sqrt_approx();
    assert!(s.eq_value(&Rat::new(3, 2)));
}

#[test]
fn eval_is_pure() {
    let model = ResNet::with_depth(2);
    let input = cx(1, 4, -1, 8);
    let first = model.eval(input);
    let second = model.eval(input);
    assert_eq!(first, second);
}

#[test]
fn eval_of_empty_model_is_identity() {
    let model = ResNet::from_layers(Vec::new());
    let input = cx(3, 7, -2, 5);
    assert_eq!(model.eval(input), Some(input));
}

#[test]
fn dead_zone_layer_contributes_nothing() {
    // linear = 1, bias = 0, threshold = 100: every small value's residual is
    // gated to zero, so the layer leaves the value unchanged.
    let layer = Layer {
        linear: cx(1, 1, 0, 1),
        bias: cx(0, 1, 0, 1),
        threshold: cx(100, 1, 0, 1),
    };
    let model = ResNet::from_layers(vec![layer]);
    for &(a, b) in &[(1i64, 2i64), (-3, 4), (0, 1), (5, 3)] {
        let input = cx(a, b, b, 7);
        assert_eq!(model.eval(input), Some(input));
    }
}

#[test]
fn nonlinear_layer_squares_the_magnitude() {
    // linear = 1, bias = 0, threshold = 1 (phase zero): for input 2, the
    // residual is 2 with |residual|^2 == 4 >= 1, so the residual becomes
    // magnitude 4, phase unchanged, and the output is 2 + 4 == 6.
    let layer = Layer {
        linear: cx(1, 1, 0, 1),
        bias: cx(0, 1, 0, 1),
        threshold: cx(1, 1, 0, 1),
    };
    let model = ResNet::from_layers(vec![layer]);
    let out = model.eval(cx(2, 1, 0, 1)).unwrap();
    assert!(out.re.eq_value(&Rat::new(6, 1)));
    assert!(out.im.eq_value(&Rat::new(0, 1)));
}

#[test]
fn with_depth_draws_weights_on_the_unit_disk() {
    let one = Rat::new(1, 1);
    let model = ResNet::with_depth(4);
    assert_eq!(model.weight.len(), 4);
    for layer in &model.weight {
        for w in [&layer.linear, &layer.bias, &layer.threshold] {
            let n = w.norm_sq().unwrap();
            assert!(n.le(&one));
        }
    }
}
