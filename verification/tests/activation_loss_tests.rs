use neuralnet::activation::sigmoid;
use neuralnet::activation::sigmoid_derivative;
use neuralnet::activation::solo_sigmoid;
use neuralnet::loss::cross_entropy_derivative;
use neuralnet::loss::cross_entropy_loss;
use neuralnet::vector2d::Vector2D;

fn mk(values: &[f64], rows: usize, cols: usize) -> Vector2D {
    let bits: Vec<u64> = values.iter().map(|v| v.to_bits()).collect();
    Vector2D::new(bits, rows, cols).expect("shape should match")
}

fn fv(m: &Vector2D) -> Vec<f64> {
    m.values.iter().map(|&u| f64::from_bits(u)).collect()
}

fn sig(x: f64) -> f64 {
    f64::from_bits(solo_sigmoid(x.to_bits()))
}

#[test]
fn test_sigmoid() {
    assert!(sig(0.) == 0.5);
    assert!(sig(-0.) == 0.5);
    assert!(sig(0.00001) > 0.5);
    assert!(sig(-0.00001) < 0.5);
}

#[test]
fn test_sigmoid_saturation() {
    assert!(sig(50.) > 0.999999);
    assert!(sig(-50.) < 0.000001);
    assert!(sig(f64::INFINITY) == 1.0);
    assert!(sig(f64::NEG_INFINITY) == 0.0);
    assert!((sig(1.0) - 1.0 / (1.0 + (-1.0f64).exp())).abs() < 1e-12);
}

#[test]
fn test_sigmoid_matrix_keeps_shape() {
    let v = mk(&[0., 1., -1., 2., -2., 100.], 2, 3);
    let s = sigmoid(&v);
    assert!(s.shape() == (2, 3));
    let sv = fv(&s);
    assert!(sv[0] == 0.5);
    assert!(sv.iter().all(|&x| (0.0..=1.0).contains(&x)));
    assert!(sv[1] > 0.5 && sv[2] < 0.5);
}

#[test]
fn test_sigmoid_derivative_positive_and_vanishing() {
    // The derivative chain s * (1 - s) is strictly positive for moderate
    // arguments, peaks at exactly 0.25 in the middle, and vanishes as the
    // magnitude grows.
    let v = mk(&[-30., -5., -1., 0., 1., 5., 30.], 7, 1);
    let d = fv(&sigmoid_derivative(&v));
    assert!(d.iter().all(|&x| x > 0.));
    assert!(d[3] == 0.25);
    assert!(d.iter().all(|&x| x <= 0.25));
    assert!(d[0] < 1e-12 && d[6] < 1e-12);
}

#[test]
fn test_cross_entropy_loss() {
    let h: Vector2D = mk(
        &[0., 0., 0.1, 0.1, 0.25, 0.25, 0.5, 0.5, 0.65, 0.65, 0.8, 0.8, 1., 1.],
        14,
        1,
    );
    let y: Vector2D = mk(
        &[0., 1., 0., 1., 0., 1., 0., 1., 0., 1., 0., 1., 0., 1.],
        14,
        1,
    );
    let r: Vector2D = cross_entropy_loss(&h, &y).expect("shapes match");
    assert!(r.shape() == (1, 1));
    assert!(fv(&r)[0].is_infinite());

    let h: Vector2D = mk(
        &[0., 0.1, 0.1, 0.1, 0.25, 0.25, 0.5, 0.5, 0.65, 0.65, 0.8, 0.8, 1., 1.],
        14,
        1,
    );
    let y: Vector2D = mk(
        &[0., 1., 0., 1., 0., 1., 0., 1., 0., 1., 0., 1., 0., 1.],
        14,
        1,
    );
    let r: Vector2D = cross_entropy_loss(&h, &y).expect("shapes match");
    assert!(r.shape() == (1, 1));
    assert!(fv(&r)[0].is_infinite());

    let h: Vector2D = mk(
        &[0., 0.1, 0.1, 0.1, 0.25, 0.25, 0.5, 0.5, 0.65, 0.65, 0.8, 0.8, 0.9, 1.],
        14,
        1,
    );
    let y: Vector2D = mk(
        &[0., 1., 0., 1., 0., 1., 0., 1., 0., 1., 0., 1., 0., 1.],
        14,
        1,
    );
    let r: Vector2D = cross_entropy_loss(&h, &y).expect("shapes match");
    assert!(r.shape() == (1, 1));
    assert!(fv(&r)[0] <= 0.9562);
    assert!(fv(&r)[0] >= 0.9561);
}

#[test]
fn test_cross_entropy_loss_shape_mismatch() {
    let h: Vector2D = mk(&[0.5, 0.5], 2, 1);
    let y: Vector2D = mk(&[1., 0., 1.], 3, 1);
    assert!(cross_entropy_loss(&h, &y).is_err());
    let h2: Vector2D = mk(&[0.5, 0.5], 1, 2);
    let y2: Vector2D = mk(&[1., 0.], 1, 2);
    assert!(cross_entropy_loss(&h2, &y2).is_err());
}

#[test]
fn test_cross_entropy_loss_derivative() {
    let h: Vector2D = mk(&[0., 1.], 2, 1);
    let y: Vector2D = mk(&[0., 1.], 2, 1);
    let d: Vector2D = cross_entropy_derivative(&h, &y).expect("shapes match");
    for e in fv(&d) {
        assert!(e.is_nan());
    }

    let h: Vector2D = mk(&[0.1, 0.1], 2, 1);
    let y: Vector2D = mk(&[1., 0.], 2, 1);
    let d = fv(&cross_entropy_derivative(&h, &y).expect("shapes match"));
    assert!(d[0] >= -10.001);
    assert!(d[0] <= -9.999);
    assert!(d[1] >= 1.111);
    assert!(d[1] <= 1.112);

    let h: Vector2D = mk(&[0.8, 0.8], 1, 2);
    let y: Vector2D = mk(&[1., 0.], 1, 2);
    let d = fv(&cross_entropy_derivative(&h, &y).expect("shapes match"));
    assert!(d[0] >= -1.251);
    assert!(d[0] <= -1.249);
    assert!(d[1] <= 5.001);
    assert!(d[1] >= 4.999);
}
