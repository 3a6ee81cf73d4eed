use neuralnet::vector2d::MatrixError;
use neuralnet::vector2d::Vector2D;

fn mk(values: &[f64], rows: usize, cols: usize) -> Vector2D {
    let bits: Vec<u64> = values.iter().map(|v| v.to_bits()).collect();
    Vector2D::new(bits, rows, cols).expect("shape should match")
}

fn fv(m: &Vector2D) -> Vec<f64> {
    m.values.iter().map(|&u| f64::from_bits(u)).collect()
}

fn eq_with_nan_eq(a: f64, b: f64) -> bool {
    (a.is_nan() && b.is_nan()) || (a == b)
}

fn vec_compare(va: &[f64], vb: &[f64]) -> bool {
    (va.len() == vb.len()) && va.iter().zip(vb).all(|(a, b)| eq_with_nan_eq(*a, *b))
}

#[test]
fn test_new() {
    let values = vec![0., 1., 2., 3.];
    let values_copy = &values.to_vec();
    let v2d: Vector2D = mk(&values, 2, 2);
    assert!(v2d.shape() == (2, 2));
    assert!(&fv(&v2d) == values_copy);
}

#[test]
fn test_new_shape_mismatch() {
    let bits: Vec<u64> = vec![0, 0, 0];
    assert!(matches!(Vector2D::new(bits, 2, 2), Err(MatrixError::ShapeMismatch)));
}

#[test]
fn test_transpose_mat() {
    let values = vec![0., 1., 2., 3., 4., 5.];
    let expected_values = &vec![0., 3., 1., 4., 2., 5.];
    let v2d: Vector2D = mk(&values, 2, 3);
    assert!(&fv(&v2d.transpose()) == expected_values);
    assert!(v2d.transpose().shape() == (3, 2));
}

#[test]
fn test_transpose_vec() {
    let values = vec![0., 1., 2., 3., 4., 5.];
    let expected_values = &values.clone();
    let v2d: Vector2D = mk(&values, 6, 1);
    assert!(&fv(&v2d.transpose()) == expected_values);
    assert!(v2d.transpose().shape() == (1, 6));
}

#[test]
fn test_transpose_scalar() {
    let values = vec![42.];
    let expected_values = &values.clone();
    let v2d: Vector2D = mk(&values, 1, 1);
    assert!(&fv(&v2d.transpose()) == expected_values);
    assert!(v2d.transpose().shape() == (1, 1));
}

#[test]
fn test_transpose_involution() {
    let values = vec![0.5, -1.25, 3., 7.5, -0.125, 9., 2., 4.];
    let v2d: Vector2D = mk(&values, 4, 2);
    let back: Vector2D = v2d.transpose().transpose();
    assert!(back.values == v2d.values);
    assert!(back.shape() == v2d.shape());
}

#[test]
fn test_row_add() {
    let v1: Vector2D = mk(&[0., 1., 2., 3., 4., 5.], 2, 3);
    let v2: Vector2D = mk(&[0.5, 1., 2.], 1, 3);
    let v3 = v1.row_add(&v2).expect("column counts match");
    assert!(fv(&v3) == vec![0.5, 2., 4., 3.5, 5., 7.]);
    assert!(v3.shape() == (2, 3));
}

#[test]
fn test_row_add_shape_mismatch() {
    let v1: Vector2D = mk(&[0., 1., 2., 3.], 2, 2);
    let v2: Vector2D = mk(&[0.5, 1., 2.], 1, 3);
    assert!(matches!(v1.row_add(&v2), Err(MatrixError::ShapeMismatch)));
}

#[test]
fn test_dot() {
    let v1: Vector2D = mk(&[0., 1., 2., 3., 4., 5.], 2, 3);
    let v2: Vector2D = mk(&[0.5, 1., 2.], 3, 1);
    let v3 = v1.dot(&v2).expect("inner dimensions match");
    assert!(fv(&v3) == vec![5., 15.5]);
    assert!(v3.shape() == (2, 1));
}

#[test]
fn test_dot_dimension_mismatch() {
    let v1: Vector2D = mk(&[0., 1., 2., 3., 4., 5.], 2, 3);
    let v2: Vector2D = mk(&[0.5, 1.], 2, 1);
    assert!(matches!(v1.dot(&v2), Err(MatrixError::DimensionMismatch)));
}

#[test]
fn test_dot_transpose_matches_swapped_product() {
    let m: Vector2D = mk(&[1., 2., 3., 4., 5., 6.], 2, 3);
    let n: Vector2D = mk(&[0.5, -1., 2., 7., 0.25, -3.], 3, 2);
    let left: Vector2D = m.dot(&n).expect("inner dimensions match").transpose();
    let right: Vector2D = n
        .transpose()
        .dot(&m.transpose())
        .expect("inner dimensions match");
    assert!(left.values == right.values);
    assert!(left.shape() == right.shape());
}

#[test]
fn test_ln() {
    let v1: Vector2D = mk(&[0., 1., 2., 3., 4., 5.], 2, 3);
    let v2 = v1.ln();
    assert!(v2.shape() == v1.shape());
    assert!(fv(&v2)[0].is_infinite());
    assert!(fv(&v2)[1] == 0.);
    assert!((fv(&v2)[2] - std::f64::consts::LN_2).abs() < 1e-12);
}

#[test]
fn test_ln_negative_is_nan() {
    let v = mk(&[-1.5], 1, 1);
    assert!(fv(&v.ln())[0].is_nan());
}

#[test]
fn test_mean() {
    let v1: Vector2D = mk(&[0., 1., 2., 3., 4., 5.], 2, 3);
    let mean_0 = fv(&v1.mean(0).expect("axis 0 is valid"));
    assert!(mean_0.len() == 3);
    assert!(mean_0 == vec![1.5, 2.5, 3.5]);

    let mean_1 = fv(&v1.mean(1).expect("axis 1 is valid"));
    assert!(mean_1.len() == 2);
    assert!(mean_1 == vec![1., 4.]);
}

#[test]
fn test_mean_invalid_axis() {
    let v1: Vector2D = mk(&[0., 1., 2., 3.], 2, 2);
    assert!(matches!(v1.mean(2), Err(MatrixError::InvalidAxis)));
}

#[test]
fn test_overall_mean() {
    let v1: Vector2D = mk(&[0., 1., 2., 3., 4., 5.], 2, 3);
    let overall_mean = f64::from_bits(v1.overall_mean());
    assert!(overall_mean == 2.5);
}

#[test]
fn test_get_value() {
    let v1: Vector2D = mk(&[0., 1., 2., 3., 4., 5.], 2, 3);
    assert!(v1.values[0] == v1.get_value(0).expect("in bounds"));
    assert!(v1.values[4] == v1.get_value(4).expect("in bounds"));
}

#[test]
fn test_get_value_out_of_bounds() {
    let v1: Vector2D = mk(&[0., 1., 2., 3.], 2, 2);
    assert!(v1.get_value(42) == Err(MatrixError::IndexOutOfBounds));
}

#[test]
fn test_get_value_mut() {
    let mut v1: Vector2D = mk(&[0., 1., 2., 3., 4., 5.], 2, 3);
    let first: u64 = v1.values[0];
    let fifth: u64 = v1.values[4];
    assert!(first == *v1.get_value_mut(0));
    assert!(fifth == *v1.get_value_mut(4));
    *v1.get_value_mut(0) = (9.5f64).to_bits();
    assert!(fv(&v1)[0] == 9.5);
}

#[test]
fn test_get_mat_value() {
    let v1: Vector2D = mk(&[0., 1., 2., 3., 4., 5.], 2, 3);
    assert!(v1.values[0] == v1.get_mat_value(0, 0).expect("in bounds"));
    assert!(v1.values[3] == v1.get_mat_value(1, 0).expect("in bounds"));
    assert!(v1.values[5] == v1.get_mat_value(1, 2).expect("in bounds"));
}

#[test]
fn test_get_mat_value_mut() {
    let mut v1: Vector2D = mk(&[0., 1., 2., 3., 4., 5.], 2, 3);
    let at00: u64 = v1.values[0];
    let at10: u64 = v1.values[3];
    let at12: u64 = v1.values[5];
    assert!(at00 == *v1.get_mat_value_mut(0, 0));
    assert!(at10 == *v1.get_mat_value_mut(1, 0));
    assert!(at12 == *v1.get_mat_value_mut(1, 2));
}

#[test]
fn test_get_mat_row_values() {
    let v1: Vector2D = mk(&[0., 1., 2., 3., 4., 5.], 2, 3);

    let v10: Vector2D = v1.get_mat_row_values(0).expect("row 0 exists");
    assert!(vec![0., 1., 2.] == fv(&v10));
    assert!((1, 3) == v10.shape());

    let v11: Vector2D = v1.get_mat_row_values(1).expect("row 1 exists");
    assert!(vec![3., 4., 5.] == fv(&v11));
    assert!((1, 3) == v11.shape());

    assert!(matches!(v1.get_mat_row_values(2), Err(MatrixError::IndexOutOfBounds)));
}

#[test]
fn test_indexing() {
    let values = vec![0., 1.1, 2.2, 3.3, 4.4, 5.5, 6.6, 7.7];
    let v2d: Vector2D = mk(&values, 4, 2);
    assert!(f64::from_bits(v2d.get_value(5).expect("in bounds")) == 5.5);
    assert!(f64::from_bits(v2d.get_mat_value(3, 1).expect("in bounds")) == 7.7);
    assert!(f64::from_bits(v2d.get_mat_value(0, 0).expect("in bounds")) == 0.);
}

#[test]
fn test_multiplications() {
    let v: f64 = 1.5;
    let values = vec![0., 1., 2., 3.];
    let values_copy = &values.to_vec();

    let expected_result: Vec<f64> = vec![0., 1.5, 3., 4.5];
    let v2d: Vector2D = mk(&values, 2, 2);
    let result: Vector2D = v2d.mul_scalar(v.to_bits());
    assert!(&fv(&result) == &expected_result);
    let v2d: Vector2D = result.mul_scalar((1. / v).to_bits());
    assert!(&fv(&v2d) == values_copy);
}

#[test]
fn test_subtraction() {
    let f: f64 = 3.;
    let v2d: Vector2D = mk(&[0., 1.5, 3., 4.5], 2, 2);
    assert!(vec_compare(&fv(&v2d.sub_scalar(f.to_bits())), &vec![-3., -1.5, 0., 1.5]));

    let v2d: Vector2D = mk(&[0., 1.5, 3., 4.5], 2, 2);
    assert!(vec_compare(&fv(&v2d.scalar_sub(f.to_bits())), &vec![3., 1.5, 0., -1.5]));
}

#[test]
fn test_elementwise_ops() {
    let a: Vector2D = mk(&[1., 2., 3., 4.], 2, 2);
    let b: Vector2D = mk(&[4., 3., 2., 0.5], 2, 2);
    assert!(fv(&a.add(&b).expect("same shape")) == vec![5., 5., 5., 4.5]);
    assert!(fv(&a.sub(&b).expect("same shape")) == vec![-3., -1., 1., 3.5]);
    assert!(fv(&a.mul(&b).expect("same shape")) == vec![4., 6., 6., 2.]);
    assert!(fv(&a.div(&b).expect("same shape")) == vec![0.25, 2. / 3., 1.5, 8.]);
    let c: Vector2D = mk(&[1., 2.], 1, 2);
    assert!(matches!(a.add(&c), Err(MatrixError::ShapeMismatch)));
}

#[test]
fn test_scalar_ops_and_negate() {
    let a: Vector2D = mk(&[1., -2., 0.5], 1, 3);
    assert!(fv(&a.add_scalar((2f64).to_bits())) == vec![3., 0., 2.5]);
    assert!(fv(&a.div_scalar((2f64).to_bits())) == vec![0.5, -1., 0.25]);
    assert!(fv(&a.scalar_div((2f64).to_bits())) == vec![2., -1., 4.]);
    assert!(fv(&a.negate()) == vec![-1., 2., -0.5]);
}

#[test]
fn test_division_by_zero_propagates() {
    let a: Vector2D = mk(&[1., 0., -1.], 1, 3);
    let b: Vector2D = mk(&[0., 0., 0.], 1, 3);
    let q = fv(&a.div(&b).expect("same shape"));
    assert!(q[0] == f64::INFINITY);
    assert!(q[1].is_nan());
    assert!(q[2] == f64::NEG_INFINITY);
}

#[test]
fn test_dot_skips_zero_factors() {
    // A zero factor drops its term entirely, so an infinity in the other
    // operand does not poison the sum.
    let a: Vector2D = mk(&[0., 1.], 1, 2);
    let b: Vector2D = mk(&[f64::NEG_INFINITY, 2.], 2, 1);
    let r = fv(&a.dot(&b).expect("inner dimensions match"));
    assert!(r == vec![2.]);
}
