use rand::RngExt;
use rand::SeedableRng;

use neuralnet::network::weight_count;
use neuralnet::network::Gradients;
use neuralnet::network::HyperParameters;
use neuralnet::network::NeuralNetwork;
use neuralnet::network::Parameters;
use neuralnet::vector2d::Vector2D;

fn mk(values: &[f64], rows: usize, cols: usize) -> Vector2D {
    let bits: Vec<u64> = values.iter().map(|v| v.to_bits()).collect();
    Vector2D::new(bits, rows, cols).expect("shape should match")
}

fn fv(m: &Vector2D) -> Vec<f64> {
    m.values.iter().map(|&u| f64::from_bits(u)).collect()
}

fn samples(seed: u64, n: usize) -> Vec<u64> {
    let mut rng = rand::rngs::StdRng::seed_from_u64(seed);
    (0..n).map(|_| rng.random::<f64>().to_bits()).collect()
}

fn xnor_data() -> (Vector2D, Vector2D) {
    let x = mk(&[0., 0., 0., 1., 1., 0., 1., 1.], 4, 2);
    let y = mk(&[1., 0., 0., 1.], 4, 1);
    (x, y)
}

#[test]
fn test_weight_count() {
    assert!(weight_count(&vec![2, 3, 1]) == Some(9));
    assert!(weight_count(&vec![7]) == Some(0));
    assert!(weight_count(&vec![]) == Some(0));
}

#[test]
fn test_network_new_layout() {
    let init = samples(7, 9);
    let nn = NeuralNetwork::new(vec![2, 3, 1], init.clone()).expect("sample count matches");
    assert!(nn.hyperparameters.layers == 3);
    assert!(nn.hyperparameters.shape == vec![2, 3, 1]);
    assert!(f64::from_bits(nn.hyperparameters.learning_rate) == 1.0);
    assert!(nn.parameters.weights.len() == 2);
    assert!(nn.parameters.weights[0].shape() == (2, 3));
    assert!(nn.parameters.weights[1].shape() == (3, 1));
    assert!(nn.parameters.biases[0].shape() == (1, 3));
    assert!(nn.parameters.biases[1].shape() == (1, 1));
    assert!(fv(&nn.parameters.biases[0]) == vec![0., 0., 0.]);
    // every weight is exactly two times its raw sample minus one
    let w0 = fv(&nn.parameters.weights[0]);
    for (k, &w) in w0.iter().enumerate() {
        let s = f64::from_bits(init[k]);
        assert!(w == 2.0 * s - 1.0);
    }
}

#[test]
fn test_network_new_rejects_wrong_sample_count() {
    assert!(NeuralNetwork::new(vec![2, 3, 1], samples(7, 8)).is_err());
    assert!(NeuralNetwork::new(vec![], Vec::new()).is_err());
}

#[test]
fn test_forward_shape() {
    // the prediction always has shape (batch, shape[last])
    let mut nn = NeuralNetwork::new(vec![2, 3, 1], samples(3, 9)).expect("sample count matches");
    let (x, _) = xnor_data();
    let h = nn.forward(&x).expect("input width matches");
    assert!(h.shape() == (4, 1));

    let mut wide = NeuralNetwork::new(vec![3, 5, 2], samples(4, 25)).expect(
        "sample count matches",
    );
    let input = mk(&[0.1, 0.2, 0.3, 0.4, 0.5, 0.6], 2, 3);
    let h2 = wide.forward(&input).expect("input width matches");
    assert!(h2.shape() == (2, 2));
    for p in fv(&h2) {
        assert!((0.0..=1.0).contains(&p));
    }
}

#[test]
fn test_forward_rejects_wrong_width() {
    let mut nn = NeuralNetwork::new(vec![2, 3, 1], samples(3, 9)).expect("sample count matches");
    let bad = mk(&[0., 1., 2.], 1, 3);
    assert!(nn.forward(&bad).is_err());
}

#[test]
fn test_backward_requires_forward() {
    let mut nn = NeuralNetwork::new(vec![2, 3, 1], samples(5, 9)).expect("sample count matches");
    let (_, y) = xnor_data();
    assert!(nn.backward(&y).is_err());
}

#[test]
fn test_backward_fills_gradient_shapes() {
    let mut nn = NeuralNetwork::new(vec![2, 3, 1], samples(6, 9)).expect("sample count matches");
    let (x, y) = xnor_data();
    nn.forward(&x).expect("input width matches");
    nn.backward(&y).expect("caches are fresh");
    assert!(nn.gradients.weights[0].shape() == (2, 3));
    assert!(nn.gradients.weights[1].shape() == (3, 1));
    assert!(nn.gradients.biases[0].shape() == (1, 3));
    assert!(nn.gradients.biases[1].shape() == (1, 1));
    assert!(nn.gradients.z[0].shape() == (4, 3));
    assert!(nn.gradients.a[2].shape() == (4, 1));
}

#[test]
fn test_update_zero_learning_rate_keeps_parameters() {
    // a full forward / backward / update cycle at learning rate zero leaves
    // every weight and bias numerically unchanged
    let weights = vec![
        mk(&[0.3, -0.2, 0.7, 0.1, -0.6, 0.4], 2, 3),
        mk(&[0.5, -0.9, 0.2], 3, 1),
    ];
    let biases = vec![mk(&[0., 0., 0.], 1, 3), mk(&[0.], 1, 1)];
    let before_w: Vec<Vec<f64>> = weights.iter().map(fv).collect();
    let before_b: Vec<Vec<f64>> = biases.iter().map(fv).collect();
    let parameters = Parameters::new(3, weights, biases);
    let hyperparameters = HyperParameters::new(vec![2, 3, 1], (0.0f64).to_bits());
    let gradients = Gradients::new(3);
    let mut nn = NeuralNetwork { parameters, hyperparameters, gradients };
    let (x, y) = xnor_data();
    nn.forward(&x).expect("input width matches");
    nn.backward(&y).expect("caches are fresh");
    nn.update().expect("gradients are fresh");
    for (l, w) in nn.parameters.weights.iter().enumerate() {
        assert!(fv(w) == before_w[l]);
    }
    for (l, b) in nn.parameters.biases.iter().enumerate() {
        assert!(fv(b) == before_b[l]);
    }
}

#[test]
fn test_update_changes_parameters_at_unit_rate() {
    let mut nn = NeuralNetwork::new(vec![2, 3, 1], samples(8, 9)).expect("sample count matches");
    let before = fv(&nn.parameters.weights[0]);
    let (x, y) = xnor_data();
    nn.forward(&x).expect("input width matches");
    nn.backward(&y).expect("caches are fresh");
    nn.update().expect("gradients are fresh");
    let after = fv(&nn.parameters.weights[0]);
    let gw = fv(&nn.gradients.weights[0]);
    for k in 0..before.len() {
        assert!(after[k] == before[k] - gw[k]);
    }
}

#[test]
fn test_training_xnor_converges() {
    // P-style end-to-end check: full-batch gradient descent on the XNOR
    // truth table drives the loss down and separates the classes
    let mut nn = NeuralNetwork::new(vec![2, 3, 1], samples(42, 9)).expect(
        "sample count matches",
    );
    let (x, y) = xnor_data();
    let losses = nn.training(&x, &y, 4000).expect("well shaped training data");
    assert!(losses.len() == 4000);
    let first = f64::from_bits(losses[0]);
    let last = f64::from_bits(losses[4000 - 1]);
    assert!(last.is_finite());
    assert!(last < first);
    let h = fv(&nn.forward(&x).expect("input width matches"));
    let ones = (h[0] + h[3]) / 2.0;
    let zeros = (h[1] + h[2]) / 2.0;
    assert!(ones > 0.6);
    assert!(zeros < 0.4);
}

#[test]
fn test_training_zero_epochs_changes_nothing() {
    let mut nn = NeuralNetwork::new(vec![2, 3, 1], samples(9, 9)).expect("sample count matches");
    let before = fv(&nn.parameters.weights[0]);
    let (x, y) = xnor_data();
    let losses = nn.training(&x, &y, 0).expect("zero epochs always succeed");
    assert!(losses.is_empty());
    assert!(fv(&nn.parameters.weights[0]) == before);
}

#[test]
fn test_training_rejects_mismatched_labels() {
    let mut nn = NeuralNetwork::new(vec![2, 3, 1], samples(10, 9)).expect(
        "sample count matches",
    );
    let (x, _) = xnor_data();
    let bad_y = mk(&[1., 0., 0.], 3, 1);
    assert!(nn.training(&x, &bad_y, 5).is_err());
}

#[test]
fn test_h_returns_last_activation() {
    let mut nn = NeuralNetwork::new(vec![2, 3, 1], samples(11, 9)).expect(
        "sample count matches",
    );
    let (x, _) = xnor_data();
    let h = nn.forward(&x).expect("input width matches");
    let again = nn.parameters.h();
    assert!(h.values == again.values);
    assert!(h.shape() == again.shape());
}
