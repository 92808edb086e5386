use dense_layer::error::LayerError;
use dense_layer::gradient::{apply_update, calculate_gradients};
use dense_layer::init::{create_random_matrix, create_random_vector};
use dense_layer::layer::forward_propagate;
use dense_layer::loss::mse_loss;
use rand::Rng;

fn sigmoid(x: f64) -> f64 {
    1.0 / (1.0 + (-x).exp())
}

fn relu(x: f64) -> f64 {
    x.max(0.0)
}

fn mac(acc: f64, x: f64, w: f64) -> f64 {
    acc + x * w
}

fn add_squared_error(acc: f64, p: f64, t: f64) -> f64 {
    let error = p - t;
    acc + error * error
}

fn mean(total: f64, n: usize) -> f64 {
    total / (n as f64)
}

fn subtract(a: f64, b: f64) -> f64 {
    a - b
}

fn multiply(a: f64, b: f64) -> f64 {
    a * b
}

fn forward(inputs: &Vec<f64>, weights: &Vec<Vec<f64>>, biases: &Vec<f64>) -> Vec<f64> {
    forward_propagate(inputs, weights, biases, sigmoid, mac).unwrap()
}

fn loss(predictions: &Vec<f64>, targets: &Vec<f64>) -> Result<f64, LayerError> {
    mse_loss(predictions, targets, 0.0, add_squared_error, mean)
}

fn close(a: f64, b: f64) -> bool {
    (a - b).abs() < 1e-9
}

fn close_rows(a: &Vec<Vec<f64>>, b: &Vec<Vec<f64>>) -> bool {
    a.len() == b.len()
        && a.iter().zip(b.iter()).all(|(x, y)| {
            x.len() == y.len() && x.iter().zip(y.iter()).all(|(p, q)| close(*p, *q))
        })
}

#[test]
fn forward_single_neuron_is_sigmoid_of_product() {
    let out = forward(&vec![3.0], &vec![vec![2.0]], &vec![0.0]);
    assert_eq!(out.len(), 1);
    assert!(close(out[0], sigmoid(6.0)));
}

#[test]
fn forward_adds_bias_before_activation() {
    let out = forward_propagate(
        &vec![1.0, 2.0],
        &vec![vec![1.0, -1.0], vec![0.5, 0.25]],
        &vec![0.5, -2.0],
        relu,
        mac,
    )
    .unwrap();
    // 0.5 + 1 - 2 = -0.5 -> 0; -2 + 0.5 + 0.5 = -1 -> 0
    assert_eq!(out, vec![0.0, 0.0]);
    let out = forward_propagate(
        &vec![1.0, 2.0],
        &vec![vec![1.0, 1.0], vec![0.5, 0.25]],
        &vec![0.5, 1.0],
        relu,
        mac,
    )
    .unwrap();
    assert_eq!(out, vec![3.5, 2.0]);
}

#[test]
fn forward_with_no_neurons_is_empty() {
    let out = forward(&vec![1.0, 2.0], &vec![], &vec![]);
    assert!(out.is_empty());
}

#[test]
fn forward_rejects_bias_count() {
    let r = forward_propagate(&vec![1.0], &vec![vec![1.0]], &vec![0.0, 0.0], sigmoid, mac);
    assert_eq!(r, Err(LayerError::ShapeMismatch));
}

#[test]
fn forward_rejects_row_length() {
    let r = forward_propagate(
        &vec![1.0, 2.0],
        &vec![vec![1.0, 2.0], vec![1.0]],
        &vec![0.0, 0.0],
        sigmoid,
        mac,
    );
    assert_eq!(r, Err(LayerError::ShapeMismatch));
}

#[test]
fn mse_of_equal_vectors_is_zero() {
    assert_eq!(loss(&vec![1.0, 2.0], &vec![1.0, 2.0]), Ok(0.0));
}

#[test]
fn mse_of_unit_errors_is_one() {
    assert_eq!(loss(&vec![0.0, 0.0], &vec![1.0, 1.0]), Ok(1.0));
}

#[test]
fn mse_averages_squared_errors() {
    let r = loss(&vec![1.0, 2.0, 3.0], &vec![0.0, 0.0, 0.0]).unwrap();
    assert!(close(r, 14.0 / 3.0));
}

#[test]
fn mse_rejects_length_mismatch() {
    assert_eq!(loss(&vec![1.0, 2.0], &vec![1.0]), Err(LayerError::LengthMismatch));
    assert_eq!(loss(&vec![], &vec![1.0]), Err(LayerError::LengthMismatch));
}

#[test]
fn gradients_scale_error_by_input_and_rate() {
    let (wg, bg) = calculate_gradients(
        &vec![1.0, 2.0, 3.0],
        &vec![vec![0.0; 3], vec![0.0; 3]],
        &vec![0.5, 0.5],
        &vec![0.0, 1.0],
        0.01,
        subtract,
        multiply,
    )
    .unwrap();
    assert_eq!(bg, vec![0.005, -0.005]);
    assert!(close_rows(&wg, &vec![vec![0.005, 0.01, 0.015], vec![-0.005, -0.01, -0.015]]));
}

#[test]
fn gradients_reject_prediction_count() {
    let r = calculate_gradients(
        &vec![1.0],
        &vec![vec![0.0], vec![0.0]],
        &vec![0.5],
        &vec![0.0, 1.0],
        0.01,
        subtract,
        multiply,
    );
    assert_eq!(r, Err(LayerError::ShapeMismatch));
    let r = calculate_gradients(
        &vec![1.0],
        &vec![vec![0.0], vec![0.0]],
        &vec![0.5, 0.5],
        &vec![0.0],
        0.01,
        subtract,
        multiply,
    );
    assert_eq!(r, Err(LayerError::ShapeMismatch));
}

#[test]
fn update_subtracts_gradients() {
    let mut weights = vec![vec![1.0, 2.0], vec![3.0, 4.0]];
    let mut biases = vec![0.5, -0.5];
    let r = apply_update(
        &mut weights,
        &mut biases,
        &vec![vec![0.5, 1.0], vec![-1.0, 4.0]],
        &vec![0.25, -0.5],
        subtract,
    );
    assert_eq!(r, Ok(()));
    assert_eq!(weights, vec![vec![0.5, 1.0], vec![4.0, 0.0]]);
    assert_eq!(biases, vec![0.25, 0.0]);
}

#[test]
fn update_rejects_shape_and_keeps_parameters() {
    let mut weights = vec![vec![1.0, 2.0]];
    let mut biases = vec![0.5];
    let r = apply_update(&mut weights, &mut biases, &vec![vec![0.5]], &vec![0.25], subtract);
    assert_eq!(r, Err(LayerError::ShapeMismatch));
    let r = apply_update(&mut weights, &mut biases, &vec![vec![0.5, 0.5]], &vec![], subtract);
    assert_eq!(r, Err(LayerError::ShapeMismatch));
    assert_eq!(weights, vec![vec![1.0, 2.0]]);
    assert_eq!(biases, vec![0.5]);
}

fn training_step(
    inputs: &Vec<f64>,
    weights: &Vec<Vec<f64>>,
    biases: &Vec<f64>,
    targets: &Vec<f64>,
    learning_rate: f64,
) -> (Vec<Vec<f64>>, Vec<f64>) {
    let predictions = forward(inputs, weights, biases);
    let (wg, bg) =
        calculate_gradients(inputs, weights, &predictions, targets, learning_rate, subtract, multiply)
            .unwrap();
    let mut new_weights = weights.clone();
    let mut new_biases = biases.clone();
    apply_update(&mut new_weights, &mut new_biases, &wg, &bg, subtract).unwrap();
    (new_weights, new_biases)
}

#[test]
fn training_step_is_deterministic() {
    let inputs = vec![0.3, -1.2, 2.5];
    let weights = vec![vec![0.1, -0.7, 0.4], vec![-0.9, 0.2, 0.6]];
    let biases = vec![0.05, -0.3];
    let targets = vec![0.0, 1.0];
    let first = training_step(&inputs, &weights, &biases, &targets, 0.01);
    let second = training_step(&inputs, &weights, &biases, &targets, 0.01);
    assert_eq!(first, second);
    assert_ne!(first.0, weights);
}

#[test]
fn end_to_end_step_lowers_loss() {
    let inputs = vec![1.0, 2.0, 3.0];
    let mut weights = vec![vec![0.0, 0.0, 0.0], vec![0.0, 0.0, 0.0]];
    let mut biases = vec![0.0, 0.0];
    let targets = vec![0.0, 1.0];
    let learning_rate = 0.01;

    let predictions = forward(&inputs, &weights, &biases);
    assert_eq!(predictions, vec![0.5, 0.5]);
    let initial_loss = loss(&predictions, &targets).unwrap();
    assert_eq!(initial_loss, 0.25);

    let (wg, bg) = calculate_gradients(
        &inputs,
        &weights,
        &predictions,
        &targets,
        learning_rate,
        subtract,
        multiply,
    )
    .unwrap();
    assert_eq!(bg, vec![0.005, -0.005]);
    assert!(close_rows(&wg, &vec![vec![0.005, 0.01, 0.015], vec![-0.005, -0.01, -0.015]]));

    apply_update(&mut weights, &mut biases, &wg, &bg, subtract).unwrap();
    assert!(close_rows(&weights, &vec![vec![-0.005, -0.01, -0.015], vec![0.005, 0.01, 0.015]]));
    assert_eq!(biases, vec![-0.005, 0.005]);

    let after = forward(&inputs, &weights, &biases);
    // weighted sums: -0.005 - 0.07 = -0.075 and 0.075
    assert!(close(after[0], sigmoid(-0.075)));
    assert!(close(after[1], sigmoid(0.075)));
    let loss_after = loss(&after, &targets).unwrap();
    assert!(loss_after < initial_loss);
    let expected = (sigmoid(-0.075).powi(2) + (sigmoid(0.075) - 1.0).powi(2)) / 2.0;
    assert!(close(loss_after, expected));
}

#[test]
fn random_vector_values_lie_in_range() {
    let draw = || rand::thread_rng().gen_range(-1.0..1.0);
    let v: Vec<f64> = create_random_vector(50, &draw);
    assert_eq!(v.len(), 50);
    assert!(v.iter().all(|x| *x >= -1.0 && *x < 1.0));
    let empty: Vec<f64> = create_random_vector(0, &draw);
    assert!(empty.is_empty());
}

#[test]
fn random_matrix_has_shape_and_range() {
    let draw = || rand::thread_rng().gen_range(-1.0..1.0);
    let m: Vec<Vec<f64>> = create_random_matrix(2, 3, &draw);
    assert_eq!(m.len(), 2);
    for row in &m {
        assert_eq!(row.len(), 3);
        assert!(row.iter().all(|x| *x >= -1.0 && *x < 1.0));
    }
}

#[test]
fn initializers_call_draw_for_every_value() {
    let m = create_random_matrix(3, 2, &|| 7u8);
    assert_eq!(m, vec![vec![7u8; 2]; 3]);
    assert_eq!(create_random_vector(4, &|| -1i32), vec![-1; 4]);
}
