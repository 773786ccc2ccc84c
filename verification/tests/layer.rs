use neural_net::error::Error;
use neural_net::neural_net::layer::Layer;
use neural_net::scalar::Activation;
use neural_net::scalar::Scalar;

fn two_to_one(weights: [i64; 2], bias: i64) -> Layer<i64> {
    let mut l: Layer<i64> = Layer::new(2, 1, 0).unwrap();
    l.set_weight(0, 0, weights[0]).unwrap();
    l.set_weight(1, 0, weights[1]).unwrap();
    l.set_bias(0, bias).unwrap();
    l
}

#[test]
fn unit_weights_identity_sums_inputs() {
    // weights (0,0) = 1 and (1,0) = 1, bias 0, identity: [2, 3] -> [5]
    let l = two_to_one([1, 1], 0);
    let out = l.calculate(&vec![2, 3], Activation::Identity).unwrap();
    assert_eq!(out, vec![5]);
}

#[test]
fn negative_bias_under_step_gives_zero() {
    // sum 5 with bias -10 is -5, and the step of a non-positive sum is 0
    let l = two_to_one([1, 1], -10);
    let out = l.calculate(&vec![2, 3], Activation::Step).unwrap();
    assert_eq!(out, vec![0]);
}

#[test]
fn weighted_sum_uses_cell_per_input_output_pair() {
    // 2 inputs, 2 outputs: out[o] = bias[o] + in0 * w(0,o) + in1 * w(1,o)
    let mut l: Layer<i64> = Layer::new(2, 2, 0).unwrap();
    l.set_weight(0, 0, 2).unwrap();
    l.set_weight(0, 1, 3).unwrap();
    l.set_weight(1, 0, 5).unwrap();
    l.set_weight(1, 1, 7).unwrap();
    l.set_bias(0, 100).unwrap();
    l.set_bias(1, 200).unwrap();
    let out = l.calculate(&vec![10, 1], Activation::Identity).unwrap();
    assert_eq!(out, vec![100 + 20 + 5, 200 + 30 + 7]);
}

#[test]
fn new_rejects_zero_node_counts() {
    assert!(matches!(Layer::<i64>::new(0, 3, 0), Err(Error::InvalidTopology)));
    assert!(matches!(Layer::<i64>::new(3, 0, 0), Err(Error::InvalidTopology)));
    assert!(matches!(Layer::<i64>::new(0, 0, 0), Err(Error::InvalidTopology)));
}

#[test]
fn new_layer_is_zero_filled() {
    let l: Layer<i64> = Layer::new(3, 2, 0).unwrap();
    for i in 0..3 {
        for o in 0..2 {
            assert_eq!(*l.weights.index(i, o).unwrap(), 0);
        }
    }
    assert_eq!(l.biases, vec![0, 0]);
    let out = l.calculate(&vec![4, 5, 6], Activation::Identity).unwrap();
    assert_eq!(out, vec![0, 0]);
}

#[test]
fn setters_reject_out_of_range_nodes() {
    let mut l: Layer<i64> = Layer::new(2, 1, 0).unwrap();
    assert_eq!(l.set_weight(2, 0, 1), Err(Error::IndexOutOfBounds));
    assert_eq!(l.set_weight(0, 1, 1), Err(Error::IndexOutOfBounds));
    assert_eq!(l.set_bias(1, 1), Err(Error::IndexOutOfBounds));
    // nothing changed
    let out = l.calculate(&vec![1, 1], Activation::Identity).unwrap();
    assert_eq!(out, vec![0]);
}

#[test]
fn layer_calculate_rejects_wrong_input_length() {
    let l: Layer<i64> = Layer::new(2, 1, 0).unwrap();
    assert_eq!(l.calculate(&vec![1], Activation::Identity), Err(Error::DimensionMismatch));
    assert_eq!(l.calculate(&vec![1, 2, 3], Activation::Identity), Err(Error::DimensionMismatch));
}

#[test]
fn randomize_weights_installs_draws_in_order() {
    // 2 x 2 layer: four weights row-major, then two biases
    let mut l: Layer<i64> = Layer::new(2, 2, 0).unwrap();
    l.randomize_weights(&vec![1, 2, 3, 4, 5, 6]).unwrap();
    assert_eq!(*l.weights.index(0, 0).unwrap(), 1);
    assert_eq!(*l.weights.index(0, 1).unwrap(), 2);
    assert_eq!(*l.weights.index(1, 0).unwrap(), 3);
    assert_eq!(*l.weights.index(1, 1).unwrap(), 4);
    assert_eq!(l.biases, vec![5, 6]);
}

#[test]
fn randomize_weights_rejects_wrong_count() {
    let mut l: Layer<i64> = Layer::new(2, 2, 0).unwrap();
    assert_eq!(l.randomize_weights(&vec![1, 2, 3]), Err(Error::DimensionMismatch));
    assert_eq!(l.randomize_weights(&vec![1, 2, 3, 4, 5, 6, 7]), Err(Error::DimensionMismatch));
    // nothing changed
    assert_eq!(l.biases, vec![0, 0]);
    assert_eq!(*l.weights.index(1, 1).unwrap(), 0);
}

#[test]
fn absent_value_propagates_through_arithmetic() {
    let mut l: Layer<Option<i64>> = Layer::new(2, 2, Some(0)).unwrap();
    l.set_weight(0, 0, None).unwrap();
    l.set_weight(1, 1, Some(4)).unwrap();
    l.set_bias(1, Some(1)).unwrap();
    let out = l.calculate(&vec![Some(2), Some(3)], Activation::Identity).unwrap();
    // output 0 touches the absent weight; output 1 does not
    assert_eq!(out, vec![None, Some(1 + 3 * 4)]);
}

#[test]
fn integer_activations_hold_their_rounded_forms() {
    assert_eq!(5i64.activate(Activation::Identity), 5);
    assert_eq!(5i64.activate(Activation::Step), 1);
    assert_eq!(0i64.activate(Activation::Step), 0);
    assert_eq!((-5i64).activate(Activation::Step), 0);
    assert_eq!(0i64.activate(Activation::Sigmoid), 1);
    assert_eq!((-1i64).activate(Activation::Sigmoid), 0);
    assert_eq!(0i64.activate(Activation::SigmoidStep), 1);
    assert_eq!((-1i64).activate(Activation::SigmoidStep), 0);
    assert_eq!(3i64.activate(Activation::HyperbolicTangent), 1);
    assert_eq!(0i64.activate(Activation::HyperbolicTangent), 0);
    assert_eq!((-3i64).activate(Activation::HyperbolicTangent), -1);
}
