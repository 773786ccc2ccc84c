use neural_net::error::Error;
use neural_net::neural_net::Net;
use neural_net::scalar::Activation;
use rand::Rng;

/// A network that returns exactly `biases` on an all-zero input: one layer,
/// zero weights, identity activation, one bias per output node.
fn net_with_outputs(biases: &[i64]) -> (Net<i64>, Vec<i64>) {
    let n_nodes = biases.len();
    let mut net: Net<i64> = Net::new(&vec![n_nodes, n_nodes], Activation::Identity, 0).unwrap();
    for (o, &b) in biases.iter().enumerate() {
        net.set_bias(0, o, b).unwrap();
    }
    (net, vec![0; n_nodes])
}

#[test]
fn zeroed_network_is_constant() {
    // all weights and biases 0 over topology [2, 2, 1]: every input maps to
    // the activation's value at 0
    let net: Net<i64> = Net::new(&vec![2, 2, 1], Activation::Identity, 0).unwrap();
    assert_eq!(net.calculate(&vec![17, -4]).unwrap(), vec![0]);
    assert_eq!(net.calculate(&vec![0, 0]).unwrap(), vec![0]);
    assert_eq!(net.calculate(&vec![i64::MAX, i64::MIN]).unwrap(), vec![0]);
    // the sigmoid's rounded value at 0 is 1, whatever the input
    let net: Net<i64> = Net::new(&vec![2, 2, 1], Activation::Sigmoid, 0).unwrap();
    assert_eq!(net.calculate(&vec![17, -4]).unwrap(), vec![1]);
    assert_eq!(net.calculate(&vec![-100, 55]).unwrap(), vec![1]);
}

#[test]
fn classify_picks_highest_output() {
    // outputs [1, 9, 4]: index 1 wins
    let (net, input) = net_with_outputs(&[1, 9, 4]);
    assert_eq!(net.classify(&input), Ok(1));
}

#[test]
fn classify_breaks_ties_toward_first_maximum() {
    let (net, input) = net_with_outputs(&[5, 5]);
    assert_eq!(net.classify(&input), Ok(0));
    let (net, input) = net_with_outputs(&[3, 7, 7, 2]);
    assert_eq!(net.classify(&input), Ok(1));
}

#[test]
fn net_calculate_rejects_wrong_input_length() {
    let net: Net<i64> = Net::new(&vec![2, 3, 1], Activation::Identity, 0).unwrap();
    assert_eq!(net.calculate(&vec![1]), Err(Error::DimensionMismatch));
    assert_eq!(net.calculate(&vec![1, 2, 3]), Err(Error::DimensionMismatch));
    assert_eq!(net.classify(&vec![1, 2, 3]), Err(Error::DimensionMismatch));
    assert!(net.calculate(&vec![1, 2]).is_ok());
}

#[test]
fn classify_rejects_non_comparable_outputs() {
    let mut net: Net<Option<i64>> =
        Net::new(&vec![2, 2], Activation::Identity, Some(0)).unwrap();
    net.set_weight(0, 0, 0, None).unwrap();
    // the forward pass still succeeds: the absent value just propagates
    let out = net.calculate(&vec![Some(1), Some(1)]).unwrap();
    assert_eq!(out, vec![None, Some(0)]);
    // but ranking a vector that holds a non-comparable value is refused
    assert_eq!(net.classify(&vec![Some(1), Some(1)]), Err(Error::InvalidInput));
}

#[test]
fn new_rejects_degenerate_topologies() {
    assert!(matches!(
        Net::<i64>::new(&vec![], Activation::Identity, 0),
        Err(Error::InvalidTopology)
    ));
    assert!(matches!(
        Net::<i64>::new(&vec![3], Activation::Identity, 0),
        Err(Error::InvalidTopology)
    ));
    assert!(matches!(
        Net::<i64>::new(&vec![2, 0, 1], Activation::Identity, 0),
        Err(Error::InvalidTopology)
    ));
}

#[test]
fn set_weight_and_bias_feed_the_forward_pass() {
    // out = bias + in0 * w(0,0) + in1 * w(1,0) = 1 + 5*2 + 7*3 = 32
    let mut net: Net<i64> = Net::new(&vec![2, 1], Activation::Identity, 0).unwrap();
    net.set_weight(0, 0, 0, 2).unwrap();
    net.set_weight(0, 1, 0, 3).unwrap();
    net.set_bias(0, 0, 1).unwrap();
    assert_eq!(net.calculate(&vec![5, 7]).unwrap(), vec![32]);
}

#[test]
fn layers_chain_output_into_input() {
    let mut net: Net<i64> = Net::new(&vec![2, 2, 1], Activation::Identity, 0).unwrap();
    // first layer: [a, b] -> [a + 2b, 3a + 4b]
    net.set_weight(0, 0, 0, 1).unwrap();
    net.set_weight(0, 0, 1, 3).unwrap();
    net.set_weight(0, 1, 0, 2).unwrap();
    net.set_weight(0, 1, 1, 4).unwrap();
    // second layer sums its two inputs
    net.set_weight(1, 0, 0, 1).unwrap();
    net.set_weight(1, 1, 0, 1).unwrap();
    // [1, 1] -> [3, 7] -> [10]
    assert_eq!(net.calculate(&vec![1, 1]).unwrap(), vec![10]);
}

#[test]
fn net_setters_reject_bad_layer_index() {
    let mut net: Net<i64> = Net::new(&vec![2, 1], Activation::Identity, 0).unwrap();
    assert_eq!(net.set_weight(1, 0, 0, 9), Err(Error::IndexOutOfBounds));
    assert_eq!(net.set_bias(1, 0, 9), Err(Error::IndexOutOfBounds));
    assert_eq!(net.set_weight(0, 2, 0, 9), Err(Error::IndexOutOfBounds));
    assert_eq!(net.set_bias(0, 1, 9), Err(Error::IndexOutOfBounds));
    assert_eq!(net.calculate(&vec![1, 1]).unwrap(), vec![0]);
}

#[test]
fn randomize_weights_rejects_wrong_shapes() {
    let mut net: Net<i64> = Net::new(&vec![2, 2], Activation::Identity, 0).unwrap();
    // one inner vector per layer is required
    assert_eq!(net.randomize_weights(&vec![]), Err(Error::DimensionMismatch));
    // layer 0 consumes 2*2 weights + 2 biases = 6 values
    assert_eq!(net.randomize_weights(&vec![vec![1, 2, 3]]), Err(Error::DimensionMismatch));
    assert_eq!(net.calculate(&vec![0, 0]).unwrap(), vec![0, 0]);
    assert_eq!(net.randomize_weights(&vec![vec![1, 2, 3, 4, 5, 6]]), Ok(()));
    // weights row-major first, then biases
    assert_eq!(net.calculate(&vec![0, 0]).unwrap(), vec![5, 6]);
    assert_eq!(net.calculate(&vec![1, 0]).unwrap(), vec![5 + 1, 6 + 2]);
}

#[test]
fn fresh_draws_give_fresh_weights() {
    // refilling twice from a non-repeating source changes the weights
    let mut rng = rand::thread_rng();
    let mut net: Net<i64> = Net::new(&vec![2, 2, 1], Activation::Identity, 0).unwrap();
    let counts = [2 * 2 + 2, 2 * 1 + 1];
    let mut draw = |rng: &mut rand::rngs::ThreadRng| -> Vec<Vec<i64>> {
        counts.iter().map(|&c| (0..c).map(|_| rng.gen_range(i64::MIN..i64::MAX)).collect()).collect()
    };
    let first = draw(&mut rng);
    let second = draw(&mut rng);
    net.randomize_weights(&first).unwrap();
    let weights_after_first: Vec<i64> =
        (0..2).map(|i| *net.layers[0].weights.index(i, 0).unwrap()).collect();
    net.randomize_weights(&second).unwrap();
    let weights_after_second: Vec<i64> =
        (0..2).map(|i| *net.layers[0].weights.index(i, 0).unwrap()).collect();
    // a non-repeating source gives non-repeating draws, and the refill is
    // faithful to its draws, so the two states differ
    assert_ne!(first, second);
    assert_ne!(weights_after_first, weights_after_second);
    assert_eq!(net.layers[1].biases[0], second[1][2]);
}
