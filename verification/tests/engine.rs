use pmc::errors::Error;
use pmc::fixed::SCALE;
use pmc::network::Network;
use pmc::network::Mode;
use pmc::random::RandomSource;

fn weights_of(net: &Network, topology: &[usize]) -> Vec<i64> {
    let mut all = Vec::new();
    for l in 1..topology.len() {
        for i in 0..topology[l - 1] + 1 {
            for j in 0..topology[l] + 1 {
                all.push(net.get(l, i, j).unwrap());
            }
        }
    }
    all
}

#[test]
fn identity_regression_returns_its_input() {
    // Topology [1, 1], weight(1, 0, 0) = 0 and weight(1, 1, 0+1) = 1
    // make the single regression output the identity of its input.
    let topology = vec![1usize, 1];
    let mut rng = RandomSource::from_seed(5);
    let mut net = Network::create(&topology, &mut rng).unwrap();

    // Column 0 of matrix 1 is the bias slot of the output layer; the
    // real output neuron sits in column 1.
    net.set(1, 0, 1, 0).unwrap();
    net.set(1, 1, 1, SCALE).unwrap();

    let out = net.compute(&vec![5 * SCALE], Mode::Regression).unwrap();
    assert_eq!(vec![5 * SCALE], out);
}

#[test]
fn affine_regression_is_exact() {
    // out = w(1,0,1) * 1.0 + w(1,1,1) * input = 0.5 + 1.0 * 2.0 = 2.5.
    let topology = vec![1usize, 1];
    let mut rng = RandomSource::from_seed(6);
    let mut net = Network::create(&topology, &mut rng).unwrap();

    net.set(1, 0, 1, SCALE / 2).unwrap();
    net.set(1, 1, 1, SCALE).unwrap();

    let out = net.compute(&vec![2 * SCALE], Mode::Regression).unwrap();
    assert_eq!(vec![5 * SCALE / 2], out);
}

#[test]
fn saturating_activation_is_exact_at_one() {
    // In classification mode the output neuron saturates its weighted
    // sum x through x / (1 + |x|); at x = 1.0 that is exactly 0.5.
    let topology = vec![1usize, 1];
    let mut rng = RandomSource::from_seed(6);
    let mut net = Network::create(&topology, &mut rng).unwrap();

    net.set(1, 0, 1, 0).unwrap();
    net.set(1, 1, 1, SCALE).unwrap();

    let out = net.compute(&vec![SCALE], Mode::Classification).unwrap();
    assert_eq!(vec![SCALE / 2], out);
}

#[test]
fn compute_is_pure() {
    let topology = vec![2usize, 3, 1];
    let mut rng = RandomSource::from_seed(17);
    let net = Network::create(&topology, &mut rng).unwrap();

    let input = vec![SCALE / 2, -SCALE / 4];
    let first = net.compute(&input, Mode::Classification).unwrap();
    let second = net.compute(&input, Mode::Classification).unwrap();
    assert_eq!(first, second);

    let third = net.compute(&input, Mode::Regression).unwrap();
    let fourth = net.compute(&input, Mode::Regression).unwrap();
    assert_eq!(third, fourth);
}

#[test]
fn one_training_step_moves_the_weights() {
    let topology = vec![2usize, 3, 1];
    let mut rng = RandomSource::from_seed(42);
    let mut net = Network::create(&topology, &mut rng).unwrap();

    let input = vec![SCALE, 2 * SCALE];
    let target = vec![SCALE];

    let bias_column = |net: &Network| {
        let mut col = Vec::new();
        for l in 1..topology.len() {
            for i in 0..topology[l - 1] + 1 {
                col.push(net.get(l, i, 0).unwrap());
            }
        }
        col
    };

    let before = weights_of(&net, &topology);
    let bias_before = bias_column(&net);
    net.train(&input, &target, Mode::Classification).unwrap();
    let after = weights_of(&net, &topology);

    let value = net.compute(&input, Mode::Classification).unwrap()[0];
    assert!(-SCALE <= value && value <= SCALE);

    assert!(before.iter().zip(after.iter()).any(|(b, a)| b != a));

    // The incoming weights of each layer's bias slot (column 0) never
    // move: the bias activation is pinned, so its delta is exactly zero.
    assert_eq!(bias_before, bias_column(&net));
}

#[test]
fn dimension_mismatch_is_reported_and_mutates_nothing() {
    let topology = vec![2usize, 3, 1];
    let mut rng = RandomSource::from_seed(8);
    let mut net = Network::create(&topology, &mut rng).unwrap();
    let before = weights_of(&net, &topology);

    // Input length differs from topology[0].
    assert_eq!(
        Err(Error::DimensionMismatch),
        net.train(&vec![SCALE], &vec![SCALE], Mode::Classification)
    );
    // Target length differs from topology[last].
    assert_eq!(
        Err(Error::DimensionMismatch),
        net.train(&vec![SCALE, SCALE], &vec![SCALE, SCALE], Mode::Regression)
    );
    assert!(net.compute(&vec![SCALE], Mode::Classification).is_err());

    assert_eq!(before, weights_of(&net, &topology));
}

#[test]
fn training_reduces_the_squared_error() {
    // One linear neuron, regression mode: each step scales the residual
    // by about 1 - 0.1 * (1 + x * x), well inside the unit circle here.
    for seed in [1u64, 2, 3, 10, 77, 1000] {
        let topology = vec![1usize, 1];
        let mut rng = RandomSource::from_seed(seed);
        let mut net = Network::create(&topology, &mut rng).unwrap();

        let input = vec![SCALE];
        let target = vec![5 * SCALE];

        let sq = |net: &Network| {
            let out = net.compute(&input, Mode::Regression).unwrap()[0];
            let e = out - 5 * SCALE;
            e * e
        };

        let before = sq(&net);
        net.train(&input, &target, Mode::Regression).unwrap();
        let after = sq(&net);
        assert!(after < before, "seed {seed}: {after} !< {before}");
    }
}

#[test]
fn classification_output_saturates_on_large_inputs() {
    let topology = vec![2usize, 4, 2];
    let mut rng = RandomSource::from_seed(13);
    let net = Network::create(&topology, &mut rng).unwrap();

    let input = vec![10_000 * SCALE, -10_000 * SCALE];
    let out = net.compute(&input, Mode::Classification).unwrap();
    assert_eq!(2, out.len());
    for v in out {
        assert!(-SCALE <= v && v <= SCALE);
    }
}
