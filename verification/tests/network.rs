use pmc::errors::Error;
use pmc::fixed::SCALE;
use pmc::network::Network;
use pmc::network::WEIGHT_MAX;
use pmc::network::WEIGHT_MIN;
use pmc::network::Mode;
use pmc::random::RandomSource;

fn collect_weights(net: &Network, topology: &[usize]) -> Vec<i64> {
    let mut all = Vec::new();
    for l in 1..topology.len() {
        for i in 0..topology[l - 1] + 1 {
            for j in 0..topology[l] + 1 {
                all.push(net.get(l, i, j).unwrap());
            }
        }
    }
    all
}

#[test]
fn should_create_pmc() {
    let topology = vec![2usize, 3, 1];
    let mut rng = RandomSource::from_seed(11);
    let net = Network::create(&topology, &mut rng).unwrap();

    assert_eq!(3, net.layer_count());

    // The transition into layer 0 is a degenerate 0-by-0 placeholder.
    assert_eq!(Err(Error::IndexOutOfBounds), net.get(0, 0, 0));

    // Every allocated weight lies in the initializer's range.
    for w in collect_weights(&net, &topology) {
        assert!(WEIGHT_MIN <= w && w <= WEIGHT_MAX);
    }
}

#[test]
fn should_train_and_compute_pmc() {
    let topology = vec![2usize, 3, 1];
    let mut rng = RandomSource::from_seed(12);
    let mut net = Network::create(&topology, &mut rng).unwrap();

    let inputs = vec![SCALE, 2 * SCALE];
    let outputs = vec![SCALE];

    net.train(&inputs, &outputs, Mode::Classification).unwrap();
    let value = net.compute(&inputs, Mode::Classification).unwrap()[0];

    assert!(-SCALE <= value && value <= SCALE);
}

#[test]
fn create_rejects_invalid_topologies() {
    let mut rng = RandomSource::from_seed(1);
    assert_eq!(
        Network::create(&vec![], &mut rng).unwrap_err(),
        Error::InvalidTopology
    );
    assert_eq!(
        Network::create(&vec![5usize], &mut rng).unwrap_err(),
        Error::InvalidTopology
    );
    assert_eq!(
        Network::create(&vec![2usize, 0, 1], &mut rng).unwrap_err(),
        Error::InvalidTopology
    );
    assert_eq!(
        Network::create(&vec![2usize, 1 << 20], &mut rng).unwrap_err(),
        Error::InvalidTopology
    );
}

#[test]
fn initial_weights_lie_in_the_draw_range() {
    for seed in [0u64, 7, 99, 1234] {
        let topology = vec![3usize, 4, 2];
        let mut rng = RandomSource::from_seed(seed);
        let net = Network::create(&topology, &mut rng).unwrap();
        for w in collect_weights(&net, &topology) {
            assert!(WEIGHT_MIN <= w && w <= WEIGHT_MAX);
        }
    }
}

#[test]
fn initial_weights_are_actually_drawn() {
    // A draw that handed one of its bounds back unchanged would leave
    // every weight equal to that bound.
    let topology = vec![4usize, 4];
    let mut rng = RandomSource::from_seed(21);
    let net = Network::create(&topology, &mut rng).unwrap();
    let all = collect_weights(&net, &topology);
    assert!(all.iter().any(|w| *w != WEIGHT_MIN));
    assert!(all.iter().any(|w| *w != WEIGHT_MAX));
}

#[test]
fn get_and_set_are_bounds_checked() {
    let topology = vec![2usize, 1];
    let mut rng = RandomSource::from_seed(3);
    let mut net = Network::create(&topology, &mut rng).unwrap();

    // Matrix 1 is (2 + 1) x (1 + 1).
    assert!(net.get(1, 2, 1).is_ok());
    assert_eq!(Err(Error::IndexOutOfBounds), net.get(1, 3, 0));
    assert_eq!(Err(Error::IndexOutOfBounds), net.get(1, 0, 2));
    assert_eq!(Err(Error::IndexOutOfBounds), net.get(2, 0, 0));
    assert_eq!(Err(Error::IndexOutOfBounds), net.set(2, 0, 0, 0));

    net.set(1, 2, 1, 1234).unwrap();
    assert_eq!(Ok(1234), net.get(1, 2, 1));
}

#[test]
fn error_kinds_have_names() {
    assert_eq!("invalid topology", Error::InvalidTopology.describe());
    assert_eq!("dimension mismatch", Error::DimensionMismatch.describe());
    assert_eq!("index out of bounds", Error::IndexOutOfBounds.describe());
    assert_eq!("use after destroy", Error::UseAfterDestroy.describe());
}
