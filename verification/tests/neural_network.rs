use evonet::Error;
use evonet::SCALE;
use evonet::network::{Layer, LayerTopology, Network, Neuron};
use evonet::random::RandomSource;

fn topology(sizes: &[usize]) -> Vec<LayerTopology> {
    sizes.iter().map(|&neurons| LayerTopology { neurons }).collect()
}

#[test]
fn lib_neuron() {
    // bias 0.5, weights [-0.3, 0.8], in ticks of 1/1_000_000.
    let neuron = Neuron::new(500_000, vec![-300_000, 800_000]);

    // Strongly negative inputs engage the zero floor.
    assert_eq!(neuron.propagate(&vec![-10_000_000, -10_000_000]).unwrap(), 0);

    // (-0.3 * 0.5) + (0.8 * 1.0) + 0.5 == 1.15
    assert_eq!(neuron.propagate(&vec![500_000, 1_000_000]).unwrap(), 1_150_000);
}

#[test]
fn lib_layer() {
    let neurons = vec![
        Neuron::new(0, vec![100_000, 200_000, 300_000]),
        Neuron::new(0, vec![400_000, 500_000, 600_000]),
    ];
    let inputs = vec![-500_000, 0, 500_000];

    let expected = vec![
        neurons[0].propagate(&inputs).unwrap(),
        neurons[1].propagate(&inputs).unwrap(),
    ];
    let layer = Layer::new(neurons);

    assert_eq!(layer.propagate(&inputs).unwrap(), expected);
}

#[test]
fn lib_network() {
    let first = Layer::new(vec![
        Neuron::new(0, vec![-500_000, -400_000, -300_000]),
        Neuron::new(0, vec![-200_000, -100_000, 0]),
    ]);
    let second = Layer::new(vec![Neuron::new(0, vec![-500_000, 500_000])]);

    let inputs = vec![500_000, 600_000, 700_000];
    let expected = second
        .propagate(&first.propagate(&inputs).unwrap())
        .unwrap();

    let network = Network::new(vec![first, second]);
    assert_eq!(network.propagate(inputs).unwrap(), expected);
}

#[test]
fn random_neuron() {
    let mut rng = RandomSource::from_seed(0);
    let neuron = Neuron::random(&mut rng, 3);
    let genes = Network::new(vec![Layer::new(vec![neuron])]).weights();

    assert_eq!(genes.len(), 4);
    for gene in genes {
        assert!(-SCALE <= gene && gene <= SCALE);
    }
}

#[test]
fn random_layer() {
    let mut rng = RandomSource::from_seed(0);
    let layer = Layer::random(&mut rng, 3, 2);
    let genes = Network::new(vec![layer]).weights();

    assert_eq!(genes.len(), 8);
    for gene in genes {
        assert!(-SCALE <= gene && gene <= SCALE);
    }
}

#[test]
fn random_network() {
    let build = || {
        let mut rng = RandomSource::from_seed(5);
        Network::random(&mut rng, &topology(&[3, 2, 1])).unwrap()
    };

    let network = build();
    let genes = network.weights();
    // (1 + 3) * 2 + (1 + 2) * 1 genes.
    assert_eq!(genes.len(), 11);
    for &gene in &genes {
        assert!(-SCALE <= gene && gene <= SCALE);
    }

    // A fixed seed reproduces the exact same network.
    assert_eq!(build().weights(), genes);
}

#[test]
fn random_network_rejects_short_topology() {
    let mut rng = RandomSource::from_seed(0);
    assert_eq!(
        Network::random(&mut rng, &topology(&[4])).unwrap_err(),
        Error::InvalidTopology,
    );
    assert_eq!(
        Network::random(&mut rng, &topology(&[])).unwrap_err(),
        Error::InvalidTopology,
    );
}

#[test]
fn from_weights_rejects_short_topology() {
    assert_eq!(
        Network::from_weights(&topology(&[4]), &vec![0; 100]).unwrap_err(),
        Error::InvalidTopology,
    );
}

#[test]
fn from_weights_rejects_short_gene_sequences() {
    // [2, 1] needs (1 + 2) * 1 == 3 genes.
    assert_eq!(
        Network::from_weights(&topology(&[2, 1]), &vec![1, 2]).unwrap_err(),
        Error::ChromosomeLengthMismatch,
    );
}

#[test]
fn from_weights_consumes_genes_in_declared_order() {
    let genes = vec![
        500_000, -300_000, 800_000, // first layer, first neuron
        -100_000, 250_000, -250_000, // first layer, second neuron
        0, 1_000_000, -1_000_000, // second layer, only neuron
    ];
    let network = Network::from_weights(&topology(&[2, 2, 1]), &genes).unwrap();
    assert_eq!(network.weights(), genes);
}

#[test]
fn from_weights_ignores_trailing_genes() {
    let genes = vec![500_000, -300_000, 800_000, 77, 88];
    let network = Network::from_weights(&topology(&[2, 1]), &genes).unwrap();
    assert_eq!(network.weights(), vec![500_000, -300_000, 800_000]);
}

#[test]
fn decode_of_encode_propagates_identically() {
    let mut rng = RandomSource::from_seed(11);
    let network = Network::random(&mut rng, &topology(&[3, 5, 4, 2])).unwrap();

    let rebuilt = Network::from_weights(&network.topology(), &network.weights()).unwrap();

    let inputs = [
        vec![0, 0, 0],
        vec![1_000_000, -1_000_000, 500_000],
        vec![-750_000, 250_000, 333_333],
    ];
    for input in inputs {
        assert_eq!(
            rebuilt.propagate(input.clone()).unwrap(),
            network.propagate(input).unwrap(),
        );
    }
}

#[test]
fn propagate_rejects_wrong_input_width() {
    let mut rng = RandomSource::from_seed(2);
    let network = Network::random(&mut rng, &topology(&[3, 2])).unwrap();
    assert_eq!(
        network.propagate(vec![1, 2]).unwrap_err(),
        Error::InputSizeMismatch,
    );
    let neuron = Neuron::new(0, vec![1, 2]);
    assert_eq!(
        neuron.propagate(&vec![1]).unwrap_err(),
        Error::InputSizeMismatch,
    );
}
