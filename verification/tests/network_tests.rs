use evosim::chromosome::Chromosome;
use evosim::network::LayerTopology;
use evosim::network::Network;
use rand::SeedableRng;
use rand_chacha::ChaCha8Rng;

fn topo(widths: &[usize]) -> Vec<LayerTopology> {
    let mut t: Vec<LayerTopology> = Vec::new();
    for w in widths {
        t.push(LayerTopology { neurons: *w });
    }
    t
}

#[test]
fn layer_propagates_with_relu() {
    // one layer, 3 -> 2: biases [0, 0], rows [0.1, 0.2, 0.3] and
    // [0.4, 0.5, 0.6]; on input [0.5, 0, -0.5] both sums are -0.1, so the
    // rectifier clamps both outputs to zero
    let genes = Chromosome::from_genes(vec![
        0,
        0,
        100_000,
        200_000,
        300_000,
        400_000,
        500_000,
        600_000,
    ]);
    let network = Network::from_weights(&topo(&[3, 2]), &genes);
    let out = network.propagate(&vec![500_000, 0, -500_000]);
    assert_eq!(out, vec![0, 0]);
}

#[test]
fn layer_propagates_exact_sum() {
    // one layer, 2 -> 1: bias 0.5, weights [-0.3, 0.8]; on [0.5, 1.0] the
    // output is -0.15 + 0.8 + 0.5 = 1.15 exactly
    let genes = Chromosome::from_genes(vec![500_000, -300_000, 800_000]);
    let network = Network::from_weights(&topo(&[2, 1]), &genes);
    let out = network.propagate(&vec![500_000, 1_000_000]);
    assert_eq!(out, vec![1_150_000]);
}

#[test]
fn network_propagates_layer_by_layer() {
    let genes = Chromosome::from_genes(vec![
        // first layer, 3 -> 2
        0,
        0,
        100_000,
        200_000,
        300_000,
        400_000,
        500_000,
        600_000,
        // second layer, 2 -> 1
        0,
        300_000,
        -300_000,
    ]);
    let whole = Network::from_weights(&topo(&[3, 2, 1]), &genes);
    let first = Network::from_weights(
        &topo(&[3, 2]),
        &Chromosome::from_genes(vec![0, 0, 100_000, 200_000, 300_000, 400_000, 500_000, 600_000]),
    );
    let second = Network::from_weights(
        &topo(&[2, 1]),
        &Chromosome::from_genes(vec![0, 300_000, -300_000]),
    );
    let input: Vec<i64> = vec![100_000, 200_000, 300_000];
    let expected = second.propagate(&first.propagate(&input));
    assert_eq!(whole.propagate(&input), expected);
}

#[test]
fn test_from_weights() {
    // rebuilding from a gene sequence and flattening gives it back
    let weights: Vec<i64> = vec![
        100_000,
        200_000,
        300_000,
        400_000,
        500_000,
        600_000,
        700_000,
        800_000,
    ];
    let network = Network::from_weights(&topo(&[3, 2]), &Chromosome::from_genes(weights.clone()));
    assert_eq!(network.weights(), weights);
}

#[test]
fn weight_round_trip_preserves_propagation() {
    // flatten a random network, rebuild it, and check identical outputs
    let mut rng = ChaCha8Rng::seed_from_u64(7);
    let topology = topo(&[5, 4, 2]);
    let network = Network::random(&topology, &mut rng);
    let flat = network.weights();
    let rebuilt = Network::from_weights(&topology, &Chromosome::from_genes(flat.clone()));
    assert_eq!(rebuilt.weights(), flat);
    let input: Vec<i64> = vec![250_000, -80_000, 0, 999_999, -1_000_000];
    assert_eq!(rebuilt.propagate(&input), network.propagate(&input));
}

#[test]
fn random_network_weights_within_unit() {
    let mut rng = ChaCha8Rng::seed_from_u64(1);
    let network = Network::random(&topo(&[4, 3, 2]), &mut rng);
    let flat = network.weights();
    assert_eq!(flat.len(), 3 * 5 + 2 * 4);
    for g in flat {
        assert!(-1_000_000 <= g && g <= 1_000_000);
    }
}
