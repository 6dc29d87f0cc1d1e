use evosim::config::Config;
use evosim::crossover::Crossover;
use evosim::mutation::Mutation;
use evosim::selection::Selection;
use evosim::simulation::Simulation;
use rand::SeedableRng;
use rand_chacha::ChaCha8Rng;

#[test]
fn default_config_values() {
    let config = Config::default();
    assert!(config.is_valid());
    assert_eq!(config.eye_cells, 9);
    assert_eq!(config.eye_range, 250_000);
    assert_eq!(config.brain_neurons, 9);
    assert_eq!(config.speed_min, 2_000);
    assert_eq!(config.speed_max, 600_000);
    assert_eq!(config.gen_len, 3000);
    assert_eq!(config.count_animal, 30);
    assert_eq!(config.count_food, 100);
    assert!(matches!(config.selection_method, Selection::Roulette));
    assert!(matches!(config.crossover_method, Crossover::Uniform));
    assert!(matches!(config.mutation_method, Mutation::Gaussian(10_000, 300_000)));
}

#[test]
fn random_simulation_has_configured_world() {
    let mut rng = ChaCha8Rng::seed_from_u64(5);
    let sim = Simulation::random(&mut rng, Config::default());
    assert_eq!(sim.world().animals().len(), 30);
    assert_eq!(sim.world().food().len(), 100);
    for animal in sim.world().animals() {
        assert_eq!(animal.collisions(), 0);
        assert!(2_000 <= animal.speed() && animal.speed() <= 600_000);
        let p = animal.position();
        assert!(0 <= p.x && p.x < 1_000_000);
        assert!(0 <= p.y && p.y < 1_000_000);
    }
}

#[test]
fn stepping_keeps_positions_on_the_torus() {
    let mut rng = ChaCha8Rng::seed_from_u64(9);
    let mut config = Config::default();
    config.count_animal = 5;
    config.count_food = 10;
    config.gen_len = 50;
    assert!(config.is_valid());
    let mut sim = Simulation::random(&mut rng, config);
    let mut tick: usize = 0;
    while tick < 50 {
        sim.step(&mut rng);
        for animal in sim.world().animals() {
            let p = animal.position();
            assert!(0 <= p.x && p.x < 1_000_000);
            assert!(0 <= p.y && p.y < 1_000_000);
        }
        tick += 1;
    }
}

#[test]
fn collision_counts_only_grow_within_a_generation() {
    let mut rng = ChaCha8Rng::seed_from_u64(2);
    let mut config = Config::default();
    config.count_animal = 8;
    config.count_food = 60;
    config.gen_len = 200;
    assert!(config.is_valid());
    let mut sim = Simulation::random(&mut rng, config);
    let mut previous: Vec<u64> = sim.world().animals().iter().map(|a| a.collisions()).collect();
    let mut tick: usize = 0;
    while tick < 100 {
        let stats = sim.step(&mut rng);
        assert!(stats.is_none());
        let current: Vec<u64> = sim.world().animals().iter().map(|a| a.collisions()).collect();
        for i in 0..current.len() {
            assert!(current[i] >= previous[i]);
        }
        previous = current;
        tick += 1;
    }
}

#[test]
fn generation_boundary_replaces_the_population() {
    // with the stock 3000-tick budget, step returns statistics exactly
    // once, on tick 3001, and every animal starts over at zero collisions
    let mut rng = ChaCha8Rng::seed_from_u64(0);
    let config = Config::default();
    let mut sim = Simulation::random(&mut rng, config);
    let mut boundaries: usize = 0;
    let mut tick: usize = 0;
    while tick < 3001 {
        let stats = sim.step(&mut rng);
        if tick < 3000 {
            assert!(stats.is_none());
        } else {
            assert!(stats.is_some());
        }
        if stats.is_some() {
            boundaries += 1;
            assert_eq!(sim.world().animals().len(), 30);
            for animal in sim.world().animals() {
                assert_eq!(animal.collisions(), 0);
            }
        }
        tick += 1;
    }
    assert_eq!(boundaries, 1);
}

#[test]
fn train_runs_to_the_next_boundary() {
    let mut rng = ChaCha8Rng::seed_from_u64(4);
    let mut config = Config::default();
    config.count_animal = 6;
    config.count_food = 30;
    config.gen_len = 40;
    assert!(config.is_valid());
    let mut sim = Simulation::random(&mut rng, config);
    let stats = sim.train(&mut rng);
    assert!(stats.min_fitness() <= stats.avg_fitness());
    assert!(stats.avg_fitness() <= stats.max_fitness());
    for animal in sim.world().animals() {
        assert_eq!(animal.collisions(), 0);
    }
    // fitness is the food count in fixed point, so it is a whole number
    // of units
    assert_eq!(stats.min_fitness() % 1_000_000, 0);
    assert_eq!(stats.max_fitness() % 1_000_000, 0);
}

#[test]
fn tournament_and_rank_generations_run_too() {
    let mut rng = ChaCha8Rng::seed_from_u64(6);
    let mut config = Config::default();
    config.count_animal = 4;
    config.count_food = 20;
    config.gen_len = 25;
    config.selection_method = Selection::Tournament;
    assert!(config.is_valid());
    let mut sim = Simulation::random(&mut rng, config);
    sim.train(&mut rng);
    assert_eq!(sim.world().animals().len(), 4);

    let mut config2 = Config::default();
    config2.count_animal = 4;
    config2.count_food = 20;
    config2.gen_len = 25;
    config2.selection_method = Selection::Rank;
    assert!(config2.is_valid());
    let mut sim2 = Simulation::random(&mut rng, config2);
    sim2.train(&mut rng);
    assert_eq!(sim2.world().animals().len(), 4);
}
