use rand::SeedableRng;
use tsp_genetic::{record_best, scaled_count, City, Path, Rate, Simulation, SimulationError};

fn unit_square() -> Vec<City> {
    vec![
        City::new(0, 0),
        City::new(0, 1000),
        City::new(1000, 1000),
        City::new(1000, 0),
    ]
}

fn is_permutation(order: &[usize], n: usize) -> bool {
    let mut seen = vec![false; n];
    if order.len() != n {
        return false;
    }
    for &g in order {
        if g >= n || seen[g] {
            return false;
        }
        seen[g] = true;
    }
    true
}

fn build(population_size: usize, cities: Vec<City>, seed: u64) -> Result<Simulation, SimulationError> {
    Simulation::new(
        population_size,
        cities,
        100,
        Rate::new(9, 10),
        Rate::new(1, 10),
        Rate::new(1, 2),
        seed,
    )
}

#[test]
fn scaled_count_rounds_down() {
    assert_eq!(scaled_count(50, Rate::new(9, 10)), 45);
    assert_eq!(scaled_count(45, Rate::new(1, 2)), 22);
    assert_eq!(scaled_count(7, Rate::new(0, 3)), 0);
    assert_eq!(scaled_count(7, Rate::new(3, 3)), 7);
    assert_eq!(scaled_count(usize::MAX, Rate::new(u32::MAX, u32::MAX)), usize::MAX);
}

#[test]
fn population_of_two_is_rejected() {
    assert_eq!(build(2, unit_square(), 1).err(), Some(SimulationError::PopulationTooSmall));
}

#[test]
fn too_few_cities_are_rejected() {
    assert_eq!(build(10, vec![City::new(1, 1)], 1).err(), Some(SimulationError::TooFewCities));
}

#[test]
fn rate_above_one_is_rejected() {
    let r = Simulation::new(10, unit_square(), 5, Rate::new(3, 2), Rate::new(1, 2), Rate::new(1, 2), 1);
    assert_eq!(r.err(), Some(SimulationError::RateOutOfRange));
    let r = Simulation::new(10, unit_square(), 5, Rate::new(1, 2), Rate::new(0, 0), Rate::new(1, 2), 1);
    assert_eq!(r.err(), Some(SimulationError::RateOutOfRange));
}

#[test]
fn empty_breeding_pool_is_rejected() {
    let r = Simulation::new(5, unit_square(), 5, Rate::new(1, 10), Rate::new(1, 2), Rate::new(1, 2), 1);
    assert_eq!(r.err(), Some(SimulationError::EmptyBreedingPool));
}

#[test]
fn full_survival_is_rejected() {
    let r = Simulation::new(5, unit_square(), 5, Rate::new(1, 1), Rate::new(1, 2), Rate::new(1, 1), 1);
    assert_eq!(r.err(), Some(SimulationError::NoRoomForOffspring));
}

#[test]
fn initial_population_is_shuffled() {
    let cities: Vec<City> = (0..8).map(|i| City::new(i * 3, i * i)).collect();
    let sim = build(20, cities, 3).unwrap();
    assert_eq!(sim.population().len(), 20);
    let identity: Vec<usize> = (0..8).collect();
    let mut any_moved = false;
    for p in sim.population() {
        assert!(is_permutation(p.order(), 8));
        assert_eq!(p.length(), Path::calculate_fitness(p.order(), sim.city_list()));
        if p.order() != &identity {
            any_moved = true;
        }
    }
    assert!(any_moved);
}

#[test]
fn population_size_is_kept_across_generations() {
    let cities: Vec<City> = (0..6).map(|i| City::new(i * 5, (i * 7) % 4)).collect();
    let mut sim = build(12, cities, 9).unwrap();
    for _ in 0..25 {
        sim.generate_next_generation();
        assert_eq!(sim.population().len(), 12);
        for p in sim.population() {
            assert!(is_permutation(p.order(), 6));
            assert_eq!(p.length(), Path::calculate_fitness(p.order(), sim.city_list()));
        }
    }
}

#[test]
fn best_tracking_never_regresses() {
    let cities: Vec<City> = (0..7).map(|i| City::new((i * 13) % 11, (i * 5) % 9)).collect();
    let mut sim = build(15, cities, 21).unwrap();
    let mut best = sim.find_fittest();
    for _ in 0..30 {
        sim.generate_next_generation();
        let previous = best.length();
        best = record_best(best, sim.find_fittest());
        assert!(best.length() <= previous);
    }
}

#[test]
fn record_best_keeps_the_incumbent_on_ties() {
    let cities = unit_square();
    let a = Path::new(vec![0, 1, 2, 3], &cities);
    let b = Path::new(vec![1, 2, 3, 0], &cities);
    let kept = record_best(a, b);
    assert_eq!(kept.order(), &vec![0, 1, 2, 3]);
    let c = Path::new(vec![0, 2, 1, 3], &cities);
    let kept = record_best(c, kept);
    assert_eq!(kept.order(), &vec![0, 1, 2, 3]);
}

#[test]
fn run_is_no_worse_than_the_start() {
    let cities: Vec<City> = (0..7).map(|i| City::new((i * 13) % 11, (i * 5) % 9)).collect();
    let mut sim = build(15, cities, 4).unwrap();
    let start = sim.find_fittest().length();
    let best = sim.run();
    assert!(best.length() <= start);
    assert!(is_permutation(best.order(), 7));
    for p in sim.population() {
        assert!(best.length() <= p.length());
    }
}

#[test]
fn unit_square_finds_a_shortest_path() {
    let mut sim = Simulation::new(50, unit_square(), 100, Rate::new(9, 10), Rate::new(1, 10), Rate::new(1, 2), 42).unwrap();
    assert_eq!(sim.max_iterations(), 100);
    let best = sim.run();
    assert_eq!(best.length(), 3000);
    assert!(is_permutation(best.order(), 4));

    let mut again = Simulation::new(50, unit_square(), 100, Rate::new(9, 10), Rate::new(1, 10), Rate::new(1, 2), 42).unwrap();
    let repeat = again.run();
    assert_eq!(repeat.order(), best.order());
    assert_eq!(repeat.length(), best.length());
}

#[test]
fn without_mutation_elites_and_weakest_carry_over() {
    let cities: Vec<City> = (0..6).map(|i| City::new(i * 9, (i * 4) % 5)).collect();
    let mut sim = Simulation::new(10, cities, 5, Rate::new(1, 2), Rate::new(0, 1), Rate::new(2, 5), 8).unwrap();
    let mut before: Vec<(u128, Vec<usize>)> =
        sim.population().iter().map(|p| (p.length(), p.order().clone())).collect();
    before.sort_by_key(|t| t.0);
    sim.generate_next_generation();
    let after = sim.population();
    assert_eq!(after.len(), 10);
    // breeding pool 5, elites 2, weak survivors 2
    for k in 0..2 {
        assert_eq!(after[k].length(), before[k].0);
    }
    for k in 8..10 {
        assert_eq!(after[k].length(), before[k].0);
    }
}

#[test]
fn initial_population_holds_permutations() {
    let cities: Vec<City> = (0..5).map(|i| City::new(i * 2, 10 - i)).collect();
    let mut rng = rand::rngs::StdRng::seed_from_u64(17);
    let tours = Simulation::initial_population(&cities, 7, &mut rng);
    assert_eq!(tours.len(), 7);
    for t in &tours {
        assert!(is_permutation(t.order(), 5));
        assert_eq!(t.length(), Path::calculate_fitness(t.order(), &cities));
    }
}

#[test]
fn zero_iterations_return_the_first_fittest() {
    let cities: Vec<City> = (0..6).map(|i| City::new((i * 7) % 5, i * 3)).collect();
    let mut sim = Simulation::new(9, cities, 0, Rate::new(1, 2), Rate::new(1, 2), Rate::new(1, 2), 2).unwrap();
    let before: Vec<Vec<usize>> = sim.population().iter().map(|p| p.order().clone()).collect();
    let expected = sim.find_fittest();
    let best = sim.run();
    assert_eq!(best.order(), expected.order());
    let after: Vec<Vec<usize>> = sim.population().iter().map(|p| p.order().clone()).collect();
    assert_eq!(before, after);
    let first = sim.population().iter().position(|p| p.length() == best.length()).unwrap();
    assert_eq!(sim.population()[first].order(), best.order());
}
