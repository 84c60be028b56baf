use rand::rngs::StdRng;
use rand::SeedableRng;
use tsp_genetic::{city_distance, City, Path};

fn unit_square() -> Vec<City> {
    vec![
        City::new(0, 0),
        City::new(0, 1000),
        City::new(1000, 1000),
        City::new(1000, 0),
    ]
}

fn is_permutation(order: &[usize], n: usize) -> bool {
    let mut seen = vec![false; n];
    if order.len() != n {
        return false;
    }
    for &g in order {
        if g >= n || seen[g] {
            return false;
        }
        seen[g] = true;
    }
    true
}

#[test]
fn distance_is_rounded_down() {
    assert_eq!(city_distance(&City::new(0, 0), &City::new(3, 4)), 5);
    assert_eq!(city_distance(&City::new(0, 0), &City::new(1, 1)), 1);
    assert_eq!(city_distance(&City::new(0, 0), &City::new(1000, 1000)), 1414);
    assert_eq!(city_distance(&City::new(-7, 2), &City::new(-7, 2)), 0);
}

#[test]
fn distance_at_coordinate_extremes() {
    let a = City::new(i32::MIN, i32::MIN);
    let b = City::new(i32::MAX, i32::MAX);
    // sqrt(2) * (2^32 - 1), rounded down
    assert_eq!(city_distance(&a, &b), 6074000998);
}

#[test]
fn fitness_of_open_square_path() {
    let cities = unit_square();
    assert_eq!(Path::calculate_fitness(&vec![0, 1, 2, 3], &cities), 3000);
    assert_eq!(Path::calculate_fitness(&vec![0, 2, 1, 3], &cities), 3828);
    assert_eq!(Path::calculate_fitness(&vec![2], &cities), 0);
}

#[test]
fn fitness_is_repeatable() {
    let cities = unit_square();
    let order = vec![3, 0, 2, 1];
    let first = Path::calculate_fitness(&order, &cities);
    let second = Path::calculate_fitness(&order.clone(), &cities);
    assert_eq!(first, second);
}

#[test]
fn crossover_example() {
    let child = Path::crossover_at(&vec![0, 1, 2, 3], &vec![3, 2, 1, 0], 2);
    assert_eq!(child, vec![0, 1, 3, 2]);
    assert!(is_permutation(&child, 4));
    let cities = unit_square();
    assert_eq!(Path::calculate_fitness(&child, &cities), 1000 + 1414 + 1000);
}

#[test]
fn crossover_at_zero_gives_father() {
    let father = vec![2, 0, 3, 1];
    assert_eq!(Path::crossover_at(&vec![0, 1, 2, 3], &father, 0), father);
}

#[test]
fn crossover_at_full_length_gives_mother() {
    let mother = vec![1, 3, 0, 2];
    assert_eq!(Path::crossover_at(&mother, &vec![3, 2, 1, 0], 4), mother);
}

#[test]
fn breed_gives_a_permutation() {
    let cities = unit_square();
    let mut rng = StdRng::seed_from_u64(11);
    let mother = Path::new(vec![0, 1, 2, 3], &cities);
    let father = Path::new(vec![3, 1, 0, 2], &cities);
    for _ in 0..20 {
        let child = mother.breed(&father, &cities, &mut rng);
        assert!(is_permutation(child.order(), 4));
        assert_eq!(child.length(), Path::calculate_fitness(child.order(), &cities));
        // the child starts with a prefix of the mother shorter than the whole
        assert!(child.order()[0] == 0 || child.order() == father.order());
    }
}

#[test]
fn mutation_with_equal_positions_changes_nothing() {
    let cities = unit_square();
    let mut p = Path::new(vec![0, 2, 1, 3], &cities);
    let before = p.length();
    p.swap_genes(1, 1, &cities);
    assert_eq!(p.order(), &vec![0, 2, 1, 3]);
    assert_eq!(p.length(), before);
}

#[test]
fn swap_genes_exchanges_and_rescores() {
    let cities = unit_square();
    let mut p = Path::new(vec![0, 2, 1, 3], &cities);
    assert_eq!(p.length(), 3828);
    p.swap_genes(1, 2, &cities);
    assert_eq!(p.order(), &vec![0, 1, 2, 3]);
    assert_eq!(p.length(), 3000);
}

#[test]
fn mutate_keeps_a_permutation_and_sometimes_moves_genes() {
    let cities: Vec<City> = (0..8).map(|i| City::new(i * 10, (i * i) % 7)).collect();
    let mut rng = StdRng::seed_from_u64(5);
    let mut p = Path::new((0..8).collect(), &cities);
    let mut changed = false;
    for _ in 0..30 {
        let before = p.order().clone();
        p.mutate(&cities, &mut rng);
        assert!(is_permutation(p.order(), 8));
        assert_eq!(p.length(), Path::calculate_fitness(p.order(), &cities));
        if p.order() != &before {
            changed = true;
        }
    }
    assert!(changed);
}

#[test]
fn duplicate_copies_the_tour() {
    let cities = unit_square();
    let p = Path::new(vec![3, 2, 1, 0], &cities);
    let q = p.duplicate();
    assert_eq!(q.order(), p.order());
    assert_eq!(q.length(), p.length());
}
