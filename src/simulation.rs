//! The evolution engine: a population of tours bred over a fixed number of
//! generations.
use vstd::prelude::*;
use crate::city::City;
use crate::path::{sort_by_length, Path, Tour};
use crate::perm::{crossover_order, is_perm, lemma_shuffle_is_perm, swapped};
use crate::random::{draw_below, draw_chance, seeded_rng, shuffle_in_place, Generator};

verus! {

/// How many of the weakest tours each generation carries over unchanged.
pub const SURVIVING_WEAK_COUNT: usize = 2;

/// A fraction `numerator / denominator`; a valid rate lies in `[0, 1]`.
#[derive(Clone, Copy, Debug)]
pub struct Rate {
    pub numerator: u32,
    pub denominator: u32,
}

impl Rate {
    pub open spec fn valid(self) -> bool {
        0 < self.denominator && self.numerator <= self.denominator
    }

    pub fn new(numerator: u32, denominator: u32) -> (r: Rate)
        ensures
            r.numerator == numerator,
            r.denominator == denominator,
    {
        Rate { numerator, denominator }
    }
}

/// Why a simulation could not be set up. All but `TooFewCities` are faults
/// of the configuration.
#[derive(Clone, Copy, Debug, PartialEq, Eq, Structural)]
pub enum SimulationError {
    /// Fewer than two cities: a path needs at least one edge.
    TooFewCities,
    /// A rate lies outside `[0, 1]` or has a zero denominator.
    RateOutOfRange,
    /// The population is no larger than the number of weak survivors.
    PopulationTooSmall,
    /// The crossover rate leaves no tour to breed from.
    EmptyBreedingPool,
    /// The elites and weak survivors leave no room in the population.
    NoRoomForOffspring,
}

/// `count * rate`, rounded down.
pub open spec fn scaled(count: nat, rate: Rate) -> nat {
    ((count * rate.numerator) / (rate.denominator as int)) as nat
}

/// The size of the breeding pool: the fittest `population * crossover` tours.
pub open spec fn breeding_count(population: nat, crossover: Rate) -> nat {
    scaled(population, crossover)
}

/// How many of the fittest tours pass unchanged to the next generation.
pub open spec fn surviving_parent_count(population: nat, crossover: Rate, survival: Rate) -> nat {
    scaled(breeding_count(population, crossover), survival)
}

/// The fault of a configuration, checked in this order, or `None`.
pub open spec fn config_error(
    population: nat,
    city_count: nat,
    crossover: Rate,
    mutation: Rate,
    survival: Rate,
) -> Option<SimulationError> {
    if city_count < 2 {
        Some(SimulationError::TooFewCities)
    } else if !crossover.valid() || !mutation.valid() || !survival.valid() {
        Some(SimulationError::RateOutOfRange)
    } else if population <= SURVIVING_WEAK_COUNT {
        Some(SimulationError::PopulationTooSmall)
    } else if breeding_count(population, crossover) == 0 {
        Some(SimulationError::EmptyBreedingPool)
    } else if surviving_parent_count(population, crossover, survival) + SURVIVING_WEAK_COUNT > population {
        Some(SimulationError::NoRoomForOffspring)
    } else {
        None
    }
}

/// `ranked` holds the tours of `tours`, shortest path first.
pub open spec fn is_ranking(ranked: Seq<Path>, tours: Seq<Path>) -> bool {
    &&& ranked.to_multiset() == tours.to_multiset()
    &&& forall|a: int, b: int| 0 <= a < b < ranked.len() ==> ranked[a]@.length <= ranked[b]@.length
}

/// `order` is a child of `mother` and one of the first `breeding` tours of
/// `pool`, crossed at a point inside the order.
pub open spec fn is_child_of(order: Seq<usize>, mother: Seq<usize>, pool: Seq<Path>, breeding: nat) -> bool {
    exists|f: int, point: nat|
        0 <= f < breeding && point < mother.len() && order == #[trigger] crossover_order(mother, pool[f]@.order, point)
}

/// `order` is `base`, or `base` with two of its entries exchanged.
pub open spec fn is_mutant_of(order: Seq<usize>, base: Seq<usize>) -> bool {
    order == base || exists|i: int, j: int|
        0 <= i < base.len() && 0 <= j < base.len() && order == #[trigger] swapped(base, i, j)
}

/// `order` came from `base` by the mutation step at `mutation`: it is
/// `base` or one swap away, and it is `base` itself when the rate is zero.
pub open spec fn mutated_from(order: Seq<usize>, base: Seq<usize>, mutation: Rate) -> bool {
    is_mutant_of(order, base) && (mutation.numerator == 0 ==> order == base)
}

/// Position `k` of a generation bred from `ranked`: the elites and the
/// weakest tours keep their places, and every other place holds a child of
/// the breeding pool whose mother is taken round-robin; each may then have
/// mutated.
pub open spec fn bred_at(
    next: Path,
    k: int,
    ranked: Seq<Path>,
    breeding: nat,
    survivors: nat,
    mutation: Rate,
) -> bool {
    if k < survivors || k >= ranked.len() - SURVIVING_WEAK_COUNT {
        mutated_from(next@.order, ranked[k]@.order, mutation)
    } else {
        exists|child: Seq<usize>|
            is_child_of(child, ranked[(k - survivors) % (breeding as int)]@.order, ranked, breeding)
                && #[trigger] mutated_from(next@.order, child, mutation)
    }
}

/// `next` is a generation bred from `ranked`.
pub open spec fn bred_from(next: Seq<Path>, ranked: Seq<Path>, breeding: nat, survivors: nat, mutation: Rate) -> bool {
    &&& next.len() == ranked.len()
    &&& forall|k: int| 0 <= k < next.len() ==> bred_at(#[trigger] next[k], k, ranked, breeding, survivors, mutation)
}

/// `next` is a generation bred from `prev` under the given rates: some
/// ranking of `prev` gives elites, children and weak survivors as above.
pub open spec fn is_generation_step(prev: Seq<Path>, next: Seq<Path>, crossover: Rate, mutation: Rate, survival: Rate) -> bool {
    exists|ranked: Seq<Path>|
        #[trigger] is_ranking(ranked, prev) && bred_from(
            next,
            ranked,
            breeding_count(prev.len(), crossover),
            surviving_parent_count(prev.len(), crossover, survival),
            mutation,
        )
}

/// Tour `k` of `tours` is the first of the shortest.
pub open spec fn is_first_fittest(tours: Seq<Path>, k: int) -> bool {
    &&& 0 <= k < tours.len()
    &&& forall|j: int| 0 <= j < tours.len() ==> tours[k]@.length <= (#[trigger] tours[j])@.length
    &&& forall|j: int| 0 <= j < k ==> (#[trigger] tours[j])@.length > tours[k]@.length
}

/// `best` is the fittest tour seen over the generations of `history`: the
/// first of the shortest tours in the earliest generation that holds one of
/// the shortest lengths.
pub open spec fn is_best_seen(best: Tour, history: Seq<Seq<Path>>) -> bool {
    exists|g: int, k: int|
        0 <= g < history.len() && is_first_fittest(history[g], k) && best == (#[trigger] history[g][k])@
            && (forall|h: int, j: int|
            0 <= h < history.len() && 0 <= j < history[h].len() ==> best.length <= (#[trigger] history[h][j])@.length)
            && (forall|h: int, j: int|
            0 <= h < g && 0 <= j < history[h].len() ==> best.length < (#[trigger] history[h][j])@.length)
}

/// The evolution engine.
pub struct Simulation {
    population: Vec<Path>,
    city_list: Vec<City>,
    max_iterations: usize,
    crossover_rate: Rate,
    mutation_rate: Rate,
    survival_rate: Rate,
    rng: Generator,
}

impl Simulation {
    pub closed spec fn tours(&self) -> Seq<Path> {
        self.population@
    }

    pub closed spec fn cities(&self) -> Seq<City> {
        self.city_list@
    }

    pub closed spec fn iterations(&self) -> nat {
        self.max_iterations as nat
    }

    pub closed spec fn crossover(&self) -> Rate {
        self.crossover_rate
    }

    pub closed spec fn mutation(&self) -> Rate {
        self.mutation_rate
    }

    pub closed spec fn survival(&self) -> Rate {
        self.survival_rate
    }

    /// The configuration is valid and every tour fits the city list.
    pub open spec fn wf(&self) -> bool {
        &&& config_error(
            self.tours().len(),
            self.cities().len(),
            self.crossover(),
            self.mutation(),
            self.survival(),
        ) is None
        &&& forall|k: int| 0 <= k < self.tours().len() ==> (#[trigger] self.tours()[k])@.fits(self.cities())
    }

    /// An engine over `city_list`, with a population of `population_size`
    /// shuffled tours, drawing its randomness from a generator seeded with
    /// `seed`. The configuration is checked before anything else is done.
    pub fn new(
        population_size: usize,
        city_list: Vec<City>,
        max_iterations: usize,
        crossover_rate: Rate,
        mutation_rate: Rate,
        survival_rate: Rate,
        seed: u64,
    ) -> (r: Result<Simulation, SimulationError>)
        ensures
            match r {
                Ok(sim) => {
                    &&& config_error(
                        population_size as nat,
                        city_list@.len(),
                        crossover_rate,
                        mutation_rate,
                        survival_rate,
                    ) is None
                    &&& sim.wf()
                    &&& sim.tours().len() == population_size
                    &&& sim.cities() == city_list@
                    &&& sim.iterations() == max_iterations
                    &&& sim.crossover() == crossover_rate
                    &&& sim.mutation() == mutation_rate
                    &&& sim.survival() == survival_rate
                },
                Err(e) => config_error(
                    population_size as nat,
                    city_list@.len(),
                    crossover_rate,
                    mutation_rate,
                    survival_rate,
                ) == Some(e),
            },
    {
        if city_list.len() < 2 {
            return Err(SimulationError::TooFewCities);
        }
        if !(0 < crossover_rate.denominator && crossover_rate.numerator <= crossover_rate.denominator)
            || !(0 < mutation_rate.denominator && mutation_rate.numerator <= mutation_rate.denominator)
            || !(0 < survival_rate.denominator && survival_rate.numerator <= survival_rate.denominator) {
            return Err(SimulationError::RateOutOfRange);
        }
        if population_size <= SURVIVING_WEAK_COUNT {
            return Err(SimulationError::PopulationTooSmall);
        }
        let breeding = scaled_count(population_size, crossover_rate);
        if breeding == 0 {
            return Err(SimulationError::EmptyBreedingPool);
        }
        let survivors = scaled_count(breeding, survival_rate);
        if survivors > population_size - SURVIVING_WEAK_COUNT {
            return Err(SimulationError::NoRoomForOffspring);
        }
        let mut rng = seeded_rng(seed);
        let population = Simulation::initial_population(&city_list, population_size, &mut rng);
        Ok(
            Simulation {
                population,
                city_list,
                max_iterations,
                crossover_rate,
                mutation_rate,
                survival_rate,
                rng,
            },
        )
    }

    /// `population_count` tours, each an independent shuffle of the cities.
    pub fn initial_population(city_list: &Vec<City>, population_count: usize, rng: &mut Generator) -> (r: Vec<Path>)
        ensures
            r@.len() == population_count,
            forall|k: int| 0 <= k < r@.len() ==> (#[trigger] r@[k])@.fits(city_list@),
    {
        let base_list = identity_order(city_list.len());
        let mut population: Vec<Path> = Vec::new();
        let mut i: usize = 0;
        while i < population_count
            invariant
                i <= population_count,
                population@.len() == i,
                is_perm(base_list@, city_list@.len()),
                forall|k: int| 0 <= k < population@.len() ==> (#[trigger] population@[k])@.fits(city_list@),
            decreases population_count - i,
        {
            let mut order = base_list.clone();
            assert(order@ == base_list@);
            shuffle_in_place(rng, &mut order);
            proof {
                lemma_shuffle_is_perm(base_list@, order@, city_list@.len());
            }
            let tour = Path::new(order, city_list);
            population.push(tour);
            i = i + 1;
        }
        population
    }

    /// The fittest tour of the population: the first of those with the
    /// shortest path.
    pub fn find_fittest(&self) -> (r: Path)
        requires
            self.wf(),
        ensures
            r@.fits(self.cities()),
            forall|k: int| 0 <= k < self.tours().len() ==> r@.length <= (#[trigger] self.tours()[k])@.length,
            exists|k: int| is_first_fittest(self.tours(), k) && r@ == (#[trigger] self.tours()[k])@,
    {
        let mut best: usize = 0;
        let mut i: usize = 1;
        while i < self.population.len()
            invariant
                self.wf(),
                1 <= i <= self.population.len(),
                best < i,
                forall|k: int| 0 <= k < i ==> self.population@[best as int]@.length <= (#[trigger] self.population@[k])@.length,
                forall|k: int| 0 <= k < best ==> (#[trigger] self.population@[k])@.length > self.population@[best as int]@.length,
            decreases self.population.len() - i,
        {
            if self.population[i].length() < self.population[best].length() {
                best = i;
            }
            i = i + 1;
        }
        let r = self.population[best].duplicate();
        assert(r@ == self.tours()[best as int]@);
        assert(is_first_fittest(self.tours(), best as int));
        r
    }

    /// Replaces the population by the next generation: rank the tours,
    /// keep the elites, breed children from the breeding pool, keep the two
    /// weakest, and give every member a chance to mutate.
    pub fn generate_next_generation(&mut self)
        requires
            old(self).wf(),
        ensures
            final(self).wf(),
            final(self).tours().len() == old(self).tours().len(),
            final(self).cities() == old(self).cities(),
            final(self).iterations() == old(self).iterations(),
            final(self).crossover() == old(self).crossover(),
            final(self).mutation() == old(self).mutation(),
            final(self).survival() == old(self).survival(),
            is_generation_step(
                old(self).tours(),
                final(self).tours(),
                old(self).crossover(),
                old(self).mutation(),
                old(self).survival(),
            ),
    {
        let ghost before = self.population@;
        sort_by_length(&mut self.population);
        let ghost ranked = self.population@;
        proof {
            lemma_ranking_fits(ranked, before, self.city_list@);
        }
        let n = self.population.len();
        let breeding = scaled_count(n, self.crossover_rate);
        let survivors = scaled_count(breeding, self.survival_rate);
        let mut next: Vec<Path> = Vec::new();
        let mut k: usize = 0;
        while k < n
            invariant
                self.population@ == ranked,
                self.city_list@ == old(self).city_list@,
                self.max_iterations == old(self).max_iterations,
                self.crossover_rate == old(self).crossover_rate,
                self.mutation_rate == old(self).mutation_rate,
                self.survival_rate == old(self).survival_rate,
                n == ranked.len(),
                k <= n,
                next@.len() == k,
                0 < breeding <= n,
                survivors + SURVIVING_WEAK_COUNT <= n,
                self.city_list@.len() >= 2,
                self.mutation_rate.valid(),
                forall|m: int| 0 <= m < ranked.len() ==> (#[trigger] ranked[m])@.fits(self.city_list@),
                forall|m: int| 0 <= m < k ==> (#[trigger] next@[m])@.fits(self.city_list@),
                forall|m: int| 0 <= m < k ==> bred_at(#[trigger] next@[m], m, ranked, breeding as nat, survivors as nat, self.mutation_rate),
            decreases n - k,
        {
            let tour = if k < survivors || k >= n - SURVIVING_WEAK_COUNT {
                self.population[k].duplicate()
            } else {
                let mother = (k - survivors) % breeding;
                let father = draw_below(&mut self.rng, breeding);
                let child = self.population[mother].breed(&self.population[father], &self.city_list, &mut self.rng);
                let ghost point = choose|point: nat|
                    point < self.city_list@.len() && child@.order == crossover_order(
                        ranked[mother as int]@.order,
                        ranked[father as int]@.order,
                        point,
                    );
                assert(is_child_of(child@.order, ranked[mother as int]@.order, ranked, breeding as nat)) by {
                    assert(child@.order == crossover_order(ranked[mother as int]@.order, ranked[father as int]@.order, point));
                }
                child
            };
            let ghost base = tour@;
            let tour = perhaps_mutate(tour, &self.city_list, self.mutation_rate, &mut self.rng);
            proof {
                if !(k < survivors || k >= n - SURVIVING_WEAK_COUNT) {
                    assert(mutated_from(tour@.order, base.order, self.mutation_rate));
                }
            }
            next.push(tour);
            assert(bred_at(next@[k as int], k as int, ranked, breeding as nat, survivors as nat, self.mutation_rate));
            k = k + 1;
        }
        self.population = next;
        assert(bred_from(self.population@, ranked, breeding as nat, survivors as nat, self.mutation_rate));
        assert(is_ranking(ranked, before));
        assert(before == old(self).tours());
        assert(breeding == breeding_count(old(self).tours().len(), old(self).crossover()));
        assert(survivors == surviving_parent_count(old(self).tours().len(), old(self).crossover(), old(self).survival()));
        assert(is_ranking(ranked, old(self).tours()));
    }

    /// Runs the generation transition `max_iterations` times and returns
    /// the fittest tour seen: the initial population's, replaced only by a
    /// strictly fitter tour of a later generation.
    pub fn run(&mut self) -> (r: Path)
        requires
            old(self).wf(),
        ensures
            final(self).wf(),
            final(self).tours().len() == old(self).tours().len(),
            final(self).cities() == old(self).cities(),
            final(self).iterations() == old(self).iterations(),
            final(self).crossover() == old(self).crossover(),
            final(self).mutation() == old(self).mutation(),
            final(self).survival() == old(self).survival(),
            r@.fits(old(self).cities()),
            exists|history: Seq<Seq<Path>>|
                {
                    &&& history.len() == old(self).iterations() + 1
                    &&& history[0] == old(self).tours()
                    &&& history.last() == final(self).tours()
                    &&& forall|g: int|
                        0 <= g < old(self).iterations() ==> is_generation_step(
                            #[trigger] history[g],
                            history[g + 1],
                            old(self).crossover(),
                            old(self).mutation(),
                            old(self).survival(),
                        )
                    &&& is_best_seen(r@, history)
                },
    {
        let mut fittest = self.find_fittest();
        let ghost first_k = choose|k: int| is_first_fittest(self.tours(), k) && fittest@ == (#[trigger] self.tours()[k])@;
        let ghost mut history: Seq<Seq<Path>> = seq![self.population@];
        let ghost mut best_g: int = 0;
        let ghost mut best_k: int = first_k;
        let mut i: usize = 0;
        while i < self.max_iterations
            invariant
                self.wf(),
                self.tours().len() == old(self).tours().len(),
                self.cities() == old(self).cities(),
                self.iterations() == old(self).iterations(),
                self.crossover() == old(self).crossover(),
                self.mutation() == old(self).mutation(),
                self.survival() == old(self).survival(),
                i <= self.max_iterations,
                fittest@.fits(self.cities()),
                history.len() == i + 1,
                history[0] == old(self).tours(),
                history.last() == self.tours(),
                forall|g: int|
                    0 <= g < i ==> is_generation_step(
                        #[trigger] history[g],
                        history[g + 1],
                        old(self).crossover(),
                        old(self).mutation(),
                        old(self).survival(),
                    ),
                0 <= best_g < history.len(),
                is_first_fittest(history[best_g], best_k),
                fittest@ == history[best_g][best_k]@,
                forall|h: int, j: int|
                    0 <= h < history.len() && 0 <= j < history[h].len() ==> fittest@.length <= (#[trigger] history[h][j])@.length,
                forall|h: int, j: int|
                    0 <= h < best_g && 0 <= j < history[h].len() ==> fittest@.length < (#[trigger] history[h][j])@.length,
            decreases self.max_iterations - i,
        {
            self.generate_next_generation();
            let challenger = self.find_fittest();
            let ghost ck = choose|k: int| is_first_fittest(self.tours(), k) && challenger@ == (#[trigger] self.tours()[k])@;
            let ghost prev = history;
            proof {
                history = history.push(self.population@);
                assert(history[i as int] == prev.last());
                assert forall|g: int|
                    0 <= g < i + 1 implies is_generation_step(
                        #[trigger] history[g],
                        history[g + 1],
                        old(self).crossover(),
                        old(self).mutation(),
                        old(self).survival(),
                    ) by {
                    if g < i {
                        assert(history[g] == prev[g]);
                        assert(history[g + 1] == prev[g + 1]);
                    }
                }
            }
            let ghost improved = challenger@.length < fittest@.length;
            fittest = record_best(fittest, challenger);
            proof {
                if improved {
                    best_g = i + 1;
                    best_k = ck;
                }
                assert forall|h: int, j: int|
                    0 <= h < history.len() && 0 <= j < history[h].len() implies fittest@.length <= (#[trigger] history[h][j])@.length by {
                    if h < i + 1 {
                        assert(history[h] == prev[h]);
                    }
                }
                assert forall|h: int, j: int|
                    0 <= h < best_g && 0 <= j < history[h].len() implies fittest@.length < (#[trigger] history[h][j])@.length by {
                    if h < i + 1 {
                        assert(history[h] == prev[h]);
                    }
                }
                if !improved {
                    assert(history[best_g] == prev[best_g]);
                }
            }
            i = i + 1;
        }
        assert(is_best_seen(fittest@, history));
        fittest
    }

    /// The current population.
    pub fn population(&self) -> (r: &Vec<Path>)
        ensures
            r@ == self.tours(),
    {
        &self.population
    }

    pub fn city_list(&self) -> (r: &Vec<City>)
        ensures
            r@ == self.cities(),
    {
        &self.city_list
    }

    pub fn max_iterations(&self) -> (r: usize)
        ensures
            r == self.iterations(),
    {
        self.max_iterations
    }
}

/// `count * rate`, rounded down.
pub fn scaled_count(count: usize, rate: Rate) -> (r: usize)
    requires
        rate.valid(),
    ensures
        r == scaled(count as nat, rate),
        r <= count,
{
    assert(count as u128 * rate.numerator as u128 <= u128::MAX) by (nonlinear_arith)
        requires
            count <= usize::MAX,
            rate.numerator <= u32::MAX,
    ;
    let product: u128 = count as u128 * rate.numerator as u128;
    let r: u128 = product / rate.denominator as u128;
    assert(r <= count) by (nonlinear_arith)
        requires
            r as int == product as int / (rate.denominator as int),
            product as int == count * rate.numerator,
            rate.numerator <= rate.denominator,
            rate.denominator > 0,
    ;
    r as usize
}

/// Of the best tour so far and a challenger, the one to keep: the
/// challenger only when it is strictly fitter, so the best length never grows.
pub fn record_best(best: Path, challenger: Path) -> (r: Path)
    ensures
        r@ == (if challenger@.length < best@.length { challenger@ } else { best@ }),
        r@.length <= best@.length,
        r@.length <= challenger@.length,
{
    if challenger.length() < best.length() {
        challenger
    } else {
        best
    }
}

proof fn lemma_ranking_fits(ranked: Seq<Path>, tours: Seq<Path>, cities: Seq<City>)
    requires
        ranked.to_multiset() == tours.to_multiset(),
        forall|k: int| 0 <= k < tours.len() ==> (#[trigger] tours[k])@.fits(cities),
    ensures
        ranked.len() == tours.len(),
        forall|k: int| 0 <= k < ranked.len() ==> (#[trigger] ranked[k])@.fits(cities),
{
    broadcast use vstd::seq_lib::group_to_multiset_ensures;

    vstd::seq_lib::to_multiset_len(ranked);
    vstd::seq_lib::to_multiset_len(tours);
    assert forall|k: int| 0 <= k < ranked.len() implies (#[trigger] ranked[k])@.fits(cities) by {
        assert(ranked.contains(ranked[k]));
        assert(ranked.to_multiset().count(ranked[k]) > 0);
        assert(tours.contains(ranked[k]));
    }
}

/// The orders `[0, 1, ..., n - 1]`.
fn identity_order(n: usize) -> (r: Vec<usize>)
    ensures
        r@.len() == n,
        forall|i: int| 0 <= i < n ==> r@[i] == i,
        is_perm(r@, n as nat),
{
    let mut v: Vec<usize> = Vec::new();
    let mut i: usize = 0;
    while i < n
        invariant
            i <= n,
            v@.len() == i,
            forall|k: int| 0 <= k < i ==> v@[k] == k,
        decreases n - i,
    {
        v.push(i);
        i = i + 1;
    }
    v
}

/// Mutates `tour` when a draw with probability `rate` succeeds.
fn perhaps_mutate(tour: Path, city_list: &Vec<City>, rate: Rate, rng: &mut Generator) -> (r: Path)
    requires
        tour@.fits(city_list@),
        city_list.len() > 0,
        rate.valid(),
    ensures
        r@.fits(city_list@),
        is_mutant_of(r@.order, tour@.order),
        rate.numerator == 0 ==> r@ == tour@,
{
    let mut tour = tour;
    if draw_chance(rng, rate.numerator, rate.denominator) {
        tour.mutate(city_list, rng);
    }
    tour
}

} // verus!
