//! Tours: an order over the cities together with the length of that order.
use vstd::prelude::*;
use crate::city::{city_distance, distance, City};
use crate::perm::{
    crossover_order, is_perm, lemma_crossover_is_perm, lemma_swap_is_perm, swapped, without,
};
use crate::random::{draw_below, Generator};

verus! {

/// The length of the open path that visits the cities in `order`: the last
/// city is not joined back to the first.
pub open spec fn path_length(order: Seq<usize>, cities: Seq<City>) -> nat
    decreases order.len(),
{
    if order.len() < 2 {
        0
    } else {
        let n = order.len();
        path_length(order.drop_last(), cities) + distance(cities[order[n - 2] as int], cities[order[n - 1] as int])
    }
}

/// Every entry of `order` names a city of the list.
pub open spec fn indexes_into(order: Seq<usize>, cities: Seq<City>) -> bool {
    forall|i: int| 0 <= i < order.len() ==> order[i] < cities.len()
}

/// The length of a path is a function of the order and the cities alone:
/// equal inputs give equal lengths.
pub proof fn fitness_is_determined(order_a: Seq<usize>, cities_a: Seq<City>, order_b: Seq<usize>, cities_b: Seq<City>)
    requires
        order_a == order_b,
        cities_a == cities_b,
    ensures
        path_length(order_a, cities_a) == path_length(order_b, cities_b),
{
}

/// What a tour stands for: its order and the length recorded with it.
pub struct Tour {
    pub order: Seq<usize>,
    pub length: nat,
}

impl Tour {
    /// The order visits each city once, and the recorded length is the
    /// length of that order under `cities`.
    pub open spec fn fits(self, cities: Seq<City>) -> bool {
        is_perm(self.order, cities.len()) && self.length == path_length(self.order, cities)
    }
}

/// A candidate tour. Its fitness is the inverse of `length`: the shorter the
/// path, the fitter the tour.
pub struct Path {
    order: Vec<usize>,
    length: u128,
}

impl View for Path {
    type V = Tour;

    closed spec fn view(&self) -> Tour {
        Tour { order: self.order@, length: self.length as nat }
    }
}

impl Path {
    /// The measure that fitness ranks tours by: the length of the open path
    /// over `path` (fitness is its inverse, so a smaller value is fitter).
    pub fn calculate_fitness(path: &Vec<usize>, city_list: &Vec<City>) -> (r: u128)
        requires
            indexes_into(path@, city_list@),
        ensures
            r == path_length(path@, city_list@),
    {
        if path.len() < 2 {
            return 0;
        }
        let mut cost: u128 = 0;
        let mut i: usize = 1;
        while i < path.len()
            invariant
                1 <= i <= path.len(),
                indexes_into(path@, city_list@),
                cost == path_length(path@.take(i as int), city_list@),
                cost <= i * 0x2_0000_0000,
            decreases path.len() - i,
        {
            let a = &city_list[path[i - 1]];
            let b = &city_list[path[i]];
            let d = city_distance(a, b);
            proof {
                let t = path@.take(i as int + 1);
                assert(t.drop_last() =~= path@.take(i as int));
            }
            cost = cost + d as u128;
            i = i + 1;
        }
        assert(path@.take(path.len() as int) =~= path@);
        cost
    }

    /// A tour over `order`, with its length computed.
    pub fn new(order: Vec<usize>, city_list: &Vec<City>) -> (r: Path)
        requires
            indexes_into(order@, city_list@),
        ensures
            r@.order == order@,
            r@.length == path_length(order@, city_list@),
    {
        let length = Path::calculate_fitness(&order, city_list);
        Path { order, length }
    }

    pub fn order(&self) -> (r: &Vec<usize>)
        ensures
            r@ == self@.order,
    {
        &self.order
    }

    /// The length of the tour's path; fitness is its inverse.
    pub fn length(&self) -> (r: u128)
        ensures
            r == self@.length,
    {
        self.length
    }

    /// A copy of this tour.
    pub fn duplicate(&self) -> (r: Path)
        ensures
            r@ == self@,
    {
        Path { order: self.order.clone(), length: self.length }
    }

    /// The child of `mother` and `father` crossed at `point`: the mother's
    /// genes before `point`, then the father's genes that they lack, in the
    /// father's order.
    pub fn crossover_at(mother: &Vec<usize>, father: &Vec<usize>, point: usize) -> (r: Vec<usize>)
        requires
            point <= mother.len(),
        ensures
            r@ == crossover_order(mother@, father@, point as nat),
    {
        let mut child: Vec<usize> = Vec::new();
        let mut i: usize = 0;
        while i < point
            invariant
                i <= point <= mother.len(),
                child@ == mother@.take(i as int),
            decreases point - i,
        {
            child.push(mother[i]);
            i = i + 1;
            assert(child@ =~= mother@.take(i as int));
        }
        let ghost prefix = mother@.take(point as int);
        let mut j: usize = 0;
        while j < father.len()
            invariant
                point <= mother.len(),
                prefix == mother@.take(point as int),
                j <= father.len(),
                child@ == prefix + without(father@.take(j as int), prefix),
            decreases father.len() - j,
        {
            let gene = father[j];
            let taken = prefix_holds(mother, point, gene);
            proof {
                let t = father@.take(j as int + 1);
                assert(t.drop_last() =~= father@.take(j as int));
                assert(t.last() == gene);
            }
            if !taken {
                child.push(gene);
                assert(child@ =~= prefix + without(father@.take(j as int + 1), prefix));
            }
            j = j + 1;
        }
        assert(father@.take(father.len() as int) =~= father@);
        child
    }

    /// A child of `mother` and `father`, crossed at a point drawn uniformly
    /// from `[0, n)`.
    fn crossover(mother: &Vec<usize>, father: &Vec<usize>, rng: &mut Generator) -> (r: Vec<usize>)
        requires
            mother.len() > 0,
        ensures
            exists|point: nat| point < mother.len() && r@ == crossover_order(mother@, father@, point),
    {
        let point = draw_below(rng, mother.len());
        let child = Path::crossover_at(mother, father, point);
        assert(point < mother.len() && child@ == crossover_order(mother@, father@, point as nat));
        child
    }

    /// A child of this tour (the mother) and `other` (the father), with its
    /// length computed.
    pub fn breed(&self, other: &Path, city_list: &Vec<City>, rng: &mut Generator) -> (r: Path)
        requires
            self@.fits(city_list@),
            other@.fits(city_list@),
            city_list.len() > 0,
        ensures
            r@.fits(city_list@),
            exists|point: nat|
                point < city_list.len() && r@.order == crossover_order(self@.order, other@.order, point),
    {
        let order = Path::crossover(&self.order, &other.order, rng);
        let ghost point = choose|point: nat|
            point < self.order.len() && order@ == crossover_order(self.order@, other.order@, point);
        proof {
            lemma_crossover_is_perm(self.order@, other.order@, point, city_list.len() as nat);
        }
        Path::new(order, city_list)
    }

    /// Exchanges the genes at positions `i` and `j` and recomputes the length.
    pub fn swap_genes(&mut self, i: usize, j: usize, city_list: &Vec<City>)
        requires
            old(self)@.fits(city_list@),
            i < old(self)@.order.len(),
            j < old(self)@.order.len(),
        ensures
            final(self)@.fits(city_list@),
            final(self)@.order == swapped(old(self)@.order, i as int, j as int),
            i == j ==> final(self)@ == old(self)@,
    {
        proof {
            lemma_swap_is_perm(self.order@, i as int, j as int, city_list.len() as nat);
        }
        let a = self.order[i];
        let b = self.order[j];
        self.order.set(i, b);
        self.order.set(j, a);
        assert(self.order@ =~= swapped(old(self).order@, i as int, j as int));
        self.length = Path::calculate_fitness(&self.order, city_list);
        proof {
            if i == j {
                assert(self.order@ =~= old(self).order@);
            }
        }
    }

    /// Swaps the genes at two positions drawn uniformly and independently
    /// from `[0, n)` (possibly the same one) and recomputes the length.
    pub fn mutate(&mut self, city_list: &Vec<City>, rng: &mut Generator)
        requires
            old(self)@.fits(city_list@),
            city_list.len() > 0,
        ensures
            final(self)@.fits(city_list@),
            exists|i: int, j: int|
                0 <= i < city_list.len() && 0 <= j < city_list.len()
                    && final(self)@.order == swapped(old(self)@.order, i, j),
    {
        let point_one = draw_below(rng, self.order.len());
        let point_two = draw_below(rng, self.order.len());
        self.swap_genes(point_one, point_two, city_list);
        assert(self@.order == swapped(old(self)@.order, point_one as int, point_two as int));
    }
}

/// Relies on std's `slice::sort_by_key`: the tours are reordered in place,
/// shortest path first.
#[verifier::external_body]
pub(crate) fn sort_by_length(tours: &mut Vec<Path>)
    ensures
        final(tours)@.to_multiset() == old(tours)@.to_multiset(),
        forall|a: int, b: int|
            0 <= a < b < final(tours)@.len() ==> final(tours)@[a]@.length <= final(tours)@[b]@.length,
{
    tours.sort_by_key(|p: &Path| p.length)
}

/// Whether `gene` is among the first `point` genes of `mother`.
fn prefix_holds(mother: &Vec<usize>, point: usize, gene: usize) -> (r: bool)
    requires
        point <= mother.len(),
    ensures
        r == mother@.take(point as int).contains(gene),
{
    let mut k: usize = 0;
    while k < point
        invariant
            point <= mother.len(),
            forall|m: int| 0 <= m < k ==> mother@[m] != gene,
        decreases point - k,
    {
        if mother[k] == gene {
            assert(mother@.take(point as int)[k as int] == gene);
            return true;
        }
        k = k + 1;
    }
    false
}

} // verus!
