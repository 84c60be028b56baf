//! Permutations of `[0, n)` and the facts about them that the operators need.
use vstd::prelude::*;

verus! {

/// `s` lists every index of `[0, n)` exactly once.
pub open spec fn is_perm(s: Seq<usize>, n: nat) -> bool {
    &&& s.len() == n
    &&& s.no_duplicates()
    &&& forall|i: int| 0 <= i < s.len() ==> s[i] < n
}

/// The indices below `n`.
pub open spec fn below(n: nat) -> Set<usize> {
    Set::new(|v: usize| v < n)
}

/// `s` with the entries at `i` and `j` exchanged.
pub open spec fn swapped(s: Seq<usize>, i: int, j: int) -> Seq<usize> {
    s.update(i, s[j]).update(j, s[i])
}

/// The entries of `s` that `taken` does not hold, in their order in `s`.
pub open spec fn without(s: Seq<usize>, taken: Seq<usize>) -> Seq<usize>
    decreases s.len(),
{
    if s.len() == 0 {
        Seq::empty()
    } else {
        let rest = without(s.drop_last(), taken);
        if taken.contains(s.last()) {
            rest
        } else {
            rest.push(s.last())
        }
    }
}

/// The child order: the mother's first `point` genes, then the father's
/// genes that the prefix lacks, in the father's order.
pub open spec fn crossover_order(mother: Seq<usize>, father: Seq<usize>, point: nat) -> Seq<usize> {
    mother.take(point as int) + without(father, mother.take(point as int))
}

pub proof fn lemma_below_len(n: nat)
    requires
        n <= usize::MAX + 1,
    ensures
        below(n).finite(),
        below(n).len() == n,
    decreases n,
{
    if n == 0 {
        assert(below(0) =~= Set::empty());
    } else {
        let m = (n - 1) as nat;
        lemma_below_len(m);
        assert(below(n) =~= below(m).insert(m as usize));
    }
}

/// A permutation of `[0, n)` holds each index below `n`.
pub proof fn lemma_perm_covers(s: Seq<usize>, n: nat)
    requires
        is_perm(s, n),
        n <= usize::MAX + 1,
    ensures
        forall|v: usize| v < n ==> #[trigger] s.contains(v),
{
    lemma_below_len(n);
    s.unique_seq_to_set();
    assert(s.to_set().subset_of(below(n)));
    vstd::set_lib::lemma_subset_equality(s.to_set(), below(n));
    assert forall|v: usize| v < n implies #[trigger] s.contains(v) by {
        assert(below(n).contains(v));
        assert(s.to_set().contains(v));
    }
}

/// A sequence without duplicates of indices below `n` that holds each of
/// them has length `n`.
pub proof fn lemma_covering_len(s: Seq<usize>, n: nat)
    requires
        s.no_duplicates(),
        forall|i: int| 0 <= i < s.len() ==> s[i] < n,
        forall|v: usize| v < n ==> #[trigger] s.contains(v),
        n <= usize::MAX + 1,
    ensures
        s.len() == n,
{
    lemma_below_len(n);
    s.unique_seq_to_set();
    assert(s.to_set() =~= below(n)) by {
        assert forall|v: usize| s.to_set().contains(v) implies below(n).contains(v) by {
            let i = choose|i: int| 0 <= i < s.len() && s[i] == v;
        }
    }
}

pub proof fn lemma_without(s: Seq<usize>, taken: Seq<usize>)
    ensures
        forall|v: usize| #[trigger] without(s, taken).contains(v) <==> (s.contains(v) && !taken.contains(v)),
        s.no_duplicates() ==> without(s, taken).no_duplicates(),
    decreases s.len(),
{
    if s.len() > 0 {
        let p = s.drop_last();
        lemma_without(p, taken);
        assert(s =~= p.push(s.last()));
        let l = s.last();
        assert forall|v: usize| #[trigger] s.contains(v) <==> (p.contains(v) || v == l) by {
            if s.contains(v) {
                let i = choose|i: int| 0 <= i < s.len() && s[i] == v;
                if i < s.len() - 1 {
                    assert(p[i] == v);
                }
            }
            if p.contains(v) {
                let i = choose|i: int| 0 <= i < p.len() && p[i] == v;
                assert(s[i] == v);
            }
            if v == l {
                assert(s[s.len() - 1] == v);
            }
        }
        if !taken.contains(l) {
            let wp = without(p, taken);
            assert forall|v: usize| #[trigger] wp.push(l).contains(v) <==> (wp.contains(v) || v == l) by {
                if wp.push(l).contains(v) {
                    let i = choose|i: int| 0 <= i < wp.len() + 1 && wp.push(l)[i] == v;
                    if i < wp.len() {
                        assert(wp[i] == v);
                    }
                }
                if wp.contains(v) {
                    let i = choose|i: int| 0 <= i < wp.len() && wp[i] == v;
                    assert(wp.push(l)[i] == v);
                }
                if v == l {
                    assert(wp.push(l)[wp.len() as int] == v);
                }
            }
        }
        if s.no_duplicates() {
            assert(p.no_duplicates());
            if !taken.contains(s.last()) {
                assert(!p.contains(s.last()));
                assert(!without(p, taken).contains(s.last()));
            }
        }
    } else {
        assert(without(s, taken) =~= Seq::empty());
    }
}

/// Crossing two permutations of `[0, n)` at a point in `[0, n]` gives a
/// permutation of `[0, n)`.
pub proof fn lemma_crossover_is_perm(mother: Seq<usize>, father: Seq<usize>, point: nat, n: nat)
    requires
        is_perm(mother, n),
        is_perm(father, n),
        point <= n,
        n <= usize::MAX + 1,
    ensures
        is_perm(crossover_order(mother, father, point), n),
{
    let prefix = mother.take(point as int);
    let rest = without(father, prefix);
    let c = crossover_order(mother, father, point);
    lemma_without(father, prefix);
    lemma_perm_covers(father, n);
    assert(prefix.no_duplicates());
    assert forall|i: int, j: int| 0 <= i < prefix.len() && 0 <= j < rest.len() implies prefix[i] != rest[j] by {
        assert(rest.contains(rest[j]));
        assert(prefix.contains(prefix[i]));
    }
    vstd::seq_lib::lemma_no_dup_in_concat(prefix, rest);
    assert forall|i: int| 0 <= i < c.len() implies c[i] < n by {
        if i >= prefix.len() {
            let v = rest[i - prefix.len()];
            assert(rest.contains(v));
            let k = choose|k: int| 0 <= k < father.len() && father[k] == v;
        }
    }
    assert forall|v: usize| v < n implies #[trigger] c.contains(v) by {
        assert(father.contains(v));
        if prefix.contains(v) {
            let k = choose|k: int| 0 <= k < prefix.len() && prefix[k] == v;
            assert(c[k] == v);
        } else {
            assert(rest.contains(v));
            let k = choose|k: int| 0 <= k < rest.len() && rest[k] == v;
            assert(c[prefix.len() + k] == v);
        }
    }
    lemma_covering_len(c, n);
}

/// Exchanging two entries of a permutation gives a permutation.
pub proof fn lemma_swap_is_perm(s: Seq<usize>, i: int, j: int, n: nat)
    requires
        is_perm(s, n),
        0 <= i < s.len(),
        0 <= j < s.len(),
    ensures
        is_perm(swapped(s, i, j), n),
{
    let t = swapped(s, i, j);
    assert forall|a: int, b: int| 0 <= a < t.len() && 0 <= b < t.len() && a != b implies t[a] != t[b] by {
        let sa = if a == i { j } else if a == j { i } else { a };
        let sb = if b == i { j } else if b == j { i } else { b };
        assert(t[a] == s[sa]);
        assert(t[b] == s[sb]);
    }
}

/// A shuffle of a permutation of `[0, n)` is a permutation of `[0, n)`.
pub proof fn lemma_shuffle_is_perm(s: Seq<usize>, t: Seq<usize>, n: nat)
    requires
        is_perm(s, n),
        t.to_multiset() == s.to_multiset(),
    ensures
        is_perm(t, n),
{
    broadcast use vstd::seq_lib::group_to_multiset_ensures;

    vstd::seq_lib::to_multiset_len(s);
    vstd::seq_lib::to_multiset_len(t);
    s.lemma_multiset_has_no_duplicates();
    t.lemma_multiset_has_no_duplicates_conv();
    assert forall|i: int| 0 <= i < t.len() implies t[i] < n by {
        assert(t.contains(t[i]));
        assert(t.to_multiset().count(t[i]) > 0);
        assert(s.contains(t[i]));
    }
}

/// Crossing at point 0 takes nothing from the mother: the child is the
/// father's order.
pub proof fn crossover_at_start_is_father(mother: Seq<usize>, father: Seq<usize>)
    ensures
        crossover_order(mother, father, 0) == father,
{
    let empty = mother.take(0);
    lemma_without_nothing(father, empty);
    assert(crossover_order(mother, father, 0) =~= father);
}

/// Crossing permutations of `[0, n)` at point `n` gives the mother's order.
pub proof fn crossover_at_end_is_mother(mother: Seq<usize>, father: Seq<usize>, n: nat)
    requires
        is_perm(mother, n),
        is_perm(father, n),
        n <= usize::MAX + 1,
    ensures
        crossover_order(mother, father, n) == mother,
{
    lemma_perm_covers(mother, n);
    let prefix = mother.take(n as int);
    assert(prefix =~= mother);
    let rest = without(father, prefix);
    lemma_without(father, prefix);
    if rest.len() > 0 {
        assert(rest.contains(rest[0]));
        let k = choose|k: int| 0 <= k < father.len() && father[k] == rest[0];
        assert(mother.contains(father[k]));
    }
    assert(crossover_order(mother, father, n) =~= mother);
}

proof fn lemma_without_nothing(s: Seq<usize>, taken: Seq<usize>)
    requires
        taken.len() == 0,
    ensures
        without(s, taken) == s,
    decreases s.len(),
{
    if s.len() > 0 {
        lemma_without_nothing(s.drop_last(), taken);
        assert(s.drop_last().push(s.last()) =~= s);
    } else {
        assert(without(s, taken) =~= s);
    }
}

/// Swapping a position with itself leaves the order as it was.
pub proof fn swap_in_place_is_identity(s: Seq<usize>, i: int)
    requires
        0 <= i < s.len(),
    ensures
        swapped(s, i, i) == s,
{
    assert(swapped(s, i, i) =~= s);
}

} // verus!
