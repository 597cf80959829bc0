//! Ordering by rank: a stable sort that hands out the order as a permutation
//! of positions.

use vstd::prelude::*;

verus! {

/// What a list is ordered by: three numbers, compared one after the other.
/// The lower rank comes first.
#[derive(Clone, Copy, Debug, PartialEq, Eq, Structural)]
pub struct Rank {
    pub first: i64,
    pub second: i64,
    pub third: i64,
}

/// `a` comes before `b`: it is lower in the first number that differs.
pub open spec fn rank_lt(a: Rank, b: Rank) -> bool {
    ||| a.first < b.first
    ||| (a.first == b.first && a.second < b.second)
    ||| (a.first == b.first && a.second == b.second && a.third < b.third)
}

/// `a` does not come after `b`.
pub open spec fn rank_le(a: Rank, b: Rank) -> bool {
    !rank_lt(b, a)
}

/// `order` names the position `v` somewhere.
pub open spec fn names(order: Seq<usize>, v: int) -> bool {
    exists|i: int| 0 <= i < order.len() && #[trigger] order[i] == v
}

/// `order` names each position below `n` exactly once.
pub open spec fn is_permutation(order: Seq<usize>, n: nat) -> bool {
    &&& order.len() == n
    &&& forall|i: int| 0 <= i < n ==> (#[trigger] order[i]) < n
    &&& forall|i: int, j: int| 0 <= i < j < n ==> order[i] != order[j]
    &&& forall|v: int| 0 <= v < n ==> #[trigger] names(order, v)
}

/// `out` holds the items of `src` in the order that `order` gives: at each
/// position the item of `src` that `order` names there.
pub open spec fn arranges<A>(order: Seq<usize>, src: Seq<A>, out: Seq<A>) -> bool {
    &&& is_permutation(order, src.len())
    &&& out.len() == src.len()
    &&& forall|i: int| 0 <= i < out.len() ==> out[i] == src[order[i] as int]
}

/// `out` holds the items of `src`, each as often as `src` does, in some order.
pub open spec fn is_reordering<A>(out: Seq<A>, src: Seq<A>) -> bool {
    exists|order: Seq<usize>| arranges(order, src, out)
}

/// `order` puts the ranks in rising order, and leaves items of one rank in the
/// order they came in.
pub open spec fn sorts(order: Seq<usize>, ranks: Seq<Rank>) -> bool {
    &&& is_permutation(order, ranks.len())
    &&& forall|i: int, j: int|
        0 <= i < j < order.len() ==> rank_le(
            #[trigger] ranks[order[i] as int],
            #[trigger] ranks[order[j] as int],
        )
    &&& forall|i: int, j: int|
        0 <= i < j < order.len() && !rank_lt(
            #[trigger] ranks[order[i] as int],
            #[trigger] ranks[order[j] as int],
        ) ==> order[i] < order[j]
}

/// What a list can be ordered by: values of which one comes before another,
/// or neither comes before the other.
pub trait SortKey: Sized {
    /// `self` comes before `other`.
    spec fn precedes(self, other: Self) -> bool;

    /// Whether `self` comes before `other`.
    fn is_before(&self, other: &Self) -> (r: bool)
        ensures
            r == self.precedes(*other),
    ;

    /// Coming before is an order: nothing comes before itself; what comes
    /// before something that comes before a third comes before the third; and
    /// so it is with not coming before.
    proof fn lemma_precedes_is_an_order(a: Self, b: Self, c: Self)
        ensures
            !a.precedes(a),
            a.precedes(b) && b.precedes(c) ==> a.precedes(c),
            !a.precedes(b) && !b.precedes(c) ==> !a.precedes(c),
    ;
}

impl SortKey for Rank {
    open spec fn precedes(self, other: Self) -> bool {
        rank_lt(self, other)
    }

    fn is_before(&self, other: &Self) -> (r: bool) {
        self.first < other.first || (self.first == other.first && self.second < other.second) || (
        self.first == other.first && self.second == other.second && self.third < other.third)
    }

    proof fn lemma_precedes_is_an_order(a: Self, b: Self, c: Self) {
    }
}

/// `order` puts the keys in rising order, and leaves items of which neither
/// comes before the other in the order they came in.
pub open spec fn sorts_by<K: SortKey>(order: Seq<usize>, keys: Seq<K>) -> bool {
    &&& is_permutation(order, keys.len())
    &&& forall|i: int, j: int|
        0 <= i < j < order.len() ==> !(#[trigger] keys[order[j] as int]).precedes(
            #[trigger] keys[order[i] as int],
        )
    &&& forall|i: int, j: int|
        0 <= i < j < order.len() && !(#[trigger] keys[order[i] as int]).precedes(
            #[trigger] keys[order[j] as int],
        ) ==> order[i] < order[j]
}

/// The order that sorts the given keys: the positions of the keys, the first
/// key first, keys of which neither comes before the other in the order they
/// came in.
pub fn sorted_order_by<K: SortKey>(keys: &Vec<K>) -> (order: Vec<usize>)
    ensures
        sorts_by(order@, keys@),
{
    let mut order: Vec<usize> = Vec::new();
    let ghost mut place: Seq<int> = Seq::empty();
    let mut k: usize = 0;
    while k < keys.len()
        invariant
            k <= keys.len(),
            order.len() == k,
            place.len() == k,
            forall|i: int| 0 <= i < k ==> (#[trigger] order[i]) < k,
            forall|i: int, j: int| 0 <= i < j < k ==> order[i] != order[j],
            forall|v: int| 0 <= v < k ==> 0 <= #[trigger] place[v] < k && order[place[v]] == v,
            forall|i: int, j: int|
                0 <= i < j < k ==> !(#[trigger] keys[order[j] as int]).precedes(
                    #[trigger] keys[order[i] as int],
                ),
            forall|i: int, j: int|
                0 <= i < j < k && !(#[trigger] keys[order[i] as int]).precedes(
                    #[trigger] keys[order[j] as int],
                ) ==> order[i] < order[j],
        decreases keys.len() - k,
    {
        let mut at: usize = k;
        while at > 0 && keys[k].is_before(&keys[order[at - 1]])
            invariant
                at <= k < keys.len(),
                order.len() == k,
                forall|i: int| 0 <= i < k ==> (#[trigger] order[i]) < k,
                forall|j: int| at <= j < k ==> keys[k as int].precedes(keys[order[j] as int]),
            decreases at,
        {
            at = at - 1;
        }
        let ghost before = order@;
        let ghost old_place = place;
        order.insert(at, k);
        proof {
            place = Seq::new(
                (k + 1) as nat,
                |v: int|
                    if v == k {
                        at as int
                    } else if old_place[v] >= at {
                        old_place[v] + 1
                    } else {
                        old_place[v]
                    },
            );
            assert(forall|i: int| 0 <= i < at ==> order[i] == before[i]);
            assert(forall|i: int| at < i <= k ==> order[i] == before[i - 1]);
            assert forall|i: int, j: int| 0 <= i < j < k + 1 implies !(
            #[trigger] keys[order[j] as int]).precedes(#[trigger] keys[order[i] as int]) by {
                if j == at {
                    assert(!keys[k as int].precedes(keys[before[at - 1] as int]));
                    if i < at - 1 {
                        assert(!keys[before[at - 1] as int].precedes(keys[before[i] as int]));
                        K::lemma_precedes_is_an_order(
                            keys[k as int],
                            keys[before[at - 1] as int],
                            keys[before[i] as int],
                        );
                    }
                } else if i == at {
                    assert(keys[k as int].precedes(keys[before[j - 1] as int]));
                    K::lemma_precedes_is_an_order(
                        keys[k as int],
                        keys[before[j - 1] as int],
                        keys[k as int],
                    );
                } else {
                    let bi = if i < at {
                        i
                    } else {
                        i - 1
                    };
                    let bj = if j < at {
                        j
                    } else {
                        j - 1
                    };
                    assert(!keys[before[bj] as int].precedes(keys[before[bi] as int]));
                }
            }
            assert forall|i: int, j: int|
                0 <= i < j < k + 1 && !(#[trigger] keys[order[i] as int]).precedes(
                    #[trigger] keys[order[j] as int],
                ) implies order[i] < order[j] by {
                if j == at {
                    assert(before[i] < k);
                } else if i == at {
                    assert(keys[k as int].precedes(keys[before[j - 1] as int]));
                } else {
                    let bi = if i < at {
                        i
                    } else {
                        i - 1
                    };
                    let bj = if j < at {
                        j
                    } else {
                        j - 1
                    };
                    assert(!keys[before[bi] as int].precedes(keys[before[bj] as int]));
                }
            }
            assert forall|i: int, j: int| 0 <= i < j < k + 1 implies order[i] != order[j] by {
                let bi = if i < at {
                    i
                } else {
                    i - 1
                };
                let bj = if j < at {
                    j
                } else {
                    j - 1
                };
                if i != at && j != at {
                    assert(before[bi] != before[bj]);
                } else if i == at {
                    assert(before[bj] < k);
                } else {
                    assert(before[bi] < k);
                }
            }
            assert forall|v: int| 0 <= v < k + 1 implies 0 <= #[trigger] place[v] < k + 1
                && order[place[v]] == v by {
                if v < k {
                    assert(before[old_place[v]] == v);
                }
            }
        }
        k = k + 1;
    }
    proof {
        assert forall|v: int| 0 <= v < keys.len() implies #[trigger] names(order@, v) by {
            assert(order[place[v]] == v);
        }
    }
    order
}

/// The order that sorts the given ranks: the positions of the ranks, lowest
/// rank first, equal ranks in the order they came in.
pub fn sorted_order(ranks: &Vec<Rank>) -> (order: Vec<usize>)
    ensures
        sorts(order@, ranks@),
{
    let order = sorted_order_by(ranks);
    proof {
        assert forall|i: int, j: int| 0 <= i < j < order.len() implies rank_le(
            #[trigger] ranks[order[i] as int],
            #[trigger] ranks[order[j] as int],
        ) by {
            assert(!ranks[order[j] as int].precedes(ranks[order[i] as int]));
        }
        assert forall|i: int, j: int|
            0 <= i < j < order.len() && !rank_lt(
                #[trigger] ranks[order[i] as int],
                #[trigger] ranks[order[j] as int],
            ) implies order[i] < order[j] by {
            assert(!ranks[order[i] as int].precedes(ranks[order[j] as int]));
        }
    }
    order
}

/// A permutation names every position: the position at which it names `v`.
pub proof fn lemma_permutation_reaches(order: Seq<usize>, n: nat, v: int) -> (i: int)
    requires
        is_permutation(order, n),
        0 <= v < n,
    ensures
        0 <= i < n,
        order[i] == v,
{
    assert(names(order, v));
    choose|i: int| 0 <= i < n && #[trigger] order[i] == v
}

} // verus!
