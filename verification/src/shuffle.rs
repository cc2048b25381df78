//! The source of randomness behind the word queue: a seeded generator and
//! the one thing asked of it, to put a list of positions into a random
//! order.

use rand::rngs::StdRng;
use rand::seq::SliceRandom;
use rand::SeedableRng;
use vstd::prelude::*;

verus! {

/// `rand::rngs::StdRng`, the standard generator of `rand`. The library
/// keeps one and hands it back to `rand`; it never looks inside.
#[verifier::external_type_specification]
#[verifier::external_body]
pub struct ExStdRng(StdRng);

/// Builds the generator that `rand` derives from a 64-bit seed, by
/// `SeedableRng::seed_from_u64` on `StdRng`. Nothing is claimed of its state.
#[verifier::external_body]
fn seeded_rng(seed: u64) -> StdRng {
    StdRng::seed_from_u64(seed)
}

/// Reorders `order` in place with `SliceRandom::shuffle` of `rand`. That
/// function only swaps elements of the slice, so the contract claims that
/// the elements afterwards are the elements before, each as often as
/// before. Which order comes out is left open.
#[verifier::external_body]
fn shuffle_in_place(order: &mut Vec<usize>, rng: &mut StdRng)
    ensures
        final(order)@.to_multiset() == old(order)@.to_multiset(),
{
    order.shuffle(rng);
}

/// A source of shuffles that is started from a seed, so that a run can be
/// repeated.
pub struct Shuffler {
    rng: StdRng,
}

impl Shuffler {
    /// Makes a shuffler from a seed.
    pub fn new(seed: u64) -> Shuffler {
        Shuffler { rng: seeded_rng(seed) }
    }

    /// Puts `order` into a random order. Nothing is added and nothing is
    /// lost: what comes out is a rearrangement of what went in.
    pub fn shuffle(&mut self, order: &mut Vec<usize>)
        ensures
            final(order)@.to_multiset() == old(order)@.to_multiset(),
            final(order)@.len() == old(order)@.len(),
    {
        let ghost before = order@;
        shuffle_in_place(order, &mut self.rng);
        proof {
            before.to_multiset_ensures();
            order@.to_multiset_ensures();
        }
    }
}

/// Whether `order` lists each of the positions `0`, ..., `n - 1` once.
pub open spec fn is_permutation(order: Seq<usize>, n: nat) -> bool {
    &&& order.len() == n
    &&& order.no_duplicates()
    &&& forall|i: int| 0 <= i < order.len() ==> #[trigger] order[i] < n
}

/// A rearrangement of a permutation is a permutation.
pub proof fn lemma_rearranged_permutation(before: Seq<usize>, after: Seq<usize>, n: nat)
    requires
        is_permutation(before, n),
        after.to_multiset() == before.to_multiset(),
    ensures
        is_permutation(after, n),
{
    before.to_multiset_ensures();
    after.to_multiset_ensures();
    before.lemma_multiset_has_no_duplicates();
    after.lemma_multiset_has_no_duplicates_conv();
    assert forall|i: int| 0 <= i < after.len() implies #[trigger] after[i] < n by {
        assert(after.contains(after[i]));
        assert(before.to_multiset().count(after[i]) > 0);
        assert(before.contains(after[i]));
    }
}

/// The items of `list` taken in the order that `order` gives.
pub open spec fn rearranged<A>(list: Seq<A>, order: Seq<usize>) -> Seq<A> {
    Seq::new(order.len(), |i: int| list[order[i] as int])
}

/// Taking the items of a list in the order of a permutation rearranges the
/// list: every item occurs in the result as often as in the list.
pub proof fn lemma_rearranged_is_rearrangement<A>(list: Seq<A>, order: Seq<usize>)
    requires
        is_permutation(order, list.len()),
    ensures
        rearranged(list, order).len() == list.len(),
        rearranged(list, order).to_multiset() == list.to_multiset(),
    decreases list.len(),
{
    broadcast use vstd::seq_lib::group_to_multiset_ensures;

    let n = list.len() as int;
    let taken = rearranged(list, order);
    if n == 0 {
        assert(taken =~= list);
    } else {
        // Leave out the item that is taken last, and count the positions
        // behind it one down.
        let v = order[n - 1] as int;
        let shorter = list.remove(v);
        let renumbered = Seq::new(
            (n - 1) as nat,
            |i: int|
                if order[i] > v {
                    (order[i] - 1) as usize
                } else {
                    order[i]
                },
        );
        assert forall|i: int| 0 <= i < n - 1 implies order[i] != v by {
            assert(order[i] != order[n - 1]);
        }
        assert forall|i: int, j: int|
            0 <= i < renumbered.len() && 0 <= j < renumbered.len() && i != j implies renumbered[i]
            != renumbered[j] by {
            assert(order[i] != order[j]);
        }
        assert(is_permutation(renumbered, shorter.len()));
        lemma_rearranged_is_rearrangement(shorter, renumbered);
        assert(rearranged(shorter, renumbered) =~= taken.drop_last());
        assert(taken =~= taken.drop_last().push(list[v]));
        assert(list.to_multiset().count(list[v]) > 0) by {
            assert(list.contains(list[v]));
        }
        assert(taken.to_multiset() =~= list.to_multiset());
    }
}

/// The positions `0`, ..., `n - 1` in rising order.
pub fn identity_order(n: usize) -> (order: Vec<usize>)
    ensures
        order@.len() == n,
        forall|i: int| 0 <= i < n ==> order@[i] == i,
        is_permutation(order@, n as nat),
{
    let mut order: Vec<usize> = Vec::new();
    let mut i: usize = 0;
    while i < n
        invariant
            i <= n,
            order@.len() == i,
            forall|j: int| 0 <= j < i ==> order@[j] == j,
        decreases n - i,
    {
        order.push(i);
        i += 1;
    }
    order
}

} // verus!
