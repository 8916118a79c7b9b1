//! Sums over finite sets, as the stage totals need them.

use vstd::prelude::*;

verus! {

/// The step of the sum: add the weight of one more element.
pub open spec fn add_weight<K>(weight: spec_fn(K) -> nat) -> spec_fn(nat, K) -> nat {
    |acc: nat, k: K| acc + weight(k)
}

/// The sum of `weight` over the elements of a finite set.
pub open spec fn total<K>(keys: Set<K>, weight: spec_fn(K) -> nat) -> nat {
    keys.fold(0nat, add_weight(weight))
}

/// The order in which weights are added does not matter.
pub proof fn lemma_add_weight_commutes<K>(weight: spec_fn(K) -> nat)
    ensures
        vstd::set::fold::is_fun_commutative(add_weight(weight)),
{
    let f = add_weight(weight);
    assert forall|a1: K, a2: K, b: nat| #[trigger] f(f(b, a2), a1) == f(f(b, a1), a2) by {}
}

/// The sum over nothing is zero.
pub proof fn lemma_total_empty<K>(weight: spec_fn(K) -> nat)
    ensures
        total(Set::<K>::empty(), weight) == 0,
{
    vstd::set::fold::lemma_fold_empty::<K, nat>(0nat, add_weight(weight));
}

/// An element of the set can be taken out of the sum.
pub proof fn lemma_total_split<K>(keys: Set<K>, weight: spec_fn(K) -> nat, k: K)
    requires
        keys.finite(),
        keys.contains(k),
    ensures
        total(keys, weight) == weight(k) + total(keys.remove(k), weight),
{
    lemma_add_weight_commutes(weight);
    vstd::set::fold::lemma_fold_insert(keys.remove(k), 0nat, add_weight(weight), k);
    assert(keys.remove(k).insert(k) =~= keys);
}

/// Weights that agree on the set give the same sum.
pub proof fn lemma_total_agrees<K>(keys: Set<K>, w1: spec_fn(K) -> nat, w2: spec_fn(K) -> nat)
    requires
        keys.finite(),
        forall|k: K| keys.contains(k) ==> w1(k) == w2(k),
    ensures
        total(keys, w1) == total(keys, w2),
    decreases keys.len(),
{
    if keys.is_empty() {
        assert(keys =~= Set::<K>::empty());
        lemma_total_empty(w1);
        lemma_total_empty(w2);
    } else {
        let k = keys.choose();
        lemma_total_split(keys, w1, k);
        lemma_total_split(keys, w2, k);
        lemma_total_agrees(keys.remove(k), w1, w2);
    }
}

} // verus!
