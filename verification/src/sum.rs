//! Sums of a function over a finite set of keys.

use vstd::prelude::*;

verus! {

/// The sum of `f` over `keys`.
pub open spec fn sum_over<K>(keys: Set<K>, f: spec_fn(K) -> nat) -> nat
    decreases keys.len(),
    when keys.finite()
{
    if keys.len() == 0 {
        0
    } else {
        let k = keys.choose();
        f(k) + sum_over(keys.remove(k), f)
    }
}

/// Any one key can be taken out of the sum first.
pub proof fn lemma_sum_split<K>(keys: Set<K>, f: spec_fn(K) -> nat, k: K)
    requires
        keys.finite(),
        keys.contains(k),
    ensures
        sum_over(keys, f) == f(k) + sum_over(keys.remove(k), f),
    decreases keys.len(),
{
    let k0 = keys.choose();
    if k0 != k {
        lemma_sum_split(keys.remove(k0), f, k);
        lemma_sum_split(keys.remove(k), f, k0);
        assert(keys.remove(k0).remove(k) =~= keys.remove(k).remove(k0));
    }
}

/// Two functions that agree on every key have the same sum.
pub proof fn lemma_sum_agree<K>(keys: Set<K>, f: spec_fn(K) -> nat, g: spec_fn(K) -> nat)
    requires
        keys.finite(),
        forall|k: K| keys.contains(k) ==> f(k) == g(k),
    ensures
        sum_over(keys, f) == sum_over(keys, g),
    decreases keys.len(),
{
    if keys.len() != 0 {
        lemma_sum_agree(keys.remove(keys.choose()), f, g);
    }
}

/// What changing the term of one key does to the sum: `f` over `before` and
/// `g` over `after` differ by that term alone. The key may be new in `after`.
pub proof fn lemma_sum_change<K>(
    before: Set<K>,
    after: Set<K>,
    f: spec_fn(K) -> nat,
    g: spec_fn(K) -> nat,
    k: K,
)
    requires
        before.finite(),
        after == before.insert(k),
        forall|q: K| before.contains(q) && q != k ==> f(q) == g(q),
    ensures
        sum_over(after, g) + (if before.contains(k) {
            f(k)
        } else {
            0
        }) == sum_over(before, f) + g(k),
{
    let rest = before.remove(k);
    assert(after.remove(k) =~= rest);
    lemma_sum_split(after, g, k);
    lemma_sum_agree(rest, f, g);
    if before.contains(k) {
        lemma_sum_split(before, f, k);
    } else {
        assert(rest =~= before);
    }
}

} // verus!
