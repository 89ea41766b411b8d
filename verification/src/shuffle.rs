//! Lists in an order of chance.

use rand::seq::SliceRandom;
use vstd::prelude::*;

verus! {

/// `rand::seq::SliceRandom::shuffle` with `rand::rng()`: the items are put into another
/// order; none is lost and none is added. Which order it is rests on chance.
#[verifier::external_body]
pub(crate) fn shuffle<T>(items: &mut Vec<T>)
    ensures
        final(items)@.to_multiset() == old(items)@.to_multiset(),
{
    items.shuffle(&mut rand::rng());
}

/// Lists with the same items, however ordered, have the same images.
pub proof fn images_have_the_same_items<A, B>(s: Seq<A>, t: Seq<A>, f: spec_fn(A) -> B)
    requires
        s.to_multiset() == t.to_multiset(),
    ensures
        s.map_values(f).to_multiset() == t.map_values(f).to_multiset(),
    decreases s.len(),
{
    broadcast use vstd::seq_lib::group_to_multiset_ensures;

    if s.len() == 0 {
        assert(t.len() == t.to_multiset().len());
        assert(s =~= t);
    } else {
        let a = s.last();
        let init = s.drop_last();
        assert(init.push(a) =~= s);
        assert(s.contains(a));
        assert(t.to_multiset().count(a) > 0);
        let k = choose|k: int| 0 <= k < t.len() && t[k] == a;
        let rest = t.remove(k);
        assert(init.to_multiset() =~= s.to_multiset().remove(a)) by {
            assert(s.remove(s.len() - 1) =~= init);
        }
        assert(rest.to_multiset() =~= t.to_multiset().remove(a));
        images_have_the_same_items(init, rest, f);
        assert(s.map_values(f) =~= init.map_values(f).push(f(a)));
        assert(t.map_values(f) =~= rest.map_values(f).insert(k, f(a)));
        vstd::seq_lib::to_multiset_insert(rest.map_values(f), k, f(a));
    }
}

} // verus!
