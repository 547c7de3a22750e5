//! Putting a list into a random order.
//!
//! The randomness comes from `rand`, which shuffles a list of positions. What
//! is done with those positions is verified for every list that `rand` may
//! hand back.

use vstd::prelude::*;
use vstd::set_lib::lemma_int_range;
use vstd::set_lib::lemma_subset_equality;
use vstd::set_lib::set_int_range;
use rand::seq::SliceRandom;

verus! {

/// The positions below `n`, each at its own place.
pub open spec fn identity_order(n: nat) -> Seq<usize> {
    Seq::new(n, |i: int| i as usize)
}

/// `order` names each position below `n` once: it has `n` entries, all below
/// `n`, no two alike.
pub open spec fn is_arrangement(order: Seq<usize>, n: nat) -> bool {
    &&& order.len() == n
    &&& (forall|i: int| 0 <= i < order.len() ==> (#[trigger] order[i]) < n)
    &&& order.no_duplicates()
}

/// The elements of `src` in the order that `order` names: at place `i` stands
/// the element that `src` holds at `order[i]`.
pub open spec fn arranged<T>(src: Seq<T>, order: Seq<usize>) -> Seq<T> {
    Seq::new(order.len(), |i: int| src[order[i] as int])
}

/// `out` holds the elements of `src`, each once, in some order.
pub open spec fn is_rearrangement<T>(out: Seq<T>, src: Seq<T>) -> bool {
    exists|order: Seq<usize>| is_arrangement(order, src.len()) && out == arranged(src, order)
}

/// A list that holds the same entries as the positions below `n`, each as
/// often, names each of them once.
pub proof fn lemma_same_entries_arrange(order: Seq<usize>, n: nat)
    requires
        n <= usize::MAX,
        order.to_multiset() == identity_order(n).to_multiset(),
    ensures
        is_arrangement(order, n),
{
    let id = identity_order(n);
    order.to_multiset_ensures();
    id.to_multiset_ensures();
    assert(id.no_duplicates());
    id.lemma_multiset_has_no_duplicates();
    order.lemma_multiset_has_no_duplicates_conv();
    assert forall|i: int| 0 <= i < order.len() implies (#[trigger] order[i]) < n by {
        assert(order.contains(order[i]));
        assert(order.to_multiset().count(order[i]) > 0);
        assert(id.to_multiset().count(order[i]) > 0);
        assert(id.contains(order[i]));
        let k = choose|k: int| 0 <= k < id.len() && id[k] == order[i];
        assert(id[k] == k);
    }
}

/// An arrangement leaves no position out: each one below `n` stands somewhere
/// in it.
pub proof fn lemma_arrangement_covers(order: Seq<usize>, n: nat, position: int)
    requires
        is_arrangement(order, n),
        0 <= position < n,
    ensures
        exists|i: int| 0 <= i < n && order[i] == position,
{
    let as_int = |x: usize| x as int;
    let wide = order.map_values(as_int);
    assert(wide.no_duplicates()) by {
        assert forall|i: int, j: int|
            0 <= i < wide.len() && 0 <= j < wide.len() && i != j implies wide[i] != wide[j] by {
            assert(order[i] != order[j]);
        }
    }
    wide.unique_seq_to_set();
    lemma_int_range(0, n as int);
    let range = set_int_range(0, n as int);
    assert(wide.to_set().subset_of(range)) by {
        assert forall|x: int| wide.to_set().contains(x) implies range.contains(x) by {
            let i = choose|i: int| 0 <= i < wide.len() && wide[i] == x;
            assert(order[i] < n);
        }
    }
    vstd::set_lib::lemma_len_subset(wide.to_set(), range);
    lemma_subset_equality(wide.to_set(), range);
    assert(range.contains(position));
    assert(wide.to_set().contains(position));
    let i = choose|i: int| 0 <= i < wide.len() && wide[i] == position;
    assert(order[i] == position);
}

/// A rearrangement neither drops nor adds: it is as long as its source, each
/// of its elements is one of the source, and each element of the source
/// stands in it.
pub proof fn lemma_rearrangement_keeps_items<T>(out: Seq<T>, src: Seq<T>)
    requires
        is_rearrangement(out, src),
    ensures
        out.len() == src.len(),
        forall|i: int| 0 <= i < out.len() ==> src.contains(#[trigger] out[i]),
        forall|j: int| 0 <= j < src.len() ==> out.contains(#[trigger] src[j]),
{
    let order = choose|order: Seq<usize>|
        is_arrangement(order, src.len()) && out == arranged(src, order);
    assert forall|i: int| 0 <= i < out.len() implies src.contains(#[trigger] out[i]) by {
        assert(order[i] < src.len());
        assert(src[order[i] as int] == out[i]);
    }
    assert forall|j: int| 0 <= j < src.len() implies out.contains(#[trigger] src[j]) by {
        lemma_arrangement_covers(order, src.len(), j);
        let i = choose|i: int| 0 <= i < src.len() && order[i] == j;
        assert(out[i] == src[j]);
    }
}

/// `rand::seq::SliceRandom::shuffle` on a list of positions, with the
/// generator of `rand::thread_rng`. The shuffle only swaps entries, so the
/// list ends with the entries it began with, each as often; in which order
/// is left open.
#[verifier::external_body]
fn shuffle_positions(order: &mut Vec<usize>)
    ensures
        final(order)@.to_multiset() == old(order)@.to_multiset(),
{
    order.shuffle(&mut rand::thread_rng());
}

/// The positions below `n` in a random order.
pub fn random_order(n: usize) -> (order: Vec<usize>)
    ensures
        is_arrangement(order@, n as nat),
{
    let mut order: Vec<usize> = Vec::new();
    let mut i: usize = 0;
    while i < n
        invariant
            i <= n,
            order@ == identity_order(i as nat),
        decreases n - i,
    {
        order.push(i);
        i += 1;
        assert(order@ =~= identity_order(i as nat));
    }
    shuffle_positions(&mut order);
    proof {
        lemma_same_entries_arrange(order@, n as nat);
    }
    order
}

/// The elements of `items` in the order that `order` names, where `order` is
/// an arrangement of their positions; `None` where it is not.
pub fn arrange<T>(items: Vec<T>, order: &Vec<usize>) -> (r: Option<Vec<T>>)
    ensures
        match r {
            Some(out) => is_arrangement(order@, items@.len()) && out@ == arranged(
                items@,
                order@,
            ),
            None => !is_arrangement(order@, items@.len()),
        },
{
    let ghost src = items@;
    let n = items.len();
    if order.len() != n {
        return None;
    }
    // The items move into slots, last item first, so that each can be taken
    // out on its own.
    let mut items = items;
    let mut slots: Vec<Option<T>> = Vec::new();
    while items.len() > 0
        invariant
            items@.len() + slots@.len() == n,
            n == src.len(),
            items@ == src.take(items@.len() as int),
            forall|k: int| 0 <= k < slots@.len() ==> (#[trigger] slots@[k]) == Some(src[n - 1 - k]),
        decreases items@.len(),
    {
        let item = items.pop();
        slots.push(item);
    }
    let mut out: Vec<T> = Vec::new();
    let mut i: usize = 0;
    while i < n
        invariant
            i <= n,
            n == src.len(),
            order@.len() == n,
            slots@.len() == n,
            out@.len() == i,
            forall|k: int| 0 <= k < i ==> (#[trigger] order@[k]) < n,
            forall|k: int| 0 <= k < i ==> (#[trigger] out@[k]) == src[order@[k] as int],
            forall|k1: int, k2: int| 0 <= k1 < k2 < i ==> order@[k1] != order@[k2],
            forall|j: int|
                0 <= j < n ==> (#[trigger] slots@[n - 1 - j]) == (if exists|k: int|
                    0 <= k < i && order@[k] == j {
                    None
                } else {
                    Some(src[j])
                }),
        decreases n - i,
    {
        let position = order[i];
        if position >= n {
            return None;
        }
        let ghost before = slots@;
        let slot = slots[n - 1 - position].take();
        match slot {
            None => {
                proof {
                    let k = choose|k: int| 0 <= k < i && order@[k] == position as int;
                    assert(order@[k] == order@[i as int]);
                }
                return None;
            },
            Some(item) => {
                out.push(item);
                proof {
                    assert forall|j: int| 0 <= j < n implies (#[trigger] slots@[n - 1 - j]) == (
                    if exists|k: int| 0 <= k < i + 1 && order@[k] == j {
                        None
                    } else {
                        Some(src[j])
                    }) by {
                        if j == position {
                            assert(order@[i as int] == j);
                        } else {
                            assert(slots@[n - 1 - j] == before[n - 1 - j]);
                            if exists|k: int| 0 <= k < i && order@[k] == j {
                                let k = choose|k: int| 0 <= k < i && order@[k] == j;
                                assert(0 <= k < i + 1 && order@[k] == j);
                            }
                        }
                    }
                }
            },
        }
        i += 1;
    }
    assert(out@ =~= arranged(src, order@));
    Some(out)
}

/// The elements of `items` in a random order.
pub fn shuffled<T>(items: Vec<T>) -> (out: Vec<T>)
    ensures
        is_rearrangement(out@, items@),
{
    let order = random_order(items.len());
    let ghost src = items@;
    match arrange(items, &order) {
        Some(out) => out,
        None => Vec::new(),
    }
}

} // verus!
