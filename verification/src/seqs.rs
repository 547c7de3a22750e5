//! Mapping a sequence through a step that may fail.

use vstd::prelude::*;

verus! {

/// `f` applied to each element of `s` in turn: the results, or the first
/// failure.
pub open spec fn try_map<A, B, E>(s: Seq<A>, f: spec_fn(A) -> Result<B, E>) -> Result<Seq<B>, E>
    decreases s.len(),
{
    if s.len() == 0 {
        Ok(Seq::empty())
    } else {
        match try_map(s.drop_last(), f) {
            Err(e) => Err(e),
            Ok(done) => match f(s.last()) {
                Err(e) => Err(e),
                Ok(b) => Ok(done.push(b)),
            },
        }
    }
}

/// A successful `try_map` holds the result of each element at its place; a
/// failed one holds the failure of the first element that fails.
pub proof fn lemma_try_map<A, B, E>(s: Seq<A>, f: spec_fn(A) -> Result<B, E>)
    ensures
        match try_map(s, f) {
            Ok(out) => out.len() == s.len() && forall|i: int|
                0 <= i < s.len() ==> f(#[trigger] s[i]) == Ok::<B, E>(out[i]),
            Err(e) => exists|i: int|
                0 <= i < s.len() && f(#[trigger] s[i]) == Err::<B, E>(e) && forall|j: int|
                    0 <= j < i ==> f(#[trigger] s[j]) is Ok,
        },
    decreases s.len(),
{
    if s.len() > 0 {
        let front = s.drop_last();
        lemma_try_map(front, f);
        match try_map(front, f) {
            Err(e) => {
                let i = choose|i: int|
                    0 <= i < front.len() && f(#[trigger] front[i]) == Err::<B, E>(e) && forall|
                        j: int,
                    |
                        0 <= j < i ==> f(#[trigger] front[j]) is Ok;
                assert(front[i] == s[i]);
                assert forall|j: int| 0 <= j < i implies f(#[trigger] s[j]) is Ok by {
                    assert(front[j] == s[j]);
                }
            },
            Ok(done) => {
                assert forall|j: int| 0 <= j < front.len() implies f(#[trigger] s[j]) == Ok::<
                    B,
                    E,
                >(done[j]) by {
                    assert(front[j] == s[j]);
                }
                match f(s.last()) {
                    Err(e) => {
                        assert(s[s.len() - 1] == s.last());
                    },
                    Ok(b) => {},
                }
            },
        }
    }
}

/// One more element at the end: `try_map` goes on from where it stood.
pub proof fn lemma_try_map_step<A, B, E>(s: Seq<A>, f: spec_fn(A) -> Result<B, E>, n: int)
    requires
        0 <= n < s.len(),
    ensures
        try_map(s.take(n + 1), f) == match try_map(s.take(n), f) {
            Err(e) => Err(e),
            Ok(done) => match f(s[n]) {
                Err(e) => Err(e),
                Ok(b) => Ok(done.push(b)),
            },
        },
{
    assert(s.take(n + 1).drop_last() =~= s.take(n));
    assert(s.take(n + 1).last() == s[n]);
}

/// Once `try_map` has failed on a prefix, it fails in the same way on the
/// whole.
pub proof fn lemma_try_map_stops<A, B, E>(s: Seq<A>, f: spec_fn(A) -> Result<B, E>, n: int)
    requires
        0 <= n <= s.len(),
        try_map(s.take(n), f) is Err,
    ensures
        try_map(s, f) == try_map(s.take(n), f),
    decreases s.len() - n,
{
    if n < s.len() {
        lemma_try_map_step(s, f, n);
        lemma_try_map_stops(s, f, n + 1);
    } else {
        assert(s.take(n) =~= s);
    }
}

} // verus!
