//! Choosing an identifier that no live record carries.
//!
//! Identifiers are drawn at random by the caller. A draw that collides with
//! a live identifier is replaced by the least identifier that is free, so
//! that two live records never share one.

use vstd::prelude::*;

verus! {

/// `id` is free, and every smaller identifier is taken.
pub open spec fn is_least_free(taken: Seq<usize>, id: usize) -> bool {
    &&& !taken.contains(id)
    &&& forall|j: usize| j < id ==> taken.contains(j)
}

/// `id` is the identifier chosen for a new record when `candidate` was drawn:
/// the candidate itself if it is free, else the least free identifier.
pub open spec fn is_fresh_choice(taken: Seq<usize>, candidate: usize, id: usize) -> bool {
    if taken.contains(candidate) {
        is_least_free(taken, id)
    } else {
        id == candidate
    }
}

/// No two positions of `ids` hold the same identifier.
pub open spec fn distinct(ids: Seq<usize>) -> bool {
    forall|i: int, j: int| 0 <= i < j < ids.len() ==> ids[i] != ids[j]
}

/// A sequence that holds every identifier below `bound` has at least `bound` entries.
pub proof fn lemma_prefix_fits(taken: Seq<usize>, bound: nat)
    requires
        bound <= usize::MAX + 1,
        forall|j: usize| j < bound ==> taken.contains(j),
    ensures
        bound <= taken.len(),
    decreases bound,
{
    if bound > 0 {
        let last: usize = (bound - 1) as usize;
        assert(taken.contains(last));
        let at = choose|i: int| 0 <= i < taken.len() && taken[i] == last;
        let rest = taken.remove(at);
        assert forall|j: usize| j < last implies rest.contains(j) by {
            assert(taken.contains(j));
            let k = choose|k: int| 0 <= k < taken.len() && taken[k] == j;
            if k < at {
                assert(rest[k] == j);
            } else {
                assert(rest[k - 1] == j);
            }
        }
        lemma_prefix_fits(rest, last as nat);
    }
}

/// The choice of a fresh identifier is unique: the chosen identifier is a
/// function of the live identifiers and the candidate.
pub proof fn lemma_fresh_choice_unique(taken: Seq<usize>, candidate: usize, a: usize, b: usize)
    requires
        is_fresh_choice(taken, candidate, a),
        is_fresh_choice(taken, candidate, b),
    ensures
        a == b,
{
    if taken.contains(candidate) {
        if a < b {
            assert(taken.contains(a));
        } else if b < a {
            assert(taken.contains(b));
        }
    }
}

/// Whether `id` occurs in `taken`.
pub fn is_taken(taken: &Vec<usize>, id: usize) -> (b: bool)
    ensures
        b == taken@.contains(id),
{
    let mut i: usize = 0;
    while i < taken.len()
        invariant
            i <= taken.len(),
            forall|k: int| 0 <= k < i ==> taken@[k] != id,
        decreases taken.len() - i,
    {
        if taken[i] == id {
            return true;
        }
        i += 1;
    }
    false
}

/// The least identifier that does not occur in `taken`.
pub fn least_free(taken: &Vec<usize>) -> (id: usize)
    ensures
        is_least_free(taken@, id),
{
    let mut id: usize = 0;
    while is_taken(taken, id)
        invariant
            forall|j: usize| j < id ==> taken@.contains(j),
            id <= taken.len(),
        decreases taken.len() - id,
    {
        proof {
            assert forall|j: usize| j < id + 1 implies taken@.contains(j) by {
                if j < id {
                } else {
                    assert(j == id);
                }
            }
            lemma_prefix_fits(taken@, (id + 1) as nat);
        }
        id += 1;
    }
    id
}

/// The identifier for a new record: `candidate` if it is free, else the
/// least free identifier. Never an identifier in `taken`.
pub fn fresh_id(taken: &Vec<usize>, candidate: usize) -> (id: usize)
    ensures
        is_fresh_choice(taken@, candidate, id),
        !taken@.contains(id),
{
    if is_taken(taken, candidate) {
        least_free(taken)
    } else {
        candidate
    }
}

} // verus!
