//! The guarantees the library makes across its functions, stated and proved
//! once, over the same spec functions the contracts use.

use vstd::prelude::*;
use vstd::math::abs;
use crate::angle::FULL_TURN;
use crate::angle::HALF_TURN;
use crate::angle::signed_diff;
use crate::aspect::AspectResult;
use crate::aspect::AspectOrb;
use crate::aspect::is_match;
use crate::aspect::resolved_distance;
use crate::aspect::result_of;
use crate::search::best_of;
use crate::search::count_matching;
use crate::search::divergence_of;
use crate::search::match_at;
use crate::search::matches_of;
use crate::search::result_at;

verus! {

/// Determinism: an evaluation record is a function of `(target, angle, orb)`
/// alone, so any two results of the same inputs agree in every field.
pub proof fn lemma_calculate_deterministic(
    r1: AspectResult,
    r2: AspectResult,
    target: i64,
    angle: i64,
    orb: i64,
)
    requires
        r1 == result_of(target, angle, orb),
        r2 == result_of(target, angle, orb),
    ensures
        r1 == r2,
        r1.distance == r2.distance,
        r1.matched == r2.matched,
{
}

/// Symmetry resolution: for a target strictly between 0 and a half turn,
/// whenever the complement reading is at least as close as the direct one,
/// evaluating the target and evaluating its complement keep the same
/// distance magnitude.
pub proof fn lemma_symmetry_resolution(target: int, angle: int)
    requires
        0 < target < HALF_TURN,
        abs(signed_diff(FULL_TURN - target, angle)) <= abs(signed_diff(target, angle)),
    ensures
        abs(resolved_distance(target, angle)) == abs(
            resolved_distance(FULL_TURN - target, angle),
        ),
{
}

/// A target strictly between 0 and a half turn always resolves to whichever
/// of its two readings diverges less.
pub proof fn lemma_resolution_minimal(target: int, angle: int)
    requires
        0 < target < HALF_TURN,
    ensures
        abs(resolved_distance(target, angle)) <= abs(signed_diff(target, angle)),
        abs(resolved_distance(target, angle)) <= abs(signed_diff(FULL_TURN - target, angle)),
{
}

/// Inclusive match boundary: when the divergence equals the orb exactly, the
/// evaluation counts as matched, on both sides of the target.
pub proof fn lemma_match_boundary(target: int, angle: int, orb: int)
    requires
        abs(resolved_distance(target, angle)) == orb,
    ensures
        is_match(target, angle, orb),
{
}

/// Completeness of `find_aspects`, counted: it returns as many results as
/// there are candidates that satisfy the match predicate on their own.
pub proof fn lemma_find_aspects_count(angle: i64, targets: Seq<AspectOrb>)
    ensures
        matches_of(angle, targets).len() == count_matching(angle, targets),
    decreases targets.len(),
{
    if targets.len() > 0 {
        lemma_find_aspects_count(angle, targets.drop_last());
    }
}

/// Completeness of `find_aspects`, element-wise: every candidate that matches
/// on its own contributes its result to the returned sequence.
pub proof fn lemma_find_aspects_complete(angle: i64, targets: Seq<AspectOrb>, i: int)
    requires
        0 <= i < targets.len(),
        match_at(angle, targets, i),
    ensures
        matches_of(angle, targets).contains(result_at(angle, targets, i)),
    decreases targets.len(),
{
    let whole = matches_of(angle, targets);
    let front = matches_of(angle, targets.drop_last());
    if i == targets.len() - 1 {
        assert(whole[front.len() as int] == result_at(angle, targets, i));
    } else {
        assert(targets.drop_last()[i] == targets[i]);
        lemma_find_aspects_complete(angle, targets.drop_last(), i);
        let j = choose|j: int|
            0 <= j < front.len() && front[j] == result_at(angle, targets.drop_last(), i);
        assert(whole[j] == result_at(angle, targets, i));
    }
}

/// Minimality of the best match: the selected element belongs to the matches,
/// its divergence is no greater than any other match's, and among exact ties
/// it is the earliest in candidate order.
pub proof fn lemma_best_of_minimal(s: Seq<AspectResult>)
    requires
        s.len() > 0,
    ensures
        s.contains(best_of(s)),
        forall|i: int| 0 <= i < s.len() ==> divergence_of(best_of(s)) <= divergence_of(
            #[trigger] s[i],
        ),
        exists|i: int|
            0 <= i < s.len() && s[i] == best_of(s) && (forall|j: int|
                0 <= j < i ==> divergence_of(#[trigger] s[j]) > divergence_of(best_of(s))),
    decreases s.len(),
{
    if s.len() == 1 {
        assert(s[0] == best_of(s));
        assert(forall|j: int| 0 <= j < 0 ==> divergence_of(#[trigger] s[j]) > divergence_of(
            best_of(s),
        ));
    } else {
        let front = s.drop_last();
        lemma_best_of_minimal(front);
        let b = best_of(front);
        let k = choose|k: int|
            0 <= k < front.len() && front[k] == b && (forall|j: int|
                0 <= j < k ==> divergence_of(#[trigger] front[j]) > divergence_of(b));
        if divergence_of(s.last()) < divergence_of(b) {
            let w = s.len() - 1;
            assert(s[w] == best_of(s));
            assert forall|j: int|
                0 <= j < w implies divergence_of(#[trigger] s[j]) > divergence_of(best_of(s)) by {
                assert(s[j] == front[j]);
                assert(divergence_of(front[j]) >= divergence_of(b));
            }
        } else {
            assert(s[k] == best_of(s));
            assert forall|j: int|
                0 <= j < k implies divergence_of(#[trigger] s[j]) > divergence_of(best_of(s)) by {
                assert(s[j] == front[j]);
                assert(divergence_of(front[j]) > divergence_of(b));
            }
        }
        assert forall|i: int|
            0 <= i < s.len() implies divergence_of(best_of(s)) <= divergence_of(
            #[trigger] s[i],
        ) by {
            if i < s.len() - 1 {
                assert(s[i] == front[i]);
                assert(divergence_of(b) <= divergence_of(front[i]));
            }
        }
    }
}

} // verus!
