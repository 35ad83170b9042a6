//! Multi-target search: the `Aspect360` capability trait and its
//! implementation for canonical angles — first match in candidate order,
//! every match, and the match of smallest divergence.

use vstd::prelude::*;
use vstd::math::abs;
use crate::angle::Angle360;
use crate::angle::HALF_TURN;
use crate::angle::INPUT_LIMIT;
use crate::angle::canonical_of;
use crate::angle::lemma_signed_diff_range;
use crate::angle::signed_diff;
use crate::angle::signed_diff_64;
use crate::aspect::AspectOrb;
use crate::aspect::AspectResult;
use crate::aspect::is_match;
use crate::aspect::lemma_resolved_range;
use crate::aspect::result_of;

verus! {

/// Whether candidate `i` of `targets` matches the separation `angle`.
pub open spec fn match_at(angle: i64, targets: Seq<AspectOrb>, i: int) -> bool {
    is_match(targets[i].target as int, angle as int, targets[i].orb as int)
}

/// The record that evaluating candidate `i` of `targets` against the
/// separation `angle` produces.
pub open spec fn result_at(angle: i64, targets: Seq<AspectOrb>, i: int) -> AspectResult {
    result_of(targets[i].target, angle, targets[i].orb)
}

/// No candidate strictly before `i` matches the separation `angle`.
pub open spec fn no_match_before(angle: i64, targets: Seq<AspectOrb>, i: int) -> bool {
    forall|j: int| 0 <= j < i ==> !match_at(angle, targets, j)
}

/// Every candidate target is within the magnitude the arithmetic admits.
pub open spec fn targets_in_limit(targets: Seq<AspectOrb>) -> bool {
    forall|i: int| 0 <= i < targets.len() ==> -INPUT_LIMIT <= (#[trigger] targets[i]).target
        <= INPUT_LIMIT
}

/// The results of the matching candidates, in candidate order.
pub open spec fn matches_of(angle: i64, targets: Seq<AspectOrb>) -> Seq<AspectResult>
    decreases targets.len(),
{
    if targets.len() == 0 {
        Seq::empty()
    } else {
        let front = matches_of(angle, targets.drop_last());
        if match_at(angle, targets, targets.len() - 1) {
            front.push(result_at(angle, targets, targets.len() - 1))
        } else {
            front
        }
    }
}

/// How many candidates match the separation `angle`.
pub open spec fn count_matching(angle: i64, targets: Seq<AspectOrb>) -> nat
    decreases targets.len(),
{
    if targets.len() == 0 {
        0
    } else {
        count_matching(angle, targets.drop_last()) + if match_at(
            angle,
            targets,
            targets.len() - 1,
        ) {
            1nat
        } else {
            0nat
        }
    }
}

/// Absolute distance of one result from its target.
pub open spec fn divergence_of(r: AspectResult) -> int {
    abs(r.distance as int) as int
}

/// The element of `s` with the smallest divergence; among ties, the earliest.
/// Meaningful only for a non-empty `s`.
pub open spec fn best_of(s: Seq<AspectResult>) -> AspectResult
    decreases s.len(),
{
    if s.len() <= 1 {
        s[0]
    } else {
        let b = best_of(s.drop_last());
        if divergence_of(s.last()) < divergence_of(b) {
            s.last()
        } else {
            b
        }
    }
}

/// Every element that `matches_of` collects carries a resolved distance, so
/// its magnitude stays within a half turn.
pub proof fn lemma_matches_of_distance(angle: i64, targets: Seq<AspectOrb>)
    ensures
        forall|i: int|
            0 <= i < matches_of(angle, targets).len() ==> -(HALF_TURN as int) < (
            #[trigger] matches_of(angle, targets)[i]).distance <= HALF_TURN,
    decreases targets.len(),
{
    if targets.len() > 0 {
        lemma_matches_of_distance(angle, targets.drop_last());
        lemma_resolved_range(targets[targets.len() - 1].target as int, angle as int);
        let front = matches_of(angle, targets.drop_last());
        let whole = matches_of(angle, targets);
        assert forall|i: int|
            0 <= i < whole.len() implies -(HALF_TURN as int) < (#[trigger] whole[i]).distance
            <= HALF_TURN by {
            if i < front.len() {
                assert(whole[i] == front[i]);
            } else {
                assert(whole[i] == result_at(angle, targets, targets.len() - 1));
            }
        }
    }
}

/// The aspect-matching capability of a position on the circle: evaluate one
/// target, or search an ordered list of target/orb candidates.
pub trait Aspect360 {
    /// Where this value stands on the circle, in micro-degrees.
    spec fn circle_value(&self) -> int;

    /// The position is in the canonical range `[0, FULL_TURN)`.
    spec fn on_circle(&self) -> bool;

    /// Evaluates the separation between `self` and `other` against one
    /// target/orb pair.
    fn calc_aspect(&self, other: &Angle360, target: i64, orb: i64) -> (r: AspectResult)
        requires
            self.on_circle(),
            other.is_canonical(),
            -INPUT_LIMIT <= target <= INPUT_LIMIT,
        ensures
            r == result_of(target, signed_diff_64(self.circle_value(), other.value as int), orb),
    ;

    /// Like `calc_aspect`, with the other position given as a raw
    /// micro-degree value that is first reduced to canonical form.
    fn calc_aspect_raw(&self, other: i64, target: i64, orb: i64) -> (r: AspectResult)
        requires
            self.on_circle(),
            -INPUT_LIMIT <= other <= INPUT_LIMIT,
            -INPUT_LIMIT <= target <= INPUT_LIMIT,
        ensures
            r == result_of(
                target,
                signed_diff_64(self.circle_value(), canonical_of(other as int)),
                orb,
            ),
    ;

    /// Whether the separation between `self` and `other` matches `target`
    /// within `orb`.
    fn is_aspected(&self, other: &Angle360, target: i64, orb: i64) -> (r: bool)
        requires
            self.on_circle(),
            other.is_canonical(),
            -INPUT_LIMIT <= target <= INPUT_LIMIT,
        ensures
            r == is_match(
                target as int,
                signed_diff(self.circle_value(), other.value as int),
                orb as int,
            ),
    ;

    /// Like `is_aspected`, with the other position given as a raw
    /// micro-degree value that is first reduced to canonical form.
    fn is_aspected_raw(&self, other: i64, target: i64, orb: i64) -> (r: bool)
        requires
            self.on_circle(),
            -INPUT_LIMIT <= other <= INPUT_LIMIT,
            -INPUT_LIMIT <= target <= INPUT_LIMIT,
        ensures
            r == is_match(
                target as int,
                signed_diff(self.circle_value(), canonical_of(other as int)),
                orb as int,
            ),
    ;

    /// The first matching candidate in the given order, or `None` when no
    /// candidate matches. Candidates after the first match are not evaluated,
    /// so the order of `targets` decides the result, not the divergence.
    fn find_aspect(&self, other: &Angle360, targets: &[AspectOrb]) -> (r: Option<AspectResult>)
        requires
            self.on_circle(),
            other.is_canonical(),
            targets_in_limit(targets@),
        ensures
            ({
                let angle = signed_diff_64(self.circle_value(), other.value as int);
                match r {
                    Option::None => no_match_before(angle, targets@, targets@.len() as int),
                    Option::Some(res) => exists|i: int|
                        0 <= i < targets@.len() && #[trigger] match_at(angle, targets@, i)
                            && no_match_before(angle, targets@, i) && res == result_at(
                            angle,
                            targets@,
                            i,
                        ),
                }
            }),
    ;

    /// The results of all matching candidates, in candidate order; overlapping
    /// candidates may both appear.
    fn find_aspects(&self, other: &Angle360, targets: &[AspectOrb]) -> (r: Vec<AspectResult>)
        requires
            self.on_circle(),
            other.is_canonical(),
            targets_in_limit(targets@),
        ensures
            r@ == matches_of(signed_diff_64(self.circle_value(), other.value as int), targets@),
    ;

    /// The matching candidate whose result diverges least from its target;
    /// among exact ties the earliest in candidate order; `None` when no
    /// candidate matches.
    fn find_best_aspect(&self, other: &Angle360, targets: &[AspectOrb]) -> (r: Option<
        AspectResult,
    >)
        requires
            self.on_circle(),
            other.is_canonical(),
            targets_in_limit(targets@),
        ensures
            ({
                let ms = matches_of(
                    signed_diff_64(self.circle_value(), other.value as int),
                    targets@,
                );
                match r {
                    Option::None => ms.len() == 0,
                    Option::Some(res) => ms.len() > 0 && res == best_of(ms),
                }
            }),
    ;
}

impl Aspect360 for Angle360 {
    open spec fn circle_value(&self) -> int {
        self.value as int
    }

    open spec fn on_circle(&self) -> bool {
        self.is_canonical()
    }

    fn calc_aspect(&self, other: &Angle360, target: i64, orb: i64) -> (r: AspectResult) {
        proof {
            lemma_signed_diff_range(self.value as int, other.value as int);
        }
        let angle = self.angle(other);
        AspectResult::calculate(target, angle, orb)
    }

    fn calc_aspect_raw(&self, other: i64, target: i64, orb: i64) -> (r: AspectResult) {
        let canonical_other = Angle360::new(other);
        self.calc_aspect(&canonical_other, target, orb)
    }

    fn is_aspected(&self, other: &Angle360, target: i64, orb: i64) -> (r: bool) {
        proof {
            lemma_signed_diff_range(self.value as int, other.value as int);
        }
        self.calc_aspect(other, target, orb).matched()
    }

    fn is_aspected_raw(&self, other: i64, target: i64, orb: i64) -> (r: bool) {
        let canonical_other = Angle360::new(other);
        self.is_aspected(&canonical_other, target, orb)
    }

    fn find_aspect(&self, other: &Angle360, targets: &[AspectOrb]) -> (r: Option<AspectResult>) {
        proof {
            lemma_signed_diff_range(self.value as int, other.value as int);
        }
        let angle = self.angle(other);
        let mut i: usize = 0;
        while i < targets.len()
            invariant
                self.is_canonical(),
                other.is_canonical(),
                targets_in_limit(targets@),
                angle == signed_diff_64(self.value as int, other.value as int),
                -(HALF_TURN as int) < angle <= HALF_TURN,
                0 <= i <= targets@.len(),
                no_match_before(angle, targets@, i as int),
            decreases targets@.len() - i,
        {
            let candidate = targets[i];
            let res = AspectResult::calculate(candidate.target, angle, candidate.orb);
            if res.matched() {
                proof {
                    let angle_s = signed_diff_64(self.circle_value(), other.value as int);
                    assert(match_at(angle_s, targets@, i as int));
                    assert(res == result_at(angle_s, targets@, i as int));
                    assert(no_match_before(angle_s, targets@, i as int));
                }
                return Some(res);
            }
            i = i + 1;
        }
        None
    }

    fn find_aspects(&self, other: &Angle360, targets: &[AspectOrb]) -> (r: Vec<AspectResult>) {
        proof {
            lemma_signed_diff_range(self.value as int, other.value as int);
        }
        let angle = self.angle(other);
        let mut out: Vec<AspectResult> = Vec::new();
        let mut i: usize = 0;
        while i < targets.len()
            invariant
                self.is_canonical(),
                other.is_canonical(),
                targets_in_limit(targets@),
                angle == signed_diff_64(self.value as int, other.value as int),
                -(HALF_TURN as int) < angle <= HALF_TURN,
                0 <= i <= targets@.len(),
                out@ == matches_of(angle, targets@.subrange(0, i as int)),
            decreases targets@.len() - i,
        {
            let candidate = targets[i];
            let res = AspectResult::calculate(candidate.target, angle, candidate.orb);
            proof {
                assert(targets@.subrange(0, i + 1).drop_last() =~= targets@.subrange(0, i as int));
                assert(targets@.subrange(0, i + 1).last() == targets@[i as int]);
            }
            if res.matched() {
                out.push(res);
            }
            i = i + 1;
        }
        proof {
            assert(targets@.subrange(0, targets@.len() as int) =~= targets@);
        }
        out
    }

    fn find_best_aspect(&self, other: &Angle360, targets: &[AspectOrb]) -> (r: Option<
        AspectResult,
    >) {
        let matched_aspects = self.find_aspects(other, targets);
        proof {
            lemma_matches_of_distance(
                signed_diff_64(self.value as int, other.value as int),
                targets@,
            );
        }
        if matched_aspects.len() == 0 {
            return None;
        }
        let mut best = matched_aspects[0];
        let mut i: usize = 1;
        while i < matched_aspects.len()
            invariant
                matched_aspects@.len() > 0,
                1 <= i <= matched_aspects@.len(),
                forall|j: int|
                    0 <= j < matched_aspects@.len() ==> -(HALF_TURN as int) < (
                    #[trigger] matched_aspects@[j]).distance <= HALF_TURN,
                -(HALF_TURN as int) < best.distance <= HALF_TURN,
                best == best_of(matched_aspects@.subrange(0, i as int)),
            decreases matched_aspects@.len() - i,
        {
            let candidate = matched_aspects[i];
            proof {
                assert(matched_aspects@.subrange(0, i + 1).drop_last() =~= matched_aspects@
                    .subrange(0, i as int));
                assert(matched_aspects@.subrange(0, i + 1).last() == matched_aspects@[i as int]);
            }
            if candidate.divergence() < best.divergence() {
                best = candidate;
            }
            i = i + 1;
        }
        proof {
            assert(matched_aspects@.subrange(0, matched_aspects@.len() as int)
                =~= matched_aspects@);
        }
        Some(best)
    }
}

} // verus!
