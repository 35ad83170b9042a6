//! Aspect evaluation: deciding whether a separation matches a target within
//! an orb, resolving a target against its rotational complement, and the
//! record types that carry the outcome.

use vstd::prelude::*;
use vstd::math::abs;
use crate::angle::FULL_TURN;
use crate::angle::HALF_TURN;
use crate::angle::INPUT_LIMIT;
use crate::angle::signed_diff;
use crate::angle::signed_difference;
use crate::angle::lemma_signed_diff_range;

verus! {

/// The outcome of one aspect evaluation.
#[derive(Clone, Copy, Debug, PartialEq, Eq, Structural)]
pub struct AspectResult {
    /// The raw signed separation between the two positions, in micro-degrees.
    pub aspect: i64,
    /// The target separation that was tested, in micro-degrees.
    pub target: i64,
    /// Signed difference between the separation and the resolved target.
    pub distance: i64,
    /// Whether the separation falls within `orb` of the target.
    pub matched: bool,
    /// The tolerance used for this evaluation, in micro-degrees.
    pub orb: i64,
}

/// A target separation together with its orb (tolerance), in micro-degrees.
#[derive(Clone, Copy, Debug, PartialEq, Eq, Structural)]
pub struct AspectOrb {
    /// The separation to test for.
    pub target: i64,
    /// The tolerance within which the target counts as matched.
    pub orb: i64,
}

impl AspectOrb {
    /// Plain value constructor.
    pub fn new(target: i64, orb: i64) -> (r: AspectOrb)
        ensures
            r == (AspectOrb { target, orb }),
    {
        AspectOrb { target, orb }
    }

    /// The target separation.
    pub fn target(&self) -> (r: i64)
        ensures
            r == self.target,
    {
        self.target
    }

    /// The tolerance for a valid match.
    pub fn orb(&self) -> (r: i64)
        ensures
            r == self.orb,
    {
        self.orb
    }
}

/// The distance kept for a target: the signed circular difference from the
/// target to the separation, except that a target strictly between 0 and a
/// half turn is also read as its rotational complement, and whichever
/// interpretation is strictly closer to an exact match wins.
pub open spec fn resolved_distance(target: int, angle: int) -> int {
    let d = signed_diff(target, angle);
    if 0 < target && target < HALF_TURN {
        let d2 = signed_diff(FULL_TURN - target, angle);
        if abs(d2) < abs(d) {
            d2
        } else {
            d
        }
    } else {
        d
    }
}

/// Whether the separation `angle` matches `target` within `orb`: the absolute
/// resolved distance lies in `[-orb, orb]` (so a negative orb never matches).
pub open spec fn is_match(target: int, angle: int, orb: int) -> bool {
    let d = abs(resolved_distance(target, angle));
    -orb <= d && d <= orb
}

/// The full record that one evaluation of `target` against the separation
/// `angle` with tolerance `orb` produces.
pub open spec fn result_of(target: i64, angle: i64, orb: i64) -> AspectResult {
    AspectResult {
        aspect: angle,
        target: target,
        distance: resolved_distance(target as int, angle as int) as i64,
        matched: is_match(target as int, angle as int, orb as int),
        orb: orb,
    }
}

/// The resolved distance is itself a signed circular difference, so it stays
/// within `(-HALF_TURN, HALF_TURN]`.
pub proof fn lemma_resolved_range(target: int, angle: int)
    ensures
        -(HALF_TURN as int) < resolved_distance(target, angle) <= HALF_TURN,
{
    lemma_signed_diff_range(target, angle);
    lemma_signed_diff_range(FULL_TURN - target, angle);
}

/// Absolute value, for distances well inside the `i64` range.
fn abs_i64(x: i64) -> (r: i64)
    requires
        x > i64::MIN,
    ensures
        r == abs(x as int),
{
    if x < 0 {
        -x
    } else {
        x
    }
}

impl AspectResult {
    /// Evaluates whether the raw separation `angle` matches `target` within
    /// `orb`, resolving a target strictly between 0 and a half turn against
    /// its rotational complement and keeping the closer interpretation.
    pub fn calculate(target: i64, angle: i64, orb: i64) -> (r: AspectResult)
        requires
            -INPUT_LIMIT <= target <= INPUT_LIMIT,
            -INPUT_LIMIT <= angle <= INPUT_LIMIT,
        ensures
            r == result_of(target, angle, orb),
    {
        proof {
            lemma_signed_diff_range(target as int, angle as int);
            lemma_signed_diff_range(FULL_TURN - target, angle as int);
        }
        let mut distance = signed_difference(target, angle);
        if target > 0 && target < HALF_TURN {
            let inverse_target = FULL_TURN - target;
            let distance_2 = signed_difference(inverse_target, angle);
            if abs_i64(distance_2) < abs_i64(distance) {
                distance = distance_2;
            }
        }
        let distance_abs = abs_i64(distance);
        let in_range = distance_abs <= orb;
        AspectResult { aspect: angle, target, distance, matched: in_range, orb }
    }

    /// The raw signed separation between the two positions.
    pub fn aspect(&self) -> (r: i64)
        ensures
            r == self.aspect,
    {
        self.aspect
    }

    /// The target separation that was tested.
    pub fn target(&self) -> (r: i64)
        ensures
            r == self.target,
    {
        self.target
    }

    /// Signed distance between the true separation and the resolved target;
    /// negative or positive depending on the direction.
    pub fn distance(&self) -> (r: i64)
        ensures
            r == self.distance,
    {
        self.distance
    }

    /// Absolute distance between the true separation and the resolved target.
    pub fn divergence(&self) -> (r: i64)
        requires
            self.distance > i64::MIN,
        ensures
            r == abs(self.distance as int),
    {
        abs_i64(self.distance)
    }

    /// Whether the separation fell within the orb of the target.
    pub fn matched(&self) -> (r: bool)
        ensures
            r == self.matched,
    {
        self.matched
    }

    /// The tolerance used for this evaluation.
    pub fn orb(&self) -> (r: i64)
        ensures
            r == self.orb,
    {
        self.orb
    }
}

/// Element-wise conversion of raw `(target, orb)` pairs into `AspectOrb`
/// values.
pub fn to_aspect_orbs(pairs: &[(i64, i64)]) -> (r: Vec<AspectOrb>)
    ensures
        r@.len() == pairs@.len(),
        forall|i: int| 0 <= i < pairs@.len() ==> r@[i] == (AspectOrb {
            target: pairs@[i].0,
            orb: pairs@[i].1,
        }),
{
    let mut out: Vec<AspectOrb> = Vec::new();
    let mut i: usize = 0;
    while i < pairs.len()
        invariant
            0 <= i <= pairs@.len(),
            out@.len() == i,
            forall|j: int| 0 <= j < i ==> out@[j] == (AspectOrb {
                target: pairs@[j].0,
                orb: pairs@[j].1,
            }),
        decreases pairs@.len() - i,
    {
        let pair = pairs[i];
        out.push(AspectOrb { target: pair.0, orb: pair.1 });
        i = i + 1;
    }
    out
}

} // verus!
