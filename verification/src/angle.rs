//! The circular-angle model: canonical values on a 360-degree circle and the
//! signed difference between two of them.
//!
//! Angles are measured in micro-degrees (millionths of a degree) held in
//! `i64`, so every computation is exact integer arithmetic.

use vstd::prelude::*;

verus! {

/// One full turn, in micro-degrees.
pub const FULL_TURN: i64 = 360_000_000;

/// Half a turn, in micro-degrees.
pub const HALF_TURN: i64 = 180_000_000;

/// Raw micro-degree inputs are accepted up to this magnitude, so that every
/// intermediate difference stays within `i64`.
pub const INPUT_LIMIT: i64 = 1_000_000_000_000_000_000;

/// Canonical form of `x` on the circle: the unique value in `[0, FULL_TURN)`
/// that differs from `x` by a whole number of turns.
pub open spec fn canonical_of(x: int) -> int {
    x % (FULL_TURN as int)
}

/// Signed circular difference from `a` to `b`: the canonical difference,
/// recentred into `(-HALF_TURN, HALF_TURN]`.
pub open spec fn signed_diff(a: int, b: int) -> int {
    let d = canonical_of(b - a);
    if d > HALF_TURN {
        d - FULL_TURN
    } else {
        d
    }
}

/// `signed_diff` carried back into `i64`; the value always fits.
pub open spec fn signed_diff_64(a: int, b: int) -> i64 {
    signed_diff(a, b) as i64
}

pub proof fn lemma_signed_diff_range(a: int, b: int)
    ensures
        -(HALF_TURN as int) < signed_diff(a, b) <= HALF_TURN,
{
}

/// Reduces a raw micro-degree value to its canonical form in `[0, FULL_TURN)`.
pub fn normalize_360(x: i64) -> (r: i64)
    requires
        -4_000_000_000_000_000_000 <= x <= 4_000_000_000_000_000_000,
    ensures
        r == canonical_of(x as int),
        0 <= r < FULL_TURN,
{
    let m: i64 = x % FULL_TURN;
    if m < 0 {
        m + FULL_TURN
    } else {
        m
    }
}

/// Exec counterpart of `signed_diff`.
pub fn signed_difference(a: i64, b: i64) -> (r: i64)
    requires
        -2_000_000_000_000_000_000 <= a <= 2_000_000_000_000_000_000,
        -2_000_000_000_000_000_000 <= b <= 2_000_000_000_000_000_000,
    ensures
        r == signed_diff(a as int, b as int),
{
    let d = normalize_360(b - a);
    if d > HALF_TURN {
        d - FULL_TURN
    } else {
        d
    }
}

/// A canonical position on the circle, in micro-degrees.
#[derive(Clone, Copy, Debug, PartialEq, Eq, Structural)]
pub struct Angle360 {
    pub value: i64,
}

impl Angle360 {
    /// The value lies in the canonical range `[0, FULL_TURN)`.
    pub open spec fn is_canonical(self) -> bool {
        0 <= self.value < FULL_TURN
    }

    /// Builds a canonical angle from a raw micro-degree value, reducing it
    /// modulo a full turn.
    pub fn new(raw: i64) -> (r: Angle360)
        requires
            -4_000_000_000_000_000_000 <= raw <= 4_000_000_000_000_000_000,
        ensures
            r.value == canonical_of(raw as int),
            r.is_canonical(),
    {
        Angle360 { value: normalize_360(raw) }
    }

    /// The canonical micro-degree value.
    pub fn value(&self) -> (r: i64)
        ensures
            r == self.value,
    {
        self.value
    }

    /// Signed circular difference from `self` to `other`, in
    /// `(-HALF_TURN, HALF_TURN]`; negative values point the other way round.
    pub fn angle(&self, other: &Angle360) -> (r: i64)
        requires
            self.is_canonical(),
            other.is_canonical(),
        ensures
            r == signed_diff(self.value as int, other.value as int),
    {
        signed_difference(self.value, other.value)
    }
}

} // verus!
