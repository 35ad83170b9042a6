//! Aspect matching between angular positions on a 360-degree circle.
//!
//! Given two positions, a target separation and a tolerance (the "orb"), the
//! library decides whether the two positions stand in that aspect, resolves
//! the ambiguity between a target and its rotational complement, and searches
//! an ordered list of candidate targets for the first, all, or the best match.
//!
//! Angles are measured in micro-degrees (millionths of a degree), held in
//! `i64` values, so that every computation is exact integer arithmetic.

pub mod angle;
pub mod aspect;
pub mod laws;
pub mod search;

pub use angle::Angle360;
pub use search::Aspect360;
pub use aspect::AspectOrb;
pub use aspect::AspectResult;
pub use aspect::to_aspect_orbs;
pub use angle::FULL_TURN;
pub use angle::HALF_TURN;
pub use angle::INPUT_LIMIT;
