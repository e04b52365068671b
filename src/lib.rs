//! A commit-reveal lottery over three-dimensional integer points.
//!
//! Participants commit to a SHA-256 digest of their point, reveal it after a
//! fixed delay, and once every point is known a reference point is derived
//! from all of them; the participants closest to and farthest from it win and
//! lose the round.
pub mod hashing;
pub mod prime;
pub mod program;
pub mod simulate;
pub mod winner;
