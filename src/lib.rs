//! Physics core of a small side-scrolling platformer: a player body that
//! jumps, drifts and wraps across screen edges, pushed out of circular and
//! square obstacles.
//!
//! All lengths are fixed-point integers in thousandths of a world unit, so
//! every rule is exact integer arithmetic.
pub mod geometry;
pub mod player;
pub mod collision;
pub mod accessory;
pub mod world;
