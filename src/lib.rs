//! Penrose tilings by substitution of Robinson triangles, in exact
//! arithmetic.
//!
//! [`point`] holds the exact plane, [`triangle`] the triangle model and the
//! substitution rule, [`tiling`] the repeated substitution of a working set.
pub mod point;
pub mod triangle;
pub mod tiling;
