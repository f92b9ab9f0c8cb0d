//! A chain inverse-kinematics library built around the FABRIK
//! (forward-and-backward-reaching) heuristic.
//!
//! Geometry is carried in fixed-point integer coordinates (see [`fixed`]),
//! so every routine is deterministic and free of non-number values.
//! The solver itself lives in [`chain`]; [`limb`] and [`satisficer`] hold
//! two smaller segment-list variants of the same idea.

pub mod fixed;
pub mod chain;
pub mod limb;
pub mod satisficer;
