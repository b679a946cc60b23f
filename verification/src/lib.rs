//! Steering and integration of a pursuing agent on an integer lattice.
//!
//! Coordinates are whole numbers of lattice units; the caller chooses how many
//! lattice units make one world unit. Every operation here is homogeneous in
//! that choice, so the rules do not depend on it.

pub mod agent;
pub mod laws;
pub mod orientation;
pub mod sqrt;
pub mod steering;
pub mod vector;
