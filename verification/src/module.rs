//! Helpers for the modules of a package.
pub mod base;
pub mod graph;
