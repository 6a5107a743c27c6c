//! A directed, typed, attributed graph store kept in memory.
//!
//! Vertices and edges live in ordered indices; queries compose vertex and
//! edge lookups into pipelines; every operation carries a contract over the
//! mathematical model of the store.

pub mod errors;
pub mod index;
pub mod keys;
pub mod memory;
pub mod models;
pub mod queries;
pub mod rpc;
pub mod sequences;
pub mod util;
