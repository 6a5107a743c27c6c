//! The store that keeps the whole graph in memory.

pub mod datastore;
pub mod laws;
pub mod model;
