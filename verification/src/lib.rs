//! Modularity of a partition of a weighted graph's nodes into communities.
//!
//! The crate validates a candidate assignment of nodes to communities,
//! aggregates the edge weights of each community, and reduces them to the
//! modularity score, kept as an exact quotient of integers.
pub mod graph;
pub mod partition;
pub mod weights;
pub mod score;
pub mod laws;
pub mod backend;
