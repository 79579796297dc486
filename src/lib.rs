//! Pairwise distances between vectors of one length: which formula a call
//! evaluates, decided from the shapes of its inputs and the selected measure,
//! and the index-by-index reductions that the formulas are built on.

pub mod accumulate;
pub mod distances;
