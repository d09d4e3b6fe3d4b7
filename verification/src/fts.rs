//! Full-text search: the hybrid query that joins it with vector search.

pub mod hybrid;
