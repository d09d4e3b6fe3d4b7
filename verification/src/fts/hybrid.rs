//! The parameters of a hybrid search.

use vstd::prelude::*;

verus! {

/// What a hybrid search asks for: a full-text query and a vector query, and
/// how to weigh the one against the other. The query vector is held by the
/// bits of its 32-bit components, each weight by the bits of a 64-bit
/// float.
pub struct HybridQuery<'a> {
    pub fts_index: &'a str,
    pub vec_index: &'a str,
    pub query_text: &'a str,
    pub query_vec: &'a [u32],
    pub metric: &'a str,
    pub limit: usize,
    pub fts_weight: u64,
    pub vec_weight: u64,
    pub num_candidates: Option<usize>,
    pub pre_filter: Option<Vec<(&'a str, &'a str)>>,
}

} // verus!
