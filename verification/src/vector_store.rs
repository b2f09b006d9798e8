use vstd::prelude::*;

verus! {

/// The input a vector-store search tool takes: the query text and how
/// many hits to return.
#[derive(Debug, Clone)]
pub struct VectorStoreToolInput {
    pub query: String,
    pub limit: u64,
}

} // verus!
