use vstd::prelude::*;

verus! {

/// The input the store-backed search tool takes: the query text and how
/// many hits to return.
#[derive(Debug, Clone)]
pub struct VectorStoreToolInput {
    pub query: String,
    pub limit: u64,
}

} // verus!
