use vstd::prelude::*;

verus! {

/// The input a retriever tool takes: the question to retrieve for.
#[derive(Debug, Clone)]
pub struct RetrieverToolInput {
    pub query: String,
}

} // verus!
