use vstd::prelude::*;

verus! {

/// What a tool invocation returned, keyed by the invocation's id.
#[derive(Debug, Clone)]
pub struct ToolResult {
    pub id: String,
    pub content: String,
}

/// Where a message's image comes from.
#[derive(Debug, Clone)]
pub enum ImageSource {
    Base64 { data: String },
    Url { url: String },
}

} // verus!
