use vstd::prelude::*;

verus! {

/// What a completion backend reports about one of its models. Backends
/// outside this crate implement it; nothing here constrains them.
pub trait CompletionModel {
    fn id(&self) -> &str;

    fn name(&self) -> &str;

    fn max_tokens(&self) -> usize;

    fn tool_use(&self) -> bool;
}

/// A plain record of a completion model's reported attributes.
#[derive(Debug, Clone)]
pub struct CompletionModelData {
    pub id: String,
    pub name: String,
    pub max_tokens: usize,
}

/// One event of a completion stream, tagged with the index of the
/// message it belongs to.
#[derive(Debug, Clone)]
pub struct StreamEventEnvelope<Inner> {
    pub index: u64,
    pub event: StreamEvent<Inner>,
}

/// The phases of a streamed completion for one message.
#[derive(Debug, Clone)]
pub enum StreamEvent<Inner> {
    Start { index: u64, model: String, role: String, inner: Inner },
    Delta { index: u64, inner: Inner },
    End { stop_reason: String },
}

} // verus!
