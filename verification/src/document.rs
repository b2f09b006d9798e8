use vstd::prelude::*;

verus! {

/// Key/value metadata attached to a document. The splitter never reads
/// metadata; it only guarantees that output chunks carry an empty one.
#[derive(Debug, Clone)]
pub struct Metadata {
    pub entries: Vec<(String, String)>,
}

impl Metadata {
    pub open spec fn is_empty_spec(&self) -> bool {
        self.entries@.len() == 0
    }

    pub fn empty() -> (r: Metadata)
        ensures
            r.is_empty_spec(),
    {
        Metadata { entries: Vec::new() }
    }
}

impl Default for Metadata {
    fn default() -> (r: Metadata)
        ensures
            r.is_empty_spec(),
    {
        Metadata { entries: Vec::new() }
    }
}

/// A unit of text flowing through the pipeline: the splitter's input and
/// output. Output chunks never inherit the input's metadata.
#[derive(Debug, Clone)]
pub struct Document {
    pub content: String,
    pub metadata: Metadata,
}

/// A document as it sits in a store, under the id the store gave it.
#[derive(Debug, Clone)]
pub struct StoredDocument {
    pub id: String,
    pub document: Document,
}

/// The text of each document in a batch, in order.
pub open spec fn contents_of(docs: Seq<Document>) -> Seq<Seq<char>> {
    docs.map_values(|d: Document| d.content@)
}

/// Every document in the batch carries empty metadata.
pub open spec fn all_metadata_empty(docs: Seq<Document>) -> bool {
    forall|i: int| 0 <= i < docs.len() ==> (#[trigger] docs[i]).metadata.is_empty_spec()
}

} // verus!
