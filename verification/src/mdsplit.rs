use vstd::prelude::*;
use crate::document::{Document, contents_of};

verus! {

/// The chunks text_splitter's markdown strategy produces for a text
/// under a capacity and an overlap: a pure function of those three
/// alone, too intricate to restate here.
pub uninterp spec fn md_chunks_of(text: Seq<char>, capacity: int, overlap: int) -> Seq<Seq<char>>;

/// Relies on text_splitter's ChunkConfig and MarkdownSplitter: the
/// configuration is rejected exactly when the overlap reaches the
/// capacity, and the chunks depend on the text and configuration alone.
#[verifier::external_body]
fn md_split_text(text: &str, capacity: usize, overlap: usize) -> (r: Option<Vec<String>>)
    ensures
        r is Some <==> overlap < capacity,
        r matches Some(cs) ==> cs.deep_view() == md_chunks_of(
            text@,
            capacity as int,
            overlap as int,
        ),
{
    let config = text_splitter::ChunkConfig::new(capacity).with_overlap(overlap).ok()?;
    Some(
        text_splitter::MarkdownSplitter::new(config).chunks(text).map(|c| c.to_string()).collect(),
    )
}

/// The markdown splitter's configuration was rejected.
#[derive(Debug, Clone, Copy, PartialEq, Eq, Structural)]
pub enum MarkdownSplitError {
    /// The overlap must be strictly smaller than the capacity.
    OverlapTooLarge,
}

/// Splits markdown documents by semantic structure, through
/// text_splitter, up to `capacity` characters per chunk with `overlap`
/// characters shared between neighbours.
pub struct MarkdownSplitter {
    pub capacity: usize,
    pub overlap: usize,
}

/// Step-by-step construction of a MarkdownSplitter.
pub struct MarkdownSplitterBuilder {
    pub capacity: Option<usize>,
    pub overlap: Option<usize>,
}

impl MarkdownSplitterBuilder {
    /// Choose the chunk capacity.
    pub fn with_capacity(self, capacity: usize) -> (r: MarkdownSplitterBuilder)
        ensures
            r.capacity == Some(capacity),
            r.overlap == self.overlap,
    {
        MarkdownSplitterBuilder { capacity: Some(capacity), ..self }
    }

    /// Choose the overlap between neighbouring chunks.
    pub fn with_overlap(self, overlap: usize) -> (r: MarkdownSplitterBuilder)
        ensures
            r.overlap == Some(overlap),
            r.capacity == self.capacity,
    {
        MarkdownSplitterBuilder { overlap: Some(overlap), ..self }
    }

    /// Build the splitter. Both options must have been chosen.
    pub fn build(self) -> (r: MarkdownSplitter)
        requires
            self.capacity is Some,
            self.overlap is Some,
        ensures
            Some(r.capacity) == self.capacity,
            Some(r.overlap) == self.overlap,
    {
        let capacity = match self.capacity {
            Some(c) => c,
            None => 0,
        };
        let overlap = match self.overlap {
            Some(o) => o,
            None => 0,
        };
        MarkdownSplitter { capacity, overlap }
    }
}

/// The chunk texts of a batch of documents, flattened in input order.
pub open spec fn md_batch(capacity: int, overlap: int, docs: Seq<Document>) -> Seq<Seq<char>>
    decreases docs.len(),
{
    if docs.len() == 0 {
        Seq::empty()
    } else {
        md_chunks_of(docs[0].content@, capacity, overlap) + md_batch(
            capacity,
            overlap,
            docs.drop_first(),
        )
    }
}

proof fn lemma_md_batch_push(capacity: int, overlap: int, docs: Seq<Document>, d: Document)
    ensures
        md_batch(capacity, overlap, docs.push(d)) == md_batch(capacity, overlap, docs)
            + md_chunks_of(d.content@, capacity, overlap),
    decreases docs.len(),
{
    if docs.len() == 0 {
        assert(docs.push(d)[0] == d);
        assert(docs.push(d).drop_first() =~= Seq::<Document>::empty());
        assert(md_batch(capacity, overlap, docs.push(d)) == md_chunks_of(
            d.content@,
            capacity,
            overlap,
        ) + md_batch(capacity, overlap, docs.push(d).drop_first()));
        assert(md_batch(capacity, overlap, docs.push(d).drop_first()) =~= Seq::<Seq<char>>::empty());
        assert(md_batch(capacity, overlap, docs.push(d)) =~= md_batch(capacity, overlap, docs)
            + md_chunks_of(d.content@, capacity, overlap));
    } else {
        assert(docs.push(d)[0] == docs[0]);
        assert(docs.push(d).drop_first() =~= docs.drop_first().push(d));
        lemma_md_batch_push(capacity, overlap, docs.drop_first(), d);
        assert(md_batch(capacity, overlap, docs.push(d)) =~= md_batch(capacity, overlap, docs)
            + md_chunks_of(d.content@, capacity, overlap));
    }
}

/// `d` carries the metadata of some document in `docs`.
pub open spec fn metadata_from_batch(d: Document, docs: Seq<Document>) -> bool {
    exists|j: int| 0 <= j < docs.len() && d.metadata.entries@ == docs[j].metadata.entries@
}

impl MarkdownSplitter {
    /// Start building a markdown splitter.
    pub fn builder() -> (r: MarkdownSplitterBuilder)
        ensures
            r.capacity is None,
            r.overlap is None,
    {
        MarkdownSplitterBuilder { capacity: None, overlap: None }
    }

    /// Split a batch of markdown documents. Fails exactly when the
    /// overlap reaches the capacity; otherwise the output texts are the
    /// chunks of each input in order, and every output document keeps
    /// the metadata of the input it came from.
    pub fn split(&self, docs: Vec<Document>) -> (r: Result<
        Vec<Document>,
        MarkdownSplitError,
    >)
        ensures
            r is Ok <==> self.overlap < self.capacity,
            r matches Ok(out) ==> contents_of(out@) == md_batch(
                self.capacity as int,
                self.overlap as int,
                docs@,
            ),
            r matches Ok(out) ==> forall|i: int|
                0 <= i < out@.len() ==> metadata_from_batch(#[trigger] out@[i], docs@),
    {
        if self.overlap >= self.capacity {
            return Err(MarkdownSplitError::OverlapTooLarge);
        }
        let ghost cap: int = self.capacity as int;
        let ghost ov: int = self.overlap as int;
        let mut out: Vec<Document> = Vec::new();
        proof {
            assert(contents_of(out@) =~= md_batch(cap, ov, docs@.subrange(0, 0)));
        }
        for d in 0..docs.len()
            invariant
                self.overlap < self.capacity,
                cap == self.capacity as int,
                ov == self.overlap as int,
                contents_of(out@) == md_batch(cap, ov, docs@.subrange(0, d as int)),
                forall|i: int| 0 <= i < out@.len() ==> metadata_from_batch(#[trigger] out@[i], docs@),
        {
            let chunk_texts = match md_split_text(
                docs[d].content.as_str(),
                self.capacity,
                self.overlap,
            ) {
                Some(cs) => cs,
                None => {
                    return Err(MarkdownSplitError::OverlapTooLarge);
                },
            };
            let ghost pre: Seq<Document> = out@;
            let meta = duplicate_metadata(&docs[d].metadata);
            let mut c: usize = 0;
            let n = chunk_texts.len();
            let mut texts = chunk_texts;
            proof {
                assert(pre + Seq::<Document>::empty() =~= pre);
            }
            while c < n
                invariant
                    c <= n,
                    n == texts@.len(),
                    texts.deep_view() == md_chunks_of(docs@[d as int].content@, cap, ov),
                    meta.entries@ == docs@[d as int].metadata.entries@,
                    0 <= d < docs@.len(),
                    contents_of(out@) == contents_of(pre) + texts.deep_view().subrange(
                        0,
                        c as int,
                    ),
                    forall|i: int|
                        0 <= i < out@.len() ==> metadata_from_batch(#[trigger] out@[i], docs@),
                decreases n - c,
            {
                let content = texts[c].clone();
                let m2 = duplicate_metadata(&meta);
                let ghost entry_out: Seq<Document> = out@;
                let ghost pushed_text: Seq<char> = content@;
                out.push(Document { content, metadata: m2 });
                proof {
                    assert(pushed_text == texts@[c as int]@);
                    assert(texts.deep_view()[c as int] == texts@[c as int].deep_view());
                    assert(out@.last().metadata.entries@ == docs@[d as int].metadata.entries@);
                    assert(metadata_from_batch(out@.last(), docs@));
                    assert(contents_of(out@) =~= contents_of(entry_out) + seq![pushed_text]);
                    assert(texts.deep_view().subrange(0, c as int + 1)
                        =~= texts.deep_view().subrange(0, c as int) + seq![
                        texts.deep_view()[c as int],
                    ]);
                    assert(contents_of(out@) =~= contents_of(pre) + (texts.deep_view().subrange(
                        0,
                        c as int,
                    ) + seq![texts.deep_view()[c as int]]));
                }
                c = c + 1;
            }
            proof {
                assert(texts.deep_view().subrange(0, n as int) =~= texts.deep_view());
                lemma_md_batch_push(cap, ov, docs@.subrange(0, d as int), docs@[d as int]);
                assert(docs@.subrange(0, d as int).push(docs@[d as int]) =~= docs@.subrange(
                    0,
                    d as int + 1,
                ));
            }
        }
        proof {
            assert(docs@.subrange(0, docs@.len() as int) =~= docs@);
        }
        Ok(out)
    }
}

/// A field-for-field copy of a metadata map, proved to keep its entries.
fn duplicate_metadata(m: &crate::document::Metadata) -> (r: crate::document::Metadata)
    ensures
        r.entries@ == m.entries@,
{
    let mut entries: Vec<(String, String)> = Vec::new();
    let n = m.entries.len();
    for i in 0..n
        invariant
            n == m.entries@.len(),
            entries@.len() == i,
            forall|j: int| 0 <= j < i ==> entries@[j] == m.entries@[j],
    {
        let k = m.entries[i].0.clone();
        let v = m.entries[i].1.clone();
        entries.push((k, v));
        proof {
            assert(entries@.last() == m.entries@[i as int]);
        }
    }
    proof {
        assert(entries@ =~= m.entries@);
    }
    crate::document::Metadata { entries }
}

} // verus!
