use vstd::prelude::*;
use crate::document::{Document, contents_of, all_metadata_empty};
use crate::error::SplitError;
use crate::javascript_lang::{js_chunks, split_javascript};
use crate::language::{LangId, lang_of, lang_from_str};
use crate::parse::{parse_tree, parsed_tree_of, assembled};
use crate::python_lang::{python_chunks, split_python};
use crate::rust_lang::{rust_chunks, split_rust};
use crate::tree::TreeV;

verus! {

/// Splits source documents of one language into structural chunks.
/// `max_chunk_size` is a soft budget, measured in characters: only the
/// generic fallback packer enforces it, and a single indivisible node
/// may exceed it.
pub struct CodeSplitter {
    pub language: String,
    pub max_chunk_size: usize,
}

/// Step-by-step construction of a CodeSplitter.
pub struct CodeSplitterBuilder {
    pub language: Option<String>,
    pub max_chunk_size: Option<usize>,
}

impl CodeSplitterBuilder {
    /// A builder with nothing chosen yet.
    pub fn new() -> (r: CodeSplitterBuilder)
        ensures
            r.language is None,
            r.max_chunk_size is None,
    {
        CodeSplitterBuilder { language: None, max_chunk_size: None }
    }

    /// Choose the language identifier.
    pub fn language(self, language: String) -> (r: CodeSplitterBuilder)
        ensures
            r.language matches Some(l) && l@ == language@,
            r.max_chunk_size == self.max_chunk_size,
    {
        CodeSplitterBuilder { language: Some(language), ..self }
    }

    /// Choose the soft chunk-size budget.
    pub fn max_chunk_size(self, size: usize) -> (r: CodeSplitterBuilder)
        ensures
            r.max_chunk_size == Some(size),
            r.language == self.language,
    {
        CodeSplitterBuilder { max_chunk_size: Some(size), ..self }
    }

    /// Build the splitter; unset options take the defaults ("rust", 500).
    /// Construction itself never fails: an unknown language identifier
    /// surfaces only when splitting.
    pub fn build(self) -> (r: Result<CodeSplitter, SplitError>)
        ensures
            r matches Ok(s),
            r matches Ok(s) ==> {
                &&& (match self.language {
                    Some(l) => s.language@ == l@,
                    None => s.language@ == "rust"@,
                })
                &&& (match self.max_chunk_size {
                    Some(m) => s.max_chunk_size == m,
                    None => s.max_chunk_size == 500,
                })
            },
    {
        let language = match self.language {
            Some(l) => l,
            None => "rust".to_owned(),
        };
        let max_chunk_size = match self.max_chunk_size {
            Some(m) => m,
            None => 500,
        };
        Ok(CodeSplitter { language, max_chunk_size })
    }
}

/// The chunks of one well-formed tree under language `l` and budget `max`.
pub open spec fn lang_chunks(l: LangId, t: TreeV, max: int) -> Seq<Seq<char>> {
    match l {
        LangId::Rust => rust_chunks(t),
        LangId::Python => python_chunks(t, max),
        LangId::Javascript => js_chunks(t),
    }
}

/// The chunks one document's text yields under language `l` and budget
/// `max`: the extraction of the tree its grammar parses, or None when
/// the grammar yields no tree. A pure function of its three arguments.
pub open spec fn document_chunks(l: LangId, text: Seq<char>, max: int) -> Option<Seq<Seq<char>>> {
    match parsed_tree_of(l, text) {
        Some(rt) => Some(lang_chunks(l, assembled(rt), max)),
        None => None,
    }
}

/// The chunks a batch of texts yields, concatenated in input order; a
/// document the grammar cannot parse fails the whole batch.
pub open spec fn batch_result(l: LangId, max: int, texts: Seq<Seq<char>>) -> Option<Seq<Seq<char>>>
    decreases texts.len(),
{
    if texts.len() == 0 {
        Some(Seq::empty())
    } else {
        match document_chunks(l, texts[0], max) {
            Some(cs) => match batch_result(l, max, texts.drop_first()) {
                Some(rest) => Some(cs + rest),
                None => None,
            },
            None => None,
        }
    }
}

proof fn lemma_batch_result_push(l: LangId, max: int, texts: Seq<Seq<char>>, tx: Seq<char>)
    requires
        batch_result(l, max, texts) is Some,
        document_chunks(l, tx, max) is Some,
    ensures
        batch_result(l, max, texts.push(tx)) == Some(
            batch_result(l, max, texts)->0 + document_chunks(l, tx, max)->0,
        ),
    decreases texts.len(),
{
    if texts.len() == 0 {
        assert(texts.push(tx)[0] == tx);
        assert(texts.push(tx).drop_first() =~= Seq::<Seq<char>>::empty());
        assert(batch_result(l, max, texts.push(tx).drop_first()) == Some(Seq::<Seq<char>>::empty()));
        assert(batch_result(l, max, texts.push(tx)) == Some(
            document_chunks(l, tx, max)->0 + Seq::<Seq<char>>::empty(),
        ));
        assert(document_chunks(l, tx, max)->0 + Seq::<Seq<char>>::empty() =~= batch_result(
            l,
            max,
            texts,
        )->0 + document_chunks(l, tx, max)->0);
    } else {
        assert(texts.push(tx)[0] == texts[0]);
        assert(texts.push(tx).drop_first() =~= texts.drop_first().push(tx));
        lemma_batch_result_push(l, max, texts.drop_first(), tx);
        assert(batch_result(l, max, texts.push(tx)) == Some(
            document_chunks(l, texts[0], max)->0 + (batch_result(l, max, texts.drop_first())->0
                + document_chunks(l, tx, max)->0),
        ));
        assert(document_chunks(l, texts[0], max)->0 + (batch_result(l, max, texts.drop_first())->0
            + document_chunks(l, tx, max)->0) =~= (document_chunks(l, texts[0], max)->0
            + batch_result(l, max, texts.drop_first())->0) + document_chunks(l, tx, max)->0);
    }
}

proof fn lemma_batch_result_none(l: LangId, max: int, texts: Seq<Seq<char>>, i: int)
    requires
        0 <= i < texts.len(),
        document_chunks(l, texts[i], max) is None,
    ensures
        batch_result(l, max, texts) is None,
    decreases texts.len(),
{
    if i == 0 {
    } else {
        if document_chunks(l, texts[0], max) is Some {
            assert(texts.drop_first()[i - 1] == texts[i]);
            lemma_batch_result_none(l, max, texts.drop_first(), i - 1);
        }
    }
}

impl CodeSplitter {
    /// Start building a splitter.
    pub fn builder() -> (r: CodeSplitterBuilder)
        ensures
            r.language is None,
            r.max_chunk_size is None,
    {
        CodeSplitterBuilder::new()
    }

    /// Resolve this splitter's language identifier in the grammar
    /// registry; an identifier without a grammar is unsupported.
    fn get_language(&self) -> (r: Result<LangId, SplitError>)
        ensures
            r matches Ok(l) ==> lang_of(self.language@) == Some(l),
            r matches Err(e) ==> e == SplitError::UnsupportedLanguage && lang_of(self.language@)
                is None,
    {
        match lang_from_str(self.language.as_str()) {
            Some(l) => Ok(l),
            None => Err(SplitError::UnsupportedLanguage),
        }
    }

    /// Split one document's text: parse it, then run the extractor of
    /// this splitter's language on the tree. The chunks are exactly
    /// `document_chunks` of the text — a function of the language, the
    /// budget and the text alone — each carrying empty metadata, and
    /// the call fails exactly when the grammar yields no tree.
    pub fn split_document(&self, content: &str) -> (r: Result<Vec<Document>, SplitError>)
        ensures
            ((r matches Err(e) && e == SplitError::UnsupportedLanguage) <==> lang_of(
                self.language@,
            ) is None),
            lang_of(self.language@) matches Some(l) ==> {
                &&& ((r is Ok) <==> document_chunks(l, content@, self.max_chunk_size as int)
                    is Some)
                &&& (r matches Ok(chunks) ==> Some(contents_of(chunks@)) == document_chunks(
                    l,
                    content@,
                    self.max_chunk_size as int,
                ) && all_metadata_empty(chunks@))
            },
    {
        let lang = match self.get_language() {
            Ok(l) => l,
            Err(e) => {
                return Err(e);
            },
        };
        let tree = match parse_tree(lang, content) {
            Ok(t) => t,
            Err(e) => {
                return Err(e);
            },
        };
        let chunks = match lang {
            LangId::Rust => split_rust(&tree),
            LangId::Python => split_python(&tree, self.max_chunk_size),
            LangId::Javascript => split_javascript(&tree),
        };
        proof {
            assert(tree@ == assembled(parsed_tree_of(lang, content@)->0));
            assert(Some(contents_of(chunks@)) == document_chunks(
                lang,
                content@,
                self.max_chunk_size as int,
            ));
        }
        Ok(chunks)
    }

    /// Split a batch of documents: exactly `batch_result` over the
    /// inputs' texts — the concatenation, in input order, of each
    /// document's own chunks, themselves in source order — so equal
    /// inputs give equal outputs. No output inherits input metadata. A
    /// document the grammar cannot parse fails the whole batch (no
    /// partial result), and an unknown language identifier fails the
    /// batch even when it is empty.
    pub fn split(&self, docs: Vec<Document>) -> (r: Result<Vec<Document>, SplitError>)
        ensures
            ((r matches Err(e) && e == SplitError::UnsupportedLanguage) <==> lang_of(
                self.language@,
            ) is None),
            lang_of(self.language@) matches Some(l) ==> {
                &&& ((r is Ok) <==> batch_result(
                    l,
                    self.max_chunk_size as int,
                    contents_of(docs@),
                ) is Some)
                &&& (r matches Ok(out) ==> Some(contents_of(out@)) == batch_result(
                    l,
                    self.max_chunk_size as int,
                    contents_of(docs@),
                ) && all_metadata_empty(out@))
            },
    {
        let lang = match self.get_language() {
            Ok(l) => l,
            Err(e) => {
                return Err(e);
            },
        };
        let ghost max: int = self.max_chunk_size as int;
        let ghost texts: Seq<Seq<char>> = contents_of(docs@);
        let mut out: Vec<Document> = Vec::new();
        proof {
            assert(texts.subrange(0, 0) =~= Seq::<Seq<char>>::empty());
            assert(batch_result(lang, max, texts.subrange(0, 0)) == Some(contents_of(out@)));
        }
        for d in 0..docs.len()
            invariant
                lang_of(self.language@) == Some(lang),
                max == self.max_chunk_size as int,
                texts == contents_of(docs@),
                texts.len() == docs@.len(),
                batch_result(lang, max, texts.subrange(0, d as int)) == Some(contents_of(out@)),
                all_metadata_empty(out@),
        {
            proof {
                assert(texts[d as int] == docs@[d as int].content@);
            }
            let tree = match parse_tree(lang, docs[d].content.as_str()) {
                Ok(t) => t,
                Err(e) => {
                    proof {
                        lemma_batch_result_none(lang, max, texts, d as int);
                    }
                    return Err(e);
                },
            };
            let mut chunks = match lang {
                LangId::Rust => split_rust(&tree),
                LangId::Python => split_python(&tree, self.max_chunk_size),
                LangId::Javascript => split_javascript(&tree),
            };
            let ghost pre: Seq<Document> = out@;
            let ghost produced: Seq<Document> = chunks@;
            out.append(&mut chunks);
            proof {
                assert(tree@ == assembled(parsed_tree_of(lang, texts[d as int])->0));
                assert(document_chunks(lang, texts[d as int], max) == Some(contents_of(produced)));
                lemma_batch_result_push(lang, max, texts.subrange(0, d as int), texts[d as int]);
                assert(texts.subrange(0, d as int).push(texts[d as int]) =~= texts.subrange(
                    0,
                    d as int + 1,
                ));
                assert(out@ =~= pre + produced);
                assert(contents_of(pre + produced) =~= contents_of(pre) + contents_of(produced));
                assert forall|q: int| 0 <= q < out@.len() implies (#[trigger] out@[q])
                    .metadata.is_empty_spec() by {
                    if q < pre.len() {
                        assert(out@[q] == pre[q]);
                    } else {
                        assert(out@[q] == produced[q - pre.len()]);
                    }
                }
            }
        }
        proof {
            assert(texts.subrange(0, docs@.len() as int) =~= texts);
        }
        Ok(out)
    }
}

} // verus!
