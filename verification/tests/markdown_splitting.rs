use ferrochain::document::{Document, Metadata};
use ferrochain::mdsplit::{MarkdownSplitError, MarkdownSplitter};

#[test]
fn markdown_splits_by_structure() {
    let splitter = MarkdownSplitter::builder().with_capacity(10).with_overlap(0).build();
    let input = Document {
        content: "# Header\n\nfrom a\ndocument".to_string(),
        metadata: Default::default(),
    };
    let split_docs = splitter.split(vec![input]).unwrap();
    let texts: Vec<&str> = split_docs.iter().map(|d| d.content.as_str()).collect();
    assert_eq!(texts, vec!["# Header", "from a", "document"]);
}

#[test]
fn markdown_keeps_input_metadata() {
    let splitter = MarkdownSplitter::builder().with_capacity(10).with_overlap(0).build();
    let input = Document {
        content: "# Header\n\nfrom a\ndocument".to_string(),
        metadata: Metadata { entries: vec![("file".to_string(), "a.md".to_string())] },
    };
    let split_docs = splitter.split(vec![input]).unwrap();
    assert!(split_docs.len() > 1);
    for d in &split_docs {
        assert_eq!(d.metadata.entries.len(), 1);
        assert_eq!(d.metadata.entries[0].0, "file");
    }
}

#[test]
fn markdown_rejects_overlap_at_capacity() {
    let splitter = MarkdownSplitter::builder().with_capacity(5).with_overlap(5).build();
    let input = Document { content: "abc".to_string(), metadata: Default::default() };
    let err = splitter.split(vec![input]).unwrap_err();
    assert!(matches!(err, MarkdownSplitError::OverlapTooLarge));
}
