use ferrochain::document::Document;
use ferrochain::splitter::CodeSplitter;

fn doc(content: &str) -> Document {
    Document { content: content.to_string(), metadata: Default::default() }
}

fn py_splitter(max: usize) -> CodeSplitter {
    CodeSplitter::builder().language("python".to_string()).max_chunk_size(max).build().unwrap()
}

#[test]
fn python_definitions_within_budget_come_out_verbatim() {
    // Fallback idempotence: a definition already within the budget is
    // one chunk equal to its own text.
    let input = doc("def foo():\n    return 1\n\ndef bar():\n    return 2");
    let split_docs = py_splitter(500).split(vec![input]).unwrap();
    assert_eq!(split_docs.len(), 2);
    assert_eq!(split_docs[0].content, "def foo():\n    return 1");
    assert_eq!(split_docs[1].content, "def bar():\n    return 2");
}

#[test]
fn python_oversized_child_stays_whole() {
    // The fallback packer never splits inside a single child: with a
    // budget of one character, the definition's oversized body still
    // comes out as one whole chunk of its own.
    let input = doc("def foo():\n    return 1");
    let split_docs = py_splitter(1).split(vec![input]).unwrap();
    assert!(split_docs.iter().any(|d| d.content == "return 1"));
    assert!(split_docs.iter().all(|d| !d.content.is_empty()));
}

#[test]
fn python_ignores_loose_statements() {
    let input = doc("x = 1\n\ndef foo():\n    return x\n\nprint(x)");
    let split_docs = py_splitter(500).split(vec![input]).unwrap();
    assert_eq!(split_docs.len(), 1);
    assert_eq!(split_docs[0].content, "def foo():\n    return x");
}
