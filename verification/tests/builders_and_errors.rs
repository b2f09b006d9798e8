use ferrochain::completion::CompletionModelData;
use ferrochain::document::Document;
use ferrochain::error::SplitError;
use ferrochain::firecrawl::{FirecrawlRetrieverBuilder, ScrapeFormat};
use ferrochain::memory::SurrealDbMemoryBuilder;
use ferrochain::graph_store::Neo4jGraphStoreBuilder;
use ferrochain::message::{ImageSource, ToolResult};
use ferrochain::parse::parse;
use ferrochain::retriever::RetrieverToolInput;
use ferrochain::splitter::{CodeSplitter, CodeSplitterBuilder};

fn doc(content: &str) -> Document {
    Document { content: content.to_string(), metadata: Default::default() }
}

#[test]
fn builder_defaults_to_rust_and_500() {
    let splitter = CodeSplitterBuilder::new().build().unwrap();
    assert_eq!(splitter.language, "rust");
    assert_eq!(splitter.max_chunk_size, 500);
}

#[test]
fn builder_keeps_choices() {
    let splitter = CodeSplitter::builder()
        .language("python".to_string())
        .max_chunk_size(42)
        .build()
        .unwrap();
    assert_eq!(splitter.language, "python");
    assert_eq!(splitter.max_chunk_size, 42);
}

#[test]
fn unsupported_language_fails_the_batch() {
    let splitter = CodeSplitter::builder().language("cobol".to_string()).build().unwrap();
    let err = splitter.split(vec![doc("fn a() {}")]).unwrap_err();
    assert!(matches!(err, SplitError::UnsupportedLanguage));
    assert_eq!(err.message(), "unsupported language");
    // The identifier is checked before any document, so even an empty
    // batch fails.
    let err = splitter.split(vec![]).unwrap_err();
    assert!(matches!(err, SplitError::UnsupportedLanguage));
}

#[test]
fn parse_adapter_checks_the_registry() {
    assert!(parse("fn a() {}", "rust").is_ok());
    assert!(parse("def a(): pass", "python").is_ok());
    assert!(parse("function a() {}", "javascript").is_ok());
    let err = parse("anything", "cobol").unwrap_err();
    assert!(matches!(err, SplitError::UnsupportedLanguage));
}

#[test]
fn neo4j_builder_collects_settings() {
    let b = Neo4jGraphStoreBuilder::default()
        .with_url("bolt://localhost:7687".to_string())
        .with_username("neo4j".to_string())
        .with_password("SECRET-REDACTED".to_string());
    assert_eq!(b.url.as_deref(), Some("bolt://localhost:7687"));
    assert_eq!(b.username.as_deref(), Some("neo4j"));
    assert_eq!(b.password.as_deref(), Some("SECRET-REDACTED"));
}

#[test]
fn plain_records_hold_their_fields() {
    let m = CompletionModelData {
        id: "m-1".to_string(),
        name: "model one".to_string(),
        max_tokens: 8192,
    };
    assert_eq!(m.max_tokens, 8192);

    let t = ToolResult { id: "t-1".to_string(), content: "ok".to_string() };
    assert_eq!(t.content, "ok");

    let i = ImageSource::Url { url: "https://example.com/a.png".to_string() };
    assert!(matches!(i, ImageSource::Url { .. }));

    let r = RetrieverToolInput { query: "what is a splitter".to_string() };
    assert_eq!(r.query, "what is a splitter");

    let v1 = ferrochain::vector_store::VectorStoreToolInput {
        query: "q".to_string(),
        limit: 5,
    };
    assert_eq!(v1.limit, 5);
    let v2 = ferrochain::vectorstore::VectorStoreToolInput {
        query: "q".to_string(),
        limit: 7,
    };
    assert_eq!(v2.limit, 7);
}

#[test]
fn firecrawl_builder_collects_settings() {
    let b = FirecrawlRetrieverBuilder::default()
        .with_api_key("SECRET-REDACTED".to_string())
        .with_formats(vec![ScrapeFormat::Markdown, ScrapeFormat::Links]);
    assert_eq!(b.api_key.as_deref(), Some("SECRET-REDACTED"));
    assert_eq!(b.formats, Some(vec![ScrapeFormat::Markdown, ScrapeFormat::Links]));
}

#[test]
fn memory_builder_collects_table() {
    let b = SurrealDbMemoryBuilder::default().with_table("messages".to_string());
    assert_eq!(b.table.as_deref(), Some("messages"));
}
