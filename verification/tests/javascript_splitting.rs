use ferrochain::document::Document;
use ferrochain::splitter::CodeSplitter;

fn doc(content: &str) -> Document {
    Document { content: content.to_string(), metadata: Default::default() }
}

fn js_splitter() -> CodeSplitter {
    CodeSplitter::builder().language("javascript".to_string()).build().unwrap()
}

#[test]
fn javascript_class_methods_and_free_function() {
    // A top-level class with two methods and one free function, preceded
    // by an import: the free function's chunk is prefixed by the import
    // line; each method chunk is wrapped in a minimal class-name header
    // rather than carrying the import.
    let input = doc(
        "import { x } from './x.js';\n\nclass Greeter {\n  hello() { return 1; }\n  bye() { return 2; }\n}\n\nfunction free() { return 3; }",
    );
    let split_docs = js_splitter().split(vec![input]).unwrap();
    assert_eq!(split_docs.len(), 4);

    let free_chunk = split_docs
        .iter()
        .find(|d| d.content.contains("function free"))
        .expect("free function chunk");
    assert_eq!(free_chunk.content.lines().next().unwrap(), "import { x } from './x.js';");

    let method_chunks: Vec<_> =
        split_docs.iter().filter(|d| d.content.starts_with("class Greeter {")).collect();
    assert_eq!(method_chunks.len(), 2);
    for m in &method_chunks {
        assert!(!m.content.contains("import"));
        assert_eq!(m.content.lines().next().unwrap(), "class Greeter {");
        assert!(m.content.ends_with("\n}"));
    }
    assert!(method_chunks.iter().any(|m| m.content.contains("hello()")));
    assert!(method_chunks.iter().any(|m| m.content.contains("bye()")));
}

#[test]
fn javascript_function_carries_context() {
    let input = doc("import a from 'a';\nvar top = 1;\n\nfunction f() { return top; }");
    let split_docs = js_splitter().split(vec![input]).unwrap();
    assert_eq!(split_docs.len(), 1);
    let lines: Vec<&str> = split_docs[0].content.lines().collect();
    assert_eq!(lines[0], "import a from 'a';");
    assert_eq!(lines[1], "var top = 1;");
    assert_eq!(lines[2], "function f() { return top; }");
}

#[test]
fn javascript_trailing_import_produces_no_chunk() {
    let input = doc("function f() { return 1; }\nimport z from 'z';");
    let split_docs = js_splitter().split(vec![input]).unwrap();
    assert_eq!(split_docs.len(), 1);
    assert_eq!(split_docs[0].content, "function f() { return 1; }");
}
