use ferrochain::document::Document;
use ferrochain::splitter::CodeSplitter;

fn doc(content: &str) -> Document {
    Document { content: content.to_string(), metadata: Default::default() }
}

#[test]
fn test_rust_code_splitting() {
    let splitter = CodeSplitter::builder().language("rust".to_string()).build().unwrap();

    let input = doc(r#"
/// A person with a name and age
#[derive(Debug, Clone)]
pub(crate) struct Person {
    pub name: String,
    age: u32,
}

impl Person {
    /// Creates a new Person
    pub fn new(name: String, age: u32) -> Self {
        Self { name, age }
    }

    /// Greets the person
    fn greet(&self) {
        println!("Hello, my name is {} and I'm {} years old.", self.name, self.age);
    }
}
            "#
    .trim());

    let split_docs = splitter.split(vec![input]).unwrap();

    assert_eq!(split_docs.len(), 3);
    assert_eq!(
        split_docs[0].content.lines().next().unwrap(),
        "/// A person with a name and age"
    );
    assert_eq!(split_docs[1].content.lines().next().unwrap(), "impl Person {");
    assert_eq!(split_docs[2].content.lines().next().unwrap(), "impl Person {");
}

#[test]
fn test_rust_enum_splitting() {
    let splitter = CodeSplitter::builder().language("rust".to_string()).build().unwrap();

    let input = doc(r#"
/// An enum representing different shapes
pub enum Shape {
    Circle(f64),
    Rectangle(f64, f64),
    Triangle(f64, f64, f64),
}

impl Shape {
    /// Calculates the area of the shape
    pub fn area(&self) -> f64 {
        match self {
            Shape::Circle(r) => std::f64::consts::PI * r * r,
            Shape::Rectangle(w, h) => w * h,
            Shape::Triangle(a, b, c) => {
                let s = (a + b + c) / 2.0;
                (s * (s - a) * (s - b) * (s - c)).sqrt()
            }
        }
    }
}
            "#
    .trim());

    let split_docs = splitter.split(vec![input]).unwrap();

    assert_eq!(split_docs.len(), 2);
    assert_eq!(
        split_docs[0].content.lines().next().unwrap(),
        "/// An enum representing different shapes"
    );
    assert_eq!(split_docs[1].content.lines().next().unwrap(), "impl Shape {");
}

#[test]
fn test_rust_trait_splitting() {
    let splitter = CodeSplitter::builder().language("rust".to_string()).build().unwrap();

    let input = doc(r#"
/// A trait for printable objects
pub trait Printable {
    fn print(&self);
}

impl Printable for String {
    fn print(&self) {
        println!("{}", self);
    }
}

impl<T: std::fmt::Debug> Printable for Vec<T> {
    /// Some comment
    fn print(&self) {
        println!("{:?}", self);
    }
}
            "#
    .trim());

    let split_docs = splitter.split(vec![input]).unwrap();

    assert_eq!(split_docs.len(), 3);
    assert_eq!(
        split_docs[0].content.lines().next().unwrap(),
        "/// A trait for printable objects"
    );
    assert_eq!(
        split_docs[1].content.lines().next().unwrap(),
        "impl Printable for String {"
    );
    assert_eq!(
        split_docs[2].content.lines().next().unwrap(),
        "impl<T: std::fmt::Debug> Printable for Vec<T> {"
    );
}

#[test]
fn test_rust_top_level_extraction() {
    let splitter = CodeSplitter::builder().language("rust".to_string()).build().unwrap();

    let input = doc(r#"
/// A constant value
const PI: f64 = 3.14159;

/// A type alias
type Point = (f64, f64);

/// A struct representing a circle
#[derive(Debug, Clone, Copy)]
pub struct Circle {
    radius: f64,
}

/// A function to calculate area
pub fn calculate_area(radius: f64) -> f64 {
    PI * radius * radius
}

/// A macro for creating a point
#[macro_export]
macro_rules! point {
    ($x:expr, $y:expr) => {
        Point($x, $y)
    };
}
            "#
    .trim());

    let split_docs = splitter.split(vec![input]).unwrap();

    assert_eq!(split_docs.len(), 5);
    assert_eq!(split_docs[0].content.lines().next().unwrap(), "/// A constant value");
    assert_eq!(split_docs[1].content.lines().next().unwrap(), "/// A type alias");
    assert_eq!(
        split_docs[2].content.lines().next().unwrap(),
        "/// A struct representing a circle"
    );
    assert_eq!(
        split_docs[3].content.lines().next().unwrap(),
        "/// A function to calculate area"
    );
    assert_eq!(
        split_docs[4].content.lines().next().unwrap(),
        "/// A macro for creating a point"
    );
}

#[test]
fn rust_coverage_within_budget() {
    // Every top-level declaration is reconstructed exactly once, in order.
    let splitter = CodeSplitter::builder().language("rust".to_string()).build().unwrap();
    let input = doc("struct A;\n\nfn b() {}\n\nconst C: u8 = 1;");
    let split_docs = splitter.split(vec![input]).unwrap();
    assert_eq!(split_docs.len(), 3);
    assert_eq!(split_docs[0].content, "struct A;");
    assert_eq!(split_docs[1].content, "fn b() {}");
    assert_eq!(split_docs[2].content, "const C: u8 = 1;");
}

#[test]
fn rust_trailing_import_produces_no_chunk() {
    // A context-accumulating node as the very last child adds nothing,
    // and a second run over the same input sees nothing of it either.
    let splitter = CodeSplitter::builder().language("rust".to_string()).build().unwrap();
    let input = "fn a() {}\n\nuse std::fmt;";
    let first = splitter.split(vec![doc(input)]).unwrap();
    assert_eq!(first.len(), 1);
    assert_eq!(first[0].content, "fn a() {}");
    let second = splitter.split(vec![doc(input)]).unwrap();
    assert_eq!(second.len(), 1);
    assert_eq!(second[0].content, "fn a() {}");
}

#[test]
fn rust_empty_impl_produces_no_member_chunks() {
    let splitter = CodeSplitter::builder().language("rust".to_string()).build().unwrap();
    let input = doc("struct Foo;\n\nimpl Foo {}");
    let split_docs = splitter.split(vec![input]).unwrap();
    assert_eq!(split_docs.len(), 1);
    assert_eq!(split_docs[0].content, "struct Foo;");
}

#[test]
fn rust_empty_input_produces_no_chunks() {
    let splitter = CodeSplitter::builder().language("rust".to_string()).build().unwrap();
    let split_docs = splitter.split(vec![doc("")]).unwrap();
    assert_eq!(split_docs.len(), 0);
}

#[test]
fn rust_method_headers_are_identical() {
    // Two methods of the same implementation-for-type container open
    // with byte-identical header lines.
    let splitter = CodeSplitter::builder().language("rust".to_string()).build().unwrap();
    let input = doc("impl Widget for Gadget {\n    fn a(&self) {}\n\n    fn b(&self) {}\n}");
    let split_docs = splitter.split(vec![input]).unwrap();
    assert_eq!(split_docs.len(), 2);
    let h1 = split_docs[0].content.lines().next().unwrap().to_string();
    let h2 = split_docs[1].content.lines().next().unwrap().to_string();
    assert_eq!(h1, h2);
    assert_eq!(h1, "impl Widget for Gadget {");
}

#[test]
fn output_metadata_is_reset() {
    let splitter = CodeSplitter::builder().language("rust".to_string()).build().unwrap();
    let input = Document {
        content: "fn a() {}".to_string(),
        metadata: ferrochain::document::Metadata {
            entries: vec![("source".to_string(), "lib.rs".to_string())],
        },
    };
    let split_docs = splitter.split(vec![input]).unwrap();
    assert_eq!(split_docs.len(), 1);
    assert!(split_docs[0].metadata.entries.is_empty());
}

#[test]
fn batch_output_keeps_input_order() {
    let splitter = CodeSplitter::builder().language("rust".to_string()).build().unwrap();
    let split_docs = splitter.split(vec![doc("fn first() {}"), doc("fn second() {}")]).unwrap();
    assert_eq!(split_docs.len(), 2);
    assert_eq!(split_docs[0].content, "fn first() {}");
    assert_eq!(split_docs[1].content, "fn second() {}");
}

#[test]
fn rust_extractor_never_enforces_the_budget() {
    // The size budget is soft: structural extractors emit oversized
    // declarations whole; only the fallback packer enforces it.
    let splitter = CodeSplitter::builder()
        .language("rust".to_string())
        .max_chunk_size(5)
        .build()
        .unwrap();
    let input = doc("fn long_enough_to_exceed_the_budget() { let x = 1; }");
    let split_docs = splitter.split(vec![input]).unwrap();
    assert_eq!(split_docs.len(), 1);
    assert_eq!(split_docs[0].content, "fn long_enough_to_exceed_the_budget() { let x = 1; }");
}
