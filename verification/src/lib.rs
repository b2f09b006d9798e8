//! Structural source-code chunking: parse a document in a supported
//! language into a syntax tree and cut it into semantically coherent
//! text chunks, preserving leading context (doc comments, attributes,
//! imports) and synthesizing container headers for extracted members.

pub mod document;
pub mod error;
pub mod strutil;
pub mod tree;
pub mod fallback;
pub mod rust_lang;
pub mod python_lang;
pub mod javascript_lang;
pub mod language;
pub mod parse;
pub mod splitter;
pub mod laws;
pub mod mdsplit;
pub mod completion;
pub mod message;
pub mod graph_store;
pub mod firecrawl;
pub mod memory;
pub mod retriever;
pub mod vector_store;
pub mod vectorstore;
