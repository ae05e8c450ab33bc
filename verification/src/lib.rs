//! Conversion between three textual encodings of structured scripture documents: the
//! tag stream with backslash markers, the element tree in XML, and the object tree in
//! JSON. Every conversion goes through the canonical tree of the document.
//!
//! - `text`: helpers on characters and strings.
//! - `attributes`: ordered attribute lists.
//! - `markers`: the marker vocabulary and the classification of tag names.
//! - `token`, `lexer`: the tokens of a tag stream and the tokenizer.
//! - `tree`: the canonical tree.
//! - `builder`: the document under construction, with its three stacks of what is open.
//! - `usfm`, `usx`, `usj`: the readers of the three encodings.
//! - `emit`, `serialize_usfm`, `serialize_usx`, `serialize_usj`: the writers.
//! - `transform`: the conversion from one encoding to another.
//! - `model`: the typed objects of a document and their indices.
//! - `rules`: the rules on the attributes of elements.
//! - `headers`: the headers of a tag stream.
//! - `error`: the failures that end a conversion.
//! - `wellformed`: what holds of every node that the reader of tag streams builds.

pub mod attributes;
pub mod builder;
pub mod emit;
pub mod error;
pub mod headers;
pub mod lexer;
pub mod markers;
pub mod model;
pub mod rules;
pub mod serialize_usfm;
pub mod serialize_usj;
pub mod serialize_usx;
pub mod text;
pub mod token;
pub mod transform;
pub mod tree;
pub mod usfm;
pub mod usj;
pub mod usx;
pub mod wellformed;
