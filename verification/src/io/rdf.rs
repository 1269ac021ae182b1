//! The RDF encoding of OWL 2 ontologies.

pub mod classes;
pub mod conservation;
pub mod declare;
pub mod imports;
pub mod merging;
pub mod moving;
pub mod order;
pub mod parser;
pub mod pending;
pub mod plain;
pub mod ranges;
pub mod reader;
pub mod recognise;
pub mod reify;
pub mod resolve;
pub mod roundtrip;
pub mod screen;
pub mod sequences;
pub mod sort;
pub mod table;
pub mod term;
pub mod writer;
