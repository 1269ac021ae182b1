//! Reconstruction of OWL 2 ontologies from their RDF encoding.
//!
//! The library turns a bag of RDF triples into a typed ontology: a header and a
//! set of annotated axioms. Every function is verified against a mathematical
//! model of the data it handles.

pub mod adaptor;
pub mod io;
pub mod model;
pub mod ontology;
pub mod search;
pub mod text;
pub mod vocab;
