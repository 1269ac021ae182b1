//! Reading and writing ontologies.

pub mod rdf;
