//! The OWL 2 data model: entities, literals, expressions and axioms.

pub mod axioms;
pub mod entity;
pub mod expression;
pub mod literal;
pub mod set;
