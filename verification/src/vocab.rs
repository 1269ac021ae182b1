//! The closed vocabularies of OWL, RDF and RDF Schema.
//!
//! Each token has a canonical IRI and a rank; tokens of one vocabulary are
//! ordered by rank, which follows the alphabetical order of their names.

use crate::search::{first_index, lemma_first_index_is, lemma_first_index_none};
use crate::text::same_text;
use vstd::prelude::*;

verus! {

/// Tokens of the OWL vocabulary.
#[derive(Clone, Copy, Debug, PartialEq, Eq, Structural, Hash)]
pub enum OWL {
    AllValuesFrom,
    AnnotatedProperty,
    AnnotatedSource,
    AnnotatedTarget,
    AnnotationProperty,
    AsymmetricProperty,
    Axiom,
    Cardinality,
    Class,
    ComplementOf,
    DatatypeComplementOf,
    DatatypeProperty,
    DifferentFrom,
    DisjointUnionOf,
    DisjointWith,
    DistinctMembers,
    EquivalentClass,
    EquivalentProperty,
    FunctionalProperty,
    HasKey,
    HasSelf,
    HasValue,
    Imports,
    IntersectionOf,
    InverseFunctionalProperty,
    InverseOf,
    IrreflexiveProperty,
    MaxCardinality,
    MaxQualifiedCardinality,
    Members,
    MinCardinality,
    MinQualifiedCardinality,
    NamedIndividual,
    NegativePropertyAssertion,
    Nothing,
    ObjectProperty,
    OnClass,
    OnDataRange,
    OnDatatype,
    OnProperty,
    OneOf,
    Ontology,
    PropertyChainAxiom,
    PropertyDisjointWith,
    QualifiedCardinality,
    ReflexiveProperty,
    Restriction,
    SameAs,
    SomeValuesFrom,
    SourceIndividual,
    SymmetricProperty,
    TargetIndividual,
    TargetValue,
    Thing,
    TopDataProperty,
    TopObjectProperty,
    TransitiveProperty,
    UnionOf,
    VersionIRI,
    VersionInfo,
    WithRestrictions,
}

impl OWL {
    /// The canonical IRI of the token.
    pub open spec fn iri_text(self) -> Seq<char> {
        match self {
            OWL::AllValuesFrom => "http://www.w3.org/2002/07/owl#allValuesFrom"@,
            OWL::AnnotatedProperty => "http://www.w3.org/2002/07/owl#annotatedProperty"@,
            OWL::AnnotatedSource => "http://www.w3.org/2002/07/owl#annotatedSource"@,
            OWL::AnnotatedTarget => "http://www.w3.org/2002/07/owl#annotatedTarget"@,
            OWL::AnnotationProperty => "http://www.w3.org/2002/07/owl#AnnotationProperty"@,
            OWL::AsymmetricProperty => "http://www.w3.org/2002/07/owl#AsymmetricProperty"@,
            OWL::Axiom => "http://www.w3.org/2002/07/owl#Axiom"@,
            OWL::Cardinality => "http://www.w3.org/2002/07/owl#cardinality"@,
            OWL::Class => "http://www.w3.org/2002/07/owl#Class"@,
            OWL::ComplementOf => "http://www.w3.org/2002/07/owl#complementOf"@,
            OWL::DatatypeComplementOf => "http://www.w3.org/2002/07/owl#datatypeComplementOf"@,
            OWL::DatatypeProperty => "http://www.w3.org/2002/07/owl#DatatypeProperty"@,
            OWL::DifferentFrom => "http://www.w3.org/2002/07/owl#differentFrom"@,
            OWL::DisjointUnionOf => "http://www.w3.org/2002/07/owl#disjointUnionOf"@,
            OWL::DisjointWith => "http://www.w3.org/2002/07/owl#disjointWith"@,
            OWL::DistinctMembers => "http://www.w3.org/2002/07/owl#distinctMembers"@,
            OWL::EquivalentClass => "http://www.w3.org/2002/07/owl#equivalentClass"@,
            OWL::EquivalentProperty => "http://www.w3.org/2002/07/owl#equivalentProperty"@,
            OWL::FunctionalProperty => "http://www.w3.org/2002/07/owl#FunctionalProperty"@,
            OWL::HasKey => "http://www.w3.org/2002/07/owl#hasKey"@,
            OWL::HasSelf => "http://www.w3.org/2002/07/owl#hasSelf"@,
            OWL::HasValue => "http://www.w3.org/2002/07/owl#hasValue"@,
            OWL::Imports => "http://www.w3.org/2002/07/owl#imports"@,
            OWL::IntersectionOf => "http://www.w3.org/2002/07/owl#intersectionOf"@,
            OWL::InverseFunctionalProperty => "http://www.w3.org/2002/07/owl#InverseFunctionalProperty"@,
            OWL::InverseOf => "http://www.w3.org/2002/07/owl#inverseOf"@,
            OWL::IrreflexiveProperty => "http://www.w3.org/2002/07/owl#IrreflexiveProperty"@,
            OWL::MaxCardinality => "http://www.w3.org/2002/07/owl#maxCardinality"@,
            OWL::MaxQualifiedCardinality => "http://www.w3.org/2002/07/owl#maxQualifiedCardinality"@,
            OWL::Members => "http://www.w3.org/2002/07/owl#members"@,
            OWL::MinCardinality => "http://www.w3.org/2002/07/owl#minCardinality"@,
            OWL::MinQualifiedCardinality => "http://www.w3.org/2002/07/owl#minQualifiedCardinality"@,
            OWL::NamedIndividual => "http://www.w3.org/2002/07/owl#NamedIndividual"@,
            OWL::NegativePropertyAssertion => "http://www.w3.org/2002/07/owl#NegativePropertyAssertion"@,
            OWL::Nothing => "http://www.w3.org/2002/07/owl#Nothing"@,
            OWL::ObjectProperty => "http://www.w3.org/2002/07/owl#ObjectProperty"@,
            OWL::OnClass => "http://www.w3.org/2002/07/owl#onClass"@,
            OWL::OnDataRange => "http://www.w3.org/2002/07/owl#onDataRange"@,
            OWL::OnDatatype => "http://www.w3.org/2002/07/owl#onDatatype"@,
            OWL::OnProperty => "http://www.w3.org/2002/07/owl#onProperty"@,
            OWL::OneOf => "http://www.w3.org/2002/07/owl#oneOf"@,
            OWL::Ontology => "http://www.w3.org/2002/07/owl#Ontology"@,
            OWL::PropertyChainAxiom => "http://www.w3.org/2002/07/owl#propertyChainAxiom"@,
            OWL::PropertyDisjointWith => "http://www.w3.org/2002/07/owl#propertyDisjointWith"@,
            OWL::QualifiedCardinality => "http://www.w3.org/2002/07/owl#qualifiedCardinality"@,
            OWL::ReflexiveProperty => "http://www.w3.org/2002/07/owl#ReflexiveProperty"@,
            OWL::Restriction => "http://www.w3.org/2002/07/owl#Restriction"@,
            OWL::SameAs => "http://www.w3.org/2002/07/owl#sameAs"@,
            OWL::SomeValuesFrom => "http://www.w3.org/2002/07/owl#someValuesFrom"@,
            OWL::SourceIndividual => "http://www.w3.org/2002/07/owl#sourceIndividual"@,
            OWL::SymmetricProperty => "http://www.w3.org/2002/07/owl#SymmetricProperty"@,
            OWL::TargetIndividual => "http://www.w3.org/2002/07/owl#targetIndividual"@,
            OWL::TargetValue => "http://www.w3.org/2002/07/owl#targetValue"@,
            OWL::Thing => "http://www.w3.org/2002/07/owl#Thing"@,
            OWL::TopDataProperty => "http://www.w3.org/2002/07/owl#topDataProperty"@,
            OWL::TopObjectProperty => "http://www.w3.org/2002/07/owl#topObjectProperty"@,
            OWL::TransitiveProperty => "http://www.w3.org/2002/07/owl#TransitiveProperty"@,
            OWL::UnionOf => "http://www.w3.org/2002/07/owl#unionOf"@,
            OWL::VersionIRI => "http://www.w3.org/2002/07/owl#versionIRI"@,
            OWL::VersionInfo => "http://www.w3.org/2002/07/owl#versionInfo"@,
            OWL::WithRestrictions => "http://www.w3.org/2002/07/owl#withRestrictions"@,
        }
    }

    /// The canonical IRI of the token.
    pub fn iri_str(&self) -> (r: &'static str)
        ensures
            r@ == self.iri_text(),
    {
        match self {
            OWL::AllValuesFrom => "http://www.w3.org/2002/07/owl#allValuesFrom",
            OWL::AnnotatedProperty => "http://www.w3.org/2002/07/owl#annotatedProperty",
            OWL::AnnotatedSource => "http://www.w3.org/2002/07/owl#annotatedSource",
            OWL::AnnotatedTarget => "http://www.w3.org/2002/07/owl#annotatedTarget",
            OWL::AnnotationProperty => "http://www.w3.org/2002/07/owl#AnnotationProperty",
            OWL::AsymmetricProperty => "http://www.w3.org/2002/07/owl#AsymmetricProperty",
            OWL::Axiom => "http://www.w3.org/2002/07/owl#Axiom",
            OWL::Cardinality => "http://www.w3.org/2002/07/owl#cardinality",
            OWL::Class => "http://www.w3.org/2002/07/owl#Class",
            OWL::ComplementOf => "http://www.w3.org/2002/07/owl#complementOf",
            OWL::DatatypeComplementOf => "http://www.w3.org/2002/07/owl#datatypeComplementOf",
            OWL::DatatypeProperty => "http://www.w3.org/2002/07/owl#DatatypeProperty",
            OWL::DifferentFrom => "http://www.w3.org/2002/07/owl#differentFrom",
            OWL::DisjointUnionOf => "http://www.w3.org/2002/07/owl#disjointUnionOf",
            OWL::DisjointWith => "http://www.w3.org/2002/07/owl#disjointWith",
            OWL::DistinctMembers => "http://www.w3.org/2002/07/owl#distinctMembers",
            OWL::EquivalentClass => "http://www.w3.org/2002/07/owl#equivalentClass",
            OWL::EquivalentProperty => "http://www.w3.org/2002/07/owl#equivalentProperty",
            OWL::FunctionalProperty => "http://www.w3.org/2002/07/owl#FunctionalProperty",
            OWL::HasKey => "http://www.w3.org/2002/07/owl#hasKey",
            OWL::HasSelf => "http://www.w3.org/2002/07/owl#hasSelf",
            OWL::HasValue => "http://www.w3.org/2002/07/owl#hasValue",
            OWL::Imports => "http://www.w3.org/2002/07/owl#imports",
            OWL::IntersectionOf => "http://www.w3.org/2002/07/owl#intersectionOf",
            OWL::InverseFunctionalProperty => "http://www.w3.org/2002/07/owl#InverseFunctionalProperty",
            OWL::InverseOf => "http://www.w3.org/2002/07/owl#inverseOf",
            OWL::IrreflexiveProperty => "http://www.w3.org/2002/07/owl#IrreflexiveProperty",
            OWL::MaxCardinality => "http://www.w3.org/2002/07/owl#maxCardinality",
            OWL::MaxQualifiedCardinality => "http://www.w3.org/2002/07/owl#maxQualifiedCardinality",
            OWL::Members => "http://www.w3.org/2002/07/owl#members",
            OWL::MinCardinality => "http://www.w3.org/2002/07/owl#minCardinality",
            OWL::MinQualifiedCardinality => "http://www.w3.org/2002/07/owl#minQualifiedCardinality",
            OWL::NamedIndividual => "http://www.w3.org/2002/07/owl#NamedIndividual",
            OWL::NegativePropertyAssertion => "http://www.w3.org/2002/07/owl#NegativePropertyAssertion",
            OWL::Nothing => "http://www.w3.org/2002/07/owl#Nothing",
            OWL::ObjectProperty => "http://www.w3.org/2002/07/owl#ObjectProperty",
            OWL::OnClass => "http://www.w3.org/2002/07/owl#onClass",
            OWL::OnDataRange => "http://www.w3.org/2002/07/owl#onDataRange",
            OWL::OnDatatype => "http://www.w3.org/2002/07/owl#onDatatype",
            OWL::OnProperty => "http://www.w3.org/2002/07/owl#onProperty",
            OWL::OneOf => "http://www.w3.org/2002/07/owl#oneOf",
            OWL::Ontology => "http://www.w3.org/2002/07/owl#Ontology",
            OWL::PropertyChainAxiom => "http://www.w3.org/2002/07/owl#propertyChainAxiom",
            OWL::PropertyDisjointWith => "http://www.w3.org/2002/07/owl#propertyDisjointWith",
            OWL::QualifiedCardinality => "http://www.w3.org/2002/07/owl#qualifiedCardinality",
            OWL::ReflexiveProperty => "http://www.w3.org/2002/07/owl#ReflexiveProperty",
            OWL::Restriction => "http://www.w3.org/2002/07/owl#Restriction",
            OWL::SameAs => "http://www.w3.org/2002/07/owl#sameAs",
            OWL::SomeValuesFrom => "http://www.w3.org/2002/07/owl#someValuesFrom",
            OWL::SourceIndividual => "http://www.w3.org/2002/07/owl#sourceIndividual",
            OWL::SymmetricProperty => "http://www.w3.org/2002/07/owl#SymmetricProperty",
            OWL::TargetIndividual => "http://www.w3.org/2002/07/owl#targetIndividual",
            OWL::TargetValue => "http://www.w3.org/2002/07/owl#targetValue",
            OWL::Thing => "http://www.w3.org/2002/07/owl#Thing",
            OWL::TopDataProperty => "http://www.w3.org/2002/07/owl#topDataProperty",
            OWL::TopObjectProperty => "http://www.w3.org/2002/07/owl#topObjectProperty",
            OWL::TransitiveProperty => "http://www.w3.org/2002/07/owl#TransitiveProperty",
            OWL::UnionOf => "http://www.w3.org/2002/07/owl#unionOf",
            OWL::VersionIRI => "http://www.w3.org/2002/07/owl#versionIRI",
            OWL::VersionInfo => "http://www.w3.org/2002/07/owl#versionInfo",
            OWL::WithRestrictions => "http://www.w3.org/2002/07/owl#withRestrictions",
        }
    }

    /// Position of the token in its vocabulary.
    pub open spec fn rank(self) -> nat {
        match self {
            OWL::AllValuesFrom => 0,
            OWL::AnnotatedProperty => 1,
            OWL::AnnotatedSource => 2,
            OWL::AnnotatedTarget => 3,
            OWL::AnnotationProperty => 4,
            OWL::AsymmetricProperty => 5,
            OWL::Axiom => 6,
            OWL::Cardinality => 7,
            OWL::Class => 8,
            OWL::ComplementOf => 9,
            OWL::DatatypeComplementOf => 10,
            OWL::DatatypeProperty => 11,
            OWL::DifferentFrom => 12,
            OWL::DisjointUnionOf => 13,
            OWL::DisjointWith => 14,
            OWL::DistinctMembers => 15,
            OWL::EquivalentClass => 16,
            OWL::EquivalentProperty => 17,
            OWL::FunctionalProperty => 18,
            OWL::HasKey => 19,
            OWL::HasSelf => 20,
            OWL::HasValue => 21,
            OWL::Imports => 22,
            OWL::IntersectionOf => 23,
            OWL::InverseFunctionalProperty => 24,
            OWL::InverseOf => 25,
            OWL::IrreflexiveProperty => 26,
            OWL::MaxCardinality => 27,
            OWL::MaxQualifiedCardinality => 28,
            OWL::Members => 29,
            OWL::MinCardinality => 30,
            OWL::MinQualifiedCardinality => 31,
            OWL::NamedIndividual => 32,
            OWL::NegativePropertyAssertion => 33,
            OWL::Nothing => 34,
            OWL::ObjectProperty => 35,
            OWL::OnClass => 36,
            OWL::OnDataRange => 37,
            OWL::OnDatatype => 38,
            OWL::OnProperty => 39,
            OWL::OneOf => 40,
            OWL::Ontology => 41,
            OWL::PropertyChainAxiom => 42,
            OWL::PropertyDisjointWith => 43,
            OWL::QualifiedCardinality => 44,
            OWL::ReflexiveProperty => 45,
            OWL::Restriction => 46,
            OWL::SameAs => 47,
            OWL::SomeValuesFrom => 48,
            OWL::SourceIndividual => 49,
            OWL::SymmetricProperty => 50,
            OWL::TargetIndividual => 51,
            OWL::TargetValue => 52,
            OWL::Thing => 53,
            OWL::TopDataProperty => 54,
            OWL::TopObjectProperty => 55,
            OWL::TransitiveProperty => 56,
            OWL::UnionOf => 57,
            OWL::VersionIRI => 58,
            OWL::VersionInfo => 59,
            OWL::WithRestrictions => 60,
        }
    }

    /// Position of the token in its vocabulary.
    pub fn ord(&self) -> (r: u8)
        ensures
            r == self.rank(),
    {
        match self {
            OWL::AllValuesFrom => 0,
            OWL::AnnotatedProperty => 1,
            OWL::AnnotatedSource => 2,
            OWL::AnnotatedTarget => 3,
            OWL::AnnotationProperty => 4,
            OWL::AsymmetricProperty => 5,
            OWL::Axiom => 6,
            OWL::Cardinality => 7,
            OWL::Class => 8,
            OWL::ComplementOf => 9,
            OWL::DatatypeComplementOf => 10,
            OWL::DatatypeProperty => 11,
            OWL::DifferentFrom => 12,
            OWL::DisjointUnionOf => 13,
            OWL::DisjointWith => 14,
            OWL::DistinctMembers => 15,
            OWL::EquivalentClass => 16,
            OWL::EquivalentProperty => 17,
            OWL::FunctionalProperty => 18,
            OWL::HasKey => 19,
            OWL::HasSelf => 20,
            OWL::HasValue => 21,
            OWL::Imports => 22,
            OWL::IntersectionOf => 23,
            OWL::InverseFunctionalProperty => 24,
            OWL::InverseOf => 25,
            OWL::IrreflexiveProperty => 26,
            OWL::MaxCardinality => 27,
            OWL::MaxQualifiedCardinality => 28,
            OWL::Members => 29,
            OWL::MinCardinality => 30,
            OWL::MinQualifiedCardinality => 31,
            OWL::NamedIndividual => 32,
            OWL::NegativePropertyAssertion => 33,
            OWL::Nothing => 34,
            OWL::ObjectProperty => 35,
            OWL::OnClass => 36,
            OWL::OnDataRange => 37,
            OWL::OnDatatype => 38,
            OWL::OnProperty => 39,
            OWL::OneOf => 40,
            OWL::Ontology => 41,
            OWL::PropertyChainAxiom => 42,
            OWL::PropertyDisjointWith => 43,
            OWL::QualifiedCardinality => 44,
            OWL::ReflexiveProperty => 45,
            OWL::Restriction => 46,
            OWL::SameAs => 47,
            OWL::SomeValuesFrom => 48,
            OWL::SourceIndividual => 49,
            OWL::SymmetricProperty => 50,
            OWL::TargetIndividual => 51,
            OWL::TargetValue => 52,
            OWL::Thing => 53,
            OWL::TopDataProperty => 54,
            OWL::TopObjectProperty => 55,
            OWL::TransitiveProperty => 56,
            OWL::UnionOf => 57,
            OWL::VersionIRI => 58,
            OWL::VersionInfo => 59,
            OWL::WithRestrictions => 60,
        }
    }

    /// Every token of the vocabulary, by rank.
    pub open spec fn all_tokens() -> Seq<OWL> {
        seq![
            OWL::AllValuesFrom,
            OWL::AnnotatedProperty,
            OWL::AnnotatedSource,
            OWL::AnnotatedTarget,
            OWL::AnnotationProperty,
            OWL::AsymmetricProperty,
            OWL::Axiom,
            OWL::Cardinality,
            OWL::Class,
            OWL::ComplementOf,
            OWL::DatatypeComplementOf,
            OWL::DatatypeProperty,
            OWL::DifferentFrom,
            OWL::DisjointUnionOf,
            OWL::DisjointWith,
            OWL::DistinctMembers,
            OWL::EquivalentClass,
            OWL::EquivalentProperty,
            OWL::FunctionalProperty,
            OWL::HasKey,
            OWL::HasSelf,
            OWL::HasValue,
            OWL::Imports,
            OWL::IntersectionOf,
            OWL::InverseFunctionalProperty,
            OWL::InverseOf,
            OWL::IrreflexiveProperty,
            OWL::MaxCardinality,
            OWL::MaxQualifiedCardinality,
            OWL::Members,
            OWL::MinCardinality,
            OWL::MinQualifiedCardinality,
            OWL::NamedIndividual,
            OWL::NegativePropertyAssertion,
            OWL::Nothing,
            OWL::ObjectProperty,
            OWL::OnClass,
            OWL::OnDataRange,
            OWL::OnDatatype,
            OWL::OnProperty,
            OWL::OneOf,
            OWL::Ontology,
            OWL::PropertyChainAxiom,
            OWL::PropertyDisjointWith,
            OWL::QualifiedCardinality,
            OWL::ReflexiveProperty,
            OWL::Restriction,
            OWL::SameAs,
            OWL::SomeValuesFrom,
            OWL::SourceIndividual,
            OWL::SymmetricProperty,
            OWL::TargetIndividual,
            OWL::TargetValue,
            OWL::Thing,
            OWL::TopDataProperty,
            OWL::TopObjectProperty,
            OWL::TransitiveProperty,
            OWL::UnionOf,
            OWL::VersionIRI,
            OWL::VersionInfo,
            OWL::WithRestrictions,
        ]
    }

    /// Every token of the vocabulary, by rank.
    pub fn all() -> (r: Vec<OWL>)
        ensures
            r@ == Self::all_tokens(),
    {
        let r = vec![
            OWL::AllValuesFrom,
            OWL::AnnotatedProperty,
            OWL::AnnotatedSource,
            OWL::AnnotatedTarget,
            OWL::AnnotationProperty,
            OWL::AsymmetricProperty,
            OWL::Axiom,
            OWL::Cardinality,
            OWL::Class,
            OWL::ComplementOf,
            OWL::DatatypeComplementOf,
            OWL::DatatypeProperty,
            OWL::DifferentFrom,
            OWL::DisjointUnionOf,
            OWL::DisjointWith,
            OWL::DistinctMembers,
            OWL::EquivalentClass,
            OWL::EquivalentProperty,
            OWL::FunctionalProperty,
            OWL::HasKey,
            OWL::HasSelf,
            OWL::HasValue,
            OWL::Imports,
            OWL::IntersectionOf,
            OWL::InverseFunctionalProperty,
            OWL::InverseOf,
            OWL::IrreflexiveProperty,
            OWL::MaxCardinality,
            OWL::MaxQualifiedCardinality,
            OWL::Members,
            OWL::MinCardinality,
            OWL::MinQualifiedCardinality,
            OWL::NamedIndividual,
            OWL::NegativePropertyAssertion,
            OWL::Nothing,
            OWL::ObjectProperty,
            OWL::OnClass,
            OWL::OnDataRange,
            OWL::OnDatatype,
            OWL::OnProperty,
            OWL::OneOf,
            OWL::Ontology,
            OWL::PropertyChainAxiom,
            OWL::PropertyDisjointWith,
            OWL::QualifiedCardinality,
            OWL::ReflexiveProperty,
            OWL::Restriction,
            OWL::SameAs,
            OWL::SomeValuesFrom,
            OWL::SourceIndividual,
            OWL::SymmetricProperty,
            OWL::TargetIndividual,
            OWL::TargetValue,
            OWL::Thing,
            OWL::TopDataProperty,
            OWL::TopObjectProperty,
            OWL::TransitiveProperty,
            OWL::UnionOf,
            OWL::VersionIRI,
            OWL::VersionInfo,
            OWL::WithRestrictions,
        ];
        assert(r@ =~= Self::all_tokens());
        r
    }

    /// The token whose canonical IRI is `s`: the one of least rank, if any.
    pub open spec fn lookup_text(s: Seq<char>) -> Option<OWL> {
        match first_index(Self::all_tokens().map_values(|v: OWL| v.iri_text()), s) {
            Some(i) => Some(Self::all_tokens()[i]),
            None => None,
        }
    }

    /// The token whose canonical IRI is `s`, if there is one.
    pub fn lookup(s: &str) -> (r: Option<OWL>)
        ensures
            r == Self::lookup_text(s@),
    {
        let all = Self::all();
        let ghost names = Self::all_tokens().map_values(|v: OWL| v.iri_text());
        let mut i: usize = 0;
        while i < all.len()
            invariant
                i <= all.len(),
                all@ == Self::all_tokens(),
                names == Self::all_tokens().map_values(|v: OWL| v.iri_text()),
                names.len() == all.len(),
                forall|j: int| 0 <= j < i ==> names[j] != s@,
            decreases all.len() - i,
        {
            let v = all[i];
            assert(names[i as int] == v.iri_text());
            if same_text(s, v.iri_str()) {
                proof {
                    lemma_first_index_is(names, s@, i as int);
                }
                return Some(v);
            }
            i += 1;
        }
        proof {
            lemma_first_index_none(names, s@);
        }
        None
    }
}

/// Tokens of the RDF vocabulary.
#[derive(Clone, Copy, Debug, PartialEq, Eq, Structural, Hash)]
pub enum RDF {
    First,
    List,
    Nil,
    Rest,
    Type,
}

impl RDF {
    /// The canonical IRI of the token.
    pub open spec fn iri_text(self) -> Seq<char> {
        match self {
            RDF::First => "http://www.w3.org/1999/02/22-rdf-syntax-ns#first"@,
            RDF::List => "http://www.w3.org/1999/02/22-rdf-syntax-ns#List"@,
            RDF::Nil => "http://www.w3.org/1999/02/22-rdf-syntax-ns#nil"@,
            RDF::Rest => "http://www.w3.org/1999/02/22-rdf-syntax-ns#rest"@,
            RDF::Type => "http://www.w3.org/1999/02/22-rdf-syntax-ns#type"@,
        }
    }

    /// The canonical IRI of the token.
    pub fn iri_str(&self) -> (r: &'static str)
        ensures
            r@ == self.iri_text(),
    {
        match self {
            RDF::First => "http://www.w3.org/1999/02/22-rdf-syntax-ns#first",
            RDF::List => "http://www.w3.org/1999/02/22-rdf-syntax-ns#List",
            RDF::Nil => "http://www.w3.org/1999/02/22-rdf-syntax-ns#nil",
            RDF::Rest => "http://www.w3.org/1999/02/22-rdf-syntax-ns#rest",
            RDF::Type => "http://www.w3.org/1999/02/22-rdf-syntax-ns#type",
        }
    }

    /// Position of the token in its vocabulary.
    pub open spec fn rank(self) -> nat {
        match self {
            RDF::First => 0,
            RDF::List => 1,
            RDF::Nil => 2,
            RDF::Rest => 3,
            RDF::Type => 4,
        }
    }

    /// Position of the token in its vocabulary.
    pub fn ord(&self) -> (r: u8)
        ensures
            r == self.rank(),
    {
        match self {
            RDF::First => 0,
            RDF::List => 1,
            RDF::Nil => 2,
            RDF::Rest => 3,
            RDF::Type => 4,
        }
    }

    /// Every token of the vocabulary, by rank.
    pub open spec fn all_tokens() -> Seq<RDF> {
        seq![
            RDF::First,
            RDF::List,
            RDF::Nil,
            RDF::Rest,
            RDF::Type,
        ]
    }

    /// Every token of the vocabulary, by rank.
    pub fn all() -> (r: Vec<RDF>)
        ensures
            r@ == Self::all_tokens(),
    {
        let r = vec![
            RDF::First,
            RDF::List,
            RDF::Nil,
            RDF::Rest,
            RDF::Type,
        ];
        assert(r@ =~= Self::all_tokens());
        r
    }

    /// The token whose canonical IRI is `s`: the one of least rank, if any.
    pub open spec fn lookup_text(s: Seq<char>) -> Option<RDF> {
        match first_index(Self::all_tokens().map_values(|v: RDF| v.iri_text()), s) {
            Some(i) => Some(Self::all_tokens()[i]),
            None => None,
        }
    }

    /// The token whose canonical IRI is `s`, if there is one.
    pub fn lookup(s: &str) -> (r: Option<RDF>)
        ensures
            r == Self::lookup_text(s@),
    {
        let all = Self::all();
        let ghost names = Self::all_tokens().map_values(|v: RDF| v.iri_text());
        let mut i: usize = 0;
        while i < all.len()
            invariant
                i <= all.len(),
                all@ == Self::all_tokens(),
                names == Self::all_tokens().map_values(|v: RDF| v.iri_text()),
                names.len() == all.len(),
                forall|j: int| 0 <= j < i ==> names[j] != s@,
            decreases all.len() - i,
        {
            let v = all[i];
            assert(names[i as int] == v.iri_text());
            if same_text(s, v.iri_str()) {
                proof {
                    lemma_first_index_is(names, s@, i as int);
                }
                return Some(v);
            }
            i += 1;
        }
        proof {
            lemma_first_index_none(names, s@);
        }
        None
    }
}

/// Tokens of the RDF Schema vocabulary.
#[derive(Clone, Copy, Debug, PartialEq, Eq, Structural, Hash)]
pub enum RDFS {
    Comment,
    Datatype,
    Domain,
    IsDefinedBy,
    Label,
    Range,
    SeeAlso,
    SubClassOf,
    SubPropertyOf,
}

impl RDFS {
    /// The canonical IRI of the token.
    pub open spec fn iri_text(self) -> Seq<char> {
        match self {
            RDFS::Comment => "http://www.w3.org/2000/01/rdf-schema#comment"@,
            RDFS::Datatype => "http://www.w3.org/2000/01/rdf-schema#Datatype"@,
            RDFS::Domain => "http://www.w3.org/2000/01/rdf-schema#domain"@,
            RDFS::IsDefinedBy => "http://www.w3.org/2000/01/rdf-schema#isDefinedBy"@,
            RDFS::Label => "http://www.w3.org/2000/01/rdf-schema#label"@,
            RDFS::Range => "http://www.w3.org/2000/01/rdf-schema#range"@,
            RDFS::SeeAlso => "http://www.w3.org/2000/01/rdf-schema#seeAlso"@,
            RDFS::SubClassOf => "http://www.w3.org/2000/01/rdf-schema#subClassOf"@,
            RDFS::SubPropertyOf => "http://www.w3.org/2000/01/rdf-schema#subPropertyOf"@,
        }
    }

    /// The canonical IRI of the token.
    pub fn iri_str(&self) -> (r: &'static str)
        ensures
            r@ == self.iri_text(),
    {
        match self {
            RDFS::Comment => "http://www.w3.org/2000/01/rdf-schema#comment",
            RDFS::Datatype => "http://www.w3.org/2000/01/rdf-schema#Datatype",
            RDFS::Domain => "http://www.w3.org/2000/01/rdf-schema#domain",
            RDFS::IsDefinedBy => "http://www.w3.org/2000/01/rdf-schema#isDefinedBy",
            RDFS::Label => "http://www.w3.org/2000/01/rdf-schema#label",
            RDFS::Range => "http://www.w3.org/2000/01/rdf-schema#range",
            RDFS::SeeAlso => "http://www.w3.org/2000/01/rdf-schema#seeAlso",
            RDFS::SubClassOf => "http://www.w3.org/2000/01/rdf-schema#subClassOf",
            RDFS::SubPropertyOf => "http://www.w3.org/2000/01/rdf-schema#subPropertyOf",
        }
    }

    /// Position of the token in its vocabulary.
    pub open spec fn rank(self) -> nat {
        match self {
            RDFS::Comment => 0,
            RDFS::Datatype => 1,
            RDFS::Domain => 2,
            RDFS::IsDefinedBy => 3,
            RDFS::Label => 4,
            RDFS::Range => 5,
            RDFS::SeeAlso => 6,
            RDFS::SubClassOf => 7,
            RDFS::SubPropertyOf => 8,
        }
    }

    /// Position of the token in its vocabulary.
    pub fn ord(&self) -> (r: u8)
        ensures
            r == self.rank(),
    {
        match self {
            RDFS::Comment => 0,
            RDFS::Datatype => 1,
            RDFS::Domain => 2,
            RDFS::IsDefinedBy => 3,
            RDFS::Label => 4,
            RDFS::Range => 5,
            RDFS::SeeAlso => 6,
            RDFS::SubClassOf => 7,
            RDFS::SubPropertyOf => 8,
        }
    }

    /// Every token of the vocabulary, by rank.
    pub open spec fn all_tokens() -> Seq<RDFS> {
        seq![
            RDFS::Comment,
            RDFS::Datatype,
            RDFS::Domain,
            RDFS::IsDefinedBy,
            RDFS::Label,
            RDFS::Range,
            RDFS::SeeAlso,
            RDFS::SubClassOf,
            RDFS::SubPropertyOf,
        ]
    }

    /// Every token of the vocabulary, by rank.
    pub fn all() -> (r: Vec<RDFS>)
        ensures
            r@ == Self::all_tokens(),
    {
        let r = vec![
            RDFS::Comment,
            RDFS::Datatype,
            RDFS::Domain,
            RDFS::IsDefinedBy,
            RDFS::Label,
            RDFS::Range,
            RDFS::SeeAlso,
            RDFS::SubClassOf,
            RDFS::SubPropertyOf,
        ];
        assert(r@ =~= Self::all_tokens());
        r
    }

    /// The token whose canonical IRI is `s`: the one of least rank, if any.
    pub open spec fn lookup_text(s: Seq<char>) -> Option<RDFS> {
        match first_index(Self::all_tokens().map_values(|v: RDFS| v.iri_text()), s) {
            Some(i) => Some(Self::all_tokens()[i]),
            None => None,
        }
    }

    /// The token whose canonical IRI is `s`, if there is one.
    pub fn lookup(s: &str) -> (r: Option<RDFS>)
        ensures
            r == Self::lookup_text(s@),
    {
        let all = Self::all();
        let ghost names = Self::all_tokens().map_values(|v: RDFS| v.iri_text());
        let mut i: usize = 0;
        while i < all.len()
            invariant
                i <= all.len(),
                all@ == Self::all_tokens(),
                names == Self::all_tokens().map_values(|v: RDFS| v.iri_text()),
                names.len() == all.len(),
                forall|j: int| 0 <= j < i ==> names[j] != s@,
            decreases all.len() - i,
        {
            let v = all[i];
            assert(names[i as int] == v.iri_text());
            if same_text(s, v.iri_str()) {
                proof {
                    lemma_first_index_is(names, s@, i as int);
                }
                return Some(v);
            }
            i += 1;
        }
        proof {
            lemma_first_index_none(names, s@);
        }
        None
    }

    /// Whether the token is one of the annotation properties that RDF Schema predefines.
    pub open spec fn spec_is_builtin(self) -> bool {
        self == RDFS::Label || self == RDFS::Comment || self == RDFS::SeeAlso || self
            == RDFS::IsDefinedBy
    }

    /// Whether the token is one of the annotation properties that RDF Schema predefines.
    pub fn is_builtin(&self) -> (r: bool)
        ensures
            r == self.spec_is_builtin(),
    {
        match self {
            RDFS::Label | RDFS::Comment | RDFS::SeeAlso | RDFS::IsDefinedBy => true,
            _ => false,
        }
    }
}

/// What tells the canonical IRIs apart: the length and the characters at four
/// positions.
pub open spec fn print_of(s: Seq<char>) -> (nat, char, char, char, char) {
    (s.len(), s[30], s[31], s[39], s[43])
}

/// Two tokens of the OWL vocabulary with the same canonical IRI are the same
/// token.
pub proof fn lemma_owl_distinct(a: OWL, b: OWL)
    requires
        a.iri_text() == b.iri_text(),
    ensures
        a == b,
{
    reveal_strlit("http://www.w3.org/2002/07/owl#allValuesFrom");
    reveal_strlit("http://www.w3.org/2002/07/owl#annotatedProperty");
    reveal_strlit("http://www.w3.org/2002/07/owl#annotatedSource");
    reveal_strlit("http://www.w3.org/2002/07/owl#annotatedTarget");
    reveal_strlit("http://www.w3.org/2002/07/owl#AnnotationProperty");
    reveal_strlit("http://www.w3.org/2002/07/owl#AsymmetricProperty");
    reveal_strlit("http://www.w3.org/2002/07/owl#Axiom");
    reveal_strlit("http://www.w3.org/2002/07/owl#cardinality");
    reveal_strlit("http://www.w3.org/2002/07/owl#Class");
    reveal_strlit("http://www.w3.org/2002/07/owl#complementOf");
    reveal_strlit("http://www.w3.org/2002/07/owl#datatypeComplementOf");
    reveal_strlit("http://www.w3.org/2002/07/owl#DatatypeProperty");
    reveal_strlit("http://www.w3.org/2002/07/owl#differentFrom");
    reveal_strlit("http://www.w3.org/2002/07/owl#disjointUnionOf");
    reveal_strlit("http://www.w3.org/2002/07/owl#disjointWith");
    reveal_strlit("http://www.w3.org/2002/07/owl#distinctMembers");
    reveal_strlit("http://www.w3.org/2002/07/owl#equivalentClass");
    reveal_strlit("http://www.w3.org/2002/07/owl#equivalentProperty");
    reveal_strlit("http://www.w3.org/2002/07/owl#FunctionalProperty");
    reveal_strlit("http://www.w3.org/2002/07/owl#hasKey");
    reveal_strlit("http://www.w3.org/2002/07/owl#hasSelf");
    reveal_strlit("http://www.w3.org/2002/07/owl#hasValue");
    reveal_strlit("http://www.w3.org/2002/07/owl#imports");
    reveal_strlit("http://www.w3.org/2002/07/owl#intersectionOf");
    reveal_strlit("http://www.w3.org/2002/07/owl#InverseFunctionalProperty");
    reveal_strlit("http://www.w3.org/2002/07/owl#inverseOf");
    reveal_strlit("http://www.w3.org/2002/07/owl#IrreflexiveProperty");
    reveal_strlit("http://www.w3.org/2002/07/owl#maxCardinality");
    reveal_strlit("http://www.w3.org/2002/07/owl#maxQualifiedCardinality");
    reveal_strlit("http://www.w3.org/2002/07/owl#members");
    reveal_strlit("http://www.w3.org/2002/07/owl#minCardinality");
    reveal_strlit("http://www.w3.org/2002/07/owl#minQualifiedCardinality");
    reveal_strlit("http://www.w3.org/2002/07/owl#NamedIndividual");
    reveal_strlit("http://www.w3.org/2002/07/owl#NegativePropertyAssertion");
    reveal_strlit("http://www.w3.org/2002/07/owl#Nothing");
    reveal_strlit("http://www.w3.org/2002/07/owl#ObjectProperty");
    reveal_strlit("http://www.w3.org/2002/07/owl#onClass");
    reveal_strlit("http://www.w3.org/2002/07/owl#onDataRange");
    reveal_strlit("http://www.w3.org/2002/07/owl#onDatatype");
    reveal_strlit("http://www.w3.org/2002/07/owl#onProperty");
    reveal_strlit("http://www.w3.org/2002/07/owl#oneOf");
    reveal_strlit("http://www.w3.org/2002/07/owl#Ontology");
    reveal_strlit("http://www.w3.org/2002/07/owl#propertyChainAxiom");
    reveal_strlit("http://www.w3.org/2002/07/owl#propertyDisjointWith");
    reveal_strlit("http://www.w3.org/2002/07/owl#qualifiedCardinality");
    reveal_strlit("http://www.w3.org/2002/07/owl#ReflexiveProperty");
    reveal_strlit("http://www.w3.org/2002/07/owl#Restriction");
    reveal_strlit("http://www.w3.org/2002/07/owl#sameAs");
    reveal_strlit("http://www.w3.org/2002/07/owl#someValuesFrom");
    reveal_strlit("http://www.w3.org/2002/07/owl#sourceIndividual");
    reveal_strlit("http://www.w3.org/2002/07/owl#SymmetricProperty");
    reveal_strlit("http://www.w3.org/2002/07/owl#targetIndividual");
    reveal_strlit("http://www.w3.org/2002/07/owl#targetValue");
    reveal_strlit("http://www.w3.org/2002/07/owl#Thing");
    reveal_strlit("http://www.w3.org/2002/07/owl#topDataProperty");
    reveal_strlit("http://www.w3.org/2002/07/owl#topObjectProperty");
    reveal_strlit("http://www.w3.org/2002/07/owl#TransitiveProperty");
    reveal_strlit("http://www.w3.org/2002/07/owl#unionOf");
    reveal_strlit("http://www.w3.org/2002/07/owl#versionIRI");
    reveal_strlit("http://www.w3.org/2002/07/owl#versionInfo");
    reveal_strlit("http://www.w3.org/2002/07/owl#withRestrictions");
    assert(print_of(a.iri_text()) == print_of(b.iri_text()));
}

/// Two tokens of the RDF vocabulary with the same canonical IRI are the same
/// token.
pub proof fn lemma_rdf_distinct(a: RDF, b: RDF)
    requires
        a.iri_text() == b.iri_text(),
    ensures
        a == b,
{
    reveal_strlit("http://www.w3.org/1999/02/22-rdf-syntax-ns#first");
    reveal_strlit("http://www.w3.org/1999/02/22-rdf-syntax-ns#List");
    reveal_strlit("http://www.w3.org/1999/02/22-rdf-syntax-ns#nil");
    reveal_strlit("http://www.w3.org/1999/02/22-rdf-syntax-ns#rest");
    reveal_strlit("http://www.w3.org/1999/02/22-rdf-syntax-ns#type");
    assert(print_of(a.iri_text()) == print_of(b.iri_text()));
}

/// Two tokens of the RDFS vocabulary with the same canonical IRI are the same
/// token.
pub proof fn lemma_rdfs_distinct(a: RDFS, b: RDFS)
    requires
        a.iri_text() == b.iri_text(),
    ensures
        a == b,
{
    reveal_strlit("http://www.w3.org/2000/01/rdf-schema#comment");
    reveal_strlit("http://www.w3.org/2000/01/rdf-schema#Datatype");
    reveal_strlit("http://www.w3.org/2000/01/rdf-schema#domain");
    reveal_strlit("http://www.w3.org/2000/01/rdf-schema#isDefinedBy");
    reveal_strlit("http://www.w3.org/2000/01/rdf-schema#label");
    reveal_strlit("http://www.w3.org/2000/01/rdf-schema#range");
    reveal_strlit("http://www.w3.org/2000/01/rdf-schema#seeAlso");
    reveal_strlit("http://www.w3.org/2000/01/rdf-schema#subClassOf");
    reveal_strlit("http://www.w3.org/2000/01/rdf-schema#subPropertyOf");
    assert(print_of(a.iri_text()) == print_of(b.iri_text()));
}

/// No token of the OWL vocabulary has the canonical IRI of a token of the RDF
/// vocabulary.
pub proof fn lemma_owl_rdf_apart(a: OWL, b: RDF)
    ensures
        a.iri_text() != b.iri_text(),
{
    reveal_strlit("http://www.w3.org/2002/07/owl#allValuesFrom");
    reveal_strlit("http://www.w3.org/2002/07/owl#annotatedProperty");
    reveal_strlit("http://www.w3.org/2002/07/owl#annotatedSource");
    reveal_strlit("http://www.w3.org/2002/07/owl#annotatedTarget");
    reveal_strlit("http://www.w3.org/2002/07/owl#AnnotationProperty");
    reveal_strlit("http://www.w3.org/2002/07/owl#AsymmetricProperty");
    reveal_strlit("http://www.w3.org/2002/07/owl#Axiom");
    reveal_strlit("http://www.w3.org/2002/07/owl#cardinality");
    reveal_strlit("http://www.w3.org/2002/07/owl#Class");
    reveal_strlit("http://www.w3.org/2002/07/owl#complementOf");
    reveal_strlit("http://www.w3.org/2002/07/owl#datatypeComplementOf");
    reveal_strlit("http://www.w3.org/2002/07/owl#DatatypeProperty");
    reveal_strlit("http://www.w3.org/2002/07/owl#differentFrom");
    reveal_strlit("http://www.w3.org/2002/07/owl#disjointUnionOf");
    reveal_strlit("http://www.w3.org/2002/07/owl#disjointWith");
    reveal_strlit("http://www.w3.org/2002/07/owl#distinctMembers");
    reveal_strlit("http://www.w3.org/2002/07/owl#equivalentClass");
    reveal_strlit("http://www.w3.org/2002/07/owl#equivalentProperty");
    reveal_strlit("http://www.w3.org/2002/07/owl#FunctionalProperty");
    reveal_strlit("http://www.w3.org/2002/07/owl#hasKey");
    reveal_strlit("http://www.w3.org/2002/07/owl#hasSelf");
    reveal_strlit("http://www.w3.org/2002/07/owl#hasValue");
    reveal_strlit("http://www.w3.org/2002/07/owl#imports");
    reveal_strlit("http://www.w3.org/2002/07/owl#intersectionOf");
    reveal_strlit("http://www.w3.org/2002/07/owl#InverseFunctionalProperty");
    reveal_strlit("http://www.w3.org/2002/07/owl#inverseOf");
    reveal_strlit("http://www.w3.org/2002/07/owl#IrreflexiveProperty");
    reveal_strlit("http://www.w3.org/2002/07/owl#maxCardinality");
    reveal_strlit("http://www.w3.org/2002/07/owl#maxQualifiedCardinality");
    reveal_strlit("http://www.w3.org/2002/07/owl#members");
    reveal_strlit("http://www.w3.org/2002/07/owl#minCardinality");
    reveal_strlit("http://www.w3.org/2002/07/owl#minQualifiedCardinality");
    reveal_strlit("http://www.w3.org/2002/07/owl#NamedIndividual");
    reveal_strlit("http://www.w3.org/2002/07/owl#NegativePropertyAssertion");
    reveal_strlit("http://www.w3.org/2002/07/owl#Nothing");
    reveal_strlit("http://www.w3.org/2002/07/owl#ObjectProperty");
    reveal_strlit("http://www.w3.org/2002/07/owl#onClass");
    reveal_strlit("http://www.w3.org/2002/07/owl#onDataRange");
    reveal_strlit("http://www.w3.org/2002/07/owl#onDatatype");
    reveal_strlit("http://www.w3.org/2002/07/owl#onProperty");
    reveal_strlit("http://www.w3.org/2002/07/owl#oneOf");
    reveal_strlit("http://www.w3.org/2002/07/owl#Ontology");
    reveal_strlit("http://www.w3.org/2002/07/owl#propertyChainAxiom");
    reveal_strlit("http://www.w3.org/2002/07/owl#propertyDisjointWith");
    reveal_strlit("http://www.w3.org/2002/07/owl#qualifiedCardinality");
    reveal_strlit("http://www.w3.org/2002/07/owl#ReflexiveProperty");
    reveal_strlit("http://www.w3.org/2002/07/owl#Restriction");
    reveal_strlit("http://www.w3.org/2002/07/owl#sameAs");
    reveal_strlit("http://www.w3.org/2002/07/owl#someValuesFrom");
    reveal_strlit("http://www.w3.org/2002/07/owl#sourceIndividual");
    reveal_strlit("http://www.w3.org/2002/07/owl#SymmetricProperty");
    reveal_strlit("http://www.w3.org/2002/07/owl#targetIndividual");
    reveal_strlit("http://www.w3.org/2002/07/owl#targetValue");
    reveal_strlit("http://www.w3.org/2002/07/owl#Thing");
    reveal_strlit("http://www.w3.org/2002/07/owl#topDataProperty");
    reveal_strlit("http://www.w3.org/2002/07/owl#topObjectProperty");
    reveal_strlit("http://www.w3.org/2002/07/owl#TransitiveProperty");
    reveal_strlit("http://www.w3.org/2002/07/owl#unionOf");
    reveal_strlit("http://www.w3.org/2002/07/owl#versionIRI");
    reveal_strlit("http://www.w3.org/2002/07/owl#versionInfo");
    reveal_strlit("http://www.w3.org/2002/07/owl#withRestrictions");
    reveal_strlit("http://www.w3.org/1999/02/22-rdf-syntax-ns#first");
    reveal_strlit("http://www.w3.org/1999/02/22-rdf-syntax-ns#List");
    reveal_strlit("http://www.w3.org/1999/02/22-rdf-syntax-ns#nil");
    reveal_strlit("http://www.w3.org/1999/02/22-rdf-syntax-ns#rest");
    reveal_strlit("http://www.w3.org/1999/02/22-rdf-syntax-ns#type");
    if a.iri_text() == b.iri_text() {
        assert(print_of(a.iri_text()) == print_of(b.iri_text()));
    }
}

/// No token of the OWL vocabulary has the canonical IRI of a token of the RDFS
/// vocabulary.
pub proof fn lemma_owl_rdfs_apart(a: OWL, b: RDFS)
    ensures
        a.iri_text() != b.iri_text(),
{
    reveal_strlit("http://www.w3.org/2002/07/owl#allValuesFrom");
    reveal_strlit("http://www.w3.org/2002/07/owl#annotatedProperty");
    reveal_strlit("http://www.w3.org/2002/07/owl#annotatedSource");
    reveal_strlit("http://www.w3.org/2002/07/owl#annotatedTarget");
    reveal_strlit("http://www.w3.org/2002/07/owl#AnnotationProperty");
    reveal_strlit("http://www.w3.org/2002/07/owl#AsymmetricProperty");
    reveal_strlit("http://www.w3.org/2002/07/owl#Axiom");
    reveal_strlit("http://www.w3.org/2002/07/owl#cardinality");
    reveal_strlit("http://www.w3.org/2002/07/owl#Class");
    reveal_strlit("http://www.w3.org/2002/07/owl#complementOf");
    reveal_strlit("http://www.w3.org/2002/07/owl#datatypeComplementOf");
    reveal_strlit("http://www.w3.org/2002/07/owl#DatatypeProperty");
    reveal_strlit("http://www.w3.org/2002/07/owl#differentFrom");
    reveal_strlit("http://www.w3.org/2002/07/owl#disjointUnionOf");
    reveal_strlit("http://www.w3.org/2002/07/owl#disjointWith");
    reveal_strlit("http://www.w3.org/2002/07/owl#distinctMembers");
    reveal_strlit("http://www.w3.org/2002/07/owl#equivalentClass");
    reveal_strlit("http://www.w3.org/2002/07/owl#equivalentProperty");
    reveal_strlit("http://www.w3.org/2002/07/owl#FunctionalProperty");
    reveal_strlit("http://www.w3.org/2002/07/owl#hasKey");
    reveal_strlit("http://www.w3.org/2002/07/owl#hasSelf");
    reveal_strlit("http://www.w3.org/2002/07/owl#hasValue");
    reveal_strlit("http://www.w3.org/2002/07/owl#imports");
    reveal_strlit("http://www.w3.org/2002/07/owl#intersectionOf");
    reveal_strlit("http://www.w3.org/2002/07/owl#InverseFunctionalProperty");
    reveal_strlit("http://www.w3.org/2002/07/owl#inverseOf");
    reveal_strlit("http://www.w3.org/2002/07/owl#IrreflexiveProperty");
    reveal_strlit("http://www.w3.org/2002/07/owl#maxCardinality");
    reveal_strlit("http://www.w3.org/2002/07/owl#maxQualifiedCardinality");
    reveal_strlit("http://www.w3.org/2002/07/owl#members");
    reveal_strlit("http://www.w3.org/2002/07/owl#minCardinality");
    reveal_strlit("http://www.w3.org/2002/07/owl#minQualifiedCardinality");
    reveal_strlit("http://www.w3.org/2002/07/owl#NamedIndividual");
    reveal_strlit("http://www.w3.org/2002/07/owl#NegativePropertyAssertion");
    reveal_strlit("http://www.w3.org/2002/07/owl#Nothing");
    reveal_strlit("http://www.w3.org/2002/07/owl#ObjectProperty");
    reveal_strlit("http://www.w3.org/2002/07/owl#onClass");
    reveal_strlit("http://www.w3.org/2002/07/owl#onDataRange");
    reveal_strlit("http://www.w3.org/2002/07/owl#onDatatype");
    reveal_strlit("http://www.w3.org/2002/07/owl#onProperty");
    reveal_strlit("http://www.w3.org/2002/07/owl#oneOf");
    reveal_strlit("http://www.w3.org/2002/07/owl#Ontology");
    reveal_strlit("http://www.w3.org/2002/07/owl#propertyChainAxiom");
    reveal_strlit("http://www.w3.org/2002/07/owl#propertyDisjointWith");
    reveal_strlit("http://www.w3.org/2002/07/owl#qualifiedCardinality");
    reveal_strlit("http://www.w3.org/2002/07/owl#ReflexiveProperty");
    reveal_strlit("http://www.w3.org/2002/07/owl#Restriction");
    reveal_strlit("http://www.w3.org/2002/07/owl#sameAs");
    reveal_strlit("http://www.w3.org/2002/07/owl#someValuesFrom");
    reveal_strlit("http://www.w3.org/2002/07/owl#sourceIndividual");
    reveal_strlit("http://www.w3.org/2002/07/owl#SymmetricProperty");
    reveal_strlit("http://www.w3.org/2002/07/owl#targetIndividual");
    reveal_strlit("http://www.w3.org/2002/07/owl#targetValue");
    reveal_strlit("http://www.w3.org/2002/07/owl#Thing");
    reveal_strlit("http://www.w3.org/2002/07/owl#topDataProperty");
    reveal_strlit("http://www.w3.org/2002/07/owl#topObjectProperty");
    reveal_strlit("http://www.w3.org/2002/07/owl#TransitiveProperty");
    reveal_strlit("http://www.w3.org/2002/07/owl#unionOf");
    reveal_strlit("http://www.w3.org/2002/07/owl#versionIRI");
    reveal_strlit("http://www.w3.org/2002/07/owl#versionInfo");
    reveal_strlit("http://www.w3.org/2002/07/owl#withRestrictions");
    reveal_strlit("http://www.w3.org/2000/01/rdf-schema#comment");
    reveal_strlit("http://www.w3.org/2000/01/rdf-schema#Datatype");
    reveal_strlit("http://www.w3.org/2000/01/rdf-schema#domain");
    reveal_strlit("http://www.w3.org/2000/01/rdf-schema#isDefinedBy");
    reveal_strlit("http://www.w3.org/2000/01/rdf-schema#label");
    reveal_strlit("http://www.w3.org/2000/01/rdf-schema#range");
    reveal_strlit("http://www.w3.org/2000/01/rdf-schema#seeAlso");
    reveal_strlit("http://www.w3.org/2000/01/rdf-schema#subClassOf");
    reveal_strlit("http://www.w3.org/2000/01/rdf-schema#subPropertyOf");
    if a.iri_text() == b.iri_text() {
        assert(print_of(a.iri_text()) == print_of(b.iri_text()));
    }
}

/// No token of the RDFS vocabulary has the canonical IRI of a token of the RDF
/// vocabulary.
pub proof fn lemma_rdfs_rdf_apart(a: RDFS, b: RDF)
    ensures
        a.iri_text() != b.iri_text(),
{
    reveal_strlit("http://www.w3.org/2000/01/rdf-schema#comment");
    reveal_strlit("http://www.w3.org/2000/01/rdf-schema#Datatype");
    reveal_strlit("http://www.w3.org/2000/01/rdf-schema#domain");
    reveal_strlit("http://www.w3.org/2000/01/rdf-schema#isDefinedBy");
    reveal_strlit("http://www.w3.org/2000/01/rdf-schema#label");
    reveal_strlit("http://www.w3.org/2000/01/rdf-schema#range");
    reveal_strlit("http://www.w3.org/2000/01/rdf-schema#seeAlso");
    reveal_strlit("http://www.w3.org/2000/01/rdf-schema#subClassOf");
    reveal_strlit("http://www.w3.org/2000/01/rdf-schema#subPropertyOf");
    reveal_strlit("http://www.w3.org/1999/02/22-rdf-syntax-ns#first");
    reveal_strlit("http://www.w3.org/1999/02/22-rdf-syntax-ns#List");
    reveal_strlit("http://www.w3.org/1999/02/22-rdf-syntax-ns#nil");
    reveal_strlit("http://www.w3.org/1999/02/22-rdf-syntax-ns#rest");
    reveal_strlit("http://www.w3.org/1999/02/22-rdf-syntax-ns#type");
    if a.iri_text() == b.iri_text() {
        assert(print_of(a.iri_text()) == print_of(b.iri_text()));
    }
}

/// No two tokens, of one vocabulary or of two, have the same canonical IRI.
pub proof fn lemma_tokens_distinct()
    ensures
        forall|a: OWL, b: OWL| a.iri_text() == b.iri_text() ==> a == b,
        forall|a: RDF, b: RDF| a.iri_text() == b.iri_text() ==> a == b,
        forall|a: RDFS, b: RDFS| a.iri_text() == b.iri_text() ==> a == b,
        forall|a: OWL, b: RDF| a.iri_text() != b.iri_text(),
        forall|a: OWL, b: RDFS| a.iri_text() != b.iri_text(),
        forall|a: RDFS, b: RDF| a.iri_text() != b.iri_text(),
{
    assert forall|a: OWL, b: OWL| a.iri_text() == b.iri_text() implies a == b by {
        lemma_owl_distinct(a, b);
    }
    assert forall|a: RDF, b: RDF| a.iri_text() == b.iri_text() implies a == b by {
        lemma_rdf_distinct(a, b);
    }
    assert forall|a: RDFS, b: RDFS| a.iri_text() == b.iri_text() implies a == b by {
        lemma_rdfs_distinct(a, b);
    }
    assert forall|a: OWL, b: RDF| a.iri_text() != b.iri_text() by {
        lemma_owl_rdf_apart(a, b);
    }
    assert forall|a: OWL, b: RDFS| a.iri_text() != b.iri_text() by {
        lemma_owl_rdfs_apart(a, b);
    }
    assert forall|a: RDFS, b: RDF| a.iri_text() != b.iri_text() by {
        lemma_rdfs_rdf_apart(a, b);
    }
}

/// Every token stands in the list of its vocabulary at the place of its rank.
pub proof fn lemma_token_at_rank()
    ensures
        forall|v: OWL| v.rank() < OWL::all_tokens().len() && OWL::all_tokens()[v.rank() as int] == v,
        forall|v: RDF| v.rank() < RDF::all_tokens().len() && RDF::all_tokens()[v.rank() as int] == v,
        forall|v: RDFS|
            v.rank() < RDFS::all_tokens().len() && RDFS::all_tokens()[v.rank() as int] == v,
{
}

} // verus!
