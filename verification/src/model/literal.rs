//! Literals and annotations.

use crate::model::entity::{
    annotation_property_copy, annotation_property_same, iri_copy, iri_same, AnnotationProperty, IRI,
};
use crate::text::same_text;
use vstd::prelude::*;
use vstd::std_specs::cmp::PartialEqSpecImpl;

verus! {

/// A literal value.
#[derive(Debug, Hash)]
#[allow(inconsistent_fields)]
pub enum Literal {
    /// A plain string.
    Simple { literal: String },
    /// A string with a language tag.
    Language { literal: String, lang: String },
    /// A lexical form with its datatype.
    Datatype { literal: String, datatype_iri: IRI },
}

/// The mathematical value of [`Literal`].
#[allow(inconsistent_fields)]
pub enum LiteralView {
    Simple { literal: Seq<char> },
    Language { literal: Seq<char>, lang: Seq<char> },
    Datatype { literal: Seq<char>, datatype_iri: Seq<char> },
}

/// The mathematical value of a value.
pub open spec fn literal_view(x: Literal) -> LiteralView
{
    match x {
        Literal::Simple { literal: p_literal } => LiteralView::Simple { literal: p_literal@ },
        Literal::Language { literal: p_literal, lang: p_lang } => {
            LiteralView::Language { literal: p_literal@, lang: p_lang@ }
        },
        Literal::Datatype { literal: p_literal, datatype_iri: p_datatype_iri } => {
            LiteralView::Datatype { literal: p_literal@, datatype_iri: p_datatype_iri.deep_view() }
        },
    }
}

impl DeepView for Literal {
    type V = LiteralView;

    open spec fn deep_view(&self) -> LiteralView {
        literal_view(*self)
    }
}

/// Whether two values are the same.
pub fn literal_same(a: &Literal, b: &Literal) -> (r: bool)
    ensures
        r == (a.deep_view() == b.deep_view()),
{
    match (a, b) {
        (Literal::Simple { literal: a_literal }, Literal::Simple { literal: b_literal }) => {
            same_text(a_literal.as_str(), b_literal.as_str())
        },
        (
            Literal::Language { literal: a_literal, lang: a_lang },
            Literal::Language { literal: b_literal, lang: b_lang },
        ) => {
            same_text(a_literal.as_str(), b_literal.as_str())
                && same_text(a_lang.as_str(), b_lang.as_str())
        },
        (
            Literal::Datatype { literal: a_literal, datatype_iri: a_datatype_iri },
            Literal::Datatype { literal: b_literal, datatype_iri: b_datatype_iri },
        ) => {
            same_text(a_literal.as_str(), b_literal.as_str())
                && iri_same(a_datatype_iri, b_datatype_iri)
        },
        _ => false,
    }
}

/// A copy of a value.
pub fn literal_copy(a: &Literal) -> (r: Literal)
    ensures
        r.deep_view() == a.deep_view(),
{
    match a {
        Literal::Simple { literal: a_literal } => Literal::Simple { literal: a_literal.clone() },
        Literal::Language { literal: a_literal, lang: a_lang } => {
            Literal::Language { literal: a_literal.clone(), lang: a_lang.clone() }
        },
        Literal::Datatype { literal: a_literal, datatype_iri: a_datatype_iri } => {
            Literal::Datatype { literal: a_literal.clone(), datatype_iri: iri_copy(a_datatype_iri) }
        },
    }
}

impl Clone for Literal {
    fn clone(&self) -> (r: Self)
        ensures
            r.deep_view() == self.deep_view(),
    {
        literal_copy(self)
    }
}

impl PartialEq for Literal {
    fn eq(&self, other: &Self) -> (r: bool) {
        literal_same(self, other)
    }
}

impl PartialEqSpecImpl for Literal {
    open spec fn obeys_eq_spec() -> bool {
        true
    }

    open spec fn eq_spec(&self, other: &Self) -> bool {
        self.deep_view() == other.deep_view()
    }
}

impl Eq for Literal {
}

/// The value of an annotation.
#[derive(Debug, Hash)]
pub enum AnnotationValue {
    Literal(Literal),
    IRI(IRI),
}

/// The mathematical value of [`AnnotationValue`].
pub enum AnnotationValueView {
    Literal(LiteralView),
    IRI(Seq<char>),
}

/// The mathematical value of a value.
pub open spec fn annotation_value_view(x: AnnotationValue) -> AnnotationValueView
{
    match x {
        AnnotationValue::Literal(p_0) => AnnotationValueView::Literal(p_0.deep_view()),
        AnnotationValue::IRI(p_0) => AnnotationValueView::IRI(p_0.deep_view()),
    }
}

impl DeepView for AnnotationValue {
    type V = AnnotationValueView;

    open spec fn deep_view(&self) -> AnnotationValueView {
        annotation_value_view(*self)
    }
}

/// Whether two values are the same.
pub fn annotation_value_same(a: &AnnotationValue, b: &AnnotationValue) -> (r: bool)
    ensures
        r == (a.deep_view() == b.deep_view()),
{
    match (a, b) {
        (AnnotationValue::Literal(a_0), AnnotationValue::Literal(b_0)) => literal_same(a_0, b_0),
        (AnnotationValue::IRI(a_0), AnnotationValue::IRI(b_0)) => iri_same(a_0, b_0),
        _ => false,
    }
}

/// A copy of a value.
pub fn annotation_value_copy(a: &AnnotationValue) -> (r: AnnotationValue)
    ensures
        r.deep_view() == a.deep_view(),
{
    match a {
        AnnotationValue::Literal(a_0) => AnnotationValue::Literal(literal_copy(a_0)),
        AnnotationValue::IRI(a_0) => AnnotationValue::IRI(iri_copy(a_0)),
    }
}

impl Clone for AnnotationValue {
    fn clone(&self) -> (r: Self)
        ensures
            r.deep_view() == self.deep_view(),
    {
        annotation_value_copy(self)
    }
}

impl PartialEq for AnnotationValue {
    fn eq(&self, other: &Self) -> (r: bool) {
        annotation_value_same(self, other)
    }
}

impl PartialEqSpecImpl for AnnotationValue {
    open spec fn obeys_eq_spec() -> bool {
        true
    }

    open spec fn eq_spec(&self, other: &Self) -> bool {
        self.deep_view() == other.deep_view()
    }
}

impl Eq for AnnotationValue {
}

/// An annotation: a property and the value it gives.
#[derive(Debug, Hash)]
pub struct Annotation {
    /// The annotation property.
    pub ap: AnnotationProperty,
    /// The value.
    pub av: AnnotationValue,
}

/// The mathematical value of [`Annotation`].
pub struct AnnotationView {
    pub ap: Seq<char>,
    pub av: AnnotationValueView,
}

/// The mathematical value of a value.
pub open spec fn annotation_view(x: Annotation) -> AnnotationView
{
    AnnotationView { ap: x.ap.deep_view(), av: x.av.deep_view() }
}

impl DeepView for Annotation {
    type V = AnnotationView;

    open spec fn deep_view(&self) -> AnnotationView {
        annotation_view(*self)
    }
}

/// Whether two values are the same.
pub fn annotation_same(a: &Annotation, b: &Annotation) -> (r: bool)
    ensures
        r == (a.deep_view() == b.deep_view()),
{
    annotation_property_same(&a.ap, &b.ap) && annotation_value_same(&a.av, &b.av)
}

/// A copy of a value.
pub fn annotation_copy(a: &Annotation) -> (r: Annotation)
    ensures
        r.deep_view() == a.deep_view(),
{
    Annotation { ap: annotation_property_copy(&a.ap), av: annotation_value_copy(&a.av) }
}

impl Clone for Annotation {
    fn clone(&self) -> (r: Self)
        ensures
            r.deep_view() == self.deep_view(),
    {
        annotation_copy(self)
    }
}

impl PartialEq for Annotation {
    fn eq(&self, other: &Self) -> (r: bool) {
        annotation_same(self, other)
    }
}

impl PartialEqSpecImpl for Annotation {
    open spec fn obeys_eq_spec() -> bool {
        true
    }

    open spec fn eq_spec(&self, other: &Self) -> bool {
        self.deep_view() == other.deep_view()
    }
}

impl Eq for Annotation {
}

} // verus!
