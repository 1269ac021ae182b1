//! Axioms.

use crate::model::entity::{
    annotation_property_copy, annotation_property_same, class_copy, class_same, data_property_copy,
    data_property_same, datatype_copy, datatype_same, iri_copy, iri_same, named_individual_copy,
    named_individual_same, object_property_copy, object_property_same, vec_copy, vec_same,
    AnnotationProperty, Class, DataProperty, Datatype, IRI, NamedIndividual, ObjectProperty,
};
use crate::model::expression::{
    class_expression_copy, class_expression_same, data_range_copy, data_range_same,
    object_property_expression_copy, object_property_expression_same,
    sub_object_property_expression_copy, sub_object_property_expression_same, ClassExpression,
    ClassExpressionView, DataRange, DataRangeView, ObjectPropertyExpression,
    ObjectPropertyExpressionView, SubObjectPropertyExpression, SubObjectPropertyExpressionView,
};
use crate::model::literal::{annotation_copy, annotation_same, Annotation, AnnotationView};
use vstd::prelude::*;
use vstd::std_specs::cmp::PartialEqSpecImpl;

verus! {

/// An axiom of an ontology, without its annotations.
#[derive(Debug, Hash)]
#[allow(inconsistent_fields)]
pub enum Axiom {
    DeclareClass(Class),
    DeclareObjectProperty(ObjectProperty),
    DeclareAnnotationProperty(AnnotationProperty),
    DeclareDataProperty(DataProperty),
    DeclareNamedIndividual(NamedIndividual),
    DeclareDatatype(Datatype),
    SubClassOf { sub: ClassExpression, sup: ClassExpression },
    EquivalentClasses(Vec<ClassExpression>),
    DisjointClasses(Vec<ClassExpression>),
    DisjointUnion(Class, Vec<ClassExpression>),
    SubObjectPropertyOf { sup: ObjectPropertyExpression, sub: SubObjectPropertyExpression },
    EquivalentObjectProperties(Vec<ObjectPropertyExpression>),
    DisjointObjectProperties(Vec<ObjectPropertyExpression>),
    InverseObjectProperties(ObjectProperty, ObjectProperty),
    ObjectPropertyDomain { ope: ObjectPropertyExpression, ce: ClassExpression },
    ObjectPropertyRange { ope: ObjectPropertyExpression, ce: ClassExpression },
    FunctionalObjectProperty(ObjectPropertyExpression),
    InverseFunctionalObjectProperty(ObjectPropertyExpression),
    ReflexiveObjectProperty(ObjectPropertyExpression),
    IrreflexiveObjectProperty(ObjectPropertyExpression),
    SymmetricObjectProperty(ObjectPropertyExpression),
    AsymmetricObjectProperty(ObjectPropertyExpression),
    TransitiveObjectProperty(ObjectPropertyExpression),
    SubDataPropertyOf { sup: DataProperty, sub: DataProperty },
    EquivalentDataProperties(Vec<DataProperty>),
    DisjointDataProperties(Vec<DataProperty>),
    DataPropertyDomain { dp: DataProperty, ce: ClassExpression },
    DataPropertyRange { dp: DataProperty, dr: DataRange },
    FunctionalDataProperty(DataProperty),
    DatatypeDefinition { kind: Datatype, range: DataRange },
    AnnotationAssertion { subject: IRI, ann: Annotation },
    SubAnnotationPropertyOf { sup: AnnotationProperty, sub: AnnotationProperty },
    AnnotationPropertyDomain { ap: AnnotationProperty, iri: IRI },
    AnnotationPropertyRange { ap: AnnotationProperty, iri: IRI },
    /// The ontology imports the ontology with this IRI.
    Import(IRI),
}

/// The mathematical value of [`Axiom`].
#[allow(inconsistent_fields)]
pub enum AxiomView {
    DeclareClass(Seq<char>),
    DeclareObjectProperty(Seq<char>),
    DeclareAnnotationProperty(Seq<char>),
    DeclareDataProperty(Seq<char>),
    DeclareNamedIndividual(Seq<char>),
    DeclareDatatype(Seq<char>),
    SubClassOf { sub: ClassExpressionView, sup: ClassExpressionView },
    EquivalentClasses(Seq<ClassExpressionView>),
    DisjointClasses(Seq<ClassExpressionView>),
    DisjointUnion(Seq<char>, Seq<ClassExpressionView>),
    SubObjectPropertyOf { sup: ObjectPropertyExpressionView, sub: SubObjectPropertyExpressionView },
    EquivalentObjectProperties(Seq<ObjectPropertyExpressionView>),
    DisjointObjectProperties(Seq<ObjectPropertyExpressionView>),
    InverseObjectProperties(Seq<char>, Seq<char>),
    ObjectPropertyDomain { ope: ObjectPropertyExpressionView, ce: ClassExpressionView },
    ObjectPropertyRange { ope: ObjectPropertyExpressionView, ce: ClassExpressionView },
    FunctionalObjectProperty(ObjectPropertyExpressionView),
    InverseFunctionalObjectProperty(ObjectPropertyExpressionView),
    ReflexiveObjectProperty(ObjectPropertyExpressionView),
    IrreflexiveObjectProperty(ObjectPropertyExpressionView),
    SymmetricObjectProperty(ObjectPropertyExpressionView),
    AsymmetricObjectProperty(ObjectPropertyExpressionView),
    TransitiveObjectProperty(ObjectPropertyExpressionView),
    SubDataPropertyOf { sup: Seq<char>, sub: Seq<char> },
    EquivalentDataProperties(Seq<Seq<char>>),
    DisjointDataProperties(Seq<Seq<char>>),
    DataPropertyDomain { dp: Seq<char>, ce: ClassExpressionView },
    DataPropertyRange { dp: Seq<char>, dr: DataRangeView },
    FunctionalDataProperty(Seq<char>),
    DatatypeDefinition { kind: Seq<char>, range: DataRangeView },
    AnnotationAssertion { subject: Seq<char>, ann: AnnotationView },
    SubAnnotationPropertyOf { sup: Seq<char>, sub: Seq<char> },
    AnnotationPropertyDomain { ap: Seq<char>, iri: Seq<char> },
    AnnotationPropertyRange { ap: Seq<char>, iri: Seq<char> },
    Import(Seq<char>),
}

/// The mathematical value of a value.
pub open spec fn axiom_view(x: Axiom) -> AxiomView
{
    match x {
        Axiom::DeclareClass(p_0) => AxiomView::DeclareClass(p_0.deep_view()),
        Axiom::DeclareObjectProperty(p_0) => AxiomView::DeclareObjectProperty(p_0.deep_view()),
        Axiom::DeclareAnnotationProperty(p_0) => {
            AxiomView::DeclareAnnotationProperty(p_0.deep_view())
        },
        Axiom::DeclareDataProperty(p_0) => AxiomView::DeclareDataProperty(p_0.deep_view()),
        Axiom::DeclareNamedIndividual(p_0) => AxiomView::DeclareNamedIndividual(p_0.deep_view()),
        Axiom::DeclareDatatype(p_0) => AxiomView::DeclareDatatype(p_0.deep_view()),
        Axiom::SubClassOf { sub: p_sub, sup: p_sup } => {
            AxiomView::SubClassOf { sub: p_sub.deep_view(), sup: p_sup.deep_view() }
        },
        Axiom::EquivalentClasses(p_0) => AxiomView::EquivalentClasses(p_0.deep_view()),
        Axiom::DisjointClasses(p_0) => AxiomView::DisjointClasses(p_0.deep_view()),
        Axiom::DisjointUnion(p_0, p_1) => {
            AxiomView::DisjointUnion(p_0.deep_view(), p_1.deep_view())
        },
        Axiom::SubObjectPropertyOf { sup: p_sup, sub: p_sub } => {
            AxiomView::SubObjectPropertyOf { sup: p_sup.deep_view(), sub: p_sub.deep_view() }
        },
        Axiom::EquivalentObjectProperties(p_0) => {
            AxiomView::EquivalentObjectProperties(p_0.deep_view())
        },
        Axiom::DisjointObjectProperties(p_0) => {
            AxiomView::DisjointObjectProperties(p_0.deep_view())
        },
        Axiom::InverseObjectProperties(p_0, p_1) => {
            AxiomView::InverseObjectProperties(p_0.deep_view(), p_1.deep_view())
        },
        Axiom::ObjectPropertyDomain { ope: p_ope, ce: p_ce } => {
            AxiomView::ObjectPropertyDomain { ope: p_ope.deep_view(), ce: p_ce.deep_view() }
        },
        Axiom::ObjectPropertyRange { ope: p_ope, ce: p_ce } => {
            AxiomView::ObjectPropertyRange { ope: p_ope.deep_view(), ce: p_ce.deep_view() }
        },
        Axiom::FunctionalObjectProperty(p_0) => {
            AxiomView::FunctionalObjectProperty(p_0.deep_view())
        },
        Axiom::InverseFunctionalObjectProperty(p_0) => {
            AxiomView::InverseFunctionalObjectProperty(p_0.deep_view())
        },
        Axiom::ReflexiveObjectProperty(p_0) => AxiomView::ReflexiveObjectProperty(p_0.deep_view()),
        Axiom::IrreflexiveObjectProperty(p_0) => {
            AxiomView::IrreflexiveObjectProperty(p_0.deep_view())
        },
        Axiom::SymmetricObjectProperty(p_0) => AxiomView::SymmetricObjectProperty(p_0.deep_view()),
        Axiom::AsymmetricObjectProperty(p_0) => {
            AxiomView::AsymmetricObjectProperty(p_0.deep_view())
        },
        Axiom::TransitiveObjectProperty(p_0) => {
            AxiomView::TransitiveObjectProperty(p_0.deep_view())
        },
        Axiom::SubDataPropertyOf { sup: p_sup, sub: p_sub } => {
            AxiomView::SubDataPropertyOf { sup: p_sup.deep_view(), sub: p_sub.deep_view() }
        },
        Axiom::EquivalentDataProperties(p_0) => {
            AxiomView::EquivalentDataProperties(p_0.deep_view())
        },
        Axiom::DisjointDataProperties(p_0) => AxiomView::DisjointDataProperties(p_0.deep_view()),
        Axiom::DataPropertyDomain { dp: p_dp, ce: p_ce } => {
            AxiomView::DataPropertyDomain { dp: p_dp.deep_view(), ce: p_ce.deep_view() }
        },
        Axiom::DataPropertyRange { dp: p_dp, dr: p_dr } => {
            AxiomView::DataPropertyRange { dp: p_dp.deep_view(), dr: p_dr.deep_view() }
        },
        Axiom::FunctionalDataProperty(p_0) => AxiomView::FunctionalDataProperty(p_0.deep_view()),
        Axiom::DatatypeDefinition { kind: p_kind, range: p_range } => {
            AxiomView::DatatypeDefinition { kind: p_kind.deep_view(), range: p_range.deep_view() }
        },
        Axiom::AnnotationAssertion { subject: p_subject, ann: p_ann } => {
            AxiomView::AnnotationAssertion {
                subject: p_subject.deep_view(),
                ann: p_ann.deep_view(),
            }
        },
        Axiom::SubAnnotationPropertyOf { sup: p_sup, sub: p_sub } => {
            AxiomView::SubAnnotationPropertyOf { sup: p_sup.deep_view(), sub: p_sub.deep_view() }
        },
        Axiom::AnnotationPropertyDomain { ap: p_ap, iri: p_iri } => {
            AxiomView::AnnotationPropertyDomain { ap: p_ap.deep_view(), iri: p_iri.deep_view() }
        },
        Axiom::AnnotationPropertyRange { ap: p_ap, iri: p_iri } => {
            AxiomView::AnnotationPropertyRange { ap: p_ap.deep_view(), iri: p_iri.deep_view() }
        },
        Axiom::Import(p_0) => AxiomView::Import(p_0.deep_view()),
    }
}

impl DeepView for Axiom {
    type V = AxiomView;

    open spec fn deep_view(&self) -> AxiomView {
        axiom_view(*self)
    }
}

/// Whether two values are the same.
pub fn axiom_same(a: &Axiom, b: &Axiom) -> (r: bool)
    ensures
        r == (a.deep_view() == b.deep_view()),
{
    match (a, b) {
        (Axiom::DeclareClass(a_0), Axiom::DeclareClass(b_0)) => class_same(a_0, b_0),
        (Axiom::DeclareObjectProperty(a_0), Axiom::DeclareObjectProperty(b_0)) => {
            object_property_same(a_0, b_0)
        },
        (Axiom::DeclareAnnotationProperty(a_0), Axiom::DeclareAnnotationProperty(b_0)) => {
            annotation_property_same(a_0, b_0)
        },
        (Axiom::DeclareDataProperty(a_0), Axiom::DeclareDataProperty(b_0)) => {
            data_property_same(a_0, b_0)
        },
        (Axiom::DeclareNamedIndividual(a_0), Axiom::DeclareNamedIndividual(b_0)) => {
            named_individual_same(a_0, b_0)
        },
        (Axiom::DeclareDatatype(a_0), Axiom::DeclareDatatype(b_0)) => datatype_same(a_0, b_0),
        (
            Axiom::SubClassOf { sub: a_sub, sup: a_sup },
            Axiom::SubClassOf { sub: b_sub, sup: b_sup },
        ) => {
            class_expression_same(a_sub, b_sub) && class_expression_same(a_sup, b_sup)
        },
        (Axiom::EquivalentClasses(a_0), Axiom::EquivalentClasses(b_0)) => vec_same(a_0, b_0),
        (Axiom::DisjointClasses(a_0), Axiom::DisjointClasses(b_0)) => vec_same(a_0, b_0),
        (Axiom::DisjointUnion(a_0, a_1), Axiom::DisjointUnion(b_0, b_1)) => {
            class_same(a_0, b_0) && vec_same(a_1, b_1)
        },
        (
            Axiom::SubObjectPropertyOf { sup: a_sup, sub: a_sub },
            Axiom::SubObjectPropertyOf { sup: b_sup, sub: b_sub },
        ) => {
            object_property_expression_same(a_sup, b_sup)
                && sub_object_property_expression_same(a_sub, b_sub)
        },
        (Axiom::EquivalentObjectProperties(a_0), Axiom::EquivalentObjectProperties(b_0)) => {
            vec_same(a_0, b_0)
        },
        (Axiom::DisjointObjectProperties(a_0), Axiom::DisjointObjectProperties(b_0)) => {
            vec_same(a_0, b_0)
        },
        (Axiom::InverseObjectProperties(a_0, a_1), Axiom::InverseObjectProperties(b_0, b_1)) => {
            object_property_same(a_0, b_0) && object_property_same(a_1, b_1)
        },
        (
            Axiom::ObjectPropertyDomain { ope: a_ope, ce: a_ce },
            Axiom::ObjectPropertyDomain { ope: b_ope, ce: b_ce },
        ) => {
            object_property_expression_same(a_ope, b_ope) && class_expression_same(a_ce, b_ce)
        },
        (
            Axiom::ObjectPropertyRange { ope: a_ope, ce: a_ce },
            Axiom::ObjectPropertyRange { ope: b_ope, ce: b_ce },
        ) => {
            object_property_expression_same(a_ope, b_ope) && class_expression_same(a_ce, b_ce)
        },
        (Axiom::FunctionalObjectProperty(a_0), Axiom::FunctionalObjectProperty(b_0)) => {
            object_property_expression_same(a_0, b_0)
        },
        (
            Axiom::InverseFunctionalObjectProperty(a_0),
            Axiom::InverseFunctionalObjectProperty(b_0),
        ) => {
            object_property_expression_same(a_0, b_0)
        },
        (Axiom::ReflexiveObjectProperty(a_0), Axiom::ReflexiveObjectProperty(b_0)) => {
            object_property_expression_same(a_0, b_0)
        },
        (Axiom::IrreflexiveObjectProperty(a_0), Axiom::IrreflexiveObjectProperty(b_0)) => {
            object_property_expression_same(a_0, b_0)
        },
        (Axiom::SymmetricObjectProperty(a_0), Axiom::SymmetricObjectProperty(b_0)) => {
            object_property_expression_same(a_0, b_0)
        },
        (Axiom::AsymmetricObjectProperty(a_0), Axiom::AsymmetricObjectProperty(b_0)) => {
            object_property_expression_same(a_0, b_0)
        },
        (Axiom::TransitiveObjectProperty(a_0), Axiom::TransitiveObjectProperty(b_0)) => {
            object_property_expression_same(a_0, b_0)
        },
        (
            Axiom::SubDataPropertyOf { sup: a_sup, sub: a_sub },
            Axiom::SubDataPropertyOf { sup: b_sup, sub: b_sub },
        ) => {
            data_property_same(a_sup, b_sup) && data_property_same(a_sub, b_sub)
        },
        (Axiom::EquivalentDataProperties(a_0), Axiom::EquivalentDataProperties(b_0)) => {
            vec_same(a_0, b_0)
        },
        (Axiom::DisjointDataProperties(a_0), Axiom::DisjointDataProperties(b_0)) => {
            vec_same(a_0, b_0)
        },
        (
            Axiom::DataPropertyDomain { dp: a_dp, ce: a_ce },
            Axiom::DataPropertyDomain { dp: b_dp, ce: b_ce },
        ) => {
            data_property_same(a_dp, b_dp) && class_expression_same(a_ce, b_ce)
        },
        (
            Axiom::DataPropertyRange { dp: a_dp, dr: a_dr },
            Axiom::DataPropertyRange { dp: b_dp, dr: b_dr },
        ) => {
            data_property_same(a_dp, b_dp) && data_range_same(a_dr, b_dr)
        },
        (Axiom::FunctionalDataProperty(a_0), Axiom::FunctionalDataProperty(b_0)) => {
            data_property_same(a_0, b_0)
        },
        (
            Axiom::DatatypeDefinition { kind: a_kind, range: a_range },
            Axiom::DatatypeDefinition { kind: b_kind, range: b_range },
        ) => {
            datatype_same(a_kind, b_kind) && data_range_same(a_range, b_range)
        },
        (
            Axiom::AnnotationAssertion { subject: a_subject, ann: a_ann },
            Axiom::AnnotationAssertion { subject: b_subject, ann: b_ann },
        ) => {
            iri_same(a_subject, b_subject) && annotation_same(a_ann, b_ann)
        },
        (
            Axiom::SubAnnotationPropertyOf { sup: a_sup, sub: a_sub },
            Axiom::SubAnnotationPropertyOf { sup: b_sup, sub: b_sub },
        ) => {
            annotation_property_same(a_sup, b_sup) && annotation_property_same(a_sub, b_sub)
        },
        (
            Axiom::AnnotationPropertyDomain { ap: a_ap, iri: a_iri },
            Axiom::AnnotationPropertyDomain { ap: b_ap, iri: b_iri },
        ) => {
            annotation_property_same(a_ap, b_ap) && iri_same(a_iri, b_iri)
        },
        (
            Axiom::AnnotationPropertyRange { ap: a_ap, iri: a_iri },
            Axiom::AnnotationPropertyRange { ap: b_ap, iri: b_iri },
        ) => {
            annotation_property_same(a_ap, b_ap) && iri_same(a_iri, b_iri)
        },
        (Axiom::Import(a_0), Axiom::Import(b_0)) => iri_same(a_0, b_0),
        _ => false,
    }
}

/// A copy of a value.
pub fn axiom_copy(a: &Axiom) -> (r: Axiom)
    ensures
        r.deep_view() == a.deep_view(),
{
    match a {
        Axiom::DeclareClass(a_0) => Axiom::DeclareClass(class_copy(a_0)),
        Axiom::DeclareObjectProperty(a_0) => {
            Axiom::DeclareObjectProperty(object_property_copy(a_0))
        },
        Axiom::DeclareAnnotationProperty(a_0) => {
            Axiom::DeclareAnnotationProperty(annotation_property_copy(a_0))
        },
        Axiom::DeclareDataProperty(a_0) => Axiom::DeclareDataProperty(data_property_copy(a_0)),
        Axiom::DeclareNamedIndividual(a_0) => {
            Axiom::DeclareNamedIndividual(named_individual_copy(a_0))
        },
        Axiom::DeclareDatatype(a_0) => Axiom::DeclareDatatype(datatype_copy(a_0)),
        Axiom::SubClassOf { sub: a_sub, sup: a_sup } => {
            Axiom::SubClassOf {
                sub: class_expression_copy(a_sub),
                sup: class_expression_copy(a_sup),
            }
        },
        Axiom::EquivalentClasses(a_0) => Axiom::EquivalentClasses(vec_copy(a_0)),
        Axiom::DisjointClasses(a_0) => Axiom::DisjointClasses(vec_copy(a_0)),
        Axiom::DisjointUnion(a_0, a_1) => Axiom::DisjointUnion(class_copy(a_0), vec_copy(a_1)),
        Axiom::SubObjectPropertyOf { sup: a_sup, sub: a_sub } => {
            Axiom::SubObjectPropertyOf {
                sup: object_property_expression_copy(a_sup),
                sub: sub_object_property_expression_copy(a_sub),
            }
        },
        Axiom::EquivalentObjectProperties(a_0) => Axiom::EquivalentObjectProperties(vec_copy(a_0)),
        Axiom::DisjointObjectProperties(a_0) => Axiom::DisjointObjectProperties(vec_copy(a_0)),
        Axiom::InverseObjectProperties(a_0, a_1) => {
            Axiom::InverseObjectProperties(object_property_copy(a_0), object_property_copy(a_1))
        },
        Axiom::ObjectPropertyDomain { ope: a_ope, ce: a_ce } => {
            Axiom::ObjectPropertyDomain {
                ope: object_property_expression_copy(a_ope),
                ce: class_expression_copy(a_ce),
            }
        },
        Axiom::ObjectPropertyRange { ope: a_ope, ce: a_ce } => {
            Axiom::ObjectPropertyRange {
                ope: object_property_expression_copy(a_ope),
                ce: class_expression_copy(a_ce),
            }
        },
        Axiom::FunctionalObjectProperty(a_0) => {
            Axiom::FunctionalObjectProperty(object_property_expression_copy(a_0))
        },
        Axiom::InverseFunctionalObjectProperty(a_0) => {
            Axiom::InverseFunctionalObjectProperty(object_property_expression_copy(a_0))
        },
        Axiom::ReflexiveObjectProperty(a_0) => {
            Axiom::ReflexiveObjectProperty(object_property_expression_copy(a_0))
        },
        Axiom::IrreflexiveObjectProperty(a_0) => {
            Axiom::IrreflexiveObjectProperty(object_property_expression_copy(a_0))
        },
        Axiom::SymmetricObjectProperty(a_0) => {
            Axiom::SymmetricObjectProperty(object_property_expression_copy(a_0))
        },
        Axiom::AsymmetricObjectProperty(a_0) => {
            Axiom::AsymmetricObjectProperty(object_property_expression_copy(a_0))
        },
        Axiom::TransitiveObjectProperty(a_0) => {
            Axiom::TransitiveObjectProperty(object_property_expression_copy(a_0))
        },
        Axiom::SubDataPropertyOf { sup: a_sup, sub: a_sub } => {
            Axiom::SubDataPropertyOf {
                sup: data_property_copy(a_sup),
                sub: data_property_copy(a_sub),
            }
        },
        Axiom::EquivalentDataProperties(a_0) => Axiom::EquivalentDataProperties(vec_copy(a_0)),
        Axiom::DisjointDataProperties(a_0) => Axiom::DisjointDataProperties(vec_copy(a_0)),
        Axiom::DataPropertyDomain { dp: a_dp, ce: a_ce } => {
            Axiom::DataPropertyDomain {
                dp: data_property_copy(a_dp),
                ce: class_expression_copy(a_ce),
            }
        },
        Axiom::DataPropertyRange { dp: a_dp, dr: a_dr } => {
            Axiom::DataPropertyRange { dp: data_property_copy(a_dp), dr: data_range_copy(a_dr) }
        },
        Axiom::FunctionalDataProperty(a_0) => {
            Axiom::FunctionalDataProperty(data_property_copy(a_0))
        },
        Axiom::DatatypeDefinition { kind: a_kind, range: a_range } => {
            Axiom::DatatypeDefinition {
                kind: datatype_copy(a_kind),
                range: data_range_copy(a_range),
            }
        },
        Axiom::AnnotationAssertion { subject: a_subject, ann: a_ann } => {
            Axiom::AnnotationAssertion { subject: iri_copy(a_subject), ann: annotation_copy(a_ann) }
        },
        Axiom::SubAnnotationPropertyOf { sup: a_sup, sub: a_sub } => {
            Axiom::SubAnnotationPropertyOf {
                sup: annotation_property_copy(a_sup),
                sub: annotation_property_copy(a_sub),
            }
        },
        Axiom::AnnotationPropertyDomain { ap: a_ap, iri: a_iri } => {
            Axiom::AnnotationPropertyDomain {
                ap: annotation_property_copy(a_ap),
                iri: iri_copy(a_iri),
            }
        },
        Axiom::AnnotationPropertyRange { ap: a_ap, iri: a_iri } => {
            Axiom::AnnotationPropertyRange {
                ap: annotation_property_copy(a_ap),
                iri: iri_copy(a_iri),
            }
        },
        Axiom::Import(a_0) => Axiom::Import(iri_copy(a_0)),
    }
}

impl Clone for Axiom {
    fn clone(&self) -> (r: Self)
        ensures
            r.deep_view() == self.deep_view(),
    {
        axiom_copy(self)
    }
}

impl PartialEq for Axiom {
    fn eq(&self, other: &Self) -> (r: bool) {
        axiom_same(self, other)
    }
}

impl PartialEqSpecImpl for Axiom {
    open spec fn obeys_eq_spec() -> bool {
        true
    }

    open spec fn eq_spec(&self, other: &Self) -> bool {
        self.deep_view() == other.deep_view()
    }
}

impl Eq for Axiom {
}

} // verus!
