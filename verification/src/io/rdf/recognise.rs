//! Axioms among the triples that are left.
//!
//! Each triple is matched against the axioms that a single triple encodes. The
//! predicate, and for `rdf:type` the object, selects the axiom; the arguments are
//! resolved through the tables and the declarations made so far.

use crate::io::rdf::declare::{emit, leave, no_simple};
use crate::io::rdf::parser::{OntologyParser, ParserView};
use crate::io::rdf::ranges::with_tables;
use crate::io::rdf::resolve::{
    iri_of, resolve_ap, resolve_ce, resolve_ce_seq, resolve_dp, resolve_dr, resolve_ope,
    resolve_ope_seq, resolve_property, to_iri, TablesView,
};
use crate::io::rdf::sequences::no_buckets;
use crate::io::rdf::term::{Term, TermView, Triple, TripleView};
use crate::model::axioms::{Axiom, AxiomView};
use crate::model::entity::{iri_copy, Class, Datatype, ObjectProperty};
use crate::model::expression::{
    ClassExpression, ClassExpressionView, ObjectPropertyExpression, ObjectPropertyExpressionView,
    PropertyExpression, PropertyExpressionView, SubObjectPropertyExpression,
    SubObjectPropertyExpressionView,
};
use crate::ontology::{declaration_kind, find_declaration_kind, AnnotatedAxiomView, NamedEntityKind};
use crate::vocab::{OWL, RDF, RDFS};
use vstd::prelude::*;

verus! {

/// `s rdfs:subClassOf x`: the named class `s` is a subclass of what `x` stands for.
pub open spec fn sub_class(tb: TablesView, t: TripleView) -> (Option<AxiomView>, TablesView) {
    match t.subject {
        TermView::Iri(sub) => {
            let (c, tb1) = resolve_ce(tb, t.object);
            (
                match c {
                    Some(sup) => Some(
                        AxiomView::SubClassOf { sub: ClassExpressionView::Class(sub), sup },
                    ),
                    None => None,
                },
                tb1,
            )
        },
        _ => (None, tb),
    }
}

/// `a owl:equivalentClass x`: for a declared class, the class and what `x`
/// stands for are equivalent; for a declared datatype, `x` defines it.
pub open spec fn equivalent(o: Seq<AnnotatedAxiomView>, tb: TablesView, t: TripleView) -> (
    Option<AxiomView>,
    TablesView,
) {
    match t.subject {
        TermView::Iri(a) => match declaration_kind(o, a) {
            Some(NamedEntityKind::Class) => {
                let (c, tb1) = resolve_ce(tb, t.object);
                (
                    match c {
                        Some(c) => Some(
                            AxiomView::EquivalentClasses(seq![c, ClassExpressionView::Class(a)]),
                        ),
                        None => None,
                    },
                    tb1,
                )
            },
            Some(NamedEntityKind::Datatype) => {
                let (d, tb1) = resolve_dr(tb, t.object);
                (
                    match d {
                        Some(range) => Some(AxiomView::DatatypeDefinition { kind: a, range }),
                        None => None,
                    },
                    tb1,
                )
            },
            _ => (None, tb),
        },
        _ => (None, tb),
    }
}

/// `c owl:disjointUnionOf l`: the named class is the disjoint union of the
/// class expressions of the list.
pub open spec fn disjoint_union(tb: TablesView, t: TripleView) -> (Option<AxiomView>, TablesView) {
    match (t.subject, t.object) {
        (TermView::Iri(c), TermView::BNode(id)) => {
            let (s, tb1) = resolve_ce_seq(tb, id);
            (
                match s {
                    Some(s) => Some(AxiomView::DisjointUnion(c, s)),
                    None => None,
                },
                tb1,
            )
        },
        _ => (None, tb),
    }
}

/// `p owl:inverseOf r` between two named properties.
pub open spec fn inverse_properties(t: TripleView) -> Option<AxiomView> {
    match (t.subject, t.object) {
        (TermView::Iri(p), TermView::Iri(r)) => Some(AxiomView::InverseObjectProperties(p, r)),
        _ => None,
    }
}

/// `o owl:imports i`: the ontology imports the ontology `i`. The import is
/// recorded as an axiom; what it names is not fetched.
pub open spec fn import_of(t: TripleView) -> Option<AxiomView> {
    match (t.subject, t.object) {
        (TermView::Iri(_), TermView::Iri(i)) => Some(AxiomView::Import(i)),
        _ => None,
    }
}

/// `a owl:disjointWith b` between two named classes.
pub open spec fn disjoint_classes(t: TripleView) -> Option<AxiomView> {
    match (t.subject, t.object) {
        (TermView::Iri(a), TermView::Iri(b)) => Some(
            AxiomView::DisjointClasses(
                seq![ClassExpressionView::Class(b), ClassExpressionView::Class(a)],
            ),
        ),
        _ => None,
    }
}

/// The axiom that states the characteristic `c` of an object property expression.
pub open spec fn object_characteristic(c: OWL, ope: ObjectPropertyExpressionView) -> Option<
    AxiomView,
> {
    match c {
        OWL::TransitiveProperty => Some(AxiomView::TransitiveObjectProperty(ope)),
        OWL::FunctionalProperty => Some(AxiomView::FunctionalObjectProperty(ope)),
        OWL::AsymmetricProperty => Some(AxiomView::AsymmetricObjectProperty(ope)),
        OWL::SymmetricProperty => Some(AxiomView::SymmetricObjectProperty(ope)),
        OWL::ReflexiveProperty => Some(AxiomView::ReflexiveObjectProperty(ope)),
        OWL::IrreflexiveProperty => Some(AxiomView::IrreflexiveObjectProperty(ope)),
        OWL::InverseFunctionalProperty => Some(AxiomView::InverseFunctionalObjectProperty(ope)),
        _ => None,
    }
}

/// `p rdf:type c` for a property characteristic `c`: the axiom on the object
/// property expression that `p` stands for, or, for a functional data
/// property, the axiom on the data property.
pub open spec fn characteristic(o: Seq<AnnotatedAxiomView>, tb: TablesView, t: TripleView) -> (
    Option<AxiomView>,
    TablesView,
) {
    match t.object {
        TermView::OWL(c) => if object_characteristic(
            c,
            ObjectPropertyExpressionView::ObjectProperty(Seq::empty()),
        ) is Some {
            let (pe, tb1) = resolve_property(o, tb, t.subject);
            (
                match pe {
                    Some(PropertyExpressionView::ObjectPropertyExpression(ope)) =>
                        object_characteristic(c, ope),
                    Some(PropertyExpressionView::DataProperty(dp)) => if c
                        == OWL::FunctionalProperty {
                        Some(AxiomView::FunctionalDataProperty(dp))
                    } else {
                        None
                    },
                    _ => None,
                },
                tb1,
            )
        } else {
            (None, tb)
        },
        _ => (None, tb),
    }
}

/// `p rdfs:subPropertyOf q`: the kind of `q` decides the kind of the axiom, and
/// `p` must stand for a property of that kind.
pub open spec fn sub_property(o: Seq<AnnotatedAxiomView>, tb: TablesView, t: TripleView) -> (
    Option<AxiomView>,
    TablesView,
) {
    let (pe, tb1) = resolve_property(o, tb, t.object);
    match pe {
        Some(PropertyExpressionView::ObjectPropertyExpression(sup)) => {
            let (sub, tb2) = resolve_ope(o, tb1, t.subject);
            (
                match sub {
                    Some(sub) => Some(
                        AxiomView::SubObjectPropertyOf {
                            sup,
                            sub: SubObjectPropertyExpressionView::ObjectPropertyExpression(sub),
                        },
                    ),
                    None => None,
                },
                tb2,
            )
        },
        Some(PropertyExpressionView::AnnotationProperty(sup)) => {
            let (sub, tb2) = resolve_ap(o, tb1, t.subject);
            (
                match sub {
                    Some(sub) => Some(AxiomView::SubAnnotationPropertyOf { sup, sub }),
                    None => None,
                },
                tb2,
            )
        },
        Some(PropertyExpressionView::DataProperty(sup)) => {
            let (sub, tb2) = resolve_dp(o, tb1, t.subject);
            (
                match sub {
                    Some(sub) => Some(AxiomView::SubDataPropertyOf { sup, sub }),
                    None => None,
                },
                tb2,
            )
        },
        None => (None, tb1),
    }
}

/// `p owl:propertyChainAxiom l`: the chain of the properties of the list is a
/// sub-property of the named property.
pub open spec fn property_chain(o: Seq<AnnotatedAxiomView>, tb: TablesView, t: TripleView) -> (
    Option<AxiomView>,
    TablesView,
) {
    match (t.subject, t.object) {
        (TermView::Iri(p), TermView::BNode(id)) => {
            let (s, tb1) = resolve_ope_seq(o, tb, id);
            (
                match s {
                    Some(s) => Some(
                        AxiomView::SubObjectPropertyOf {
                            sup: ObjectPropertyExpressionView::ObjectProperty(p),
                            sub: SubObjectPropertyExpressionView::ObjectPropertyChain(s),
                        },
                    ),
                    None => None,
                },
                tb1,
            )
        },
        _ => (None, tb),
    }
}

/// `p rdfs:domain x`: the domain of the property, by the kind of the property.
pub open spec fn domain(o: Seq<AnnotatedAxiomView>, tb: TablesView, t: TripleView) -> (
    Option<AxiomView>,
    TablesView,
) {
    let (pe, tb1) = resolve_property(o, tb, t.subject);
    match pe {
        Some(PropertyExpressionView::ObjectPropertyExpression(ope)) => {
            let (c, tb2) = resolve_ce(tb1, t.object);
            (
                match c {
                    Some(ce) => Some(AxiomView::ObjectPropertyDomain { ope, ce }),
                    None => None,
                },
                tb2,
            )
        },
        Some(PropertyExpressionView::DataProperty(dp)) => {
            let (c, tb2) = resolve_ce(tb1, t.object);
            (
                match c {
                    Some(ce) => Some(AxiomView::DataPropertyDomain { dp, ce }),
                    None => None,
                },
                tb2,
            )
        },
        Some(PropertyExpressionView::AnnotationProperty(ap)) => (
            match iri_of(t.object) {
                Some(iri) => Some(AxiomView::AnnotationPropertyDomain { ap, iri }),
                None => None,
            },
            tb1,
        ),
        None => (None, tb1),
    }
}

/// `p rdfs:range x`: the range of the property, by the kind of the property.
pub open spec fn range(o: Seq<AnnotatedAxiomView>, tb: TablesView, t: TripleView) -> (
    Option<AxiomView>,
    TablesView,
) {
    let (pe, tb1) = resolve_property(o, tb, t.subject);
    match pe {
        Some(PropertyExpressionView::ObjectPropertyExpression(ope)) => {
            let (c, tb2) = resolve_ce(tb1, t.object);
            (
                match c {
                    Some(ce) => Some(AxiomView::ObjectPropertyRange { ope, ce }),
                    None => None,
                },
                tb2,
            )
        },
        Some(PropertyExpressionView::DataProperty(dp)) => {
            let (d, tb2) = resolve_dr(tb1, t.object);
            (
                match d {
                    Some(dr) => Some(AxiomView::DataPropertyRange { dp, dr }),
                    None => None,
                },
                tb2,
            )
        },
        Some(PropertyExpressionView::AnnotationProperty(ap)) => (
            match iri_of(t.object) {
                Some(iri) => Some(AxiomView::AnnotationPropertyRange { ap, iri }),
                None => None,
            },
            tb1,
        ),
        None => (None, tb1),
    }
}

/// The axiom that a triple encodes, and the tables after its arguments were taken.
pub open spec fn recognise(o: Seq<AnnotatedAxiomView>, tb: TablesView, t: TripleView) -> (
    Option<AxiomView>,
    TablesView,
) {
    match t.predicate {
        TermView::RDFS(RDFS::SubClassOf) => sub_class(tb, t),
        TermView::OWL(OWL::EquivalentClass) => equivalent(o, tb, t),
        TermView::OWL(OWL::DisjointUnionOf) => disjoint_union(tb, t),
        TermView::OWL(OWL::InverseOf) => (inverse_properties(t), tb),
        TermView::RDF(RDF::Type) => characteristic(o, tb, t),
        TermView::OWL(OWL::DisjointWith) => (disjoint_classes(t), tb),
        TermView::RDFS(RDFS::SubPropertyOf) => sub_property(o, tb, t),
        TermView::OWL(OWL::PropertyChainAxiom) => property_chain(o, tb, t),
        TermView::OWL(OWL::Imports) => (import_of(t), tb),
        TermView::RDFS(RDFS::Domain) => domain(o, tb, t),
        TermView::RDFS(RDFS::Range) => range(o, tb, t),
        _ => (None, tb),
    }
}

/// One triple: a triple that encodes an axiom gives the axiom to the ontology,
/// with the annotations that waited for it, and its arguments leave the tables;
/// any other joins the simple triples, and the tables stay as they were.
pub open spec fn axiom_step(st: ParserView, t: TripleView) -> ParserView {
    let (r, tb1) = recognise(st.o.axioms, st.tables, t);
    match r {
        Some(ax) => emit(with_tables(st, tb1), t, ax),
        None => leave(st, t),
    }
}

/// The triples of one bucket, each in its turn.
pub open spec fn bucket_step(st: ParserView, e: (Seq<char>, Seq<TripleView>)) -> ParserView {
    e.1.fold_left(st, |s: ParserView, t: TripleView| axiom_step(s, t))
}

/// The state after the axioms were recognised: the simple triples come first,
/// then the triples of each bucket. What is not recognised is a simple triple
/// afterwards, and no bucket is left.
pub open spec fn after_axioms(st: ParserView) -> ParserView {
    let st1 = st.simple.fold_left(
        no_buckets(no_simple(st)),
        |s: ParserView, t: TripleView| axiom_step(s, t),
    );
    st.bnode.fold_left(st1, |s: ParserView, e: (Seq<char>, Seq<TripleView>)| bucket_step(s, e))
}

/// The axiom that states the characteristic `c` of an object property expression.
pub fn make_characteristic(c: OWL, ope: ObjectPropertyExpression) -> (r: Option<Axiom>)
    ensures
        r.deep_view() == object_characteristic(c, ope.deep_view()),
{
    match c {
        OWL::TransitiveProperty => Some(Axiom::TransitiveObjectProperty(ope)),
        OWL::FunctionalProperty => Some(Axiom::FunctionalObjectProperty(ope)),
        OWL::AsymmetricProperty => Some(Axiom::AsymmetricObjectProperty(ope)),
        OWL::SymmetricProperty => Some(Axiom::SymmetricObjectProperty(ope)),
        OWL::ReflexiveProperty => Some(Axiom::ReflexiveObjectProperty(ope)),
        OWL::IrreflexiveProperty => Some(Axiom::IrreflexiveObjectProperty(ope)),
        OWL::InverseFunctionalProperty => Some(Axiom::InverseFunctionalObjectProperty(ope)),
        _ => None,
    }
}

/// Whether the token is one of the characteristics of properties.
pub fn is_characteristic(c: OWL) -> (r: bool)
    ensures
        r == (object_characteristic(
            c,
            ObjectPropertyExpressionView::ObjectProperty(Seq::empty()),
        ) is Some),
{
    match c {
        OWL::TransitiveProperty
        | OWL::FunctionalProperty
        | OWL::AsymmetricProperty
        | OWL::SymmetricProperty
        | OWL::ReflexiveProperty
        | OWL::IrreflexiveProperty
        | OWL::InverseFunctionalProperty => true,
        _ => false,
    }
}

/// The axiom between two named properties that are inverse to each other.
pub fn as_inverse_properties(t: &Triple) -> (r: Option<Axiom>)
    ensures
        r.deep_view() == inverse_properties(t.deep_view()),
{
    match (&t.subject, &t.object) {
        (Term::Iri(p), Term::Iri(r)) => Some(
            Axiom::InverseObjectProperties(ObjectProperty(iri_copy(p)), ObjectProperty(iri_copy(r))),
        ),
        _ => None,
    }
}

/// The axiom that records an import.
pub fn as_import(t: &Triple) -> (r: Option<Axiom>)
    ensures
        r.deep_view() == import_of(t.deep_view()),
{
    match (&t.subject, &t.object) {
        (Term::Iri(_), Term::Iri(i)) => Some(Axiom::Import(iri_copy(i))),
        _ => None,
    }
}

/// The axiom between two named classes that are disjoint.
pub fn as_disjoint_classes(t: &Triple) -> (r: Option<Axiom>)
    ensures
        r.deep_view() == disjoint_classes(t.deep_view()),
{
    match (&t.subject, &t.object) {
        (Term::Iri(a), Term::Iri(b)) => {
            let mut v: Vec<ClassExpression> = Vec::new();
            v.push(ClassExpression::Class(Class(iri_copy(b))));
            v.push(ClassExpression::Class(Class(iri_copy(a))));
            assert(v.deep_view() =~= seq![
                ClassExpressionView::Class(b.deep_view()),
                ClassExpressionView::Class(a.deep_view()),
            ]);
            Some(Axiom::DisjointClasses(v))
        },
        _ => None,
    }
}

impl<'a> OntologyParser<'a> {
    /// A subclass axiom.
    pub fn as_sub_class(&mut self, t: &Triple) -> (r: Option<Axiom>)
        ensures
            (r.deep_view(), final(self).deep_view().tables) == sub_class(
                old(self).deep_view().tables,
                t.deep_view(),
            ),
            final(self).deep_view() == with_tables(
                old(self).deep_view(),
                final(self).deep_view().tables,
            ),
    {
        match &t.subject {
            Term::Iri(sub) => match self.tables.to_ce(&t.object) {
                Some(sup) => {
                    let named = ClassExpression::Class(Class(iri_copy(sub)));
                    assert(named.deep_view() == ClassExpressionView::Class(sub.deep_view()));
                    Some(Axiom::SubClassOf { sub: named, sup })
                },
                None => None,
            },
            _ => None,
        }
    }

    /// An equivalence of classes, or the definition of a datatype.
    pub fn as_equivalent(&mut self, t: &Triple) -> (r: Option<Axiom>)
        ensures
            (r.deep_view(), final(self).deep_view().tables) == equivalent(
                old(self).deep_view().o.axioms,
                old(self).deep_view().tables,
                t.deep_view(),
            ),
            final(self).deep_view() == with_tables(
                old(self).deep_view(),
                final(self).deep_view().tables,
            ),
    {
        match &t.subject {
            Term::Iri(a) => match find_declaration_kind(&self.o, a) {
                Some(NamedEntityKind::Class) => match self.tables.to_ce(&t.object) {
                    Some(c) => {
                        let ghost cv = c.deep_view();
                        let mut v: Vec<ClassExpression> = Vec::new();
                        v.push(c);
                        v.push(ClassExpression::Class(Class(iri_copy(a))));
                        assert(v.deep_view() =~= seq![
                            cv,
                            ClassExpressionView::Class(a.deep_view()),
                        ]);
                        Some(Axiom::EquivalentClasses(v))
                    },
                    None => None,
                },
                Some(NamedEntityKind::Datatype) => match self.tables.to_dr(&t.object) {
                    Some(range) => Some(
                        Axiom::DatatypeDefinition { kind: Datatype(iri_copy(a)), range },
                    ),
                    None => None,
                },
                _ => None,
            },
            _ => None,
        }
    }

    /// A disjoint union.
    pub fn as_disjoint_union(&mut self, t: &Triple) -> (r: Option<Axiom>)
        ensures
            (r.deep_view(), final(self).deep_view().tables) == disjoint_union(
                old(self).deep_view().tables,
                t.deep_view(),
            ),
            final(self).deep_view() == with_tables(
                old(self).deep_view(),
                final(self).deep_view().tables,
            ),
    {
        match (&t.subject, &t.object) {
            (Term::Iri(c), Term::BNode(id)) => match self.tables.to_ce_seq(id.as_str()) {
                Some(s) => Some(Axiom::DisjointUnion(Class(iri_copy(c)), s)),
                None => None,
            },
            _ => None,
        }
    }

    /// A characteristic of a property.
    pub fn as_characteristic(&mut self, t: &Triple) -> (r: Option<Axiom>)
        ensures
            (r.deep_view(), final(self).deep_view().tables) == characteristic(
                old(self).deep_view().o.axioms,
                old(self).deep_view().tables,
                t.deep_view(),
            ),
            final(self).deep_view() == with_tables(
                old(self).deep_view(),
                final(self).deep_view().tables,
            ),
    {
        match &t.object {
            Term::OWL(c) => {
                if is_characteristic(*c) {
                    match self.tables.find_property_kind(&self.o, &t.subject) {
                        Some(PropertyExpression::ObjectPropertyExpression(ope)) => {
                            make_characteristic(*c, ope)
                        },
                        Some(PropertyExpression::DataProperty(dp)) => {
                            if *c == OWL::FunctionalProperty {
                                Some(Axiom::FunctionalDataProperty(dp))
                            } else {
                                None
                            }
                        },
                        _ => None,
                    }
                } else {
                    None
                }
            },
            _ => None,
        }
    }

    /// A sub-property axiom.
    pub fn as_sub_property(&mut self, t: &Triple) -> (r: Option<Axiom>)
        ensures
            (r.deep_view(), final(self).deep_view().tables) == sub_property(
                old(self).deep_view().o.axioms,
                old(self).deep_view().tables,
                t.deep_view(),
            ),
            final(self).deep_view() == with_tables(
                old(self).deep_view(),
                final(self).deep_view().tables,
            ),
    {
        match self.tables.find_property_kind(&self.o, &t.object) {
            Some(PropertyExpression::ObjectPropertyExpression(sup)) => {
                match self.tables.to_sope(&self.o, &t.subject) {
                    Some(sub) => Some(Axiom::SubObjectPropertyOf { sup, sub }),
                    None => None,
                }
            },
            Some(PropertyExpression::AnnotationProperty(sup)) => {
                match self.tables.to_ap(&self.o, &t.subject) {
                    Some(sub) => Some(Axiom::SubAnnotationPropertyOf { sup, sub }),
                    None => None,
                }
            },
            Some(PropertyExpression::DataProperty(sup)) => {
                match self.tables.to_dp(&self.o, &t.subject) {
                    Some(sub) => Some(Axiom::SubDataPropertyOf { sup, sub }),
                    None => None,
                }
            },
            None => None,
        }
    }

    /// A property chain.
    pub fn as_property_chain(&mut self, t: &Triple) -> (r: Option<Axiom>)
        ensures
            (r.deep_view(), final(self).deep_view().tables) == property_chain(
                old(self).deep_view().o.axioms,
                old(self).deep_view().tables,
                t.deep_view(),
            ),
            final(self).deep_view() == with_tables(
                old(self).deep_view(),
                final(self).deep_view().tables,
            ),
    {
        match (&t.subject, &t.object) {
            (Term::Iri(p), Term::BNode(id)) => {
                match self.tables.to_ope_seq(&self.o, id.as_str()) {
                    Some(s) => Some(
                        Axiom::SubObjectPropertyOf {
                            sup: ObjectPropertyExpression::ObjectProperty(
                                ObjectProperty(iri_copy(p)),
                            ),
                            sub: SubObjectPropertyExpression::ObjectPropertyChain(s),
                        },
                    ),
                    None => None,
                }
            },
            _ => None,
        }
    }

    /// The domain of a property.
    pub fn as_domain(&mut self, t: &Triple) -> (r: Option<Axiom>)
        ensures
            (r.deep_view(), final(self).deep_view().tables) == domain(
                old(self).deep_view().o.axioms,
                old(self).deep_view().tables,
                t.deep_view(),
            ),
            final(self).deep_view() == with_tables(
                old(self).deep_view(),
                final(self).deep_view().tables,
            ),
    {
        match self.tables.find_property_kind(&self.o, &t.subject) {
            Some(PropertyExpression::ObjectPropertyExpression(ope)) => {
                match self.tables.to_ce(&t.object) {
                    Some(ce) => Some(Axiom::ObjectPropertyDomain { ope, ce }),
                    None => None,
                }
            },
            Some(PropertyExpression::DataProperty(dp)) => match self.tables.to_ce(&t.object) {
                Some(ce) => Some(Axiom::DataPropertyDomain { dp, ce }),
                None => None,
            },
            Some(PropertyExpression::AnnotationProperty(ap)) => match to_iri(&t.object) {
                Some(iri) => Some(Axiom::AnnotationPropertyDomain { ap, iri }),
                None => None,
            },
            None => None,
        }
    }

    /// The range of a property.
    pub fn as_range(&mut self, t: &Triple) -> (r: Option<Axiom>)
        ensures
            (r.deep_view(), final(self).deep_view().tables) == range(
                old(self).deep_view().o.axioms,
                old(self).deep_view().tables,
                t.deep_view(),
            ),
            final(self).deep_view() == with_tables(
                old(self).deep_view(),
                final(self).deep_view().tables,
            ),
    {
        match self.tables.find_property_kind(&self.o, &t.subject) {
            Some(PropertyExpression::ObjectPropertyExpression(ope)) => {
                match self.tables.to_ce(&t.object) {
                    Some(ce) => Some(Axiom::ObjectPropertyRange { ope, ce }),
                    None => None,
                }
            },
            Some(PropertyExpression::DataProperty(dp)) => match self.tables.to_dr(&t.object) {
                Some(dr) => Some(Axiom::DataPropertyRange { dp, dr }),
                None => None,
            },
            Some(PropertyExpression::AnnotationProperty(ap)) => match to_iri(&t.object) {
                Some(iri) => Some(Axiom::AnnotationPropertyRange { ap, iri }),
                None => None,
            },
            None => None,
        }
    }

    /// The axiom that a triple encodes.
    pub fn as_axiom(&mut self, t: &Triple) -> (r: Option<Axiom>)
        ensures
            (r.deep_view(), final(self).deep_view().tables) == recognise(
                old(self).deep_view().o.axioms,
                old(self).deep_view().tables,
                t.deep_view(),
            ),
            final(self).deep_view() == with_tables(
                old(self).deep_view(),
                final(self).deep_view().tables,
            ),
    {
        match &t.predicate {
            Term::RDFS(RDFS::SubClassOf) => self.as_sub_class(t),
            Term::OWL(OWL::EquivalentClass) => self.as_equivalent(t),
            Term::OWL(OWL::DisjointUnionOf) => self.as_disjoint_union(t),
            Term::OWL(OWL::InverseOf) => as_inverse_properties(t),
            Term::RDF(RDF::Type) => self.as_characteristic(t),
            Term::OWL(OWL::DisjointWith) => as_disjoint_classes(t),
            Term::RDFS(RDFS::SubPropertyOf) => self.as_sub_property(t),
            Term::OWL(OWL::PropertyChainAxiom) => self.as_property_chain(t),
            Term::OWL(OWL::Imports) => as_import(t),
            Term::RDFS(RDFS::Domain) => self.as_domain(t),
            Term::RDFS(RDFS::Range) => self.as_range(t),
            _ => None,
        }
    }

    /// Recognises one triple: gives its axiom to the ontology, or leaves it
    /// among the simple triples.
    pub fn recognise_triple(&mut self, t: Triple)
        ensures
            final(self).deep_view() == axiom_step(old(self).deep_view(), t.deep_view()),
    {
        let saved = match &t.predicate {
            Term::OWL(_) | Term::RDF(_) | Term::RDFS(_) => Some(self.tables.snapshot()),
            _ => None,
        };
        match self.as_axiom(&t) {
            Some(ax) => {
                self.emit_axiom(&t, ax);
            },
            None => {
                match saved {
                    Some(tables) => {
                        self.tables = tables;
                    },
                    None => {},
                }
                self.leave_triple(t);
            },
        }
    }

    /// Recognises the axioms among the simple triples and the triples of the
    /// buckets.
    pub fn axioms(&mut self)
        ensures
            final(self).deep_view() == after_axioms(old(self).deep_view()),
    {
        let ghost st = self.deep_view();
        let triples = self.take_simple();
        let buckets = self.take_buckets();
        let ghost all = triples.deep_view();
        let ghost items = triples@;
        let ghost step = |s: ParserView, t: TripleView| axiom_step(s, t);
        proof {
            assert(all.take(0) =~= Seq::<TripleView>::empty());
        }
        for t in it: triples
            invariant
                it.seq() == items,
                all.len() == items.len(),
                forall|j: int| 0 <= j < items.len() ==> all[j] == items[j].deep_view(),
                step == |s: ParserView, t: TripleView| axiom_step(s, t),
                self.deep_view() == all.take(it.index() as int).fold_left(
                    no_buckets(no_simple(st)),
                    step,
                ),
        {
            let ghost i = it.index() as int;
            proof {
                assert(all.take(i + 1).drop_last() =~= all.take(i));
                assert(all.take(i + 1).last() == t.deep_view());
            }
            self.recognise_triple(t);
        }
        proof {
            assert(all.take(all.len() as int) =~= all);
        }
        let ghost st1 = self.deep_view();
        let ghost ball = buckets.deep_view();
        let ghost bitems = buckets@;
        let ghost bstep = |s: ParserView, e: (Seq<char>, Seq<TripleView>)| bucket_step(s, e);
        proof {
            assert(ball.take(0) =~= Seq::<(Seq<char>, Seq<TripleView>)>::empty());
        }
        for e in bit: buckets
            invariant
                bit.seq() == bitems,
                ball.len() == bitems.len(),
                forall|j: int| 0 <= j < bitems.len() ==> ball[j] == bitems[j].deep_view(),
                bstep == |s: ParserView, e: (Seq<char>, Seq<TripleView>)| bucket_step(s, e),
                step == |s: ParserView, t: TripleView| axiom_step(s, t),
                self.deep_view() == ball.take(bit.index() as int).fold_left(st1, bstep),
        {
            let ghost i = bit.index() as int;
            let ghost s0 = self.deep_view();
            proof {
                assert(ball.take(i + 1).drop_last() =~= ball.take(i));
                assert(ball.take(i + 1).last() == e.deep_view());
            }
            let inner = e.1;
            let ghost tall = inner.deep_view();
            let ghost titems = inner@;
            proof {
                assert(tall.take(0) =~= Seq::<TripleView>::empty());
            }
            for t in tit: inner
                invariant
                    tit.seq() == titems,
                    tall.len() == titems.len(),
                    forall|j: int| 0 <= j < titems.len() ==> tall[j] == titems[j].deep_view(),
                    step == |s: ParserView, t: TripleView| axiom_step(s, t),
                    self.deep_view() == tall.take(tit.index() as int).fold_left(s0, step),
            {
                let ghost k = tit.index() as int;
                proof {
                    assert(tall.take(k + 1).drop_last() =~= tall.take(k));
                    assert(tall.take(k + 1).last() == t.deep_view());
                }
                self.recognise_triple(t);
            }
            proof {
                assert(tall.take(tall.len() as int) =~= tall);
            }
        }
        proof {
            assert(ball.take(ball.len() as int) =~= ball);
        }
    }
}

} // verus!
