//! Class expressions among the buckets.
//!
//! A class expression is encoded by a blank node whose triples give a
//! constructor, its arguments and the type of the node. The triples of a bucket
//! are sorted, so each encoding has one shape: a fixed number of triples with
//! fixed predicates at fixed places.

use crate::io::rdf::parser::{OntologyParser, ParserView};
use crate::io::rdf::ranges::{bnode_label, with_tables};
use crate::io::rdf::resolve::{
    iri_of, literal_of, number_of, resolve_ce, resolve_ce_seq, resolve_dr, resolve_ni_seq,
    resolve_property, to_iri, to_literal, to_u32, TablesView,
};
use crate::io::rdf::sequences::{is_owl, is_rdf, keep, no_buckets};
use crate::io::rdf::table::{put, with_entry};
use crate::io::rdf::term::{Term, TermView, Triple, TripleView};
use crate::model::entity::{Class, DataProperty, NamedIndividual, ObjectProperty};
use crate::model::expression::{
    lemma_class_expression_lists, ClassExpression, ClassExpressionView, DataRange, DataRangeView,
    ObjectPropertyExpression, ObjectPropertyExpressionView, PropertyExpression,
    PropertyExpressionView,
};
use crate::ontology::AnnotatedAxiomView;
use crate::vocab::{OWL, RDF};
use vstd::prelude::*;

verus! {

/// The three bounds that a cardinality restriction can state.
#[derive(Clone, Copy, Debug, PartialEq, Eq, Structural)]
pub enum Bound {
    Min,
    Max,
    Exact,
}

/// Whether the triple types its subject as a restriction.
pub open spec fn is_restriction(t: TripleView) -> bool {
    t.predicate == TermView::RDF(RDF::Type) && t.object == TermView::OWL(OWL::Restriction)
}

/// Whether the triple types its subject as a class.
pub open spec fn is_class_type(t: TripleView) -> bool {
    t.predicate == TermView::RDF(RDF::Type) && t.object == TermView::OWL(OWL::Class)
}

/// Whether the predicate of the triple is the given token of OWL.
pub open spec fn states(t: TripleView, v: OWL) -> bool {
    t.predicate == TermView::OWL(v)
}

/// An existential restriction on the property `pr` with the filler `x`: over a
/// class expression for an object property, over a data range for a data
/// property.
pub open spec fn some_values(
    o: Seq<AnnotatedAxiomView>,
    tb: TablesView,
    pr: TermView,
    x: TermView,
) -> (Option<ClassExpressionView>, TablesView) {
    let (pe, tb1) = resolve_property(o, tb, pr);
    match pe {
        Some(PropertyExpressionView::ObjectPropertyExpression(ope)) => {
            let (c, tb2) = resolve_ce(tb1, x);
            (
                match c {
                    Some(c) => Some(
                        ClassExpressionView::ObjectSomeValuesFrom { ope, bce: Box::new(c) },
                    ),
                    None => None,
                },
                tb2,
            )
        },
        Some(PropertyExpressionView::DataProperty(dp)) => {
            let (d, tb2) = resolve_dr(tb1, x);
            (
                match d {
                    Some(dr) => Some(ClassExpressionView::DataSomeValuesFrom { dp, dr }),
                    None => None,
                },
                tb2,
            )
        },
        _ => (None, tb1),
    }
}

/// A universal restriction on the property `pr` with the filler `x`.
pub open spec fn all_values(
    o: Seq<AnnotatedAxiomView>,
    tb: TablesView,
    pr: TermView,
    x: TermView,
) -> (Option<ClassExpressionView>, TablesView) {
    let (pe, tb1) = resolve_property(o, tb, pr);
    match pe {
        Some(PropertyExpressionView::ObjectPropertyExpression(ope)) => {
            let (c, tb2) = resolve_ce(tb1, x);
            (
                match c {
                    Some(c) => Some(
                        ClassExpressionView::ObjectAllValuesFrom { ope, bce: Box::new(c) },
                    ),
                    None => None,
                },
                tb2,
            )
        },
        Some(PropertyExpressionView::DataProperty(dp)) => {
            let (d, tb2) = resolve_dr(tb1, x);
            (
                match d {
                    Some(dr) => Some(ClassExpressionView::DataAllValuesFrom { dp, dr }),
                    None => None,
                },
                tb2,
            )
        },
        _ => (None, tb1),
    }
}

/// A restriction of the property `pr` to the value `val`: an individual for an
/// object property, a literal for a data property.
pub open spec fn has_value(
    o: Seq<AnnotatedAxiomView>,
    tb: TablesView,
    pr: TermView,
    val: TermView,
) -> (Option<ClassExpressionView>, TablesView) {
    let (pe, tb1) = resolve_property(o, tb, pr);
    (
        match pe {
            Some(PropertyExpressionView::ObjectPropertyExpression(ope)) => match iri_of(val) {
                Some(i) => Some(ClassExpressionView::ObjectHasValue { ope, i }),
                None => None,
            },
            Some(PropertyExpressionView::DataProperty(dp)) => match literal_of(val) {
                Some(l) => Some(ClassExpressionView::DataHasValue { dp, l }),
                None => None,
            },
            _ => None,
        },
        tb1,
    )
}

/// A cardinality restriction on an object property.
pub open spec fn object_bound(
    bound: Bound,
    n: u32,
    ope: ObjectPropertyExpressionView,
    c: ClassExpressionView,
) -> ClassExpressionView {
    match bound {
        Bound::Min => ClassExpressionView::ObjectMinCardinality { n, ope, bce: Box::new(c) },
        Bound::Max => ClassExpressionView::ObjectMaxCardinality { n, ope, bce: Box::new(c) },
        Bound::Exact => ClassExpressionView::ObjectExactCardinality { n, ope, bce: Box::new(c) },
    }
}

/// A cardinality restriction on a data property.
pub open spec fn data_bound(
    bound: Bound,
    n: u32,
    dp: Seq<char>,
    dr: DataRangeView,
) -> ClassExpressionView {
    match bound {
        Bound::Min => ClassExpressionView::DataMinCardinality { n, dp, dr },
        Bound::Max => ClassExpressionView::DataMaxCardinality { n, dp, dr },
        Bound::Exact => ClassExpressionView::DataExactCardinality { n, dp, dr },
    }
}

/// A qualified cardinality restriction on the named object property `pr`: the
/// number `n` of values in the class `c`.
pub open spec fn object_cardinality(
    tb: TablesView,
    bound: Bound,
    n: TermView,
    pr: TermView,
    c: TermView,
) -> (Option<ClassExpressionView>, TablesView) {
    match (iri_of(pr), number_of(n)) {
        (Some(p), Some(k)) => {
            let (ce, tb1) = resolve_ce(tb, c);
            (
                match ce {
                    Some(ce) => Some(
                        object_bound(
                            bound,
                            k,
                            ObjectPropertyExpressionView::ObjectProperty(p),
                            ce,
                        ),
                    ),
                    None => None,
                },
                tb1,
            )
        },
        _ => (None, tb),
    }
}

/// A qualified cardinality restriction on the named data property `pr`: the
/// number `n` of values in the data range `d`.
pub open spec fn data_cardinality(
    tb: TablesView,
    bound: Bound,
    n: TermView,
    pr: TermView,
    d: TermView,
) -> (Option<ClassExpressionView>, TablesView) {
    match (iri_of(pr), number_of(n)) {
        (Some(p), Some(k)) => {
            let (dr, tb1) = resolve_dr(tb, d);
            (
                match dr {
                    Some(dr) => Some(data_bound(bound, k, p, dr)),
                    None => None,
                },
                tb1,
            )
        },
        _ => (None, tb),
    }
}

/// An upper bound on the number of values of the named object property `pr`,
/// whatever their class.
pub open spec fn unqualified_max(n: TermView, pr: TermView) -> Option<ClassExpressionView> {
    match (iri_of(pr), number_of(n)) {
        (Some(p), Some(k)) => Some(
            ClassExpressionView::ObjectMaxCardinality {
                n: k,
                ope: ObjectPropertyExpressionView::ObjectProperty(p),
                bce: Box::new(ClassExpressionView::Class(OWL::Thing.iri_text())),
            },
        ),
        _ => None,
    }
}

/// The restriction that a bucket of three triples encodes.
pub open spec fn build_short_restriction(
    o: Seq<AnnotatedAxiomView>,
    tb: TablesView,
    v: Seq<TripleView>,
) -> (Option<ClassExpressionView>, TablesView)
    recommends
        v.len() == 3,
{
    if states(v[0], OWL::OnProperty) && states(v[1], OWL::SomeValuesFrom) {
        some_values(o, tb, v[0].object, v[1].object)
    } else if states(v[0], OWL::HasValue) && states(v[1], OWL::OnProperty) {
        has_value(o, tb, v[1].object, v[0].object)
    } else if states(v[0], OWL::AllValuesFrom) && states(v[1], OWL::OnProperty) {
        all_values(o, tb, v[1].object, v[0].object)
    } else if states(v[0], OWL::MaxCardinality) && states(v[1], OWL::OnProperty) {
        (unqualified_max(v[0].object, v[1].object), tb)
    } else {
        (None, tb)
    }
}

/// The qualified cardinality restriction that a bucket of four triples encodes.
pub open spec fn build_long_restriction(tb: TablesView, v: Seq<TripleView>) -> (
    Option<ClassExpressionView>,
    TablesView,
)
    recommends
        v.len() == 4,
{
    if states(v[0], OWL::OnDataRange) && states(v[1], OWL::OnProperty) && states(
        v[2],
        OWL::QualifiedCardinality,
    ) {
        data_cardinality(tb, Bound::Exact, v[2].object, v[1].object, v[0].object)
    } else if states(v[0], OWL::OnClass) && states(v[1], OWL::OnProperty) && states(
        v[2],
        OWL::QualifiedCardinality,
    ) {
        object_cardinality(tb, Bound::Exact, v[2].object, v[1].object, v[0].object)
    } else if states(v[0], OWL::MinQualifiedCardinality) && states(v[1], OWL::OnClass) && states(
        v[2],
        OWL::OnProperty,
    ) {
        object_cardinality(tb, Bound::Min, v[0].object, v[2].object, v[1].object)
    } else if states(v[0], OWL::MaxQualifiedCardinality) && states(v[1], OWL::OnClass) && states(
        v[2],
        OWL::OnProperty,
    ) {
        object_cardinality(tb, Bound::Max, v[0].object, v[2].object, v[1].object)
    } else if states(v[0], OWL::MinQualifiedCardinality) && states(v[1], OWL::OnDataRange)
        && states(v[2], OWL::OnProperty) {
        data_cardinality(tb, Bound::Min, v[0].object, v[2].object, v[1].object)
    } else if states(v[0], OWL::MaxQualifiedCardinality) && states(v[1], OWL::OnDataRange)
        && states(v[2], OWL::OnProperty) {
        data_cardinality(tb, Bound::Max, v[0].object, v[2].object, v[1].object)
    } else {
        (None, tb)
    }
}

/// The boolean combination or enumeration that a bucket of two triples encodes.
pub open spec fn build_boolean(tb: TablesView, v: Seq<TripleView>) -> (
    Option<ClassExpressionView>,
    TablesView,
)
    recommends
        v.len() == 2,
{
    if states(v[0], OWL::ComplementOf) {
        let (c, tb1) = resolve_ce(tb, v[0].object);
        (
            match c {
                Some(c) => Some(ClassExpressionView::ObjectComplementOf(Box::new(c))),
                None => None,
            },
            tb1,
        )
    } else {
        match v[0].object {
            TermView::BNode(id) => {
                if states(v[0], OWL::OneOf) {
                    let (s, tb1) = resolve_ni_seq(tb, id);
                    (
                        match s {
                            Some(s) => Some(ClassExpressionView::ObjectOneOf(s)),
                            None => None,
                        },
                        tb1,
                    )
                } else if states(v[0], OWL::IntersectionOf) {
                    let (s, tb1) = resolve_ce_seq(tb, id);
                    (
                        match s {
                            Some(s) => Some(ClassExpressionView::ObjectIntersectionOf(s)),
                            None => None,
                        },
                        tb1,
                    )
                } else if states(v[0], OWL::UnionOf) {
                    let (s, tb1) = resolve_ce_seq(tb, id);
                    (
                        match s {
                            Some(s) => Some(ClassExpressionView::ObjectUnionOf(s)),
                            None => None,
                        },
                        tb1,
                    )
                } else {
                    (None, tb)
                }
            },
            _ => (None, tb),
        }
    }
}

/// The class expression that a bucket encodes, and the tables after its parts
/// were taken.
pub open spec fn build_ce(o: Seq<AnnotatedAxiomView>, tb: TablesView, v: Seq<TripleView>) -> (
    Option<ClassExpressionView>,
    TablesView,
) {
    if v.len() == 3 && is_restriction(v[2]) {
        build_short_restriction(o, tb, v)
    } else if v.len() == 4 && is_restriction(v[3]) {
        build_long_restriction(tb, v)
    } else if v.len() == 2 && is_class_type(v[1]) {
        build_boolean(tb, v)
    } else {
        (None, tb)
    }
}

/// One bucket of a pass: a bucket that encodes a class expression is replaced by
/// an entry in the table of class expressions, and its parts leave the tables;
/// any other is kept, and the tables stay as they were.
pub open spec fn class_step(acc: (ParserView, bool), e: (Seq<char>, Seq<TripleView>)) -> (
    ParserView,
    bool,
) {
    let (r, tb1) = build_ce(acc.0.o.axioms, acc.0.tables, e.1);
    match r {
        Some(ce) => (
            with_tables(
                acc.0,
                TablesView { class_expression: with_entry(tb1.class_expression, e.0, ce), ..tb1 },
            ),
            true,
        ),
        None => (keep(acc.0, e), acc.1),
    }
}

/// The state after one pass, and whether the pass built a class expression.
pub open spec fn classed_once(st: ParserView) -> (ParserView, bool) {
    st.bnode.fold_left(
        (no_buckets(st), false),
        |acc: (ParserView, bool), e: (Seq<char>, Seq<TripleView>)| class_step(acc, e),
    )
}

/// The state after the class expressions were rebuilt: passes go on while one
/// builds a class expression.
pub open spec fn after_class_expressions(st: ParserView) -> ParserView
    decreases st.bnode.len(),
{
    let (st1, grew) = classed_once(st);
    if grew && st1.bnode.len() < st.bnode.len() {
        after_class_expressions(st1)
    } else {
        st1
    }
}

/// After `k` buckets of a pass at most `k` are left over, and fewer if a class
/// expression was built.
pub proof fn lemma_class_prefix(st: ParserView, k: int)
    requires
        0 <= k <= st.bnode.len(),
    ensures
        ({
            let r = st.bnode.take(k).fold_left(
                (no_buckets(st), false),
                |acc: (ParserView, bool), e: (Seq<char>, Seq<TripleView>)| class_step(acc, e),
            );
            r.0.bnode.len() <= k && (r.1 ==> r.0.bnode.len() < k)
        }),
    decreases k,
{
    if k > 0 {
        lemma_class_prefix(st, k - 1);
        assert(st.bnode.take(k).drop_last() =~= st.bnode.take(k - 1));
    }
}

/// A cardinality restriction on an object property.
pub fn make_object_bound(bound: Bound, n: u32, ope: ObjectPropertyExpression, c: ClassExpression) -> (r:
    ClassExpression)
    ensures
        r.deep_view() == object_bound(bound, n, ope.deep_view(), c.deep_view()),
{
    match bound {
        Bound::Min => ClassExpression::ObjectMinCardinality { n, ope, bce: Box::new(c) },
        Bound::Max => ClassExpression::ObjectMaxCardinality { n, ope, bce: Box::new(c) },
        Bound::Exact => ClassExpression::ObjectExactCardinality { n, ope, bce: Box::new(c) },
    }
}

/// A cardinality restriction on a data property.
pub fn make_data_bound(
    bound: Bound,
    n: u32,
    dp: DataProperty,
    dr: DataRange,
) -> (r: ClassExpression)
    ensures
        r.deep_view() == data_bound(bound, n, dp.deep_view(), dr.deep_view()),
{
    match bound {
        Bound::Min => ClassExpression::DataMinCardinality { n, dp, dr },
        Bound::Max => ClassExpression::DataMaxCardinality { n, dp, dr },
        Bound::Exact => ClassExpression::DataExactCardinality { n, dp, dr },
    }
}

impl<'a> OntologyParser<'a> {
    /// An existential restriction.
    pub fn as_some_values(&mut self, pr: &Term, x: &Term) -> (r: Option<ClassExpression>)
        ensures
            (r.deep_view(), final(self).deep_view().tables) == some_values(
                old(self).deep_view().o.axioms,
                old(self).deep_view().tables,
                pr.deep_view(),
                x.deep_view(),
            ),
            final(self).deep_view() == with_tables(
                old(self).deep_view(),
                final(self).deep_view().tables,
            ),
    {
        match self.tables.find_property_kind(&self.o, pr) {
            Some(PropertyExpression::ObjectPropertyExpression(ope)) => match self.tables.to_ce(x) {
                Some(c) => Some(ClassExpression::ObjectSomeValuesFrom { ope, bce: Box::new(c) }),
                None => None,
            },
            Some(PropertyExpression::DataProperty(dp)) => match self.tables.to_dr(x) {
                Some(dr) => Some(ClassExpression::DataSomeValuesFrom { dp, dr }),
                None => None,
            },
            _ => None,
        }
    }

    /// A universal restriction.
    pub fn as_all_values(&mut self, pr: &Term, x: &Term) -> (r: Option<ClassExpression>)
        ensures
            (r.deep_view(), final(self).deep_view().tables) == all_values(
                old(self).deep_view().o.axioms,
                old(self).deep_view().tables,
                pr.deep_view(),
                x.deep_view(),
            ),
            final(self).deep_view() == with_tables(
                old(self).deep_view(),
                final(self).deep_view().tables,
            ),
    {
        match self.tables.find_property_kind(&self.o, pr) {
            Some(PropertyExpression::ObjectPropertyExpression(ope)) => match self.tables.to_ce(x) {
                Some(c) => Some(ClassExpression::ObjectAllValuesFrom { ope, bce: Box::new(c) }),
                None => None,
            },
            Some(PropertyExpression::DataProperty(dp)) => match self.tables.to_dr(x) {
                Some(dr) => Some(ClassExpression::DataAllValuesFrom { dp, dr }),
                None => None,
            },
            _ => None,
        }
    }

    /// A restriction of a property to a value.
    pub fn as_has_value(&mut self, pr: &Term, val: &Term) -> (r: Option<ClassExpression>)
        ensures
            (r.deep_view(), final(self).deep_view().tables) == has_value(
                old(self).deep_view().o.axioms,
                old(self).deep_view().tables,
                pr.deep_view(),
                val.deep_view(),
            ),
            final(self).deep_view() == with_tables(
                old(self).deep_view(),
                final(self).deep_view().tables,
            ),
    {
        match self.tables.find_property_kind(&self.o, pr) {
            Some(PropertyExpression::ObjectPropertyExpression(ope)) => match to_iri(val) {
                Some(i) => Some(ClassExpression::ObjectHasValue { ope, i: NamedIndividual(i) }),
                None => None,
            },
            Some(PropertyExpression::DataProperty(dp)) => match to_literal(self.b, val) {
                Some(l) => Some(ClassExpression::DataHasValue { dp, l }),
                None => None,
            },
            _ => None,
        }
    }

    /// A qualified cardinality restriction on a named object property.
    pub fn as_object_cardinality(&mut self, bound: Bound, n: &Term, pr: &Term, c: &Term) -> (r:
        Option<ClassExpression>)
        ensures
            (r.deep_view(), final(self).deep_view().tables) == object_cardinality(
                old(self).deep_view().tables,
                bound,
                n.deep_view(),
                pr.deep_view(),
                c.deep_view(),
            ),
            final(self).deep_view() == with_tables(
                old(self).deep_view(),
                final(self).deep_view().tables,
            ),
    {
        match (to_iri(pr), to_u32(n)) {
            (Some(p), Some(k)) => match self.tables.to_ce(c) {
                Some(ce) => Some(
                    make_object_bound(
                        bound,
                        k,
                        ObjectPropertyExpression::ObjectProperty(ObjectProperty(p)),
                        ce,
                    ),
                ),
                None => None,
            },
            _ => None,
        }
    }

    /// A qualified cardinality restriction on a named data property.
    pub fn as_data_cardinality(&mut self, bound: Bound, n: &Term, pr: &Term, d: &Term) -> (r:
        Option<ClassExpression>)
        ensures
            (r.deep_view(), final(self).deep_view().tables) == data_cardinality(
                old(self).deep_view().tables,
                bound,
                n.deep_view(),
                pr.deep_view(),
                d.deep_view(),
            ),
            final(self).deep_view() == with_tables(
                old(self).deep_view(),
                final(self).deep_view().tables,
            ),
    {
        match (to_iri(pr), to_u32(n)) {
            (Some(p), Some(k)) => match self.tables.to_dr(d) {
                Some(dr) => Some(make_data_bound(bound, k, DataProperty(p), dr)),
                None => None,
            },
            _ => None,
        }
    }

    /// An upper bound on the number of values of a named object property.
    pub fn as_unqualified_max(&self, n: &Term, pr: &Term) -> (r: Option<ClassExpression>)
        ensures
            r.deep_view() == unqualified_max(n.deep_view(), pr.deep_view()),
    {
        match (to_iri(pr), to_u32(n)) {
            (Some(p), Some(k)) => {
                let thing = ClassExpression::Class(self.b.class(OWL::Thing.iri_str()));
                assert(thing.deep_view() == ClassExpressionView::Class(OWL::Thing.iri_text()));
                Some(
                    ClassExpression::ObjectMaxCardinality {
                        n: k,
                        ope: ObjectPropertyExpression::ObjectProperty(ObjectProperty(p)),
                        bce: Box::new(thing),
                    },
                )
            },
            _ => None,
        }
    }

    /// The restriction that a bucket of three triples encodes.
    pub fn as_short_restriction(&mut self, v: &Vec<Triple>) -> (r: Option<ClassExpression>)
        requires
            v.len() == 3,
        ensures
            (r.deep_view(), final(self).deep_view().tables) == build_short_restriction(
                old(self).deep_view().o.axioms,
                old(self).deep_view().tables,
                v.deep_view(),
            ),
            final(self).deep_view() == with_tables(
                old(self).deep_view(),
                final(self).deep_view().tables,
            ),
    {
        if is_owl(&v[0].predicate, OWL::OnProperty) && is_owl(&v[1].predicate, OWL::SomeValuesFrom) {
            self.as_some_values(&v[0].object, &v[1].object)
        } else if is_owl(&v[0].predicate, OWL::HasValue) && is_owl(
            &v[1].predicate,
            OWL::OnProperty,
        ) {
            self.as_has_value(&v[1].object, &v[0].object)
        } else if is_owl(&v[0].predicate, OWL::AllValuesFrom) && is_owl(
            &v[1].predicate,
            OWL::OnProperty,
        ) {
            self.as_all_values(&v[1].object, &v[0].object)
        } else if is_owl(&v[0].predicate, OWL::MaxCardinality) && is_owl(
            &v[1].predicate,
            OWL::OnProperty,
        ) {
            self.as_unqualified_max(&v[0].object, &v[1].object)
        } else {
            None
        }
    }

    /// The qualified cardinality restriction that a bucket of four triples encodes.
    pub fn as_long_restriction(&mut self, v: &Vec<Triple>) -> (r: Option<ClassExpression>)
        requires
            v.len() == 4,
        ensures
            (r.deep_view(), final(self).deep_view().tables) == build_long_restriction(
                old(self).deep_view().tables,
                v.deep_view(),
            ),
            final(self).deep_view() == with_tables(
                old(self).deep_view(),
                final(self).deep_view().tables,
            ),
    {
        let p0 = &v[0].predicate;
        let p1 = &v[1].predicate;
        let p2 = &v[2].predicate;
        if is_owl(p0, OWL::OnDataRange) && is_owl(p1, OWL::OnProperty) && is_owl(
            p2,
            OWL::QualifiedCardinality,
        ) {
            self.as_data_cardinality(Bound::Exact, &v[2].object, &v[1].object, &v[0].object)
        } else if is_owl(p0, OWL::OnClass) && is_owl(p1, OWL::OnProperty) && is_owl(
            p2,
            OWL::QualifiedCardinality,
        ) {
            self.as_object_cardinality(Bound::Exact, &v[2].object, &v[1].object, &v[0].object)
        } else if is_owl(p0, OWL::MinQualifiedCardinality) && is_owl(p1, OWL::OnClass) && is_owl(
            p2,
            OWL::OnProperty,
        ) {
            self.as_object_cardinality(Bound::Min, &v[0].object, &v[2].object, &v[1].object)
        } else if is_owl(p0, OWL::MaxQualifiedCardinality) && is_owl(p1, OWL::OnClass) && is_owl(
            p2,
            OWL::OnProperty,
        ) {
            self.as_object_cardinality(Bound::Max, &v[0].object, &v[2].object, &v[1].object)
        } else if is_owl(p0, OWL::MinQualifiedCardinality) && is_owl(p1, OWL::OnDataRange)
            && is_owl(p2, OWL::OnProperty) {
            self.as_data_cardinality(Bound::Min, &v[0].object, &v[2].object, &v[1].object)
        } else if is_owl(p0, OWL::MaxQualifiedCardinality) && is_owl(p1, OWL::OnDataRange)
            && is_owl(p2, OWL::OnProperty) {
            self.as_data_cardinality(Bound::Max, &v[0].object, &v[2].object, &v[1].object)
        } else {
            None
        }
    }

    /// The boolean combination or enumeration that a bucket of two triples encodes.
    pub fn as_boolean(&mut self, v: &Vec<Triple>) -> (r: Option<ClassExpression>)
        requires
            v.len() == 2,
        ensures
            (r.deep_view(), final(self).deep_view().tables) == build_boolean(
                old(self).deep_view().tables,
                v.deep_view(),
            ),
            final(self).deep_view() == with_tables(
                old(self).deep_view(),
                final(self).deep_view().tables,
            ),
    {
        if is_owl(&v[0].predicate, OWL::ComplementOf) {
            match self.tables.to_ce(&v[0].object) {
                Some(c) => Some(ClassExpression::ObjectComplementOf(Box::new(c))),
                None => None,
            }
        } else {
            match bnode_label(&v[0].object) {
                Some(id) => {
                    if is_owl(&v[0].predicate, OWL::OneOf) {
                        match self.tables.to_ni_seq(id.as_str()) {
                            Some(s) => Some(ClassExpression::ObjectOneOf(s)),
                            None => None,
                        }
                    } else if is_owl(&v[0].predicate, OWL::IntersectionOf) {
                        match self.tables.to_ce_seq(id.as_str()) {
                            Some(s) => {
                                proof {
                                    lemma_class_expression_lists(s);
                                }
                                Some(ClassExpression::ObjectIntersectionOf(s))
                            },
                            None => None,
                        }
                    } else if is_owl(&v[0].predicate, OWL::UnionOf) {
                        match self.tables.to_ce_seq(id.as_str()) {
                            Some(s) => {
                                proof {
                                    lemma_class_expression_lists(s);
                                }
                                Some(ClassExpression::ObjectUnionOf(s))
                            },
                            None => None,
                        }
                    } else {
                        None
                    }
                },
                None => None,
            }
        }
    }

    /// The class expression that a bucket encodes.
    pub fn as_class_expression(&mut self, v: &Vec<Triple>) -> (r: Option<ClassExpression>)
        ensures
            (r.deep_view(), final(self).deep_view().tables) == build_ce(
                old(self).deep_view().o.axioms,
                old(self).deep_view().tables,
                v.deep_view(),
            ),
            final(self).deep_view() == with_tables(
                old(self).deep_view(),
                final(self).deep_view().tables,
            ),
    {
        if v.len() == 3 && is_rdf(&v[2].predicate, RDF::Type) && is_owl(
            &v[2].object,
            OWL::Restriction,
        ) {
            self.as_short_restriction(v)
        } else if v.len() == 4 && is_rdf(&v[3].predicate, RDF::Type) && is_owl(
            &v[3].object,
            OWL::Restriction,
        ) {
            self.as_long_restriction(v)
        } else if v.len() == 2 && is_rdf(&v[1].predicate, RDF::Type) && is_owl(
            &v[1].object,
            OWL::Class,
        ) {
            self.as_boolean(v)
        } else {
            None
        }
    }

    /// Rebuilds the class expressions that the buckets encode, innermost first,
    /// until a pass over the buckets builds none.
    pub fn class_expressions(&mut self)
        ensures
            final(self).deep_view() == after_class_expressions(old(self).deep_view()),
        decreases old(self).bnode.len(),
    {
        let ghost st = self.deep_view();
        let mut grew = false;
        let buckets = self.take_buckets();
        let ghost all = buckets.deep_view();
        let ghost items = buckets@;
        let ghost step = |acc: (ParserView, bool), e: (Seq<char>, Seq<TripleView>)|
            class_step(acc, e);
        proof {
            assert(all.take(0) =~= Seq::<(Seq<char>, Seq<TripleView>)>::empty());
        }
        for e in it: buckets
            invariant
                it.seq() == items,
                all.len() == items.len(),
                forall|j: int| 0 <= j < items.len() ==> all[j] == items[j].deep_view(),
                step == |acc: (ParserView, bool), e: (Seq<char>, Seq<TripleView>)|
                    class_step(acc, e),
                (self.deep_view(), grew) == all.take(it.index() as int).fold_left(
                    (no_buckets(st), false),
                    step,
                ),
                self.bnode.len() == self.deep_view().bnode.len(),
        {
            let ghost i = it.index() as int;
            proof {
                assert(all.take(i + 1).drop_last() =~= all.take(i));
                assert(all.take(i + 1).last() == e.deep_view());
            }
            let saved = if 2 <= e.1.len() && e.1.len() <= 4 {
                Some(self.tables.snapshot())
            } else {
                None
            };
            match self.as_class_expression(&e.1) {
                Some(ce) => {
                    put(&mut self.tables.class_expression, e.0, ce);
                    grew = true;
                },
                None => {
                    match saved {
                        Some(tables) => {
                            self.tables = tables;
                        },
                        None => {},
                    }
                    self.keep_bucket(e);
                },
            }
        }
        proof {
            assert(all.take(all.len() as int) =~= all);
            lemma_class_prefix(st, st.bnode.len() as int);
            assert(st.bnode.take(st.bnode.len() as int) =~= st.bnode);
        }
        if grew {
            self.class_expressions()
        }
    }
}

} // verus!
