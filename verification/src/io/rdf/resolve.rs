//! Resolving terms to the values they stand for.
//!
//! A term stands for an entity by its IRI, or for an expression that was
//! rebuilt for a blank node and waits in one of the tables. An expression has
//! one parent: resolving a blank node takes its expression out of the table.

use crate::io::rdf::table::{lookup, take, without};
use crate::io::rdf::term::{LiteralKind, LiteralKindView, Term, TermView};
use crate::model::entity::{
    iri_copy, vec_copy, AnnotationProperty, Build, Class, DataProperty, Datatype, IRI,
    NamedIndividual, ObjectProperty,
};
use crate::model::expression::{
    ClassExpression, ClassExpressionView, DataRange, DataRangeView, ObjectPropertyExpression,
    ObjectPropertyExpressionView, PropertyExpression, PropertyExpressionView,
    SubObjectPropertyExpression, SubObjectPropertyExpressionView,
};
use crate::model::literal::{Literal, LiteralView};
use crate::ontology::{
    declaration_kind, find_declaration_kind, AnnotatedAxiomView, NamedEntityKind, Ontology,
};
use crate::text::{parse_u32, same_text, text_number};
use vstd::prelude::*;

verus! {

/// The tables of sequences and of rebuilt expressions, each keyed by the label of
/// a blank node.
#[derive(Debug)]
pub struct Tables {
    /// Lists stitched from `rdf:first` and `rdf:rest`.
    pub bnode_seq: Vec<(String, Vec<Term>)>,
    /// Class expressions.
    pub class_expression: Vec<(String, ClassExpression)>,
    /// Object property expressions.
    pub object_property_expression: Vec<(String, ObjectPropertyExpression)>,
    /// Data ranges.
    pub data_range: Vec<(String, DataRange)>,
}

/// The mathematical value of [`Tables`].
pub struct TablesView {
    pub bnode_seq: Seq<(Seq<char>, Seq<TermView>)>,
    pub class_expression: Seq<(Seq<char>, ClassExpressionView)>,
    pub object_property_expression: Seq<(Seq<char>, ObjectPropertyExpressionView)>,
    pub data_range: Seq<(Seq<char>, DataRangeView)>,
}

impl DeepView for Tables {
    type V = TablesView;

    open spec fn deep_view(&self) -> TablesView {
        TablesView {
            bnode_seq: self.bnode_seq.deep_view(),
            class_expression: self.class_expression.deep_view(),
            object_property_expression: self.object_property_expression.deep_view(),
            data_range: self.data_range.deep_view(),
        }
    }
}

/// The tables with nothing in them.
pub open spec fn empty_tables() -> TablesView {
    TablesView {
        bnode_seq: Seq::empty(),
        class_expression: Seq::empty(),
        object_property_expression: Seq::empty(),
        data_range: Seq::empty(),
    }
}

/// The IRI of the datatype of plain strings.
pub open spec fn xsd_string() -> Seq<char> {
    "http://www.w3.org/2001/XMLSchema#string"@
}

/// The IRI that a term is, if it is one.
pub open spec fn iri_of(t: TermView) -> Option<Seq<char>> {
    match t {
        TermView::Iri(i) => Some(i),
        _ => None,
    }
}

/// The number that a typed literal denotes.
pub open spec fn number_of(t: TermView) -> Option<u32> {
    match t {
        TermView::Literal(val, LiteralKindView::Datatype(_)) => text_number(val),
        _ => None,
    }
}

/// The literal that a term is, if it is one. A literal typed as a plain string
/// is a simple literal.
pub open spec fn literal_of(t: TermView) -> Option<LiteralView> {
    match t {
        TermView::Literal(ob, LiteralKindView::Lang(lang)) => Some(
            LiteralView::Language { literal: ob, lang },
        ),
        TermView::Literal(ob, LiteralKindView::Datatype(iri)) => if iri == xsd_string() {
            Some(LiteralView::Simple { literal: ob })
        } else {
            Some(LiteralView::Datatype { literal: ob, datatype_iri: iri })
        },
        _ => None,
    }
}

/// The individuals that a list of terms names: all of them, or nothing.
pub open spec fn individuals_of(terms: Seq<TermView>) -> Option<Seq<Seq<char>>>
    decreases terms.len(),
{
    if terms.len() == 0 {
        Some(Seq::empty())
    } else {
        match (individuals_of(terms.drop_last()), iri_of(terms.last())) {
            (Some(front), Some(last)) => Some(front.push(last)),
            _ => None,
        }
    }
}

/// The literals that a list of terms holds: all of them, or nothing.
pub open spec fn literals_of(terms: Seq<TermView>) -> Option<Seq<LiteralView>>
    decreases terms.len(),
{
    if terms.len() == 0 {
        Some(Seq::empty())
    } else {
        match (literals_of(terms.drop_last()), literal_of(terms.last())) {
            (Some(front), Some(last)) => Some(front.push(last)),
            _ => None,
        }
    }
}

/// The class expression that a term stands for, and the tables after it was
/// taken: a named class for an IRI, the expression rebuilt for a blank node.
pub open spec fn resolve_ce(tb: TablesView, t: TermView) -> (
    Option<ClassExpressionView>,
    TablesView,
) {
    match t {
        TermView::Iri(cl) => (Some(ClassExpressionView::Class(cl)), tb),
        TermView::BNode(id) => (
            lookup(tb.class_expression, id),
            TablesView { class_expression: without(tb.class_expression, id), ..tb },
        ),
        _ => (None, tb),
    }
}

/// The data range that a term stands for, and the tables after it was taken: a
/// named datatype for an IRI, the data range rebuilt for a blank node.
pub open spec fn resolve_dr(tb: TablesView, t: TermView) -> (Option<DataRangeView>, TablesView) {
    match t {
        TermView::Iri(dt) => (Some(DataRangeView::Datatype(dt)), tb),
        TermView::BNode(id) => (
            lookup(tb.data_range, id),
            TablesView { data_range: without(tb.data_range, id), ..tb },
        ),
        _ => (None, tb),
    }
}

/// The property that a term stands for, and the tables after it was taken: for
/// an IRI what its last declaration makes it, for a blank node the object
/// property expression rebuilt for it.
pub open spec fn resolve_property(o: Seq<AnnotatedAxiomView>, tb: TablesView, t: TermView) -> (
    Option<PropertyExpressionView>,
    TablesView,
) {
    match t {
        TermView::Iri(iri) => (
            match declaration_kind(o, iri) {
                Some(NamedEntityKind::AnnotationProperty) => Some(
                    PropertyExpressionView::AnnotationProperty(iri),
                ),
                Some(NamedEntityKind::DataProperty) => Some(
                    PropertyExpressionView::DataProperty(iri),
                ),
                Some(NamedEntityKind::ObjectProperty) => Some(
                    PropertyExpressionView::ObjectPropertyExpression(
                        ObjectPropertyExpressionView::ObjectProperty(iri),
                    ),
                ),
                _ => None,
            },
            tb,
        ),
        TermView::BNode(id) => (
            match lookup(tb.object_property_expression, id) {
                Some(ope) => Some(PropertyExpressionView::ObjectPropertyExpression(ope)),
                None => None,
            },
            TablesView {
                object_property_expression: without(tb.object_property_expression, id),
                ..tb
            },
        ),
        _ => (None, tb),
    }
}

/// The object property expression that a term stands for.
pub open spec fn resolve_ope(o: Seq<AnnotatedAxiomView>, tb: TablesView, t: TermView) -> (
    Option<ObjectPropertyExpressionView>,
    TablesView,
) {
    let (pe, tb1) = resolve_property(o, tb, t);
    (
        match pe {
            Some(PropertyExpressionView::ObjectPropertyExpression(ope)) => Some(ope),
            _ => None,
        },
        tb1,
    )
}

/// The annotation property that a term stands for.
pub open spec fn resolve_ap(o: Seq<AnnotatedAxiomView>, tb: TablesView, t: TermView) -> (
    Option<Seq<char>>,
    TablesView,
) {
    let (pe, tb1) = resolve_property(o, tb, t);
    (
        match pe {
            Some(PropertyExpressionView::AnnotationProperty(ap)) => Some(ap),
            _ => None,
        },
        tb1,
    )
}

/// The data property that a term stands for.
pub open spec fn resolve_dp(o: Seq<AnnotatedAxiomView>, tb: TablesView, t: TermView) -> (
    Option<Seq<char>>,
    TablesView,
) {
    let (pe, tb1) = resolve_property(o, tb, t);
    (
        match pe {
            Some(PropertyExpressionView::DataProperty(dp)) => Some(dp),
            _ => None,
        },
        tb1,
    )
}

/// The class expressions that a list of terms stands for: every term is
/// resolved in turn, and the result is all of them or nothing.
pub open spec fn resolve_ce_all(tb: TablesView, terms: Seq<TermView>) -> (
    Option<Seq<ClassExpressionView>>,
    TablesView,
)
    decreases terms.len(),
{
    if terms.len() == 0 {
        (Some(Seq::empty()), tb)
    } else {
        let (front, tb1) = resolve_ce_all(tb, terms.drop_last());
        let (last, tb2) = resolve_ce(tb1, terms.last());
        (
            match (front, last) {
                (Some(f), Some(l)) => Some(f.push(l)),
                _ => None,
            },
            tb2,
        )
    }
}

/// The data ranges that a list of terms stands for: all of them, or nothing.
pub open spec fn resolve_dr_all(tb: TablesView, terms: Seq<TermView>) -> (
    Option<Seq<DataRangeView>>,
    TablesView,
)
    decreases terms.len(),
{
    if terms.len() == 0 {
        (Some(Seq::empty()), tb)
    } else {
        let (front, tb1) = resolve_dr_all(tb, terms.drop_last());
        let (last, tb2) = resolve_dr(tb1, terms.last());
        (
            match (front, last) {
                (Some(f), Some(l)) => Some(f.push(l)),
                _ => None,
            },
            tb2,
        )
    }
}

/// The object property expressions that a list of terms stands for: all of
/// them, or nothing.
pub open spec fn resolve_ope_all(
    o: Seq<AnnotatedAxiomView>,
    tb: TablesView,
    terms: Seq<TermView>,
) -> (Option<Seq<ObjectPropertyExpressionView>>, TablesView)
    decreases terms.len(),
{
    if terms.len() == 0 {
        (Some(Seq::empty()), tb)
    } else {
        let (front, tb1) = resolve_ope_all(o, tb, terms.drop_last());
        let (last, tb2) = resolve_ope(o, tb1, terms.last());
        (
            match (front, last) {
                (Some(f), Some(l)) => Some(f.push(l)),
                _ => None,
            },
            tb2,
        )
    }
}

/// The list that the blank node `id` heads, taken out of the tables.
pub open spec fn take_seq(tb: TablesView, id: Seq<char>) -> (Option<Seq<TermView>>, TablesView) {
    (lookup(tb.bnode_seq, id), TablesView { bnode_seq: without(tb.bnode_seq, id), ..tb })
}

/// The class expressions of the list that the blank node `id` heads.
pub open spec fn resolve_ce_seq(tb: TablesView, id: Seq<char>) -> (
    Option<Seq<ClassExpressionView>>,
    TablesView,
) {
    match take_seq(tb, id) {
        (Some(terms), tb1) => resolve_ce_all(tb1, terms),
        (None, tb1) => (None, tb1),
    }
}

/// The data ranges of the list that the blank node `id` heads.
pub open spec fn resolve_dr_seq(tb: TablesView, id: Seq<char>) -> (
    Option<Seq<DataRangeView>>,
    TablesView,
) {
    match take_seq(tb, id) {
        (Some(terms), tb1) => resolve_dr_all(tb1, terms),
        (None, tb1) => (None, tb1),
    }
}

/// The object property expressions of the list that the blank node `id` heads.
pub open spec fn resolve_ope_seq(o: Seq<AnnotatedAxiomView>, tb: TablesView, id: Seq<char>) -> (
    Option<Seq<ObjectPropertyExpressionView>>,
    TablesView,
) {
    match take_seq(tb, id) {
        (Some(terms), tb1) => resolve_ope_all(o, tb1, terms),
        (None, tb1) => (None, tb1),
    }
}

/// The individuals of the list that the blank node `id` heads.
pub open spec fn resolve_ni_seq(tb: TablesView, id: Seq<char>) -> (
    Option<Seq<Seq<char>>>,
    TablesView,
) {
    match take_seq(tb, id) {
        (Some(terms), tb1) => (individuals_of(terms), tb1),
        (None, tb1) => (None, tb1),
    }
}

/// The literals of the list that the blank node `id` heads.
pub open spec fn resolve_literal_seq(tb: TablesView, id: Seq<char>) -> (
    Option<Seq<LiteralView>>,
    TablesView,
) {
    match take_seq(tb, id) {
        (Some(terms), tb1) => (literals_of(terms), tb1),
        (None, tb1) => (None, tb1),
    }
}

/// The IRI that a term is, if it is one.
pub fn to_iri(t: &Term) -> (r: Option<IRI>)
    ensures
        r.deep_view() == iri_of(t.deep_view()),
{
    match t {
        Term::Iri(iri) => Some(iri_copy(iri)),
        _ => None,
    }
}

/// The number that a typed literal denotes.
pub fn to_u32(t: &Term) -> (r: Option<u32>)
    ensures
        r == number_of(t.deep_view()),
{
    match t {
        Term::Literal(val, LiteralKind::Datatype(_)) => parse_u32(val.as_str()),
        _ => None,
    }
}

/// The literal that a term is, if it is one.
pub fn to_literal(b: &Build, t: &Term) -> (r: Option<Literal>)
    ensures
        r.deep_view() == literal_of(t.deep_view()),
{
    match t {
        Term::Literal(ob, LiteralKind::Lang(lang)) => Some(
            Literal::Language { literal: ob.clone(), lang: lang.clone() },
        ),
        Term::Literal(ob, LiteralKind::Datatype(iri)) => {
            if same_text(iri.as_str(), "http://www.w3.org/2001/XMLSchema#string") {
                Some(Literal::Simple { literal: ob.clone() })
            } else {
                Some(Literal::Datatype { literal: ob.clone(), datatype_iri: b.iri(iri.as_str()) })
            }
        },
        _ => None,
    }
}

/// The individuals that a list of terms names: all of them, or nothing.
pub fn to_individuals(terms: &Vec<Term>) -> (r: Option<Vec<NamedIndividual>>)
    ensures
        r.deep_view() == individuals_of(terms.deep_view()),
{
    let mut out: Vec<NamedIndividual> = Vec::new();
    let mut i: usize = 0;
    proof {
        assert(terms.deep_view().take(0) =~= Seq::<TermView>::empty());
        assert(out.deep_view() =~= Seq::<Seq<char>>::empty());
    }
    while i < terms.len()
        invariant
            i <= terms.len(),
            individuals_of(terms.deep_view().take(i as int)) == Some(out.deep_view()),
        decreases terms.len() - i,
    {
        let ghost all = terms.deep_view();
        let ghost got = out.deep_view();
        proof {
            assert(all.take(i as int + 1).drop_last() =~= all.take(i as int));
            assert(all.take(i as int + 1).last() == terms@[i as int].deep_view());
        }
        match to_iri(&terms[i]) {
            Some(iri) => {
                out.push(NamedIndividual(iri));
                assert(out.deep_view() =~= got.push(iri_of(all[i as int])->0));
            },
            None => {
                proof {
                    lemma_individuals_prefix(all, i as int + 1);
                }
                return None;
            },
        }
        i += 1;
    }
    proof {
        assert(terms.deep_view().take(i as int) =~= terms.deep_view());
    }
    Some(out)
}

/// A list names individuals only if each of its prefixes does.
pub proof fn lemma_individuals_prefix(terms: Seq<TermView>, k: int)
    requires
        0 <= k <= terms.len(),
        individuals_of(terms.take(k)) is None,
    ensures
        individuals_of(terms) is None,
    decreases terms.len(),
{
    if k == terms.len() {
        assert(terms.take(k) =~= terms);
    } else {
        assert(terms.drop_last().take(k) =~= terms.take(k));
        lemma_individuals_prefix(terms.drop_last(), k);
    }
}

/// A list holds literals only if each of its prefixes does.
pub proof fn lemma_literals_prefix(terms: Seq<TermView>, k: int)
    requires
        0 <= k <= terms.len(),
        literals_of(terms.take(k)) is None,
    ensures
        literals_of(terms) is None,
    decreases terms.len(),
{
    if k == terms.len() {
        assert(terms.take(k) =~= terms);
    } else {
        assert(terms.drop_last().take(k) =~= terms.take(k));
        lemma_literals_prefix(terms.drop_last(), k);
    }
}

/// The literals that a list of terms holds: all of them, or nothing.
pub fn to_literals(b: &Build, terms: &Vec<Term>) -> (r: Option<Vec<Literal>>)
    ensures
        r.deep_view() == literals_of(terms.deep_view()),
{
    let mut out: Vec<Literal> = Vec::new();
    let mut i: usize = 0;
    proof {
        assert(terms.deep_view().take(0) =~= Seq::<TermView>::empty());
        assert(out.deep_view() =~= Seq::<LiteralView>::empty());
    }
    while i < terms.len()
        invariant
            i <= terms.len(),
            literals_of(terms.deep_view().take(i as int)) == Some(out.deep_view()),
        decreases terms.len() - i,
    {
        let ghost all = terms.deep_view();
        let ghost got = out.deep_view();
        proof {
            assert(all.take(i as int + 1).drop_last() =~= all.take(i as int));
            assert(all.take(i as int + 1).last() == terms@[i as int].deep_view());
        }
        match to_literal(b, &terms[i]) {
            Some(l) => {
                out.push(l);
                assert(out.deep_view() =~= got.push(literal_of(all[i as int])->0));
            },
            None => {
                proof {
                    lemma_literals_prefix(all, i as int + 1);
                }
                return None;
            },
        }
        i += 1;
    }
    proof {
        assert(terms.deep_view().take(i as int) =~= terms.deep_view());
    }
    Some(out)
}

/// A copy of a table.
pub fn copy_table<V: DeepView + Clone>(m: &Vec<(String, V)>) -> (r: Vec<(String, V)>)
    requires
        forall|x: V, y: V| #[trigger]
            call_ensures(V::clone, (&x,), y) ==> x.deep_view() == y.deep_view(),
    ensures
        r.deep_view() == m.deep_view(),
{
    let mut r: Vec<(String, V)> = Vec::new();
    let mut i: usize = 0;
    while i < m.len()
        invariant
            i <= m.len(),
            r.len() == i,
            forall|x: V, y: V| #[trigger]
                call_ensures(V::clone, (&x,), y) ==> x.deep_view() == y.deep_view(),
            forall|j: int| 0 <= j < i ==> r@[j].deep_view() == m@[j].deep_view(),
        decreases m.len() - i,
    {
        r.push((m[i].0.clone(), m[i].1.clone()));
        i += 1;
    }
    assert(r.deep_view() =~= m.deep_view());
    r
}

/// A copy of a table of sequences.
pub fn copy_sequences(m: &Vec<(String, Vec<Term>)>) -> (r: Vec<(String, Vec<Term>)>)
    ensures
        r.deep_view() == m.deep_view(),
{
    let mut r: Vec<(String, Vec<Term>)> = Vec::new();
    let mut i: usize = 0;
    while i < m.len()
        invariant
            i <= m.len(),
            r.len() == i,
            forall|j: int| 0 <= j < i ==> r@[j].deep_view() == m@[j].deep_view(),
        decreases m.len() - i,
    {
        r.push((m[i].0.clone(), vec_copy(&m[i].1)));
        i += 1;
    }
    assert(r.deep_view() =~= m.deep_view());
    r
}

impl Tables {
    /// A copy of the tables as they are now.
    pub fn snapshot(&self) -> (r: Tables)
        ensures
            r.deep_view() == self.deep_view(),
    {
        Tables {
            bnode_seq: copy_sequences(&self.bnode_seq),
            class_expression: copy_table(&self.class_expression),
            object_property_expression: copy_table(&self.object_property_expression),
            data_range: copy_table(&self.data_range),
        }
    }

    /// Tables with nothing in them.
    pub fn new() -> (r: Tables)
        ensures
            r.deep_view() == empty_tables(),
    {
        let r = Tables {
            bnode_seq: Vec::new(),
            class_expression: Vec::new(),
            object_property_expression: Vec::new(),
            data_range: Vec::new(),
        };
        assert(r.deep_view().bnode_seq =~= Seq::<(Seq<char>, Seq<TermView>)>::empty());
        assert(r.deep_view().class_expression =~= Seq::<(Seq<char>, ClassExpressionView)>::empty());
        assert(r.deep_view().object_property_expression =~= Seq::<
            (Seq<char>, ObjectPropertyExpressionView),
        >::empty());
        assert(r.deep_view().data_range =~= Seq::<(Seq<char>, DataRangeView)>::empty());
        r
    }

    /// The class expression that a term stands for.
    pub fn to_ce(&mut self, t: &Term) -> (r: Option<ClassExpression>)
        ensures
            (r.deep_view(), final(self).deep_view()) == resolve_ce(
                old(self).deep_view(),
                t.deep_view(),
            ),
    {
        match t {
            Term::Iri(cl) => Some(ClassExpression::Class(Class(iri_copy(cl)))),
            Term::BNode(id) => take(&mut self.class_expression, id.as_str()),
            _ => None,
        }
    }

    /// The data range that a term stands for.
    pub fn to_dr(&mut self, t: &Term) -> (r: Option<DataRange>)
        ensures
            (r.deep_view(), final(self).deep_view()) == resolve_dr(
                old(self).deep_view(),
                t.deep_view(),
            ),
    {
        match t {
            Term::Iri(dt) => Some(DataRange::Datatype(Datatype(iri_copy(dt)))),
            Term::BNode(id) => take(&mut self.data_range, id.as_str()),
            _ => None,
        }
    }

    /// The property that a term stands for.
    pub fn find_property_kind(&mut self, o: &Ontology, term: &Term) -> (r: Option<
        PropertyExpression,
    >)
        ensures
            (r.deep_view(), final(self).deep_view()) == resolve_property(
                o.deep_view().axioms,
                old(self).deep_view(),
                term.deep_view(),
            ),
    {
        match term {
            Term::Iri(iri) => match find_declaration_kind(o, iri) {
                Some(NamedEntityKind::AnnotationProperty) => Some(
                    PropertyExpression::AnnotationProperty(AnnotationProperty(iri_copy(iri))),
                ),
                Some(NamedEntityKind::DataProperty) => Some(
                    PropertyExpression::DataProperty(DataProperty(iri_copy(iri))),
                ),
                Some(NamedEntityKind::ObjectProperty) => Some(
                    PropertyExpression::ObjectPropertyExpression(
                        ObjectPropertyExpression::ObjectProperty(ObjectProperty(iri_copy(iri))),
                    ),
                ),
                _ => None,
            },
            Term::BNode(id) => match take(&mut self.object_property_expression, id.as_str()) {
                Some(ope) => Some(PropertyExpression::ObjectPropertyExpression(ope)),
                None => None,
            },
            _ => None,
        }
    }

    /// The object property expression that a term stands for.
    pub fn to_ope(&mut self, o: &Ontology, t: &Term) -> (r: Option<ObjectPropertyExpression>)
        ensures
            (r.deep_view(), final(self).deep_view()) == resolve_ope(
                o.deep_view().axioms,
                old(self).deep_view(),
                t.deep_view(),
            ),
    {
        match self.find_property_kind(o, t) {
            Some(PropertyExpression::ObjectPropertyExpression(ope)) => Some(ope),
            _ => None,
        }
    }

    /// The object property expression that a term stands for, as the
    /// sub-property of an axiom.
    pub fn to_sope(&mut self, o: &Ontology, t: &Term) -> (r: Option<SubObjectPropertyExpression>)
        ensures
            final(self).deep_view() == resolve_ope(
                o.deep_view().axioms,
                old(self).deep_view(),
                t.deep_view(),
            ).1,
            r.deep_view() == (match resolve_ope(
                o.deep_view().axioms,
                old(self).deep_view(),
                t.deep_view(),
            ).0 {
                Some(ope) => Some(SubObjectPropertyExpressionView::ObjectPropertyExpression(ope)),
                None => None,
            }),
    {
        match self.to_ope(o, t) {
            Some(ope) => Some(SubObjectPropertyExpression::ObjectPropertyExpression(ope)),
            None => None,
        }
    }

    /// The annotation property that a term stands for.
    pub fn to_ap(&mut self, o: &Ontology, t: &Term) -> (r: Option<AnnotationProperty>)
        ensures
            (r.deep_view(), final(self).deep_view()) == resolve_ap(
                o.deep_view().axioms,
                old(self).deep_view(),
                t.deep_view(),
            ),
    {
        match self.find_property_kind(o, t) {
            Some(PropertyExpression::AnnotationProperty(ap)) => Some(ap),
            _ => None,
        }
    }

    /// The data property that a term stands for.
    pub fn to_dp(&mut self, o: &Ontology, t: &Term) -> (r: Option<DataProperty>)
        ensures
            (r.deep_view(), final(self).deep_view()) == resolve_dp(
                o.deep_view().axioms,
                old(self).deep_view(),
                t.deep_view(),
            ),
    {
        match self.find_property_kind(o, t) {
            Some(PropertyExpression::DataProperty(dp)) => Some(dp),
            _ => None,
        }
    }

    /// The class expressions that a list of terms stands for: all or nothing.
    pub fn to_ce_all(&mut self, terms: &Vec<Term>) -> (r: Option<Vec<ClassExpression>>)
        ensures
            (r.deep_view(), final(self).deep_view()) == resolve_ce_all(
                old(self).deep_view(),
                terms.deep_view(),
            ),
    {
        let ghost start = self.deep_view();
        let ghost all = terms.deep_view();
        let mut out: Vec<ClassExpression> = Vec::new();
        let mut ok = true;
        let mut i: usize = 0;
        proof {
            assert(all.take(0) =~= Seq::<TermView>::empty());
            assert(out.deep_view() =~= Seq::<ClassExpressionView>::empty());
        }
        while i < terms.len()
            invariant
                i <= terms.len(),
                all == terms.deep_view(),
                resolve_ce_all(start, all.take(i as int)) == (
                    if ok {
                        Some(out.deep_view())
                    } else {
                        None
                    },
                    self.deep_view(),
                ),
            decreases terms.len() - i,
        {
            let ghost got = out.deep_view();
            proof {
                assert(all.take(i as int + 1).drop_last() =~= all.take(i as int));
                assert(all.take(i as int + 1).last() == terms@[i as int].deep_view());
            }
            match self.to_ce(&terms[i]) {
                Some(c) => {
                    if ok {
                        let ghost cv = c.deep_view();
                        out.push(c);
                        assert(out.deep_view() =~= got.push(cv));
                    }
                },
                None => {
                    ok = false;
                },
            }
            i += 1;
        }
        proof {
            assert(all.take(i as int) =~= all);
        }
        if ok {
            Some(out)
        } else {
            None
        }
    }

    /// The data ranges that a list of terms stands for: all or nothing.
    pub fn to_dr_all(&mut self, terms: &Vec<Term>) -> (r: Option<Vec<DataRange>>)
        ensures
            (r.deep_view(), final(self).deep_view()) == resolve_dr_all(
                old(self).deep_view(),
                terms.deep_view(),
            ),
    {
        let ghost start = self.deep_view();
        let ghost all = terms.deep_view();
        let mut out: Vec<DataRange> = Vec::new();
        let mut ok = true;
        let mut i: usize = 0;
        proof {
            assert(all.take(0) =~= Seq::<TermView>::empty());
            assert(out.deep_view() =~= Seq::<DataRangeView>::empty());
        }
        while i < terms.len()
            invariant
                i <= terms.len(),
                all == terms.deep_view(),
                resolve_dr_all(start, all.take(i as int)) == (
                    if ok {
                        Some(out.deep_view())
                    } else {
                        None
                    },
                    self.deep_view(),
                ),
            decreases terms.len() - i,
        {
            let ghost got = out.deep_view();
            proof {
                assert(all.take(i as int + 1).drop_last() =~= all.take(i as int));
                assert(all.take(i as int + 1).last() == terms@[i as int].deep_view());
            }
            match self.to_dr(&terms[i]) {
                Some(c) => {
                    if ok {
                        let ghost cv = c.deep_view();
                        out.push(c);
                        assert(out.deep_view() =~= got.push(cv));
                    }
                },
                None => {
                    ok = false;
                },
            }
            i += 1;
        }
        proof {
            assert(all.take(i as int) =~= all);
        }
        if ok {
            Some(out)
        } else {
            None
        }
    }

    /// The object property expressions that a list of terms stands for: all or
    /// nothing.
    pub fn to_ope_all(&mut self, o: &Ontology, terms: &Vec<Term>) -> (r: Option<
        Vec<ObjectPropertyExpression>,
    >)
        ensures
            (r.deep_view(), final(self).deep_view()) == resolve_ope_all(
                o.deep_view().axioms,
                old(self).deep_view(),
                terms.deep_view(),
            ),
    {
        let ghost start = self.deep_view();
        let ghost all = terms.deep_view();
        let mut out: Vec<ObjectPropertyExpression> = Vec::new();
        let mut ok = true;
        let mut i: usize = 0;
        proof {
            assert(all.take(0) =~= Seq::<TermView>::empty());
            assert(out.deep_view() =~= Seq::<ObjectPropertyExpressionView>::empty());
        }
        while i < terms.len()
            invariant
                i <= terms.len(),
                all == terms.deep_view(),
                resolve_ope_all(o.deep_view().axioms, start, all.take(i as int)) == (
                    if ok {
                        Some(out.deep_view())
                    } else {
                        None
                    },
                    self.deep_view(),
                ),
            decreases terms.len() - i,
        {
            let ghost got = out.deep_view();
            proof {
                assert(all.take(i as int + 1).drop_last() =~= all.take(i as int));
                assert(all.take(i as int + 1).last() == terms@[i as int].deep_view());
            }
            match self.to_ope(o, &terms[i]) {
                Some(c) => {
                    if ok {
                        let ghost cv = c.deep_view();
                        out.push(c);
                        assert(out.deep_view() =~= got.push(cv));
                    }
                },
                None => {
                    ok = false;
                },
            }
            i += 1;
        }
        proof {
            assert(all.take(i as int) =~= all);
        }
        if ok {
            Some(out)
        } else {
            None
        }
    }

    /// Takes the list that the blank node `id` heads out of the tables.
    pub fn take_list(&mut self, id: &str) -> (r: Option<Vec<Term>>)
        ensures
            (r.deep_view(), final(self).deep_view()) == take_seq(old(self).deep_view(), id@),
    {
        take(&mut self.bnode_seq, id)
    }

    /// The class expressions of the list that the blank node `id` heads.
    pub fn to_ce_seq(&mut self, id: &str) -> (r: Option<Vec<ClassExpression>>)
        ensures
            (r.deep_view(), final(self).deep_view()) == resolve_ce_seq(
                old(self).deep_view(),
                id@,
            ),
    {
        match self.take_list(id) {
            Some(terms) => self.to_ce_all(&terms),
            None => None,
        }
    }

    /// The data ranges of the list that the blank node `id` heads.
    pub fn to_dr_seq(&mut self, id: &str) -> (r: Option<Vec<DataRange>>)
        ensures
            (r.deep_view(), final(self).deep_view()) == resolve_dr_seq(
                old(self).deep_view(),
                id@,
            ),
    {
        match self.take_list(id) {
            Some(terms) => self.to_dr_all(&terms),
            None => None,
        }
    }

    /// The object property expressions of the list that the blank node `id` heads.
    pub fn to_ope_seq(&mut self, o: &Ontology, id: &str) -> (r: Option<
        Vec<ObjectPropertyExpression>,
    >)
        ensures
            (r.deep_view(), final(self).deep_view()) == resolve_ope_seq(
                o.deep_view().axioms,
                old(self).deep_view(),
                id@,
            ),
    {
        match self.take_list(id) {
            Some(terms) => self.to_ope_all(o, &terms),
            None => None,
        }
    }

    /// The individuals of the list that the blank node `id` heads.
    pub fn to_ni_seq(&mut self, id: &str) -> (r: Option<Vec<NamedIndividual>>)
        ensures
            (r.deep_view(), final(self).deep_view()) == resolve_ni_seq(
                old(self).deep_view(),
                id@,
            ),
    {
        match self.take_list(id) {
            Some(terms) => to_individuals(&terms),
            None => None,
        }
    }

    /// The literals of the list that the blank node `id` heads.
    pub fn to_literal_seq(&mut self, b: &Build, id: &str) -> (r: Option<Vec<Literal>>)
        ensures
            (r.deep_view(), final(self).deep_view()) == resolve_literal_seq(
                old(self).deep_view(),
                id@,
            ),
    {
        match self.take_list(id) {
            Some(terms) => to_literals(b, &terms),
            None => None,
        }
    }
}

} // verus!
