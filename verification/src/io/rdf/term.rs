//! RDF terms and triples.

use crate::model::entity::{iri_copy, iri_same, IRI};
use crate::search::lemma_first_index;
use crate::text::same_text;
use crate::vocab::{lemma_token_at_rank, lemma_tokens_distinct, OWL, RDF, RDFS};
use vstd::prelude::*;
use vstd::std_specs::cmp::PartialEqSpecImpl;

verus! {

/// What accompanies the lexical form of a literal.
#[derive(Debug, Hash)]
pub enum LiteralKind {
    /// A language tag.
    Lang(String),
    /// The IRI of a datatype.
    Datatype(IRI),
}

/// The mathematical value of [`LiteralKind`].
pub enum LiteralKindView {
    Lang(Seq<char>),
    Datatype(Seq<char>),
}

/// The mathematical value of a value.
pub open spec fn literal_kind_view(x: LiteralKind) -> LiteralKindView
{
    match x {
        LiteralKind::Lang(p_0) => LiteralKindView::Lang(p_0@),
        LiteralKind::Datatype(p_0) => LiteralKindView::Datatype(p_0.deep_view()),
    }
}

impl DeepView for LiteralKind {
    type V = LiteralKindView;

    open spec fn deep_view(&self) -> LiteralKindView {
        literal_kind_view(*self)
    }
}

/// Whether two values are the same.
pub fn literal_kind_same(a: &LiteralKind, b: &LiteralKind) -> (r: bool)
    ensures
        r == (a.deep_view() == b.deep_view()),
{
    match (a, b) {
        (LiteralKind::Lang(a_0), LiteralKind::Lang(b_0)) => same_text(a_0.as_str(), b_0.as_str()),
        (LiteralKind::Datatype(a_0), LiteralKind::Datatype(b_0)) => iri_same(a_0, b_0),
        _ => false,
    }
}

/// A copy of a value.
pub fn literal_kind_copy(a: &LiteralKind) -> (r: LiteralKind)
    ensures
        r.deep_view() == a.deep_view(),
{
    match a {
        LiteralKind::Lang(a_0) => LiteralKind::Lang(a_0.clone()),
        LiteralKind::Datatype(a_0) => LiteralKind::Datatype(iri_copy(a_0)),
    }
}

impl Clone for LiteralKind {
    fn clone(&self) -> (r: Self)
        ensures
            r.deep_view() == self.deep_view(),
    {
        literal_kind_copy(self)
    }
}

impl PartialEq for LiteralKind {
    fn eq(&self, other: &Self) -> (r: bool) {
        literal_kind_same(self, other)
    }
}

impl PartialEqSpecImpl for LiteralKind {
    open spec fn obeys_eq_spec() -> bool {
        true
    }

    open spec fn eq_spec(&self, other: &Self) -> bool {
        self.deep_view() == other.deep_view()
    }
}

impl Eq for LiteralKind {
}

/// A term of an RDF graph, with the built-in vocabularies told apart.
#[derive(Debug, Hash)]
pub enum Term {
    /// A token of the OWL vocabulary.
    OWL(OWL),
    /// A token of the RDF vocabulary.
    RDF(RDF),
    /// A token of the RDF Schema vocabulary.
    RDFS(RDFS),
    /// Any other IRI.
    Iri(IRI),
    /// A blank node, by its label.
    BNode(String),
    /// A literal: its lexical form and its kind.
    Literal(String, LiteralKind),
    /// A variable, by its name.
    Variable(String),
}

/// The mathematical value of [`Term`].
pub enum TermView {
    OWL(OWL),
    RDF(RDF),
    RDFS(RDFS),
    Iri(Seq<char>),
    BNode(Seq<char>),
    Literal(Seq<char>, LiteralKindView),
    Variable(Seq<char>),
}

/// The mathematical value of a value.
pub open spec fn term_view(x: Term) -> TermView
{
    match x {
        Term::OWL(p_0) => TermView::OWL(p_0),
        Term::RDF(p_0) => TermView::RDF(p_0),
        Term::RDFS(p_0) => TermView::RDFS(p_0),
        Term::Iri(p_0) => TermView::Iri(p_0.deep_view()),
        Term::BNode(p_0) => TermView::BNode(p_0@),
        Term::Literal(p_0, p_1) => TermView::Literal(p_0@, p_1.deep_view()),
        Term::Variable(p_0) => TermView::Variable(p_0@),
    }
}

impl DeepView for Term {
    type V = TermView;

    open spec fn deep_view(&self) -> TermView {
        term_view(*self)
    }
}

/// Whether two values are the same.
pub fn term_same(a: &Term, b: &Term) -> (r: bool)
    ensures
        r == (a.deep_view() == b.deep_view()),
{
    match (a, b) {
        (Term::OWL(a_0), Term::OWL(b_0)) => *a_0 == *b_0,
        (Term::RDF(a_0), Term::RDF(b_0)) => *a_0 == *b_0,
        (Term::RDFS(a_0), Term::RDFS(b_0)) => *a_0 == *b_0,
        (Term::Iri(a_0), Term::Iri(b_0)) => iri_same(a_0, b_0),
        (Term::BNode(a_0), Term::BNode(b_0)) => same_text(a_0.as_str(), b_0.as_str()),
        (Term::Literal(a_0, a_1), Term::Literal(b_0, b_1)) => {
            same_text(a_0.as_str(), b_0.as_str()) && literal_kind_same(a_1, b_1)
        },
        (Term::Variable(a_0), Term::Variable(b_0)) => same_text(a_0.as_str(), b_0.as_str()),
        _ => false,
    }
}

/// A copy of a value.
pub fn term_copy(a: &Term) -> (r: Term)
    ensures
        r.deep_view() == a.deep_view(),
{
    match a {
        Term::OWL(a_0) => Term::OWL(*a_0),
        Term::RDF(a_0) => Term::RDF(*a_0),
        Term::RDFS(a_0) => Term::RDFS(*a_0),
        Term::Iri(a_0) => Term::Iri(iri_copy(a_0)),
        Term::BNode(a_0) => Term::BNode(a_0.clone()),
        Term::Literal(a_0, a_1) => Term::Literal(a_0.clone(), literal_kind_copy(a_1)),
        Term::Variable(a_0) => Term::Variable(a_0.clone()),
    }
}

impl Clone for Term {
    fn clone(&self) -> (r: Self)
        ensures
            r.deep_view() == self.deep_view(),
    {
        term_copy(self)
    }
}

impl PartialEq for Term {
    fn eq(&self, other: &Self) -> (r: bool) {
        term_same(self, other)
    }
}

impl PartialEqSpecImpl for Term {
    open spec fn obeys_eq_spec() -> bool {
        true
    }

    open spec fn eq_spec(&self, other: &Self) -> bool {
        self.deep_view() == other.deep_view()
    }
}

impl Eq for Term {
}

/// A statement of an RDF graph.
#[derive(Debug, Hash)]
pub struct Triple {
    /// What the statement is about.
    pub subject: Term,
    /// The property stated.
    pub predicate: Term,
    /// Its value.
    pub object: Term,
}

/// The mathematical value of [`Triple`].
pub struct TripleView {
    pub subject: TermView,
    pub predicate: TermView,
    pub object: TermView,
}

/// The mathematical value of a value.
pub open spec fn triple_view(x: Triple) -> TripleView
{
    TripleView {
        subject: x.subject.deep_view(),
        predicate: x.predicate.deep_view(),
        object: x.object.deep_view(),
    }
}

impl DeepView for Triple {
    type V = TripleView;

    open spec fn deep_view(&self) -> TripleView {
        triple_view(*self)
    }
}

/// Whether two values are the same.
pub fn triple_same(a: &Triple, b: &Triple) -> (r: bool)
    ensures
        r == (a.deep_view() == b.deep_view()),
{
    term_same(&a.subject, &b.subject)
        && term_same(&a.predicate, &b.predicate)
        && term_same(&a.object, &b.object)
}

/// A copy of a value.
pub fn triple_copy(a: &Triple) -> (r: Triple)
    ensures
        r.deep_view() == a.deep_view(),
{
    Triple {
        subject: term_copy(&a.subject),
        predicate: term_copy(&a.predicate),
        object: term_copy(&a.object),
    }
}

impl Clone for Triple {
    fn clone(&self) -> (r: Self)
        ensures
            r.deep_view() == self.deep_view(),
    {
        triple_copy(self)
    }
}

impl PartialEq for Triple {
    fn eq(&self, other: &Self) -> (r: bool) {
        triple_same(self, other)
    }
}

impl PartialEqSpecImpl for Triple {
    open spec fn obeys_eq_spec() -> bool {
        true
    }

    open spec fn eq_spec(&self, other: &Self) -> bool {
        self.deep_view() == other.deep_view()
    }
}

impl Eq for Triple {
}

/// The term that stands for `s`: its vocabulary token where `s` is the canonical
/// IRI of one, the IRI itself where it is not. The vocabularies are searched in
/// the order OWL, RDF Schema, RDF.
pub open spec fn classify_iri(s: Seq<char>) -> TermView {
    match OWL::lookup_text(s) {
        Some(v) => TermView::OWL(v),
        None => match RDFS::lookup_text(s) {
            Some(v) => TermView::RDFS(v),
            None => match RDF::lookup_text(s) {
                Some(v) => TermView::RDF(v),
                None => TermView::Iri(s),
            },
        },
    }
}

/// The canonical IRI of a token of the OWL vocabulary is found as that token,
/// and a text that is the canonical IRI of none is not found.
pub proof fn lemma_owl_lookup(s: Seq<char>)
    ensures
        match OWL::lookup_text(s) {
            Some(v) => v.iri_text() == s,
            None => forall|v: OWL| v.iri_text() != s,
        },
        forall|v: OWL| v.iri_text() == s ==> OWL::lookup_text(s) == Some(v),
{
    lemma_token_at_rank();
    lemma_tokens_distinct();
    let names = OWL::all_tokens().map_values(|v: OWL| v.iri_text());
    lemma_first_index(names, s);
    assert forall|v: OWL| v.iri_text() == s implies OWL::lookup_text(s) == Some(v) by {
        assert(names[v.rank() as int] == s);
    }
    if OWL::lookup_text(s) is None {
        assert forall|v: OWL| v.iri_text() != s by {
            assert(names[v.rank() as int] == v.iri_text());
        }
    }
}

/// The canonical IRI of a token of the RDFS vocabulary is found as that token,
/// and a text that is the canonical IRI of none is not found.
pub proof fn lemma_rdfs_lookup(s: Seq<char>)
    ensures
        match RDFS::lookup_text(s) {
            Some(v) => v.iri_text() == s,
            None => forall|v: RDFS| v.iri_text() != s,
        },
        forall|v: RDFS| v.iri_text() == s ==> RDFS::lookup_text(s) == Some(v),
{
    lemma_token_at_rank();
    lemma_tokens_distinct();
    let names = RDFS::all_tokens().map_values(|v: RDFS| v.iri_text());
    lemma_first_index(names, s);
    assert forall|v: RDFS| v.iri_text() == s implies RDFS::lookup_text(s) == Some(v) by {
        assert(names[v.rank() as int] == s);
    }
    if RDFS::lookup_text(s) is None {
        assert forall|v: RDFS| v.iri_text() != s by {
            assert(names[v.rank() as int] == v.iri_text());
        }
    }
}

/// The canonical IRI of a token of the RDF vocabulary is found as that token,
/// and a text that is the canonical IRI of none is not found.
pub proof fn lemma_rdf_lookup(s: Seq<char>)
    ensures
        match RDF::lookup_text(s) {
            Some(v) => v.iri_text() == s,
            None => forall|v: RDF| v.iri_text() != s,
        },
        forall|v: RDF| v.iri_text() == s ==> RDF::lookup_text(s) == Some(v),
{
    lemma_token_at_rank();
    lemma_tokens_distinct();
    let names = RDF::all_tokens().map_values(|v: RDF| v.iri_text());
    lemma_first_index(names, s);
    assert forall|v: RDF| v.iri_text() == s implies RDF::lookup_text(s) == Some(v) by {
        assert(names[v.rank() as int] == s);
    }
    if RDF::lookup_text(s) is None {
        assert forall|v: RDF| v.iri_text() != s by {
            assert(names[v.rank() as int] == v.iri_text());
        }
    }
}

/// The mapping between tokens and IRIs goes both ways: the canonical IRI of a
/// token stands for that token, and an IRI stands for a token only if it is the
/// canonical IRI of the token.
pub proof fn lemma_classify_token()
    ensures
        forall|v: OWL| classify_iri(v.iri_text()) == TermView::OWL(v),
        forall|v: RDFS| classify_iri(v.iri_text()) == TermView::RDFS(v),
        forall|v: RDF| classify_iri(v.iri_text()) == TermView::RDF(v),
        forall|s: Seq<char>, v: OWL| classify_iri(s) == TermView::OWL(v) ==> s == v.iri_text(),
        forall|s: Seq<char>, v: RDFS| classify_iri(s) == TermView::RDFS(v) ==> s == v.iri_text(),
        forall|s: Seq<char>, v: RDF| classify_iri(s) == TermView::RDF(v) ==> s == v.iri_text(),
{
    lemma_tokens_distinct();
    assert forall|v: OWL| classify_iri(v.iri_text()) == TermView::OWL(v) by {
        lemma_owl_lookup(v.iri_text());
    }
    assert forall|v: RDFS| classify_iri(v.iri_text()) == TermView::RDFS(v) by {
        lemma_owl_lookup(v.iri_text());
        lemma_rdfs_lookup(v.iri_text());
    }
    assert forall|v: RDF| classify_iri(v.iri_text()) == TermView::RDF(v) by {
        lemma_owl_lookup(v.iri_text());
        lemma_rdfs_lookup(v.iri_text());
        lemma_rdf_lookup(v.iri_text());
    }
    assert forall|s: Seq<char>, v: OWL| classify_iri(s) == TermView::OWL(v) implies s
        == v.iri_text() by {
        lemma_owl_lookup(s);
    }
    assert forall|s: Seq<char>, v: RDFS| classify_iri(s) == TermView::RDFS(v) implies s
        == v.iri_text() by {
        lemma_rdfs_lookup(s);
    }
    assert forall|s: Seq<char>, v: RDF| classify_iri(s) == TermView::RDF(v) implies s
        == v.iri_text() by {
        lemma_rdf_lookup(s);
    }
}

/// A term with the IRIs of the built-in vocabularies replaced by their tokens.
pub open spec fn classify(t: TermView) -> TermView {
    match t {
        TermView::Iri(s) => classify_iri(s),
        _ => t,
    }
}

/// A triple with each of its terms classified.
pub open spec fn classify_triple(t: TripleView) -> TripleView {
    TripleView {
        subject: classify(t.subject),
        predicate: classify(t.predicate),
        object: classify(t.object),
    }
}

/// Replaces the IRI of a built-in vocabulary by its token; any other term is kept.
pub fn to_term(t: &Term) -> (r: Term)
    ensures
        r.deep_view() == classify(t.deep_view()),
{
    match t {
        Term::Iri(iri) => {
            match OWL::lookup(iri.as_str()) {
                Some(v) => Term::OWL(v),
                None => match RDFS::lookup(iri.as_str()) {
                    Some(v) => Term::RDFS(v),
                    None => match RDF::lookup(iri.as_str()) {
                        Some(v) => Term::RDF(v),
                        None => Term::Iri(iri_copy(iri)),
                    },
                },
            }
        },
        _ => term_copy(t),
    }
}

/// Classifies the three terms of a triple.
pub fn to_triple(t: &Triple) -> (r: Triple)
    ensures
        r.deep_view() == classify_triple(t.deep_view()),
{
    Triple {
        subject: to_term(&t.subject),
        predicate: to_term(&t.predicate),
        object: to_term(&t.object),
    }
}

} // verus!
