//! Annotations on axioms, and the header of the ontology.
//!
//! An annotated axiom is encoded by a blank node that names the triple of the
//! axiom (its source, property and target) and carries the annotations. The
//! triple is handed on as a simple triple; the annotations wait until the
//! triple is recognised as an axiom.

use crate::io::rdf::parser::{annotations_in, parse_annotations, OntologyParser, ParserView};
use crate::io::rdf::resolve::{iri_of, to_iri};
use crate::io::rdf::sequences::{is_owl, is_rdf, keep, no_buckets};
use crate::io::rdf::table::{add_annotations, with_annotations};
use crate::io::rdf::term::{term_copy, triple_copy, Term, TermView, Triple, TripleView};
use crate::model::entity::{iri_copy, iri_same, Build, IRI};
use crate::model::literal::{Annotation, AnnotationView};
use crate::ontology::{OntologyIDView, OntologyView};
use crate::vocab::{OWL, RDF};
use vstd::prelude::*;

verus! {

/// The triple that a bucket reifies, with the annotations that the bucket
/// carries. The first four triples name the property, the source and the
/// target, and type the blank node as an axiom; the others are the annotations.
pub open spec fn reified(v: Seq<TripleView>) -> Option<(TripleView, Seq<AnnotationView>)> {
    if v.len() >= 4 && v[0].predicate == TermView::OWL(OWL::AnnotatedProperty) && v[1].predicate
        == TermView::OWL(OWL::AnnotatedSource) && v[2].predicate == TermView::OWL(
        OWL::AnnotatedTarget,
    ) && v[3].predicate == TermView::RDF(RDF::Type) && v[3].object == TermView::OWL(OWL::Axiom) {
        match annotations_in(v.skip(4)) {
            Some(ann) => Some(
                (
                    TripleView {
                        subject: v[1].object,
                        predicate: v[0].object,
                        object: v[2].object,
                    },
                    ann,
                ),
            ),
            None => None,
        }
    } else {
        None
    }
}

/// One bucket: a reification adds its annotations to those recorded for the
/// target triple and hands the target on as a simple triple; anything else is
/// kept. Two reifications of one triple leave the annotations of both.
pub open spec fn reify_step(st: ParserView, e: (Seq<char>, Seq<TripleView>)) -> ParserView {
    match reified(e.1) {
        Some((target, ann)) => ParserView {
            ann_map: with_annotations(st.ann_map, target, ann),
            simple: st.simple.push(target),
            ..st
        },
        None => keep(st, e),
    }
}

/// The state after the reifications were taken out of the buckets.
pub open spec fn after_axiom_annotations(st: ParserView) -> ParserView {
    st.bnode.fold_left(no_buckets(st), |s: ParserView, e: (Seq<char>, Seq<TripleView>)|
        reify_step(s, e))
}

/// The subject of a triple that types an IRI as an ontology.
pub open spec fn ontology_triple(t: TripleView) -> Option<Seq<char>> {
    if t.predicate == TermView::RDF(RDF::Type) && t.object == TermView::OWL(OWL::Ontology) {
        iri_of(t.subject)
    } else {
        None
    }
}

/// The IRI of the ontology: the subject of the last triple that types one.
pub open spec fn last_ontology(simple: Seq<TripleView>) -> Option<Seq<char>>
    decreases simple.len(),
{
    if simple.len() == 0 {
        None
    } else {
        match ontology_triple(simple.last()) {
            Some(s) => Some(s),
            None => last_ontology(simple.drop_last()),
        }
    }
}

/// The version that a triple gives to the ontology `iri`.
pub open spec fn version_triple(t: TripleView, iri: Option<Seq<char>>) -> Option<Seq<char>> {
    if t.predicate == TermView::OWL(OWL::VersionIRI) && iri_of(t.subject) is Some && iri_of(
        t.subject,
    ) == iri {
        iri_of(t.object)
    } else {
        None
    }
}

/// One triple of the header pass: a triple that types an ontology is dropped, one
/// that gives the version of the ontology sets the version, any other is kept.
pub open spec fn header_step(
    acc: (Seq<TripleView>, Option<Seq<char>>),
    t: TripleView,
    iri: Option<Seq<char>>,
) -> (Seq<TripleView>, Option<Seq<char>>) {
    if ontology_triple(t) is Some {
        acc
    } else {
        match version_triple(t, iri) {
            Some(v) => (acc.0, Some(v)),
            None => (acc.0.push(t), acc.1),
        }
    }
}

/// The simple triples that are left after the header was read, and the version.
pub open spec fn header_pass(simple: Seq<TripleView>, iri: Option<Seq<char>>) -> (
    Seq<TripleView>,
    Option<Seq<char>>,
) {
    simple.fold_left(
        (Seq::empty(), None),
        |acc: (Seq<TripleView>, Option<Seq<char>>), t: TripleView| header_step(acc, t, iri),
    )
}

/// The state after the header was read: the ontology has the IRI of the last
/// triple that types an ontology, and the last version given to that IRI.
pub open spec fn after_headers(st: ParserView) -> ParserView {
    let iri = last_ontology(st.simple);
    let (rest, viri) = header_pass(st.simple, iri);
    ParserView {
        simple: rest,
        o: OntologyView { id: OntologyIDView { iri, viri }, ..st.o },
        ..st
    }
}

/// The triple that a bucket reifies, with its annotations.
pub fn as_reified(b: &Build, v: &Vec<Triple>) -> (r: Option<
    (Triple, Vec<Annotation>),
>)
    ensures
        r.deep_view() == reified(v.deep_view()),
{
    if v.len() >= 4 && is_owl(&v[0].predicate, OWL::AnnotatedProperty) && is_owl(
        &v[1].predicate,
        OWL::AnnotatedSource,
    ) && is_owl(&v[2].predicate, OWL::AnnotatedTarget) && is_rdf(&v[3].predicate, RDF::Type)
        && is_owl(&v[3].object, OWL::Axiom) {
        match parse_annotations(b, v, 4) {
            Some(ann) => Some(
                (
                    Triple {
                        subject: term_copy(&v[1].object),
                        predicate: term_copy(&v[0].object),
                        object: term_copy(&v[2].object),
                    },
                    ann,
                ),
            ),
            None => None,
        }
    } else {
        None
    }
}

/// The subject of a triple that types an IRI as an ontology.
pub fn as_ontology_triple(t: &Triple) -> (r: Option<&IRI>)
    ensures
        r.deep_view() == ontology_triple(t.deep_view()),
{
    if is_rdf(&t.predicate, RDF::Type) && is_owl(&t.object, OWL::Ontology) {
        match &t.subject {
            Term::Iri(s) => Some(s),
            _ => None,
        }
    } else {
        None
    }
}

/// The version that a triple gives to the ontology `iri`.
pub fn as_version_triple(t: &Triple, iri: &Option<IRI>) -> (r: Option<IRI>)
    ensures
        r.deep_view() == version_triple(t.deep_view(), iri.deep_view()),
{
    if is_owl(&t.predicate, OWL::VersionIRI) {
        match (&t.subject, iri) {
            (Term::Iri(s), Some(i)) => {
                if iri_same(s, i) {
                    to_iri(&t.object)
                } else {
                    None
                }
            },
            _ => None,
        }
    } else {
        None
    }
}

impl<'a> OntologyParser<'a> {
    /// Takes the reifications out of the buckets: the annotations of each are
    /// recorded for its target triple, and the target joins the simple triples.
    pub fn axiom_annotations(&mut self)
        ensures
            final(self).deep_view() == after_axiom_annotations(old(self).deep_view()),
    {
        let ghost st = self.deep_view();
        let buckets = self.take_buckets();
        let ghost all = buckets.deep_view();
        let ghost items = buckets@;
        let ghost step = |s: ParserView, e: (Seq<char>, Seq<TripleView>)| reify_step(s, e);
        proof {
            assert(all.take(0) =~= Seq::<(Seq<char>, Seq<TripleView>)>::empty());
        }
        for e in it: buckets
            invariant
                it.seq() == items,
                all.len() == items.len(),
                forall|j: int| 0 <= j < items.len() ==> all[j] == items[j].deep_view(),
                step == |s: ParserView, e: (Seq<char>, Seq<TripleView>)| reify_step(s, e),
                self.deep_view() == all.take(it.index() as int).fold_left(no_buckets(st), step),
        {
            let ghost i = it.index() as int;
            proof {
                assert(all.take(i + 1).drop_last() =~= all.take(i));
                assert(all.take(i + 1).last() == e.deep_view());
            }
            match as_reified(self.b, &e.1) {
                Some((target, ann)) => {
                    let ghost sv = self.simple.deep_view();
                    let ghost tv = target.deep_view();
                    let again = triple_copy(&target);
                    add_annotations(&mut self.ann_map, target, ann);
                    self.simple.push(again);
                    assert(self.simple.deep_view() =~= sv.push(tv));
                },
                None => {
                    self.keep_bucket(e);
                },
            }
        }
        proof {
            assert(all.take(all.len() as int) =~= all);
        }
    }

    /// Reads the header: the IRI of the ontology and the IRI of its version.
    pub fn headers(&mut self)
        ensures
            final(self).deep_view() == after_headers(old(self).deep_view()),
    {
        let ghost st = self.deep_view();
        let ghost all = st.simple;
        let mut iri: Option<IRI> = None;
        let mut k: usize = self.simple.len();
        proof {
            assert(all.take(k as int) =~= all);
        }
        while k > 0 && iri.is_none()
            invariant
                k <= self.simple.len(),
                self.deep_view() == st,
                all == st.simple,
                iri is None ==> last_ontology(all) == last_ontology(all.take(k as int)),
                iri is Some ==> last_ontology(all) == iri.deep_view(),
            decreases k,
        {
            k -= 1;
            proof {
                assert(all.take(k as int + 1).drop_last() =~= all.take(k as int));
                assert(all.take(k as int + 1).last() == self.simple@[k as int].deep_view());
            }
            match as_ontology_triple(&self.simple[k]) {
                Some(s) => {
                    iri = Some(iri_copy(s));
                },
                None => {},
            }
        }
        assert(iri.deep_view() == last_ontology(all));
        let mut viri: Option<IRI> = None;
        let triples = self.take_simple();
        let ghost items = triples@;
        let ghost target = iri.deep_view();
        let ghost step = |acc: (Seq<TripleView>, Option<Seq<char>>), t: TripleView|
            header_step(acc, t, target);
        proof {
            assert(all.take(0) =~= Seq::<TripleView>::empty());
        }
        for t in it: triples
            invariant
                it.seq() == items,
                all.len() == items.len(),
                forall|j: int| 0 <= j < items.len() ==> all[j] == items[j].deep_view(),
                target == iri.deep_view(),
                step == |acc: (Seq<TripleView>, Option<Seq<char>>), t: TripleView|
                    header_step(acc, t, target),
                (self.simple.deep_view(), viri.deep_view()) == all.take(
                    it.index() as int,
                ).fold_left((Seq::empty(), None), step),
                self.deep_view() == (ParserView { simple: self.simple.deep_view(), ..st }),
        {
            let ghost i = it.index() as int;
            let ghost sv = self.simple.deep_view();
            let ghost tv = t.deep_view();
            proof {
                assert(all.take(i + 1).drop_last() =~= all.take(i));
                assert(all.take(i + 1).last() == tv);
            }
            if as_ontology_triple(&t).is_some() {
            } else {
                match as_version_triple(&t, &iri) {
                    Some(v) => {
                        viri = Some(v);
                    },
                    None => {
                        self.simple.push(t);
                        assert(self.simple.deep_view() =~= sv.push(tv));
                    },
                }
            }
        }
        proof {
            assert(all.take(all.len() as int) =~= all);
        }
        self.o.id.iri = iri;
        self.o.id.viri = viri;
    }

    /// Imports are not resolved: the state is left as it is. The stage of axioms
    /// records each import as an axiom.
    pub fn resolve_imports(&mut self)
        ensures
            final(self).deep_view() == old(self).deep_view(),
    {
    }

    /// The vocabulary of OWL 1 is not read: the state is left as it is.
    pub fn backward_compat(&mut self)
        ensures
            final(self).deep_view() == old(self).deep_view(),
    {
    }
}

} // verus!
