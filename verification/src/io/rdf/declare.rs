//! Declarations and annotation assertions among the simple triples.

use crate::io::rdf::parser::{annotation, annotation_of, OntologyParser, ParserView};
use crate::io::rdf::resolve::iri_of;
use crate::io::rdf::table::{annotations_of, take_annotations, without};
use crate::io::rdf::term::{Term, TermView, Triple, TripleView};
use crate::model::axioms::{Axiom, AxiomView};
use crate::model::entity::{
    iri_copy, AnnotationProperty, Class, DataProperty, Datatype, NamedIndividual, ObjectProperty,
};
use crate::model::literal::AnnotationView;
use crate::ontology::{
    declaration_kind, inserted, is_annotation_property, merged, update_logically_equal_axiom,
    AnnotatedAxiom, AnnotatedAxiomView, NamedEntityKind, OntologyView,
};
use crate::vocab::{OWL, RDF, RDFS};
use vstd::prelude::*;

verus! {

/// The declaration that a triple states: it types an IRI as an entity of one of
/// the six kinds.
pub open spec fn declaration_of(t: TripleView) -> Option<AxiomView> {
    match (t.subject, t.predicate, t.object) {
        (TermView::Iri(s), TermView::RDF(RDF::Type), TermView::OWL(OWL::Class)) => Some(
            AxiomView::DeclareClass(s),
        ),
        (TermView::Iri(s), TermView::RDF(RDF::Type), TermView::OWL(OWL::ObjectProperty)) => Some(
            AxiomView::DeclareObjectProperty(s),
        ),
        (
            TermView::Iri(s),
            TermView::RDF(RDF::Type),
            TermView::OWL(OWL::AnnotationProperty),
        ) => Some(AxiomView::DeclareAnnotationProperty(s)),
        (TermView::Iri(s), TermView::RDF(RDF::Type), TermView::OWL(OWL::DatatypeProperty)) => Some(
            AxiomView::DeclareDataProperty(s),
        ),
        (TermView::Iri(s), TermView::RDF(RDF::Type), TermView::OWL(OWL::NamedIndividual)) => Some(
            AxiomView::DeclareNamedIndividual(s),
        ),
        (TermView::Iri(s), TermView::RDF(RDF::Type), TermView::RDFS(RDFS::Datatype)) => Some(
            AxiomView::DeclareDatatype(s),
        ),
        _ => None,
    }
}

/// The state with the ontology's axioms replaced.
pub open spec fn with_axioms(st: ParserView, axioms: Seq<AnnotatedAxiomView>) -> ParserView {
    ParserView { o: OntologyView { axioms, ..st.o }, ..st }
}

/// The state after the triple `t` was recognised as the axiom `ax`: the
/// annotations that waited for the triple leave the pending ones, and the axiom
/// is merged into the ontology with them.
pub open spec fn emit(st: ParserView, t: TripleView, ax: AxiomView) -> ParserView {
    ParserView {
        ann_map: without(st.ann_map, t),
        ..with_axioms(
            st,
            merged(
                st.o.axioms,
                AnnotatedAxiomView { ax, ann: annotations_of(st.ann_map, t).to_set() },
            ),
        )
    }
}

/// The state after the triple `t` was left among the simple triples.
pub open spec fn leave(st: ParserView, t: TripleView) -> ParserView {
    ParserView { simple: st.simple.push(t), ..st }
}

/// The state with no simple triple.
pub open spec fn no_simple(st: ParserView) -> ParserView {
    ParserView { simple: Seq::empty(), ..st }
}

/// One triple: a declaration is merged into the ontology, any other is left.
pub open spec fn declare_step(st: ParserView, t: TripleView) -> ParserView {
    match declaration_of(t) {
        Some(ax) => emit(st, t, ax),
        None => leave(st, t),
    }
}

/// The state after the declarations were taken out of the simple triples.
pub open spec fn after_declarations(st: ParserView) -> ParserView {
    st.simple.fold_left(no_simple(st), |s: ParserView, t: TripleView| declare_step(s, t))
}

/// Whether a triple annotates a named subject: its predicate is an annotation
/// property that RDF Schema predefines, `owl:versionInfo`, or an IRI declared
/// as an annotation property.
pub open spec fn is_annotation_triple(o: Seq<AnnotatedAxiomView>, t: TripleView) -> bool {
    iri_of(t.subject) is Some && match t.predicate {
        TermView::RDFS(v) => v.spec_is_builtin(),
        TermView::OWL(v) => v == OWL::VersionInfo,
        TermView::Iri(ap) => declaration_kind(o, ap) == Some(NamedEntityKind::AnnotationProperty),
        _ => false,
    }
}

/// The annotation assertion that a triple states.
pub open spec fn assertion_of(o: Seq<AnnotatedAxiomView>, t: TripleView) -> Option<AxiomView> {
    if is_annotation_triple(o, t) {
        match (iri_of(t.subject), annotation_of(t)) {
            (Some(subject), Some(ann)) => Some(AxiomView::AnnotationAssertion { subject, ann }),
            _ => None,
        }
    } else {
        None
    }
}

/// One triple: an annotation assertion is merged into the ontology, any other
/// is left.
pub open spec fn annotate_step(st: ParserView, t: TripleView) -> ParserView {
    match assertion_of(st.o.axioms, t) {
        Some(ax) => emit(st, t, ax),
        None => leave(st, t),
    }
}

/// The state after the annotation assertions were taken out of the simple triples.
pub open spec fn after_simple_annotations(st: ParserView) -> ParserView {
    st.simple.fold_left(no_simple(st), |s: ParserView, t: TripleView| annotate_step(s, t))
}

/// The declaration that a triple states.
pub fn as_declaration(t: &Triple) -> (r: Option<Axiom>)
    ensures
        r.deep_view() == declaration_of(t.deep_view()),
{
    match (&t.subject, &t.predicate, &t.object) {
        (Term::Iri(s), Term::RDF(RDF::Type), Term::OWL(OWL::Class)) => Some(
            Axiom::DeclareClass(Class(iri_copy(s))),
        ),
        (Term::Iri(s), Term::RDF(RDF::Type), Term::OWL(OWL::ObjectProperty)) => Some(
            Axiom::DeclareObjectProperty(ObjectProperty(iri_copy(s))),
        ),
        (Term::Iri(s), Term::RDF(RDF::Type), Term::OWL(OWL::AnnotationProperty)) => Some(
            Axiom::DeclareAnnotationProperty(AnnotationProperty(iri_copy(s))),
        ),
        (Term::Iri(s), Term::RDF(RDF::Type), Term::OWL(OWL::DatatypeProperty)) => Some(
            Axiom::DeclareDataProperty(DataProperty(iri_copy(s))),
        ),
        (Term::Iri(s), Term::RDF(RDF::Type), Term::OWL(OWL::NamedIndividual)) => Some(
            Axiom::DeclareNamedIndividual(NamedIndividual(iri_copy(s))),
        ),
        (Term::Iri(s), Term::RDF(RDF::Type), Term::RDFS(RDFS::Datatype)) => Some(
            Axiom::DeclareDatatype(Datatype(iri_copy(s))),
        ),
        _ => None,
    }
}

impl<'a> OntologyParser<'a> {
    /// Merges an annotated axiom into the ontology.
    pub fn merge(&mut self, ax: AnnotatedAxiom)
        ensures
            final(self).deep_view() == with_axioms(
                old(self).deep_view(),
                merged(old(self).deep_view().o.axioms, ax.deep_view()),
            ),
    {
        update_logically_equal_axiom(&mut self.o, ax);
    }

    /// Adds an axiom without annotations as it is, and merges one with annotations.
    pub fn in_or_merge(&mut self, ax: AnnotatedAxiom)
        ensures
            final(self).deep_view() == with_axioms(
                old(self).deep_view(),
                if ax.deep_view().ann == Set::<AnnotationView>::empty() {
                    inserted(old(self).deep_view().o.axioms, ax.deep_view())
                } else {
                    merged(old(self).deep_view().o.axioms, ax.deep_view())
                },
            ),
    {
        proof {
            let s = ax.ann.deep_view();
            if s.len() > 0 {
                assert(s.to_set().contains(s[0]));
            } else {
                assert(s.to_set() =~= Set::empty());
            }
        }
        if ax.ann.len() == 0 {
            self.o.insert(ax);
        } else {
            update_logically_equal_axiom(&mut self.o, ax);
        }
    }

    /// Records that the triple `t` was recognised as the axiom `ax`.
    pub fn emit_axiom(&mut self, t: &Triple, ax: Axiom)
        ensures
            final(self).deep_view() == emit(old(self).deep_view(), t.deep_view(), ax.deep_view()),
    {
        let ann = take_annotations(&mut self.ann_map, t);
        self.merge(AnnotatedAxiom { ax, ann });
    }

    /// Leaves a triple among the simple triples, for a later stage.
    pub fn leave_triple(&mut self, t: Triple)
        ensures
            final(self).deep_view() == leave(old(self).deep_view(), t.deep_view()),
    {
        let ghost sv = self.simple.deep_view();
        let ghost tv = t.deep_view();
        self.simple.push(t);
        assert(self.simple.deep_view() =~= sv.push(tv));
    }

    /// The annotation assertion that a triple states.
    pub fn as_assertion(&self, t: &Triple) -> (r: Option<Axiom>)
        ensures
            r.deep_view() == assertion_of(self.deep_view().o.axioms, t.deep_view()),
    {
        let subject = match &t.subject {
            Term::Iri(iri) => iri,
            _ => {
                return None;
            },
        };
        let accepted = match &t.predicate {
            Term::RDFS(v) => v.is_builtin(),
            Term::OWL(v) => *v == OWL::VersionInfo,
            Term::Iri(ap) => is_annotation_property(&self.o, ap),
            _ => false,
        };
        if !accepted {
            return None;
        }
        match annotation(self.b, t) {
            Some(ann) => Some(Axiom::AnnotationAssertion { subject: iri_copy(subject), ann }),
            None => None,
        }
    }

    /// Takes the declarations out of the simple triples and into the ontology.
    pub fn declarations(&mut self)
        ensures
            final(self).deep_view() == after_declarations(old(self).deep_view()),
    {
        let ghost st = self.deep_view();
        let triples = self.take_simple();
        let ghost all = triples.deep_view();
        let ghost items = triples@;
        let ghost step = |s: ParserView, t: TripleView| declare_step(s, t);
        proof {
            assert(all.take(0) =~= Seq::<TripleView>::empty());
        }
        for t in it: triples
            invariant
                it.seq() == items,
                all.len() == items.len(),
                forall|j: int| 0 <= j < items.len() ==> all[j] == items[j].deep_view(),
                step == |s: ParserView, t: TripleView| declare_step(s, t),
                self.deep_view() == all.take(it.index() as int).fold_left(no_simple(st), step),
        {
            let ghost i = it.index() as int;
            proof {
                assert(all.take(i + 1).drop_last() =~= all.take(i));
                assert(all.take(i + 1).last() == t.deep_view());
            }
            match as_declaration(&t) {
                Some(ax) => {
                    self.emit_axiom(&t, ax);
                },
                None => {
                    self.leave_triple(t);
                },
            }
        }
        proof {
            assert(all.take(all.len() as int) =~= all);
        }
    }

    /// Takes the annotation assertions out of the simple triples and into the
    /// ontology.
    pub fn simple_annotations(&mut self)
        ensures
            final(self).deep_view() == after_simple_annotations(old(self).deep_view()),
    {
        let ghost st = self.deep_view();
        let triples = self.take_simple();
        let ghost all = triples.deep_view();
        let ghost items = triples@;
        let ghost step = |s: ParserView, t: TripleView| annotate_step(s, t);
        proof {
            assert(all.take(0) =~= Seq::<TripleView>::empty());
        }
        for t in it: triples
            invariant
                it.seq() == items,
                all.len() == items.len(),
                forall|j: int| 0 <= j < items.len() ==> all[j] == items[j].deep_view(),
                step == |s: ParserView, t: TripleView| annotate_step(s, t),
                self.deep_view() == all.take(it.index() as int).fold_left(no_simple(st), step),
        {
            let ghost i = it.index() as int;
            proof {
                assert(all.take(i + 1).drop_last() =~= all.take(i));
                assert(all.take(i + 1).last() == t.deep_view());
            }
            match self.as_assertion(&t) {
                Some(ax) => {
                    self.emit_axiom(&t, ax);
                },
                None => {
                    self.leave_triple(t);
                },
            }
        }
        proof {
            assert(all.take(all.len() as int) =~= all);
        }
    }
}

} // verus!
