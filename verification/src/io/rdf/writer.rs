//! Writing an ontology as RDF/XML.
//!
//! The writer renders the header of an ontology: the triple that types the
//! ontology, the triple that gives its version, and one triple for each
//! ontology that it imports.

use crate::io::rdf::term::{Term, TermView, Triple, TripleView};
use crate::model::axioms::{Axiom, AxiomView};
use crate::model::entity::iri_copy;
use crate::ontology::{AnnotatedAxiomView, Ontology, OntologyIDView, OntologyView};
use crate::text::{decimal, decimal_text, owned};
use crate::vocab::{OWL, RDF};
use rio_api::formatter::TriplesFormatter;
use rio_api::model::NamedNode;
use rio_xml::RdfXmlFormatter;
use vstd::prelude::*;
use vstd::string::StringExecFns;

verus! {

/// The label of a blank node.
#[derive(Debug)]
pub struct BlankNodeId(pub String);

impl BlankNodeId {
    /// The label as text.
    pub fn as_str(&self) -> (r: &str)
        ensures
            r@ == self.0@,
    {
        self.0.as_str()
    }
}

/// A source of fresh labels for blank nodes: `bn1`, `bn2`, and so on.
#[derive(Debug)]
pub struct BlankNodeIdGenerator {
    /// The number of labels handed out.
    pub i: u64,
}

impl Default for BlankNodeIdGenerator {
    fn default() -> (r: Self)
        ensures
            r.i == 0,
    {
        BlankNodeIdGenerator { i: 0 }
    }
}

/// The label with the number `n`.
pub open spec fn label(n: nat) -> Seq<char> {
    seq!['b', 'n'] + decimal_text(n)
}

impl BlankNodeIdGenerator {
    /// Hands out the next label: `bn` and the decimal numeral of the number of
    /// labels handed out so far, this one counted.
    pub fn generate(&mut self) -> (r: BlankNodeId)
        requires
            old(self).i < u64::MAX,
        ensures
            final(self).i == old(self).i + 1,
            r.0@ == label(final(self).i as nat),
    {
        self.i = self.i + 1;
        let mut s = owned("bn");
        proof {
            reveal_strlit("bn");
            assert(s@ =~= seq!['b', 'n']);
        }
        let digits = decimal(self.i);
        s.append(digits.as_str());
        BlankNodeId(s)
    }
}

/// The triples that render a header: none for an ontology without an IRI.
pub open spec fn header_triples(id: OntologyIDView) -> Seq<TripleView> {
    match id.iri {
        Some(iri) => {
            let typed = TripleView {
                subject: TermView::Iri(iri),
                predicate: TermView::RDF(RDF::Type),
                object: TermView::OWL(OWL::Ontology),
            };
            match id.viri {
                Some(viri) => seq![
                    typed,
                    TripleView {
                        subject: TermView::Iri(iri),
                        predicate: TermView::OWL(OWL::VersionIRI),
                        object: TermView::Iri(viri),
                    },
                ],
                None => seq![typed],
            }
        },
        None => Seq::empty(),
    }
}

/// The IRI that names a term.
pub open spec fn node_iri(t: TermView) -> Option<Seq<char>> {
    match t {
        TermView::Iri(i) => Some(i),
        TermView::OWL(v) => Some(v.iri_text()),
        TermView::RDF(v) => Some(v.iri_text()),
        TermView::RDFS(v) => Some(v.iri_text()),
        _ => None,
    }
}

/// A triple of named nodes, as the three IRIs.
pub open spec fn statement(t: TripleView) -> (Seq<char>, Seq<char>, Seq<char>) {
    (node_iri(t.subject)->0, node_iri(t.predicate)->0, node_iri(t.object)->0)
}

/// Whether the three terms of a triple are named.
pub open spec fn is_named(t: TripleView) -> bool {
    node_iri(t.subject) is Some && node_iri(t.predicate) is Some && node_iri(t.object) is Some
}

/// The IRI that names a term.
pub fn node_text(t: &Term) -> (r: Option<&str>)
    ensures
        match r {
            Some(s) => node_iri(t.deep_view()) == Some(s@),
            None => node_iri(t.deep_view()) is None,
        },
{
    match t {
        Term::Iri(i) => Some(i.as_str()),
        Term::OWL(v) => Some(v.iri_str()),
        Term::RDF(v) => Some(v.iri_str()),
        Term::RDFS(v) => Some(v.iri_str()),
        _ => None,
    }
}

/// The triple that states that the ontology `iri` imports the ontology `i`.
pub open spec fn import_triple(iri: Seq<char>, i: Seq<char>) -> TripleView {
    TripleView {
        subject: TermView::Iri(iri),
        predicate: TermView::OWL(OWL::Imports),
        object: TermView::Iri(i),
    }
}

/// The triples that state the imports among the axioms, in the order of the
/// axioms.
pub open spec fn import_triples(iri: Seq<char>, axioms: Seq<AnnotatedAxiomView>) -> Seq<
    TripleView,
>
    decreases axioms.len(),
{
    if axioms.len() == 0 {
        Seq::empty()
    } else {
        let front = import_triples(iri, axioms.drop_last());
        match axioms.last().ax {
            AxiomView::Import(i) => front.push(import_triple(iri, i)),
            _ => front,
        }
    }
}

/// The triples that render an ontology: those of its header, then those of its
/// imports. An ontology without an IRI renders as nothing.
pub open spec fn rendered(o: OntologyView) -> Seq<TripleView> {
    match o.id.iri {
        Some(iri) => header_triples(o.id) + import_triples(iri, o.axioms),
        None => Seq::empty(),
    }
}

/// An ontology without axioms renders as its header.
pub proof fn lemma_rendered_header(o: OntologyView)
    requires
        o.axioms.len() == 0,
    ensures
        rendered(o) == header_triples(o.id),
{
    assert(rendered(o) =~= header_triples(o.id));
}

/// The triples that render the ontology.
pub fn render(ont: &Ontology) -> (r: Vec<Triple>)
    ensures
        r.deep_view() == rendered(ont.deep_view()),
{
    let mut r: Vec<Triple> = Vec::new();
    let iri = match &ont.id.iri {
        Some(iri) => iri,
        None => {
            assert(r.deep_view() =~= Seq::<TripleView>::empty());
            return r;
        },
    };
    r.push(
        Triple {
            subject: Term::Iri(iri_copy(iri)),
            predicate: Term::RDF(RDF::Type),
            object: Term::OWL(OWL::Ontology),
        },
    );
    match &ont.id.viri {
        Some(viri) => {
            r.push(
                Triple {
                    subject: Term::Iri(iri_copy(iri)),
                    predicate: Term::OWL(OWL::VersionIRI),
                    object: Term::Iri(iri_copy(viri)),
                },
            );
        },
        None => {},
    }
    let ghost head = header_triples(ont.deep_view().id);
    let ghost all = ont.deep_view().axioms;
    assert(r.deep_view() =~= head);
    assert(all.take(0) =~= Seq::<AnnotatedAxiomView>::empty());
    let mut k: usize = 0;
    while k < ont.axioms.len()
        invariant
            k <= ont.axioms.len(),
            all == ont.deep_view().axioms,
            r.deep_view() == head + import_triples(iri.deep_view(), all.take(k as int)),
        decreases ont.axioms.len() - k,
    {
        let ghost before = r.deep_view();
        proof {
            assert(all.take(k as int + 1).drop_last() =~= all.take(k as int));
            assert(all.take(k as int + 1).last() == ont.axioms@[k as int].deep_view());
        }
        match &ont.axioms[k].ax {
            Axiom::Import(i) => {
                r.push(
                    Triple {
                        subject: Term::Iri(iri_copy(iri)),
                        predicate: Term::OWL(OWL::Imports),
                        object: Term::Iri(iri_copy(i)),
                    },
                );
                assert(r.deep_view() =~= before.push(
                    import_triple(iri.deep_view(), i.deep_view()),
                ));
                assert(r.deep_view() =~= head + import_triples(
                    iri.deep_view(),
                    all.take(k as int + 1),
                ));
            },
            _ => {},
        }
        k += 1;
    }
    assert(all.take(k as int) =~= all);
    r
}

/// The error with which a formatter fails.
#[verifier::external_type_specification]
#[verifier::external_body]
pub struct ExIoError(std::io::Error);

/// A formatter of RDF/XML that writes into memory: `rio_xml::RdfXmlFormatter`
/// over a vector of bytes. The formatter bounds its writer by a trait of the
/// standard library, so it is held here and seen through `written`.
#[verifier::external_body]
pub struct Formatter {
    inner: RdfXmlFormatter<Vec<u8>>,
}

/// The triples of named nodes that were given to a formatter, in their order.
pub uninterp spec fn written(f: Formatter) -> Seq<(Seq<char>, Seq<char>, Seq<char>)>;

/// The RDF/XML document, indented by four spaces, that a formatter makes of a
/// sequence of triples of named nodes.
pub uninterp spec fn rdf_xml_document(triples: Seq<(Seq<char>, Seq<char>, Seq<char>)>) -> Seq<u8>;

/// Starts a document with `RdfXmlFormatter::with_indentation`, indented by four
/// spaces. The formatter fails only where its writer fails, and a vector of
/// bytes never does: the call succeeds, and the formatter holds no triple yet.
#[verifier::external_body]
fn open_formatter() -> (r: Result<Formatter, std::io::Error>)
    ensures
        r is Ok,
        written(r->Ok_0) == Seq::<(Seq<char>, Seq<char>, Seq<char>)>::empty(),
{
    Ok(Formatter { inner: RdfXmlFormatter::with_indentation(Vec::new(), 4)? })
}

/// Gives one triple of named nodes to the formatter, with
/// `TriplesFormatter::format`. The call succeeds, since the writer is a vector
/// of bytes, and the formatter holds the triple after those it held before.
#[verifier::external_body]
fn format_named(f: &mut Formatter, subject: &str, predicate: &str, object: &str) -> (r: Result<
    (),
    std::io::Error,
>)
    ensures
        r is Ok,
        written(*final(f)) == written(*old(f)).push((subject@, predicate@, object@)),
{
    f.inner.format(
        &rio_api::model::Triple {
            subject: NamedNode { iri: subject }.into(),
            predicate: NamedNode { iri: predicate },
            object: NamedNode { iri: object }.into(),
        },
    )
}

/// Ends the document with `RdfXmlFormatter::finish` and returns its bytes. The
/// call succeeds, since the writer is a vector of bytes, and gives the document
/// of the triples that the formatter holds.
#[verifier::external_body]
fn finish_formatter(f: Formatter) -> (r: Result<Vec<u8>, std::io::Error>)
    ensures
        r is Ok,
        r->Ok_0@ == rdf_xml_document(written(f)),
{
    f.inner.finish()
}

/// Why an ontology could not be written.
#[derive(Debug)]
pub enum WriteError {
    /// The formatter failed. A formatter that writes into memory never does.
    Io(std::io::Error),
    /// A triple has a term that is no named node.
    Unsupported,
}

/// The three IRIs of each triple.
pub open spec fn statements(ts: Seq<TripleView>) -> Seq<(Seq<char>, Seq<char>, Seq<char>)> {
    ts.map_values(|t: TripleView| statement(t))
}

/// Whether every triple is one of named nodes.
pub open spec fn all_named(ts: Seq<TripleView>) -> bool {
    forall|i: int| 0 <= i < ts.len() ==> is_named(#[trigger] ts[i])
}

/// Writes the triples as an RDF/XML document. Triples of named nodes give the
/// document of these triples. A triple with a blank node, a literal or a
/// variable is not supported.
pub fn write_triples(triples: &Vec<Triple>) -> (r: Result<Vec<u8>, WriteError>)
    ensures
        all_named(triples.deep_view()) ==> r is Ok,
        match r {
            Ok(bytes) => all_named(triples.deep_view()) && bytes@ == rdf_xml_document(
                statements(triples.deep_view()),
            ),
            Err(e) => !all_named(triples.deep_view()) && e is Unsupported,
        },
{
    let ghost all = triples.deep_view();
    let mut f = match open_formatter() {
        Ok(f) => f,
        Err(e) => {
            return Err(WriteError::Io(e));
        },
    };
    let mut i: usize = 0;
    proof {
        assert(statements(all).take(0) =~= Seq::<(Seq<char>, Seq<char>, Seq<char>)>::empty());
    }
    while i < triples.len()
        invariant
            i <= triples.len(),
            all == triples.deep_view(),
            forall|j: int| 0 <= j < i ==> is_named(#[trigger] all[j]),
            written(f) == statements(all).take(i as int),
        decreases triples.len() - i,
    {
        let t = &triples[i];
        assert(t.deep_view() == all[i as int]);
        match (node_text(&t.subject), node_text(&t.predicate), node_text(&t.object)) {
            (Some(s), Some(p), Some(o)) => {
                match format_named(&mut f, s, p, o) {
                    Ok(()) => {},
                    Err(e) => {
                        return Err(WriteError::Io(e));
                    },
                }
                assert(statements(all).take(i as int + 1) =~= statements(all).take(
                    i as int,
                ).push(statement(all[i as int])));
            },
            _ => {
                assert(!is_named(all[i as int]));
                return Err(WriteError::Unsupported);
            },
        }
        i += 1;
    }
    proof {
        assert(statements(all).take(i as int) =~= statements(all));
    }
    match finish_formatter(f) {
        Ok(bytes) => Ok(bytes),
        Err(e) => Err(WriteError::Io(e)),
    }
}

/// Every triple that renders an ontology is one of named nodes.
pub proof fn lemma_rendered_named(o: OntologyView)
    ensures
        all_named(rendered(o)),
{
    match o.id.iri {
        Some(iri) => {
            lemma_imports_named(iri, o.axioms);
            let head = header_triples(o.id);
            let more = import_triples(iri, o.axioms);
            assert forall|i: int| 0 <= i < (head + more).len() implies is_named(
                #[trigger] (head + more)[i],
            ) by {
                if i >= head.len() {
                    assert(is_named(more[i - head.len()]));
                }
            }
        },
        None => {},
    }
}

/// Every triple that states an import is one of named nodes.
pub proof fn lemma_imports_named(iri: Seq<char>, axioms: Seq<AnnotatedAxiomView>)
    ensures
        all_named(import_triples(iri, axioms)),
    decreases axioms.len(),
{
    if axioms.len() > 0 {
        lemma_imports_named(iri, axioms.drop_last());
        let front = import_triples(iri, axioms.drop_last());
        let all = import_triples(iri, axioms);
        assert forall|i: int| 0 <= i < all.len() implies is_named(#[trigger] all[i]) by {
            if i < front.len() {
                assert(is_named(front[i]));
            }
        }
    }
}

/// Writes the ontology as an RDF/XML document: the document of the triples that
/// render the ontology.
pub fn write(ont: &Ontology) -> (r: Result<Vec<u8>, WriteError>)
    ensures
        r is Ok,
        r->Ok_0@ == rdf_xml_document(statements(rendered(ont.deep_view()))),
{
    let triples = render(ont);
    proof {
        lemma_rendered_named(ont.deep_view());
    }
    write_triples(&triples)
}

} // verus!
