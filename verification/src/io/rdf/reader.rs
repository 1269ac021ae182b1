//! Reading an ontology from RDF.
//!
//! A parse classifies the terms of the triples, puts the triples into canonical
//! order and groups them: the simple triples are then sorted, and so is each
//! bucket. The stages follow in a fixed order: sequences, annotations of
//! axioms, header, declarations, annotation assertions, data ranges, object
//! property expressions, class expressions, axioms. The result does not depend
//! on the order in which the triples were given.

use crate::io::rdf::classes::after_class_expressions;
use crate::io::rdf::declare::{after_declarations, after_simple_annotations};
use crate::io::rdf::parser::{grouped, initial, Buckets, OntologyParser, ParserView, Pending};
use crate::io::rdf::ranges::{after_data_ranges, after_object_property_expressions};
use crate::io::rdf::recognise::after_axioms;
use crate::io::rdf::reify::{after_axiom_annotations, after_headers};
use crate::io::rdf::resolve::{Tables, TablesView};
use crate::io::rdf::screen::{is_supported, supported};
use crate::io::rdf::sequences::stitched;
use crate::io::rdf::sort::{
    canonical, lemma_canonical, lemma_canonical_of_permutation, lemma_grouped_sorted, sort_triples,
    sorted_collections,
};
use crate::io::rdf::term::{
    classify_triple, to_triple, triple_copy, LiteralKind, Term, Triple, TripleView,
};
use crate::model::entity::{Build, IRI};
use crate::model::literal::Annotation;
use crate::ontology::Ontology;
use sophia::parser::xml::{parse_bufread, XmlParserError};
use sophia::term::{LiteralKind as Kind, Term as Node};
use std::rc::Rc;
use vstd::multiset::Multiset;
use vstd::prelude::*;

verus! {

/// What a parse left in its working collections.
#[derive(Debug)]
pub struct Residual {
    /// Triples that no stage recognised and whose subject is no blank node.
    pub simple: Vec<Triple>,
    /// Triples that no stage recognised, by the blank node that is their subject.
    pub bnode: Vec<(String, Vec<Triple>)>,
    /// Sequences and expressions that no parent took.
    pub tables: Tables,
    /// Annotations whose triple was not recognised.
    pub ann_map: Vec<(Triple, Vec<Annotation>)>,
}

/// The mathematical value of [`Residual`].
pub struct ResidualView {
    pub simple: Seq<TripleView>,
    pub bnode: Buckets,
    pub tables: TablesView,
    pub ann_map: Pending,
}

impl DeepView for Residual {
    type V = ResidualView;

    open spec fn deep_view(&self) -> ResidualView {
        ResidualView {
            simple: self.simple.deep_view(),
            bnode: self.bnode.deep_view(),
            tables: self.tables.deep_view(),
            ann_map: self.ann_map.deep_view(),
        }
    }
}

/// Whether nothing was left.
pub open spec fn nothing_left(r: ResidualView) -> bool {
    &&& r.simple.len() == 0
    &&& r.bnode.len() == 0
    &&& r.tables.bnode_seq.len() == 0
    &&& r.tables.class_expression.len() == 0
    &&& r.tables.object_property_expression.len() == 0
    &&& r.tables.data_range.len() == 0
    &&& r.ann_map.len() == 0
}

/// The triples that were left: the simple ones, then those of each bucket.
pub open spec fn leftover(r: ResidualView) -> Seq<TripleView> {
    r.bnode.fold_left(
        r.simple,
        |acc: Seq<TripleView>, e: (Seq<char>, Seq<TripleView>)| acc + e.1,
    )
}

/// Whether the list reports the triples, each as unrecognised.
pub open spec fn reports(errors: Seq<ParseError>, triples: Seq<TripleView>) -> bool {
    &&& errors.len() == triples.len()
    &&& forall|i: int|
        0 <= i < errors.len() ==> (#[trigger] errors[i] matches ParseError::Unrecognised(t)
            && t.deep_view() == triples[i])
}

impl Residual {
    /// A report for each triple that was left: the simple ones first, then those
    /// of each bucket.
    pub fn unrecognised(&self) -> (r: Vec<ParseError>)
        ensures
            reports(r@, leftover(self.deep_view())),
    {
        let ghost step = |acc: Seq<TripleView>, e: (Seq<char>, Seq<TripleView>)| acc + e.1;
        let ghost simple = self.simple.deep_view();
        let ghost buckets = self.bnode.deep_view();
        let mut r: Vec<ParseError> = Vec::new();
        let mut i: usize = 0;
        while i < self.simple.len()
            invariant
                i <= self.simple.len(),
                simple == self.simple.deep_view(),
                reports(r@, simple.take(i as int)),
            decreases self.simple.len() - i,
        {
            r.push(ParseError::Unrecognised(triple_copy(&self.simple[i])));
            i += 1;
        }
        assert(simple.take(i as int) =~= simple);
        assert(buckets.take(0) =~= Seq::<(Seq<char>, Seq<TripleView>)>::empty());
        let mut k: usize = 0;
        while k < self.bnode.len()
            invariant
                k <= self.bnode.len(),
                buckets == self.bnode.deep_view(),
                step == |acc: Seq<TripleView>, e: (Seq<char>, Seq<TripleView>)| acc + e.1,
                reports(r@, buckets.take(k as int).fold_left(simple, step)),
            decreases self.bnode.len() - k,
        {
            let ghost done = buckets.take(k as int).fold_left(simple, step);
            let bucket = &self.bnode[k].1;
            let ghost inner = bucket.deep_view();
            proof {
                assert(buckets.take(k as int + 1).drop_last() =~= buckets.take(k as int));
                assert(buckets.take(k as int + 1).last().1 == inner);
                assert(done + inner.take(0) =~= done);
            }
            let mut j: usize = 0;
            while j < bucket.len()
                invariant
                    j <= bucket.len(),
                    inner == bucket.deep_view(),
                    reports(r@, done + inner.take(j as int)),
                decreases bucket.len() - j,
            {
                r.push(ParseError::Unrecognised(triple_copy(&bucket[j])));
                assert(done + inner.take(j as int + 1) =~= (done + inner.take(j as int)).push(
                    inner[j as int],
                ));
                j += 1;
            }
            assert(inner.take(j as int) =~= inner);
            k += 1;
        }
        assert(buckets.take(k as int) =~= buckets);
        r
    }

    /// Whether the parse consumed everything it was given.
    pub fn is_complete(&self) -> (r: bool)
        ensures
            r == nothing_left(self.deep_view()),
    {
        self.simple.len() == 0 && self.bnode.len() == 0 && self.tables.bnode_seq.len() == 0
            && self.tables.class_expression.len() == 0
            && self.tables.object_property_expression.len() == 0 && self.tables.data_range.len()
            == 0 && self.ann_map.len() == 0
    }
}

/// The triples with each term classified.
pub open spec fn classified(ts: Seq<TripleView>) -> Seq<TripleView> {
    ts.map_values(|t: TripleView| classify_triple(t))
}

/// The state after the triples were classified, sorted and grouped.
pub open spec fn loaded(st: ParserView, ts: Seq<TripleView>) -> ParserView {
    let (simple, bnode) = grouped(canonical(classified(ts)), st.simple, st.bnode);
    ParserView { simple, bnode, ..st }
}

/// The state after every stage ran on a state that holds the grouped triples.
pub open spec fn staged(st: ParserView) -> ParserView {
    after_axioms(
        after_class_expressions(
            after_object_property_expressions(
                after_data_ranges(
                    after_simple_annotations(
                        after_declarations(after_headers(after_axiom_annotations(stitched(st)))),
                    ),
                ),
            ),
        ),
    )
}

/// The state at the end of a parse of the triples `ts`.
pub open spec fn parsed(ts: Seq<TripleView>) -> ParserView {
    staged(loaded(initial(), ts))
}

/// What the final state of a parse leaves: the simple triples that are left are
/// grouped once more, so that those of a blank node stand together.
pub open spec fn residual_of(st: ParserView) -> ResidualView {
    let (simple, bnode) = grouped(st.simple, Seq::empty(), Seq::empty());
    ResidualView { simple, bnode, tables: st.tables, ann_map: st.ann_map }
}

/// The state at the end of a parse of a bag of triples, whatever their order.
pub open spec fn parsed_graph(g: Multiset<TripleView>) -> ParserView {
    parsed(choose|ts: Seq<TripleView>| ts.to_multiset() == g)
}

/// Two sequences that hold the same values, in whatever order, still do so
/// after a function was applied to each value.
pub proof fn lemma_map_of_permutation<A, B>(s: Seq<A>, t: Seq<A>, f: spec_fn(A) -> B)
    requires
        s.to_multiset() == t.to_multiset(),
    ensures
        s.map_values(f).to_multiset() == t.map_values(f).to_multiset(),
    decreases s.len(),
{
    broadcast use vstd::multiset::group_multiset_axioms;
    broadcast use vstd::seq_lib::group_to_multiset_ensures;

    if s.len() == 0 {
        assert(s.to_multiset().len() == s.len());
        assert(t.to_multiset().len() == t.len());
        assert(t.len() == 0);
        assert(s.map_values(f) =~= t.map_values(f));
    } else {
        let x = s.last();
        assert(s.contains(x));
        assert(t.to_multiset().count(x) > 0);
        assert(t.contains(x));
        let i = choose|i: int| 0 <= i < t.len() && t[i] == x;
        let s1 = s.drop_last();
        let t1 = t.remove(i);
        assert(s1 =~= s.remove(s.len() - 1));
        assert(s1.to_multiset() =~= s.to_multiset().remove(x));
        assert(t1.to_multiset() =~= t.to_multiset().remove(x));
        lemma_map_of_permutation(s1, t1, f);
        let sm = s.map_values(f);
        let tm = t.map_values(f);
        assert(s1.map_values(f) =~= sm.remove(sm.len() - 1));
        assert(t1.map_values(f) =~= tm.remove(i));
        assert(sm.to_multiset().remove(sm[sm.len() - 1]) =~= sm.remove(
            sm.len() - 1,
        ).to_multiset());
        assert(tm.to_multiset().remove(tm[i]) =~= tm.remove(i).to_multiset());
        assert(sm.contains(sm[sm.len() - 1]));
        assert(tm.contains(tm[i]));
        assert(sm.to_multiset() =~= sm.to_multiset().remove(f(x)).insert(f(x)));
        assert(tm.to_multiset() =~= tm.to_multiset().remove(f(x)).insert(f(x)));
    }
}

/// A parse does not depend on the order of the triples: two sequences that hold
/// the same triples end in the same state.
pub proof fn lemma_order_independence(s: Seq<TripleView>, t: Seq<TripleView>)
    requires
        s.to_multiset() == t.to_multiset(),
    ensures
        parsed(s) == parsed(t),
{
    lemma_map_of_permutation(s, t, |t: TripleView| classify_triple(t));
    lemma_canonical_of_permutation(classified(s), classified(t));
}

/// The stages start on sorted collections: the simple triples are sorted, and
/// so is each bucket.
pub proof fn lemma_loaded_sorted(ts: Seq<TripleView>)
    ensures
        sorted_collections(loaded(initial(), ts).simple, loaded(initial(), ts).bnode),
{
    lemma_canonical(classified(ts));
    lemma_grouped_sorted(canonical(classified(ts)));
}

/// The parse of a sequence of triples is the parse of the bag that it holds.
pub proof fn lemma_parsed_graph(s: Seq<TripleView>)
    ensures
        parsed(s) == parsed_graph(s.to_multiset()),
{
    let t = choose|ts: Seq<TripleView>| ts.to_multiset() == s.to_multiset();
    lemma_order_independence(s, t);
}

impl<'a> OntologyParser<'a> {
    /// Classifies the terms of every triple.
    pub fn classify_all(triple: Vec<Triple>) -> (r: Vec<Triple>)
        ensures
            r.deep_view() == classified(triple.deep_view()),
    {
        let mut r: Vec<Triple> = Vec::new();
        let mut i: usize = 0;
        while i < triple.len()
            invariant
                i <= triple.len(),
                r.len() == i,
                forall|j: int|
                    0 <= j < i ==> r.deep_view()[j] == classify_triple(triple.deep_view()[j]),
            decreases triple.len() - i,
        {
            let ghost rv = r.deep_view();
            let t = to_triple(&triple[i]);
            let ghost tv = t.deep_view();
            r.push(t);
            assert(r.deep_view() =~= rv.push(tv));
            i += 1;
        }
        assert(r.deep_view() =~= classified(triple.deep_view()));
        r
    }

    /// Runs every stage on the triples and returns the ontology with what was
    /// left over.
    pub fn read(self, triple: Vec<Triple>) -> (r: (Ontology, Residual))
        ensures
            r.0.deep_view() == staged(loaded(self.deep_view(), triple.deep_view())).o,
            r.1.deep_view() == residual_of(
                staged(loaded(self.deep_view(), triple.deep_view())),
            ),
    {
        let mut p = self;
        let triple = sort_triples(Self::classify_all(triple));
        Self::group_triples(triple, &mut p.simple, &mut p.bnode);
        p.stitch_seqs();
        p.axiom_annotations();
        p.resolve_imports();
        p.backward_compat();
        p.headers();
        p.declarations();
        p.simple_annotations();
        p.data_ranges();
        p.object_property_expressions();
        p.class_expressions();
        p.axioms();
        let mut simple_left: Vec<Triple> = Vec::new();
        let mut bnode_left: Vec<(String, Vec<Triple>)> = Vec::new();
        assert(simple_left.deep_view() =~= Seq::<TripleView>::empty());
        assert(bnode_left.deep_view() =~= Seq::<(Seq<char>, Seq<TripleView>)>::empty());
        Self::group_triples(p.simple, &mut simple_left, &mut bnode_left);
        (
            p.o,
            Residual {
                simple: simple_left,
                bnode: bnode_left,
                tables: p.tables,
                ann_map: p.ann_map,
            },
        )
    }
}

/// Parses a bag of triples into an ontology. Returns the ontology and what the
/// parse could not consume.
pub fn parse(triples: Vec<Triple>, build: &Build) -> (r: (Ontology, Residual))
    ensures
        r.0.deep_view() == parsed(triples.deep_view()).o,
        r.1.deep_view() == residual_of(parsed(triples.deep_view())),
{
    OntologyParser::new(build).read(triples)
}

/// What can go wrong when an ontology is read.
#[derive(Debug)]
pub enum ParseError {
    /// The document is not well-formed RDF/XML.
    SyntaxError(XmlParserError),
    /// The document is outside what the screen admits, so it was not handed to
    /// the parser.
    Unsupported,
    /// The text is no IRI.
    InvalidIRI(String),
    /// No stage recognised the triple.
    Unrecognised(Triple),
}

/// The error with which `sophia` refuses a document.
#[verifier::external_type_specification]
#[verifier::external_body]
pub struct ExXmlParserError(XmlParserError);

/// The prefix mapping of `curie`.
#[verifier::external_type_specification]
#[verifier::external_body]
pub struct ExPrefixMapping(curie::PrefixMapping);

/// The bag of triples that an RDF/XML document states, if the document is
/// well-formed.
pub uninterp spec fn rdf_xml_graph(bytes: Seq<u8>) -> Option<Multiset<TripleView>>;

/// Reads the triples of an RDF/XML document with `sophia::parser::xml::parse_bufread`
/// and copies each term into a term of this library, variant by variant: the
/// text of an IRI, the label of a blank node, the lexical form of a literal with
/// its language tag or the IRI of its datatype, the name of a variable.
///
/// The triples of a document come in no fixed order, so the contract speaks of
/// the bag of them only: a well-formed document gives the triples of its bag, and
/// any other gives the error of the parser.
///
/// The parser does not return on every document: it stops in the states
/// `Literal` and `CollectionItem`, empties its stack of open nodes after a
/// property with content that leaves the state `Res` or `Resource` behind, and
/// cuts names at character counts. The screen leaves out every document that
/// could reach one of these; on the documents that it admits each start tag
/// pushes one state and one scope, each end tag takes one, and the stack of
/// open nodes never runs out. Names and IRIs stand in tags, which the screen
/// keeps in ASCII. The text between two tags is used as the lexical form of a
/// literal and for nothing else; a text that is no UTF-8, or that refers to no
/// character, gives the error of the parser.
#[verifier::external_body]
fn parse_rdf_xml(bytes: &[u8]) -> (r: Result<Vec<Triple>, XmlParserError>)
    requires
        supported(bytes@),
    ensures
        match r {
            Ok(v) => rdf_xml_graph(bytes@) == Some(v.deep_view().to_multiset()),
            Err(_) => rdf_xml_graph(bytes@) is None,
        },
{
    let term = |t: Node<Rc<str>>| match t {
        Node::Iri(i) => Term::Iri(IRI(i.to_string())),
        Node::BNode(b) => Term::BNode(b.to_string()),
        Node::Literal(v, k) => Term::Literal(v.to_string(), match k {
            Kind::Lang(l) => LiteralKind::Lang(l.to_string()),
            Kind::Datatype(d) => LiteralKind::Datatype(IRI(d.to_string())),
        }),
        Node::Variable(v) => Term::Variable(v.to_string()),
    };
    parse_bufread(bytes).map(|r| r.map(|t| {
        let [subject, predicate, object] = t.map(term);
        Triple { subject, predicate, object }
    })).collect()
}

/// The prefixes that a mapping holds, each with its expansion, in the order in
/// which they were added.
pub uninterp spec fn prefixes(m: curie::PrefixMapping) -> Seq<(Seq<char>, Seq<char>)>;

/// The expansion that a mapping gives to a name without a prefix, if it gives one.
pub uninterp spec fn default_prefix(m: curie::PrefixMapping) -> Option<Seq<char>>;

/// Whether a mapping holds no prefix and gives no expansion to a name without one.
pub open spec fn is_empty_mapping(m: curie::PrefixMapping) -> bool {
    prefixes(m) == Seq::<(Seq<char>, Seq<char>)>::empty() && default_prefix(m) is None
}

/// A prefix mapping from `curie::PrefixMapping::default`: it holds no prefix and
/// no default.
#[verifier::external_body]
fn no_prefixes() -> (r: curie::PrefixMapping)
    ensures
        prefixes(r) == Seq::<(Seq<char>, Seq<char>)>::empty(),
        default_prefix(r) is None,
{
    curie::PrefixMapping::default()
}

/// What reading a document gives: a document that the screen does not admit is
/// unsupported; of the others, a well-formed one gives what `found` says of the
/// bag of its triples, and any other is a syntax error.
pub open spec fn read_outcome<T>(
    bytes: Seq<u8>,
    r: Result<T, ParseError>,
    found: spec_fn(T, Multiset<TripleView>) -> bool,
) -> bool {
    match r {
        Ok(v) => supported(bytes) && rdf_xml_graph(bytes) is Some && found(
            v,
            rdf_xml_graph(bytes)->0,
        ),
        Err(e) => if supported(bytes) {
            rdf_xml_graph(bytes) is None && e is SyntaxError
        } else {
            e is Unsupported
        },
    }
}

/// Reads the triples of an RDF/XML document. A document that the screen admits
/// and that is well-formed gives the triples of the bag that it states, in some
/// order.
pub fn triples(bytes: &[u8]) -> (r: Result<Vec<Triple>, ParseError>)
    ensures
        read_outcome(
            bytes@,
            r,
            |v: Vec<Triple>, g: Multiset<TripleView>| v.deep_view().to_multiset() == g,
        ),
{
    if !is_supported(bytes) {
        return Err(ParseError::Unsupported);
    }
    match parse_rdf_xml(bytes) {
        Ok(v) => Ok(v),
        Err(e) => Err(ParseError::SyntaxError(e)),
    }
}

/// Reads an ontology from the bytes of an RDF/XML document, making IRIs with
/// `build`. A document that the screen admits and that is well-formed gives the
/// ontology that the parse of its triples ends with, and an empty prefix
/// mapping.
pub fn read_with_build(bytes: &[u8], build: &Build) -> (r: Result<
    (Ontology, curie::PrefixMapping),
    ParseError,
>)
    ensures
        read_outcome(
            bytes@,
            r,
            |v: (Ontology, curie::PrefixMapping), g: Multiset<TripleView>|
                v.0.deep_view() == parsed_graph(g).o && is_empty_mapping(v.1),
        ),
{
    match triples(bytes) {
        Ok(v) => {
            proof {
                lemma_parsed_graph(v.deep_view());
            }
            let (o, _) = parse(v, build);
            Ok((o, no_prefixes()))
        },
        Err(e) => Err(e),
    }
}

/// Reads an ontology from the bytes of an RDF/XML document.
pub fn read(bytes: &[u8]) -> (r: Result<(Ontology, curie::PrefixMapping), ParseError>)
    ensures
        read_outcome(
            bytes@,
            r,
            |v: (Ontology, curie::PrefixMapping), g: Multiset<TripleView>|
                v.0.deep_view() == parsed_graph(g).o && is_empty_mapping(v.1),
        ),
{
    let b = Build::new();
    read_with_build(bytes, &b)
}

} // verus!
