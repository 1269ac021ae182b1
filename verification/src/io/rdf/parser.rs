//! The state of a parse: the ontology under construction and the working
//! collections that the stages drain.

use crate::io::rdf::resolve::{empty_tables, literal_of, to_literal, Tables, TablesView};
use crate::io::rdf::table::{keys, position};
use crate::io::rdf::term::{Term, TermView, Triple, TripleView};
use crate::model::entity::{iri_copy, AnnotationProperty, Build};
use crate::model::literal::{Annotation, AnnotationValue, AnnotationValueView, AnnotationView};
use crate::model::set::{vec_insert, with_member};
use crate::ontology::{Ontology, OntologyIDView, OntologyView};
use crate::search::first_index;
use vstd::prelude::*;

verus! {

/// The triples of the blank nodes: each entry holds a label and the triples
/// whose subject is the blank node with that label.
pub type Buckets = Seq<(Seq<char>, Seq<TripleView>)>;

/// The annotations that wait for a triple to be recognised.
pub type Pending = Seq<(TripleView, Seq<AnnotationView>)>;

/// A parse in progress.
#[derive(Debug)]
pub struct OntologyParser<'a> {
    /// The ontology built so far.
    pub o: Ontology,
    /// The factory of IRIs.
    pub b: &'a Build,
    /// The triples whose subject is no blank node.
    pub simple: Vec<Triple>,
    /// The triples of each blank node.
    pub bnode: Vec<(String, Vec<Triple>)>,
    /// Sequences and rebuilt expressions.
    pub tables: Tables,
    /// Annotations of reified triples.
    pub ann_map: Vec<(Triple, Vec<Annotation>)>,
}

/// The mathematical value of [`OntologyParser`].
pub struct ParserView {
    pub o: OntologyView,
    pub simple: Seq<TripleView>,
    pub bnode: Buckets,
    pub tables: TablesView,
    pub ann_map: Pending,
}

impl<'a> DeepView for OntologyParser<'a> {
    type V = ParserView;

    open spec fn deep_view(&self) -> ParserView {
        ParserView {
            o: self.o.deep_view(),
            simple: self.simple.deep_view(),
            bnode: self.bnode.deep_view(),
            tables: self.tables.deep_view(),
            ann_map: self.ann_map.deep_view(),
        }
    }
}

/// The state in which a parse starts.
pub open spec fn initial() -> ParserView {
    ParserView {
        o: OntologyView {
            id: OntologyIDView { iri: None, viri: None },
            axioms: Seq::empty(),
        },
        simple: Seq::empty(),
        bnode: Seq::empty(),
        tables: empty_tables(),
        ann_map: Seq::empty(),
    }
}

/// Whether nothing is left in the working collections.
pub open spec fn drained(st: ParserView) -> bool {
    &&& st.simple.len() == 0
    &&& st.bnode.len() == 0
    &&& st.tables.bnode_seq.len() == 0
    &&& st.tables.class_expression.len() == 0
    &&& st.tables.object_property_expression.len() == 0
    &&& st.tables.data_range.len() == 0
    &&& st.ann_map.len() == 0
}

/// The IRI of the property that the predicate of an annotation names: a token
/// of the OWL or RDF Schema vocabulary stands for its canonical IRI.
pub open spec fn annotation_property_of(p: TermView) -> Option<Seq<char>> {
    match p {
        TermView::RDFS(v) => Some(v.iri_text()),
        TermView::OWL(v) => Some(v.iri_text()),
        TermView::Iri(i) => Some(i),
        _ => None,
    }
}

/// The value that the object of an annotation gives: a literal or an IRI.
pub open spec fn annotation_value_of(t: TermView) -> Option<AnnotationValueView> {
    match t {
        TermView::Literal(_, _) => match literal_of(t) {
            Some(l) => Some(AnnotationValueView::Literal(l)),
            None => None,
        },
        TermView::Iri(i) => Some(AnnotationValueView::IRI(i)),
        _ => None,
    }
}

/// The annotation that a triple states of its subject.
pub open spec fn annotation_of(t: TripleView) -> Option<AnnotationView> {
    match (annotation_property_of(t.predicate), annotation_value_of(t.object)) {
        (Some(ap), Some(av)) => Some(AnnotationView { ap, av }),
        _ => None,
    }
}

/// The annotations that a list of triples states, each once, in the order of
/// their first occurrence: all of them, or nothing.
pub open spec fn annotations_in(ts: Seq<TripleView>) -> Option<Seq<AnnotationView>>
    decreases ts.len(),
{
    if ts.len() == 0 {
        Some(Seq::empty())
    } else {
        match (annotations_in(ts.drop_last()), annotation_of(ts.last())) {
            (Some(front), Some(a)) => Some(with_member(front, a)),
            _ => None,
        }
    }
}

/// The annotation that a triple states of its subject.
pub fn annotation(b: &Build, t: &Triple) -> (r: Option<Annotation>)
    ensures
        r.deep_view() == annotation_of(t.deep_view()),
{
    let ap = match &t.predicate {
        Term::RDFS(v) => b.iri(v.iri_str()),
        Term::OWL(v) => b.iri(v.iri_str()),
        Term::Iri(p) => iri_copy(p),
        _ => {
            return None;
        },
    };
    let av = match &t.object {
        Term::Literal(_, _) => match to_literal(b, &t.object) {
            Some(l) => AnnotationValue::Literal(l),
            None => {
                return None;
            },
        },
        Term::Iri(ob) => AnnotationValue::IRI(iri_copy(ob)),
        _ => {
            return None;
        },
    };
    Some(Annotation { ap: AnnotationProperty(ap), av })
}

/// The annotations that the triples from position `from` on state.
pub fn parse_annotations(b: &Build, triples: &Vec<Triple>, from: usize) -> (r: Option<
    Vec<Annotation>,
>)
    requires
        from <= triples.len(),
    ensures
        r.deep_view() == annotations_in(triples.deep_view().skip(from as int)),
{
    let ghost all = triples.deep_view().skip(from as int);
    let mut out: Vec<Annotation> = Vec::new();
    let mut ok = true;
    let mut i: usize = from;
    proof {
        assert(all.take(0) =~= Seq::<TripleView>::empty());
        assert(out.deep_view() =~= Seq::<AnnotationView>::empty());
    }
    while i < triples.len()
        invariant
            from <= i <= triples.len(),
            all == triples.deep_view().skip(from as int),
            annotations_in(all.take(i - from)) == (if ok {
                Some(out.deep_view())
            } else {
                None
            }),
        decreases triples.len() - i,
    {
        proof {
            assert(all.take(i - from + 1).drop_last() =~= all.take(i - from));
            assert(all.take(i - from + 1).last() == triples@[i as int].deep_view());
        }
        match annotation(b, &triples[i]) {
            Some(a) => {
                if ok {
                    vec_insert(&mut out, a);
                }
            },
            None => {
                ok = false;
            },
        }
        i += 1;
    }
    proof {
        assert(all.take(i - from) =~= all);
    }
    if ok {
        Some(out)
    } else {
        None
    }
}

/// The buckets after the triple `t` of the blank node `id` was added: at the end
/// of the first bucket with that label, or in a new last bucket.
pub open spec fn add_to_bucket(b: Buckets, id: Seq<char>, t: TripleView) -> Buckets {
    match first_index(keys(b), id) {
        Some(i) => b.update(i, (b[i].0, b[i].1.push(t))),
        None => b.push((id, seq![t])),
    }
}

/// The two collections after one triple was grouped.
pub open spec fn group_step(acc: (Seq<TripleView>, Buckets), t: TripleView) -> (
    Seq<TripleView>,
    Buckets,
) {
    match t.subject {
        TermView::BNode(id) => (acc.0, add_to_bucket(acc.1, id, t)),
        _ => (acc.0.push(t), acc.1),
    }
}

/// The two collections after the triples were grouped, each in its turn: a
/// triple whose subject is a blank node joins the bucket of that blank node,
/// any other joins the simple triples.
pub open spec fn grouped(triples: Seq<TripleView>, simple: Seq<TripleView>, bnode: Buckets) -> (
    Seq<TripleView>,
    Buckets,
) {
    triples.fold_left((simple, bnode), |acc: (Seq<TripleView>, Buckets), t: TripleView|
        group_step(acc, t))
}

impl<'a> OntologyParser<'a> {
    /// A parse that has not seen a triple yet.
    pub fn new(b: &'a Build) -> (r: OntologyParser<'a>)
        ensures
            r.deep_view() == initial(),
    {
        let r = OntologyParser {
            o: Ontology::new(),
            b,
            simple: Vec::new(),
            bnode: Vec::new(),
            tables: Tables::new(),
            ann_map: Vec::new(),
        };
        assert(r.deep_view().simple =~= Seq::<TripleView>::empty());
        assert(r.deep_view().bnode =~= Seq::<(Seq<char>, Seq<TripleView>)>::empty());
        assert(r.deep_view().ann_map =~= Seq::<(TripleView, Seq<AnnotationView>)>::empty());
        r
    }

    /// Groups the triples: those of a blank node into its bucket, the others
    /// into the simple triples.
    pub fn group_triples(
        triple: Vec<Triple>,
        simple: &mut Vec<Triple>,
        bnode: &mut Vec<(String, Vec<Triple>)>,
    )
        ensures
            (final(simple).deep_view(), final(bnode).deep_view()) == grouped(
                triple.deep_view(),
                old(simple).deep_view(),
                old(bnode).deep_view(),
            ),
    {
        let ghost all = triple.deep_view();
        let ghost items = triple@;
        let ghost s0 = simple.deep_view();
        let ghost b0 = bnode.deep_view();
        let ghost step = |acc: (Seq<TripleView>, Buckets), t: TripleView| group_step(acc, t);
        proof {
            assert(all.take(0) =~= Seq::<TripleView>::empty());
        }
        for t in it: triple
            invariant
                it.seq() == items,
                all.len() == items.len(),
                forall|j: int| 0 <= j < items.len() ==> all[j] == items[j].deep_view(),
                step == |acc: (Seq<TripleView>, Buckets), t: TripleView| group_step(acc, t),
                (simple.deep_view(), bnode.deep_view()) == all.take(it.index() as int).fold_left(
                    (s0, b0),
                    step,
                ),
        {
            let ghost i = it.index() as int;
            let ghost sv = simple.deep_view();
            let ghost bv = bnode.deep_view();
            let ghost tv = t.deep_view();
            proof {
                assert(all.take(i + 1).drop_last() =~= all.take(i));
                assert(all.take(i + 1).last() == tv);
            }
            let found = match &t.subject {
                Term::BNode(id) => Some(position(bnode, id.as_str())),
                _ => None,
            };
            match found {
                Some(Some(k)) => {
                    bnode[k].1.push(t);
                    proof {
                        assert(bnode.deep_view()[k as int].1 =~= bv[k as int].1.push(tv));
                        assert(bnode.deep_view() =~= bv.update(
                            k as int,
                            (bv[k as int].0, bv[k as int].1.push(tv)),
                        ));
                    }
                },
                Some(None) => {
                    let label = match &t.subject {
                        Term::BNode(id) => id.clone(),
                        _ => String::new(),
                    };
                    let ghost lv = label@;
                    let mut bucket: Vec<Triple> = Vec::new();
                    bucket.push(t);
                    assert(bucket.deep_view() =~= seq![tv]);
                    bnode.push((label, bucket));
                    assert(bnode.deep_view() =~= bv.push((lv, seq![tv])));
                },
                None => {
                    simple.push(t);
                    assert(simple.deep_view() =~= sv.push(tv));
                },
            }
        }
        proof {
            assert(all.take(all.len() as int) =~= all);
        }
    }
}

} // verus!
