//! Data ranges and object property expressions among the buckets.

use crate::io::rdf::parser::{OntologyParser, ParserView};
use crate::io::rdf::resolve::{
    iri_of, resolve_dr, resolve_dr_seq, resolve_literal_seq, to_iri, TablesView,
};
use crate::io::rdf::sequences::{is_owl, is_rdf, is_rdfs, keep, no_buckets};
use crate::io::rdf::table::{put, with_entry};
use crate::io::rdf::term::{Term, TermView, Triple, TripleView};
use crate::model::entity::{IRI, ObjectProperty};
use crate::model::expression::{
    lemma_data_range_lists, DataRange, DataRangeView, ObjectPropertyExpression,
    ObjectPropertyExpressionView,
};
use crate::vocab::{OWL, RDF, RDFS};
use vstd::prelude::*;

verus! {

/// The state with the tables replaced.
pub open spec fn with_tables(st: ParserView, tables: TablesView) -> ParserView {
    ParserView { tables, ..st }
}

/// The data range that a bucket encodes, and the tables after its parts were
/// taken. The bucket has two triples: the first gives the constructor and its
/// argument, the second types the blank node as a datatype.
pub open spec fn build_dr(tb: TablesView, v: Seq<TripleView>) -> (
    Option<DataRangeView>,
    TablesView,
) {
    if v.len() == 2 && v[1].predicate == TermView::RDF(RDF::Type) && v[1].object == TermView::RDFS(
        RDFS::Datatype,
    ) {
        if v[0].predicate == TermView::OWL(OWL::IntersectionOf) {
            match v[0].object {
                TermView::BNode(id) => {
                    let (r, tb1) = resolve_dr_seq(tb, id);
                    (
                        match r {
                            Some(s) => Some(DataRangeView::DataIntersectionOf(s)),
                            None => None,
                        },
                        tb1,
                    )
                },
                _ => (None, tb),
            }
        } else if v[0].predicate == TermView::OWL(OWL::UnionOf) {
            match v[0].object {
                TermView::BNode(id) => {
                    let (r, tb1) = resolve_dr_seq(tb, id);
                    (
                        match r {
                            Some(s) => Some(DataRangeView::DataUnionOf(s)),
                            None => None,
                        },
                        tb1,
                    )
                },
                _ => (None, tb),
            }
        } else if v[0].predicate == TermView::OWL(OWL::DatatypeComplementOf) {
            let (r, tb1) = resolve_dr(tb, v[0].object);
            (
                match r {
                    Some(d) => Some(DataRangeView::DataComplementOf(Box::new(d))),
                    None => None,
                },
                tb1,
            )
        } else if v[0].predicate == TermView::OWL(OWL::OneOf) {
            match v[0].object {
                TermView::BNode(id) => {
                    let (r, tb1) = resolve_literal_seq(tb, id);
                    (
                        match r {
                            Some(s) => Some(DataRangeView::DataOneOf(s)),
                            None => None,
                        },
                        tb1,
                    )
                },
                _ => (None, tb),
            }
        } else {
            (None, tb)
        }
    } else {
        (None, tb)
    }
}

/// One bucket of a pass: a bucket that encodes a data range is replaced by an
/// entry in the table of data ranges, and its parts leave the tables; any other
/// is kept, and the tables stay as they were.
pub open spec fn range_step(acc: (ParserView, bool), e: (Seq<char>, Seq<TripleView>)) -> (
    ParserView,
    bool,
) {
    let (r, tb1) = build_dr(acc.0.tables, e.1);
    match r {
        Some(dr) => (
            with_tables(
                acc.0,
                TablesView { data_range: with_entry(tb1.data_range, e.0, dr), ..tb1 },
            ),
            true,
        ),
        None => (keep(acc.0, e), acc.1),
    }
}

/// The state after one pass, and whether the pass built a data range.
pub open spec fn ranged_once(st: ParserView) -> (ParserView, bool) {
    st.bnode.fold_left(
        (no_buckets(st), false),
        |acc: (ParserView, bool), e: (Seq<char>, Seq<TripleView>)| range_step(acc, e),
    )
}

/// The state after the data ranges were rebuilt: passes go on while one builds
/// a data range.
pub open spec fn after_data_ranges(st: ParserView) -> ParserView
    decreases st.bnode.len(),
{
    let (st1, grew) = ranged_once(st);
    if grew && st1.bnode.len() < st.bnode.len() {
        after_data_ranges(st1)
    } else {
        st1
    }
}

/// After `k` buckets of a pass at most `k` are left over, and fewer if a data
/// range was built.
pub proof fn lemma_range_prefix(st: ParserView, k: int)
    requires
        0 <= k <= st.bnode.len(),
    ensures
        ({
            let r = st.bnode.take(k).fold_left(
                (no_buckets(st), false),
                |acc: (ParserView, bool), e: (Seq<char>, Seq<TripleView>)| range_step(acc, e),
            );
            r.0.bnode.len() <= k && (r.1 ==> r.0.bnode.len() < k)
        }),
    decreases k,
{
    if k > 0 {
        lemma_range_prefix(st, k - 1);
        assert(st.bnode.take(k).drop_last() =~= st.bnode.take(k - 1));
    }
}

/// The property that a triple inverts: the triple of a blank node that states
/// `owl:inverseOf` of a named property.
pub open spec fn inverse_of(t: TripleView) -> Option<Seq<char>> {
    if t.subject is BNode && t.predicate == TermView::OWL(OWL::InverseOf) {
        iri_of(t.object)
    } else {
        None
    }
}

/// One triple of a bucket: an inversion is noted, any other triple is kept.
pub open spec fn split_step(acc: (Option<Seq<char>>, Seq<TripleView>), t: TripleView) -> (
    Option<Seq<char>>,
    Seq<TripleView>,
) {
    match inverse_of(t) {
        Some(i) => (Some(i), acc.1),
        None => (acc.0, acc.1.push(t)),
    }
}

/// The property that the bucket inverts last, and its other triples.
pub open spec fn split_inverse(v: Seq<TripleView>) -> (Option<Seq<char>>, Seq<TripleView>) {
    v.fold_left(
        (None, Seq::empty()),
        |acc: (Option<Seq<char>>, Seq<TripleView>), t: TripleView| split_step(acc, t),
    )
}

/// One bucket: an inversion becomes an entry in the table of object property
/// expressions, and the other triples of the bucket are kept if there are any.
pub open spec fn ope_step(st: ParserView, e: (Seq<char>, Seq<TripleView>)) -> ParserView {
    let (inv, rest) = split_inverse(e.1);
    let st1 = match inv {
        Some(i) => with_tables(
            st,
            TablesView {
                object_property_expression: with_entry(
                    st.tables.object_property_expression,
                    e.0,
                    ObjectPropertyExpressionView::InverseObjectProperty(i),
                ),
                ..st.tables
            },
        ),
        None => st,
    };
    if rest.len() > 0 {
        keep(st1, (e.0, rest))
    } else {
        st1
    }
}

/// The state after the object property expressions were rebuilt.
pub open spec fn after_object_property_expressions(st: ParserView) -> ParserView {
    st.bnode.fold_left(no_buckets(st), |s: ParserView, e: (Seq<char>, Seq<TripleView>)|
        ope_step(s, e))
}

/// The label of a blank node, if the term is one.
pub fn bnode_label(t: &Term) -> (r: Option<&String>)
    ensures
        match r {
            Some(id) => t.deep_view() == TermView::BNode(id@),
            None => !(t.deep_view() is BNode),
        },
{
    match t {
        Term::BNode(id) => Some(id),
        _ => None,
    }
}

/// The property that a triple inverts.
pub fn as_inverse(t: &Triple) -> (r: Option<IRI>)
    ensures
        r.deep_view() == inverse_of(t.deep_view()),
{
    if bnode_label(&t.subject).is_some() && is_owl(&t.predicate, OWL::InverseOf) {
        to_iri(&t.object)
    } else {
        None
    }
}

impl<'a> OntologyParser<'a> {
    /// The data range that a bucket encodes.
    pub fn as_data_range(&mut self, v: &Vec<Triple>) -> (r: Option<DataRange>)
        ensures
            (r.deep_view(), final(self).deep_view().tables) == build_dr(
                old(self).deep_view().tables,
                v.deep_view(),
            ),
            final(self).deep_view() == with_tables(
                old(self).deep_view(),
                final(self).deep_view().tables,
            ),
    {
        if v.len() == 2 && is_rdf(&v[1].predicate, RDF::Type) && is_rdfs(
            &v[1].object,
            RDFS::Datatype,
        ) {
            if is_owl(&v[0].predicate, OWL::IntersectionOf) {
                match bnode_label(&v[0].object) {
                    Some(id) => match self.tables.to_dr_seq(id.as_str()) {
                        Some(s) => {
                            proof {
                                lemma_data_range_lists(s);
                            }
                            Some(DataRange::DataIntersectionOf(s))
                        },
                        None => None,
                    },
                    None => None,
                }
            } else if is_owl(&v[0].predicate, OWL::UnionOf) {
                match bnode_label(&v[0].object) {
                    Some(id) => match self.tables.to_dr_seq(id.as_str()) {
                        Some(s) => {
                            proof {
                                lemma_data_range_lists(s);
                            }
                            Some(DataRange::DataUnionOf(s))
                        },
                        None => None,
                    },
                    None => None,
                }
            } else if is_owl(&v[0].predicate, OWL::DatatypeComplementOf) {
                match self.tables.to_dr(&v[0].object) {
                    Some(d) => Some(DataRange::DataComplementOf(Box::new(d))),
                    None => None,
                }
            } else if is_owl(&v[0].predicate, OWL::OneOf) {
                match bnode_label(&v[0].object) {
                    Some(id) => match self.tables.to_literal_seq(self.b, id.as_str()) {
                        Some(s) => Some(DataRange::DataOneOf(s)),
                        None => None,
                    },
                    None => None,
                }
            } else {
                None
            }
        } else {
            None
        }
    }

    /// Rebuilds the data ranges that the buckets encode, innermost first, until
    /// a pass over the buckets builds none.
    pub fn data_ranges(&mut self)
        ensures
            final(self).deep_view() == after_data_ranges(old(self).deep_view()),
        decreases old(self).bnode.len(),
    {
        let ghost st = self.deep_view();
        let mut grew = false;
        let buckets = self.take_buckets();
        let ghost all = buckets.deep_view();
        let ghost items = buckets@;
        let ghost step = |acc: (ParserView, bool), e: (Seq<char>, Seq<TripleView>)|
            range_step(acc, e);
        proof {
            assert(all.take(0) =~= Seq::<(Seq<char>, Seq<TripleView>)>::empty());
        }
        for e in it: buckets
            invariant
                it.seq() == items,
                all.len() == items.len(),
                forall|j: int| 0 <= j < items.len() ==> all[j] == items[j].deep_view(),
                step == |acc: (ParserView, bool), e: (Seq<char>, Seq<TripleView>)|
                    range_step(acc, e),
                (self.deep_view(), grew) == all.take(it.index() as int).fold_left(
                    (no_buckets(st), false),
                    step,
                ),
                self.bnode.len() == self.deep_view().bnode.len(),
        {
            let ghost i = it.index() as int;
            proof {
                assert(all.take(i + 1).drop_last() =~= all.take(i));
                assert(all.take(i + 1).last() == e.deep_view());
            }
            let saved = if e.1.len() == 2 {
                Some(self.tables.snapshot())
            } else {
                None
            };
            match self.as_data_range(&e.1) {
                Some(dr) => {
                    put(&mut self.tables.data_range, e.0, dr);
                    grew = true;
                },
                None => {
                    match saved {
                        Some(tables) => {
                            self.tables = tables;
                        },
                        None => {},
                    }
                    self.keep_bucket(e);
                },
            }
        }
        proof {
            assert(all.take(all.len() as int) =~= all);
            lemma_range_prefix(st, st.bnode.len() as int);
            assert(st.bnode.take(st.bnode.len() as int) =~= st.bnode);
        }
        if grew {
            self.data_ranges()
        }
    }

    /// Rebuilds the object property expressions that the buckets encode.
    pub fn object_property_expressions(&mut self)
        ensures
            final(self).deep_view() == after_object_property_expressions(old(self).deep_view()),
    {
        let ghost st = self.deep_view();
        let buckets = self.take_buckets();
        let ghost all = buckets.deep_view();
        let ghost items = buckets@;
        let ghost step = |s: ParserView, e: (Seq<char>, Seq<TripleView>)| ope_step(s, e);
        proof {
            assert(all.take(0) =~= Seq::<(Seq<char>, Seq<TripleView>)>::empty());
        }
        for e in it: buckets
            invariant
                it.seq() == items,
                all.len() == items.len(),
                forall|j: int| 0 <= j < items.len() ==> all[j] == items[j].deep_view(),
                step == |s: ParserView, e: (Seq<char>, Seq<TripleView>)| ope_step(s, e),
                self.deep_view() == all.take(it.index() as int).fold_left(no_buckets(st), step),
        {
            let ghost i = it.index() as int;
            let ghost ev = e.deep_view();
            proof {
                assert(all.take(i + 1).drop_last() =~= all.take(i));
                assert(all.take(i + 1).last() == ev);
            }
            let label = e.0;
            let triples = e.1;
            let ghost tall = triples.deep_view();
            let ghost titems = triples@;
            let ghost tstep = |acc: (Option<Seq<char>>, Seq<TripleView>), t: TripleView|
                split_step(acc, t);
            let mut inv: Option<IRI> = None;
            let mut rest: Vec<Triple> = Vec::new();
            proof {
                assert(tall.take(0) =~= Seq::<TripleView>::empty());
                assert(rest.deep_view() =~= Seq::<TripleView>::empty());
            }
            for t in tit: triples
                invariant
                    tit.seq() == titems,
                    tall.len() == titems.len(),
                    forall|j: int| 0 <= j < titems.len() ==> tall[j] == titems[j].deep_view(),
                    tstep == |acc: (Option<Seq<char>>, Seq<TripleView>), t: TripleView|
                        split_step(acc, t),
                    (inv.deep_view(), rest.deep_view()) == tall.take(tit.index() as int).fold_left(
                        (None, Seq::empty()),
                        tstep,
                    ),
                    rest.len() == rest.deep_view().len(),
            {
                let ghost k = tit.index() as int;
                let ghost rv = rest.deep_view();
                let ghost tv = t.deep_view();
                proof {
                    assert(tall.take(k + 1).drop_last() =~= tall.take(k));
                    assert(tall.take(k + 1).last() == tv);
                }
                match as_inverse(&t) {
                    Some(i) => {
                        inv = Some(i);
                    },
                    None => {
                        rest.push(t);
                        assert(rest.deep_view() =~= rv.push(tv));
                    },
                }
            }
            proof {
                assert(tall.take(tall.len() as int) =~= tall);
            }
            match inv {
                Some(i) => {
                    put(
                        &mut self.tables.object_property_expression,
                        label.clone(),
                        ObjectPropertyExpression::InverseObjectProperty(ObjectProperty(i)),
                    );
                },
                None => {},
            }
            if rest.len() > 0 {
                self.keep_bucket((label, rest));
            }
        }
        proof {
            assert(all.take(all.len() as int) =~= all);
        }
    }
}

} // verus!
