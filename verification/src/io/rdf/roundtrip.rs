//! Writing a header and reading it back.

use crate::io::rdf::classes::{after_class_expressions, class_step, classed_once};
use crate::io::rdf::declare::{
    after_declarations, after_simple_annotations, annotate_step, declare_step, no_simple,
};
use crate::io::rdf::parser::{drained, group_step, grouped, initial, Buckets, ParserView};
use crate::io::rdf::ranges::{
    after_data_ranges, after_object_property_expressions, ope_step, range_step, ranged_once,
};
use crate::io::rdf::reader::{classified, loaded, parsed};
use crate::io::rdf::recognise::{after_axioms, axiom_step, bucket_step};
use crate::io::rdf::reify::{
    after_axiom_annotations, after_headers, header_pass, header_step, last_ontology,
    ontology_triple, reify_step, version_triple,
};
use crate::io::rdf::sequences::{
    extend_step, extended, extended_once, no_buckets, reversed, seed_step, seeded, stitched,
    with_seqs,
};
use crate::io::rdf::sort::{canonical, lemma_canonical};
use crate::io::rdf::table::keys;
use crate::io::rdf::term::{classify_iri, classify_triple, TermView, TripleView};
use crate::io::rdf::writer::{header_triples, lemma_rendered_header, rendered};
use crate::ontology::{OntologyIDView, OntologyView};
use crate::search::{first_index, lemma_first_index, lemma_fold_invariant};
use vstd::prelude::*;

verus! {

/// Whether a text is the IRI of no token of the built-in vocabularies.
pub open spec fn is_plain_iri(s: Seq<char>) -> bool {
    classify_iri(s) == TermView::Iri(s)
}

/// Whether the writer renders the header in full: a header with a version has
/// an IRI, and neither is the IRI of a token of the built-in vocabularies.
pub open spec fn is_rendered(id: OntologyIDView) -> bool {
    &&& id.iri is None ==> id.viri is None
    &&& id.iri is Some ==> is_plain_iri(id.iri->0)
    &&& id.viri is Some ==> is_plain_iri(id.viri->0)
}

/// The state of a parse that holds a header, no axiom, and nothing else.
pub open spec fn only_header(id: OntologyIDView) -> ParserView {
    ParserView { o: OntologyView { id, axioms: Seq::empty() }, ..initial() }
}

/// A state without buckets passes the stages that work on buckets unchanged.
pub proof fn lemma_no_buckets_no_change(st: ParserView)
    requires
        st.bnode.len() == 0,
    ensures
        stitched(st) == with_seqs(st, reversed(st.tables.bnode_seq)),
        after_axiom_annotations(st) == st,
        after_data_ranges(st) == st,
        after_object_property_expressions(st) == st,
        after_class_expressions(st) == st,
{
    assert(st.bnode =~= Seq::empty());
    assert(no_buckets(st) == st);
    assert(seeded(st) == st);
    assert(extended_once(st) == (st, false));
    assert(extended(st) == st);
    assert(ranged_once(st) == (st, false));
    assert(classed_once(st) == (st, false));
}

/// A state without simple triples and without buckets passes every stage but
/// the header unchanged.
pub proof fn lemma_nothing_to_recognise(st: ParserView)
    requires
        st.bnode.len() == 0,
        st.simple.len() == 0,
    ensures
        after_declarations(st) == st,
        after_simple_annotations(st) == st,
        after_axioms(st) == st,
{
    assert(st.bnode =~= Seq::empty());
    assert(st.simple =~= Seq::empty());
    assert(no_simple(st) == st);
    assert(no_buckets(st) == st);
}

/// The header pass over the triples of a header, in either order, takes both
/// triples and finds the version.
pub proof fn lemma_header_of(id: OntologyIDView, simple: Seq<TripleView>)
    requires
        id.iri is Some,
        simple.to_multiset() == header_triples(id).to_multiset(),
    ensures
        last_ontology(simple) == id.iri,
        header_pass(simple, id.iri) == (Seq::<TripleView>::empty(), id.viri),
{
    broadcast use vstd::multiset::group_multiset_axioms;
    broadcast use vstd::seq_lib::group_to_multiset_ensures;

    let h = header_triples(id);
    let step = |acc: (Seq<TripleView>, Option<Seq<char>>), t: TripleView|
        header_step(acc, t, id.iri);
    assert(simple.len() == simple.to_multiset().len());
    assert(h.len() == h.to_multiset().len());
    assert forall|i: int| 0 <= i < simple.len() implies h.contains(#[trigger] simple[i]) by {
        assert(simple.contains(simple[i]));
        assert(simple.to_multiset().count(simple[i]) > 0);
    }
    assert forall|i: int| 0 <= i < h.len() implies simple.contains(#[trigger] h[i]) by {
        assert(h.contains(h[i]));
        assert(h.to_multiset().count(h[i]) > 0);
    }
    assert(ontology_triple(h[0]) == id.iri);
    if id.viri is Some {
        assert(simple.len() == 2);
        assert(version_triple(h[1], id.iri) == id.viri);
        assert(ontology_triple(h[1]) is None);
        assert(h.contains(simple[0]) && h.contains(simple[1]));
        assert(simple.contains(h[0]) && simple.contains(h[1]));
        assert(simple.drop_last().len() == 1);
        assert(simple.drop_last().drop_last() =~= Seq::<TripleView>::empty());
        assert(simple.drop_last().last() == simple[0]);
        assert(simple.last() == simple[1]);
        if simple[0] == h[0] {
            assert(simple[1] == h[1]) by {
                if simple[1] != h[1] {
                    let i = choose|i: int| 0 <= i < simple.len() && simple[i] == h[1];
                }
            }
            assert(last_ontology(simple.drop_last()) == id.iri);
        } else {
            assert(simple[0] == h[1]);
            assert(simple[1] == h[0]) by {
                if simple[1] != h[0] {
                    let i = choose|i: int| 0 <= i < simple.len() && simple[i] == h[0];
                }
            }
        }
        reveal_with_fuel(Seq::fold_left, 4);
        assert(simple.drop_last().fold_left((Seq::<TripleView>::empty(), None), step).0
            =~= Seq::<TripleView>::empty());
        assert(header_pass(simple, id.iri).0 =~= Seq::<TripleView>::empty());
    } else {
        assert(simple.len() == 1);
        assert(h.contains(simple[0]));
        assert(simple[0] == h[0]);
        assert(simple.drop_last() =~= Seq::<TripleView>::empty());
        reveal_with_fuel(Seq::fold_left, 3);
        assert(header_pass(simple, id.iri).0 =~= Seq::<TripleView>::empty());
    }
}

/// Triples whose subject is no blank node are all simple triples once grouped.
pub proof fn lemma_grouped_simple(ts: Seq<TripleView>)
    requires
        forall|i: int| 0 <= i < ts.len() ==> !((#[trigger] ts[i]).subject is BNode),
    ensures
        grouped(ts, Seq::empty(), Seq::empty()) == (ts, Seq::<
            (Seq<char>, Seq<TripleView>),
        >::empty()),
    decreases ts.len(),
{
    if ts.len() > 0 {
        lemma_grouped_simple(ts.drop_last());
        assert(ts.drop_last().push(ts.last()) =~= ts);
    }
}

/// The triples that render a header parse to an ontology with that header and
/// no axiom, and the parse leaves nothing.
pub proof fn lemma_header_round_trip(id: OntologyIDView)
    requires
        is_rendered(id),
    ensures
        parsed(header_triples(id)) == only_header(id),
        drained(parsed(header_triples(id))),
{
    broadcast use vstd::multiset::group_multiset_axioms;
    broadcast use vstd::seq_lib::group_to_multiset_ensures;

    let h = header_triples(id);
    assert(classified(h) =~= h) by {
        assert forall|i: int| 0 <= i < h.len() implies classify_triple(#[trigger] h[i])
            == h[i] by {}
    }
    let c = canonical(h);
    lemma_canonical(h);
    assert(c.len() == c.to_multiset().len());
    assert(h.len() == h.to_multiset().len());
    assert forall|i: int| 0 <= i < c.len() implies !((#[trigger] c[i]).subject is BNode) by {
        assert(c.contains(c[i]));
        assert(h.to_multiset().count(c[i]) > 0);
        assert(h.contains(c[i]));
    }
    lemma_grouped_simple(c);
    let st0 = loaded(initial(), h);
    assert(st0 == ParserView { simple: c, ..initial() });
    lemma_no_buckets_no_change(st0);
    assert(reversed(st0.tables.bnode_seq) =~= st0.tables.bnode_seq);
    assert(stitched(st0) == st0);
    let st1 = after_headers(st0);
    if id.iri is Some {
        lemma_header_of(id, c);
        assert(st1 == only_header(id));
    } else {
        assert(h =~= Seq::<TripleView>::empty());
        assert(c =~= Seq::<TripleView>::empty());
        assert(st1.simple =~= Seq::<TripleView>::empty());
        assert(st1 == only_header(id));
    }
    lemma_nothing_to_recognise(st1);
    lemma_no_buckets_no_change(st1);
}

/// Whether a term, if it is an IRI, is the IRI of no token of the built-in
/// vocabularies.
pub open spec fn is_plain(t: TermView) -> bool {
    match t {
        TermView::Iri(s) => is_plain_iri(s),
        _ => true,
    }
}

/// Whether the three terms of a triple are plain.
pub open spec fn is_plain_triple(t: TripleView) -> bool {
    is_plain(t.subject) && is_plain(t.predicate) && is_plain(t.object)
}

/// Whether every triple of the list is plain.
pub open spec fn all_plain(ts: Seq<TripleView>) -> bool {
    forall|i: int| 0 <= i < ts.len() ==> is_plain_triple(#[trigger] ts[i])
}

/// Whether every triple of every bucket is plain.
pub open spec fn buckets_plain(b: Buckets) -> bool {
    forall|i: int| 0 <= i < b.len() ==> all_plain((#[trigger] b[i]).1)
}

/// Whether every triple that the state holds, simple or in a bucket, is plain.
pub open spec fn holds_plain(st: ParserView) -> bool {
    all_plain(st.simple) && buckets_plain(st.bnode)
}

/// Grouping plain triples into plain collections gives plain collections.
pub proof fn lemma_grouped_plain(ts: Seq<TripleView>, st: ParserView)
    requires
        all_plain(ts),
        holds_plain(st),
    ensures
        holds_plain(
            ParserView {
                simple: grouped(ts, st.simple, st.bnode).0,
                bnode: grouped(ts, st.simple, st.bnode).1,
                ..st
            },
        ),
{
    let p = |acc: (Seq<TripleView>, Buckets)| all_plain(acc.0) && buckets_plain(acc.1);
    let f = |acc: (Seq<TripleView>, Buckets), t: TripleView| group_step(acc, t);
    assert forall|acc: (Seq<TripleView>, Buckets), t: TripleView|
        p(acc) && ts.contains(t) implies #[trigger] p(f(acc, t)) by {
        let i = choose|i: int| 0 <= i < ts.len() && ts[i] == t;
        assert(is_plain_triple(ts[i]));
        let r = group_step(acc, t);
        assert forall|k: int| 0 <= k < r.0.len() implies is_plain_triple(#[trigger] r.0[k]) by {
            if k < acc.0.len() {
                assert(is_plain_triple(acc.0[k]));
            }
        }
        match t.subject {
            TermView::BNode(id) => {
                lemma_first_index(keys(acc.1), id);
                match first_index(keys(acc.1), id) {
                    Some(at) => {
                        assert forall|k: int| 0 <= k < r.1.len() implies all_plain(
                            (#[trigger] r.1[k]).1,
                        ) by {
                            assert(all_plain(acc.1[k].1));
                            if k == at {
                                assert forall|j: int|
                                    0 <= j < r.1[k].1.len() implies is_plain_triple(
                                    #[trigger] r.1[k].1[j],
                                ) by {
                                    if j < acc.1[k].1.len() {
                                        assert(is_plain_triple(acc.1[k].1[j]));
                                    }
                                }
                            }
                        }
                    },
                    None => {
                        assert forall|k: int| 0 <= k < r.1.len() implies all_plain(
                            (#[trigger] r.1[k]).1,
                        ) by {
                            if k < acc.1.len() {
                                assert(all_plain(acc.1[k].1));
                            }
                        }
                    },
                }
            },
            _ => {},
        }
    }
    lemma_fold_invariant(ts, (st.simple, st.bnode), f, p);
}

/// The first pass of stitching keeps a plain state plain.
pub proof fn lemma_seeded_plain(st: ParserView)
    requires
        holds_plain(st),
    ensures
        holds_plain(seeded(st)),
{
    let p = |s: ParserView| holds_plain(s);
    let f = |s: ParserView, e: (Seq<char>, Seq<TripleView>)| seed_step(s, e);
    assert(no_buckets(st).bnode.len() == 0);
    assert forall|s: ParserView, e: (Seq<char>, Seq<TripleView>)|
        p(s) && st.bnode.contains(e) implies #[trigger] p(f(s, e)) by {
        let i = choose|i: int| 0 <= i < st.bnode.len() && st.bnode[i] == e;
        assert(all_plain(st.bnode[i].1));
        let r = seed_step(s, e);
        assert forall|k: int| 0 <= k < r.bnode.len() implies all_plain((#[trigger] r.bnode[k]).1) by {
            if k < s.bnode.len() {
                assert(all_plain(s.bnode[k].1));
            }
        }
    }
    lemma_fold_invariant(st.bnode, no_buckets(st), f, p);
}

/// The later passes of stitching keep a plain state plain.
pub proof fn lemma_extended_plain(st: ParserView)
    requires
        holds_plain(st),
    ensures
        holds_plain(extended(st)),
    decreases st.bnode.len(),
{
    let p = |acc: (ParserView, bool)| holds_plain(acc.0);
    let f = |acc: (ParserView, bool), e: (Seq<char>, Seq<TripleView>)| extend_step(acc, e);
    assert(no_buckets(st).bnode.len() == 0);
    assert forall|acc: (ParserView, bool), e: (Seq<char>, Seq<TripleView>)|
        p(acc) && st.bnode.contains(e) implies #[trigger] p(f(acc, e)) by {
        let i = choose|i: int| 0 <= i < st.bnode.len() && st.bnode[i] == e;
        assert(all_plain(st.bnode[i].1));
        let r = extend_step(acc, e).0;
        assert forall|k: int| 0 <= k < r.bnode.len() implies all_plain((#[trigger] r.bnode[k]).1) by {
            if k < acc.0.bnode.len() {
                assert(all_plain(acc.0.bnode[k].1));
            }
        }
    }
    lemma_fold_invariant(st.bnode, (no_buckets(st), false), f, p);
    let (st1, grew) = extended_once(st);
    if grew && st1.bnode.len() > 0 && st1.bnode.len() < st.bnode.len() {
        lemma_extended_plain(st1);
    }
}

/// Taking the reifications out of a plain state leaves a plain state.
pub proof fn lemma_reified_plain(st: ParserView)
    requires
        holds_plain(st),
    ensures
        holds_plain(after_axiom_annotations(st)),
{
    let p = |s: ParserView| holds_plain(s);
    let f = |s: ParserView, e: (Seq<char>, Seq<TripleView>)| reify_step(s, e);
    assert(no_buckets(st).bnode.len() == 0);
    assert forall|s: ParserView, e: (Seq<char>, Seq<TripleView>)|
        p(s) && st.bnode.contains(e) implies #[trigger] p(f(s, e)) by {
        let i = choose|i: int| 0 <= i < st.bnode.len() && st.bnode[i] == e;
        assert(all_plain(st.bnode[i].1));
        let r = reify_step(s, e);
        assert forall|k: int| 0 <= k < r.bnode.len() implies all_plain((#[trigger] r.bnode[k]).1) by {
            if k < s.bnode.len() {
                assert(all_plain(s.bnode[k].1));
            }
        }
        assert forall|k: int| 0 <= k < r.simple.len() implies is_plain_triple(
            #[trigger] r.simple[k],
        ) by {
            if k < s.simple.len() {
                assert(is_plain_triple(s.simple[k]));
            } else {
                assert(is_plain_triple(e.1[0]));
                assert(is_plain_triple(e.1[1]));
                assert(is_plain_triple(e.1[2]));
            }
        }
    }
    lemma_fold_invariant(st.bnode, no_buckets(st), f, p);
}

/// The IRI of the ontology among plain triples is plain.
pub proof fn lemma_last_ontology_plain(simple: Seq<TripleView>)
    requires
        all_plain(simple),
    ensures
        last_ontology(simple) is Some ==> is_plain_iri(last_ontology(simple)->0),
    decreases simple.len(),
{
    if simple.len() > 0 {
        assert(is_plain_triple(simple[simple.len() - 1]));
        assert(all_plain(simple.drop_last())) by {
            assert forall|i: int| 0 <= i < simple.drop_last().len() implies is_plain_triple(
                #[trigger] simple.drop_last()[i],
            ) by {
                assert(is_plain_triple(simple[i]));
            }
        }
        lemma_last_ontology_plain(simple.drop_last());
    }
}

/// The header that is read from plain triples is one that the writer renders
/// in full.
pub proof fn lemma_headers_rendered(st: ParserView)
    requires
        holds_plain(st),
    ensures
        is_rendered(after_headers(st).o.id),
{
    lemma_last_ontology_plain(st.simple);
    let iri = last_ontology(st.simple);
    let p = |acc: (Seq<TripleView>, Option<Seq<char>>)|
        acc.1 is Some ==> iri is Some && is_plain_iri(acc.1->0);
    let f = |acc: (Seq<TripleView>, Option<Seq<char>>), t: TripleView| header_step(acc, t, iri);
    assert forall|acc: (Seq<TripleView>, Option<Seq<char>>), t: TripleView|
        p(acc) && st.simple.contains(t) implies #[trigger] p(f(acc, t)) by {
        let i = choose|i: int| 0 <= i < st.simple.len() && st.simple[i] == t;
        assert(is_plain_triple(st.simple[i]));
    }
    lemma_fold_invariant(st.simple, (Seq::<TripleView>::empty(), None), f, p);
}

/// The header of the state after the stages that follow the header pass is the
/// header that the pass has read.
pub proof fn lemma_header_kept(st: ParserView)
    ensures
        after_axioms(
            after_class_expressions(
                after_object_property_expressions(
                    after_data_ranges(after_simple_annotations(after_declarations(st))),
                ),
            ),
        ).o.id == st.o.id,
{
    let id = st.o.id;
    let p = |s: ParserView| s.o.id == id;
    let st1 = after_declarations(st);
    lemma_fold_invariant(
        st.simple,
        no_simple(st),
        |s: ParserView, t: TripleView| declare_step(s, t),
        p,
    );
    let st2 = after_simple_annotations(st1);
    lemma_fold_invariant(
        st1.simple,
        no_simple(st1),
        |s: ParserView, t: TripleView| annotate_step(s, t),
        p,
    );
    lemma_ranges_keep_header(st2);
    let st3 = after_data_ranges(st2);
    let st4 = after_object_property_expressions(st3);
    lemma_fold_invariant(
        st3.bnode,
        no_buckets(st3),
        |s: ParserView, e: (Seq<char>, Seq<TripleView>)| ope_step(s, e),
        p,
    );
    lemma_classes_keep_header(st4);
    let st5 = after_class_expressions(st4);
    let st6 = st5.simple.fold_left(
        no_buckets(no_simple(st5)),
        |s: ParserView, t: TripleView| axiom_step(s, t),
    );
    lemma_fold_invariant(
        st5.simple,
        no_buckets(no_simple(st5)),
        |s: ParserView, t: TripleView| axiom_step(s, t),
        p,
    );
    assert forall|s: ParserView, e: (Seq<char>, Seq<TripleView>)| p(s) implies #[trigger] p(
        bucket_step(s, e),
    ) by {
        lemma_fold_invariant(e.1, s, |s: ParserView, t: TripleView| axiom_step(s, t), p);
    }
    lemma_fold_invariant(
        st5.bnode,
        st6,
        |s: ParserView, e: (Seq<char>, Seq<TripleView>)| bucket_step(s, e),
        p,
    );
}

/// The passes that rebuild data ranges keep the header.
pub proof fn lemma_ranges_keep_header(st: ParserView)
    ensures
        after_data_ranges(st).o.id == st.o.id,
    decreases st.bnode.len(),
{
    let id = st.o.id;
    let pb = |acc: (ParserView, bool)| acc.0.o.id == id;
    lemma_fold_invariant(
        st.bnode,
        (no_buckets(st), false),
        |acc: (ParserView, bool), e: (Seq<char>, Seq<TripleView>)| range_step(acc, e),
        pb,
    );
    let (st1, grew) = ranged_once(st);
    if grew && st1.bnode.len() < st.bnode.len() {
        lemma_ranges_keep_header(st1);
    }
}

/// The passes that rebuild class expressions keep the header.
pub proof fn lemma_classes_keep_header(st: ParserView)
    ensures
        after_class_expressions(st).o.id == st.o.id,
    decreases st.bnode.len(),
{
    let id = st.o.id;
    let pb = |acc: (ParserView, bool)| acc.0.o.id == id;
    lemma_fold_invariant(
        st.bnode,
        (no_buckets(st), false),
        |acc: (ParserView, bool), e: (Seq<char>, Seq<TripleView>)| class_step(acc, e),
        pb,
    );
    let (st1, grew) = classed_once(st);
    if grew && st1.bnode.len() < st.bnode.len() {
        lemma_classes_keep_header(st1);
    }
}

/// The state of a parse after the reifications were read holds plain triples
/// only.
pub proof fn lemma_loaded_plain(ts: Seq<TripleView>)
    ensures
        holds_plain(after_axiom_annotations(stitched(loaded(initial(), ts)))),
{
    broadcast use vstd::multiset::group_multiset_axioms;
    broadcast use vstd::seq_lib::group_to_multiset_ensures;

    let c = canonical(classified(ts));
    lemma_canonical(classified(ts));
    assert(all_plain(c)) by {
        assert forall|i: int| 0 <= i < c.len() implies is_plain_triple(#[trigger] c[i]) by {
            assert(c.contains(c[i]));
            assert(classified(ts).to_multiset().count(c[i]) > 0);
            assert(classified(ts).contains(c[i]));
            let k = choose|k: int| 0 <= k < classified(ts).len() && classified(ts)[k] == c[i];
            assert(c[i] == classify_triple(ts[k]));
        }
    }
    lemma_grouped_plain(c, initial());
    let st0 = loaded(initial(), ts);
    lemma_seeded_plain(st0);
    lemma_extended_plain(seeded(st0));
    let st1 = stitched(st0);
    assert(holds_plain(st1));
    lemma_reified_plain(st1);
}

/// The header that a parse ends with is one that the writer renders in full.
pub proof fn lemma_parsed_header_rendered(ts: Seq<TripleView>)
    ensures
        is_rendered(parsed(ts).o.id),
{
    lemma_loaded_plain(ts);
    let st2 = after_axiom_annotations(stitched(loaded(initial(), ts)));
    lemma_headers_rendered(st2);
    lemma_header_kept(after_headers(st2));
}

/// Writing and reading back: where a parse ends with an ontology without
/// axioms, the triples that render this ontology parse to the same ontology.
pub proof fn lemma_round_trip(ts: Seq<TripleView>)
    requires
        parsed(ts).o.axioms.len() == 0,
    ensures
        parsed(rendered(parsed(ts).o)).o == parsed(ts).o,
{
    lemma_rendered_header(parsed(ts).o);
    lemma_parsed_header_rendered(ts);
    lemma_header_round_trip(parsed(ts).o.id);
    assert(parsed(ts).o.axioms =~= Seq::empty());
}

} // verus!
