//! What a parse does to the axioms of the ontology.
//!
//! The stages give axioms to the ontology by merging alone. So whatever holds
//! of the axioms at the start of a parse, and is kept by every merge, holds at
//! its end. In particular no two axioms of a parsed ontology have the same
//! logical part.

use crate::io::rdf::classes::{after_class_expressions, class_step, classed_once};
use crate::io::rdf::declare::{
    after_declarations, after_simple_annotations, annotate_step, declare_step, no_simple,
};
use crate::io::rdf::parser::{initial, ParserView};
use crate::io::rdf::ranges::{
    after_data_ranges, after_object_property_expressions, ope_step, range_step, ranged_once,
};
use crate::io::rdf::reader::{loaded, parsed, staged};
use crate::io::rdf::recognise::{axiom_step, bucket_step, recognise};
use crate::io::rdf::reify::{after_axiom_annotations, after_headers, reify_step};
use crate::io::rdf::sequences::{
    extend_step, extended, extended_once, no_buckets, seed_step, seeded, stitched,
};
use crate::io::rdf::table::annotations_of;
use crate::io::rdf::term::TripleView;
use crate::ontology::{
    covers, lemma_merged_covers, lemma_merged_distinct, lemma_merged_unions, logically_distinct,
    merged, AnnotatedAxiomView,
};
use crate::search::lemma_fold_invariant;
use vstd::prelude::*;

verus! {

/// Whether every merge keeps what `q` says of a list of axioms.
pub open spec fn kept_by_merging(q: spec_fn(Seq<AnnotatedAxiomView>) -> bool) -> bool {
    forall|s: Seq<AnnotatedAxiomView>, x: AnnotatedAxiomView| q(s) ==> #[trigger] q(merged(s, x))
}

/// The later passes of stitching touch neither the ontology nor the simple
/// triples nor the annotations that wait.
pub proof fn lemma_extended_axioms(st: ParserView)
    ensures
        extended(st).o == st.o,
        extended(st).simple == st.simple,
        extended(st).ann_map == st.ann_map,
    decreases st.bnode.len(),
{
    let o = st.o;
    let simple = st.simple;
    let m = st.ann_map;
    lemma_fold_invariant(
        st.bnode,
        (no_buckets(st), false),
        |acc: (ParserView, bool), e: (Seq<char>, Seq<TripleView>)| extend_step(acc, e),
        |acc: (ParserView, bool)| acc.0.o == o && acc.0.simple == simple && acc.0.ann_map == m,
    );
    let (st1, grew) = extended_once(st);
    if grew && st1.bnode.len() > 0 && st1.bnode.len() < st.bnode.len() {
        lemma_extended_axioms(st1);
    }
}

/// The stage of data ranges touches neither the ontology nor the simple
/// triples nor the annotations that wait.
pub proof fn lemma_ranges_axioms(st: ParserView)
    ensures
        after_data_ranges(st).o == st.o,
        after_data_ranges(st).simple == st.simple,
        after_data_ranges(st).ann_map == st.ann_map,
    decreases st.bnode.len(),
{
    let o = st.o;
    let simple = st.simple;
    let m = st.ann_map;
    lemma_fold_invariant(
        st.bnode,
        (no_buckets(st), false),
        |acc: (ParserView, bool), e: (Seq<char>, Seq<TripleView>)| range_step(acc, e),
        |acc: (ParserView, bool)| acc.0.o == o && acc.0.simple == simple && acc.0.ann_map == m,
    );
    let (st1, grew) = ranged_once(st);
    if grew && st1.bnode.len() < st.bnode.len() {
        lemma_ranges_axioms(st1);
    }
}

/// The stage of class expressions touches neither the ontology nor the simple
/// triples nor the annotations that wait.
pub proof fn lemma_classes_axioms(st: ParserView)
    ensures
        after_class_expressions(st).o == st.o,
        after_class_expressions(st).simple == st.simple,
        after_class_expressions(st).ann_map == st.ann_map,
    decreases st.bnode.len(),
{
    let o = st.o;
    let simple = st.simple;
    let m = st.ann_map;
    lemma_fold_invariant(
        st.bnode,
        (no_buckets(st), false),
        |acc: (ParserView, bool), e: (Seq<char>, Seq<TripleView>)| class_step(acc, e),
        |acc: (ParserView, bool)| acc.0.o == o && acc.0.simple == simple && acc.0.ann_map == m,
    );
    let (st1, grew) = classed_once(st);
    if grew && st1.bnode.len() < st.bnode.len() {
        lemma_classes_axioms(st1);
    }
}

/// The stage of object property expressions touches neither the ontology nor
/// the simple triples nor the annotations that wait.
pub proof fn lemma_inverses_axioms(st: ParserView)
    ensures
        after_object_property_expressions(st).o == st.o,
        after_object_property_expressions(st).simple == st.simple,
        after_object_property_expressions(st).ann_map == st.ann_map,
{
    let o = st.o;
    let simple = st.simple;
    let m = st.ann_map;
    lemma_fold_invariant(
        st.bnode,
        no_buckets(st),
        |s: ParserView, e: (Seq<char>, Seq<TripleView>)| ope_step(s, e),
        |s: ParserView| s.o == o && s.simple == simple && s.ann_map == m,
    );
}

/// Stitching touches neither the ontology nor the simple triples nor the
/// annotations that wait.
pub proof fn lemma_stitched_axioms(st: ParserView)
    ensures
        stitched(st).o == st.o,
        stitched(st).simple == st.simple,
        stitched(st).ann_map == st.ann_map,
{
    let o = st.o;
    let simple = st.simple;
    let m = st.ann_map;
    lemma_fold_invariant(
        st.bnode,
        no_buckets(st),
        |s: ParserView, e: (Seq<char>, Seq<TripleView>)| seed_step(s, e),
        |s: ParserView| s.o == o && s.simple == simple && s.ann_map == m,
    );
    lemma_extended_axioms(seeded(st));
}

/// What holds of the axioms before the stages, and is kept by every merge,
/// holds of the axioms after the stages.
pub proof fn lemma_stages_merge(st: ParserView, q: spec_fn(Seq<AnnotatedAxiomView>) -> bool)
    requires
        q(st.o.axioms),
        kept_by_merging(q),
    ensures
        q(staged(st).o.axioms),
{
    let p = |s: ParserView| q(s.o.axioms);
    lemma_fold_invariant(
        st.bnode,
        no_buckets(st),
        |s: ParserView, e: (Seq<char>, Seq<TripleView>)| seed_step(s, e),
        p,
    );
    lemma_extended_axioms(seeded(st));
    let st1 = stitched(st);
    lemma_fold_invariant(
        st1.bnode,
        no_buckets(st1),
        |s: ParserView, e: (Seq<char>, Seq<TripleView>)| reify_step(s, e),
        p,
    );
    let st2 = after_axiom_annotations(st1);
    let st3 = after_headers(st2);
    lemma_fold_invariant(
        st3.simple,
        no_simple(st3),
        |s: ParserView, t: TripleView| declare_step(s, t),
        p,
    );
    let st4 = after_declarations(st3);
    lemma_fold_invariant(
        st4.simple,
        no_simple(st4),
        |s: ParserView, t: TripleView| annotate_step(s, t),
        p,
    );
    let st5 = after_simple_annotations(st4);
    lemma_ranges_axioms(st5);
    let st6 = after_data_ranges(st5);
    lemma_fold_invariant(
        st6.bnode,
        no_buckets(st6),
        |s: ParserView, e: (Seq<char>, Seq<TripleView>)| ope_step(s, e),
        p,
    );
    let st7 = after_object_property_expressions(st6);
    lemma_classes_axioms(st7);
    let st8 = after_class_expressions(st7);
    let f = |s: ParserView, t: TripleView| axiom_step(s, t);
    lemma_fold_invariant(st8.simple, no_buckets(no_simple(st8)), f, p);
    assert forall|s: ParserView, e: (Seq<char>, Seq<TripleView>)| p(s) implies #[trigger] p(
        bucket_step(s, e),
    ) by {
        lemma_fold_invariant(e.1, s, f, p);
    }
    lemma_fold_invariant(
        st8.bnode,
        st8.simple.fold_left(no_buckets(no_simple(st8)), f),
        |s: ParserView, e: (Seq<char>, Seq<TripleView>)| bucket_step(s, e),
        p,
    );
}

/// The stages lose no annotation: an axiom that the ontology held before the
/// stages, it holds after them with at least the same annotations.
pub proof fn lemma_stages_keep_annotations(st: ParserView, a: AnnotatedAxiomView)
    requires
        covers(st.o.axioms, a),
    ensures
        covers(staged(st).o.axioms, a),
{
    let q = |s: Seq<AnnotatedAxiomView>| covers(s, a);
    assert forall|s: Seq<AnnotatedAxiomView>, x: AnnotatedAxiomView| q(s) implies #[trigger] q(
        merged(s, x),
    ) by {
        lemma_merged_covers(s, x, a);
    }
    lemma_stages_merge(st, q);
}

/// A triple that the stage of axioms recognises, where the ontology holds its
/// axiom already: the axiom is merged, not added a second time. The ontology
/// then holds it once, with the annotations that it had and those that waited
/// for the triple.
pub proof fn lemma_recognised_axiom_merges(st: ParserView, t: TripleView, i: int)
    requires
        logically_distinct(st.o.axioms),
        0 <= i < st.o.axioms.len(),
        recognise(st.o.axioms, st.tables, t).0 == Some(st.o.axioms[i].ax),
    ensures
        axiom_step(st, t).o.axioms == st.o.axioms.remove(i).push(
            AnnotatedAxiomView {
                ax: st.o.axioms[i].ax,
                ann: st.o.axioms[i].ann.union(annotations_of(st.ann_map, t).to_set()),
            },
        ),
        logically_distinct(axiom_step(st, t).o.axioms),
{
    let x = AnnotatedAxiomView {
        ax: st.o.axioms[i].ax,
        ann: annotations_of(st.ann_map, t).to_set(),
    };
    lemma_merged_unions(st.o.axioms, x, i);
}

/// No two axioms of a parsed ontology have the same logical part.
pub proof fn lemma_parsed_distinct(ts: Seq<TripleView>)
    ensures
        logically_distinct(parsed(ts).o.axioms),
{
    let q = |s: Seq<AnnotatedAxiomView>| logically_distinct(s);
    assert forall|s: Seq<AnnotatedAxiomView>, x: AnnotatedAxiomView| q(s) implies #[trigger] q(
        merged(s, x),
    ) by {
        lemma_merged_distinct(s, x);
    }
    lemma_stages_merge(loaded(initial(), ts), q);
}

} // verus!
