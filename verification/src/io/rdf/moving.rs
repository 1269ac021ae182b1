//! The stages move triples and emit axioms from them.
//!
//! No stage makes a triple: what a stage holds afterwards it held before. An
//! axiom enters the ontology from a triple that some stage reads as that
//! axiom, merged with the annotations that waited for the triple. So what
//! holds of every triple at the start stays true of every triple, and what
//! holds of the axioms and of the annotations that wait, and is kept whenever
//! such a triple gives its axiom, holds at the end.

use crate::io::rdf::classes::{after_class_expressions, class_step, classed_once};
use crate::io::rdf::declare::{
    after_declarations, after_simple_annotations, annotate_step, assertion_of, declaration_of,
    declare_step, no_simple,
};
use crate::io::rdf::parser::{ParserView, Pending};
use crate::io::rdf::ranges::{
    after_data_ranges, after_object_property_expressions, ope_step, range_step, ranged_once,
    split_inverse, split_step,
};
use crate::io::rdf::recognise::{after_axioms, axiom_step, bucket_step, recognise};
use crate::io::rdf::reify::{after_headers, header_step, last_ontology};
use crate::io::rdf::resolve::TablesView;
use crate::io::rdf::sequences::no_buckets;
use crate::io::rdf::table::{annotations_of, without};
use crate::io::rdf::term::TripleView;
use crate::model::axioms::AxiomView;
use crate::ontology::{merged, AnnotatedAxiomView};
use crate::search::lemma_fold_invariant;
use vstd::prelude::*;

verus! {

/// The state after the stages that follow the reading of the reifications.
pub open spec fn recognised(st: ParserView) -> ParserView {
    after_axioms(
        after_class_expressions(
            after_object_property_expressions(
                after_data_ranges(after_simple_annotations(after_declarations(after_headers(st)))),
            ),
        ),
    )
}

/// Whether every triple of the list is good.
pub open spec fn list_good(s: Seq<TripleView>, good: spec_fn(TripleView) -> bool) -> bool {
    forall|k: int| 0 <= k < s.len() ==> good(#[trigger] s[k])
}

/// Whether every triple that the state holds, simple or in a bucket, is good.
pub open spec fn holds_good(st: ParserView, good: spec_fn(TripleView) -> bool) -> bool {
    &&& list_good(st.simple, good)
    &&& forall|i: int| 0 <= i < st.bnode.len() ==> list_good((#[trigger] st.bnode[i]).1, good)
}

/// Whether some stage can read the triple `x` as the axiom `ax`: as a
/// declaration, as an annotation assertion, or at the stage of axioms,
/// whatever the ontology and the tables hold then.
pub open spec fn can_read(x: TripleView, ax: AxiomView) -> bool {
    ||| declaration_of(x) == Some(ax)
    ||| exists|o: Seq<AnnotatedAxiomView>| #[trigger] assertion_of(o, x) == Some(ax)
    ||| exists|o: Seq<AnnotatedAxiomView>, tb: TablesView|
        (#[trigger] recognise(o, tb, x)).0 == Some(ax)
}

/// Whether `inv` is kept whenever a good triple gives an axiom that it can be
/// read as: the axiom is merged with the annotations that waited for the
/// triple, and these wait no longer.
pub open spec fn emits_keep(
    good: spec_fn(TripleView) -> bool,
    inv: spec_fn(Seq<AnnotatedAxiomView>, Pending) -> bool,
) -> bool {
    forall|o: Seq<AnnotatedAxiomView>, m: Pending, x: TripleView, ax: AxiomView|
        inv(o, m) && good(x) && can_read(x, ax) ==> #[trigger] inv(
            merged(o, AnnotatedAxiomView { ax, ann: annotations_of(m, x).to_set() }),
            without(m, x),
        )
}

/// Whether the state holds good triples only, and `inv` holds of its axioms
/// and of the annotations that wait.
pub open spec fn kept(
    st: ParserView,
    good: spec_fn(TripleView) -> bool,
    inv: spec_fn(Seq<AnnotatedAxiomView>, Pending) -> bool,
) -> bool {
    holds_good(st, good) && inv(st.o.axioms, st.ann_map)
}

/// One good triple, at any of the three stages that read simple triples.
proof fn lemma_step_kept(
    st: ParserView,
    t: TripleView,
    good: spec_fn(TripleView) -> bool,
    inv: spec_fn(Seq<AnnotatedAxiomView>, Pending) -> bool,
)
    requires
        kept(st, good, inv),
        emits_keep(good, inv),
        good(t),
    ensures
        kept(declare_step(st, t), good, inv),
        kept(annotate_step(st, t), good, inv),
        kept(axiom_step(st, t), good, inv),
{
    lemma_push_good(st.simple, t, good);
    let ann = annotations_of(st.ann_map, t).to_set();
    match declaration_of(t) {
        Some(ax) => {
            assert(can_read(t, ax));
            assert(inv(merged(st.o.axioms, AnnotatedAxiomView { ax, ann }), without(st.ann_map, t)));
        },
        None => {},
    }
    match assertion_of(st.o.axioms, t) {
        Some(ax) => {
            assert(can_read(t, ax));
            assert(inv(merged(st.o.axioms, AnnotatedAxiomView { ax, ann }), without(st.ann_map, t)));
        },
        None => {},
    }
    match recognise(st.o.axioms, st.tables, t).0 {
        Some(ax) => {
            assert(can_read(t, ax));
            assert(inv(merged(st.o.axioms, AnnotatedAxiomView { ax, ann }), without(st.ann_map, t)));
        },
        None => {},
    }
}

/// A list of good triples that gets a good triple is a list of good triples.
proof fn lemma_push_good(s: Seq<TripleView>, t: TripleView, good: spec_fn(TripleView) -> bool)
    requires
        list_good(s, good),
        good(t),
    ensures
        list_good(s.push(t), good),
{
    assert forall|k: int| 0 <= k < s.push(t).len() implies good(#[trigger] s.push(t)[k]) by {
        if k < s.len() {
            assert(good(s[k]));
        }
    }
}

/// A state that keeps a bucket of good triples holds good triples still.
proof fn lemma_keep_kept(
    st: ParserView,
    e: (Seq<char>, Seq<TripleView>),
    good: spec_fn(TripleView) -> bool,
    inv: spec_fn(Seq<AnnotatedAxiomView>, Pending) -> bool,
)
    requires
        kept(st, good, inv),
        emits_keep(good, inv),
        list_good(e.1, good),
    ensures
        kept(ParserView { bnode: st.bnode.push(e), ..st }, good, inv),
{
    let b = st.bnode.push(e);
    assert forall|k: int| 0 <= k < b.len() implies list_good((#[trigger] b[k]).1, good) by {
        if k < st.bnode.len() {
            assert(list_good(st.bnode[k].1, good));
        }
    }
}

/// The header pass keeps what is kept.
proof fn lemma_headers_kept(
    st: ParserView,
    good: spec_fn(TripleView) -> bool,
    inv: spec_fn(Seq<AnnotatedAxiomView>, Pending) -> bool,
)
    requires
        kept(st, good, inv),
        emits_keep(good, inv),
    ensures
        kept(after_headers(st), good, inv),
{
    let iri = last_ontology(st.simple);
    let f = |acc: (Seq<TripleView>, Option<Seq<char>>), t: TripleView| header_step(acc, t, iri);
    let p = |acc: (Seq<TripleView>, Option<Seq<char>>)| list_good(acc.0, good);
    assert forall|acc: (Seq<TripleView>, Option<Seq<char>>), t: TripleView|
        p(acc) && st.simple.contains(t) implies #[trigger] p(f(acc, t)) by {
        let i = choose|i: int| 0 <= i < st.simple.len() && st.simple[i] == t;
        assert(good(st.simple[i]));
        lemma_push_good(acc.0, t, good);
    }
    lemma_fold_invariant(st.simple, (Seq::<TripleView>::empty(), None), f, p);
}

/// The stages of declarations and of annotation assertions keep what is kept.
proof fn lemma_simple_stages_kept(
    st: ParserView,
    good: spec_fn(TripleView) -> bool,
    inv: spec_fn(Seq<AnnotatedAxiomView>, Pending) -> bool,
)
    requires
        kept(st, good, inv),
        emits_keep(good, inv),
    ensures
        kept(after_declarations(st), good, inv),
        kept(after_simple_annotations(st), good, inv),
{
    let p = |s: ParserView| kept(s, good, inv);
    assert forall|s: ParserView, t: TripleView| p(s) && st.simple.contains(t) implies #[trigger] p(
        declare_step(s, t),
    ) by {
        let i = choose|i: int| 0 <= i < st.simple.len() && st.simple[i] == t;
        assert(good(st.simple[i]));
        lemma_step_kept(s, t, good, inv);
    }
    assert forall|s: ParserView, t: TripleView| p(s) && st.simple.contains(t) implies #[trigger] p(
        annotate_step(s, t),
    ) by {
        let i = choose|i: int| 0 <= i < st.simple.len() && st.simple[i] == t;
        assert(good(st.simple[i]));
        lemma_step_kept(s, t, good, inv);
    }
    assert(no_simple(st).simple.len() == 0);
    lemma_fold_invariant(
        st.simple,
        no_simple(st),
        |s: ParserView, t: TripleView| declare_step(s, t),
        p,
    );
    lemma_fold_invariant(
        st.simple,
        no_simple(st),
        |s: ParserView, t: TripleView| annotate_step(s, t),
        p,
    );
}

/// The passes that rebuild data ranges keep what is kept.
proof fn lemma_ranges_kept(
    st: ParserView,
    good: spec_fn(TripleView) -> bool,
    inv: spec_fn(Seq<AnnotatedAxiomView>, Pending) -> bool,
)
    requires
        kept(st, good, inv),
        emits_keep(good, inv),
    ensures
        kept(after_data_ranges(st), good, inv),
    decreases st.bnode.len(),
{
    let p = |acc: (ParserView, bool)| kept(acc.0, good, inv);
    assert forall|acc: (ParserView, bool), e: (Seq<char>, Seq<TripleView>)|
        p(acc) && st.bnode.contains(e) implies #[trigger] p(range_step(acc, e)) by {
        let i = choose|i: int| 0 <= i < st.bnode.len() && st.bnode[i] == e;
        assert(list_good(st.bnode[i].1, good));
        lemma_keep_kept(acc.0, e, good, inv);
    }
    assert(no_buckets(st).bnode.len() == 0);
    lemma_fold_invariant(
        st.bnode,
        (no_buckets(st), false),
        |acc: (ParserView, bool), e: (Seq<char>, Seq<TripleView>)| range_step(acc, e),
        p,
    );
    let (st1, grew) = ranged_once(st);
    if grew && st1.bnode.len() < st.bnode.len() {
        lemma_ranges_kept(st1, good, inv);
    }
}

/// The passes that rebuild class expressions keep what is kept.
proof fn lemma_classes_kept(
    st: ParserView,
    good: spec_fn(TripleView) -> bool,
    inv: spec_fn(Seq<AnnotatedAxiomView>, Pending) -> bool,
)
    requires
        kept(st, good, inv),
        emits_keep(good, inv),
    ensures
        kept(after_class_expressions(st), good, inv),
    decreases st.bnode.len(),
{
    let p = |acc: (ParserView, bool)| kept(acc.0, good, inv);
    assert forall|acc: (ParserView, bool), e: (Seq<char>, Seq<TripleView>)|
        p(acc) && st.bnode.contains(e) implies #[trigger] p(class_step(acc, e)) by {
        let i = choose|i: int| 0 <= i < st.bnode.len() && st.bnode[i] == e;
        assert(list_good(st.bnode[i].1, good));
        lemma_keep_kept(acc.0, e, good, inv);
    }
    assert(no_buckets(st).bnode.len() == 0);
    lemma_fold_invariant(
        st.bnode,
        (no_buckets(st), false),
        |acc: (ParserView, bool), e: (Seq<char>, Seq<TripleView>)| class_step(acc, e),
        p,
    );
    let (st1, grew) = classed_once(st);
    if grew && st1.bnode.len() < st.bnode.len() {
        lemma_classes_kept(st1, good, inv);
    }
}

/// The triples of a bucket of good triples that are left once the inversions
/// were taken out are good.
proof fn lemma_split_good(v: Seq<TripleView>, good: spec_fn(TripleView) -> bool)
    requires
        list_good(v, good),
    ensures
        list_good(split_inverse(v).1, good),
{
    let p = |acc: (Option<Seq<char>>, Seq<TripleView>)| list_good(acc.1, good);
    assert forall|acc: (Option<Seq<char>>, Seq<TripleView>), t: TripleView|
        p(acc) && v.contains(t) implies #[trigger] p(split_step(acc, t)) by {
        let i = choose|i: int| 0 <= i < v.len() && v[i] == t;
        assert(good(v[i]));
        lemma_push_good(acc.1, t, good);
    }
    lemma_fold_invariant(
        v,
        (None, Seq::empty()),
        |acc: (Option<Seq<char>>, Seq<TripleView>), t: TripleView| split_step(acc, t),
        p,
    );
}

/// The stage of object property expressions keeps what is kept.
proof fn lemma_inverses_kept(
    st: ParserView,
    good: spec_fn(TripleView) -> bool,
    inv: spec_fn(Seq<AnnotatedAxiomView>, Pending) -> bool,
)
    requires
        kept(st, good, inv),
        emits_keep(good, inv),
    ensures
        kept(after_object_property_expressions(st), good, inv),
{
    let p = |s: ParserView| kept(s, good, inv);
    assert forall|s: ParserView, e: (Seq<char>, Seq<TripleView>)|
        p(s) && st.bnode.contains(e) implies #[trigger] p(ope_step(s, e)) by {
        let i = choose|i: int| 0 <= i < st.bnode.len() && st.bnode[i] == e;
        assert(list_good(st.bnode[i].1, good));
        lemma_split_good(e.1, good);
        let rest = split_inverse(e.1).1;
        lemma_keep_kept(s, (e.0, rest), good, inv);
        lemma_keep_kept(ParserView { tables: ope_step(s, e).tables, ..s }, (e.0, rest), good, inv);
    }
    assert(no_buckets(st).bnode.len() == 0);
    lemma_fold_invariant(
        st.bnode,
        no_buckets(st),
        |s: ParserView, e: (Seq<char>, Seq<TripleView>)| ope_step(s, e),
        p,
    );
}

/// The stage of axioms keeps what is kept.
pub proof fn lemma_axioms_kept(
    st: ParserView,
    good: spec_fn(TripleView) -> bool,
    inv: spec_fn(Seq<AnnotatedAxiomView>, Pending) -> bool,
)
    requires
        kept(st, good, inv),
        emits_keep(good, inv),
    ensures
        kept(after_axioms(st), good, inv),
{
    let p = |s: ParserView| kept(s, good, inv);
    let f = |s: ParserView, t: TripleView| axiom_step(s, t);
    assert forall|s: ParserView, t: TripleView| p(s) && st.simple.contains(t) implies #[trigger] p(
        f(s, t),
    ) by {
        let i = choose|i: int| 0 <= i < st.simple.len() && st.simple[i] == t;
        assert(good(st.simple[i]));
        lemma_step_kept(s, t, good, inv);
    }
    let start = no_buckets(no_simple(st));
    assert(start.simple.len() == 0 && start.bnode.len() == 0);
    lemma_fold_invariant(st.simple, start, f, p);
    assert forall|s: ParserView, e: (Seq<char>, Seq<TripleView>)|
        p(s) && st.bnode.contains(e) implies #[trigger] p(bucket_step(s, e)) by {
        let i = choose|i: int| 0 <= i < st.bnode.len() && st.bnode[i] == e;
        assert(list_good(st.bnode[i].1, good));
        assert forall|s2: ParserView, t: TripleView| p(s2) && e.1.contains(t) implies #[trigger] p(
            f(s2, t),
        ) by {
            let k = choose|k: int| 0 <= k < e.1.len() && e.1[k] == t;
            assert(good(e.1[k]));
            lemma_step_kept(s2, t, good, inv);
        }
        lemma_fold_invariant(e.1, s, f, p);
    }
    lemma_fold_invariant(
        st.bnode,
        st.simple.fold_left(start, f),
        |s: ParserView, e: (Seq<char>, Seq<TripleView>)| bucket_step(s, e),
        p,
    );
}

/// The stages that follow the reading of the reifications keep what is kept:
/// where the state holds good triples only, and `inv` holds of its axioms and
/// of the annotations that wait and is kept whenever a good triple gives an
/// axiom, the state holds good triples only after these stages, and `inv`
/// holds.
pub proof fn lemma_recognised_kept(
    st: ParserView,
    good: spec_fn(TripleView) -> bool,
    inv: spec_fn(Seq<AnnotatedAxiomView>, Pending) -> bool,
)
    requires
        kept(st, good, inv),
        emits_keep(good, inv),
    ensures
        kept(recognised(st), good, inv),
{
    lemma_headers_kept(st, good, inv);
    let st3 = after_headers(st);
    lemma_simple_stages_kept(st3, good, inv);
    let st4 = after_declarations(st3);
    lemma_simple_stages_kept(st4, good, inv);
    let st5 = after_simple_annotations(st4);
    lemma_ranges_kept(st5, good, inv);
    let st6 = after_data_ranges(st5);
    lemma_inverses_kept(st6, good, inv);
    let st7 = after_object_property_expressions(st6);
    lemma_classes_kept(st7, good, inv);
    let st8 = after_class_expressions(st7);
    lemma_axioms_kept(st8, good, inv);
}

} // verus!
