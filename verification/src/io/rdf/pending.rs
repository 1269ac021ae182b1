//! Annotations that wait for their axiom.
//!
//! A reification names a triple and carries annotations for it. The
//! annotations of every reification of one triple are recorded together, and
//! they stay recorded until a stage recognises the triple as an axiom. The
//! axiom then enters the ontology with all of them: with no fewer, whatever
//! the graph holds, and with no more, where no other triple gives the same
//! axiom.

use crate::io::rdf::classes::after_class_expressions;
use crate::io::rdf::declare::{
    after_declarations, after_simple_annotations, annotate_step, declare_step, no_simple,
};
use crate::io::rdf::merging::{
    lemma_classes_axioms, lemma_inverses_axioms, lemma_parsed_distinct, lemma_ranges_axioms,
    lemma_stitched_axioms,
};
use crate::io::rdf::moving::{
    can_read, emits_keep, holds_good, lemma_axioms_kept, lemma_recognised_kept, list_good,
    recognised,
};
use crate::io::rdf::parser::{initial, Buckets, ParserView, Pending};
use crate::io::rdf::reader::{loaded, parsed};
use crate::io::rdf::ranges::{after_data_ranges, after_object_property_expressions};
use crate::io::rdf::recognise::{after_axioms, axiom_step, bucket_step, recognise};
use crate::io::rdf::reify::{
    after_axiom_annotations, after_headers, header_step, last_ontology, reified, reify_step,
};
use crate::io::rdf::resolve::TablesView;
use crate::io::rdf::sequences::{no_buckets, stitched};
use crate::io::rdf::table::{
    annotations_of, keys, lemma_with_entry, lemma_without, with_annotations, without,
};
use crate::io::rdf::term::{TermView, TripleView};
use crate::model::axioms::AxiomView;
use crate::model::expression::ClassExpressionView;
use crate::model::literal::AnnotationView;
use crate::model::set::{lemma_with_members, with_members};
use crate::ontology::{
    covers, lemma_merged_covers, lemma_merged_distinct, logical_parts, logically_distinct, merged,
    AnnotatedAxiomView,
};
use crate::search::{
    first_index, lemma_first_index, lemma_fold_invariant, lemma_fold_reaches, lemma_push_contains,
};
use crate::vocab::{OWL, RDFS};
use vstd::prelude::*;

verus! {

/// The annotations that the reifications of the triple `t` among the buckets
/// carry, all together.
pub open spec fn carried(b: Buckets, t: TripleView) -> Set<AnnotationView>
    decreases b.len(),
{
    if b.len() == 0 {
        Set::empty()
    } else {
        let before = carried(b.drop_last(), t);
        match reified(b.last().1) {
            Some(r) => if r.0 == t {
                before.union(r.1.to_set())
            } else {
                before
            },
            None => before,
        }
    }
}

/// Whether the bucket reifies the triple `t`.
pub open spec fn reifies(e: (Seq<char>, Seq<TripleView>), t: TripleView) -> bool {
    match reified(e.1) {
        Some(r) => r.0 == t,
        None => false,
    }
}

/// Whether some bucket reifies the triple `t`.
pub open spec fn reified_among(b: Buckets, t: TripleView) -> bool {
    exists|i: int| 0 <= i < b.len() && reifies(#[trigger] b[i], t)
}

/// The reifications of a run of buckets, taken one after the other from any
/// state: the triple `t` then has the annotations that were recorded for it and
/// those that its reifications carry; it is a simple triple if it was one or
/// was reified; a bucket that is no reification is kept; the ontology and the
/// tables are as they were.
pub proof fn lemma_reifications_fold(b: Buckets, init: ParserView, t: TripleView)
    ensures
        ({
            let r = b.fold_left(
                init,
                |s: ParserView, e: (Seq<char>, Seq<TripleView>)| reify_step(s, e),
            );
            &&& annotations_of(r.ann_map, t).to_set() == annotations_of(
                init.ann_map,
                t,
            ).to_set().union(carried(b, t))
            &&& r.o == init.o
            &&& r.tables == init.tables
            &&& init.simple.contains(t) || reified_among(b, t) ==> r.simple.contains(t)
            &&& forall|e: (Seq<char>, Seq<TripleView>)| #[trigger]
                init.bnode.contains(e) ==> r.bnode.contains(e)
            &&& forall|e: (Seq<char>, Seq<TripleView>)| #[trigger]
                b.contains(e) && reified(e.1) is None ==> r.bnode.contains(e)
        }),
    decreases b.len(),
{
    let step = |s: ParserView, e: (Seq<char>, Seq<TripleView>)| reify_step(s, e);
    let r = b.fold_left(init, step);
    let recorded = annotations_of(init.ann_map, t).to_set();
    if b.len() == 0 {
        assert(recorded.union(carried(b, t)) =~= recorded);
    } else {
        let front = b.drop_last();
        let e = b.last();
        lemma_reifications_fold(front, init, t);
        let mid = front.fold_left(init, step);
        assert(r == reify_step(mid, e));
        let had = annotations_of(mid.ann_map, t).to_set();
        match reified(e.1) {
            Some(found) => {
                let target = found.0;
                let ann = found.1;
                let all = with_members(annotations_of(mid.ann_map, target), ann);
                lemma_with_entry(mid.ann_map, target, all, t);
                lemma_with_members(annotations_of(mid.ann_map, target), ann);
                if target == t {
                    assert(had.union(ann.to_set()) =~= recorded.union(carried(b, t)));
                }
                assert(r.simple == mid.simple.push(target));
                assert(r.simple.last() == target);
                if mid.simple.contains(t) {
                    let k = choose|k: int| 0 <= k < mid.simple.len() && mid.simple[k] == t;
                    assert(r.simple[k] == t);
                }
                assert(r.bnode == mid.bnode);
            },
            None => {
                assert(r.bnode == mid.bnode.push(e));
                assert(r.bnode.last() == e);
            },
        }
        assert forall|x: (Seq<char>, Seq<TripleView>)| mid.bnode.contains(x) implies
            r.bnode.contains(x) by {
            let k = choose|k: int| 0 <= k < mid.bnode.len() && mid.bnode[k] == x;
            assert(r.bnode[k] == x);
        }
        if reified_among(b, t) && !reifies(e, t) {
            let i = choose|i: int| 0 <= i < b.len() && reifies(#[trigger] b[i], t);
            assert(front[i] == b[i]);
            assert(reified_among(front, t));
        }
        assert forall|x: (Seq<char>, Seq<TripleView>)| #[trigger]
            init.bnode.contains(x) implies r.bnode.contains(x) by {
            assert(mid.bnode.contains(x));
        }
        assert forall|x: (Seq<char>, Seq<TripleView>)| #[trigger]
            b.contains(x) && reified(x.1) is None implies r.bnode.contains(x) by {
            if x != e {
                let k = choose|k: int| 0 <= k < b.len() && b[k] == x;
                assert(front[k] == x);
                assert(front.contains(x));
                assert(mid.bnode.contains(x));
            } else {
                assert(r.bnode.last() == e);
            }
        }
    }
}

/// Two reifications of one triple lose nothing: after the stage that reads the
/// reifications, the annotations recorded for a triple are those that were
/// recorded for it before and those of all its reifications. A triple that was
/// reified is a simple triple. The buckets that are left are those that are no
/// reifications, as they were.
pub proof fn lemma_reifications_united(st: ParserView, t: TripleView)
    ensures
        annotations_of(after_axiom_annotations(st).ann_map, t).to_set() == annotations_of(
            st.ann_map,
            t,
        ).to_set().union(carried(st.bnode, t)),
        reified_among(st.bnode, t) ==> after_axiom_annotations(st).simple.contains(t),
        forall|e: (Seq<char>, Seq<TripleView>)| #[trigger]
            st.bnode.contains(e) && reified(e.1) is None ==> after_axiom_annotations(
                st,
            ).bnode.contains(e),
        forall|e: (Seq<char>, Seq<TripleView>)| #[trigger]
            after_axiom_annotations(st).bnode.contains(e) ==> st.bnode.contains(e) && reified(
                e.1,
            ) is None,
{
    lemma_reifications_fold(st.bnode, no_buckets(st), t);
    let left = |s: ParserView|
        forall|k: int|
            0 <= k < s.bnode.len() ==> st.bnode.contains(#[trigger] s.bnode[k]) && reified(
                s.bnode[k].1,
            ) is None;
    assert forall|s: ParserView, e: (Seq<char>, Seq<TripleView>)|
        left(s) && st.bnode.contains(e) implies #[trigger] left(reify_step(s, e)) by {
        let r = reify_step(s, e);
        assert forall|k: int| 0 <= k < r.bnode.len() implies st.bnode.contains(
            #[trigger] r.bnode[k],
        ) && reified(r.bnode[k].1) is None by {
            if k < s.bnode.len() {
                assert(r.bnode[k] == s.bnode[k]);
            }
        }
    }
    assert(no_buckets(st).bnode.len() == 0);
    lemma_fold_invariant(
        st.bnode,
        no_buckets(st),
        |s: ParserView, e: (Seq<char>, Seq<TripleView>)| reify_step(s, e),
        left,
    );
    let end = after_axiom_annotations(st);
    assert forall|e: (Seq<char>, Seq<TripleView>)| #[trigger] end.bnode.contains(e) implies
        st.bnode.contains(e) && reified(e.1) is None by {
        let k = choose|k: int| 0 <= k < end.bnode.len() && end.bnode[k] == e;
        assert(st.bnode.contains(end.bnode[k]));
    }
}

/// Whether no stage before the stage of axioms reads the triple: its
/// predicate is a word of the vocabulary that is neither an annotation
/// property nor a word of the header, and not `rdf:type`.
pub open spec fn waits(t: TripleView) -> bool {
    match t.predicate {
        TermView::RDFS(v) => !v.spec_is_builtin(),
        TermView::OWL(v) => v != OWL::VersionInfo && v != OWL::VersionIRI,
        _ => false,
    }
}

/// Whether the stage of axioms reads the triple `t` as the axiom `ax`,
/// whatever the ontology and the tables hold.
pub open spec fn always_read_as(t: TripleView, ax: AxiomView) -> bool {
    forall|o: Seq<AnnotatedAxiomView>, tb: TablesView| (#[trigger] recognise(o, tb, t)).0 == Some(
        ax,
    )
}

/// The header pass leaves a triple that waits among the simple triples.
proof fn lemma_headers_leave(st: ParserView, t: TripleView)
    requires
        waits(t),
        st.simple.contains(t),
    ensures
        after_headers(st).simple.contains(t),
        after_headers(st).ann_map == st.ann_map,
        after_headers(st).o.axioms == st.o.axioms,
{
    let iri = last_ontology(st.simple);
    let f = |acc: (Seq<TripleView>, Option<Seq<char>>), x: TripleView| header_step(acc, x, iri);
    let p = |acc: (Seq<TripleView>, Option<Seq<char>>)| true;
    let q = |acc: (Seq<TripleView>, Option<Seq<char>>)| acc.0.contains(t);
    assert forall|acc: (Seq<TripleView>, Option<Seq<char>>)| p(acc) implies #[trigger] q(
        f(acc, t),
    ) by {
        lemma_push_contains(acc.0, t, t);
    }
    assert forall|acc: (Seq<TripleView>, Option<Seq<char>>), x: TripleView| q(acc) implies
        #[trigger] q(f(acc, x)) by {
        lemma_push_contains(acc.0, x, t);
    }
    lemma_fold_reaches(st.simple, (Seq::empty(), None), f, p, q, t);
}

/// The stage of declarations leaves a triple that waits among the simple
/// triples, with the annotations that wait for it.
proof fn lemma_declarations_leave(st: ParserView, t: TripleView)
    requires
        waits(t),
        st.simple.contains(t),
    ensures
        after_declarations(st).simple.contains(t),
        annotations_of(after_declarations(st).ann_map, t) == annotations_of(st.ann_map, t),
{
    let a = annotations_of(st.ann_map, t);
    let f = |s: ParserView, x: TripleView| declare_step(s, x);
    let p = |s: ParserView| annotations_of(s.ann_map, t) == a;
    let q = |s: ParserView| annotations_of(s.ann_map, t) == a && s.simple.contains(t);
    assert forall|s: ParserView, x: TripleView| p(s) && x != t implies #[trigger] p(f(s, x)) by {
        lemma_without(s.ann_map, x, t);
    }
    assert forall|s: ParserView| p(s) implies #[trigger] q(f(s, t)) by {
        lemma_push_contains(s.simple, t, t);
    }
    assert forall|s: ParserView, x: TripleView| q(s) implies #[trigger] q(f(s, x)) by {
        lemma_push_contains(s.simple, x, t);
        if x != t {
            lemma_without(s.ann_map, x, t);
        }
    }
    lemma_fold_reaches(st.simple, no_simple(st), f, p, q, t);
}

/// The stage of annotation assertions leaves a triple that waits among the
/// simple triples, with the annotations that wait for it.
proof fn lemma_assertions_leave(st: ParserView, t: TripleView)
    requires
        waits(t),
        st.simple.contains(t),
    ensures
        after_simple_annotations(st).simple.contains(t),
        annotations_of(after_simple_annotations(st).ann_map, t) == annotations_of(st.ann_map, t),
{
    let a = annotations_of(st.ann_map, t);
    let f = |s: ParserView, x: TripleView| annotate_step(s, x);
    let p = |s: ParserView| annotations_of(s.ann_map, t) == a;
    let q = |s: ParserView| annotations_of(s.ann_map, t) == a && s.simple.contains(t);
    assert forall|s: ParserView, x: TripleView| p(s) && x != t implies #[trigger] p(f(s, x)) by {
        lemma_without(s.ann_map, x, t);
    }
    assert forall|s: ParserView| p(s) implies #[trigger] q(f(s, t)) by {
        lemma_push_contains(s.simple, t, t);
    }
    assert forall|s: ParserView, x: TripleView| q(s) implies #[trigger] q(f(s, x)) by {
        lemma_push_contains(s.simple, x, t);
        if x != t {
            lemma_without(s.ann_map, x, t);
        }
    }
    lemma_fold_reaches(st.simple, no_simple(st), f, p, q, t);
}

/// The stage of axioms gives the annotations that wait for a triple to its
/// axiom: where a simple triple is always read as `ax`, the ontology holds
/// `ax` after the stage with at least the annotations that waited for the
/// triple, whatever else the state holds.
pub proof fn lemma_axioms_take_pending(st: ParserView, t: TripleView, ax: AxiomView)
    requires
        always_read_as(t, ax),
        st.simple.contains(t),
    ensures
        covers(
            after_axioms(st).o.axioms,
            AnnotatedAxiomView { ax, ann: annotations_of(st.ann_map, t).to_set() },
        ),
{
    let a = annotations_of(st.ann_map, t);
    let want = AnnotatedAxiomView { ax, ann: a.to_set() };
    let f = |s: ParserView, x: TripleView| axiom_step(s, x);
    let p = |s: ParserView| annotations_of(s.ann_map, t) == a;
    let q = |s: ParserView| covers(s.o.axioms, want);
    assert forall|s: ParserView, x: TripleView| p(s) && x != t implies #[trigger] p(f(s, x)) by {
        lemma_without(s.ann_map, x, t);
    }
    assert forall|s: ParserView| p(s) implies #[trigger] q(f(s, t)) by {
        assert(recognise(s.o.axioms, s.tables, t).0 == Some(ax));
        lemma_merged_covers(s.o.axioms, want, want);
    }
    assert forall|s: ParserView, x: TripleView| q(s) implies #[trigger] q(f(s, x)) by {
        match recognise(s.o.axioms, s.tables, x).0 {
            Some(other) => {
                lemma_merged_covers(
                    s.o.axioms,
                    AnnotatedAxiomView { ax: other, ann: annotations_of(s.ann_map, x).to_set() },
                    want,
                );
            },
            None => {},
        }
    }
    let start = no_buckets(no_simple(st));
    lemma_fold_reaches(st.simple, start, f, p, q, t);
    assert forall|s: ParserView, e: (Seq<char>, Seq<TripleView>)| q(s) implies #[trigger] q(
        bucket_step(s, e),
    ) by {
        lemma_fold_invariant(e.1, s, f, q);
    }
    lemma_fold_invariant(
        st.bnode,
        st.simple.fold_left(start, f),
        |s: ParserView, e: (Seq<char>, Seq<TripleView>)| bucket_step(s, e),
        q,
    );
}

/// The annotations that wait for a triple reach its axiom: where a simple
/// triple waits for the stage of axioms and is always read there as `ax`, the
/// ontology holds `ax` after the stages with at least the annotations that
/// waited for the triple.
pub proof fn lemma_pending_reach_axiom(st: ParserView, t: TripleView, ax: AxiomView)
    requires
        waits(t),
        always_read_as(t, ax),
        st.simple.contains(t),
    ensures
        covers(
            recognised(st).o.axioms,
            AnnotatedAxiomView { ax, ann: annotations_of(st.ann_map, t).to_set() },
        ),
{
    lemma_headers_leave(st, t);
    let st3 = after_headers(st);
    lemma_declarations_leave(st3, t);
    let st4 = after_declarations(st3);
    lemma_assertions_leave(st4, t);
    let st5 = after_simple_annotations(st4);
    lemma_ranges_axioms(st5);
    let st6 = after_data_ranges(st5);
    lemma_inverses_axioms(st6);
    let st7 = after_object_property_expressions(st6);
    lemma_classes_axioms(st7);
    let st8 = after_class_expressions(st7);
    lemma_axioms_take_pending(st8, t, ax);
}

/// Whether emitting an axiom keeps what `p` says of the axioms and of the
/// annotations that wait: the axiom is merged with the annotations that waited
/// for its triple, and these wait no longer.
pub open spec fn kept_by_emitting(p: spec_fn(Seq<AnnotatedAxiomView>, Pending) -> bool) -> bool {
    forall|o: Seq<AnnotatedAxiomView>, m: Pending, t: TripleView, ax: AxiomView|
        p(o, m) ==> #[trigger] p(
            merged(o, AnnotatedAxiomView { ax, ann: annotations_of(m, t).to_set() }),
            without(m, t),
        )
}

/// What is kept whenever an axiom is emitted is kept whenever a triple gives
/// an axiom that it can be read as.
proof fn lemma_emitting_keeps(p: spec_fn(Seq<AnnotatedAxiomView>, Pending) -> bool)
    requires
        kept_by_emitting(p),
    ensures
        emits_keep(|x: TripleView| true, p),
{
    assert forall|o: Seq<AnnotatedAxiomView>, m: Pending, x: TripleView, ax: AxiomView|
        p(o, m) implies #[trigger] p(
        merged(o, AnnotatedAxiomView { ax, ann: annotations_of(m, x).to_set() }),
        without(m, x),
    ) by {}
}

/// The stages that follow the reading of the reifications change the axioms
/// and the annotations that wait by emitting axioms alone: what holds of both
/// before these stages, and is kept whenever an axiom is emitted, holds after
/// them.
pub proof fn lemma_recognised_emits(
    st: ParserView,
    p: spec_fn(Seq<AnnotatedAxiomView>, Pending) -> bool,
)
    requires
        p(st.o.axioms, st.ann_map),
        kept_by_emitting(p),
    ensures
        p(recognised(st).o.axioms, recognised(st).ann_map),
{
    lemma_emitting_keeps(p);
    lemma_recognised_kept(st, |x: TripleView| true, p);
}

/// The stage of axioms changes the axioms and the annotations that wait by
/// emitting axioms alone.
pub proof fn lemma_axioms_emit(st: ParserView, p: spec_fn(Seq<AnnotatedAxiomView>, Pending) -> bool)
    requires
        p(st.o.axioms, st.ann_map),
        kept_by_emitting(p),
    ensures
        p(after_axioms(st).o.axioms, after_axioms(st).ann_map),
{
    lemma_emitting_keeps(p);
    lemma_axioms_kept(st, |x: TripleView| true, p);
}

/// The stage of axioms merges: where the ontology holds `ax` already, with any
/// annotations, and a simple triple is always read as `ax`, the ontology holds
/// `ax` once after the stage, with at least the annotations that it had and
/// those that waited for the triple, whatever else the state holds.
pub proof fn lemma_axioms_merge_pending(st: ParserView, t: TripleView, ax: AxiomView, i: int)
    requires
        always_read_as(t, ax),
        st.simple.contains(t),
        logically_distinct(st.o.axioms),
        0 <= i < st.o.axioms.len(),
        st.o.axioms[i].ax == ax,
    ensures
        logically_distinct(after_axioms(st).o.axioms),
        covers(
            after_axioms(st).o.axioms,
            AnnotatedAxiomView {
                ax,
                ann: st.o.axioms[i].ann.union(annotations_of(st.ann_map, t).to_set()),
            },
        ),
{
    let had = st.o.axioms[i];
    let distinct = |o: Seq<AnnotatedAxiomView>, m: Pending| logically_distinct(o);
    assert forall|o: Seq<AnnotatedAxiomView>, m: Pending, x: TripleView, a: AxiomView|
        distinct(o, m) implies #[trigger] distinct(
        merged(o, AnnotatedAxiomView { ax: a, ann: annotations_of(m, x).to_set() }),
        without(m, x),
    ) by {
        lemma_merged_distinct(o, AnnotatedAxiomView { ax: a, ann: annotations_of(m, x).to_set() });
    }
    lemma_axioms_emit(st, distinct);
    let keeps = |o: Seq<AnnotatedAxiomView>, m: Pending| covers(o, had);
    assert forall|o: Seq<AnnotatedAxiomView>, m: Pending, x: TripleView, a: AxiomView|
        keeps(o, m) implies #[trigger] keeps(
        merged(o, AnnotatedAxiomView { ax: a, ann: annotations_of(m, x).to_set() }),
        without(m, x),
    ) by {
        lemma_merged_covers(
            o,
            AnnotatedAxiomView { ax: a, ann: annotations_of(m, x).to_set() },
            had,
        );
    }
    lemma_axioms_emit(st, keeps);
    lemma_axioms_take_pending(st, t, ax);
    let s = after_axioms(st).o.axioms;
    let waited = annotations_of(st.ann_map, t).to_set();
    let j = choose|j: int| 0 <= j < s.len() && (#[trigger] s[j]).ax == ax && had.ann.subset_of(
        s[j].ann,
    );
    let k = choose|k: int| 0 <= k < s.len() && (#[trigger] s[k]).ax == ax && waited.subset_of(
        s[k].ann,
    );
    if j < k {
        assert(s[j].ax != s[k].ax);
    }
    if k < j {
        assert(s[k].ax != s[j].ax);
    }
    assert(had.ann.union(waited).subset_of(s[j].ann));
}

/// Whether every annotation of an axiom, and every annotation that waits, is
/// one of `w`.
pub open spec fn within(o: Seq<AnnotatedAxiomView>, m: Pending, w: Set<AnnotationView>) -> bool {
    &&& forall|j: int| 0 <= j < o.len() ==> (#[trigger] o[j]).ann.subset_of(w)
    &&& forall|i: int| 0 <= i < m.len() ==> (#[trigger] m[i]).1.to_set().subset_of(w)
}

/// Emitting an axiom invents no annotation.
pub proof fn lemma_within_kept(w: Set<AnnotationView>)
    ensures
        kept_by_emitting(|o: Seq<AnnotatedAxiomView>, m: Pending| within(o, m, w)),
{
    assert forall|o: Seq<AnnotatedAxiomView>, m: Pending, t: TripleView, ax: AxiomView|
        within(o, m, w) implies #[trigger] within(
        merged(o, AnnotatedAxiomView { ax, ann: annotations_of(m, t).to_set() }),
        without(m, t),
        w,
    ) by {
        let x = AnnotatedAxiomView { ax, ann: annotations_of(m, t).to_set() };
        let o1 = merged(o, x);
        let m1 = without(m, t);
        lemma_first_index(keys(m), t);
        lemma_first_index(logical_parts(o), ax);
        match first_index(keys(m), t) {
            Some(i) => {
                assert(m[i].1.to_set().subset_of(w));
                assert forall|k: int| 0 <= k < m1.len() implies (#[trigger] m1[k]).1.to_set().subset_of(
                    w,
                ) by {
                    let k0 = if k < i {
                        k
                    } else {
                        k + 1
                    };
                    assert(m1[k] == m[k0]);
                }
            },
            None => {
                assert(x.ann =~= Set::<AnnotationView>::empty());
            },
        }
        assert(x.ann.subset_of(w));
        assert forall|j: int| 0 <= j < o1.len() implies (#[trigger] o1[j]).ann.subset_of(w) by {
            match first_index(logical_parts(o), ax) {
                Some(i) => {
                    if j < o1.len() - 1 {
                        let j0 = if j < i {
                            j
                        } else {
                            j + 1
                        };
                        assert(o1[j] == o[j0]);
                    } else {
                        assert(o[i].ann.subset_of(w));
                    }
                },
                None => {
                    if j < o.len() {
                        assert(o1[j] == o[j]);
                    }
                },
            }
        }
    }
}

/// What the reifications of `t` carry together holds what each of them carries.
pub proof fn lemma_carried_holds(b: Buckets, t: TripleView, i: int)
    requires
        0 <= i < b.len(),
        reifies(b[i], t),
    ensures
        match reified(b[i].1) {
            Some(r) => r.1.to_set().subset_of(carried(b, t)),
            None => false,
        },
    decreases b.len(),
{
    if i < b.len() - 1 {
        lemma_carried_holds(b.drop_last(), t, i);
    }
}

/// Whether the bucket reifies the triple `t` and carries the annotation `a`.
pub open spec fn carries(e: (Seq<char>, Seq<TripleView>), t: TripleView, a: AnnotationView) -> bool {
    match reified(e.1) {
        Some(r) => r.0 == t && r.1.contains(a),
        None => false,
    }
}

/// What the reifications of `t` carry together is what some reification of `t`
/// carries.
pub proof fn lemma_carried_from(b: Buckets, t: TripleView, a: AnnotationView)
    ensures
        carried(b, t).contains(a) <==> exists|i: int| 0 <= i < b.len() && carries(#[trigger] b[i], t, a),
    decreases b.len(),
{
    if b.len() > 0 {
        let front = b.drop_last();
        lemma_carried_from(front, t, a);
        if exists|i: int| 0 <= i < b.len() && carries(#[trigger] b[i], t, a) {
            let i = choose|i: int| 0 <= i < b.len() && carries(#[trigger] b[i], t, a);
            if i < front.len() {
                assert(front[i] == b[i]);
            }
        }
        if carried(b, t).contains(a) {
            if carried(front, t).contains(a) {
                let i = choose|i: int| 0 <= i < front.len() && carries(#[trigger] front[i], t, a);
                assert(b[i] == front[i]);
            } else {
                assert(carries(b[b.len() - 1], t, a));
            }
        }
    }
}

/// Two reifications of one triple carry together the annotations of both.
pub proof fn lemma_carried_by_two(
    first: (Seq<char>, Seq<TripleView>),
    second: (Seq<char>, Seq<TripleView>),
    t: TripleView,
)
    requires
        reifies(first, t),
        reifies(second, t),
    ensures
        match (reified(first.1), reified(second.1)) {
            (Some(x), Some(y)) => carried(seq![first, second], t) == x.1.to_set().union(
                y.1.to_set(),
            ),
            _ => false,
        },
{
    let b = seq![first, second];
    assert(b.drop_last() =~= seq![first]);
    assert(b.drop_last().drop_last() =~= Seq::<(Seq<char>, Seq<TripleView>)>::empty());
    reveal_with_fuel(carried, 3);
    let x = reified(first.1)->0;
    let y = reified(second.1)->0;
    assert(carried(b, t) =~= x.1.to_set().union(y.1.to_set()));
}

/// Reading reifications invents no annotation: where every annotation of the
/// state and of every reification is one of `w`, so is every annotation that
/// waits afterwards.
proof fn lemma_reifications_within(st: ParserView, w: Set<AnnotationView>)
    requires
        within(st.o.axioms, st.ann_map, w),
        forall|i: int|
            0 <= i < st.bnode.len() ==> match reified((#[trigger] st.bnode[i]).1) {
                Some(r) => r.1.to_set().subset_of(w),
                None => true,
            },
    ensures
        within(after_axiom_annotations(st).o.axioms, after_axiom_annotations(st).ann_map, w),
{
    let inv = |s: ParserView| within(s.o.axioms, s.ann_map, w);
    assert forall|s: ParserView, e: (Seq<char>, Seq<TripleView>)|
        inv(s) && st.bnode.contains(e) implies #[trigger] inv(reify_step(s, e)) by {
        let i = choose|i: int| 0 <= i < st.bnode.len() && st.bnode[i] == e;
        assert(st.bnode[i].1 == e.1);
        match reified(e.1) {
            Some(r) => {
                let m = s.ann_map;
                let had = annotations_of(m, r.0);
                let m1 = with_annotations(m, r.0, r.1);
                lemma_with_members(had, r.1);
                lemma_first_index(keys(m), r.0);
                match first_index(keys(m), r.0) {
                    Some(k) => {
                        assert(m[k].1.to_set().subset_of(w));
                    },
                    None => {
                        assert(had.to_set() =~= Set::<AnnotationView>::empty());
                    },
                }
                assert(with_members(had, r.1).to_set().subset_of(w));
                assert forall|k: int| 0 <= k < m1.len() implies (#[trigger] m1[k]).1.to_set().subset_of(
                    w,
                ) by {
                    if k < m.len() && m1[k] == m[k] {
                    }
                }
            },
            None => {},
        }
    }
    lemma_fold_invariant(
        st.bnode,
        no_buckets(st),
        |s: ParserView, e: (Seq<char>, Seq<TripleView>)| reify_step(s, e),
        inv,
    );
}

/// The buckets of a graph when the reifications are read: the triples of each
/// blank node, without the cells of the lists.
pub open spec fn buckets_of(ts: Seq<TripleView>) -> Buckets {
    stitched(loaded(initial(), ts)).bnode
}

/// A parse loses no annotation of a reified axiom: where a graph reifies a
/// triple that waits for the stage of axioms and is always read there as `ax`,
/// the parsed ontology holds `ax` with at least the annotations of all the
/// reifications of the triple.
pub proof fn lemma_parsed_holds_carried(ts: Seq<TripleView>, t: TripleView, ax: AxiomView)
    requires
        waits(t),
        always_read_as(t, ax),
        reified_among(buckets_of(ts), t),
    ensures
        covers(parsed(ts).o.axioms, AnnotatedAxiomView { ax, ann: carried(buckets_of(ts), t) }),
{
    let st0 = loaded(initial(), ts);
    lemma_stitched_axioms(st0);
    let st1 = stitched(st0);
    lemma_reifications_united(st1, t);
    let st2 = after_axiom_annotations(st1);
    assert(parsed(ts) == recognised(st2));
    assert(annotations_of(st1.ann_map, t).to_set() =~= Set::<AnnotationView>::empty());
    assert(annotations_of(st2.ann_map, t).to_set() =~= carried(st1.bnode, t));
    lemma_pending_reach_axiom(st2, t, ax);
}

/// Two reification blocks on one triple give one axiom with the annotations of
/// both. Where every reification of a graph has the same target, a triple that
/// waits for the stage of axioms and is always read there as `ax`, the parsed
/// ontology holds `ax` once, and its annotations are exactly those that the
/// reifications carry, all together.
pub proof fn lemma_reifications_unite(ts: Seq<TripleView>, t: TripleView, ax: AxiomView)
    requires
        waits(t),
        always_read_as(t, ax),
        reified_among(buckets_of(ts), t),
        forall|i: int|
            0 <= i < buckets_of(ts).len() && reified((#[trigger] buckets_of(ts)[i]).1) is Some
                ==> reifies(buckets_of(ts)[i], t),
    ensures
        logically_distinct(parsed(ts).o.axioms),
        exists|j: int|
            0 <= j < parsed(ts).o.axioms.len() && #[trigger] parsed(ts).o.axioms[j]
                == (AnnotatedAxiomView { ax, ann: carried(buckets_of(ts), t) }),
{
    let st0 = loaded(initial(), ts);
    lemma_stitched_axioms(st0);
    let st1 = stitched(st0);
    let b = st1.bnode;
    let w = carried(b, t);
    assert forall|i: int| 0 <= i < b.len() implies match reified((#[trigger] b[i]).1) {
        Some(r) => r.1.to_set().subset_of(w),
        None => true,
    } by {
        if reified(b[i].1) is Some {
            lemma_carried_holds(b, t, i);
        }
    }
    lemma_reifications_within(st1, w);
    let st2 = after_axiom_annotations(st1);
    assert(parsed(ts) == recognised(st2));
    lemma_within_kept(w);
    lemma_recognised_emits(st2, |o: Seq<AnnotatedAxiomView>, m: Pending| within(o, m, w));
    lemma_parsed_holds_carried(ts, t, ax);
    lemma_parsed_distinct(ts);
    let s = parsed(ts).o.axioms;
    let j = choose|j: int| 0 <= j < s.len() && (#[trigger] s[j]).ax == ax && w.subset_of(s[j].ann);
    assert(s[j].ann.subset_of(w));
    assert(s[j].ann =~= w);
}

/// Whether the triple is `t`, or no stage can read it as the axiom `ax`.
pub open spec fn no_other_source(x: TripleView, t: TripleView, ax: AxiomView) -> bool {
    x == t || !can_read(x, ax)
}

/// Whether every annotation of the axiom `ax`, and every annotation that waits
/// for the triple `t`, is one of `w`.
pub open spec fn within_for(
    o: Seq<AnnotatedAxiomView>,
    m: Pending,
    t: TripleView,
    ax: AxiomView,
    w: Set<AnnotationView>,
) -> bool {
    &&& forall|j: int| 0 <= j < o.len() && (#[trigger] o[j]).ax == ax ==> o[j].ann.subset_of(w)
    &&& forall|i: int| 0 <= i < m.len() && (#[trigger] m[i]).0 == t ==> m[i].1.to_set().subset_of(w)
}

/// Where `t` is the only triple that is read as `ax`, no emitted axiom gives
/// `ax` an annotation that did not wait for `t`.
proof fn lemma_within_for_kept(t: TripleView, ax: AxiomView, w: Set<AnnotationView>)
    ensures
        emits_keep(
            |x: TripleView| no_other_source(x, t, ax),
            |o: Seq<AnnotatedAxiomView>, m: Pending| within_for(o, m, t, ax, w),
        ),
{
    assert forall|o: Seq<AnnotatedAxiomView>, m: Pending, x: TripleView, ax2: AxiomView|
        within_for(o, m, t, ax, w) && no_other_source(x, t, ax) && can_read(x, ax2)
        implies #[trigger] within_for(
        merged(o, AnnotatedAxiomView { ax: ax2, ann: annotations_of(m, x).to_set() }),
        without(m, x),
        t,
        ax,
        w,
    ) by {
        let a = AnnotatedAxiomView { ax: ax2, ann: annotations_of(m, x).to_set() };
        let o1 = merged(o, a);
        let m1 = without(m, x);
        lemma_first_index(keys(m), x);
        lemma_first_index(logical_parts(o), ax2);
        match first_index(keys(m), x) {
            Some(i) => {
                assert(keys(m)[i] == m[i].0);
                assert forall|k: int| 0 <= k < m1.len() && (#[trigger] m1[k]).0 == t implies m1[k].1.to_set().subset_of(
                    w,
                ) by {
                    let k0 = if k < i {
                        k
                    } else {
                        k + 1
                    };
                    assert(m1[k] == m[k0]);
                }
            },
            None => {
                assert(a.ann =~= Set::<AnnotationView>::empty());
            },
        }
        assert(ax2 == ax ==> a.ann.subset_of(w));
        assert forall|j: int| 0 <= j < o1.len() && (#[trigger] o1[j]).ax == ax implies o1[j].ann.subset_of(
            w,
        ) by {
            match first_index(logical_parts(o), ax2) {
                Some(i) => {
                    assert(logical_parts(o)[i] == o[i].ax);
                    if j < o1.len() - 1 {
                        let j0 = if j < i {
                            j
                        } else {
                            j + 1
                        };
                        assert(o1[j] == o[j0]);
                    }
                },
                None => {
                    if j < o.len() {
                        assert(o1[j] == o[j]);
                    }
                },
            }
        }
    }
}

/// Reading reifications gives the triple `t` no annotation but those that its
/// reifications carry.
proof fn lemma_reifications_within_for(
    st: ParserView,
    t: TripleView,
    ax: AxiomView,
    w: Set<AnnotationView>,
)
    requires
        within_for(st.o.axioms, st.ann_map, t, ax, w),
        carried(st.bnode, t).subset_of(w),
    ensures
        within_for(
            after_axiom_annotations(st).o.axioms,
            after_axiom_annotations(st).ann_map,
            t,
            ax,
            w,
        ),
{
    let inv = |s: ParserView| within_for(s.o.axioms, s.ann_map, t, ax, w);
    assert forall|s: ParserView, e: (Seq<char>, Seq<TripleView>)|
        inv(s) && st.bnode.contains(e) implies #[trigger] inv(reify_step(s, e)) by {
        let i = choose|i: int| 0 <= i < st.bnode.len() && st.bnode[i] == e;
        match reified(e.1) {
            Some(r) => {
                let m = s.ann_map;
                let had = annotations_of(m, r.0);
                let m1 = with_annotations(m, r.0, r.1);
                lemma_with_members(had, r.1);
                lemma_first_index(keys(m), r.0);
                if r.0 == t {
                    assert(reifies(st.bnode[i], t));
                    lemma_carried_holds(st.bnode, t, i);
                    match first_index(keys(m), r.0) {
                        Some(k) => {
                            assert(keys(m)[k] == m[k].0);
                        },
                        None => {
                            assert(had.to_set() =~= Set::<AnnotationView>::empty());
                        },
                    }
                    assert(with_members(had, r.1).to_set().subset_of(w));
                }
                assert forall|k: int| 0 <= k < m1.len() && (#[trigger] m1[k]).0 == t implies m1[k].1.to_set().subset_of(
                    w,
                ) by {
                    if k < m.len() && m1[k] == m[k] {
                    }
                }
            },
            None => {},
        }
    }
    lemma_fold_invariant(
        st.bnode,
        no_buckets(st),
        |s: ParserView, e: (Seq<char>, Seq<TripleView>)| reify_step(s, e),
        inv,
    );
}

/// Whether every target of a reification among the buckets is good.
pub open spec fn targets_good(b: Buckets, good: spec_fn(TripleView) -> bool) -> bool {
    forall|i: int|
        0 <= i < b.len() ==> match reified((#[trigger] b[i]).1) {
            Some(r) => good(r.0),
            None => true,
        }
}

/// Reading reifications leaves good triples only, where the state held good
/// triples only and every target of a reification is good.
proof fn lemma_reifications_good(st: ParserView, good: spec_fn(TripleView) -> bool)
    requires
        holds_good(st, good),
        targets_good(st.bnode, good),
    ensures
        holds_good(after_axiom_annotations(st), good),
{
    let inv = |s: ParserView| holds_good(s, good);
    assert forall|s: ParserView, e: (Seq<char>, Seq<TripleView>)|
        inv(s) && st.bnode.contains(e) implies #[trigger] inv(reify_step(s, e)) by {
        let i = choose|i: int| 0 <= i < st.bnode.len() && st.bnode[i] == e;
        assert(list_good(st.bnode[i].1, good));
        let r = reify_step(s, e);
        assert forall|k: int| 0 <= k < r.bnode.len() implies list_good(
            (#[trigger] r.bnode[k]).1,
            good,
        ) by {
            if k < s.bnode.len() {
                assert(list_good(s.bnode[k].1, good));
            }
        }
        assert forall|k: int| 0 <= k < r.simple.len() implies good(#[trigger] r.simple[k]) by {
            if k < s.simple.len() {
                assert(good(s.simple[k]));
            }
        }
    }
    assert(no_buckets(st).bnode.len() == 0);
    lemma_fold_invariant(
        st.bnode,
        no_buckets(st),
        |s: ParserView, e: (Seq<char>, Seq<TripleView>)| reify_step(s, e),
        inv,
    );
}

/// Whether `t` is the only triple of the state that can be read as `ax`:
/// every triple that the state holds, and every target of a reification, is
/// `t` or can be read as `ax` at no stage.
pub open spec fn only_source(st: ParserView, t: TripleView, ax: AxiomView) -> bool {
    holds_good(st, |x: TripleView| no_other_source(x, t, ax)) && targets_good(
        st.bnode,
        |x: TripleView| no_other_source(x, t, ax),
    )
}

/// A reified axiom has exactly the annotations of its reifications. Where a
/// graph reifies a triple that waits for the stage of axioms and is always
/// read there as `ax`, and no other triple of the graph can be read as `ax`,
/// the parsed ontology holds `ax` once, and its annotations are those that the
/// reifications of the triple carry, all together: whatever else the graph
/// holds, and however many reifications the triple has.
pub proof fn lemma_reified_axiom(ts: Seq<TripleView>, t: TripleView, ax: AxiomView)
    requires
        waits(t),
        always_read_as(t, ax),
        reified_among(buckets_of(ts), t),
        only_source(stitched(loaded(initial(), ts)), t, ax),
    ensures
        logically_distinct(parsed(ts).o.axioms),
        exists|j: int|
            0 <= j < parsed(ts).o.axioms.len() && #[trigger] parsed(ts).o.axioms[j]
                == (AnnotatedAxiomView { ax, ann: carried(buckets_of(ts), t) }),
{
    let st0 = loaded(initial(), ts);
    lemma_stitched_axioms(st0);
    let st1 = stitched(st0);
    let w = carried(st1.bnode, t);
    let good = |x: TripleView| no_other_source(x, t, ax);
    let inv = |o: Seq<AnnotatedAxiomView>, m: Pending| within_for(o, m, t, ax, w);
    lemma_reifications_within_for(st1, t, ax, w);
    lemma_reifications_good(st1, good);
    let st2 = after_axiom_annotations(st1);
    assert(parsed(ts) == recognised(st2));
    lemma_within_for_kept(t, ax, w);
    lemma_recognised_kept(st2, good, inv);
    lemma_parsed_holds_carried(ts, t, ax);
    lemma_parsed_distinct(ts);
    let s = parsed(ts).o.axioms;
    let j = choose|j: int| 0 <= j < s.len() && (#[trigger] s[j]).ax == ax && w.subset_of(s[j].ann);
    assert(s[j].ann.subset_of(w));
    assert(s[j].ann =~= w);
}

/// A triple with another subject than the class `a`, or with another
/// predicate than `rdfs:subClassOf`, is never read as the axiom that makes `a`
/// a subclass of `b`.
pub proof fn lemma_sub_class_sources(a: Seq<char>, b: Seq<char>, x: TripleView)
    requires
        x.subject != TermView::Iri(a) || x.predicate != TermView::RDFS(RDFS::SubClassOf),
    ensures
        no_other_source(
            x,
            sub_class_triple(a, b),
            AxiomView::SubClassOf {
                sub: ClassExpressionView::Class(a),
                sup: ClassExpressionView::Class(b),
            },
        ),
{
}

/// The triple that states that the class `a` is a subclass of the class `b`.
pub open spec fn sub_class_triple(a: Seq<char>, b: Seq<char>) -> TripleView {
    TripleView {
        subject: TermView::Iri(a),
        predicate: TermView::RDFS(RDFS::SubClassOf),
        object: TermView::Iri(b),
    }
}

/// A triple that makes one named class a subclass of another waits for the
/// stage of axioms, and is always read there as that axiom.
pub proof fn lemma_sub_class_always_read(a: Seq<char>, b: Seq<char>)
    ensures
        waits(sub_class_triple(a, b)),
        always_read_as(
            sub_class_triple(a, b),
            AxiomView::SubClassOf {
                sub: ClassExpressionView::Class(a),
                sup: ClassExpressionView::Class(b),
            },
        ),
{
}

} // verus!
