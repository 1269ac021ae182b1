//! Accounting for the triples of a parse.
//!
//! At every moment of a parse each triple is in one place: among the simple
//! triples or in the bucket of its blank node. A stage looks at each triple
//! once; a triple that a rule of the stage recognises leaves the collections
//! and counts as consumed by the stage, any other stays. So the triples that
//! a parse was given, with the targets that reifications handed on, are the
//! triples that the stages consumed and the triples that are left.

use crate::io::rdf::classes::{after_class_expressions, build_ce, class_step, classed_once};
use crate::io::rdf::declare::{
    after_declarations, after_simple_annotations, annotate_step, assertion_of, declaration_of,
    declare_step, no_simple,
};
use crate::io::rdf::parser::{group_step, grouped, initial, Buckets, ParserView};
use crate::io::rdf::ranges::{
    after_data_ranges, after_object_property_expressions, build_dr, inverse_of, ope_step,
    range_step, ranged_once, split_inverse, split_step,
};
use crate::io::rdf::reader::{classified, loaded, nothing_left, parsed, residual_of};
use crate::io::rdf::recognise::{after_axioms, axiom_step, bucket_step, recognise};
use crate::io::rdf::reify::{
    after_axiom_annotations, after_headers, header_pass, header_step, last_ontology,
    ontology_triple, reified, reify_step, version_triple,
};
use crate::io::rdf::sequences::{
    extend_step, extended, extended_once, inner_cell, keep, last_cell, no_buckets, seed_step,
    seeded, stitched,
};
use crate::io::rdf::sort::{canonical, lemma_canonical};
use crate::io::rdf::table::{keys, lookup};
use crate::io::rdf::term::{TermView, TripleView};
use crate::search::{first_index, lemma_first_index, lemma_fold_invariant};
use vstd::multiset::Multiset;
use vstd::prelude::*;

verus! {

/// The sum of what `w` gives for each member of the list.
pub open spec fn weights<E>(s: Seq<E>, w: spec_fn(E) -> Multiset<TripleView>) -> Multiset<
    TripleView,
> {
    s.fold_left(Multiset::empty(), |m: Multiset<TripleView>, e: E| m.add(w(e)))
}

/// The triples of a bucket.
pub open spec fn of_bucket() -> spec_fn((Seq<char>, Seq<TripleView>)) -> Multiset<TripleView> {
    |e: (Seq<char>, Seq<TripleView>)| e.1.to_multiset()
}

/// A triple by itself.
pub open spec fn of_triple() -> spec_fn(TripleView) -> Multiset<TripleView> {
    |t: TripleView| Multiset::singleton(t)
}

/// The triples in the buckets.
pub open spec fn in_buckets(b: Buckets) -> Multiset<TripleView> {
    weights(b, of_bucket())
}

/// The triples that the working collections hold.
pub open spec fn held(st: ParserView) -> Multiset<TripleView> {
    st.simple.to_multiset().add(in_buckets(st.bnode))
}

/// The sum of what `c` gives at each step of a fold, for the state before the
/// step and the member that the step takes.
pub open spec fn along<S, E>(
    s: Seq<E>,
    init: S,
    f: spec_fn(S, E) -> S,
    c: spec_fn(S, E) -> Multiset<TripleView>,
) -> Multiset<TripleView>
    decreases s.len(),
{
    if s.len() == 0 {
        Multiset::empty()
    } else {
        along(s.drop_last(), init, f, c).add(c(s.drop_last().fold_left(init, f), s.last()))
    }
}

/// The weights of a list with one more member.
pub proof fn lemma_weights_push<E>(s: Seq<E>, e: E, w: spec_fn(E) -> Multiset<TripleView>)
    ensures
        weights(s.push(e), w) == weights(s, w).add(w(e)),
{
    assert(s.push(e).drop_last() =~= s);
}

/// The triples of a list, each by itself, are the triples of the list.
pub proof fn lemma_weights_of_triples(s: Seq<TripleView>)
    ensures
        weights(s, of_triple()) == s.to_multiset(),
    decreases s.len(),
{
    broadcast use vstd::multiset::group_multiset_axioms;
    broadcast use vstd::seq_lib::group_to_multiset_ensures;

    if s.len() == 0 {
        assert(s.to_multiset() =~= Multiset::<TripleView>::empty());
    } else {
        lemma_weights_of_triples(s.drop_last());
        assert(s.drop_last().push(s.last()) =~= s);
        assert(s.to_multiset() =~= s.drop_last().to_multiset().insert(s.last()));
        assert(weights(s, of_triple()) =~= s.to_multiset());
    }
}

/// The weights of a list in which one member was replaced.
pub proof fn lemma_weights_update<E>(
    s: Seq<E>,
    i: int,
    e: E,
    w: spec_fn(E) -> Multiset<TripleView>,
    more: Multiset<TripleView>,
)
    requires
        0 <= i < s.len(),
        w(e) == w(s[i]).add(more),
    ensures
        weights(s.update(i, e), w) == weights(s, w).add(more),
    decreases s.len(),
{
    broadcast use vstd::multiset::group_multiset_axioms;

    if i == s.len() - 1 {
        assert(s.update(i, e).drop_last() =~= s.drop_last());
        assert(weights(s.update(i, e), w) =~= weights(s, w).add(more));
    } else {
        lemma_weights_update(s.drop_last(), i, e, w, more);
        assert(s.update(i, e).drop_last() =~= s.drop_last().update(i, e));
        assert(weights(s.update(i, e), w) =~= weights(s, w).add(more));
    }
}

/// The flow of triples through a fold. Where each step adds to what the state
/// holds the weight of its member and what it gives, and takes away what it
/// consumes, the whole fold adds the weights of the list and all that was
/// given, and takes away all that was consumed.
pub proof fn lemma_flow<S, E>(
    s: Seq<E>,
    init: S,
    f: spec_fn(S, E) -> S,
    h: spec_fn(S) -> Multiset<TripleView>,
    w: spec_fn(E) -> Multiset<TripleView>,
    c: spec_fn(S, E) -> Multiset<TripleView>,
    g: spec_fn(S, E) -> Multiset<TripleView>,
)
    requires
        forall|st: S, e: E| #[trigger]
            h(f(st, e)).add(c(st, e)) == h(st).add(w(e)).add(g(st, e)),
    ensures
        h(s.fold_left(init, f)).add(along(s, init, f, c)) == h(init).add(weights(s, w)).add(
            along(s, init, f, g),
        ),
    decreases s.len(),
{
    broadcast use vstd::multiset::group_multiset_axioms;

    if s.len() == 0 {
        assert(h(s.fold_left(init, f)).add(along(s, init, f, c)) =~= h(init).add(
            weights(s, w),
        ).add(along(s, init, f, g)));
    } else {
        let front = s.drop_last();
        let st = front.fold_left(init, f);
        let e = s.last();
        lemma_flow(front, init, f, h, w, c, g);
        let before_l = h(st).add(along(front, init, f, c));
        let before_r = h(init).add(weights(front, w)).add(along(front, init, f, g));
        let step_l = h(f(st, e)).add(c(st, e));
        let step_r = h(st).add(w(e)).add(g(st, e));
        assert(before_l == before_r);
        assert(step_l == step_r);
        let l = h(s.fold_left(init, f)).add(along(s, init, f, c));
        let r = h(init).add(weights(s, w)).add(along(s, init, f, g));
        assert(weights(s, w) == weights(front, w).add(w(e)));
        assert forall|x: TripleView| l.count(x) == r.count(x) by {
            assert(before_l.count(x) == before_r.count(x));
            assert(step_l.count(x) == step_r.count(x));
        }
        assert(l =~= r);
    }
}

/// No triples.
pub open spec fn nothing<S, E>() -> spec_fn(S, E) -> Multiset<TripleView> {
    |st: S, e: E| Multiset::empty()
}

/// Nothing, summed along a fold, is nothing.
pub proof fn lemma_along_nothing<S, E>(s: Seq<E>, init: S, f: spec_fn(S, E) -> S)
    ensures
        along(s, init, f, nothing::<S, E>()) == Multiset::<TripleView>::empty(),
    decreases s.len(),
{
    broadcast use vstd::multiset::group_multiset_axioms;

    if s.len() > 0 {
        lemma_along_nothing(s.drop_last(), init, f);
        assert(along(s, init, f, nothing::<S, E>()) =~= Multiset::<TripleView>::empty());
    }
}

/// The triples of the bucket if `b` holds, else none.
pub open spec fn bucket_if(b: bool, e: (Seq<char>, Seq<TripleView>)) -> Multiset<TripleView> {
    if b {
        e.1.to_multiset()
    } else {
        Multiset::empty()
    }
}

/// The triple if `b` holds, else none.
pub open spec fn triple_if(b: bool, t: TripleView) -> Multiset<TripleView> {
    if b {
        Multiset::singleton(t)
    } else {
        Multiset::empty()
    }
}

/// A state without buckets holds its simple triples.
pub proof fn lemma_held_no_buckets(st: ParserView)
    ensures
        held(no_buckets(st)) == st.simple.to_multiset(),
{
    broadcast use vstd::multiset::group_multiset_axioms;

    assert(held(no_buckets(st)) =~= st.simple.to_multiset());
}

/// A state without simple triples holds the triples of its buckets.
pub proof fn lemma_held_no_simple(st: ParserView)
    ensures
        held(no_simple(st)) == in_buckets(st.bnode),
{
    broadcast use vstd::multiset::group_multiset_axioms;
    broadcast use vstd::seq_lib::group_to_multiset_ensures;

    assert(Seq::<TripleView>::empty().to_multiset() =~= Multiset::<TripleView>::empty());
    assert(held(no_simple(st)) =~= in_buckets(st.bnode));
}

/// A bucket that is kept adds its triples to what the state holds.
pub proof fn lemma_held_keep(st: ParserView, e: (Seq<char>, Seq<TripleView>))
    ensures
        held(keep(st, e)) == held(st).add(e.1.to_multiset()),
{
    broadcast use vstd::multiset::group_multiset_axioms;

    lemma_weights_push(st.bnode, e, of_bucket());
    assert(held(keep(st, e)) =~= held(st).add(e.1.to_multiset()));
}

/// A simple triple that is added adds itself to what the state holds.
pub proof fn lemma_held_push(st: ParserView, t: TripleView)
    ensures
        held(ParserView { simple: st.simple.push(t), ..st }) == held(st).add(
            Multiset::singleton(t),
        ),
{
    broadcast use vstd::multiset::group_multiset_axioms;
    broadcast use vstd::seq_lib::group_to_multiset_ensures;

    assert(held(ParserView { simple: st.simple.push(t), ..st }) =~= held(st).add(
        Multiset::singleton(t),
    ));
}

/// Grouping puts each triple in one place: the collections hold what they held
/// before and the triples that were grouped.
pub proof fn lemma_grouped_holds(ts: Seq<TripleView>, simple: Seq<TripleView>, bnode: Buckets)
    ensures
        grouped(ts, simple, bnode).0.to_multiset().add(in_buckets(grouped(ts, simple, bnode).1))
            == simple.to_multiset().add(in_buckets(bnode)).add(ts.to_multiset()),
{
    broadcast use vstd::multiset::group_multiset_axioms;
    broadcast use vstd::seq_lib::group_to_multiset_ensures;

    let f = |acc: (Seq<TripleView>, Buckets), t: TripleView| group_step(acc, t);
    let h = |acc: (Seq<TripleView>, Buckets)| acc.0.to_multiset().add(in_buckets(acc.1));
    let none = nothing::<(Seq<TripleView>, Buckets), TripleView>();
    assert forall|acc: (Seq<TripleView>, Buckets), t: TripleView| #[trigger]
        h(f(acc, t)).add(none(acc, t)) == h(acc).add(of_triple()(t)).add(none(acc, t)) by {
        match t.subject {
            TermView::BNode(id) => {
                lemma_first_index(keys(acc.1), id);
                match first_index(keys(acc.1), id) {
                    Some(i) => {
                        let e = (acc.1[i].0, acc.1[i].1.push(t));
                        assert(of_bucket()(e) =~= of_bucket()(acc.1[i]).add(
                            Multiset::singleton(t),
                        ));
                        lemma_weights_update(acc.1, i, e, of_bucket(), Multiset::singleton(t));
                    },
                    None => {
                        lemma_weights_push(acc.1, (id, seq![t]), of_bucket());
                        assert(seq![t] =~= Seq::<TripleView>::empty().push(t));
                        assert(seq![t].to_multiset() =~= Multiset::singleton(t));
                    },
                }
            },
            _ => {},
        }
        assert(h(f(acc, t)).add(none(acc, t)) =~= h(acc).add(of_triple()(t)).add(none(acc, t)));
    }
    lemma_flow(ts, (simple, bnode), f, h, of_triple(), none, none);
    lemma_along_nothing(ts, (simple, bnode), f);
    lemma_weights_of_triples(ts);
    let r = ts.fold_left((simple, bnode), f);
    assert(grouped(ts, simple, bnode) == r);
    let left = h(r).add(along(ts, (simple, bnode), f, none));
    let right = h((simple, bnode)).add(weights(ts, of_triple())).add(
        along(ts, (simple, bnode), f, none),
    );
    assert(left == right);
    let got = h(r);
    let want = h((simple, bnode)).add(ts.to_multiset());
    assert forall|x: TripleView| #[trigger] got.count(x) == want.count(x) by {
        assert(left.count(x) == right.count(x));
    }
    assert(got =~= want);
}

/// What the first pass of stitching consumes of a bucket: a last cell.
pub open spec fn seed_takes() -> spec_fn(ParserView, (Seq<char>, Seq<TripleView>)) -> Multiset<
    TripleView,
> {
    |st: ParserView, e: (Seq<char>, Seq<TripleView>)| bucket_if(last_cell(e.1) is Some, e)
}

/// The triples that the first pass of stitching consumes.
pub open spec fn seed_taken(st: ParserView) -> Multiset<TripleView> {
    along(
        st.bnode,
        no_buckets(st),
        |s: ParserView, e: (Seq<char>, Seq<TripleView>)| seed_step(s, e),
        seed_takes(),
    )
}

/// The first pass of stitching holds afterwards what it held before, less what
/// it consumed.
pub proof fn lemma_seeded_flow(st: ParserView)
    ensures
        held(seeded(st)).add(seed_taken(st)) == held(st),
{
    broadcast use vstd::multiset::group_multiset_axioms;

    let f = |s: ParserView, e: (Seq<char>, Seq<TripleView>)| seed_step(s, e);
    let h = |s: ParserView| held(s);
    let c = seed_takes();
    let none = nothing::<ParserView, (Seq<char>, Seq<TripleView>)>();
    assert forall|s: ParserView, e: (Seq<char>, Seq<TripleView>)| #[trigger]
        h(f(s, e)).add(c(s, e)) == h(s).add(of_bucket()(e)).add(none(s, e)) by {
        lemma_held_keep(s, e);
        assert(h(f(s, e)).add(c(s, e)) =~= h(s).add(of_bucket()(e)).add(none(s, e)));
    }
    lemma_flow(st.bnode, no_buckets(st), f, h, of_bucket(), c, none);
    lemma_along_nothing(st.bnode, no_buckets(st), f);
    lemma_held_no_buckets(st);
    assert(held(seeded(st)).add(seed_taken(st)) =~= held(st));
}

/// What a later pass of stitching consumes of a bucket: an inner cell whose
/// successor heads a sequence.
pub open spec fn extend_takes() -> spec_fn(
    (ParserView, bool),
    (Seq<char>, Seq<TripleView>),
) -> Multiset<TripleView> {
    |acc: (ParserView, bool), e: (Seq<char>, Seq<TripleView>)|
        bucket_if(
            match inner_cell(e.1) {
                Some((_, next)) => lookup(acc.0.tables.bnode_seq, next) is Some,
                None => false,
            },
            e,
        )
}

/// The triples that one later pass of stitching consumes.
pub open spec fn extend_taken_once(st: ParserView) -> Multiset<TripleView> {
    along(
        st.bnode,
        (no_buckets(st), false),
        |acc: (ParserView, bool), e: (Seq<char>, Seq<TripleView>)| extend_step(acc, e),
        extend_takes(),
    )
}

/// The triples that the later passes of stitching consume.
pub open spec fn extend_taken(st: ParserView) -> Multiset<TripleView>
    decreases st.bnode.len(),
{
    let (st1, grew) = extended_once(st);
    if grew && st1.bnode.len() > 0 && st1.bnode.len() < st.bnode.len() {
        extend_taken_once(st).add(extend_taken(st1))
    } else {
        extend_taken_once(st)
    }
}

/// The later passes of stitching hold afterwards what they held before, less
/// what they consumed.
pub proof fn lemma_extended_flow(st: ParserView)
    ensures
        held(extended(st)).add(extend_taken(st)) == held(st),
    decreases st.bnode.len(),
{
    broadcast use vstd::multiset::group_multiset_axioms;

    let f = |acc: (ParserView, bool), e: (Seq<char>, Seq<TripleView>)| extend_step(acc, e);
    let h = |acc: (ParserView, bool)| held(acc.0);
    let c = extend_takes();
    let none = nothing::<(ParserView, bool), (Seq<char>, Seq<TripleView>)>();
    assert forall|acc: (ParserView, bool), e: (Seq<char>, Seq<TripleView>)| #[trigger]
        h(f(acc, e)).add(c(acc, e)) == h(acc).add(of_bucket()(e)).add(none(acc, e)) by {
        lemma_held_keep(acc.0, e);
        assert(h(f(acc, e)).add(c(acc, e)) =~= h(acc).add(of_bucket()(e)).add(none(acc, e)));
    }
    lemma_flow(st.bnode, (no_buckets(st), false), f, h, of_bucket(), c, none);
    lemma_along_nothing(st.bnode, (no_buckets(st), false), f);
    lemma_held_no_buckets(st);
    let (st1, grew) = extended_once(st);
    assert(held(st1).add(extend_taken_once(st)) =~= held(st));
    if grew && st1.bnode.len() > 0 && st1.bnode.len() < st.bnode.len() {
        lemma_extended_flow(st1);
        assert(held(extended(st)).add(extend_taken(st)) =~= held(extended(st1)).add(
            extend_taken(st1),
        ).add(extend_taken_once(st)));
    }
}

/// The triples that stitching consumes: the cells of the lists.
pub open spec fn stitch_taken(st: ParserView) -> Multiset<TripleView> {
    seed_taken(st).add(extend_taken(seeded(st)))
}

/// Stitching holds afterwards what it held before, less the cells of the lists
/// that it stitched.
pub proof fn lemma_stitched_flow(st: ParserView)
    ensures
        held(stitched(st)).add(stitch_taken(st)) == held(st),
{
    broadcast use vstd::multiset::group_multiset_axioms;

    lemma_seeded_flow(st);
    lemma_extended_flow(seeded(st));
    assert(held(stitched(st)) == held(extended(seeded(st))));
    assert(held(stitched(st)).add(stitch_taken(st)) =~= held(extended(seeded(st))).add(
        extend_taken(seeded(st)),
    ).add(seed_taken(st)));
}

/// What the stage of reifications consumes of a bucket: a reification.
pub open spec fn reify_takes() -> spec_fn(ParserView, (Seq<char>, Seq<TripleView>)) -> Multiset<
    TripleView,
> {
    |st: ParserView, e: (Seq<char>, Seq<TripleView>)| bucket_if(reified(e.1) is Some, e)
}

/// What the stage of reifications hands on for a bucket: the target of a
/// reification.
pub open spec fn reify_gives() -> spec_fn(ParserView, (Seq<char>, Seq<TripleView>)) -> Multiset<
    TripleView,
> {
    |st: ParserView, e: (Seq<char>, Seq<TripleView>)|
        match reified(e.1) {
            Some((target, _)) => Multiset::singleton(target),
            None => Multiset::empty(),
        }
}

/// The triples that the stage of reifications consumes.
pub open spec fn reify_taken(st: ParserView) -> Multiset<TripleView> {
    along(
        st.bnode,
        no_buckets(st),
        |s: ParserView, e: (Seq<char>, Seq<TripleView>)| reify_step(s, e),
        reify_takes(),
    )
}

/// The targets that the stage of reifications hands on as simple triples.
pub open spec fn reify_given(st: ParserView) -> Multiset<TripleView> {
    along(
        st.bnode,
        no_buckets(st),
        |s: ParserView, e: (Seq<char>, Seq<TripleView>)| reify_step(s, e),
        reify_gives(),
    )
}

/// The stage of reifications holds afterwards what it held before and the
/// targets that it handed on, less the reifications that it consumed.
pub proof fn lemma_reified_flow(st: ParserView)
    ensures
        held(after_axiom_annotations(st)).add(reify_taken(st)) == held(st).add(reify_given(st)),
{
    broadcast use vstd::multiset::group_multiset_axioms;

    let f = |s: ParserView, e: (Seq<char>, Seq<TripleView>)| reify_step(s, e);
    let h = |s: ParserView| held(s);
    let c = reify_takes();
    let g = reify_gives();
    assert forall|s: ParserView, e: (Seq<char>, Seq<TripleView>)| #[trigger]
        h(f(s, e)).add(c(s, e)) == h(s).add(of_bucket()(e)).add(g(s, e)) by {
        lemma_held_keep(s, e);
        match reified(e.1) {
            Some((target, ann)) => {
                lemma_held_push(s, target);
                assert(f(s, e).simple == s.simple.push(target));
                assert(f(s, e).bnode == s.bnode);
                assert(held(f(s, e)) == held(ParserView { simple: s.simple.push(target), ..s }));
            },
            None => {},
        }
        assert(h(f(s, e)).add(c(s, e)) =~= h(s).add(of_bucket()(e)).add(g(s, e)));
    }
    lemma_flow(st.bnode, no_buckets(st), f, h, of_bucket(), c, g);
    lemma_held_no_buckets(st);
    assert(held(after_axiom_annotations(st)).add(reify_taken(st)) =~= held(st).add(
        reify_given(st),
    ));
}

/// What the header pass consumes: a triple that types an ontology, or one that
/// gives the version of the ontology `iri`.
pub open spec fn header_takes(iri: Option<Seq<char>>) -> spec_fn(
    (Seq<TripleView>, Option<Seq<char>>),
    TripleView,
) -> Multiset<TripleView> {
    |acc: (Seq<TripleView>, Option<Seq<char>>), t: TripleView|
        triple_if(ontology_triple(t) is Some || version_triple(t, iri) is Some, t)
}

/// The triples that the header pass consumes.
pub open spec fn header_taken(st: ParserView) -> Multiset<TripleView> {
    let iri = last_ontology(st.simple);
    along(
        st.simple,
        (Seq::empty(), None),
        |acc: (Seq<TripleView>, Option<Seq<char>>), t: TripleView| header_step(acc, t, iri),
        header_takes(iri),
    )
}

/// The header pass holds afterwards what it held before, less the triples of
/// the header.
pub proof fn lemma_headers_flow(st: ParserView)
    ensures
        held(after_headers(st)).add(header_taken(st)) == held(st),
{
    broadcast use vstd::multiset::group_multiset_axioms;
    broadcast use vstd::seq_lib::group_to_multiset_ensures;

    let iri = last_ontology(st.simple);
    let f = |acc: (Seq<TripleView>, Option<Seq<char>>), t: TripleView| header_step(acc, t, iri);
    let h = |acc: (Seq<TripleView>, Option<Seq<char>>)| acc.0.to_multiset();
    let c = header_takes(iri);
    let none = nothing::<(Seq<TripleView>, Option<Seq<char>>), TripleView>();
    assert forall|acc: (Seq<TripleView>, Option<Seq<char>>), t: TripleView| #[trigger]
        h(f(acc, t)).add(c(acc, t)) == h(acc).add(of_triple()(t)).add(none(acc, t)) by {
        assert(h(f(acc, t)).add(c(acc, t)) =~= h(acc).add(of_triple()(t)).add(none(acc, t)));
    }
    let init = (Seq::<TripleView>::empty(), None::<Seq<char>>);
    lemma_flow(st.simple, init, f, h, of_triple(), c, none);
    lemma_along_nothing(st.simple, init, f);
    lemma_weights_of_triples(st.simple);
    assert(Seq::<TripleView>::empty().to_multiset() =~= Multiset::<TripleView>::empty());
    let rest = header_pass(st.simple, iri).0;
    let left = h(st.simple.fold_left(init, f)).add(along(st.simple, init, f, c));
    let right = h(init).add(weights(st.simple, of_triple())).add(
        along(st.simple, init, f, none),
    );
    assert(left == right);
    assert(after_headers(st).simple == rest);
    assert(after_headers(st).bnode == st.bnode);
    let got = held(after_headers(st)).add(header_taken(st));
    let want = held(st);
    assert forall|x: TripleView| #[trigger] got.count(x) == want.count(x) by {
        assert(left.count(x) == right.count(x));
    }
    assert(got =~= want);
}

/// What a stage over the simple triples leaves of a fold that consumes `c`.
pub proof fn lemma_simple_flow(
    st: ParserView,
    f: spec_fn(ParserView, TripleView) -> ParserView,
    c: spec_fn(ParserView, TripleView) -> Multiset<TripleView>,
    init: ParserView,
)
    requires
        forall|s: ParserView, t: TripleView| #[trigger]
            held(f(s, t)).add(c(s, t)) == held(s).add(Multiset::singleton(t)),
    ensures
        held(st.simple.fold_left(init, f)).add(along(st.simple, init, f, c)) == held(init).add(
            st.simple.to_multiset(),
        ),
{
    broadcast use vstd::multiset::group_multiset_axioms;

    let h = |s: ParserView| held(s);
    let none = nothing::<ParserView, TripleView>();
    assert forall|s: ParserView, t: TripleView| #[trigger]
        h(f(s, t)).add(c(s, t)) == h(s).add(of_triple()(t)).add(none(s, t)) by {
        assert(held(f(s, t)).add(c(s, t)) == held(s).add(Multiset::singleton(t)));
        assert(h(f(s, t)).add(c(s, t)) =~= h(s).add(of_triple()(t)).add(none(s, t)));
    }
    lemma_flow(st.simple, init, f, h, of_triple(), c, none);
    lemma_along_nothing(st.simple, init, f);
    lemma_weights_of_triples(st.simple);
    let left = h(st.simple.fold_left(init, f)).add(along(st.simple, init, f, c));
    let right = h(init).add(weights(st.simple, of_triple())).add(
        along(st.simple, init, f, none),
    );
    assert(left == right);
    let got = held(st.simple.fold_left(init, f)).add(along(st.simple, init, f, c));
    let want = held(init).add(st.simple.to_multiset());
    assert forall|x: TripleView| #[trigger] got.count(x) == want.count(x) by {
        assert(left.count(x) == right.count(x));
    }
    assert(got =~= want);
}

/// What a pass over the buckets leaves of a fold that consumes `c`.
pub proof fn lemma_bucket_flow<S>(
    b: Buckets,
    f: spec_fn(S, (Seq<char>, Seq<TripleView>)) -> S,
    h: spec_fn(S) -> Multiset<TripleView>,
    c: spec_fn(S, (Seq<char>, Seq<TripleView>)) -> Multiset<TripleView>,
    init: S,
)
    requires
        forall|s: S, e: (Seq<char>, Seq<TripleView>)| #[trigger]
            h(f(s, e)).add(c(s, e)) == h(s).add(e.1.to_multiset()),
    ensures
        h(b.fold_left(init, f)).add(along(b, init, f, c)) == h(init).add(in_buckets(b)),
{
    broadcast use vstd::multiset::group_multiset_axioms;

    let none = nothing::<S, (Seq<char>, Seq<TripleView>)>();
    assert forall|s: S, e: (Seq<char>, Seq<TripleView>)| #[trigger]
        h(f(s, e)).add(c(s, e)) == h(s).add(of_bucket()(e)).add(none(s, e)) by {
        assert(h(f(s, e)).add(c(s, e)) == h(s).add(e.1.to_multiset()));
        assert(h(f(s, e)).add(c(s, e)) =~= h(s).add(of_bucket()(e)).add(none(s, e)));
    }
    lemma_flow(b, init, f, h, of_bucket(), c, none);
    lemma_along_nothing(b, init, f);
    let left = h(b.fold_left(init, f)).add(along(b, init, f, c));
    let right = h(init).add(weights(b, of_bucket())).add(along(b, init, f, none));
    assert(left == right);
    let got = h(b.fold_left(init, f)).add(along(b, init, f, c));
    let want = h(init).add(in_buckets(b));
    assert forall|x: TripleView| #[trigger] got.count(x) == want.count(x) by {
        assert(left.count(x) == right.count(x));
    }
    assert(got =~= want);
}

/// What the stage of declarations consumes: a declaration.
pub open spec fn declare_takes() -> spec_fn(ParserView, TripleView) -> Multiset<TripleView> {
    |st: ParserView, t: TripleView| triple_if(declaration_of(t) is Some, t)
}

/// The triples that the stage of declarations consumes.
pub open spec fn declare_taken(st: ParserView) -> Multiset<TripleView> {
    along(
        st.simple,
        no_simple(st),
        |s: ParserView, t: TripleView| declare_step(s, t),
        declare_takes(),
    )
}

/// The stage of declarations holds afterwards what it held before, less the
/// declarations.
pub proof fn lemma_declarations_flow(st: ParserView)
    ensures
        held(after_declarations(st)).add(declare_taken(st)) == held(st),
{
    broadcast use vstd::multiset::group_multiset_axioms;

    let f = |s: ParserView, t: TripleView| declare_step(s, t);
    let c = declare_takes();
    assert forall|s: ParserView, t: TripleView| #[trigger]
        held(f(s, t)).add(c(s, t)) == held(s).add(Multiset::singleton(t)) by {
        lemma_held_push(s, t);
        assert(held(f(s, t)).add(c(s, t)) =~= held(s).add(Multiset::singleton(t)));
    }
    lemma_simple_flow(st, f, c, no_simple(st));
    lemma_held_no_simple(st);
    assert(held(after_declarations(st)).add(declare_taken(st)) =~= held(st));
}

/// What the stage of annotation assertions consumes: an annotation assertion.
pub open spec fn annotate_takes() -> spec_fn(ParserView, TripleView) -> Multiset<TripleView> {
    |st: ParserView, t: TripleView| triple_if(assertion_of(st.o.axioms, t) is Some, t)
}

/// The triples that the stage of annotation assertions consumes.
pub open spec fn annotate_taken(st: ParserView) -> Multiset<TripleView> {
    along(
        st.simple,
        no_simple(st),
        |s: ParserView, t: TripleView| annotate_step(s, t),
        annotate_takes(),
    )
}

/// The stage of annotation assertions holds afterwards what it held before,
/// less the assertions.
pub proof fn lemma_annotations_flow(st: ParserView)
    ensures
        held(after_simple_annotations(st)).add(annotate_taken(st)) == held(st),
{
    broadcast use vstd::multiset::group_multiset_axioms;

    let f = |s: ParserView, t: TripleView| annotate_step(s, t);
    let c = annotate_takes();
    assert forall|s: ParserView, t: TripleView| #[trigger]
        held(f(s, t)).add(c(s, t)) == held(s).add(Multiset::singleton(t)) by {
        lemma_held_push(s, t);
        assert(held(f(s, t)).add(c(s, t)) =~= held(s).add(Multiset::singleton(t)));
    }
    lemma_simple_flow(st, f, c, no_simple(st));
    lemma_held_no_simple(st);
    assert(held(after_simple_annotations(st)).add(annotate_taken(st)) =~= held(st));
}

/// What a pass over data ranges consumes of a bucket: the encoding of a data
/// range.
pub open spec fn range_takes() -> spec_fn(
    (ParserView, bool),
    (Seq<char>, Seq<TripleView>),
) -> Multiset<TripleView> {
    |acc: (ParserView, bool), e: (Seq<char>, Seq<TripleView>)|
        bucket_if(build_dr(acc.0.tables, e.1).0 is Some, e)
}

/// The triples that one pass over data ranges consumes.
pub open spec fn range_taken_once(st: ParserView) -> Multiset<TripleView> {
    along(
        st.bnode,
        (no_buckets(st), false),
        |acc: (ParserView, bool), e: (Seq<char>, Seq<TripleView>)| range_step(acc, e),
        range_takes(),
    )
}

/// The triples that the stage of data ranges consumes.
pub open spec fn range_taken(st: ParserView) -> Multiset<TripleView>
    decreases st.bnode.len(),
{
    let (st1, grew) = ranged_once(st);
    if grew && st1.bnode.len() < st.bnode.len() {
        range_taken_once(st).add(range_taken(st1))
    } else {
        range_taken_once(st)
    }
}

/// The stage of data ranges holds afterwards what it held before, less the
/// encodings of the data ranges that it rebuilt.
pub proof fn lemma_ranges_flow(st: ParserView)
    ensures
        held(after_data_ranges(st)).add(range_taken(st)) == held(st),
    decreases st.bnode.len(),
{
    broadcast use vstd::multiset::group_multiset_axioms;

    let f = |acc: (ParserView, bool), e: (Seq<char>, Seq<TripleView>)| range_step(acc, e);
    let h = |acc: (ParserView, bool)| held(acc.0);
    let c = range_takes();
    assert forall|acc: (ParserView, bool), e: (Seq<char>, Seq<TripleView>)| #[trigger]
        h(f(acc, e)).add(c(acc, e)) == h(acc).add(e.1.to_multiset()) by {
        lemma_held_keep(acc.0, e);
        assert(h(f(acc, e)).add(c(acc, e)) =~= h(acc).add(e.1.to_multiset()));
    }
    lemma_bucket_flow(st.bnode, f, h, c, (no_buckets(st), false));
    lemma_held_no_buckets(st);
    let (st1, grew) = ranged_once(st);
    assert(held(st1).add(range_taken_once(st)) =~= held(st));
    if grew && st1.bnode.len() < st.bnode.len() {
        lemma_ranges_flow(st1);
        assert(held(after_data_ranges(st)).add(range_taken(st)) =~= held(
            after_data_ranges(st1),
        ).add(range_taken(st1)).add(range_taken_once(st)));
    }
}

/// What the split of a bucket consumes: a triple that inverts a property.
pub open spec fn split_takes() -> spec_fn(
    (Option<Seq<char>>, Seq<TripleView>),
    TripleView,
) -> Multiset<TripleView> {
    |acc: (Option<Seq<char>>, Seq<TripleView>), t: TripleView|
        triple_if(inverse_of(t) is Some, t)
}

/// What the stage of object property expressions consumes of a bucket: the
/// triples that invert a property.
pub open spec fn ope_takes() -> spec_fn(ParserView, (Seq<char>, Seq<TripleView>)) -> Multiset<
    TripleView,
> {
    |st: ParserView, e: (Seq<char>, Seq<TripleView>)|
        along(
            e.1,
            (None, Seq::empty()),
            |acc: (Option<Seq<char>>, Seq<TripleView>), t: TripleView| split_step(acc, t),
            split_takes(),
        )
}

/// The triples that the stage of object property expressions consumes.
pub open spec fn ope_taken(st: ParserView) -> Multiset<TripleView> {
    along(
        st.bnode,
        no_buckets(st),
        |s: ParserView, e: (Seq<char>, Seq<TripleView>)| ope_step(s, e),
        ope_takes(),
    )
}

/// The triples of a bucket are those that invert a property and those that the
/// split keeps.
pub proof fn lemma_split_flow(v: Seq<TripleView>)
    ensures
        split_inverse(v).1.to_multiset().add(
            along(
                v,
                (None, Seq::empty()),
                |acc: (Option<Seq<char>>, Seq<TripleView>), t: TripleView| split_step(acc, t),
                split_takes(),
            ),
        ) == v.to_multiset(),
{
    broadcast use vstd::multiset::group_multiset_axioms;
    broadcast use vstd::seq_lib::group_to_multiset_ensures;

    let f = |acc: (Option<Seq<char>>, Seq<TripleView>), t: TripleView| split_step(acc, t);
    let h = |acc: (Option<Seq<char>>, Seq<TripleView>)| acc.1.to_multiset();
    let c = split_takes();
    let none = nothing::<(Option<Seq<char>>, Seq<TripleView>), TripleView>();
    let init = (None::<Seq<char>>, Seq::<TripleView>::empty());
    assert forall|acc: (Option<Seq<char>>, Seq<TripleView>), t: TripleView| #[trigger]
        h(f(acc, t)).add(c(acc, t)) == h(acc).add(of_triple()(t)).add(none(acc, t)) by {
        assert(h(f(acc, t)).add(c(acc, t)) =~= h(acc).add(of_triple()(t)).add(none(acc, t)));
    }
    lemma_flow(v, init, f, h, of_triple(), c, none);
    lemma_along_nothing(v, init, f);
    lemma_weights_of_triples(v);
    assert(Seq::<TripleView>::empty().to_multiset() =~= Multiset::<TripleView>::empty());
    let left = h(v.fold_left(init, f)).add(along(v, init, f, c));
    let right = h(init).add(weights(v, of_triple())).add(along(v, init, f, none));
    assert(left == right);
    let got = split_inverse(v).1.to_multiset().add(along(v, init, f, c));
    let want = v.to_multiset();
    assert forall|x: TripleView| #[trigger] got.count(x) == want.count(x) by {
        assert(left.count(x) == right.count(x));
    }
    assert(got =~= want);
}

/// The stage of object property expressions holds afterwards what it held
/// before, less the triples that invert a property.
pub proof fn lemma_ope_flow(st: ParserView)
    ensures
        held(after_object_property_expressions(st)).add(ope_taken(st)) == held(st),
{
    broadcast use vstd::multiset::group_multiset_axioms;
    broadcast use vstd::seq_lib::group_to_multiset_ensures;

    let f = |s: ParserView, e: (Seq<char>, Seq<TripleView>)| ope_step(s, e);
    let h = |s: ParserView| held(s);
    let c = ope_takes();
    assert forall|s: ParserView, e: (Seq<char>, Seq<TripleView>)| #[trigger]
        h(f(s, e)).add(c(s, e)) == h(s).add(e.1.to_multiset()) by {
        lemma_split_flow(e.1);
        let (inv, rest) = split_inverse(e.1);
        let s1 = ParserView { tables: f(s, e).tables, ..s };
        lemma_held_keep(s1, (e.0, rest));
        if rest.len() == 0 {
            assert(rest.to_multiset().len() == 0);
            assert(rest.to_multiset() =~= Multiset::<TripleView>::empty());
        }
        assert(held(f(s, e)) =~= held(s).add(rest.to_multiset()));
        assert(h(f(s, e)).add(c(s, e)) =~= h(s).add(e.1.to_multiset()));
    }
    lemma_bucket_flow(st.bnode, f, h, c, no_buckets(st));
    lemma_held_no_buckets(st);
    assert(held(after_object_property_expressions(st)).add(ope_taken(st)) =~= held(st));
}

/// What a pass over class expressions consumes of a bucket: the encoding of a
/// class expression.
pub open spec fn class_takes() -> spec_fn(
    (ParserView, bool),
    (Seq<char>, Seq<TripleView>),
) -> Multiset<TripleView> {
    |acc: (ParserView, bool), e: (Seq<char>, Seq<TripleView>)|
        bucket_if(build_ce(acc.0.o.axioms, acc.0.tables, e.1).0 is Some, e)
}

/// The triples that one pass over class expressions consumes.
pub open spec fn class_taken_once(st: ParserView) -> Multiset<TripleView> {
    along(
        st.bnode,
        (no_buckets(st), false),
        |acc: (ParserView, bool), e: (Seq<char>, Seq<TripleView>)| class_step(acc, e),
        class_takes(),
    )
}

/// The triples that the stage of class expressions consumes.
pub open spec fn class_taken(st: ParserView) -> Multiset<TripleView>
    decreases st.bnode.len(),
{
    let (st1, grew) = classed_once(st);
    if grew && st1.bnode.len() < st.bnode.len() {
        class_taken_once(st).add(class_taken(st1))
    } else {
        class_taken_once(st)
    }
}

/// The stage of class expressions holds afterwards what it held before, less
/// the encodings of the class expressions that it rebuilt.
pub proof fn lemma_classes_flow(st: ParserView)
    ensures
        held(after_class_expressions(st)).add(class_taken(st)) == held(st),
    decreases st.bnode.len(),
{
    broadcast use vstd::multiset::group_multiset_axioms;

    let f = |acc: (ParserView, bool), e: (Seq<char>, Seq<TripleView>)| class_step(acc, e);
    let h = |acc: (ParserView, bool)| held(acc.0);
    let c = class_takes();
    assert forall|acc: (ParserView, bool), e: (Seq<char>, Seq<TripleView>)| #[trigger]
        h(f(acc, e)).add(c(acc, e)) == h(acc).add(e.1.to_multiset()) by {
        lemma_held_keep(acc.0, e);
        assert(h(f(acc, e)).add(c(acc, e)) =~= h(acc).add(e.1.to_multiset()));
    }
    lemma_bucket_flow(st.bnode, f, h, c, (no_buckets(st), false));
    lemma_held_no_buckets(st);
    let (st1, grew) = classed_once(st);
    assert(held(st1).add(class_taken_once(st)) =~= held(st));
    if grew && st1.bnode.len() < st.bnode.len() {
        lemma_classes_flow(st1);
        assert(held(after_class_expressions(st)).add(class_taken(st)) =~= held(
            after_class_expressions(st1),
        ).add(class_taken(st1)).add(class_taken_once(st)));
    }
}

/// What the stage of axioms consumes: a triple that encodes an axiom.
pub open spec fn axiom_takes() -> spec_fn(ParserView, TripleView) -> Multiset<TripleView> {
    |st: ParserView, t: TripleView| triple_if(recognise(st.o.axioms, st.tables, t).0 is Some, t)
}

/// What the stage of axioms consumes of a bucket.
pub open spec fn bucket_takes() -> spec_fn(ParserView, (Seq<char>, Seq<TripleView>)) -> Multiset<
    TripleView,
> {
    |st: ParserView, e: (Seq<char>, Seq<TripleView>)|
        along(e.1, st, |s: ParserView, t: TripleView| axiom_step(s, t), axiom_takes())
}

/// The state after the stage of axioms went over the simple triples.
pub open spec fn after_simple_axioms(st: ParserView) -> ParserView {
    st.simple.fold_left(
        no_buckets(no_simple(st)),
        |s: ParserView, t: TripleView| axiom_step(s, t),
    )
}

/// The triples that the stage of axioms consumes.
pub open spec fn axiom_taken(st: ParserView) -> Multiset<TripleView> {
    along(
        st.simple,
        no_buckets(no_simple(st)),
        |s: ParserView, t: TripleView| axiom_step(s, t),
        axiom_takes(),
    ).add(
        along(
            st.bnode,
            after_simple_axioms(st),
            |s: ParserView, e: (Seq<char>, Seq<TripleView>)| bucket_step(s, e),
            bucket_takes(),
        ),
    )
}

/// The stage of axioms holds afterwards what it held before, less the triples
/// that encode an axiom.
pub proof fn lemma_axioms_flow(st: ParserView)
    ensures
        held(after_axioms(st)).add(axiom_taken(st)) == held(st),
{
    broadcast use vstd::multiset::group_multiset_axioms;
    broadcast use vstd::seq_lib::group_to_multiset_ensures;

    let f = |s: ParserView, t: TripleView| axiom_step(s, t);
    let c = axiom_takes();
    assert forall|s: ParserView, t: TripleView| #[trigger]
        held(f(s, t)).add(c(s, t)) == held(s).add(Multiset::singleton(t)) by {
        lemma_held_push(s, t);
        assert(held(f(s, t)).add(c(s, t)) =~= held(s).add(Multiset::singleton(t)));
    }
    let init = no_buckets(no_simple(st));
    lemma_simple_flow(st, f, c, init);
    assert(Seq::<TripleView>::empty().to_multiset() =~= Multiset::<TripleView>::empty());
    assert(held(init) =~= Multiset::<TripleView>::empty());
    let st1 = after_simple_axioms(st);
    let fb = |s: ParserView, e: (Seq<char>, Seq<TripleView>)| bucket_step(s, e);
    let h = |s: ParserView| held(s);
    let cb = bucket_takes();
    assert forall|s: ParserView, e: (Seq<char>, Seq<TripleView>)| #[trigger]
        h(fb(s, e)).add(cb(s, e)) == h(s).add(e.1.to_multiset()) by {
        lemma_simple_flow(ParserView { simple: e.1, ..s }, f, c, s);
    }
    lemma_bucket_flow(st.bnode, fb, h, cb, st1);
    let part = along(st.simple, init, f, c);
    let rest = along(st.bnode, st1, fb, cb);
    assert(held(st1).add(part) == held(init).add(st.simple.to_multiset()));
    assert(held(after_axioms(st)).add(rest) == held(st1).add(in_buckets(st.bnode)));
    let got = held(after_axioms(st)).add(axiom_taken(st));
    let want = held(st);
    let a = held(st1).add(part);
    let b = held(init).add(st.simple.to_multiset());
    let c2 = held(after_axioms(st)).add(rest);
    let d = held(st1).add(in_buckets(st.bnode));
    assert forall|x: TripleView| #[trigger] got.count(x) == want.count(x) by {
        assert(a.count(x) == b.count(x));
        assert(c2.count(x) == d.count(x));
    }
    assert(got =~= want);
}

/// The state of a parse of `ts` before the stage with the number `n`: the
/// stages are stitching, reifications, header, declarations, annotation
/// assertions, data ranges, object property expressions, class expressions and
/// axioms, counted from 0.
pub open spec fn before_stage(ts: Seq<TripleView>, n: nat) -> ParserView
    decreases n,
{
    if n == 0 {
        loaded(initial(), ts)
    } else {
        let st = before_stage(ts, (n - 1) as nat);
        if n == 1 {
            stitched(st)
        } else if n == 2 {
            after_axiom_annotations(st)
        } else if n == 3 {
            after_headers(st)
        } else if n == 4 {
            after_declarations(st)
        } else if n == 5 {
            after_simple_annotations(st)
        } else if n == 6 {
            after_data_ranges(st)
        } else if n == 7 {
            after_object_property_expressions(st)
        } else if n == 8 {
            after_class_expressions(st)
        } else {
            after_axioms(st)
        }
    }
}

/// The triples that the stages of a parse of `ts` consume, each counted for the
/// stage that consumed it.
pub open spec fn consumed(ts: Seq<TripleView>) -> Multiset<TripleView> {
    stitch_taken(before_stage(ts, 0)).add(reify_taken(before_stage(ts, 1))).add(
        header_taken(before_stage(ts, 2)),
    ).add(declare_taken(before_stage(ts, 3))).add(annotate_taken(before_stage(ts, 4))).add(
        range_taken(before_stage(ts, 5)),
    ).add(ope_taken(before_stage(ts, 6))).add(class_taken(before_stage(ts, 7))).add(
        axiom_taken(before_stage(ts, 8)),
    )
}

/// The targets that the reifications of a parse of `ts` hand on.
pub open spec fn handed_on(ts: Seq<TripleView>) -> Multiset<TripleView> {
    reify_given(before_stage(ts, 1))
}

/// The state after the last stage is the state at the end of the parse.
pub proof fn lemma_last_stage(ts: Seq<TripleView>)
    ensures
        before_stage(ts, 9) == parsed(ts),
{
    reveal_with_fuel(before_stage, 10);
}

/// Every triple is accounted for: the triples that a parse was given, with the
/// targets that its reifications handed on, are the triples that its stages
/// consumed and the triples that its collections hold at the end.
pub proof fn lemma_triples_accounted(ts: Seq<TripleView>)
    ensures
        held(parsed(ts)).add(consumed(ts)) == classified(ts).to_multiset().add(handed_on(ts)),
{
    broadcast use vstd::multiset::group_multiset_axioms;
    broadcast use vstd::seq_lib::group_to_multiset_ensures;

    reveal_with_fuel(before_stage, 10);
    let st0 = before_stage(ts, 0);
    let st1 = before_stage(ts, 1);
    let st2 = before_stage(ts, 2);
    let st3 = before_stage(ts, 3);
    let st4 = before_stage(ts, 4);
    let st5 = before_stage(ts, 5);
    let st6 = before_stage(ts, 6);
    let st7 = before_stage(ts, 7);
    let st8 = before_stage(ts, 8);
    let st9 = before_stage(ts, 9);
    let c = canonical(classified(ts));
    lemma_canonical(classified(ts));
    lemma_grouped_holds(c, Seq::empty(), Seq::empty());
    assert(Seq::<TripleView>::empty().to_multiset() =~= Multiset::<TripleView>::empty());
    assert(in_buckets(Seq::empty()) =~= Multiset::<TripleView>::empty());
    assert(held(st0) =~= classified(ts).to_multiset());
    lemma_stitched_flow(st0);
    lemma_reified_flow(st1);
    lemma_headers_flow(st2);
    lemma_declarations_flow(st3);
    lemma_annotations_flow(st4);
    lemma_ranges_flow(st5);
    lemma_ope_flow(st6);
    lemma_classes_flow(st7);
    lemma_axioms_flow(st8);
    let e1 = held(st1).add(stitch_taken(st0));
    let e2 = held(st2).add(reify_taken(st1));
    let e2r = held(st1).add(reify_given(st1));
    let e3 = held(st3).add(header_taken(st2));
    let e4 = held(st4).add(declare_taken(st3));
    let e5 = held(st5).add(annotate_taken(st4));
    let e6 = held(st6).add(range_taken(st5));
    let e7 = held(st7).add(ope_taken(st6));
    let e8 = held(st8).add(class_taken(st7));
    let e9 = held(st9).add(axiom_taken(st8));
    let got = held(parsed(ts)).add(consumed(ts));
    let want = classified(ts).to_multiset().add(handed_on(ts));
    assert forall|x: TripleView| #[trigger] got.count(x) == want.count(x) by {
        assert(e1.count(x) == held(st0).count(x));
        assert(e2.count(x) == e2r.count(x));
        assert(e3.count(x) == held(st2).count(x));
        assert(e4.count(x) == held(st3).count(x));
        assert(e5.count(x) == held(st4).count(x));
        assert(e6.count(x) == held(st5).count(x));
        assert(e7.count(x) == held(st6).count(x));
        assert(e8.count(x) == held(st7).count(x));
        assert(e9.count(x) == held(st8).count(x));
    }
    assert(got =~= want);
}

/// The stage of axioms leaves no bucket.
pub proof fn lemma_axioms_leave_no_bucket(st: ParserView)
    ensures
        after_axioms(st).bnode.len() == 0,
{
    let p = |s: ParserView| s.bnode.len() == 0;
    let f = |s: ParserView, t: TripleView| axiom_step(s, t);
    let fb = |s: ParserView, e: (Seq<char>, Seq<TripleView>)| bucket_step(s, e);
    lemma_fold_invariant(st.simple, no_buckets(no_simple(st)), f, p);
    assert forall|s: ParserView, e: (Seq<char>, Seq<TripleView>)| p(s) implies #[trigger] p(
        fb(s, e),
    ) by {
        lemma_fold_invariant(e.1, s, f, p);
    }
    lemma_fold_invariant(st.bnode, after_simple_axioms(st), fb, p);
}

/// A state without buckets whose simple triples regroup into nothing holds
/// nothing.
pub proof fn lemma_nothing_left_nothing_held(st: ParserView)
    requires
        nothing_left(residual_of(st)),
        st.bnode.len() == 0,
    ensures
        held(st) == Multiset::<TripleView>::empty(),
{
    broadcast use vstd::multiset::group_multiset_axioms;
    broadcast use vstd::seq_lib::group_to_multiset_ensures;

    lemma_grouped_holds(st.simple, Seq::empty(), Seq::empty());
    let r = residual_of(st);
    let none = Multiset::<TripleView>::empty();
    assert(r.simple =~= Seq::empty());
    assert(r.bnode =~= Seq::empty());
    assert(st.bnode =~= Seq::empty());
    assert(Seq::<TripleView>::empty().to_multiset() =~= none);
    assert(in_buckets(Seq::empty()) =~= none);
    assert(st.simple.to_multiset() =~= none.add(none).add(st.simple.to_multiset()));
    assert(st.simple.to_multiset() =~= none);
    assert(held(st) =~= none);
}

/// A parse that leaves nothing has consumed every triple: the triples that it
/// was given, with the targets that its reifications handed on, are the triples
/// that its stages consumed, each counted for one stage.
pub proof fn lemma_residual_sound(ts: Seq<TripleView>)
    requires
        nothing_left(residual_of(parsed(ts))),
    ensures
        consumed(ts) == classified(ts).to_multiset().add(handed_on(ts)),
{
    lemma_triples_accounted(ts);
    lemma_last_stage(ts);
    lemma_axioms_leave_no_bucket(before_stage(ts, 8));
    assert(parsed(ts) == after_axioms(before_stage(ts, 8))) by {
        reveal_with_fuel(before_stage, 2);
    }
    lemma_nothing_left_nothing_held(parsed(ts));
    lemma_add_nothing(consumed(ts));
}

/// Adding a multiset to nothing gives the multiset.
pub proof fn lemma_add_nothing(m: Multiset<TripleView>)
    ensures
        Multiset::<TripleView>::empty().add(m) == m,
{
    broadcast use vstd::multiset::group_multiset_axioms;

    assert(Multiset::<TripleView>::empty().add(m) =~= m);
}

} // verus!
