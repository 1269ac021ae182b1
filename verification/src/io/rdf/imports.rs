//! Writing a header with imports and reading them back.
//!
//! The writer renders the header of an ontology and its imports. Read back,
//! the triples give an ontology with the same header and the same imports.

use crate::io::rdf::declare::{
    after_declarations, after_simple_annotations, annotate_step, declare_step, no_simple,
};
use crate::io::rdf::merging::lemma_parsed_distinct;
use crate::io::rdf::parser::{initial, ParserView};
use crate::io::rdf::moving::recognised;
use crate::io::rdf::pending::{always_read_as, lemma_pending_reach_axiom, waits};
use crate::io::rdf::plain::{lemma_parsed_imports_plain, plain_import};
use crate::io::rdf::reader::{classified, loaded, parsed};
use crate::io::rdf::recognise::{after_axioms, axiom_step, recognise};
use crate::io::rdf::reify::{after_headers, header_pass, header_step, last_ontology};
use crate::io::rdf::roundtrip::{
    is_plain_iri, is_rendered, lemma_grouped_simple, lemma_header_round_trip,
    lemma_no_buckets_no_change, lemma_parsed_header_rendered,
};
use crate::io::rdf::sequences::{no_buckets, reversed, stitched};
use crate::io::rdf::sort::{canonical, lemma_canonical};
use crate::io::rdf::term::{classify_triple, TripleView};
use crate::io::rdf::writer::{header_triples, import_triple, import_triples, rendered};
use crate::model::axioms::AxiomView;
use crate::model::literal::AnnotationView;
use crate::ontology::{
    covers, logical_parts, logically_distinct, merged, AnnotatedAxiomView, OntologyView,
};
use crate::search::{
    first_index, lemma_first_index, lemma_fold_invariant, lemma_fold_reaches, lemma_push_contains,
};
use vstd::prelude::*;

verus! {

/// Whether the axiom is an import without annotations, of an IRI that is the
/// IRI of no token of the built-in vocabularies.
pub open spec fn is_plain_import(a: AnnotatedAxiomView) -> bool {
    a.ann == Set::<AnnotationView>::empty() && match a.ax {
        AxiomView::Import(i) => is_plain_iri(i),
        _ => false,
    }
}

/// Whether the writer renders the ontology in full: its header is rendered in
/// full, every axiom is a plain import, and an ontology with imports has an
/// IRI.
pub open spec fn is_written(o: OntologyView) -> bool {
    &&& is_rendered(o.id)
    &&& o.axioms.len() > 0 ==> o.id.iri is Some
    &&& forall|j: int| 0 <= j < o.axioms.len() ==> is_plain_import(#[trigger] o.axioms[j])
}

/// The triple that renders an axiom of the ontology `iri`, if it is an import.
pub open spec fn import_rendered(iri: Seq<char>, a: AxiomView) -> Option<TripleView> {
    match a {
        AxiomView::Import(i) => Some(import_triple(iri, i)),
        _ => None,
    }
}

/// Whether the triple renders one of the imports among the axioms.
pub open spec fn renders_import(
    iri: Seq<char>,
    axioms: Seq<AnnotatedAxiomView>,
    x: TripleView,
) -> bool {
    exists|j: int| 0 <= j < axioms.len() && import_rendered(iri, (#[trigger] axioms[j]).ax) == Some(x)
}

/// The triples that state the imports are those that render an import among
/// the axioms.
pub proof fn lemma_import_triples(iri: Seq<char>, axioms: Seq<AnnotatedAxiomView>, x: TripleView)
    ensures
        import_triples(iri, axioms).contains(x) <==> renders_import(iri, axioms, x),
    decreases axioms.len(),
{
    let all = import_triples(iri, axioms);
    if axioms.len() == 0 {
        assert(!all.contains(x));
    } else {
        let front = axioms.drop_last();
        let head = import_triples(iri, front);
        lemma_import_triples(iri, front, x);
        let last = import_rendered(iri, axioms.last().ax);
        if renders_import(iri, axioms, x) {
            let j = choose|j: int|
                0 <= j < axioms.len() && import_rendered(iri, (#[trigger] axioms[j]).ax) == Some(x);
            if j < front.len() {
                assert(front[j] == axioms[j]);
                assert(renders_import(iri, front, x));
                if last is Some {
                    lemma_push_contains(head, last->0, x);
                }
            } else {
                lemma_push_contains(head, x, x);
            }
        }
        if all.contains(x) {
            if head.contains(x) {
                let j = choose|j: int|
                    0 <= j < front.len() && import_rendered(iri, (#[trigger] front[j]).ax) == Some(
                        x,
                    );
                assert(axioms[j] == front[j]);
            } else {
                let k = choose|k: int| 0 <= k < all.len() && all[k] == x;
                if last is Some {
                    if k < head.len() {
                        assert(head[k] == x);
                    }
                    assert(x == last->0);
                    assert(import_rendered(iri, axioms[axioms.len() - 1].ax) == Some(x));
                }
            }
        }
    }
}

/// Merging a member of a list of axioms without annotations into some of its
/// members gives members of the list again.
proof fn lemma_merged_within(
    s: Seq<AnnotatedAxiomView>,
    x: AnnotatedAxiomView,
    all: Seq<AnnotatedAxiomView>,
)
    requires
        forall|j: int| 0 <= j < s.len() ==> all.contains(#[trigger] s[j]),
        all.contains(x),
        forall|k: int| 0 <= k < all.len() ==> (#[trigger] all[k]).ann == Set::<
            AnnotationView,
        >::empty(),
    ensures
        forall|j: int| 0 <= j < merged(s, x).len() ==> all.contains(#[trigger] merged(s, x)[j]),
{
    let r = merged(s, x);
    lemma_first_index(logical_parts(s), x.ax);
    assert forall|j: int| 0 <= j < r.len() implies all.contains(#[trigger] r[j]) by {
        match first_index(logical_parts(s), x.ax) {
            Some(i) => {
                if j < r.len() - 1 {
                    let j0 = if j < i {
                        j
                    } else {
                        j + 1
                    };
                    assert(r[j] == s[j0]);
                } else {
                    assert(all.contains(s[i]));
                    assert(s[i].ann.union(x.ann) =~= Set::<AnnotationView>::empty());
                    assert(r[j] == x);
                }
            },
            None => {
                if j < s.len() {
                    assert(r[j] == s[j]);
                }
            },
        }
    }
}

/// Whether the state holds nothing but triples that render imports of `o`, and
/// axioms of `o`.
pub open spec fn holds_imports(st: ParserView, o: OntologyView) -> bool {
    &&& st.bnode.len() == 0
    &&& st.ann_map.len() == 0
    &&& forall|k: int|
        0 <= k < st.simple.len() ==> renders_import(o.id.iri->0, o.axioms, #[trigger] st.simple[k])
    &&& forall|j: int| 0 <= j < st.o.axioms.len() ==> o.axioms.contains(#[trigger] st.o.axioms[j])
}

/// One triple that renders an import passes the stages before the stage of
/// axioms, and gives its import at that stage.
proof fn lemma_import_steps(st: ParserView, o: OntologyView, x: TripleView)
    requires
        is_written(o),
        o.id.iri is Some,
        holds_imports(st, o),
        renders_import(o.id.iri->0, o.axioms, x),
    ensures
        holds_imports(declare_step(st, x), o),
        holds_imports(annotate_step(st, x), o),
        holds_imports(axiom_step(st, x), o),
{
    let iri = o.id.iri->0;
    let j = choose|j: int|
        0 <= j < o.axioms.len() && import_rendered(iri, (#[trigger] o.axioms[j]).ax) == Some(x);
    assert(is_plain_import(o.axioms[j]));
    let left = st.simple.push(x);
    assert forall|k: int| 0 <= k < left.len() implies renders_import(
        iri,
        o.axioms,
        #[trigger] left[k],
    ) by {
        if k < st.simple.len() {
            assert(left[k] == st.simple[k]);
        }
    }
    assert(st.ann_map =~= Seq::empty());
    let a = AnnotatedAxiomView { ax: o.axioms[j].ax, ann: Set::<AnnotationView>::empty() };
    assert(a == o.axioms[j]);
    assert(Seq::<AnnotationView>::empty().to_set() =~= Set::<AnnotationView>::empty());
    assert forall|k: int| 0 <= k < o.axioms.len() implies (#[trigger] o.axioms[k]).ann == Set::<
        AnnotationView,
    >::empty() by {
        assert(is_plain_import(o.axioms[k]));
    }
    lemma_merged_within(st.o.axioms, a, o.axioms);
    assert(recognise(st.o.axioms, st.tables, x) == (Some(o.axioms[j].ax), st.tables));
}

/// The header pass over the triples that render an ontology finds its header,
/// and leaves triples that render imports.
proof fn lemma_written_header(o: OntologyView, c: Seq<TripleView>)
    requires
        is_written(o),
        o.id.iri is Some,
        forall|x: TripleView| c.contains(x) <==> rendered(o).contains(x),
    ensures
        last_ontology(c) == o.id.iri,
        header_pass(c, o.id.iri).1 == o.id.viri,
        forall|k: int|
            0 <= k < header_pass(c, o.id.iri).0.len() ==> renders_import(
                o.id.iri->0,
                o.axioms,
                #[trigger] header_pass(c, o.id.iri).0[k],
            ),
{
    let iri = o.id.iri->0;
    let h = header_triples(o.id);
    let imps = import_triples(iri, o.axioms);
    let r = rendered(o);
    assert(r == h + imps);
    assert(r[0] == h[0]);
    assert(r.contains(h[0]));
    assert forall|x: TripleView| c.contains(x) implies x == h[0] || (o.id.viri is Some && x
        == h[1]) || renders_import(iri, o.axioms, x) by {
        let k = choose|k: int| 0 <= k < r.len() && r[k] == x;
        if k >= h.len() {
            assert(imps[k - h.len()] == x);
            assert(imps.contains(x));
            lemma_import_triples(iri, o.axioms, x);
        }
    }
    lemma_last_of_written(c, c, o);
    let f = |acc: (Seq<TripleView>, Option<Seq<char>>), x: TripleView|
        header_step(acc, x, o.id.iri);
    let start = (Seq::<TripleView>::empty(), None::<Seq<char>>);
    let kept = |acc: (Seq<TripleView>, Option<Seq<char>>)|
        (acc.1 is None || acc.1 == o.id.viri) && forall|k: int|
            0 <= k < acc.0.len() ==> renders_import(iri, o.axioms, #[trigger] acc.0[k]);
    assert forall|acc: (Seq<TripleView>, Option<Seq<char>>), x: TripleView|
        kept(acc) && c.contains(x) implies #[trigger] kept(f(acc, x)) by {
        let next = f(acc, x);
        assert forall|k: int| 0 <= k < next.0.len() implies renders_import(
            iri,
            o.axioms,
            #[trigger] next.0[k],
        ) by {
            if k < acc.0.len() {
                assert(next.0[k] == acc.0[k]);
            }
        }
    }
    lemma_fold_invariant(c, start, f, kept);
    if o.id.viri is Some {
        assert(r[1] == h[1]);
        assert(r.contains(h[1]));
        let any = |acc: (Seq<TripleView>, Option<Seq<char>>)| true;
        let found = |acc: (Seq<TripleView>, Option<Seq<char>>)| acc.1 == o.id.viri;
        assert forall|acc: (Seq<TripleView>, Option<Seq<char>>), x: TripleView|
            found(acc) && c.contains(x) implies #[trigger] found(f(acc, x)) by {}
        lemma_fold_reaches(c, start, f, any, found, h[1]);
    } else {
        let none = |acc: (Seq<TripleView>, Option<Seq<char>>)| acc.1 is None;
        assert forall|acc: (Seq<TripleView>, Option<Seq<char>>), x: TripleView|
            none(acc) && c.contains(x) implies #[trigger] none(f(acc, x)) by {}
        lemma_fold_invariant(c, start, f, none);
    }
}

/// The last triple that types an ontology, among triples that render the
/// ontology `o`, types `o`.
proof fn lemma_last_of_written(c: Seq<TripleView>, all: Seq<TripleView>, o: OntologyView)
    requires
        o.id.iri is Some,
        forall|k: int| 0 <= k < c.len() ==> all.contains(#[trigger] c[k]),
        forall|x: TripleView|
            all.contains(x) ==> x == header_triples(o.id)[0] || (o.id.viri is Some && x
                == header_triples(o.id)[1]) || renders_import(o.id.iri->0, o.axioms, x),
    ensures
        c.contains(header_triples(o.id)[0]) ==> last_ontology(c) == o.id.iri,
        !c.contains(header_triples(o.id)[0]) ==> last_ontology(c) is None,
    decreases c.len(),
{
    let typed = header_triples(o.id)[0];
    if c.len() > 0 {
        let front = c.drop_last();
        assert forall|k: int| 0 <= k < front.len() implies all.contains(#[trigger] front[k]) by {
            assert(front[k] == c[k]);
        }
        lemma_last_of_written(front, all, o);
        assert(all.contains(c[c.len() - 1]));
        assert(c.contains(c.last()));
        if c.contains(typed) && c.last() != typed {
            let k = choose|k: int| 0 <= k < c.len() && c[k] == typed;
            assert(front[k] == typed);
        }
        if front.contains(typed) {
            let k = choose|k: int| 0 <= k < front.len() && front[k] == typed;
            assert(c[k] == typed);
        }
    }
}

/// Two lists with the same members, each as often, hold the same values.
proof fn lemma_same_members(c: Seq<TripleView>, r: Seq<TripleView>)
    requires
        c.to_multiset() == r.to_multiset(),
    ensures
        forall|x: TripleView| c.contains(x) <==> r.contains(x),
{
    broadcast use vstd::multiset::group_multiset_axioms;
    broadcast use vstd::seq_lib::group_to_multiset_ensures;

    assert forall|x: TripleView| c.contains(x) <==> r.contains(x) by {
        assert(c.contains(x) <==> c.to_multiset().count(x) > 0);
        assert(r.contains(x) <==> r.to_multiset().count(x) > 0);
    }
}

/// The triples that render an ontology are plain triples with named subjects:
/// classifying their terms changes nothing.
proof fn lemma_rendered_plain(o: OntologyView)
    requires
        is_written(o),
        o.id.iri is Some,
    ensures
        classified(rendered(o)) == rendered(o),
        forall|i: int| 0 <= i < rendered(o).len() ==> !((#[trigger] rendered(o)[i]).subject is BNode),
{
    let r = rendered(o);
    let iri = o.id.iri->0;
    let h = header_triples(o.id);
    let imps = import_triples(iri, o.axioms);
    assert(r == h + imps);
    assert forall|i: int| 0 <= i < r.len() implies classify_triple(#[trigger] r[i]) == r[i] && !(
    r[i].subject is BNode) by {
        if i >= h.len() {
            assert(imps[i - h.len()] == r[i]);
            assert(imps.contains(r[i]));
            lemma_import_triples(iri, o.axioms, r[i]);
            let j = choose|j: int|
                0 <= j < o.axioms.len() && import_rendered(iri, (#[trigger] o.axioms[j]).ax)
                    == Some(r[i]);
            assert(is_plain_import(o.axioms[j]));
        } else {
            assert(r[i] == h[i]);
        }
    }
    assert(classified(r) =~= r);
}

/// The triples that render an ontology with an IRI, once loaded: the state
/// holds them as simple triples and nothing else, and passes the stitching and
/// the reading of reifications unchanged.
proof fn lemma_written_loaded(o: OntologyView)
    requires
        is_written(o),
        o.id.iri is Some,
    ensures
        ({
            let st0 = loaded(initial(), rendered(o));
            &&& st0 == (ParserView { simple: st0.simple, ..initial() })
            &&& forall|x: TripleView| st0.simple.contains(x) <==> rendered(o).contains(x)
            &&& parsed(rendered(o)) == recognised(st0)
        }),
{
    let r = rendered(o);
    lemma_rendered_plain(o);
    let c = canonical(r);
    lemma_canonical(r);
    lemma_same_members(c, r);
    assert forall|i: int| 0 <= i < c.len() implies !((#[trigger] c[i]).subject is BNode) by {
        assert(c.contains(c[i]));
        let k = choose|k: int| 0 <= k < r.len() && r[k] == c[i];
    }
    lemma_grouped_simple(c);
    let st0 = loaded(initial(), r);
    assert(st0 == ParserView { simple: c, ..initial() });
    lemma_no_buckets_no_change(st0);
    assert(reversed(st0.tables.bnode_seq) =~= st0.tables.bnode_seq);
    assert(stitched(st0) == st0);
}

/// A state that holds nothing but triples that render imports of `o`, and
/// axioms of `o`, ends the stages with axioms of `o` and its header unchanged.
proof fn lemma_imports_recognised(st3: ParserView, o: OntologyView)
    requires
        is_written(o),
        o.id.iri is Some,
        holds_imports(st3, o),
    ensures
        ({
            let end = after_axioms(after_simple_annotations(after_declarations(st3)));
            &&& after_simple_annotations(after_declarations(st3)).bnode.len() == 0
            &&& end.o.id == st3.o.id
            &&& forall|j: int|
                0 <= j < end.o.axioms.len() ==> o.axioms.contains(#[trigger] end.o.axioms[j])
        }),
{
    let id = st3.o.id;
    let inv = |s: ParserView| holds_imports(s, o) && s.o.id == id;
    assert forall|s: ParserView, x: TripleView|
        inv(s) && st3.simple.contains(x) implies #[trigger] inv(declare_step(s, x)) by {
        lemma_import_steps(s, o, x);
    }
    lemma_fold_invariant(
        st3.simple,
        no_simple(st3),
        |s: ParserView, x: TripleView| declare_step(s, x),
        inv,
    );
    let st4 = after_declarations(st3);
    assert forall|s: ParserView, x: TripleView|
        inv(s) && st4.simple.contains(x) implies #[trigger] inv(annotate_step(s, x)) by {
        lemma_import_steps(s, o, x);
    }
    lemma_fold_invariant(
        st4.simple,
        no_simple(st4),
        |s: ParserView, x: TripleView| annotate_step(s, x),
        inv,
    );
    let st5 = after_simple_annotations(st4);
    assert forall|s: ParserView, x: TripleView|
        inv(s) && st5.simple.contains(x) implies #[trigger] inv(axiom_step(s, x)) by {
        lemma_import_steps(s, o, x);
    }
    lemma_fold_invariant(
        st5.simple,
        no_buckets(no_simple(st5)),
        |s: ParserView, x: TripleView| axiom_step(s, x),
        inv,
    );
    assert(st5.bnode =~= Seq::empty());
}

/// Each import of an ontology that the writer renders in full is an axiom of
/// the ontology that its rendering parses to.
proof fn lemma_import_read_back(o: OntologyView, a: AnnotatedAxiomView)
    requires
        is_written(o),
        o.id.iri is Some,
        o.axioms.contains(a),
    ensures
        covers(parsed(rendered(o)).o.axioms, a),
{
    let iri = o.id.iri->0;
    let r = rendered(o);
    let h = header_triples(o.id);
    let imps = import_triples(iri, o.axioms);
    let j = choose|j: int| 0 <= j < o.axioms.len() && o.axioms[j] == a;
    assert(is_plain_import(o.axioms[j]));
    let x = import_rendered(iri, a.ax)->0;
    assert(renders_import(iri, o.axioms, x));
    lemma_import_triples(iri, o.axioms, x);
    let k = choose|k: int| 0 <= k < imps.len() && imps[k] == x;
    assert(r == h + imps);
    assert(r[h.len() + k] == x);
    assert(r.contains(x));
    lemma_written_loaded(o);
    let st0 = loaded(initial(), r);
    assert(always_read_as(x, a.ax));
    assert(waits(x));
    lemma_pending_reach_axiom(st0, x, a.ax);
    assert(Seq::<AnnotationView>::empty().to_set() =~= Set::<AnnotationView>::empty());
}

/// Writing and reading back: the triples that render an ontology which the
/// writer renders in full parse to an ontology with the same header and the
/// same axioms.
pub proof fn lemma_written_round_trip(o: OntologyView)
    requires
        is_written(o),
    ensures
        parsed(rendered(o)).o.id == o.id,
        parsed(rendered(o)).o.axioms.to_set() == o.axioms.to_set(),
        logically_distinct(parsed(rendered(o)).o.axioms),
{
    lemma_parsed_distinct(rendered(o));
    let r = rendered(o);
    if o.id.iri is None {
        assert(r =~= header_triples(o.id));
        lemma_header_round_trip(o.id);
        assert(o.axioms =~= Seq::empty());
    } else {
        lemma_written_loaded(o);
        let st0 = loaded(initial(), r);
        lemma_written_header(o, st0.simple);
        let st3 = after_headers(st0);
        assert(st3.o.id == o.id);
        assert(holds_imports(st3, o));
        lemma_imports_recognised(st3, o);
        let st5 = after_simple_annotations(after_declarations(st3));
        lemma_no_buckets_no_change(st5);
        let got = parsed(r).o.axioms;
        assert(got == after_axioms(st5).o.axioms);
        assert forall|a: AnnotatedAxiomView| got.to_set().contains(a) <==> o.axioms.to_set().contains(
            a,
        ) by {
            if got.contains(a) {
                let k = choose|k: int| 0 <= k < got.len() && got[k] == a;
                assert(o.axioms.contains(got[k]));
            }
            if o.axioms.contains(a) {
                lemma_import_read_back(o, a);
                let n = choose|n: int|
                    0 <= n < got.len() && (#[trigger] got[n]).ax == a.ax && a.ann.subset_of(
                        got[n].ann,
                    );
                assert(o.axioms.contains(got[n]));
                let m = choose|m: int| 0 <= m < o.axioms.len() && o.axioms[m] == got[n];
                assert(is_plain_import(o.axioms[m]));
                let j = choose|j: int| 0 <= j < o.axioms.len() && o.axioms[j] == a;
                assert(is_plain_import(o.axioms[j]));
                assert(got[n] == a);
                assert(got.contains(a));
            }
        }
        assert(got.to_set() =~= o.axioms.to_set());
    }
}

/// Whether the writer renders every axiom of the ontology: each is an import
/// without annotations, and an ontology with imports has an IRI.
pub open spec fn only_imports(o: OntologyView) -> bool {
    &&& o.axioms.len() > 0 ==> o.id.iri is Some
    &&& forall|j: int|
        0 <= j < o.axioms.len() ==> (#[trigger] o.axioms[j]).ax is Import && o.axioms[j].ann
            == Set::<AnnotationView>::empty()
}

/// Parsing, writing and parsing again: where a parse ends with an ontology
/// whose axioms the writer renders, the triples that render the ontology parse
/// to an ontology with the same header and the same axioms.
pub proof fn lemma_parsed_round_trip(ts: Seq<TripleView>)
    requires
        only_imports(parsed(ts).o),
    ensures
        parsed(rendered(parsed(ts).o)).o.id == parsed(ts).o.id,
        parsed(rendered(parsed(ts).o)).o.axioms.to_set() == parsed(ts).o.axioms.to_set(),
{
    let o = parsed(ts).o;
    lemma_parsed_header_rendered(ts);
    lemma_parsed_imports_plain(ts);
    assert forall|j: int| 0 <= j < o.axioms.len() implies is_plain_import(
        #[trigger] o.axioms[j],
    ) by {
        assert(plain_import(o.axioms[j].ax));
    }
    lemma_written_round_trip(o);
}

} // verus!
