//! The IRIs of a parsed ontology are not those of the built-in vocabularies.
//!
//! A parse classifies every term first, so no IRI that is left names a token
//! of the vocabularies. The stages move triples about and never make a term, so
//! this holds of every triple at every stage, and of the imports that the
//! stage of axioms reads from them.

use crate::io::rdf::merging::lemma_stitched_axioms;
use crate::io::rdf::moving::{can_read, holds_good, lemma_recognised_kept, list_good, recognised};
use crate::io::rdf::parser::{initial, Pending};
use crate::io::rdf::pending::lemma_reifications_fold;
use crate::io::rdf::reader::{loaded, parsed};
use crate::io::rdf::reify::after_axiom_annotations;
use crate::io::rdf::roundtrip::{all_plain, is_plain_iri, is_plain_triple, lemma_loaded_plain};
use crate::io::rdf::sequences::{no_buckets, stitched};
use crate::io::rdf::table::{annotations_of, without};
use crate::io::rdf::term::TripleView;
use crate::model::axioms::AxiomView;
use crate::ontology::{logical_parts, merged, AnnotatedAxiomView};
use crate::search::{first_index, lemma_first_index};
use vstd::prelude::*;

verus! {

/// Whether the axiom, if it is an import, imports a plain IRI.
pub open spec fn plain_import(a: AxiomView) -> bool {
    match a {
        AxiomView::Import(i) => is_plain_iri(i),
        _ => true,
    }
}

/// Whether every import among the axioms imports a plain IRI.
pub open spec fn imports_plain(s: Seq<AnnotatedAxiomView>) -> bool {
    forall|j: int| 0 <= j < s.len() ==> plain_import((#[trigger] s[j]).ax)
}

/// Merging an axiom keeps the imports plain.
proof fn lemma_merged_imports(s: Seq<AnnotatedAxiomView>, x: AnnotatedAxiomView)
    requires
        imports_plain(s),
        plain_import(x.ax),
    ensures
        imports_plain(merged(s, x)),
{
    let r = merged(s, x);
    lemma_first_index(logical_parts(s), x.ax);
    assert forall|j: int| 0 <= j < r.len() implies plain_import((#[trigger] r[j]).ax) by {
        match first_index(logical_parts(s), x.ax) {
            Some(i) => {
                if j < r.len() - 1 {
                    let j0 = if j < i {
                        j
                    } else {
                        j + 1
                    };
                    assert(r[j] == s[j0]);
                }
            },
            None => {
                if j < s.len() {
                    assert(r[j] == s[j]);
                }
            },
        }
    }
}

/// A plain triple that is read as an import gives a plain import.
proof fn lemma_plain_source(x: TripleView, ax: AxiomView)
    requires
        is_plain_triple(x),
        can_read(x, ax),
    ensures
        plain_import(ax),
{
}

/// The imports of a parsed ontology are plain: no import names the IRI of a
/// token of the built-in vocabularies.
pub proof fn lemma_parsed_imports_plain(ts: Seq<TripleView>)
    ensures
        imports_plain(parsed(ts).o.axioms),
{
    lemma_loaded_plain(ts);
    let st0 = loaded(initial(), ts);
    lemma_stitched_axioms(st0);
    let st1 = stitched(st0);
    lemma_reifications_fold(st1.bnode, no_buckets(st1), arbitrary());
    let st2 = after_axiom_annotations(st1);
    assert(st2.o.axioms =~= Seq::empty());
    assert(parsed(ts) == recognised(st2));
    let good = |x: TripleView| is_plain_triple(x);
    let inv = |o: Seq<AnnotatedAxiomView>, m: Pending| imports_plain(o);
    assert(holds_good(st2, good)) by {
        assert forall|i: int| 0 <= i < st2.bnode.len() implies list_good(
            (#[trigger] st2.bnode[i]).1,
            good,
        ) by {
            assert(all_plain(st2.bnode[i].1));
        }
    }
    assert forall|o: Seq<AnnotatedAxiomView>, m: Pending, x: TripleView, ax: AxiomView|
        inv(o, m) && good(x) && can_read(x, ax) implies #[trigger] inv(
        merged(o, AnnotatedAxiomView { ax, ann: annotations_of(m, x).to_set() }),
        without(m, x),
    ) by {
        lemma_plain_source(x, ax);
        lemma_merged_imports(o, AnnotatedAxiomView { ax, ann: annotations_of(m, x).to_set() });
    }
    lemma_recognised_kept(st2, good, inv);
}

} // verus!
