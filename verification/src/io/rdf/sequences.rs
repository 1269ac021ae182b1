//! Stitching RDF lists into sequences.
//!
//! A list is a chain of blank nodes, each with two triples: `rdf:first` gives
//! an element, `rdf:rest` the next cell or `rdf:nil`. Stitching starts at the
//! last cells and grows each sequence towards the head of its list, one cell at
//! a time, until a pass over the buckets adds nothing. The sequences are built
//! back to front and reversed once at the end.

use crate::io::rdf::parser::{OntologyParser, ParserView};
use crate::io::rdf::resolve::TablesView;
use crate::io::rdf::table::{lookup, put, take, with_entry, without};
use crate::io::rdf::term::{term_copy, Term, TermView, Triple, TripleView};
use crate::vocab::{OWL, RDF, RDFS};
use vstd::prelude::*;

verus! {

/// Whether a term is the given token of the RDF vocabulary.
pub fn is_rdf(t: &Term, v: RDF) -> (r: bool)
    ensures
        r == (t.deep_view() == TermView::RDF(v)),
{
    match t {
        Term::RDF(x) => *x == v,
        _ => false,
    }
}

/// Whether a term is the given token of the OWL vocabulary.
pub fn is_owl(t: &Term, v: OWL) -> (r: bool)
    ensures
        r == (t.deep_view() == TermView::OWL(v)),
{
    match t {
        Term::OWL(x) => *x == v,
        _ => false,
    }
}

/// Whether a term is the given token of the RDF Schema vocabulary.
pub fn is_rdfs(t: &Term, v: RDFS) -> (r: bool)
    ensures
        r == (t.deep_view() == TermView::RDFS(v)),
{
    match t {
        Term::RDFS(x) => *x == v,
        _ => false,
    }
}

/// The element of a last cell: a bucket of two triples, `rdf:first` with the
/// element and `rdf:rest` with `rdf:nil`.
pub open spec fn last_cell(v: Seq<TripleView>) -> Option<TermView> {
    if v.len() == 2 && v[0].predicate == TermView::RDF(RDF::First) && v[1].predicate
        == TermView::RDF(RDF::Rest) && v[1].object == TermView::RDF(RDF::Nil) {
        Some(v[0].object)
    } else {
        None
    }
}

/// The element of an inner cell and the label of the cell that follows it: a
/// bucket of two triples, `rdf:first` with the element and `rdf:rest` with a
/// blank node.
pub open spec fn inner_cell(v: Seq<TripleView>) -> Option<(TermView, Seq<char>)> {
    if v.len() == 2 && v[0].predicate == TermView::RDF(RDF::First) && v[1].predicate
        == TermView::RDF(RDF::Rest) {
        match v[1].object {
            TermView::BNode(next) => Some((v[0].object, next)),
            _ => None,
        }
    } else {
        None
    }
}

/// The state with the sequences replaced.
pub open spec fn with_seqs(st: ParserView, seqs: Seq<(Seq<char>, Seq<TermView>)>) -> ParserView {
    ParserView { tables: TablesView { bnode_seq: seqs, ..st.tables }, ..st }
}

/// The state with one more bucket left over.
pub open spec fn keep(st: ParserView, e: (Seq<char>, Seq<TripleView>)) -> ParserView {
    ParserView { bnode: st.bnode.push(e), ..st }
}

/// The state with no bucket left over.
pub open spec fn no_buckets(st: ParserView) -> ParserView {
    ParserView { bnode: Seq::empty(), ..st }
}

/// One bucket in the first pass: a last cell starts a sequence of one element,
/// anything else is kept.
pub open spec fn seed_step(st: ParserView, e: (Seq<char>, Seq<TripleView>)) -> ParserView {
    match last_cell(e.1) {
        Some(val) => with_seqs(st, with_entry(st.tables.bnode_seq, e.0, seq![val])),
        None => keep(st, e),
    }
}

/// The state after the first pass.
pub open spec fn seeded(st: ParserView) -> ParserView {
    st.bnode.fold_left(no_buckets(st), |s: ParserView, e: (Seq<char>, Seq<TripleView>)|
        seed_step(s, e))
}

/// One bucket in a later pass: an inner cell whose successor heads a sequence
/// takes that sequence over and adds its own element; anything else is kept.
pub open spec fn extend_step(acc: (ParserView, bool), e: (Seq<char>, Seq<TripleView>)) -> (
    ParserView,
    bool,
) {
    let st = acc.0;
    match inner_cell(e.1) {
        Some((val, next)) => match lookup(st.tables.bnode_seq, next) {
            Some(seq) => (
                with_seqs(
                    st,
                    with_entry(without(st.tables.bnode_seq, next), e.0, seq.push(val)),
                ),
                true,
            ),
            None => (keep(st, e), acc.1),
        },
        None => (keep(st, e), acc.1),
    }
}

/// The state after one later pass, and whether the pass grew a sequence.
pub open spec fn extended_once(st: ParserView) -> (ParserView, bool) {
    st.bnode.fold_left(
        (no_buckets(st), false),
        |acc: (ParserView, bool), e: (Seq<char>, Seq<TripleView>)| extend_step(acc, e),
    )
}

/// The state after the later passes: they go on while a pass grows a sequence
/// and buckets are left.
pub open spec fn extended(st: ParserView) -> ParserView
    decreases st.bnode.len(),
{
    let (st1, grew) = extended_once(st);
    if grew && st1.bnode.len() > 0 && st1.bnode.len() < st.bnode.len() {
        extended(st1)
    } else {
        st1
    }
}

/// Each sequence reversed.
pub open spec fn reversed(seqs: Seq<(Seq<char>, Seq<TermView>)>) -> Seq<
    (Seq<char>, Seq<TermView>),
> {
    seqs.map_values(|e: (Seq<char>, Seq<TermView>)| (e.0, e.1.reverse()))
}

/// The state after the lists were stitched.
pub open spec fn stitched(st: ParserView) -> ParserView {
    let st1 = extended(seeded(st));
    with_seqs(st1, reversed(st1.tables.bnode_seq))
}

/// A pass that grew a sequence left fewer buckets than it found.
pub proof fn lemma_extended_once_shrinks(st: ParserView)
    ensures
        extended_once(st).0.bnode.len() <= st.bnode.len(),
        extended_once(st).1 ==> extended_once(st).0.bnode.len() < st.bnode.len(),
{
    lemma_extend_prefix(st, st.bnode.len() as int);
    assert(st.bnode.take(st.bnode.len() as int) =~= st.bnode);
}

/// After `k` buckets of a pass at most `k` are left over, and fewer if a
/// sequence grew.
pub proof fn lemma_extend_prefix(st: ParserView, k: int)
    requires
        0 <= k <= st.bnode.len(),
    ensures
        ({
            let r = st.bnode.take(k).fold_left(
                (no_buckets(st), false),
                |acc: (ParserView, bool), e: (Seq<char>, Seq<TripleView>)| extend_step(acc, e),
            );
            r.0.bnode.len() <= k && (r.1 ==> r.0.bnode.len() < k)
        }),
    decreases k,
{
    if k > 0 {
        lemma_extend_prefix(st, k - 1);
        assert(st.bnode.take(k).drop_last() =~= st.bnode.take(k - 1));
    }
}

/// The element of a last cell.
pub fn as_last_cell(v: &Vec<Triple>) -> (r: Option<Term>)
    ensures
        r.deep_view() == last_cell(v.deep_view()),
{
    if v.len() == 2 && is_rdf(&v[0].predicate, RDF::First) && is_rdf(&v[1].predicate, RDF::Rest)
        && is_rdf(&v[1].object, RDF::Nil) {
        Some(term_copy(&v[0].object))
    } else {
        None
    }
}

/// The element of an inner cell and the label of the cell that follows it.
pub fn as_inner_cell(v: &Vec<Triple>) -> (r: Option<(Term, String)>)
    ensures
        r.deep_view() == inner_cell(v.deep_view()),
{
    if v.len() == 2 && is_rdf(&v[0].predicate, RDF::First) && is_rdf(&v[1].predicate, RDF::Rest) {
        match &v[1].object {
            Term::BNode(next) => Some((term_copy(&v[0].object), next.clone())),
            _ => None,
        }
    } else {
        None
    }
}

/// A list in reverse order.
pub fn reverse_terms(v: Vec<Term>) -> (r: Vec<Term>)
    ensures
        r.deep_view() == v.deep_view().reverse(),
{
    let ghost all = v.deep_view();
    let mut v = v;
    let mut r: Vec<Term> = Vec::new();
    while v.len() > 0
        invariant
            v.deep_view() == all.take(v.len() as int),
            v.len() <= all.len(),
            r.len() == all.len() - v.len(),
            forall|j: int| 0 <= j < r.len() ==> r.deep_view()[j] == all[all.len() - 1 - j],
        decreases v.len(),
    {
        let ghost vv = v.deep_view();
        let ghost rv = r.deep_view();
        let x = v.pop().unwrap();
        assert(v.deep_view() =~= vv.drop_last());
        assert(x.deep_view() == vv.last());
        r.push(x);
        assert(r.deep_view() =~= rv.push(vv.last()));
        assert(v.deep_view() =~= all.take(v.len() as int));
    }
    assert(r.deep_view() =~= all.reverse());
    r
}

impl<'a> OntologyParser<'a> {
    /// Takes every bucket out of the state.
    pub fn take_buckets(&mut self) -> (r: Vec<(String, Vec<Triple>)>)
        ensures
            r.deep_view() == old(self).deep_view().bnode,
            final(self).deep_view() == no_buckets(old(self).deep_view()),
            final(self).bnode.len() == 0,
    {
        let mut out: Vec<(String, Vec<Triple>)> = Vec::new();
        std::mem::swap(&mut out, &mut self.bnode);
        assert(self.deep_view().bnode =~= Seq::<(Seq<char>, Seq<TripleView>)>::empty());
        out
    }

    /// Takes every simple triple out of the state.
    pub fn take_simple(&mut self) -> (r: Vec<Triple>)
        ensures
            r.deep_view() == old(self).deep_view().simple,
            final(self).deep_view() == (ParserView {
                simple: Seq::empty(),
                ..old(self).deep_view()
            }),
    {
        let mut out: Vec<Triple> = Vec::new();
        std::mem::swap(&mut out, &mut self.simple);
        assert(self.deep_view().simple =~= Seq::<TripleView>::empty());
        out
    }

    /// Leaves a bucket in the state for a later pass or stage.
    pub fn keep_bucket(&mut self, e: (String, Vec<Triple>))
        ensures
            final(self).deep_view() == keep(old(self).deep_view(), e.deep_view()),
            final(self).bnode.len() == old(self).bnode.len() + 1,
    {
        let ghost before = self.deep_view().bnode;
        let ghost ev = e.deep_view();
        self.bnode.push(e);
        assert(self.deep_view().bnode =~= before.push(ev));
    }

    /// Later passes of stitching: grows each sequence by the cell before it,
    /// until a pass grows none.
    pub fn stitch_seqs_1(&mut self)
        ensures
            final(self).deep_view() == extended(old(self).deep_view()),
        decreases old(self).bnode.len(),
    {
        let ghost st = self.deep_view();
        let ghost before = self.bnode.len();
        let mut grew = false;
        let buckets = self.take_buckets();
        let ghost all = buckets.deep_view();
        let ghost items = buckets@;
        let ghost step = |acc: (ParserView, bool), e: (Seq<char>, Seq<TripleView>)|
            extend_step(acc, e);
        proof {
            assert(all.take(0) =~= Seq::<(Seq<char>, Seq<TripleView>)>::empty());
        }
        for e in it: buckets
            invariant
                it.seq() == items,
                all.len() == items.len(),
                forall|j: int| 0 <= j < items.len() ==> all[j] == items[j].deep_view(),
                step == |acc: (ParserView, bool), e: (Seq<char>, Seq<TripleView>)|
                    extend_step(acc, e),
                (self.deep_view(), grew) == all.take(it.index() as int).fold_left(
                    (no_buckets(st), false),
                    step,
                ),
                self.bnode.len() == self.deep_view().bnode.len(),
        {
            let ghost i = it.index() as int;
            proof {
                assert(all.take(i + 1).drop_last() =~= all.take(i));
                assert(all.take(i + 1).last() == e.deep_view());
            }
            match as_inner_cell(&e.1) {
                Some((val, next)) => {
                    match take(&mut self.tables.bnode_seq, next.as_str()) {
                        Some(seq) => {
                            let ghost sv = seq.deep_view();
                            let ghost vv = val.deep_view();
                            let mut seq = seq;
                            seq.push(val);
                            assert(seq.deep_view() =~= sv.push(vv));
                            put(&mut self.tables.bnode_seq, e.0, seq);
                            grew = true;
                        },
                        None => {
                            self.keep_bucket(e);
                        },
                    }
                },
                None => {
                    self.keep_bucket(e);
                },
            }
        }
        proof {
            assert(all.take(all.len() as int) =~= all);
            lemma_extended_once_shrinks(st);
        }
        if grew && self.bnode.len() > 0 {
            self.stitch_seqs_1()
        }
    }

    /// Stitches the lists among the buckets into sequences, each under the label
    /// of the blank node that heads its list.
    pub fn stitch_seqs(&mut self)
        ensures
            final(self).deep_view() == stitched(old(self).deep_view()),
    {
        let ghost st = self.deep_view();
        let buckets = self.take_buckets();
        let ghost all = buckets.deep_view();
        let ghost items = buckets@;
        let ghost step = |s: ParserView, e: (Seq<char>, Seq<TripleView>)| seed_step(s, e);
        proof {
            assert(all.take(0) =~= Seq::<(Seq<char>, Seq<TripleView>)>::empty());
        }
        for e in it: buckets
            invariant
                it.seq() == items,
                all.len() == items.len(),
                forall|j: int| 0 <= j < items.len() ==> all[j] == items[j].deep_view(),
                step == |s: ParserView, e: (Seq<char>, Seq<TripleView>)| seed_step(s, e),
                self.deep_view() == all.take(it.index() as int).fold_left(no_buckets(st), step),
        {
            let ghost i = it.index() as int;
            proof {
                assert(all.take(i + 1).drop_last() =~= all.take(i));
                assert(all.take(i + 1).last() == e.deep_view());
            }
            match as_last_cell(&e.1) {
                Some(val) => {
                    let ghost vv = val.deep_view();
                    let mut seq: Vec<Term> = Vec::new();
                    seq.push(val);
                    assert(seq.deep_view() =~= seq![vv]);
                    put(&mut self.tables.bnode_seq, e.0, seq);
                },
                None => {
                    self.keep_bucket(e);
                },
            }
        }
        proof {
            assert(all.take(all.len() as int) =~= all);
        }
        self.stitch_seqs_1();
        let ghost st1 = self.deep_view();
        let mut seqs: Vec<(String, Vec<Term>)> = Vec::new();
        std::mem::swap(&mut seqs, &mut self.tables.bnode_seq);
        let ghost sall = seqs.deep_view();
        let ghost sitems = seqs@;
        for e in it: seqs
            invariant
                it.seq() == sitems,
                sall.len() == sitems.len(),
                sall == st1.tables.bnode_seq,
                forall|j: int| 0 <= j < sitems.len() ==> sall[j] == sitems[j].deep_view(),
                self.tables.bnode_seq.len() == it.index(),
                forall|j: int|
                    0 <= j < it.index() ==> self.tables.bnode_seq.deep_view()[j] == (
                        sall[j].0,
                        sall[j].1.reverse(),
                    ),
                self.deep_view() == with_seqs(st1, self.tables.bnode_seq.deep_view()),
        {
            let ghost done = self.tables.bnode_seq.deep_view();
            let ghost ev = e.deep_view();
            assert(ev == sall[it.index() as int]);
            let r = reverse_terms(e.1);
            self.tables.bnode_seq.push((e.0, r));
            assert(self.tables.bnode_seq.deep_view() =~= done.push((ev.0, ev.1.reverse())));
        }
        proof {
            assert(self.tables.bnode_seq.deep_view() =~= reversed(st1.tables.bnode_seq));
        }
    }
}

} // verus!
