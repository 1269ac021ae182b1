//! Sorting triples into their canonical order.
//!
//! The canonical order of a bag of triples is the one sequence that holds the
//! same triples and is sorted by the total order of triples. It does not depend
//! on the order in which the triples were given.

use crate::io::rdf::order::{lemma_triple_le_total, lemma_triple_order, order_triple, triple_le};
use crate::io::rdf::parser::{group_step, grouped, Buckets};
use crate::io::rdf::table::keys;
use crate::io::rdf::term::{TermView, Triple, TripleView};
use crate::search::{first_index, lemma_first_index};
use crate::text::Sign;
use vstd::prelude::*;
use vstd::relations::{sorted_by, total_ordering};
use vstd::seq_lib::{lemma_multiset_commutative, lemma_sorted_unique};

verus! {

/// The triples of `s` in canonical order.
pub open spec fn canonical(s: Seq<TripleView>) -> Seq<TripleView> {
    s.sort_by(triple_le())
}

/// The canonical order is sorted and holds the same triples.
pub proof fn lemma_canonical(s: Seq<TripleView>)
    ensures
        sorted_by(canonical(s), triple_le()),
        canonical(s).to_multiset() == s.to_multiset(),
{
    lemma_triple_le_total();
    s.lemma_sort_by_ensures(triple_le());
}

/// Two sequences that hold the same triples, in whatever order, have the same
/// canonical order.
pub proof fn lemma_canonical_of_permutation(s: Seq<TripleView>, t: Seq<TripleView>)
    requires
        s.to_multiset() == t.to_multiset(),
    ensures
        canonical(s) == canonical(t),
{
    lemma_triple_le_total();
    lemma_canonical(s);
    lemma_canonical(t);
    lemma_sorted_unique(canonical(s), canonical(t), triple_le());
}

/// Whether the sequence descends: no element comes after an earlier one in the order.
pub open spec fn descending(s: Seq<TripleView>) -> bool {
    forall|i: int, j: int| 0 <= i < j < s.len() ==> #[trigger] triple_le()(s[j], s[i])
}

/// Whether no element of `low` comes after an element of `high` in the order.
pub open spec fn below(low: Seq<TripleView>, high: Seq<TripleView>) -> bool {
    forall|i: int, j: int|
        0 <= i < low.len() && 0 <= j < high.len() ==> #[trigger] triple_le()(low[i], high[j])
}

/// Moving the last element of a sorted list `a` to the end of a descending list
/// `r` keeps everything in order, where no element of `a` or of a second sorted
/// list `b` comes after an element of `r`, and no element of `b` comes after
/// the one that moves.
proof fn lemma_move_last(a: Seq<TripleView>, b: Seq<TripleView>, r: Seq<TripleView>)
    requires
        a.len() > 0,
        sorted_by(a, triple_le()),
        descending(r),
        below(a, r),
        below(b, r),
        forall|i: int| 0 <= i < b.len() ==> #[trigger] triple_le()(b[i], a.last()),
    ensures
        sorted_by(a.drop_last(), triple_le()),
        descending(r.push(a.last())),
        below(a.drop_last(), r.push(a.last())),
        below(b, r.push(a.last())),
{
    let x = a.last();
    let front = a.drop_last();
    let more = r.push(x);
    assert forall|i: int, j: int| 0 <= i < j < front.len() implies #[trigger] triple_le()(
        front[i],
        front[j],
    ) by {
        assert(triple_le()(a[i], a[j]));
    }
    assert forall|i: int, j: int| 0 <= i < j < more.len() implies #[trigger] triple_le()(
        more[j],
        more[i],
    ) by {
        if j == r.len() {
            assert(triple_le()(a[a.len() - 1], r[i]));
        } else {
            assert(triple_le()(r[j], r[i]));
        }
    }
    assert forall|i: int, j: int|
        0 <= i < front.len() && 0 <= j < more.len() implies #[trigger] triple_le()(
        front[i],
        more[j],
    ) by {
        if j == r.len() {
            assert(triple_le()(a[i], a[a.len() - 1]));
        } else {
            assert(triple_le()(a[i], r[j]));
        }
    }
    assert forall|i: int, j: int|
        0 <= i < b.len() && 0 <= j < more.len() implies #[trigger] triple_le()(b[i], more[j]) by {
        if j == r.len() {
            assert(triple_le()(b[i], a.last()));
        } else {
            assert(triple_le()(b[i], r[j]));
        }
    }
}

/// Moves the last element of `from` to the end of `to`.
fn move_last(from: &mut Vec<Triple>, to: &mut Vec<Triple>)
    requires
        old(from).len() > 0,
    ensures
        final(from).deep_view() == old(from).deep_view().drop_last(),
        final(to).deep_view() == old(to).deep_view().push(old(from).deep_view().last()),
        final(from).len() == old(from).len() - 1,
        final(to).len() == old(to).len() + 1,
        old(from).deep_view().to_multiset() == final(from).deep_view().to_multiset().insert(
            old(from).deep_view().last(),
        ),
        final(to).deep_view().to_multiset() == old(to).deep_view().to_multiset().insert(
            old(from).deep_view().last(),
        ),
{
    broadcast use vstd::multiset::group_multiset_axioms;
    broadcast use vstd::seq_lib::group_to_multiset_ensures;

    let ghost f0 = from.deep_view();
    let ghost t0 = to.deep_view();
    let x = from.pop().unwrap();
    to.push(x);
    proof {
        assert(from.deep_view() =~= f0.drop_last());
        assert(to.deep_view() =~= t0.push(f0.last()));
        assert(f0 =~= f0.drop_last().push(f0.last()));
        assert(f0.to_multiset() =~= f0.drop_last().to_multiset().insert(f0.last()));
    }
}

/// Merges two sorted lists into one.
fn merge(a: Vec<Triple>, b: Vec<Triple>) -> (r: Vec<Triple>)
    requires
        sorted_by(a.deep_view(), triple_le()),
        sorted_by(b.deep_view(), triple_le()),
    ensures
        sorted_by(r.deep_view(), triple_le()),
        r.deep_view().to_multiset() == a.deep_view().to_multiset().add(
            b.deep_view().to_multiset(),
        ),
{
    broadcast use vstd::multiset::group_multiset_axioms;
    broadcast use vstd::seq_lib::group_to_multiset_ensures;

    let ghost total = a.deep_view().to_multiset().add(b.deep_view().to_multiset());
    let mut a = a;
    let mut b = b;
    let mut rev: Vec<Triple> = Vec::new();
    proof {
        lemma_triple_le_total();
        assert(rev.deep_view() =~= Seq::<TripleView>::empty());
    }
    while a.len() > 0 || b.len() > 0
        invariant
            total_ordering(triple_le()),
            sorted_by(a.deep_view(), triple_le()),
            sorted_by(b.deep_view(), triple_le()),
            descending(rev.deep_view()),
            below(a.deep_view(), rev.deep_view()),
            below(b.deep_view(), rev.deep_view()),
            a.deep_view().to_multiset().add(b.deep_view().to_multiset()).add(
                rev.deep_view().to_multiset(),
            ) == total,
        decreases a.len() + b.len(),
    {
        let ghost a0 = a.deep_view();
        let ghost b0 = b.deep_view();
        let ghost r0 = rev.deep_view();
        let from_a = if a.len() == 0 {
            false
        } else if b.len() == 0 {
            true
        } else {
            match order_triple(&a[a.len() - 1], &b[b.len() - 1]) {
                Sign::Less => false,
                _ => true,
            }
        };
        if from_a {
            proof {
                assert forall|i: int| 0 <= i < b0.len() implies #[trigger] triple_le()(
                    b0[i],
                    a0.last(),
                ) by {
                    lemma_triple_order(a0.last(), b0.last());
                    assert(triple_le()(b0[i], b0[b0.len() - 1]));
                    assert(triple_le()(b0.last(), a0.last()));
                }
                lemma_move_last(a0, b0, r0);
            }
            move_last(&mut a, &mut rev);
        } else {
            proof {
                assert forall|i: int| 0 <= i < a0.len() implies #[trigger] triple_le()(
                    a0[i],
                    b0.last(),
                ) by {
                    assert(triple_le()(a0[i], a0[a0.len() - 1]));
                    assert(triple_le()(a0.last(), b0.last()));
                }
                lemma_move_last(b0, a0, r0);
            }
            move_last(&mut b, &mut rev);
        }
        proof {
            assert(a.deep_view().to_multiset().add(b.deep_view().to_multiset()).add(
                rev.deep_view().to_multiset(),
            ) =~= a0.to_multiset().add(b0.to_multiset()).add(r0.to_multiset()));
        }
    }
    let mut r: Vec<Triple> = Vec::new();
    proof {
        assert(r.deep_view() =~= Seq::<TripleView>::empty());
        assert(a.deep_view() =~= Seq::<TripleView>::empty());
        assert(b.deep_view() =~= Seq::<TripleView>::empty());
        assert(rev.deep_view().to_multiset() =~= total);
    }
    while rev.len() > 0
        invariant
            total_ordering(triple_le()),
            descending(rev.deep_view()),
            sorted_by(r.deep_view(), triple_le()),
            below(r.deep_view(), rev.deep_view()),
            rev.deep_view().to_multiset().add(r.deep_view().to_multiset()) == total,
        decreases rev.len(),
    {
        let ghost v0 = rev.deep_view();
        let ghost r0 = r.deep_view();
        move_last(&mut rev, &mut r);
        proof {
            let v1 = rev.deep_view();
            let r1 = r.deep_view();
            assert forall|i: int, j: int| 0 <= i < j < r1.len() implies #[trigger] triple_le()(
                r1[i],
                r1[j],
            ) by {
                if j == r0.len() {
                    assert(triple_le()(r0[i], v0[v0.len() - 1]));
                } else {
                    assert(triple_le()(r0[i], r0[j]));
                }
            }
            assert forall|i: int, j: int|
                0 <= i < r1.len() && 0 <= j < v1.len() implies #[trigger] triple_le()(
                r1[i],
                v1[j],
            ) by {
                if i == r0.len() {
                    assert(triple_le()(v0[v0.len() - 1], v0[j]));
                } else {
                    assert(triple_le()(r0[i], v0[j]));
                }
            }
            assert forall|i: int, j: int| 0 <= i < j < v1.len() implies #[trigger] triple_le()(
                v1[j],
                v1[i],
            ) by {
                assert(triple_le()(v0[j], v0[i]));
            }
        }
    }
    proof {
        assert(rev.deep_view() =~= Seq::<TripleView>::empty());
        assert(r.deep_view().to_multiset() =~= total);
    }
    r
}

/// Sorts a list by merging its sorted halves.
fn merge_sort(v: Vec<Triple>) -> (r: Vec<Triple>)
    ensures
        sorted_by(r.deep_view(), triple_le()),
        r.deep_view().to_multiset() == v.deep_view().to_multiset(),
    decreases v.len(),
{
    if v.len() <= 1 {
        return v;
    }
    let ghost whole = v.deep_view();
    let mut left = v;
    let mid = left.len() / 2;
    let right = left.split_off(mid);
    proof {
        assert(whole =~= left.deep_view() + right.deep_view());
        lemma_multiset_commutative(left.deep_view(), right.deep_view());
    }
    let sorted_left = merge_sort(left);
    let sorted_right = merge_sort(right);
    merge(sorted_left, sorted_right)
}

/// Puts the triples into canonical order.
pub fn sort_triples(v: Vec<Triple>) -> (r: Vec<Triple>)
    ensures
        r.deep_view() == canonical(v.deep_view()),
{
    let ghost s = v.deep_view();
    let r = merge_sort(v);
    proof {
        lemma_triple_le_total();
        lemma_canonical(s);
        lemma_sorted_unique(r.deep_view(), canonical(s), triple_le());
    }
    r
}

/// Whether the simple triples and each bucket are sorted.
pub open spec fn sorted_collections(simple: Seq<TripleView>, bnode: Buckets) -> bool {
    &&& sorted_by(simple, triple_le())
    &&& forall|i: int| 0 <= i < bnode.len() ==> sorted_by((#[trigger] bnode[i]).1, triple_le())
}

/// Whether the simple triples and the triples of the buckets are members of `ts`.
pub open spec fn drawn_from(simple: Seq<TripleView>, bnode: Buckets, ts: Seq<TripleView>) -> bool {
    &&& forall|k: int| 0 <= k < simple.len() ==> ts.contains(#[trigger] simple[k])
    &&& forall|i: int, j: int|
        0 <= i < bnode.len() && 0 <= j < bnode[i].1.len() ==> ts.contains(
            #[trigger] bnode[i].1[j],
        )
}

/// Grouping sorted triples leaves the simple triples sorted and each bucket
/// sorted.
pub proof fn lemma_grouped_sorted(ts: Seq<TripleView>)
    requires
        sorted_by(ts, triple_le()),
    ensures
        sorted_collections(
            grouped(ts, Seq::empty(), Seq::empty()).0,
            grouped(ts, Seq::empty(), Seq::empty()).1,
        ),
        drawn_from(
            grouped(ts, Seq::empty(), Seq::empty()).0,
            grouped(ts, Seq::empty(), Seq::empty()).1,
            ts,
        ),
    decreases ts.len(),
{
    if ts.len() > 0 {
        let front = ts.drop_last();
        let last = ts.last();
        assert(sorted_by(front, triple_le())) by {
            assert forall|i: int, j: int| 0 <= i < j < front.len() implies #[trigger] triple_le()(
                front[i],
                front[j],
            ) by {
                assert(triple_le()(ts[i], ts[j]));
            }
        }
        lemma_grouped_sorted(front);
        let (s0, b0) = grouped(front, Seq::empty(), Seq::empty());
        let (s, b) = grouped(ts, Seq::empty(), Seq::empty());
        assert((s, b) == group_step((s0, b0), last));
        assert forall|x: TripleView| front.contains(x) implies ts.contains(x) && triple_le()(
            x,
            last,
        ) by {
            let i = choose|i: int| 0 <= i < front.len() && front[i] == x;
            assert(ts[i] == x);
            assert(triple_le()(ts[i], ts[ts.len() - 1]));
        }
        assert(ts.contains(last)) by {
            assert(ts[ts.len() - 1] == last);
        }
        match last.subject {
            TermView::BNode(id) => {
                lemma_first_index(keys(b0), id);
                match first_index(keys(b0), id) {
                    Some(at) => {
                        assert forall|i: int| 0 <= i < b.len() implies sorted_by(
                            (#[trigger] b[i]).1,
                            triple_le(),
                        ) by {
                            assert(sorted_by(b0[i].1, triple_le()));
                            if i == at {
                                assert forall|x: int, y: int|
                                    0 <= x < y < b[i].1.len() implies #[trigger] triple_le()(
                                    b[i].1[x],
                                    b[i].1[y],
                                ) by {
                                    if y == b0[i].1.len() {
                                        assert(front.contains(b0[i].1[x]));
                                    } else {
                                        assert(triple_le()(b0[i].1[x], b0[i].1[y]));
                                    }
                                }
                            }
                        }
                        assert forall|i: int, j: int|
                            0 <= i < b.len() && 0 <= j < b[i].1.len() implies ts.contains(
                            #[trigger] b[i].1[j],
                        ) by {
                            if i == at && j == b0[i].1.len() {
                            } else {
                                assert(front.contains(b0[i].1[j]));
                            }
                        }
                    },
                    None => {
                        assert forall|i: int| 0 <= i < b.len() implies sorted_by(
                            (#[trigger] b[i]).1,
                            triple_le(),
                        ) by {
                            if i < b0.len() {
                                assert(sorted_by(b0[i].1, triple_le()));
                            }
                        }
                        assert forall|i: int, j: int|
                            0 <= i < b.len() && 0 <= j < b[i].1.len() implies ts.contains(
                            #[trigger] b[i].1[j],
                        ) by {
                            if i < b0.len() {
                                assert(front.contains(b0[i].1[j]));
                            }
                        }
                    },
                }
                assert forall|k: int| 0 <= k < s.len() implies ts.contains(#[trigger] s[k]) by {
                    assert(front.contains(s0[k]));
                }
            },
            _ => {
                assert forall|x: int, y: int| 0 <= x < y < s.len() implies #[trigger] triple_le()(
                    s[x],
                    s[y],
                ) by {
                    if y == s0.len() {
                        assert(front.contains(s0[x]));
                    } else {
                        assert(triple_le()(s0[x], s0[y]));
                    }
                }
                assert forall|k: int| 0 <= k < s.len() implies ts.contains(#[trigger] s[k]) by {
                    if k < s0.len() {
                        assert(front.contains(s0[k]));
                    }
                }
                assert forall|i: int, j: int|
                    0 <= i < b.len() && 0 <= j < b[i].1.len() implies ts.contains(
                    #[trigger] b[i].1[j],
                ) by {
                    assert(front.contains(b0[i].1[j]));
                }
            },
        }
    }
}

} // verus!
