//! Association lists: the working tables of the parser.
//!
//! A table is a list of entries, each a key and a value. Looking a key up finds
//! the first entry that has it. A table filled through `put` alone holds each
//! key once.

use crate::io::rdf::term::{triple_same, Triple, TripleView};
use crate::model::literal::{Annotation, AnnotationView};
use crate::model::set::{vec_union, with_members};
use crate::search::{first_index, lemma_first_index, lemma_first_index_is, lemma_first_index_none};
use crate::text::same_text;
use vstd::prelude::*;

verus! {

/// The keys of a table, in the order of its entries.
pub open spec fn keys<K, V>(m: Seq<(K, V)>) -> Seq<K> {
    m.map_values(|e: (K, V)| e.0)
}

/// The value of the first entry with the key `k`.
pub open spec fn lookup<K, V>(m: Seq<(K, V)>, k: K) -> Option<V> {
    match first_index(keys(m), k) {
        Some(i) => Some(m[i].1),
        None => None,
    }
}

/// The table without its first entry with the key `k`.
pub open spec fn without<K, V>(m: Seq<(K, V)>, k: K) -> Seq<(K, V)> {
    match first_index(keys(m), k) {
        Some(i) => m.remove(i),
        None => m,
    }
}

/// The table with `v` as the value of `k`: in the place of the first entry that
/// has the key, or in a new last entry.
pub open spec fn with_entry<K, V>(m: Seq<(K, V)>, k: K, v: V) -> Seq<(K, V)> {
    match first_index(keys(m), k) {
        Some(i) => m.update(i, (k, v)),
        None => m.push((k, v)),
    }
}

/// Whether no two entries of the table have the same key.
pub open spec fn distinct_keys<K, V>(m: Seq<(K, V)>) -> bool {
    forall|i: int, j: int| 0 <= i < j < m.len() ==> (#[trigger] m[i]).0 != (#[trigger] m[j]).0
}

/// A table that holds each key once still does so after a key was given a
/// value, and after an entry was taken out; the key that was given a value
/// has it, and the key that was taken out has none.
pub proof fn lemma_distinct_keys<K, V>(m: Seq<(K, V)>, k: K, v: V)
    requires
        distinct_keys(m),
    ensures
        distinct_keys(with_entry(m, k, v)),
        distinct_keys(without(m, k)),
        lookup(with_entry(m, k, v), k) == Some(v),
        lookup(without(m, k), k) is None,
{
    let ks = keys(m);
    lemma_first_index(ks, k);
    let put = with_entry(m, k, v);
    let cut = without(m, k);
    match first_index(ks, k) {
        Some(i) => {
            assert(ks[i] == m[i].0);
            assert forall|a: int, b: int| 0 <= a < b < put.len() implies (#[trigger] put[a]).0
                != (#[trigger] put[b]).0 by {
                assert(m[a].0 != m[b].0);
            }
            assert forall|a: int, b: int| 0 <= a < b < cut.len() implies (#[trigger] cut[a]).0
                != (#[trigger] cut[b]).0 by {
                let a0 = if a < i {
                    a
                } else {
                    a + 1
                };
                let b0 = if b < i {
                    b
                } else {
                    b + 1
                };
                assert(cut[a] == m[a0] && cut[b] == m[b0]);
                assert(m[a0].0 != m[b0].0);
            }
            assert forall|j: int| 0 <= j < i implies keys(put)[j] != k by {
                assert(ks[j] != k);
            }
            lemma_first_index_is(keys(put), k, i);
            assert forall|j: int| 0 <= j < cut.len() implies keys(cut)[j] != k by {
                let j0 = if j < i {
                    j
                } else {
                    j + 1
                };
                assert(cut[j] == m[j0]);
                if j0 < i {
                    assert(m[j0].0 != m[i].0);
                } else {
                    assert(m[i].0 != m[j0].0);
                }
            }
            lemma_first_index_none(keys(cut), k);
        },
        None => {
            assert forall|a: int, b: int| 0 <= a < b < put.len() implies (#[trigger] put[a]).0
                != (#[trigger] put[b]).0 by {
                if b == m.len() {
                    assert(ks[a] != k);
                } else {
                    assert(m[a].0 != m[b].0);
                }
            }
            assert forall|j: int| 0 <= j < m.len() implies keys(put)[j] != k by {
                assert(ks[j] != k);
            }
            lemma_first_index_is(keys(put), k, m.len() as int);
        },
    }
}

/// The position of the first entry with the key `k`.
pub fn position<V: DeepView>(m: &Vec<(String, V)>, k: &str) -> (r: Option<usize>)
    ensures
        match r {
            Some(i) => i < m.len() && first_index(keys(m.deep_view()), k@) == Some(i as int),
            None => first_index(keys(m.deep_view()), k@) is None,
        },
{
    let ghost ks = keys(m.deep_view());
    let mut i: usize = 0;
    while i < m.len()
        invariant
            i <= m.len(),
            ks == keys(m.deep_view()),
            forall|j: int| 0 <= j < i ==> ks[j] != k@,
        decreases m.len() - i,
    {
        assert(ks[i as int] == m@[i as int].0@);
        if same_text(m[i].0.as_str(), k) {
            proof {
                lemma_first_index_is(ks, k@, i as int);
            }
            return Some(i);
        }
        i += 1;
    }
    proof {
        lemma_first_index_none(ks, k@);
    }
    None
}

/// Takes the first entry with the key `k` out of the table and returns its value.
pub fn take<V: DeepView>(m: &mut Vec<(String, V)>, k: &str) -> (r: Option<V>)
    ensures
        r.deep_view() == lookup(old(m).deep_view(), k@),
        final(m).deep_view() == without(old(m).deep_view(), k@),
        final(m).len() == old(m).len() - (if r is Some {
            1int
        } else {
            0int
        }),
{
    let ghost before = m.deep_view();
    match position(m, k) {
        Some(i) => {
            let e = m.remove(i);
            assert(m.deep_view() =~= before.remove(i as int));
            Some(e.1)
        },
        None => None,
    }
}

/// Gives the key `k` the value `v`.
pub fn put<V: DeepView>(m: &mut Vec<(String, V)>, k: String, v: V)
    ensures
        final(m).deep_view() == with_entry(old(m).deep_view(), k@, v.deep_view()),
{
    let ghost before = m.deep_view();
    let ghost kv = (k@, v.deep_view());
    match position(m, k.as_str()) {
        Some(i) => {
            m.push((k, v));
            let last = m.swap_remove(i);
            assert(m.deep_view() =~= before.update(i as int, kv));
        },
        None => {
            m.push((k, v));
            assert(m.deep_view() =~= before.push(kv));
        },
    }
}

/// The position of the first entry whose key is the triple `k`.
pub fn triple_position(m: &Vec<(Triple, Vec<Annotation>)>, k: &Triple) -> (r: Option<usize>)
    ensures
        match r {
            Some(i) => i < m.len() && first_index(keys(m.deep_view()), k.deep_view()) == Some(
                i as int,
            ),
            None => first_index(keys(m.deep_view()), k.deep_view()) is None,
        },
{
    let ghost ks = keys(m.deep_view());
    let mut i: usize = 0;
    while i < m.len()
        invariant
            i <= m.len(),
            ks == keys(m.deep_view()),
            forall|j: int| 0 <= j < i ==> ks[j] != k.deep_view(),
        decreases m.len() - i,
    {
        assert(ks[i as int] == m@[i as int].0.deep_view());
        if triple_same(&m[i].0, k) {
            proof {
                lemma_first_index_is(ks, k.deep_view(), i as int);
            }
            return Some(i);
        }
        i += 1;
    }
    proof {
        lemma_first_index_none(ks, k.deep_view());
    }
    None
}

/// The annotations that the table holds for `k`: none where it has no entry for it.
pub open spec fn annotations_of(
    m: Seq<(TripleView, Seq<AnnotationView>)>,
    k: TripleView,
) -> Seq<AnnotationView> {
    match lookup(m, k) {
        Some(a) => a,
        None => Seq::empty(),
    }
}

/// Takes the annotations recorded for the triple `k` out of the table.
pub fn take_annotations(m: &mut Vec<(Triple, Vec<Annotation>)>, k: &Triple) -> (r: Vec<Annotation>)
    ensures
        r.deep_view() == annotations_of(old(m).deep_view(), k.deep_view()),
        final(m).deep_view() == without(old(m).deep_view(), k.deep_view()),
{
    let ghost before = m.deep_view();
    match triple_position(m, k) {
        Some(i) => {
            let e = m.remove(i);
            assert(m.deep_view() =~= before.remove(i as int));
            e.1
        },
        None => {
            let r: Vec<Annotation> = Vec::new();
            assert(r.deep_view() =~= Seq::<AnnotationView>::empty());
            r
        },
    }
}

/// The table with the annotations `v` added to those that it holds for `k`:
/// what was recorded before stays first, and nothing is recorded twice.
pub open spec fn with_annotations(
    m: Seq<(TripleView, Seq<AnnotationView>)>,
    k: TripleView,
    v: Seq<AnnotationView>,
) -> Seq<(TripleView, Seq<AnnotationView>)> {
    with_entry(m, k, with_members(annotations_of(m, k), v))
}

/// A key that was given a value has it, and every other key has what it had.
pub proof fn lemma_with_entry<K, V>(m: Seq<(K, V)>, k: K, v: V, other: K)
    ensures
        lookup(with_entry(m, k, v), k) == Some(v),
        other != k ==> lookup(with_entry(m, k, v), other) == lookup(m, other),
{
    let ks = keys(m);
    let put = with_entry(m, k, v);
    lemma_first_index(ks, k);
    lemma_first_index(ks, other);
    let at = match first_index(ks, k) {
        Some(i) => i,
        None => m.len() as int,
    };
    assert forall|j: int| 0 <= j < at implies keys(put)[j] != k by {
        assert(ks[j] != k);
    }
    lemma_first_index_is(keys(put), k, at);
    if other != k {
        match first_index(ks, other) {
            Some(i) => {
                assert forall|j: int| 0 <= j < i implies keys(put)[j] != other by {
                    if j != at {
                        assert(ks[j] != other);
                    }
                }
                assert(ks[i] == other);
                assert(keys(put)[i] == other);
                lemma_first_index_is(keys(put), other, i);
            },
            None => {
                assert forall|j: int| 0 <= j < put.len() implies keys(put)[j] != other by {
                    if j != at {
                        assert(ks[j] != other);
                    }
                }
                lemma_first_index_none(keys(put), other);
            },
        }
    }
}

/// Taking the entry of one key out leaves every other key what it had.
pub proof fn lemma_without<K, V>(m: Seq<(K, V)>, k: K, other: K)
    requires
        other != k,
    ensures
        lookup(without(m, k), other) == lookup(m, other),
{
    let ks = keys(m);
    let cut = without(m, k);
    lemma_first_index(ks, k);
    lemma_first_index(ks, other);
    match first_index(ks, k) {
        Some(at) => {
            assert(ks[at] == k);
            match first_index(ks, other) {
                Some(i) => {
                    assert(ks[i] == other);
                    let i1 = if i < at {
                        i
                    } else {
                        i - 1
                    };
                    assert forall|j: int| 0 <= j < i1 implies keys(cut)[j] != other by {
                        let j0 = if j < at {
                            j
                        } else {
                            j + 1
                        };
                        assert(cut[j] == m[j0]);
                        assert(ks[j0] != other);
                    }
                    assert(cut[i1] == m[i]);
                    assert(keys(cut)[i1] == other);
                    lemma_first_index_is(keys(cut), other, i1);
                },
                None => {
                    assert forall|j: int| 0 <= j < cut.len() implies keys(cut)[j] != other by {
                        let j0 = if j < at {
                            j
                        } else {
                            j + 1
                        };
                        assert(cut[j] == m[j0]);
                        assert(ks[j0] != other);
                    }
                    lemma_first_index_none(keys(cut), other);
                },
            }
        },
        None => {},
    }
}

/// Adds the annotations `v` to those recorded for the triple `k`.
pub fn add_annotations(m: &mut Vec<(Triple, Vec<Annotation>)>, k: Triple, v: Vec<Annotation>)
    ensures
        final(m).deep_view() == with_annotations(old(m).deep_view(), k.deep_view(), v.deep_view()),
{
    let ghost before = m.deep_view();
    let ghost kv = k.deep_view();
    match triple_position(m, &k) {
        Some(i) => {
            proof {
                lemma_first_index(keys(before), kv);
            }
            assert(keys(before)[i as int] == before[i as int].0);
            m.push((k, Vec::new()));
            let recorded = m.swap_remove(i);
            let ghost mid = m.deep_view();
            assert(mid.len() == before.len());
            assert(forall|j: int| 0 <= j < mid.len() && j != i ==> mid[j] == before[j]);
            assert(recorded.deep_view() == before[i as int]);
            assert(recorded.0.deep_view() == kv);
            let all = vec_union(recorded.1, v);
            let ghost e = (kv, all.deep_view());
            m.push((recorded.0, all));
            let spare = m.swap_remove(i);
            assert(m.deep_view().len() == before.len());
            assert(m.deep_view()[i as int] == e);
            assert(forall|j: int| 0 <= j < mid.len() && j != i ==> m.deep_view()[j] == mid[j]);
            assert(m.deep_view() =~= before.update(i as int, e));
        },
        None => {
            let none: Vec<Annotation> = Vec::new();
            assert(none.deep_view() =~= Seq::<AnnotationView>::empty());
            let all = vec_union(none, v);
            let ghost e = (kv, all.deep_view());
            m.push((k, all));
            assert(m.deep_view() =~= before.push(e));
        },
    }
}

} // verus!
