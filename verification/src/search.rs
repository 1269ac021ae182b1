//! Finding the first occurrence of a value in a sequence, and folding a
//! sequence into a state.

use vstd::prelude::*;

verus! {

/// The least position of `s` that holds `x`, if there is one.
pub open spec fn first_index<T>(s: Seq<T>, x: T) -> Option<int>
    decreases s.len(),
{
    if s.len() == 0 {
        None
    } else if s.last() == x && first_index(s.drop_last(), x) is None {
        Some(s.len() - 1)
    } else {
        first_index(s.drop_last(), x)
    }
}

/// `first_index` finds a position that holds `x`, and no earlier position holds it.
pub proof fn lemma_first_index<T>(s: Seq<T>, x: T)
    ensures
        first_index(s, x) is Some ==> 0 <= first_index(s, x)->0 < s.len() && s[first_index(
            s,
            x,
        )->0] == x,
        forall|j: int|
            0 <= j < s.len() && (first_index(s, x) is None || j < first_index(s, x)->0)
                ==> #[trigger] s[j] != x,
    decreases s.len(),
{
    if s.len() > 0 {
        let front = s.drop_last();
        lemma_first_index(front, x);
        assert forall|j: int|
            0 <= j < s.len() && (first_index(s, x) is None || j < first_index(
                s,
                x,
            )->0) implies #[trigger] s[j] != x by {
            if j < front.len() {
                assert(front[j] == s[j]);
            }
        }
    }
}

/// The least position that holds `x` is what `first_index` finds.
pub proof fn lemma_first_index_is<T>(s: Seq<T>, x: T, i: int)
    requires
        0 <= i < s.len(),
        s[i] == x,
        forall|j: int| 0 <= j < i ==> s[j] != x,
    ensures
        first_index(s, x) == Some(i),
{
    lemma_first_index(s, x);
}

/// Where no position holds `x`, `first_index` finds none.
pub proof fn lemma_first_index_none<T>(s: Seq<T>, x: T)
    requires
        forall|j: int| 0 <= j < s.len() ==> s[j] != x,
    ensures
        first_index(s, x) is None,
{
    lemma_first_index(s, x);
}

/// What holds of the state at the start of a fold, and is kept by every step,
/// holds of the state at its end.
pub proof fn lemma_fold_invariant<S, E>(
    s: Seq<E>,
    init: S,
    f: spec_fn(S, E) -> S,
    p: spec_fn(S) -> bool,
)
    requires
        p(init),
        forall|st: S, e: E| p(st) && s.contains(e) ==> #[trigger] p(f(st, e)),
    ensures
        p(s.fold_left(init, f)),
    decreases s.len(),
{
    if s.len() > 0 {
        let front = s.drop_last();
        assert forall|st: S, e: E| p(st) && front.contains(e) implies #[trigger] p(f(st, e)) by {
            let i = choose|i: int| 0 <= i < front.len() && front[i] == e;
            assert(s[i] == e);
        }
        lemma_fold_invariant(front, init, f, p);
        assert(s.contains(s.last()));
    }
}

/// A fold that comes past `t`: what holds at the start and is kept by every
/// step but that on `t`, the step on `t` turns into `q`; once `q` holds every
/// step keeps it. Then `q` holds of the state at the end.
pub proof fn lemma_fold_reaches<S, E>(
    s: Seq<E>,
    init: S,
    f: spec_fn(S, E) -> S,
    p: spec_fn(S) -> bool,
    q: spec_fn(S) -> bool,
    t: E,
)
    requires
        s.contains(t),
        p(init),
        forall|st: S, e: E| p(st) && s.contains(e) && e != t ==> #[trigger] p(f(st, e)),
        forall|st: S| p(st) ==> #[trigger] q(f(st, t)),
        forall|st: S, e: E| q(st) && s.contains(e) ==> #[trigger] q(f(st, e)),
    ensures
        q(s.fold_left(init, f)),
    decreases s.len(),
{
    let front = s.drop_last();
    assert(s.contains(s.last()));
    assert forall|e: E| front.contains(e) implies s.contains(e) by {
        let i = choose|i: int| 0 <= i < front.len() && front[i] == e;
        assert(s[i] == e);
    }
    if front.contains(t) {
        lemma_fold_reaches(front, init, f, p, q, t);
    } else {
        let i = choose|i: int| 0 <= i < s.len() && s[i] == t;
        if i < front.len() {
            assert(front[i] == t);
        }
        assert(s.last() == t);
        assert forall|st: S, e: E| p(st) && front.contains(e) implies #[trigger] p(f(st, e)) by {
            assert(s.contains(e));
        }
        lemma_fold_invariant(front, init, f, p);
    }
}

/// A list that got a new last member holds it, and holds what it held.
pub proof fn lemma_push_contains<A>(s: Seq<A>, x: A, y: A)
    ensures
        s.push(x).contains(x),
        s.contains(y) ==> s.push(x).contains(y),
{
    assert(s.push(x).last() == x);
    if s.contains(y) {
        let k = choose|k: int| 0 <= k < s.len() && s[k] == y;
        assert(s.push(x)[k] == y);
    }
}

} // verus!
