//! Lists read as sets: membership, inclusion and union.

use vstd::prelude::*;
use vstd::std_specs::cmp::PartialEqSpec;

verus! {

/// Whether `==` on `T` holds exactly of values with the same mathematical value.
pub open spec fn eq_by_value<T: DeepView + PartialEq>() -> bool {
    &&& T::obeys_eq_spec()
    &&& forall|x: T, y: T| #[trigger] x.eq_spec(&y) == (x.deep_view() == y.deep_view())
}

/// Whether every member of `a` is a member of `b`.
pub open spec fn included<A>(a: Seq<A>, b: Seq<A>) -> bool {
    forall|i: int| 0 <= i < a.len() ==> b.contains(#[trigger] a[i])
}

/// Two lists hold the same set exactly when each is included in the other.
pub proof fn lemma_same_set<A>(a: Seq<A>, b: Seq<A>)
    ensures
        (a.to_set() == b.to_set()) <==> (included(a, b) && included(b, a)),
{
    if included(a, b) && included(b, a) {
        assert forall|x: A| a.to_set().contains(x) <==> b.to_set().contains(x) by {
            if a.contains(x) {
                let i = choose|i: int| 0 <= i < a.len() && a[i] == x;
                assert(b.contains(a[i]));
            }
            if b.contains(x) {
                let i = choose|i: int| 0 <= i < b.len() && b[i] == x;
                assert(a.contains(b[i]));
            }
        }
        assert(a.to_set() =~= b.to_set());
    }
    if a.to_set() == b.to_set() {
        assert forall|i: int| 0 <= i < a.len() implies b.contains(#[trigger] a[i]) by {
            assert(a.contains(a[i]));
            assert(a.to_set().contains(a[i]));
            assert(b.to_set().contains(a[i]));
        }
        assert forall|i: int| 0 <= i < b.len() implies a.contains(#[trigger] b[i]) by {
            assert(b.contains(b[i]));
            assert(b.to_set().contains(b[i]));
            assert(a.to_set().contains(b[i]));
        }
    }
}

/// The position of the first member of `v` with the value of `x`.
pub fn vec_position<T: DeepView + PartialEq>(v: &Vec<T>, x: &T) -> (r: Option<usize>)
    requires
        eq_by_value::<T>(),
    ensures
        match r {
            Some(i) => i < v.len() && v.deep_view()[i as int] == x.deep_view() && forall|j: int|
                0 <= j < i ==> v.deep_view()[j] != x.deep_view(),
            None => !v.deep_view().contains(x.deep_view()),
        },
{
    let mut i: usize = 0;
    while i < v.len()
        invariant
            i <= v.len(),
            eq_by_value::<T>(),
            forall|j: int| 0 <= j < i ==> v.deep_view()[j] != x.deep_view(),
        decreases v.len() - i,
    {
        if v[i] == *x {
            return Some(i);
        }
        i += 1;
    }
    None
}

/// Whether `v` has a member with the value of `x`.
pub fn vec_contains<T: DeepView + PartialEq>(v: &Vec<T>, x: &T) -> (r: bool)
    requires
        eq_by_value::<T>(),
    ensures
        r == v.deep_view().contains(x.deep_view()),
{
    vec_position(v, x).is_some()
}

/// Whether every member of `a` is a member of `b`.
pub fn vec_included<T: DeepView + PartialEq>(a: &Vec<T>, b: &Vec<T>) -> (r: bool)
    requires
        eq_by_value::<T>(),
    ensures
        r == included(a.deep_view(), b.deep_view()),
{
    let mut i: usize = 0;
    while i < a.len()
        invariant
            i <= a.len(),
            eq_by_value::<T>(),
            forall|j: int| 0 <= j < i ==> b.deep_view().contains(#[trigger] a.deep_view()[j]),
        decreases a.len() - i,
    {
        if !vec_contains(b, &a[i]) {
            assert(!b.deep_view().contains(a.deep_view()[i as int]));
            return false;
        }
        i += 1;
    }
    true
}

/// Whether two lists hold the same set of values.
pub fn vec_same_set<T: DeepView + PartialEq>(a: &Vec<T>, b: &Vec<T>) -> (r: bool)
    requires
        eq_by_value::<T>(),
    ensures
        r == (a.deep_view().to_set() == b.deep_view().to_set()),
{
    proof {
        lemma_same_set(a.deep_view(), b.deep_view());
    }
    vec_included(a, b) && vec_included(b, a)
}

/// The list `s` with `x` added at its end unless it is a member already.
pub open spec fn with_member<A>(s: Seq<A>, x: A) -> Seq<A> {
    if s.contains(x) {
        s
    } else {
        s.push(x)
    }
}

/// The list `a` followed by those members of `b`, from the last to the first,
/// that it does not hold yet.
pub open spec fn with_members<A>(a: Seq<A>, b: Seq<A>) -> Seq<A>
    decreases b.len(),
{
    if b.len() == 0 {
        a
    } else {
        with_members(with_member(a, b.last()), b.drop_last())
    }
}

/// `with_member` adds one value to the set that a list holds.
pub proof fn lemma_with_member<A>(s: Seq<A>, x: A)
    ensures
        with_member(s, x).to_set() == s.to_set().insert(x),
{
    let r = with_member(s, x);
    assert forall|y: A| r.to_set().contains(y) <==> s.to_set().insert(x).contains(y) by {
        if s.contains(x) {
        } else {
            if r.contains(y) {
                let i = choose|i: int| 0 <= i < r.len() && r[i] == y;
                if i < s.len() {
                    assert(s[i] == y);
                }
            }
            if s.contains(y) {
                let i = choose|i: int| 0 <= i < s.len() && s[i] == y;
                assert(r[i] == y);
            }
            assert(r[s.len() as int] == x);
        }
    }
    assert(r.to_set() =~= s.to_set().insert(x));
}

/// `with_members` holds the union of the sets that the two lists hold.
pub proof fn lemma_with_members<A>(a: Seq<A>, b: Seq<A>)
    ensures
        with_members(a, b).to_set() == a.to_set().union(b.to_set()),
    decreases b.len(),
{
    if b.len() == 0 {
        assert(b.to_set() =~= Set::<A>::empty());
        assert(a.to_set().union(b.to_set()) =~= a.to_set());
    } else {
        lemma_with_member(a, b.last());
        lemma_with_members(with_member(a, b.last()), b.drop_last());
        assert forall|y: A|
            a.to_set().insert(b.last()).union(b.drop_last().to_set()).contains(y)
                <==> a.to_set().union(b.to_set()).contains(y) by {
            if b.contains(y) {
                let i = choose|i: int| 0 <= i < b.len() && b[i] == y;
                if i < b.len() - 1 {
                    assert(b.drop_last()[i] == y);
                }
            }
            if b.drop_last().contains(y) {
                let i = choose|i: int| 0 <= i < b.drop_last().len() && b.drop_last()[i] == y;
                assert(b[i] == y);
            }
            assert(b[b.len() - 1] == b.last());
        }
        assert(a.to_set().insert(b.last()).union(b.drop_last().to_set()) =~= a.to_set().union(
            b.to_set(),
        ));
    }
}

/// Adds `x` to the list unless the list holds its value already.
pub fn vec_insert<T: DeepView + PartialEq>(v: &mut Vec<T>, x: T)
    requires
        eq_by_value::<T>(),
    ensures
        final(v).deep_view() == with_member(old(v).deep_view(), x.deep_view()),
{
    let ghost before = v.deep_view();
    if !vec_contains(v, &x) {
        v.push(x);
        assert(v.deep_view() =~= before.push(x.deep_view()));
    }
}

/// Adds to `a` the members of `b` that it does not hold yet.
pub fn vec_union<T: DeepView + PartialEq>(a: Vec<T>, b: Vec<T>) -> (r: Vec<T>)
    requires
        eq_by_value::<T>(),
    ensures
        r.deep_view() == with_members(a.deep_view(), b.deep_view()),
        r.deep_view().to_set() == a.deep_view().to_set().union(b.deep_view().to_set()),
{
    let ghost a0 = a.deep_view();
    let ghost b0 = b.deep_view();
    let mut a = a;
    let mut b = b;
    while b.len() > 0
        invariant
            eq_by_value::<T>(),
            with_members(a.deep_view(), b.deep_view()) == with_members(a0, b0),
        decreases b.len(),
    {
        let ghost b1 = b.deep_view();
        let x = b.pop().unwrap();
        assert(b.deep_view() =~= b1.drop_last());
        assert(x.deep_view() == b1.last());
        vec_insert(&mut a, x);
    }
    proof {
        lemma_with_members(a0, b0);
    }
    a
}

} // verus!
