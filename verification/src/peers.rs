//! Lists of peer identities.
//!
//! A peer identity is a `String`; contracts speak of it by its view, a
//! `Seq<char>`, and of a list of identities by the sequence of those views.

use vstd::prelude::*;

verus! {

/// The identities held in `v`, in order.
pub open spec fn ids(v: Seq<String>) -> Seq<Seq<char>> {
    v.map_values(|s: String| s@)
}

/// The test that every identity but `p` passes.
pub open spec fn other_than(p: Seq<char>) -> spec_fn(Seq<char>) -> bool {
    |q: Seq<char>| q != p
}

/// The test that every identity passes that does not occur in `gone`.
pub open spec fn none_of(gone: Seq<Seq<char>>) -> spec_fn(Seq<char>) -> bool {
    |q: Seq<char>| !gone.contains(q)
}

/// `s` without every occurrence of `p`, the rest in its old order.
pub open spec fn without(s: Seq<Seq<char>>, p: Seq<char>) -> Seq<Seq<char>> {
    s.filter(other_than(p))
}

/// `s` without the identities that occur in `gone`, the rest in its old order.
pub open spec fn without_all(s: Seq<Seq<char>>, gone: Seq<Seq<char>>) -> Seq<Seq<char>> {
    s.filter(none_of(gone))
}

/// Filtering a list that ends in `x` filters the list before `x` and keeps `x`
/// where the predicate holds of it.
pub proof fn lemma_filter_push<A>(s: Seq<A>, x: A, pred: spec_fn(A) -> bool)
    ensures
        s.push(x).filter(pred) == if pred(x) {
            s.filter(pred).push(x)
        } else {
            s.filter(pred)
        },
{
    reveal(Seq::filter);
    assert(s.push(x).drop_last() =~= s);
}

/// An element is in a filtered list exactly if it is in the list and the
/// predicate holds of it.
pub proof fn lemma_filter_members<A>(s: Seq<A>, pred: spec_fn(A) -> bool)
    ensures
        forall|x: A| #[trigger] s.filter(pred).contains(x) <==> s.contains(x) && pred(x),
    decreases s.len(),
{
    reveal(Seq::filter);
    if s.len() > 0 {
        let front = s.drop_last();
        let last = s.last();
        lemma_filter_members(front, pred);
        assert(s =~= front.push(last));
        lemma_filter_push(front, last, pred);
        assert forall|x: A| #[trigger] s.filter(pred).contains(x) <==> s.contains(x) && pred(
            x,
        ) by {
            let f = front.filter(pred);
            if s.filter(pred).contains(x) {
                let i = choose|i: int| 0 <= i < s.filter(pred).len() && s.filter(pred)[i] == x;
                if i < f.len() {
                    assert(f[i] == x);
                    assert(f.contains(x));
                    let j = choose|j: int| 0 <= j < front.len() && front[j] == x;
                    assert(s[j] == x);
                } else {
                    assert(x == last);
                    assert(s[s.len() - 1] == x);
                }
            }
            if s.contains(x) && pred(x) {
                let j = choose|j: int| 0 <= j < s.len() && s[j] == x;
                if j < front.len() {
                    assert(front[j] == x);
                    assert(front.contains(x));
                    assert(f.contains(x));
                    let i = choose|i: int| 0 <= i < f.len() && f[i] == x;
                    assert(s.filter(pred)[i] == x);
                } else {
                    assert(s.filter(pred)[s.filter(pred).len() - 1] == x);
                }
            }
        }
    }
}

/// Filtering keeps a list free of repetitions.
pub proof fn lemma_filter_no_duplicates<A>(s: Seq<A>, pred: spec_fn(A) -> bool)
    requires
        s.no_duplicates(),
    ensures
        s.filter(pred).no_duplicates(),
    decreases s.len(),
{
    reveal(Seq::filter);
    if s.len() > 0 {
        let front = s.drop_last();
        let last = s.last();
        lemma_filter_no_duplicates(front, pred);
        lemma_filter_members(front, pred);
        assert(s =~= front.push(last));
        lemma_filter_push(front, last, pred);
        if pred(last) {
            let f = front.filter(pred);
            assert forall|i: int| 0 <= i < f.len() implies f[i] != last by {
                assert(f.contains(f[i]));
                assert(front.contains(f[i]));
                let j = choose|j: int| 0 <= j < front.len() && front[j] == f[i];
                assert(s[j] == f[i]);
            }
        }
    }
}

/// A list that gains an element it did not hold stays free of repetitions.
pub proof fn lemma_push_no_duplicates<A>(s: Seq<A>, x: A)
    requires
        s.no_duplicates(),
        !s.contains(x),
    ensures
        s.push(x).no_duplicates(),
{
    assert forall|i: int, j: int|
        0 <= i < s.push(x).len() && 0 <= j < s.push(x).len() && i != j implies s.push(x)[i]
        != s.push(x)[j] by {
        if i < s.len() && j < s.len() {
            assert(s[i] != s[j]);
        } else if i < s.len() {
            assert(s.contains(s[i]));
        } else {
            assert(s.contains(s[j]));
        }
    }
}

/// What a list gains by `push` is in it, and so is what was in it before.
pub proof fn lemma_push_members<A>(s: Seq<A>, x: A)
    ensures
        forall|y: A| #[trigger] s.push(x).contains(y) <==> (s.contains(y) || y == x),
{
    assert forall|y: A| #[trigger] s.push(x).contains(y) <==> (s.contains(y) || y == x) by {
        if s.contains(y) {
            let j = choose|j: int| 0 <= j < s.len() && s[j] == y;
            assert(s.push(x)[j] == y);
        }
        if y == x {
            assert(s.push(x)[s.len() as int] == y);
        }
        if s.push(x).contains(y) {
            let j = choose|j: int| 0 <= j < s.push(x).len() && s.push(x)[j] == y;
            if j < s.len() {
                assert(s[j] == y);
            }
        }
    }
}

/// Whether `p` occurs in `v`.
pub fn contains(v: &Vec<String>, p: &String) -> (found: bool)
    ensures
        found == ids(v@).contains(p@),
{
    let mut i: usize = 0;
    while i < v.len()
        invariant
            i <= v.len(),
            forall|k: int| 0 <= k < i ==> ids(v@)[k] != p@,
        decreases v.len() - i,
    {
        if v[i] == *p {
            assert(ids(v@)[i as int] == p@);
            return true;
        }
        i += 1;
    }
    false
}

/// Removes every occurrence of `p` from `v` and keeps the rest in order.
pub fn remove_all(v: &mut Vec<String>, p: &String)
    ensures
        ids(final(v)@) == without(ids(old(v)@), p@),
{
    let ghost pred = other_than(p@);
    let mut kept: Vec<String> = Vec::new();
    let mut i: usize = 0;
    assert(ids(v@.take(0)) =~= Seq::<Seq<char>>::empty());
    proof {
        reveal(Seq::filter);
    }
    while i < v.len()
        invariant
            i <= v.len(),
            pred == other_than(p@),
            ids(kept@) == ids(v@.take(i as int)).filter(pred),
        decreases v.len() - i,
    {
        proof {
            assert(v@.take(i + 1) =~= v@.take(i as int).push(v@[i as int]));
            assert(ids(v@.take(i + 1)) =~= ids(v@.take(i as int)).push(v@[i as int]@));
            lemma_filter_push(ids(v@.take(i as int)), v@[i as int]@, pred);
        }
        if !(v[i] == *p) {
            let ghost before = kept@;
            kept.push(v[i].clone());
            assert(ids(kept@) =~= ids(before).push(v@[i as int]@));
        }
        i += 1;
    }
    assert(v@.take(v.len() as int) =~= v@);
    *v = kept;
}

/// Removes from `v` every identity that occurs in `gone` and keeps the rest
/// in order.
pub fn remove_listed(v: &mut Vec<String>, gone: &Vec<String>)
    ensures
        ids(final(v)@) == without_all(ids(old(v)@), ids(gone@)),
{
    let ghost pred = none_of(ids(gone@));
    let mut kept: Vec<String> = Vec::new();
    let mut i: usize = 0;
    assert(ids(v@.take(0)) =~= Seq::<Seq<char>>::empty());
    proof {
        reveal(Seq::filter);
    }
    while i < v.len()
        invariant
            i <= v.len(),
            pred == none_of(ids(gone@)),
            ids(kept@) == ids(v@.take(i as int)).filter(pred),
        decreases v.len() - i,
    {
        proof {
            assert(v@.take(i + 1) =~= v@.take(i as int).push(v@[i as int]));
            assert(ids(v@.take(i + 1)) =~= ids(v@.take(i as int)).push(v@[i as int]@));
            lemma_filter_push(ids(v@.take(i as int)), v@[i as int]@, pred);
        }
        if !contains(gone, &v[i]) {
            let ghost before = kept@;
            kept.push(v[i].clone());
            assert(ids(kept@) =~= ids(before).push(v@[i as int]@));
        }
        i += 1;
    }
    assert(v@.take(v.len() as int) =~= v@);
    *v = kept;
}

} // verus!
