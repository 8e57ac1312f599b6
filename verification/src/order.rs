//! Stable sorting by a strict order.

use vstd::prelude::*;

verus! {

/// What can be put in order.
pub trait Ranked: Sized + View {
    /// Whether `a` comes before `b`.
    spec fn before(a: Self::V, b: Self::V) -> bool;

    /// Whether `self` comes before `other`.
    fn comes_before(&self, other: &Self) -> (r: bool)
        ensures
            r == Self::before(self@, other@),
    ;

    /// Nothing comes before what comes before it.
    proof fn asymmetric(a: Self::V, b: Self::V)
        requires
            Self::before(a, b),
        ensures
            !Self::before(b, a),
    ;

    /// What does not come after something does not come after what follows.
    proof fn transitive(a: Self::V, b: Self::V, c: Self::V)
        requires
            !Self::before(b, a),
            !Self::before(c, b),
        ensures
            !Self::before(c, a),
    ;
}

/// `s` with `x` before the first element that it comes before.
pub open spec fn placed<T: Ranked>(s: Seq<T::V>, x: T::V) -> Seq<T::V>
    decreases s.len(),
{
    if s.len() == 0 {
        seq![x]
    } else if T::before(x, s[0]) {
        seq![x] + s
    } else {
        seq![s[0]] + placed::<T>(s.skip(1), x)
    }
}

/// `s` in order; what is equal in rank keeps its order.
pub open spec fn ranked<T: Ranked>(s: Seq<T::V>) -> Seq<T::V>
    decreases s.len(),
{
    if s.len() == 0 {
        seq![]
    } else {
        placed::<T>(ranked::<T>(s.drop_last()), s.last())
    }
}

/// Whether nothing in `s` comes before what stands before it.
pub open spec fn in_rank<T: Ranked>(s: Seq<T::V>) -> bool {
    forall|i: int, j: int|
        0 <= i < j < s.len() ==> !T::before(#[trigger] s[j], #[trigger] s[i])
}

/// `placed` adds one element.
proof fn lemma_placed<T: Ranked>(s: Seq<T::V>, x: T::V)
    ensures
        placed::<T>(s, x).len() == s.len() + 1,
        placed::<T>(s, x).to_multiset() == s.to_multiset().insert(x),
        forall|i: int|
            0 <= i < placed::<T>(s, x).len() ==> #[trigger] placed::<T>(s, x)[i] == x
                || s.contains(placed::<T>(s, x)[i]),
    decreases s.len(),
{
    broadcast use vstd::seq_lib::group_to_multiset_ensures;

    let p = placed::<T>(s, x);
    if s.len() == 0 {
        assert(s =~= seq![]);
        assert(seq![x] =~= Seq::<T::V>::empty().push(x));
    } else if T::before(x, s[0]) {
        assert(seq![x] =~= Seq::<T::V>::empty().push(x));
        vstd::seq_lib::lemma_multiset_commutative(seq![x], s);
        assert(p.to_multiset() =~= s.to_multiset().insert(x));
        assert forall|i: int| 0 <= i < p.len() implies #[trigger] p[i] == x || s.contains(p[i]) by {
            if i > 0 {
                assert(p[i] == s[i - 1]);
            }
        }
    } else {
        let rest = s.skip(1);
        lemma_placed::<T>(rest, x);
        let q = placed::<T>(rest, x);
        assert(seq![s[0]] =~= Seq::<T::V>::empty().push(s[0]));
        vstd::seq_lib::lemma_multiset_commutative(seq![s[0]], q);
        vstd::seq_lib::lemma_multiset_commutative(seq![s[0]], rest);
        assert(s =~= seq![s[0]] + rest);
        assert(p.to_multiset() =~= s.to_multiset().insert(x));
        assert forall|i: int| 0 <= i < p.len() implies #[trigger] p[i] == x || s.contains(p[i]) by {
            if i == 0 {
                assert(p[0] == s[0]);
            } else {
                assert(p[i] == q[i - 1]);
                if q[i - 1] != x {
                    let k = choose|k: int| 0 <= k < rest.len() && rest[k] == q[i - 1];
                    assert(s[k + 1] == p[i]);
                }
            }
        }
    }
}

/// `placed` keeps the order.
proof fn lemma_placed_in_rank<T: Ranked>(s: Seq<T::V>, x: T::V)
    requires
        in_rank::<T>(s),
    ensures
        in_rank::<T>(placed::<T>(s, x)),
    decreases s.len(),
{
    let p = placed::<T>(s, x);
    if s.len() == 0 {
    } else if T::before(x, s[0]) {
        T::asymmetric(x, s[0]);
        assert forall|i: int, j: int| 0 <= i < j < p.len() implies !T::before(
            #[trigger] p[j],
            #[trigger] p[i],
        ) by {
            assert(p[j] == s[j - 1]);
            if i > 0 {
                assert(p[i] == s[i - 1]);
            } else if j > 1 {
                assert(!T::before(s[j - 1], s[0]));
                T::transitive(x, s[0], s[j - 1]);
            }
        }
    } else {
        let rest = s.skip(1);
        assert forall|i: int, j: int| 0 <= i < j < rest.len() implies !T::before(
            #[trigger] rest[j],
            #[trigger] rest[i],
        ) by {
            assert(rest[i] == s[i + 1] && rest[j] == s[j + 1]);
        }
        lemma_placed_in_rank::<T>(rest, x);
        lemma_placed::<T>(rest, x);
        let q = placed::<T>(rest, x);
        assert forall|i: int, j: int| 0 <= i < j < p.len() implies !T::before(
            #[trigger] p[j],
            #[trigger] p[i],
        ) by {
            assert(p[j] == q[j - 1]);
            if i > 0 {
                assert(p[i] == q[i - 1]);
            } else if q[j - 1] != x {
                let k = choose|k: int| 0 <= k < rest.len() && rest[k] == q[j - 1];
                assert(s[k + 1] == q[j - 1]);
                assert(!T::before(s[k + 1], s[0]));
            }
        }
    }
}

/// Sorting keeps every element and puts them in order.
pub proof fn ranked_is_sorted<T: Ranked>(s: Seq<T::V>)
    ensures
        ranked::<T>(s).len() == s.len(),
        ranked::<T>(s).to_multiset() == s.to_multiset(),
        in_rank::<T>(ranked::<T>(s)),
    decreases s.len(),
{
    broadcast use vstd::seq_lib::group_to_multiset_ensures;

    if s.len() > 0 {
        ranked_is_sorted::<T>(s.drop_last());
        lemma_placed::<T>(ranked::<T>(s.drop_last()), s.last());
        lemma_placed_in_rank::<T>(ranked::<T>(s.drop_last()), s.last());
        assert(s =~= s.drop_last().push(s.last()));
    } else {
        assert(s =~= seq![]);
    }
}

/// Everything that is sorted was there before.
pub proof fn ranked_members<T: Ranked>(s: Seq<T::V>, i: int)
    requires
        0 <= i < ranked::<T>(s).len(),
    ensures
        s.contains(ranked::<T>(s)[i]),
    decreases s.len(),
{
    if s.len() > 0 {
        let r = ranked::<T>(s.drop_last());
        lemma_placed::<T>(r, s.last());
        let x = ranked::<T>(s)[i];
        if x == s.last() {
            assert(s[s.len() - 1] == x);
        } else {
            let k = choose|k: int| 0 <= k < r.len() && r[k] == x;
            ranked_members::<T>(s.drop_last(), k);
            let m = choose|m: int| 0 <= m < s.drop_last().len() && s.drop_last()[m] == x;
            assert(s[m] == x);
        }
    }
}

/// Nothing is lost in sorting.
pub proof fn ranked_keeps<T: Ranked>(s: Seq<T::V>, x: T::V)
    requires
        s.contains(x),
    ensures
        ranked::<T>(s).contains(x),
{
    broadcast use vstd::seq_lib::group_to_multiset_ensures;

    ranked_is_sorted::<T>(s);
    assert(s.to_multiset().count(x) > 0);
    assert(ranked::<T>(s).to_multiset().count(x) > 0);
}

/// Where `placed` puts an element.
proof fn lemma_placed_at<T: Ranked>(s: Seq<T::V>, x: T::V, n: int)
    requires
        0 <= n <= s.len(),
        forall|k: int| 0 <= k < n ==> !T::before(x, #[trigger] s[k]),
        n < s.len() ==> T::before(x, s[n]),
    ensures
        placed::<T>(s, x) == s.take(n) + seq![x] + s.skip(n),
    decreases s.len(),
{
    if n > 0 {
        assert(!T::before(x, s[0]));
        let rest = s.skip(1);
        assert forall|k: int| 0 <= k < n - 1 implies !T::before(x, #[trigger] rest[k]) by {
            assert(rest[k] == s[k + 1]);
        }
        lemma_placed_at::<T>(rest, x, n - 1);
        assert(seq![s[0]] + (rest.take(n - 1) + seq![x] + rest.skip(n - 1)) =~= s.take(n) + seq![x]
            + s.skip(n));
    } else {
        assert(s.take(0) + seq![x] + s.skip(0) =~= seq![x] + s);
    }
}

/// Where an element is placed among elements that are in order.
proof fn lemma_place<T: Ranked>(s: Seq<T::V>, x: T::V) -> (n: int)
    requires
        in_rank::<T>(s),
    ensures
        0 <= n <= s.len(),
        placed::<T>(s, x) == s.take(n) + seq![x] + s.skip(n),
        forall|k: int| n <= k < s.len() ==> T::before(x, #[trigger] s[k]),
    decreases s.len(),
{
    if s.len() == 0 {
        assert(s.take(0) + seq![x] + s.skip(0) =~= seq![x]);
        0
    } else if T::before(x, s[0]) {
        assert(s.take(0) + seq![x] + s.skip(0) =~= seq![x] + s);
        assert forall|k: int| 0 <= k < s.len() implies T::before(x, #[trigger] s[k]) by {
            if k > 0 && !T::before(x, s[k]) {
                T::transitive(s[0], s[k], x);
            }
        }
        0
    } else {
        let rest = s.skip(1);
        assert forall|i: int, j: int| 0 <= i < j < rest.len() implies !T::before(
            #[trigger] rest[j],
            #[trigger] rest[i],
        ) by {
            assert(rest[i] == s[i + 1] && rest[j] == s[j + 1]);
        }
        let m = lemma_place::<T>(rest, x);
        assert(seq![s[0]] + (rest.take(m) + seq![x] + rest.skip(m)) =~= s.take(m + 1) + seq![x]
            + s.skip(m + 1));
        assert forall|k: int| m + 1 <= k < s.len() implies T::before(x, #[trigger] s[k]) by {
            assert(rest[k - 1] == s[k]);
        }
        m + 1
    }
}

/// Elements of equal rank keep their order in sorting: those that satisfy `p`,
/// where none of them comes before another, are the same list before and after.
pub proof fn ranked_is_stable<T: Ranked>(s: Seq<T::V>, p: spec_fn(T::V) -> bool)
    requires
        forall|a: T::V, b: T::V| #[trigger] p(a) && #[trigger] p(b) ==> !T::before(a, b),
    ensures
        ranked::<T>(s).filter(p) == s.filter(p),
    decreases s.len(),
{
    reveal(Seq::filter);
    if s.len() > 0 {
        let r = ranked::<T>(s.drop_last());
        let x = s.last();
        ranked_is_stable::<T>(s.drop_last(), p);
        ranked_is_sorted::<T>(s.drop_last());
        let n = lemma_place::<T>(r, x);
        let low = r.take(n);
        let high = r.skip(n);
        Seq::filter_distributes_over_add(low + seq![x], high, p);
        Seq::filter_distributes_over_add(low, seq![x], p);
        Seq::filter_distributes_over_add(low, high, p);
        assert(low + high =~= r);
        assert(seq![x].drop_last() =~= Seq::<T::V>::empty());
        reveal_with_fuel(Seq::filter, 2);
        if p(x) {
            assert(seq![x].filter(p) =~= seq![x]);
            assert forall|k: int| 0 <= k < high.len() implies !p(#[trigger] high[k]) by {
                assert(high[k] == r[k + n]);
            }
            lemma_none::<T>(high, p);
            assert(low.filter(p) + seq![x] + high.filter(p) =~= r.filter(p).push(x));
        } else {
            assert(seq![x].filter(p) =~= Seq::<T::V>::empty());
            assert(low.filter(p) + Seq::<T::V>::empty() + high.filter(p) =~= r.filter(p));
        }
    }
}

/// A list without what is looked for gives nothing.
proof fn lemma_none<T: Ranked>(s: Seq<T::V>, p: spec_fn(T::V) -> bool)
    requires
        forall|k: int| 0 <= k < s.len() ==> !p(#[trigger] s[k]),
    ensures
        s.filter(p).len() == 0,
    decreases s.len(),
{
    reveal(Seq::filter);
    if s.len() > 0 {
        let less = s.drop_last();
        assert forall|k: int| 0 <= k < less.len() implies !p(#[trigger] less[k]) by {
            assert(less[k] == s[k]);
        }
        lemma_none::<T>(less, p);
        assert(!p(s[s.len() - 1]));
    }
}

/// Sorts a list; what is equal in rank keeps its order.
pub fn sort<T: Ranked>(v: Vec<T>) -> (r: Vec<T>)
    ensures
        crate::fields::views_of(r@) == ranked::<T>(crate::fields::views_of(v@)),
{
    let ghost all = crate::fields::views_of(v@);
    let ghost given = v@;
    let mut rest = v;
    let mut backward: Vec<T> = Vec::new();
    while rest.len() > 0
        invariant
            rest@.len() + backward@.len() == given.len(),
            forall|k: int| 0 <= k < rest@.len() ==> rest@[k] == given[k],
            forall|k: int| 0 <= k < backward@.len() ==> backward@[k] == given[given.len() - 1 - k],
        decreases rest@.len(),
    {
        let item = rest.pop().unwrap();
        backward.push(item);
    }
    let mut out: Vec<T> = Vec::new();
    let ghost mut done: int = 0;
    assert(crate::fields::views_of(out@) =~= ranked::<T>(all.take(0)));
    while backward.len() > 0
        invariant
            all == crate::fields::views_of(given),
            backward@.len() <= given.len(),
            done == given.len() - backward@.len(),
            forall|k: int| 0 <= k < backward@.len() ==> backward@[k] == given[given.len() - 1 - k],
            crate::fields::views_of(out@) == ranked::<T>(all.take(done)),
        decreases backward@.len(),
    {
        let item = backward.pop().unwrap();
        assert(item == given[done]);
        let ghost before = crate::fields::views_of(out@);
        let mut n: usize = 0;
        while n < out.len() && !item.comes_before(&out[n])
            invariant
                n <= out.len(),
                before == crate::fields::views_of(out@),
                forall|k: int| 0 <= k < n ==> !T::before(item@, #[trigger] before[k]),
            decreases out.len() - n,
        {
            assert(before[n as int] == out@[n as int]@);
            n = n + 1;
        }
        proof {
            if n < out@.len() {
                assert(before[n as int] == out@[n as int]@);
            }
            lemma_placed_at::<T>(before, item@, n as int);
            assert(all.take(done + 1).drop_last() =~= all.take(done));
            assert(all.take(done + 1).last() == item@);
            done = done + 1;
        }
        out.insert(n, item);
        assert(crate::fields::views_of(out@) =~= before.take(n as int) + seq![item@] + before.skip(
            n as int,
        ));
    }
    assert(all.take(done) =~= all);
    out
}

} // verus!
