//! Stable sorting by a rank: a total preorder that may hold distinct values
//! equal.

use vstd::prelude::*;

verus! {

/// A type whose values are ranked by a total preorder that can be decided.
pub trait Ranked: Sized {
    /// `self` comes no later than `other`.
    spec fn rank_le(&self, other: &Self) -> bool;

    /// Any two values are comparable.
    proof fn lemma_rank_total(a: &Self, b: &Self)
        ensures
            a.rank_le(b) || b.rank_le(a),
    ;

    /// The rank is transitive.
    proof fn lemma_rank_transitive(a: &Self, b: &Self, c: &Self)
        requires
            a.rank_le(b),
            b.rank_le(c),
        ensures
            a.rank_le(c),
    ;

    /// Decides `rank_le`.
    fn precedes(&self, other: &Self) -> (r: bool)
        ensures
            r == self.rank_le(other),
    ;
}

/// Every element comes no later than the elements behind it.
pub open spec fn sorted<T: Ranked>(s: Seq<T>) -> bool {
    forall|i: int, j: int| 0 <= i < j < s.len() ==> #[trigger] s[i].rank_le(&s[j])
}

/// Neither value comes before the other.
pub open spec fn same_rank<T: Ranked>(a: T, b: T) -> bool {
    a.rank_le(&b) && b.rank_le(&a)
}

/// The elements of `s` that rank with `x`, in the order in which `s` holds them.
pub open spec fn peers<T: Ranked>(s: Seq<T>, x: T) -> Seq<T> {
    s.filter(|y: T| same_rank(y, x))
}

/// `out` is `inp` sorted by rank, with elements of the same rank left in the
/// order that `inp` gave them.
pub open spec fn is_stable_sort<T: Ranked>(out: Seq<T>, inp: Seq<T>) -> bool {
    &&& sorted(out)
    &&& out.to_multiset() == inp.to_multiset()
    &&& forall|x: T| #[trigger] peers(out, x) == peers(inp, x)
}

/// Where `x` goes into the sorted `s`: behind everything that comes no later
/// than `x`, before everything that comes strictly later.
pub open spec fn is_insertion_point<T: Ranked>(s: Seq<T>, x: T, p: int) -> bool {
    &&& 0 <= p <= s.len()
    &&& forall|j: int| 0 <= j < p ==> (#[trigger] s[j]).rank_le(&x)
    &&& forall|j: int| p <= j < s.len() ==> !(#[trigger] s[j]).rank_le(&x)
}

/// Inserting at the insertion point keeps the sequence sorted.
proof fn lemma_insert_sorted<T: Ranked>(s: Seq<T>, x: T, p: int)
    requires
        sorted(s),
        is_insertion_point(s, x, p),
    ensures
        sorted(s.insert(p, x)),
{
    let t = s.insert(p, x);
    assert forall|i: int, j: int| 0 <= i < j < t.len() implies #[trigger] t[i].rank_le(&t[j]) by {
        if j < p {
            assert(t[i] == s[i] && t[j] == s[j]);
        } else if j == p {
            assert(t[i] == s[i]);
        } else if i == p {
            assert(t[j] == s[j - 1]);
            T::lemma_rank_total(&x, &s[j - 1]);
        } else if i < p {
            assert(t[i] == s[i] && t[j] == s[j - 1]);
        } else {
            assert(t[i] == s[i - 1] && t[j] == s[j - 1]);
        }
    }
}

/// Inserting at the insertion point puts `x` behind its peers and leaves
/// every other class as it was.
proof fn lemma_insert_peers<T: Ranked>(s: Seq<T>, x: T, p: int, k: T)
    requires
        is_insertion_point(s, x, p),
    ensures
        peers(s.insert(p, x), k) == peers(s.push(x), k),
{
    let pred = |y: T| same_rank(y, k);
    let front = s.subrange(0, p);
    let back = s.subrange(p, s.len() as int);
    assert(s =~= front + back);
    assert(s.insert(p, x) =~= front.push(x) + back);
    Seq::filter_distributes_over_add(front, back, pred);
    Seq::filter_distributes_over_add(front.push(x), back, pred);
    front.lemma_filter_push(x, pred);
    s.lemma_filter_push(x, pred);
    if same_rank(x, k) {
        assert forall|j: int| 0 <= j < back.len() implies !pred(#[trigger] back[j]) by {
            if same_rank(back[j], k) {
                T::lemma_rank_transitive(&back[j], &k, &x);
                assert(back[j] == s[p + j]);
            }
        }
        assert(back.all(|y: T| !pred(y)));
        back.lemma_all_neg_filter_empty(pred);
        assert(back.filter(pred) =~= Seq::<T>::empty());
        assert(front.filter(pred) + back.filter(pred) =~= front.filter(pred));
        assert(front.filter(pred).push(x) + back.filter(pred) =~= front.filter(pred).push(x));
    }
}

/// A sorted sequence has one insertion point for each value.
proof fn lemma_insertion_point_unique<T: Ranked>(s: Seq<T>, x: T, p: int, q: int)
    requires
        is_insertion_point(s, x, p),
        is_insertion_point(s, x, q),
    ensures
        p == q,
{
    if p < q {
        assert(s[p].rank_le(&x));
    } else if q < p {
        assert(s[q].rank_le(&x));
    }
}

/// The last element that a filter keeps: where it stands, and what the
/// filter keeps once it is removed.
proof fn lemma_filter_last<A>(s: Seq<A>, pred: spec_fn(A) -> bool) -> (p: int)
    requires
        s.filter(pred).len() > 0,
    ensures
        0 <= p < s.len(),
        pred(s[p]),
        s[p] == s.filter(pred).last(),
        forall|j: int| p < j < s.len() ==> !pred(#[trigger] s[j]),
        s.remove(p).filter(pred) == s.filter(pred).drop_last(),
    decreases s.len(),
{
    reveal(Seq::filter);
    let rest = s.drop_last();
    if pred(s.last()) {
        assert(s.remove(s.len() - 1) =~= rest);
        assert(rest.filter(pred).push(s.last()).drop_last() =~= rest.filter(pred));
        s.len() - 1
    } else {
        let p = lemma_filter_last(rest, pred);
        assert(s.remove(p) =~= rest.remove(p).push(s.last()));
        rest.remove(p).lemma_filter_push(s.last(), pred);
        assert forall|j: int| p < j < s.len() implies !pred(#[trigger] s[j]) by {
            if j < rest.len() {
                assert(s[j] == rest[j]);
            }
        }
        p
    }
}

/// Removing an element that a filter drops does not change what it keeps.
proof fn lemma_filter_remove_dropped<A>(s: Seq<A>, pred: spec_fn(A) -> bool, p: int)
    requires
        0 <= p < s.len(),
        !pred(s[p]),
    ensures
        s.remove(p).filter(pred) == s.filter(pred),
{
    let front = s.subrange(0, p);
    let back = s.subrange(p + 1, s.len() as int);
    assert(s =~= front.push(s[p]) + back);
    assert(s.remove(p) =~= front + back);
    Seq::filter_distributes_over_add(front.push(s[p]), back, pred);
    Seq::filter_distributes_over_add(front, back, pred);
    front.lemma_filter_push(s[p], pred);
}

/// Taking the last element of the input out of a stable sort of it leaves a
/// stable sort of the rest, into which the element goes back at its
/// insertion point.
proof fn lemma_stable_sort_shrinks<T: Ranked>(out: Seq<T>, inp: Seq<T>) -> (p: int)
    requires
        is_stable_sort(out, inp),
        inp.len() > 0,
    ensures
        0 <= p < out.len(),
        is_stable_sort(out.remove(p), inp.drop_last()),
        is_insertion_point(out.remove(p), inp.last(), p),
        out == out.remove(p).insert(p, inp.last()),
{
    let x = inp.last();
    let rest = inp.drop_last();
    let with_x = |y: T| same_rank(y, x);
    assert(inp =~= rest.push(x));
    T::lemma_rank_total(&x, &x);
    rest.lemma_filter_push(x, with_x);
    assert(peers(out, x) == peers(inp, x));
    let p = lemma_filter_last(out, with_x);
    let less = out.remove(p);
    assert(out[p] == x);
    assert(out =~= less.insert(p, x));
    assert forall|i: int, j: int| 0 <= i < j < less.len() implies #[trigger] less[i].rank_le(
        &less[j],
    ) by {
        let i0 = if i < p { i } else { i + 1 };
        let j0 = if j < p { j } else { j + 1 };
        assert(out[i0].rank_le(&out[j0]));
    }
    vstd::seq_lib::to_multiset_remove(out, p);
    vstd::seq_lib::to_multiset_build(rest, x);
    assert(less.to_multiset() =~= rest.to_multiset());
    assert forall|k: T| #[trigger] peers(less, k) == peers(rest, k) by {
        let with_k = |y: T| same_rank(y, k);
        assert(peers(out, k) == peers(inp, k));
        rest.lemma_filter_push(x, with_k);
        if same_rank(x, k) {
            assert forall|y: T| #[trigger] with_k(y) == with_x(y) by {
                if same_rank(y, k) {
                    T::lemma_rank_transitive(&y, &k, &x);
                    T::lemma_rank_transitive(&x, &k, &y);
                }
                if same_rank(y, x) {
                    T::lemma_rank_transitive(&y, &x, &k);
                    T::lemma_rank_transitive(&k, &x, &y);
                }
            }
            assert(with_k =~= with_x);
            assert(rest.filter(with_k).push(x).drop_last() =~= rest.filter(with_k));
        } else {
            lemma_filter_remove_dropped(out, with_k, p);
        }
    }
    assert forall|j: int| 0 <= j < p implies (#[trigger] less[j]).rank_le(&x) by {
        assert(out[j].rank_le(&out[p]));
    }
    assert forall|j: int| p <= j < less.len() implies !(#[trigger] less[j]).rank_le(&x) by {
        assert(out[p].rank_le(&out[j + 1]));
        assert(!with_x(out[j + 1]));
    }
    p
}

/// A sequence has one stable sort only: what `is_stable_sort` says of a
/// result leaves no choice.
pub proof fn lemma_stable_sort_unique<T: Ranked>(a: Seq<T>, b: Seq<T>, inp: Seq<T>)
    requires
        is_stable_sort(a, inp),
        is_stable_sort(b, inp),
    ensures
        a == b,
    decreases inp.len(),
{
    vstd::seq_lib::to_multiset_len(a);
    vstd::seq_lib::to_multiset_len(b);
    vstd::seq_lib::to_multiset_len(inp);
    if inp.len() == 0 {
        assert(a =~= b);
    } else {
        let p = lemma_stable_sort_shrinks(a, inp);
        let q = lemma_stable_sort_shrinks(b, inp);
        lemma_stable_sort_unique(a.remove(p), b.remove(q), inp.drop_last());
        lemma_insertion_point_unique(a.remove(p), inp.last(), p, q);
    }
}

/// Finds the insertion point of `x` in the sorted `v` by bisection.
fn insertion_point<T: Ranked>(v: &Vec<T>, x: &T) -> (p: usize)
    requires
        sorted(v@),
    ensures
        is_insertion_point(v@, *x, p as int),
{
    let mut lo: usize = 0;
    let mut hi: usize = v.len();
    while lo < hi
        invariant
            lo <= hi <= v@.len(),
            sorted(v@),
            forall|j: int| 0 <= j < lo ==> (#[trigger] v@[j]).rank_le(x),
            forall|j: int| hi <= j < v@.len() ==> !(#[trigger] v@[j]).rank_le(x),
        decreases hi - lo,
    {
        let mid = lo + (hi - lo) / 2;
        if v[mid].precedes(x) {
            proof {
                assert forall|j: int| 0 <= j < mid + 1 implies (#[trigger] v@[j]).rank_le(x) by {
                    if j < mid {
                        assert(v@[j].rank_le(&v@[mid as int]));
                        T::lemma_rank_transitive(&v@[j], &v@[mid as int], x);
                    }
                }
            }
            lo = mid + 1;
        } else {
            proof {
                assert forall|j: int| mid <= j < v@.len() implies !(#[trigger] v@[j]).rank_le(
                    x,
                ) by {
                    if mid < j && v@[j].rank_le(x) {
                        assert(v@[mid as int].rank_le(&v@[j]));
                        T::lemma_rank_transitive(&v@[mid as int], &v@[j], x);
                    }
                }
            }
            hi = mid;
        }
    }
    lo
}

/// Sorts by rank. Elements of the same rank keep the order in which they came.
pub fn stable_sort<T: Ranked>(items: Vec<T>) -> (out: Vec<T>)
    ensures
        is_stable_sort(out@, items@),
{
    let mut out: Vec<T> = Vec::new();
    let ghost all = items@;
    proof {
        assert(all.take(0) =~= out@);
    }
    for x in it: items
        invariant
            it.seq() == all,
            is_stable_sort(out@, all.take(it.index())),
    {
        let ghost n = it.index();
        let ghost before = out@;
        let p = insertion_point(&out, &x);
        out.insert(p, x);
        proof {
            assert(all.take(n + 1) =~= all.take(n).push(x));
            lemma_insert_sorted(before, x, p as int);
            vstd::seq_lib::to_multiset_insert(before, p as int, x);
            vstd::seq_lib::to_multiset_build(all.take(n), x);
            assert forall|k: T| #[trigger] peers(out@, k) == peers(all.take(n + 1), k) by {
                lemma_insert_peers(before, x, p as int, k);
                assert(peers(before, k) == peers(all.take(n), k));
                before.lemma_filter_push(x, |y: T| same_rank(y, k));
                all.take(n).lemma_filter_push(x, |y: T| same_rank(y, k));
            }
        }
    }
    proof {
        assert(all.take(all.len() as int) =~= all);
    }
    out
}

} // verus!
