use vstd::prelude::*;

verus! {

/// Index of the first least element of `s[0..n)` under `lt`: a later element
/// takes the place only when strictly less.
pub open spec fn first_min_index<T>(s: Seq<T>, n: int, lt: spec_fn(T, T) -> bool) -> int
    decreases n,
{
    if n <= 1 {
        0
    } else {
        let m = first_min_index(s, n - 1, lt);
        if lt(s[n - 1], s[m]) {
            n - 1
        } else {
            m
        }
    }
}

/// `s` sorted by `lt`, stably: the first least element, then the rest sorted the same way.
pub open spec fn stable_sort<T>(s: Seq<T>, lt: spec_fn(T, T) -> bool) -> Seq<T>
    decreases s.len(),
{
    if s.len() == 0 {
        Seq::empty()
    } else {
        let i = first_min_index(s, s.len() as int, lt);
        if 0 <= i < s.len() {
            seq![s[i]] + stable_sort(s.remove(i), lt)
        } else {
            Seq::empty()
        }
    }
}

pub proof fn lemma_first_min_bounds<T>(s: Seq<T>, n: int, lt: spec_fn(T, T) -> bool)
    requires
        1 <= n,
    ensures
        0 <= first_min_index(s, n, lt) < n,
    decreases n,
{
    if n > 1 {
        lemma_first_min_bounds(s, n - 1, lt);
    }
}

/// Sorts `v` stably by `before`, which says whether one item comes strictly before another.
pub fn stable_sort_by<T, F: Fn(&T, &T) -> bool>(v: Vec<T>, before: F, Ghost(lt): Ghost<spec_fn(T, T) -> bool>) -> (r: Vec<T>)
    requires
        forall|a: &T, b: &T| #[trigger] before.requires((a, b)),
        forall|a: &T, b: &T, res: bool| before.ensures((a, b), res) ==> res == lt(*a, *b),
    ensures
        r@ == stable_sort(v@, lt),
{
    let ghost orig = v@;
    let mut rest = v;
    let mut out: Vec<T> = Vec::new();
    while rest.len() > 0
        invariant
            forall|a: &T, b: &T| #[trigger] before.requires((a, b)),
            forall|a: &T, b: &T, res: bool| before.ensures((a, b), res) ==> res == lt(*a, *b),
            out@ + stable_sort(rest@, lt) == stable_sort(orig, lt),
        decreases rest.len(),
    {
        let mut best: usize = 0;
        let mut k: usize = 1;
        while k < rest.len()
            invariant
                forall|a: &T, b: &T| #[trigger] before.requires((a, b)),
                forall|a: &T, b: &T, res: bool| before.ensures((a, b), res) ==> res == lt(*a, *b),
                1 <= k <= rest.len(),
                best < k,
                best == first_min_index(rest@, k as int, lt),
            decreases rest.len() - k,
        {
            if before(&rest[k], &rest[best]) {
                best = k;
            }
            k += 1;
        }
        proof {
            lemma_first_min_bounds(rest@, rest@.len() as int, lt);
        }
        let ghost before_rest = rest@;
        let x = rest.remove(best);
        proof {
            assert(stable_sort(before_rest, lt) == seq![x] + stable_sort(rest@, lt));
            assert(out@.push(x) + stable_sort(rest@, lt) =~= out@ + stable_sort(before_rest, lt));
        }
        out.push(x);
    }
    assert(out@ + stable_sort(rest@, lt) =~= out@);
    out
}


/// What a strict order needs for sorting: no item before itself, and "before" chains.
pub open spec fn strict_order<T>(lt: spec_fn(T, T) -> bool) -> bool {
    &&& forall|a: T| !#[trigger] lt(a, a)
    &&& forall|a: T, b: T, c: T| #[trigger] lt(a, b) && #[trigger] lt(b, c) ==> lt(a, c)
}

/// No item of `s` comes strictly before an item placed earlier.
pub open spec fn sorted_by<T>(s: Seq<T>, lt: spec_fn(T, T) -> bool) -> bool {
    forall|i: int, j: int| 0 <= i < j < s.len() ==> !lt(#[trigger] s[j], #[trigger] s[i])
}

proof fn lemma_first_min_is_least<T>(s: Seq<T>, n: int, lt: spec_fn(T, T) -> bool)
    requires
        1 <= n <= s.len(),
        strict_order(lt),
    ensures
        forall|j: int| 0 <= j < n ==> !lt(#[trigger] s[j], s[first_min_index(s, n, lt)]),
    decreases n,
{
    if n > 1 {
        lemma_first_min_is_least(s, n - 1, lt);
        lemma_first_min_bounds(s, n - 1, lt);
        let m = first_min_index(s, n - 1, lt);
        if lt(s[n - 1], s[m]) {
            assert forall|j: int| 0 <= j < n implies !lt(#[trigger] s[j], s[n - 1]) by {
                if j < n - 1 && lt(s[j], s[n - 1]) {
                    assert(lt(s[j], s[m]));
                }
            }
        }
    }
}

/// Sorting keeps exactly the items it was given, as many times each.
pub proof fn lemma_stable_sort_permutes<T>(s: Seq<T>, lt: spec_fn(T, T) -> bool)
    ensures
        stable_sort(s, lt).to_multiset() == s.to_multiset(),
        stable_sort(s, lt).len() == s.len(),
    decreases s.len(),
{
    broadcast use vstd::seq_lib::group_to_multiset_ensures;
    if s.len() > 0 {
        lemma_first_min_bounds(s, s.len() as int, lt);
        let i = first_min_index(s, s.len() as int, lt);
        lemma_stable_sort_permutes(s.remove(i), lt);
        let rest = stable_sort(s.remove(i), lt);
        vstd::seq_lib::lemma_multiset_commutative(seq![s[i]], rest);
        assert(seq![s[i]].to_multiset() =~= vstd::multiset::Multiset::empty().insert(s[i])) by {
            assert(seq![s[i]] =~= Seq::<T>::empty().push(s[i]));
        }
        assert(stable_sort(s, lt).to_multiset() =~= s.to_multiset());
    } else {
        assert(stable_sort(s, lt) =~= s);
    }
}

/// Under a strict order, the sorted sequence never places an item after one it comes before.
pub proof fn lemma_stable_sort_sorted<T>(s: Seq<T>, lt: spec_fn(T, T) -> bool)
    requires
        strict_order(lt),
    ensures
        sorted_by(stable_sort(s, lt), lt),
    decreases s.len(),
{
    broadcast use vstd::seq_lib::group_to_multiset_ensures;
    if s.len() > 0 {
        lemma_first_min_bounds(s, s.len() as int, lt);
        lemma_first_min_is_least(s, s.len() as int, lt);
        let i = first_min_index(s, s.len() as int, lt);
        let rest = s.remove(i);
        lemma_stable_sort_sorted(rest, lt);
        lemma_stable_sort_permutes(rest, lt);
        let r = stable_sort(s, lt);
        let sr = stable_sort(rest, lt);
        assert(r == seq![s[i]] + sr);
        assert forall|a: int, b: int| 0 <= a < b < r.len() implies !lt(#[trigger] r[b], #[trigger] r[a]) by {
            if a == 0 {
                let x = sr[b - 1];
                assert(r[b] == x);
                assert(sr.to_multiset().count(x) > 0);
                assert(rest.contains(x));
                let k = choose|k: int| 0 <= k < rest.len() && rest[k] == x;
                if k < i {
                    assert(rest[k] == s[k]);
                } else {
                    assert(rest[k] == s[k + 1]);
                }
            } else {
                assert(r[a] == sr[a - 1] && r[b] == sr[b - 1]);
            }
        }
    }
}

/// The items of `s` that satisfy `p`, in their order.
pub open spec fn keep<T>(s: Seq<T>, p: spec_fn(T) -> bool) -> Seq<T>
    decreases s.len(),
{
    if s.len() == 0 {
        Seq::empty()
    } else if p(s.last()) {
        keep(s.drop_last(), p).push(s.last())
    } else {
        keep(s.drop_last(), p)
    }
}

/// Filtering a sequence one item longer.
pub proof fn lemma_keep_push<T>(s: Seq<T>, x: T, p: spec_fn(T) -> bool)
    ensures
        keep(s.push(x), p) == (if p(x) { keep(s, p).push(x) } else { keep(s, p) }),
{
    assert(s.push(x).drop_last() =~= s);
}

/// Filtering keeps every item that satisfies `p`, as many times as it occurs, and no other.
pub proof fn lemma_keep_counts<T>(s: Seq<T>, p: spec_fn(T) -> bool, x: T)
    ensures
        keep(s, p).to_multiset().count(x) == (if p(x) { s.to_multiset().count(x) } else { 0 }),
    decreases s.len(),
{
    broadcast use vstd::seq_lib::group_to_multiset_ensures;
    broadcast use vstd::multiset::group_multiset_axioms;
    if s.len() == 0 {
        assert(keep(s, p).to_multiset() =~= vstd::multiset::Multiset::empty());
        assert(s.to_multiset() =~= vstd::multiset::Multiset::empty());
    } else {
        lemma_keep_counts(s.drop_last(), p, x);
        assert(s =~= s.drop_last().push(s.last()));
    }
}

proof fn lemma_first_min_map<A, B>(s: Seq<A>, f: spec_fn(A) -> B, lta: spec_fn(A, A) -> bool, ltb: spec_fn(B, B) -> bool, n: int)
    requires
        0 <= n <= s.len(),
        forall|a: A, b: A| #[trigger] lta(a, b) == ltb(f(a), f(b)),
    ensures
        first_min_index(s.map_values(f), n, ltb) == first_min_index(s, n, lta),
    decreases n,
{
    if n > 1 {
        lemma_first_min_map(s, f, lta, ltb, n - 1);
        lemma_first_min_bounds(s, n - 1, lta);
        let m = first_min_index(s, n - 1, lta);
        assert(s.map_values(f)[n - 1] == f(s[n - 1]));
        assert(s.map_values(f)[m] == f(s[m]));
        assert(lta(s[n - 1], s[m]) == ltb(f(s[n - 1]), f(s[m])));
    }
}

/// Sorting views by an order that reads only the views gives the views of the sorted items.
pub proof fn lemma_stable_sort_map<A, B>(s: Seq<A>, f: spec_fn(A) -> B, lta: spec_fn(A, A) -> bool, ltb: spec_fn(B, B) -> bool)
    requires
        forall|a: A, b: A| #[trigger] lta(a, b) == ltb(f(a), f(b)),
    ensures
        stable_sort(s.map_values(f), ltb) == stable_sort(s, lta).map_values(f),
    decreases s.len(),
{
    if s.len() > 0 {
        let t = s.map_values(f);
        lemma_first_min_map(s, f, lta, ltb, s.len() as int);
        lemma_first_min_bounds(s, s.len() as int, lta);
        let i = first_min_index(s, s.len() as int, lta);
        assert(t.remove(i) =~= s.remove(i).map_values(f));
        lemma_stable_sort_map(s.remove(i), f, lta, ltb);
        assert(stable_sort(t, ltb) =~= stable_sort(s, lta).map_values(f));
    } else {
        assert(stable_sort(s.map_values(f), ltb) =~= stable_sort(s, lta).map_values(f));
    }
}
} // verus!
