use vstd::prelude::*;

verus! {


/// `x` inserted into `s` before the first element `y` with `le(x, y)`; at the
/// end when there is none.
pub open spec fn insert_by<T>(le: spec_fn(T, T) -> bool, x: T, s: Seq<T>) -> Seq<T>
    decreases s.len(),
{
    if s.len() == 0 {
        seq![x]
    } else if le(x, s[0]) {
        seq![x] + s
    } else {
        seq![s[0]] + insert_by(le, x, s.drop_first())
    }
}

/// The stable sort of `s` by the order `le`: what a stable sort such as
/// `slice::sort_by` produces, with elements that compare equal kept in their
/// original order.
pub open spec fn stable_sort_by<T>(le: spec_fn(T, T) -> bool, s: Seq<T>) -> Seq<T>
    decreases s.len(),
{
    if s.len() == 0 {
        seq![]
    } else {
        insert_by(le, s[0], stable_sort_by(le, s.drop_first()))
    }
}

/// `le` is total and transitive.
pub open spec fn is_total_preorder<T>(le: spec_fn(T, T) -> bool) -> bool {
    &&& forall|a: T, b: T| #[trigger] le(a, b) || le(b, a)
    &&& forall|a: T, b: T, c: T| #[trigger] le(a, b) && #[trigger] le(b, c) ==> le(a, c)
}

/// Every element is `le` every later one.
pub open spec fn sorted_by<T>(le: spec_fn(T, T) -> bool, s: Seq<T>) -> bool {
    forall|i: int, j: int| 0 <= i < j < s.len() ==> le(#[trigger] s[i], #[trigger] s[j])
}

/// Inserting before the first `j` with `le(x, s[j])`.
pub proof fn lemma_insert_at<T>(le: spec_fn(T, T) -> bool, x: T, s: Seq<T>, j: int)
    requires
        0 <= j <= s.len(),
        forall|k: int| 0 <= k < j ==> !le(x, #[trigger] s[k]),
        j == s.len() || le(x, s[j]),
    ensures
        insert_by(le, x, s) == s.take(j) + seq![x] + s.skip(j),
    decreases j,
{
    if s.len() == 0 {
        assert(s.take(j) + seq![x] + s.skip(j) =~= seq![x]);
    } else if j == 0 {
        assert(s.take(0) + seq![x] + s.skip(0) =~= seq![x] + s);
    } else {
        let t = s.drop_first();
        assert forall|k: int| 0 <= k < j - 1 implies !le(x, #[trigger] t[k]) by {
            assert(t[k] == s[k + 1]);
        }
        if j < s.len() {
            assert(t[j - 1] == s[j]);
        }
        lemma_insert_at(le, x, t, j - 1);
        assert(seq![s[0]] + (t.take(j - 1) + seq![x] + t.skip(j - 1)) =~= s.take(j) + seq![x]
            + s.skip(j));
    }
}

/// Inserting adds exactly `x`.
pub proof fn lemma_insert_multiset<T>(le: spec_fn(T, T) -> bool, x: T, s: Seq<T>)
    ensures
        insert_by(le, x, s).to_multiset() == s.to_multiset().insert(x),
    decreases s.len(),
{
    broadcast use vstd::seq_lib::group_to_multiset_ensures;

    if s.len() == 0 {
        assert(seq![x] =~= s.insert(0, x));
    } else if le(x, s[0]) {
        assert(seq![x] + s =~= s.insert(0, x));
    } else {
        let t = s.drop_first();
        let u = insert_by(le, x, t);
        lemma_insert_multiset(le, x, t);
        assert(seq![s[0]] + u =~= u.insert(0, s[0]));
        assert(s =~= t.insert(0, s[0]));
        assert(insert_by(le, x, s).to_multiset() =~= s.to_multiset().insert(x));
    }
}

/// A stable sort keeps exactly the elements it was given.
pub proof fn lemma_sort_permutes<T>(le: spec_fn(T, T) -> bool, s: Seq<T>)
    ensures
        stable_sort_by(le, s).to_multiset() == s.to_multiset(),
    decreases s.len(),
{
    broadcast use vstd::seq_lib::group_to_multiset_ensures;

    if s.len() > 0 {
        let t = s.drop_first();
        lemma_sort_permutes(le, t);
        lemma_insert_multiset(le, s[0], stable_sort_by(le, t));
        assert(s =~= t.insert(0, s[0]));
    }
}

proof fn lemma_insert_sorted<T>(le: spec_fn(T, T) -> bool, x: T, s: Seq<T>)
    requires
        is_total_preorder(le),
        sorted_by(le, s),
    ensures
        sorted_by(le, insert_by(le, x, s)),
    decreases s.len(),
{
    if s.len() == 0 {
    } else if le(x, s[0]) {
        let r = seq![x] + s;
        assert forall|i: int, j: int| 0 <= i < j < r.len() implies le(
            #[trigger] r[i],
            #[trigger] r[j],
        ) by {
            if i == 0 {
                if j > 1 {
                    assert(le(s[0], s[j - 1]));
                }
            } else {
                assert(le(s[i - 1], s[j - 1]));
            }
        }
    } else {
        let t = s.drop_first();
        assert(sorted_by(le, t)) by {
            assert forall|i: int, j: int| 0 <= i < j < t.len() implies le(
                #[trigger] t[i],
                #[trigger] t[j],
            ) by {
                assert(le(s[i + 1], s[j + 1]));
            }
        }
        lemma_insert_sorted(le, x, t);
        let u = insert_by(le, x, t);
        lemma_insert_multiset(le, x, t);
        broadcast use vstd::seq_lib::group_to_multiset_ensures;
        assert(le(s[0], x));
        let r = seq![s[0]] + u;
        assert forall|i: int, j: int| 0 <= i < j < r.len() implies le(
            #[trigger] r[i],
            #[trigger] r[j],
        ) by {
            if i == 0 {
                let y = u[j - 1];
                assert(u.to_multiset().count(y) > 0);
                assert(t.to_multiset().insert(x).count(y) > 0);
                if y != x {
                    assert(t.to_multiset().count(y) > 0);
                    assert(t.contains(y));
                    let k = choose|k: int| 0 <= k < t.len() && t[k] == y;
                    assert(le(s[0], s[k + 1]));
                }
            } else {
                assert(le(u[i - 1], u[j - 1]));
            }
        }
    }
}

/// A stable sort by a total preorder yields a sorted sequence.
pub proof fn lemma_sort_sorted<T>(le: spec_fn(T, T) -> bool, s: Seq<T>)
    requires
        is_total_preorder(le),
    ensures
        sorted_by(le, stable_sort_by(le, s)),
    decreases s.len(),
{
    if s.len() > 0 {
        lemma_sort_sorted(le, s.drop_first());
        lemma_insert_sorted(le, s[0], stable_sort_by(le, s.drop_first()));
    }
}

/// `a` and `b` are ordered alike: each is `le` the other.
pub open spec fn equivalent<T>(le: spec_fn(T, T) -> bool, a: T, b: T) -> bool {
    le(a, b) && le(b, a)
}

/// The elements of `s` ordered alike with `y`, in their order in `s`.
pub open spec fn alike<T>(le: spec_fn(T, T) -> bool, s: Seq<T>, y: T) -> Seq<T>
    decreases s.len(),
{
    if s.len() == 0 {
        seq![]
    } else {
        (if equivalent(le, s[0], y) {
            seq![s[0]]
        } else {
            seq![]
        }) + alike(le, s.drop_first(), y)
    }
}

proof fn lemma_insert_alike<T>(le: spec_fn(T, T) -> bool, x: T, t: Seq<T>, y: T)
    requires
        is_total_preorder(le),
    ensures
        alike(le, insert_by(le, x, t), y) == (if equivalent(le, x, y) {
            seq![x]
        } else {
            seq![]
        }) + alike(le, t, y),
    decreases t.len(),
{
    let ex: Seq<T> = if equivalent(le, x, y) {
        seq![x]
    } else {
        seq![]
    };
    if t.len() == 0 {
        assert(seq![x].drop_first() =~= Seq::<T>::empty());
        assert(alike(le, Seq::<T>::empty(), y) == Seq::<T>::empty());
        assert(alike(le, seq![x], y) == ex + alike(le, Seq::<T>::empty(), y));
        assert(ex + Seq::<T>::empty() =~= ex);
    } else if le(x, t[0]) {
        assert((seq![x] + t).drop_first() =~= t);
        assert((seq![x] + t)[0] == x);
        assert(alike(le, seq![x] + t, y) == ex + alike(le, t, y));
    } else {
        let rest = t.drop_first();
        lemma_insert_alike(le, x, rest, y);
        let u = insert_by(le, x, rest);
        assert((seq![t[0]] + u).drop_first() =~= u);
        assert((seq![t[0]] + u)[0] == t[0]);
        if equivalent(le, x, y) && equivalent(le, t[0], y) {
            assert(le(x, y) && le(y, t[0]));
            assert(le(x, t[0]));
        }
        let et: Seq<T> = if equivalent(le, t[0], y) {
            seq![t[0]]
        } else {
            seq![]
        };
        assert(alike(le, seq![t[0]] + u, y) == et + alike(le, u, y));
        assert(alike(le, t, y) == et + alike(le, rest, y));
        assert(et + (ex + alike(le, rest, y)) =~= ex + (et + alike(le, rest, y)));
    }
}

/// A stable sort keeps elements that are ordered alike in their original
/// order: for every `y`, the elements ordered alike with `y` come out in the
/// order they went in.
pub proof fn lemma_sort_stable<T>(le: spec_fn(T, T) -> bool, s: Seq<T>, y: T)
    requires
        is_total_preorder(le),
    ensures
        alike(le, stable_sort_by(le, s), y) == alike(le, s, y),
    decreases s.len(),
{
    if s.len() > 0 {
        lemma_sort_stable(le, s.drop_first(), y);
        lemma_insert_alike(le, s[0], stable_sort_by(le, s.drop_first()), y);
    }
}

} // verus!
