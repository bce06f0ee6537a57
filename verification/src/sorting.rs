//! Stable sorting, and the code-point order of text.

use vstd::prelude::*;
use crate::text::chars_of;

verus! {

/// Every element comes no later than the ones after it under `le`.
pub open spec fn sorted_by_le<T>(s: Seq<T>, le: spec_fn(T, T) -> bool) -> bool {
    forall|i: int, j: int| 0 <= i < j < s.len() ==> le(s[i], s[j])
}

/// The elements of `s` whose key is `k`, in order.
pub open spec fn with_key<T, K>(s: Seq<T>, key: spec_fn(T) -> K, k: K) -> Seq<T> {
    s.filter(|x: T| key(x) == k)
}

/// `r` is `s` stably sorted by `le`: as long, sorted, and for every key
/// the elements with that key appear in `r` in the order they have in `s`.
pub open spec fn stable_sorted<T, K>(r: Seq<T>, s: Seq<T>, le: spec_fn(T, T) -> bool, key: spec_fn(T) -> K) -> bool {
    &&& r.len() == s.len()
    &&& sorted_by_le(r, le)
    &&& forall|k: K| #[trigger] with_key(r, key, k) == with_key(s, key, k)
}

/// `le` is a total preorder whose ties are exactly the elements with equal keys.
pub open spec fn keyed_order<T, K>(le: spec_fn(T, T) -> bool, key: spec_fn(T) -> K) -> bool {
    &&& forall|a: T, b: T, c: T| #[trigger] le(a, b) && #[trigger] le(b, c) ==> le(a, c)
    &&& forall|a: T, b: T| #[trigger] le(a, b) || le(b, a)
    &&& forall|a: T, b: T| key(a) == key(b) ==> #[trigger] le(a, b)
}

proof fn lemma_with_key_split<T, K>(a: Seq<T>, x: T, b: Seq<T>, key: spec_fn(T) -> K, k: K)
    ensures
        with_key(a + seq![x] + b, key, k) == with_key(a, key, k) + with_key(seq![x], key, k) + with_key(b, key, k),
{
    let p = |y: T| key(y) == k;
    Seq::filter_distributes_over_add(a + seq![x], b, p);
    Seq::filter_distributes_over_add(a, seq![x], p);
}

proof fn lemma_with_key_none<T, K>(s: Seq<T>, key: spec_fn(T) -> K, k: K)
    requires
        forall|i: int| 0 <= i < s.len() ==> key(s[i]) != k,
    ensures
        with_key(s, key, k) == Seq::<T>::empty(),
    decreases s.len(),
{
    reveal(Seq::filter);
    if s.len() > 0 {
        lemma_with_key_none(s.drop_last(), key, k);
    }
}

proof fn lemma_with_key_single<T, K>(x: T, key: spec_fn(T) -> K, k: K)
    ensures
        with_key(seq![x], key, k) == (if key(x) == k { seq![x] } else { Seq::<T>::empty() }),
{
    reveal_with_fuel(Seq::filter, 2);
    assert(seq![x].drop_last() =~= Seq::<T>::empty());
}

/// Inserting `x` after every element that comes no later than it keeps a
/// stable sort.
pub proof fn lemma_insert_stable<T, K>(
    r: Seq<T>,
    s: Seq<T>,
    x: T,
    p: int,
    le: spec_fn(T, T) -> bool,
    key: spec_fn(T) -> K,
)
    requires
        keyed_order(le, key),
        stable_sorted(r, s, le, key),
        0 <= p <= r.len(),
        forall|k: int| 0 <= k < p ==> le(r[k], x),
        p < r.len() ==> !le(r[p], x),
    ensures
        stable_sorted(r.insert(p, x), s.push(x), le, key),
{
    let n = r.insert(p, x);
    assert(n =~= r.take(p) + seq![x] + r.skip(p));
    assert forall|i: int, j: int| 0 <= i < j < n.len() implies le(n[i], n[j]) by {
        if j < p {
            assert(n[i] == r[i] && n[j] == r[j]);
        } else if j == p {
            assert(n[i] == r[i]);
        } else if i < p {
            assert(n[i] == r[i] && n[j] == r[j - 1]);
        } else if i == p {
            assert(n[j] == r[j - 1]);
            assert(le(x, r[p]));
            if p < j - 1 {
                assert(le(r[p], r[j - 1]));
            }
        } else {
            assert(n[i] == r[i - 1] && n[j] == r[j - 1]);
        }
    }
    assert forall|k: K| #[trigger] with_key(n, key, k) == with_key(s.push(x), key, k) by {
        let q = |y: T| key(y) == k;
        lemma_with_key_split(r.take(p), x, r.skip(p), key, k);
        lemma_with_key_single(x, key, k);
        s.lemma_filter_push(x, q);
        Seq::filter_distributes_over_add(r.take(p), r.skip(p), q);
        assert(r =~= r.take(p) + r.skip(p));
        assert(with_key(r, key, k) == with_key(s, key, k));
        if key(x) == k {
            assert forall|m: int| 0 <= m < r.skip(p).len() implies key(r.skip(p)[m]) != k by {
                assert(r.skip(p)[m] == r[p + m]);
                if key(r[p + m]) == k {
                    assert(le(r[p + m], x));
                    if m > 0 {
                        assert(le(r[p], r[p + m]));
                    }
                }
            }
            lemma_with_key_none(r.skip(p), key, k);
            assert(with_key(n, key, k) =~= with_key(r.take(p), key, k) + seq![x]);
            assert(with_key(r, key, k) =~= with_key(r.take(p), key, k));
        } else {
            assert(with_key(n, key, k) =~= with_key(r.take(p), key, k) + with_key(r.skip(p), key, k));
        }
    }
}

/// Code-point order of text: `a` comes strictly before `b`.
pub open spec fn text_lt(a: Seq<char>, b: Seq<char>) -> bool
    decreases a.len(),
{
    if a.len() == 0 {
        b.len() > 0
    } else if b.len() == 0 {
        false
    } else if a[0] != b[0] {
        (a[0] as int) < (b[0] as int)
    } else {
        text_lt(a.drop_first(), b.drop_first())
    }
}

/// `a` comes no later than `b` in code-point order.
pub open spec fn text_le(a: Seq<char>, b: Seq<char>) -> bool {
    a == b || text_lt(a, b)
}

/// Code-point order is a strict total order.
pub proof fn lemma_text_order(a: Seq<char>, b: Seq<char>)
    ensures
        !(text_lt(a, b) && text_lt(b, a)),
        text_lt(a, b) || a == b || text_lt(b, a),
        !text_lt(a, a),
    decreases a.len(),
{
    if a.len() > 0 && b.len() > 0 {
        lemma_text_order(a.drop_first(), b.drop_first());
        if a[0] != b[0] {
            assert((a[0] as int) != (b[0] as int));
        }
        if a[0] == b[0] && a.drop_first() == b.drop_first() {
            assert(a =~= seq![a[0]] + a.drop_first());
            assert(b =~= seq![b[0]] + b.drop_first());
        }
    }
    if a.len() > 0 {
        lemma_text_order(a.drop_first(), a.drop_first());
    }
    if a.len() == 0 && b.len() == 0 {
        assert(a =~= b);
    }
}

/// Code-point order is transitive.
pub proof fn lemma_text_lt_trans(a: Seq<char>, b: Seq<char>, c: Seq<char>)
    requires
        text_lt(a, b),
        text_lt(b, c),
    ensures
        text_lt(a, c),
    decreases a.len(),
{
    if a.len() > 0 && b.len() > 0 && c.len() > 0 {
        if a[0] == b[0] && b[0] == c[0] {
            lemma_text_lt_trans(a.drop_first(), b.drop_first(), c.drop_first());
        }
    }
}

/// Whether `a` comes strictly before `b` in code-point order (the order of
/// `str`'s `Ord`, which compares UTF-8 bytes).
pub fn text_less(a: &str, b: &str) -> (r: bool)
    ensures
        r == text_lt(a@, b@),
{
    let x = chars_of(a);
    let y = chars_of(b);
    let mut i: usize = 0;
    assert(a@.skip(0) =~= a@);
    assert(b@.skip(0) =~= b@);
    while i < x.len() && i < y.len()
        invariant
            x@ == a@,
            y@ == b@,
            i <= x@.len(),
            i <= y@.len(),
            x@.take(i as int) == y@.take(i as int),
            text_lt(a@, b@) == text_lt(a@.skip(i as int), b@.skip(i as int)),
        decreases x@.len() - i,
    {
        if x[i] != y[i] {
            proof {
                assert(a@.skip(i as int)[0] == x@[i as int]);
                assert(b@.skip(i as int)[0] == y@[i as int]);
            }
            return x[i] < y[i];
        }
        proof {
            assert(a@.skip(i as int).drop_first() =~= a@.skip(i + 1));
            assert(b@.skip(i as int).drop_first() =~= b@.skip(i + 1));
            assert(x@.take(i + 1) =~= x@.take(i as int).push(x@[i as int]));
            assert(y@.take(i + 1) =~= y@.take(i as int).push(y@[i as int]));
        }
        i = i + 1;
    }
    i == x.len() && i < y.len()
}

} // verus!
