//! First-match search and filtering over sequences.

use vstd::prelude::*;

verus! {

/// `i` is the first index of `s` whose element satisfies `p`.
pub open spec fn is_first<T>(s: Seq<T>, p: spec_fn(T) -> bool, i: int) -> bool {
    0 <= i < s.len() && p(s[i]) && forall|j: int| 0 <= j < i ==> !p(#[trigger] s[j])
}

/// The first index whose element satisfies `p`.
pub open spec fn first_where<T>(s: Seq<T>, p: spec_fn(T) -> bool) -> Option<int> {
    if exists|i: int| is_first(s, p, i) {
        Some(choose|i: int| is_first(s, p, i))
    } else {
        None
    }
}

pub proof fn lemma_first_where_found<T>(s: Seq<T>, p: spec_fn(T) -> bool, i: int)
    requires
        is_first(s, p, i),
    ensures
        first_where(s, p) == Some(i),
{
    let k = choose|k: int| is_first(s, p, k);
    assert(is_first(s, p, k));
    if k < i {
        assert(!p(s[k]));
    } else if k > i {
        assert(!p(s[i]));
    }
}

/// What `first_where` found is the first match.
pub proof fn lemma_first_where_some<T>(s: Seq<T>, p: spec_fn(T) -> bool)
    requires
        first_where(s, p) is Some,
    ensures
        is_first(s, p, first_where(s, p)->0),
{
}

pub proof fn lemma_first_where_none<T>(s: Seq<T>, p: spec_fn(T) -> bool)
    requires
        forall|j: int| 0 <= j < s.len() ==> !p(#[trigger] s[j]),
    ensures
        first_where(s, p) is None,
{
    if exists|i: int| is_first(s, p, i) {
        let k = choose|k: int| is_first(s, p, k);
        assert(!p(s[k]));
    }
}

/// Filtering one more element of a prefix.
pub proof fn lemma_filter_take_step<T>(v: Seq<T>, i: int, f: spec_fn(T) -> bool)
    requires
        0 <= i < v.len(),
    ensures
        v.take(i + 1).filter(f) == (if f(v[i]) { v.take(i).filter(f).push(v[i]) } else { v.take(i).filter(f) }),
{
    reveal_with_fuel(Seq::filter, 1);
    assert(v.take(i + 1).drop_last() =~= v.take(i));
}

pub proof fn lemma_filter_empty<T>(v: Seq<T>, f: spec_fn(T) -> bool)
    ensures
        v.take(0).filter(f) == Seq::<T>::empty(),
{
    reveal_with_fuel(Seq::filter, 1);
    assert(v.take(0) =~= Seq::<T>::empty());
}

/// Some index satisfies `p`, so a first one exists.
pub proof fn lemma_first_exists<T>(s: Seq<T>, p: spec_fn(T) -> bool, j: int)
    requires
        0 <= j < s.len(),
        p(s[j]),
    ensures
        exists|k: int| is_first(s, p, k),
    decreases j,
{
    if forall|i: int| 0 <= i < j ==> !p(#[trigger] s[i]) {
        assert(is_first(s, p, j));
    } else {
        let i = choose|i: int| 0 <= i < j && p(#[trigger] s[i]);
        lemma_first_exists(s, p, i);
    }
}

/// Sequences that agree on `p` at every index have the same first match.
pub proof fn lemma_first_where_same<T, U>(a: Seq<T>, p: spec_fn(T) -> bool, b: Seq<U>, q: spec_fn(U) -> bool)
    requires
        a.len() == b.len(),
        forall|j: int| 0 <= j < a.len() ==> p(#[trigger] a[j]) == q(b[j]),
    ensures
        first_where(a, p) == first_where(b, q),
{
    match first_where(a, p) {
        Some(i) => {
            let k = choose|k: int| is_first(a, p, k);
            assert(is_first(a, p, k));
            assert forall|j: int| 0 <= j < k implies !q(#[trigger] b[j]) by {
                assert(!p(a[j]));
            }
            assert(q(b[k]));
            lemma_first_where_found(b, q, k);
        },
        None => {
            if exists|k: int| is_first(b, q, k) {
                let k = choose|k: int| is_first(b, q, k);
                assert(p(a[k]));
                lemma_first_exists(a, p, k);
            }
        },
    }
}

/// No match: no element satisfies `p`.
pub proof fn lemma_first_where_none_all<T>(s: Seq<T>, p: spec_fn(T) -> bool)
    requires
        first_where(s, p) is None,
    ensures
        forall|j: int| 0 <= j < s.len() ==> !p(#[trigger] s[j]),
{
    assert forall|j: int| 0 <= j < s.len() implies !p(#[trigger] s[j]) by {
        if p(s[j]) {
            lemma_first_exists(s, p, j);
        }
    }
}

/// No two elements of `s` share a key.
pub open spec fn unique_by<T, K>(s: Seq<T>, key: spec_fn(T) -> K) -> bool {
    forall|i: int, j: int| 0 <= i < j < s.len() ==> key(#[trigger] s[i]) != key(#[trigger] s[j])
}

/// `x` in place of the first element matching `p`, or added at the end.
pub open spec fn put_where<T>(s: Seq<T>, p: spec_fn(T) -> bool, x: T) -> Seq<T> {
    match first_where(s, p) {
        Some(i) => s.update(i, x),
        None => s.push(x),
    }
}

/// `s` without its first element matching `p`.
pub open spec fn remove_where<T>(s: Seq<T>, p: spec_fn(T) -> bool) -> Seq<T> {
    match first_where(s, p) {
        Some(i) => s.remove(i),
        None => s,
    }
}

/// Putting an element under its own key keeps keys unique, and the element
/// is then the first match.
pub proof fn lemma_put_where<T, K>(s: Seq<T>, key: spec_fn(T) -> K, p: spec_fn(T) -> bool, k: K, x: T)
    requires
        unique_by(s, key),
        forall|y: T| #[trigger] p(y) == (key(y) == k),
        key(x) == k,
    ensures
        unique_by(put_where(s, p, x), key),
        first_where(put_where(s, p, x), p) == Some(
            match first_where(s, p) {
                Some(i) => i,
                None => s.len() as int,
            },
        ),
        put_where(s, p, x).len() == (if first_where(s, p) is Some { s.len() } else { s.len() + 1 }),
{
    let r = put_where(s, p, x);
    match first_where(s, p) {
        Some(i) => {
            lemma_first_where_some(s, p);
            assert forall|a: int, b: int| 0 <= a < b < r.len() implies key(#[trigger] r[a]) != key(#[trigger] r[b]) by {
                if a == i {
                    assert(key(s[b]) != key(s[i]));
                } else if b == i {
                    assert(key(s[a]) != key(s[i]));
                } else {
                    assert(key(s[a]) != key(s[b]));
                }
            }
            assert forall|j: int| 0 <= j < i implies !p(#[trigger] r[j]) by {
                assert(!p(s[j]));
            }
            lemma_first_where_found(r, p, i);
        },
        None => {
            lemma_first_where_none_all(s, p);
            assert forall|a: int, b: int| 0 <= a < b < r.len() implies key(#[trigger] r[a]) != key(#[trigger] r[b]) by {
                if b == s.len() {
                    assert(!p(s[a]));
                } else {
                    assert(key(s[a]) != key(s[b]));
                }
            }
            assert forall|j: int| 0 <= j < s.len() implies !p(#[trigger] r[j]) by {
                assert(!p(s[j]));
            }
            lemma_first_where_found(r, p, s.len() as int);
        },
    }
}

/// Removing an element keeps keys unique, and with unique keys nothing left
/// matches `p`.
pub proof fn lemma_remove_where<T, K>(s: Seq<T>, key: spec_fn(T) -> K, p: spec_fn(T) -> bool, k: K)
    requires
        unique_by(s, key),
        forall|y: T| #[trigger] p(y) == (key(y) == k),
    ensures
        unique_by(remove_where(s, p), key),
        first_where(remove_where(s, p), p) is None,
{
    let r = remove_where(s, p);
    match first_where(s, p) {
        Some(i) => {
            lemma_first_where_some(s, p);
            assert forall|a: int, b: int| 0 <= a < b < r.len() implies key(#[trigger] r[a]) != key(#[trigger] r[b]) by {
                let sa = if a < i { a } else { a + 1 };
                let sb = if b < i { b } else { b + 1 };
                assert(r[a] == s[sa] && r[b] == s[sb]);
                assert(key(s[sa]) != key(s[sb]));
            }
            assert forall|j: int| 0 <= j < r.len() implies !p(#[trigger] r[j]) by {
                let sj = if j < i { j } else { j + 1 };
                assert(r[j] == s[sj]);
                if j < i {
                    assert(!p(s[j]));
                } else {
                    assert(key(s[i]) != key(s[sj]));
                }
            }
            lemma_first_where_none(r, p);
        },
        None => {},
    }
}

/// The first element matching `p`.
pub open spec fn find_where<T>(s: Seq<T>, p: spec_fn(T) -> bool) -> Option<T> {
    match first_where(s, p) {
        Some(i) => Some(s[i]),
        None => None,
    }
}

/// A second put under the same key replaces the first.
pub proof fn lemma_put_where_twice<T>(s: Seq<T>, p: spec_fn(T) -> bool, x: T, y: T)
    requires
        p(x),
    ensures
        put_where(put_where(s, p, x), p, y) == put_where(s, p, y),
{
    let r = put_where(s, p, x);
    match first_where(s, p) {
        Some(u) => {
            lemma_first_where_some(s, p);
            assert forall|j: int| 0 <= j < u implies !p(#[trigger] r[j]) by {
                assert(!p(s[j]));
            }
            lemma_first_where_found(r, p, u);
            assert(r.update(u, y) =~= s.update(u, y));
        },
        None => {
            lemma_first_where_none_all(s, p);
            assert forall|j: int| 0 <= j < s.len() implies !p(#[trigger] r[j]) by {
                assert(!p(s[j]));
            }
            lemma_first_where_found(r, p, s.len() as int);
            assert(r.update(s.len() as int, y) =~= s.push(y));
        },
    }
}

/// What was put is what its key then finds.
pub proof fn lemma_find_put_where<T>(s: Seq<T>, p: spec_fn(T) -> bool, x: T)
    requires
        p(x),
    ensures
        find_where(put_where(s, p, x), p) == Some(x),
{
    let r = put_where(s, p, x);
    match first_where(s, p) {
        Some(u) => {
            lemma_first_where_some(s, p);
            assert forall|j: int| 0 <= j < u implies !p(#[trigger] r[j]) by {
                assert(!p(s[j]));
            }
            lemma_first_where_found(r, p, u);
        },
        None => {
            lemma_first_where_none_all(s, p);
            assert forall|j: int| 0 <= j < s.len() implies !p(#[trigger] r[j]) by {
                assert(!p(s[j]));
            }
            lemma_first_where_found(r, p, s.len() as int);
        },
    }
}

/// Putting an element under one key leaves what another key finds.
pub proof fn lemma_put_where_other<T, K>(
    s: Seq<T>,
    key: spec_fn(T) -> K,
    p: spec_fn(T) -> bool,
    k: K,
    x: T,
    q: spec_fn(T) -> bool,
    k2: K,
)
    requires
        forall|y: T| #[trigger] p(y) == (key(y) == k),
        forall|y: T| #[trigger] q(y) == (key(y) == k2),
        key(x) == k,
        k != k2,
    ensures
        find_where(put_where(s, p, x), q) == find_where(s, q),
{
    let r = put_where(s, p, x);
    assert(!q(x));
    match first_where(s, p) {
        Some(u) => {
            lemma_first_where_some(s, p);
            assert forall|j: int| 0 <= j < s.len() implies q(#[trigger] s[j]) == q(r[j]) by {
                if j == u {
                    assert(!q(s[u]));
                }
            }
            lemma_first_where_same(s, q, r, q);
        },
        None => {
            match first_where(s, q) {
                Some(i) => {
                    lemma_first_where_some(s, q);
                    assert forall|j: int| 0 <= j < i implies !q(#[trigger] r[j]) by {
                        assert(!q(s[j]));
                    }
                    lemma_first_where_found(r, q, i);
                },
                None => {
                    lemma_first_where_none_all(s, q);
                    assert forall|j: int| 0 <= j < r.len() implies !q(#[trigger] r[j]) by {
                        if j < s.len() {
                            assert(!q(s[j]));
                        }
                    }
                    lemma_first_where_none(r, q);
                },
            }
        },
    }
}

/// Removing the element of one key leaves what another key finds.
pub proof fn lemma_remove_where_other<T, K>(
    s: Seq<T>,
    key: spec_fn(T) -> K,
    p: spec_fn(T) -> bool,
    k: K,
    q: spec_fn(T) -> bool,
    k2: K,
)
    requires
        forall|y: T| #[trigger] p(y) == (key(y) == k),
        forall|y: T| #[trigger] q(y) == (key(y) == k2),
        k != k2,
    ensures
        find_where(remove_where(s, p), q) == find_where(s, q),
{
    let r = remove_where(s, p);
    match first_where(s, p) {
        Some(u) => {
            lemma_first_where_some(s, p);
            assert(!q(s[u]));
            match first_where(s, q) {
                Some(i) => {
                    lemma_first_where_some(s, q);
                    let ri = if i < u { i } else { i - 1 };
                    assert(r[ri] == s[i]);
                    assert forall|j: int| 0 <= j < ri implies !q(#[trigger] r[j]) by {
                        let sj = if j < u { j } else { j + 1 };
                        assert(r[j] == s[sj]);
                        assert(!q(s[sj]));
                    }
                    lemma_first_where_found(r, q, ri);
                },
                None => {
                    lemma_first_where_none_all(s, q);
                    assert forall|j: int| 0 <= j < r.len() implies !q(#[trigger] r[j]) by {
                        let sj = if j < u { j } else { j + 1 };
                        assert(r[j] == s[sj]);
                        assert(!q(s[sj]));
                    }
                    lemma_first_where_none(r, q);
                },
            }
        },
        None => {},
    }
}

/// Filtering keeps keys unique.
pub proof fn lemma_filter_unique<T, K>(s: Seq<T>, key: spec_fn(T) -> K, p: spec_fn(T) -> bool)
    requires
        unique_by(s, key),
    ensures
        unique_by(s.filter(p), key),
    decreases s.len(),
{
    reveal_with_fuel(Seq::filter, 1);
    if s.len() > 0 {
        let d = s.drop_last();
        assert forall|a: int, b: int| 0 <= a < b < d.len() implies key(#[trigger] d[a]) != key(#[trigger] d[b]) by {
            assert(key(s[a]) != key(s[b]));
        }
        lemma_filter_unique(d, key, p);
        let r = d.filter(p);
        if p(s.last()) {
            let f = r.push(s.last());
            assert(s.filter(p) == f);
            assert forall|a: int, b: int| 0 <= a < b < f.len() implies key(#[trigger] f[a]) != key(#[trigger] f[b]) by {
                if b == r.len() {
                    assert(r.contains(r[a]));
                    d.lemma_filter_contains_rev(p, r[a]);
                    let j = choose|j: int| 0 <= j < d.len() && d[j] == r[a];
                    assert(key(s[j]) != key(s[s.len() - 1]));
                } else {
                    assert(key(r[a]) != key(r[b]));
                }
            }
        }
    }
}

/// `x` placed before the first element of `s` that it comes before.
pub open spec fn insert_by<T>(s: Seq<T>, x: T, before: spec_fn(T, T) -> bool) -> Seq<T>
    decreases s.len(),
{
    if s.len() == 0 {
        seq![x]
    } else if before(x, s[0]) {
        seq![x] + s
    } else {
        seq![s[0]] + insert_by(s.drop_first(), x, before)
    }
}

/// The stable sort of `s` by `before`, one element at a time.
pub open spec fn sort_by_insertion<T>(s: Seq<T>, before: spec_fn(T, T) -> bool) -> Seq<T>
    decreases s.len(),
{
    if s.len() == 0 {
        s
    } else {
        insert_by(sort_by_insertion(s.drop_last(), before), s.last(), before)
    }
}

/// Where `insert_by` puts `x`.
pub open spec fn insert_by_pos<T>(s: Seq<T>, x: T, before: spec_fn(T, T) -> bool) -> int
    decreases s.len(),
{
    if s.len() == 0 || before(x, s[0]) {
        0
    } else {
        1 + insert_by_pos(s.drop_first(), x, before)
    }
}

pub proof fn lemma_insert_by_pos<T>(s: Seq<T>, x: T, before: spec_fn(T, T) -> bool)
    ensures
        0 <= insert_by_pos(s, x, before) <= s.len(),
        forall|k: int| 0 <= k < insert_by_pos(s, x, before) ==> !before(x, #[trigger] s[k]),
        insert_by_pos(s, x, before) < s.len() ==> before(x, s[insert_by_pos(s, x, before)]),
        insert_by(s, x, before) == s.insert(insert_by_pos(s, x, before), x),
    decreases s.len(),
{
    if s.len() == 0 || before(x, s[0]) {
        assert(insert_by(s, x, before) =~= s.insert(0, x));
    } else {
        let t = s.drop_first();
        lemma_insert_by_pos(t, x, before);
        let p = insert_by_pos(t, x, before);
        assert forall|k: int| 0 <= k < p + 1 implies !before(x, #[trigger] s[k]) by {
            if k > 0 {
                assert(s[k] == t[k - 1]);
            }
        }
        if p < t.len() {
            assert(s[p + 1] == t[p]);
        }
        assert(insert_by(s, x, before) =~= s.insert(p + 1, x));
    }
}

/// The first position whose element `x` comes before is where `insert_by`
/// puts `x`.
pub proof fn lemma_insert_by_at<T>(s: Seq<T>, x: T, before: spec_fn(T, T) -> bool, j: int)
    requires
        0 <= j <= s.len(),
        forall|k: int| 0 <= k < j ==> !before(x, #[trigger] s[k]),
        j == s.len() || before(x, s[j]),
    ensures
        insert_by(s, x, before) == s.insert(j, x),
{
    lemma_insert_by_pos(s, x, before);
    let p = insert_by_pos(s, x, before);
    if p < j {
        assert(!before(x, s[p]));
    } else if p > j {
        assert(!before(x, s[j]));
    }
}

/// Sorting by a strict order that is transitive and asymmetric leaves no
/// element before one it should follow, and keeps every element.
pub proof fn lemma_sort_by_insertion<T>(s: Seq<T>, before: spec_fn(T, T) -> bool)
    requires
        forall|a: T, b: T| #[trigger] before(a, b) ==> !before(b, a),
        forall|a: T, b: T, c: T| #[trigger] before(a, b) && #[trigger] before(b, c) ==> before(a, c),
    ensures
        forall|i: int, j: int|
            0 <= i < j < sort_by_insertion(s, before).len() ==> !before(
                #[trigger] sort_by_insertion(s, before)[j],
                #[trigger] sort_by_insertion(s, before)[i],
            ),
        sort_by_insertion(s, before).to_multiset() == s.to_multiset(),
    decreases s.len(),
{
    if s.len() > 0 {
        lemma_sort_by_insertion(s.drop_last(), before);
        let t = sort_by_insertion(s.drop_last(), before);
        let x = s.last();
        lemma_insert_by_pos(t, x, before);
        let p = insert_by_pos(t, x, before);
        let r = insert_by(t, x, before);
        assert forall|a: int, b: int| 0 <= a < b < r.len() implies !before(#[trigger] r[b], #[trigger] r[a]) by {
            if a < p && b < p {
                assert(r[a] == t[a] && r[b] == t[b]);
            } else if a < p && b == p {
                assert(r[a] == t[a] && r[b] == x);
            } else if a < p {
                assert(r[a] == t[a] && r[b] == t[b - 1]);
            } else if a == p {
                assert(r[a] == x && r[b] == t[b - 1]);
                if b - 1 > p {
                    assert(!before(t[b - 1], t[p]));
                }
            } else {
                assert(r[a] == t[a - 1] && r[b] == t[b - 1]);
            }
        }
        broadcast use vstd::seq_lib::group_to_multiset_ensures;
        assert(r.remove(p) =~= t);
        assert(r[p] == x);
        assert(r.to_multiset().count(x) > 0);
        assert(r.to_multiset() =~= t.to_multiset().insert(x));
        assert(s.drop_last().push(x) =~= s);
    }
}

} // verus!
