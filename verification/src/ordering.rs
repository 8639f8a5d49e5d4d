//! Orders on strings and on lists of strings, and a stable sort by such keys.
use vstd::prelude::*;
use crate::text::{chars_eq, chars_of, sv, vv};

verus! {

/// Lexicographic order of strings by code point, which is the order of
/// `String`'s `Ord` (UTF-8 bytes compare as their code points do).
pub open spec fn lex_le(a: Seq<char>, b: Seq<char>) -> bool
    decreases a.len(),
{
    if a.len() == 0 {
        true
    } else if b.len() == 0 {
        false
    } else if a[0] != b[0] {
        (a[0] as int) < (b[0] as int)
    } else {
        lex_le(a.drop_first(), b.drop_first())
    }
}

pub proof fn lemma_lex_total(a: Seq<char>, b: Seq<char>)
    ensures
        lex_le(a, b) || lex_le(b, a),
    decreases a.len(),
{
    if a.len() > 0 && b.len() > 0 {
        if a[0] == b[0] {
            lemma_lex_total(a.drop_first(), b.drop_first());
        } else {
            assert(a[0] as int != b[0] as int);
        }
    }
}

pub proof fn lemma_lex_trans(a: Seq<char>, b: Seq<char>, c: Seq<char>)
    requires
        lex_le(a, b),
        lex_le(b, c),
    ensures
        lex_le(a, c),
    decreases a.len(),
{
    if a.len() > 0 && a[0] == b[0] && b[0] == c[0] {
        lemma_lex_trans(a.drop_first(), b.drop_first(), c.drop_first());
    }
}

pub fn lex_le_exec(a: &Vec<char>, b: &Vec<char>) -> (r: bool)
    ensures
        r == lex_le(a@, b@),
{
    let mut i: usize = 0;
    assert(a@.subrange(0, a.len() as int) == a@);
    assert(b@.subrange(0, b.len() as int) == b@);
    while i < a.len() && i < b.len() && a[i] == b[i]
        invariant
            i <= a.len(),
            i <= b.len(),
            lex_le(a@, b@) == lex_le(
                a@.subrange(i as int, a.len() as int),
                b@.subrange(i as int, b.len() as int),
            ),
        decreases a.len() - i,
    {
        assert(a@.subrange(i as int, a.len() as int).drop_first() == a@.subrange(
            i + 1,
            a.len() as int,
        ));
        assert(b@.subrange(i as int, b.len() as int).drop_first() == b@.subrange(
            i + 1,
            b.len() as int,
        ));
        i = i + 1;
    }
    if i == a.len() {
        true
    } else if i == b.len() {
        false
    } else {
        a[i] < b[i]
    }
}

pub proof fn lemma_lex_antisym(a: Seq<char>, b: Seq<char>)
    requires
        lex_le(a, b),
        lex_le(b, a),
    ensures
        a == b,
    decreases a.len(),
{
    if a.len() > 0 && b.len() > 0 {
        if a[0] == b[0] {
            lemma_lex_antisym(a.drop_first(), b.drop_first());
            assert(a == seq![a[0]] + a.drop_first());
            assert(b == seq![b[0]] + b.drop_first());
        }
    }
}

/// Lexicographic order of lists of strings, each part compared by `lex_le`.
pub open spec fn keys_le(a: Seq<Seq<char>>, b: Seq<Seq<char>>) -> bool
    decreases a.len(),
{
    if a.len() == 0 {
        true
    } else if b.len() == 0 {
        false
    } else if a[0] != b[0] {
        lex_le(a[0], b[0])
    } else {
        keys_le(a.drop_first(), b.drop_first())
    }
}

pub proof fn lemma_keys_total(a: Seq<Seq<char>>, b: Seq<Seq<char>>)
    ensures
        keys_le(a, b) || keys_le(b, a),
    decreases a.len(),
{
    if a.len() > 0 && b.len() > 0 {
        if a[0] == b[0] {
            lemma_keys_total(a.drop_first(), b.drop_first());
        } else {
            lemma_lex_total(a[0], b[0]);
        }
    }
}

pub proof fn lemma_keys_trans(a: Seq<Seq<char>>, b: Seq<Seq<char>>, c: Seq<Seq<char>>)
    requires
        keys_le(a, b),
        keys_le(b, c),
    ensures
        keys_le(a, c),
    decreases a.len(),
{
    if a.len() > 0 {
        if a[0] == b[0] && b[0] == c[0] {
            lemma_keys_trans(a.drop_first(), b.drop_first(), c.drop_first());
        } else if a[0] != b[0] && b[0] != c[0] {
            lemma_lex_trans(a[0], b[0], c[0]);
            if a[0] == c[0] {
                lemma_lex_antisym(a[0], b[0]);
            }
        }
    }
}

/// The view of a key made of strings.
pub open spec fn key_view(k: Vec<Vec<char>>) -> Seq<Seq<char>> {
    vv(k@)
}

pub fn keys_le_exec(a: &Vec<Vec<char>>, b: &Vec<Vec<char>>) -> (r: bool)
    ensures
        r == keys_le(key_view(*a), key_view(*b)),
{
    let mut i: usize = 0;
    assert(vv(a@).subrange(0, a.len() as int) == vv(a@));
    assert(vv(b@).subrange(0, b.len() as int) == vv(b@));
    while i < a.len() && i < b.len() && chars_eq(&a[i], &b[i])
        invariant
            i <= a.len(),
            i <= b.len(),
            keys_le(vv(a@), vv(b@)) == keys_le(
                vv(a@).subrange(i as int, a.len() as int),
                vv(b@).subrange(i as int, b.len() as int),
            ),
        decreases a.len() - i,
    {
        assert(vv(a@).subrange(i as int, a.len() as int).drop_first() == vv(a@).subrange(
            i + 1,
            a.len() as int,
        ));
        assert(vv(b@).subrange(i as int, b.len() as int).drop_first() == vv(b@).subrange(
            i + 1,
            b.len() as int,
        ));
        i = i + 1;
    }
    if i == a.len() {
        true
    } else if i == b.len() {
        false
    } else {
        lex_le_exec(&a[i], &b[i])
    }
}

/// `s` is ordered by the keys that `kf` gives its items.
pub open spec fn sorted_by_keys<T>(s: Seq<T>, kf: spec_fn(T) -> Seq<Seq<char>>) -> bool {
    forall|i: int, j: int| 0 <= i < j < s.len() ==> keys_le(#[trigger] kf(s[i]), #[trigger] kf(s[j]))
}

/// `r` lists items of `s` through the index map `p`, each index at most
/// once, and items whose keys are equal come in their order in `s`.
pub open spec fn stable_by_keys<T>(s: Seq<T>, r: Seq<T>, p: Seq<int>, kf: spec_fn(T) -> Seq<Seq<char>>) -> bool {
    &&& p.len() == r.len()
    &&& forall|k: int| 0 <= k < p.len() ==> 0 <= #[trigger] p[k] < s.len() && r[k] == s[p[k]]
    &&& forall|a: int, b: int| 0 <= a < b < p.len() ==> #[trigger] p[a] != #[trigger] p[b]
    &&& forall|a: int, b: int|
        0 <= a < b < p.len() && keys_le(kf(r[b]), kf(r[a])) ==> #[trigger] p[a] < #[trigger] p[b]
}

/// Sorts `items` by the parallel `keys`, stably (an item is placed after
/// every earlier one whose key is not greater).
pub(crate) fn sort_by_keys<T>(
    items: Vec<T>,
    keys: Vec<Vec<Vec<char>>>,
    Ghost(kf): Ghost<spec_fn(T) -> Seq<Seq<char>>>,
) -> (r: Vec<T>)
    requires
        items.len() == keys.len(),
        forall|i: int| 0 <= i < items.len() ==> key_view(#[trigger] keys@[i]) == kf(items@[i]),
    ensures
        r@.to_multiset() == items@.to_multiset(),
        sorted_by_keys(r@, kf),
        exists|p: Seq<int>| p.len() == items.len() && stable_by_keys(items@, r@, p, kf),
{
    broadcast use vstd::multiset::group_multiset_axioms;
    broadcast use vstd::seq_lib::group_to_multiset_ensures;

    let ghost orig = items@;
    let mut rest = items;
    let mut rest_keys = keys;
    let mut r: Vec<T> = Vec::new();
    let mut rk: Vec<Vec<Vec<char>>> = Vec::new();
    let ghost mut p: Seq<int> = Seq::empty();
    assert(r@.to_multiset() =~= vstd::multiset::Multiset::empty());
    assert(orig.subrange(0, orig.len() as int) == orig);
    while rest.len() > 0
        invariant
            r@.to_multiset().add(rest@.to_multiset()) == orig.to_multiset(),
            rest.len() == rest_keys.len(),
            rest.len() <= orig.len(),
            rest@ == orig.subrange(orig.len() - rest.len(), orig.len() as int),
            forall|i: int| 0 <= i < rest.len() ==> key_view(#[trigger] rest_keys@[i]) == kf(rest@[i]),
            rk.len() == r.len(),
            forall|i: int| 0 <= i < r.len() ==> key_view(#[trigger] rk@[i]) == kf(r@[i]),
            sorted_by_keys(r@, kf),
            p.len() == r.len(),
            r.len() == orig.len() - rest.len(),
            stable_by_keys(orig, r@, p, kf),
            forall|k: int| 0 <= k < p.len() ==> #[trigger] p[k] < orig.len() - rest.len(),
        decreases rest.len(),
    {
        let ghost rest0 = rest@;
        let ghost rk_rest0 = rest_keys@;
        let ghost r0 = r@;
        let ghost p0 = p;
        let ghost t = orig.len() - rest0.len();
        let e = rest.remove(0);
        let k = rest_keys.remove(0);
        assert(e == orig[t]) by {
            assert(rest0[0] == orig[t]);
        }
        assert(rest@ == orig.subrange(orig.len() - rest.len(), orig.len() as int));
        assert(key_view(k) == kf(e)) by {
            assert(rk_rest0[0] == k);
        }
        assert forall|i: int| 0 <= i < rest.len() implies key_view(#[trigger] rest_keys@[i]) == kf(rest@[i]) by {
            assert(rest_keys@[i] == rk_rest0[i + 1]);
            assert(rest@[i] == rest0[i + 1]);
        }
        let mut j: usize = 0;
        while j < r.len() && keys_le_exec(&rk[j], &k)
            invariant
                j <= r.len(),
                rk.len() == r.len(),
                forall|i: int| 0 <= i < r.len() ==> key_view(#[trigger] rk@[i]) == kf(r@[i]),
                forall|i: int| 0 <= i < j ==> keys_le(#[trigger] kf(r@[i]), kf(e)),
                key_view(k) == kf(e),
            decreases r.len() - j,
        {
            j = j + 1;
        }
        proof {
            if j < r.len() {
                assert(!keys_le(kf(r@[j as int]), kf(e)));
                lemma_keys_total(kf(r@[j as int]), kf(e));
                assert forall|i: int| j <= i < r.len() implies keys_le(kf(e), #[trigger] kf(r@[i]))
                    && !keys_le(kf(r@[i]), kf(e)) by {
                    if i > j {
                        lemma_keys_trans(kf(e), kf(r@[j as int]), kf(r@[i]));
                        if keys_le(kf(r@[i]), kf(e)) {
                            lemma_keys_trans(kf(r@[j as int]), kf(r@[i]), kf(e));
                        }
                    }
                }
            }
        }
        let ghost rk0 = rk@;
        r.insert(j, e);
        rk.insert(j, k);
        proof {
            p = p0.insert(j as int, t);
            let n = r@;
            assert(n == r0.insert(j as int, e));
            assert forall|a: int, b: int| 0 <= a < b < n.len() implies keys_le(
                #[trigger] kf(n[a]),
                #[trigger] kf(n[b]),
            ) by {
                if b < j {
                } else if b == j {
                } else if a < j {
                    lemma_keys_trans(kf(n[a]), kf(e), kf(n[b]));
                } else if a == j {
                } else {
                }
            }
            assert forall|i: int| 0 <= i < r.len() implies key_view(#[trigger] rk@[i]) == kf(r@[i]) by {
                if i < j {
                } else if i == j {
                } else {
                    assert(rk@[i] == rk0[i - 1]);
                }
            }
            assert forall|q: int| 0 <= q < p.len() implies 0 <= #[trigger] p[q] < orig.len() && n[q] == orig[p[q]]
                && p[q] < orig.len() - rest.len() by {
                if q < j {
                    assert(p[q] == p0[q]);
                } else if q > j {
                    assert(p[q] == p0[q - 1]);
                }
            }
            assert forall|a: int, b: int| 0 <= a < b < p.len() implies #[trigger] p[a] != #[trigger] p[b] by {
                if a != j && b != j {
                    let a0 = if a < j { a } else { a - 1 };
                    let b0 = if b < j { b } else { b - 1 };
                    assert(p[a] == p0[a0]);
                    assert(p[b] == p0[b0]);
                } else if a == j {
                    assert(p[b] == p0[b - 1]);
                } else {
                    assert(a < j);
                    assert(p[a] == p0[a]);
                }
            }
            assert forall|a: int, b: int|
                0 <= a < b < p.len() && keys_le(kf(n[b]), kf(n[a])) implies #[trigger] p[a] < #[trigger] p[b] by {
                if a != j && b != j {
                    let a0 = if a < j { a } else { a - 1 };
                    let b0 = if b < j { b } else { b - 1 };
                    assert(p[a] == p0[a0]);
                    assert(p[b] == p0[b0]);
                    assert(n[a] == r0[a0]);
                    assert(n[b] == r0[b0]);
                } else if a == j {
                    assert(n[b] == r0[b - 1]);
                    assert(!keys_le(kf(r0[b - 1]), kf(e)));
                } else {
                    assert(p[a] == p0[a]);
                }
            }
            vstd::seq_lib::to_multiset_insert(r0, j as int, e);
            vstd::seq_lib::to_multiset_remove(rest0, 0);
            assert(rest0.remove(0) == rest@);
            vstd::seq_lib::to_multiset_contains(rest0, rest0[0]);
            assert(rest0.contains(rest0[0]));
        }
    }
    r
}


/// Sorts `items` by the parallel `keys` and keeps the first `limit`. The
/// result is sorted, holds no item more often than `items` does, and leaves
/// out nothing that sorts before an item it keeps.
pub(crate) fn take_smallest_by_keys<T>(
    items: Vec<T>,
    keys: Vec<Vec<Vec<char>>>,
    Ghost(kf): Ghost<spec_fn(T) -> Seq<Seq<char>>>,
    limit: usize,
) -> (r: Vec<T>)
    requires
        items.len() == keys.len(),
        forall|i: int| 0 <= i < items.len() ==> key_view(#[trigger] keys@[i]) == kf(items@[i]),
    ensures
        sorted_by_keys(r@, kf),
        r.len() == (if limit < items.len() {
            limit as int
        } else {
            items.len() as int
        }),
        r@.to_multiset().subset_of(items@.to_multiset()),
        forall|e: T, i: int|
            #![trigger items@.to_multiset().sub(r@.to_multiset()).count(e), r@[i]]
            items@.to_multiset().sub(r@.to_multiset()).count(e) > 0 && 0 <= i < r.len() ==> keys_le(
                kf(r@[i]),
                kf(e),
            ),
        exists|full: Seq<T>, p: Seq<int>|
            full.len() == items.len() && p.len() == items.len() && stable_by_keys(items@, full, p, kf)
                && sorted_by_keys(full, kf) && r@ == full.subrange(0, r.len() as int),
{
    broadcast use vstd::multiset::group_multiset_axioms;

    let ghost all = items@;
    let mut sorted = sort_by_keys(items, keys, Ghost(kf));
    let ghost p = sorted@;
    proof {
        vstd::seq_lib::to_multiset_len(p);
        vstd::seq_lib::to_multiset_len(all);
    }
    sorted.truncate(limit);
    proof {
        let n = sorted.len() as int;
        let skip = p.subrange(n, p.len() as int);
        assert(p == sorted@ + skip);
        vstd::seq_lib::lemma_multiset_commutative(sorted@, skip);
        assert(all.to_multiset() == sorted@.to_multiset().add(skip.to_multiset()));
        assert(all.to_multiset().sub(sorted@.to_multiset()) =~= skip.to_multiset());
        assert forall|e: T, i: int|
            #![trigger all.to_multiset().sub(sorted@.to_multiset()).count(e), sorted@[i]]
            all.to_multiset().sub(sorted@.to_multiset()).count(e) > 0 && 0 <= i < n implies keys_le(
            kf(sorted@[i]),
            kf(e),
        ) by {
            vstd::seq_lib::to_multiset_contains(skip, e);
            let j = choose|j: int| 0 <= j < skip.len() && skip[j] == e;
            assert(p[n + j] == e);
            assert(p[i] == sorted@[i]);
            assert(keys_le(kf(p[i]), kf(p[n + j])));
        }
        let perm = choose|perm: Seq<int>| perm.len() == all.len() && stable_by_keys(all, p, perm, kf);
        assert(sorted@ == p.subrange(0, n));
        assert(p.len() == all.len() && perm.len() == all.len() && stable_by_keys(all, p, perm, kf)
            && sorted_by_keys(p, kf) && sorted@ == p.subrange(0, sorted@.len() as int));
    }
    sorted
}


pub proof fn lemma_lex_refl(a: Seq<char>)
    ensures
        lex_le(a, a),
    decreases a.len(),
{
    if a.len() > 0 {
        lemma_lex_refl(a.drop_first());
    }
}

/// Each string sorts strictly before the next, so none occurs twice.
pub open spec fn strictly_sorted(s: Seq<Seq<char>>) -> bool {
    forall|i: int, j: int| 0 <= i < j < s.len() ==> lex_le(#[trigger] s[i], #[trigger] s[j]) && s[i] != s[j]
}

/// The strings of `v` in order, each once (`sort` then `dedup`).
pub fn sorted_unique(v: Vec<String>) -> (r: Vec<String>)
    ensures
        strictly_sorted(sv(r@)),
        forall|x: Seq<char>| sv(r@).contains(x) <==> sv(v@).contains(x),
{
    let mut r: Vec<String> = Vec::new();
    let mut i: usize = 0;
    while i < v.len()
        invariant
            i <= v.len(),
            strictly_sorted(sv(r@)),
            forall|x: Seq<char>| sv(r@).contains(x) <==> sv(v@.subrange(0, i as int)).contains(x),
        decreases v.len() - i,
    {
        let x = chars_of(v[i].as_str());
        let ghost rv = sv(r@);
        let ghost pre = sv(v@.subrange(0, i as int));
        let ghost post = sv(v@.subrange(0, i + 1));
        assert(post == pre.push(x@));
        let mut j: usize = 0;
        while j < r.len() && lex_le_exec(&chars_of(r[j].as_str()), &x)
            invariant
                rv == sv(r@),
                j <= r.len(),
                forall|k: int| 0 <= k < j ==> lex_le(#[trigger] rv[k], x@),
            decreases r.len() - j,
        {
            j = j + 1;
        }
        let dup = j > 0 && crate::text::str_eq(r[j - 1].as_str(), v[i].as_str());
        proof {
            lemma_lex_refl(x@);
            if j < r.len() {
                lemma_lex_total(rv[j as int], x@);
                assert(rv[j as int] != x@);
            }
        }
        if dup {
            assert(rv[j - 1] == x@);
            assert forall|y: Seq<char>| sv(r@).contains(y) <==> post.contains(y) by {
                if y == x@ {
                    assert(rv.contains(y));
                    assert(post[i as int] == y);
                }
                if post.contains(y) && y != x@ {
                    let k = choose|k: int| 0 <= k < post.len() && post[k] == y;
                    assert(pre[k] == y);
                }
                if pre.contains(y) {
                    let k = choose|k: int| 0 <= k < pre.len() && pre[k] == y;
                    assert(post[k] == y);
                }
            }
        } else {
            proof {
                assert forall|k: int| 0 <= k < rv.len() implies rv[k] != x@ by {
                    if k < j {
                        if k < j - 1 {
                            assert(lex_le(rv[k], rv[j - 1]) && rv[k] != rv[j - 1]);
                            if rv[k] == x@ {
                                lemma_lex_antisym(rv[j - 1], x@);
                            }
                        }
                    } else {
                        if k > j {
                            assert(lex_le(rv[j as int], rv[k]));
                            if rv[k] == x@ {
                                lemma_lex_antisym(rv[j as int], x@);
                            }
                        }
                    }
                }
            }
            assert(forall|y: Seq<char>| rv.contains(y) <==> pre.contains(y));
            r.insert(j, owned_string(&v[i]));
            proof {
                let n = sv(r@);
                assert(n =~= rv.insert(j as int, x@));
                assert forall|a: int, b: int| 0 <= a < b < n.len() implies lex_le(#[trigger] n[a], #[trigger] n[b]) && n[a] != n[b] by {
                    if b < j {
                    } else if b == j {
                        assert(n[a] == rv[a]);
                        assert(lex_le(rv[a], x@));
                    } else if a < j {
                        assert(n[a] == rv[a]);
                        assert(n[b] == rv[b - 1]);
                        lemma_lex_total(rv[j as int], x@);
                        if b - 1 > j {
                            lemma_lex_trans(x@, rv[j as int], rv[b - 1]);
                        }
                        if n[a] == n[b] {
                            lemma_lex_antisym(rv[a], x@);
                        }
                    } else if a == j {
                        assert(n[b] == rv[b - 1]);
                        lemma_lex_total(rv[j as int], x@);
                        if b - 1 > j {
                            lemma_lex_trans(x@, rv[j as int], rv[b - 1]);
                        }
                    } else {
                        assert(n[a] == rv[a - 1]);
                        assert(n[b] == rv[b - 1]);
                    }
                }
                assert forall|y: Seq<char>| n.contains(y) <==> post.contains(y) by {
                    if n.contains(y) {
                        let k = choose|k: int| 0 <= k < n.len() && n[k] == y;
                        if k < j {
                            assert(rv[k] == y);
                            assert(rv.contains(y));
                        } else if k > j {
                            assert(rv[k - 1] == y);
                            assert(rv.contains(y));
                        } else {
                            assert(post[i as int] == y);
                        }
                        if rv.contains(y) {
                            let q = choose|q: int| 0 <= q < pre.len() && pre[q] == y;
                            assert(post[q] == y);
                        }
                    }
                    if post.contains(y) {
                        let k = choose|k: int| 0 <= k < post.len() && post[k] == y;
                        if k < i {
                            assert(pre[k] == y);
                            assert(pre.contains(y));
                            assert(rv.contains(y));
                            let q = choose|q: int| 0 <= q < rv.len() && rv[q] == y;
                            if q < j {
                                assert(n[q] == y);
                            } else {
                                assert(n[q + 1] == y);
                            }
                        } else {
                            assert(n[j as int] == y);
                        }
                    }
                }
            }
        }
        i = i + 1;
    }
    assert(v@.subrange(0, v.len() as int) == v@);
    r
}

fn owned_string(s: &String) -> (r: String)
    ensures
        r@ == s@,
{
    s.clone()
}

} // verus!
