//! Order-preserving first-wins de-duplication, and concatenation of
//! per-element contributions, as reusable specification machinery. The
//! merged classpath, jarmod list, artifact map and trait set are all
//! "ordered sets keyed by some identity": a sequence in which only the
//! first element with each key is kept.

use vstd::prelude::*;

verus! {

/// The concatenation of `g(x)` over the elements of `s`, in order.
pub open spec fn concat_map<A, B>(s: Seq<A>, g: spec_fn(A) -> Seq<B>) -> Seq<B>
    decreases s.len(),
{
    if s.len() == 0 {
        Seq::<B>::empty()
    } else {
        g(s[0]) + concat_map(s.drop_first(), g)
    }
}

/// Extending the processed prefix by one element appends that element's
/// contribution.
pub proof fn lemma_concat_map_take_succ<A, B>(s: Seq<A>, g: spec_fn(A) -> Seq<B>, j: int)
    requires
        0 <= j < s.len(),
    ensures
        concat_map(s.take(j + 1), g) == concat_map(s.take(j), g) + g(s[j]),
    decreases j,
{
    if j == 0 {
        assert(s.take(1).drop_first() =~= Seq::<A>::empty());
        assert(s.take(0) =~= Seq::<A>::empty());
        assert(s.take(1)[0] == s[0]);
        assert(concat_map(Seq::<A>::empty(), g) == Seq::<B>::empty());
        assert(concat_map(s.take(1), g) == g(s[0]) + Seq::<B>::empty());
        assert(g(s[0]) + Seq::<B>::empty() =~= g(s[0]));
        assert(concat_map(s.take(0), g) + g(s[0]) =~= g(s[0]));
    } else {
        lemma_concat_map_take_succ(s.drop_first(), g, j - 1);
        assert(s.take(j + 1).drop_first() =~= s.drop_first().take(j));
        assert(s.take(j).drop_first() =~= s.drop_first().take(j - 1));
        assert(s.take(j + 1)[0] == s[0]);
        assert(s.take(j)[0] == s[0]);
        assert(s.drop_first()[j - 1] == s[j]);
        assert(concat_map(s.take(j), g) + g(s[j]) =~= g(s[0]) + (concat_map(
            s.drop_first().take(j - 1),
            g,
        ) + g(s[j])));
    }
}

/// Membership in a concatenation of contributions: an element occurs
/// exactly when some input's contribution holds it.
pub proof fn lemma_concat_map_contains<A, B>(s: Seq<A>, g: spec_fn(A) -> Seq<B>, x: B)
    ensures
        concat_map(s, g).contains(x) <==> exists|j: int| 0 <= j < s.len() && g(#[trigger] s[j]).contains(x),
    decreases s.len(),
{
    if s.len() == 0 {
    } else {
        let d = s.drop_first();
        lemma_concat_map_contains(d, g, x);
        let whole = concat_map(s, g);
        assert(whole == g(s[0]) + concat_map(d, g));
        if whole.contains(x) {
            let k = choose|k: int| 0 <= k < whole.len() && whole[k] == x;
            if k < g(s[0]).len() {
                assert(g(s[0])[k] == x);
                assert(g(s[0]).contains(x));
            } else {
                assert(concat_map(d, g)[k - g(s[0]).len()] == x);
                assert(concat_map(d, g).contains(x));
                let j = choose|j: int| 0 <= j < d.len() && g(#[trigger] d[j]).contains(x);
                assert(d[j] == s[j + 1]);
            }
        }
        if exists|j: int| 0 <= j < s.len() && g(#[trigger] s[j]).contains(x) {
            let j = choose|j: int| 0 <= j < s.len() && g(#[trigger] s[j]).contains(x);
            if j == 0 {
                let a = g(s[0]);
                let k = choose|k: int| 0 <= k < a.len() && #[trigger] a[k] == x;
                assert(whole[k] == a[k]);
                assert(whole[k] == x);
            } else {
                assert(d[j - 1] == s[j]);
                assert(concat_map(d, g).contains(x));
                let k = choose|k: int|
                    0 <= k < concat_map(d, g).len() && concat_map(d, g)[k] == x;
                assert(whole[k + g(s[0]).len()] == x);
            }
            assert(whole.contains(x));
        }
    }
}

/// The set of keys that `f` gives the elements of `s`.
pub open spec fn keys_of<A, K>(s: Seq<A>, f: spec_fn(A) -> K) -> Set<K> {
    s.map_values(f).to_set()
}

pub proof fn lemma_keys_of_contains<A, K>(s: Seq<A>, f: spec_fn(A) -> K, k: K)
    ensures
        keys_of(s, f).contains(k) <==> exists|i: int| 0 <= i < s.len() && f(s[i]) == k,
{
    if keys_of(s, f).contains(k) {
        let i = choose|i: int| 0 <= i < s.map_values(f).len() && s.map_values(f)[i] == k;
        assert(f(s[i]) == k);
    }
    if exists|i: int| 0 <= i < s.len() && f(s[i]) == k {
        let i = choose|i: int| 0 <= i < s.len() && f(s[i]) == k;
        assert(s.map_values(f)[i] == k);
        assert(s.map_values(f).contains(k));
    }
}

/// `s` with every element whose key was already seen removed: only the
/// first element with each key stays, in its original position order.
pub open spec fn dedup_by<A, K>(s: Seq<A>, f: spec_fn(A) -> K, seen: Set<K>) -> Seq<A>
    decreases s.len(),
{
    if s.len() == 0 {
        Seq::<A>::empty()
    } else if seen.contains(f(s[0])) {
        dedup_by(s.drop_first(), f, seen)
    } else {
        seq![s[0]] + dedup_by(s.drop_first(), f, seen.insert(f(s[0])))
    }
}

/// De-duplicating a concatenation: the second part is de-duplicated with
/// every key of the first part already seen.
pub proof fn lemma_dedup_by_append<A, K>(s: Seq<A>, t: Seq<A>, f: spec_fn(A) -> K, seen: Set<K>)
    ensures
        dedup_by(s + t, f, seen) == dedup_by(s, f, seen) + dedup_by(
            t,
            f,
            seen.union(keys_of(s, f)),
        ),
    decreases s.len(),
{
    if s.len() == 0 {
        assert(s + t =~= t);
        assert(seen.union(keys_of(s, f)) =~= seen);
        assert(dedup_by(s, f, seen) + dedup_by(t, f, seen) =~= dedup_by(t, f, seen));
    } else {
        assert((s + t).drop_first() =~= s.drop_first() + t);
        assert((s + t)[0] == s[0]);
        let k = f(s[0]);
        if seen.contains(k) {
            lemma_dedup_by_append(s.drop_first(), t, f, seen);
            assert(seen.union(keys_of(s.drop_first(), f)) =~= seen.union(keys_of(s, f))) by {
                lemma_keys_of_contains(s, f, k);
                assert forall|x: K| keys_of(s, f).contains(x) && x != k implies keys_of(
                    s.drop_first(),
                    f,
                ).contains(x) by {
                    lemma_keys_of_contains(s, f, x);
                    let i = choose|i: int| 0 <= i < s.len() && f(s[i]) == x;
                    lemma_keys_of_contains(s.drop_first(), f, x);
                    assert(f(s.drop_first()[i - 1]) == x);
                };
                assert forall|x: K| keys_of(s.drop_first(), f).contains(x) implies keys_of(
                    s,
                    f,
                ).contains(x) by {
                    lemma_keys_of_contains(s.drop_first(), f, x);
                    let i = choose|i: int| 0 <= i < s.drop_first().len() && f(s.drop_first()[i])
                        == x;
                    lemma_keys_of_contains(s, f, x);
                    assert(f(s[i + 1]) == x);
                };
            };
        } else {
            lemma_dedup_by_append(s.drop_first(), t, f, seen.insert(k));
            assert(seen.insert(k).union(keys_of(s.drop_first(), f)) =~= seen.union(
                keys_of(s, f),
            )) by {
                lemma_keys_of_contains(s, f, k);
                assert(keys_of(s, f).contains(k)) by {
                    assert(f(s[0]) == k);
                };
                assert forall|x: K| keys_of(s, f).contains(x) && x != k implies keys_of(
                    s.drop_first(),
                    f,
                ).contains(x) by {
                    lemma_keys_of_contains(s, f, x);
                    let i = choose|i: int| 0 <= i < s.len() && f(s[i]) == x;
                    lemma_keys_of_contains(s.drop_first(), f, x);
                    assert(f(s.drop_first()[i - 1]) == x);
                };
                assert forall|x: K| keys_of(s.drop_first(), f).contains(x) implies keys_of(
                    s,
                    f,
                ).contains(x) by {
                    lemma_keys_of_contains(s.drop_first(), f, x);
                    let i = choose|i: int| 0 <= i < s.drop_first().len() && f(s.drop_first()[i])
                        == x;
                    lemma_keys_of_contains(s, f, x);
                    assert(f(s[i + 1]) == x);
                };
            };
            assert(dedup_by(s + t, f, seen) =~= dedup_by(s, f, seen) + dedup_by(
                t,
                f,
                seen.union(keys_of(s, f)),
            ));
        }
    }
}

/// Appending one element to the input either appends it to the output (its
/// key is new) or leaves the output unchanged (its key was seen).
pub proof fn lemma_dedup_by_push<A, K>(s: Seq<A>, e: A, f: spec_fn(A) -> K, seen: Set<K>)
    ensures
        !seen.union(keys_of(s, f)).contains(f(e)) ==> dedup_by(s.push(e), f, seen) == dedup_by(
            s,
            f,
            seen,
        ).push(e),
        seen.union(keys_of(s, f)).contains(f(e)) ==> dedup_by(s.push(e), f, seen) == dedup_by(
            s,
            f,
            seen,
        ),
{
    assert(s.push(e) =~= s + seq![e]);
    lemma_dedup_by_append(s, seq![e], f, seen);
    let seen2 = seen.union(keys_of(s, f));
    assert(seq![e].drop_first() =~= Seq::<A>::empty());
    assert(seq![e][0] == e);
    assert(dedup_by(Seq::<A>::empty(), f, seen2) == Seq::<A>::empty());
    assert(dedup_by(Seq::<A>::empty(), f, seen2.insert(f(e))) == Seq::<A>::empty());
    if seen2.contains(f(e)) {
        assert(dedup_by(seq![e], f, seen2) == dedup_by(seq![e].drop_first(), f, seen2));
        assert(dedup_by(s, f, seen) + Seq::<A>::empty() =~= dedup_by(s, f, seen));
    } else {
        assert(dedup_by(seq![e], f, seen2) == seq![e] + dedup_by(
            seq![e].drop_first(),
            f,
            seen2.insert(f(e)),
        ));
        assert(seq![e] + Seq::<A>::empty() =~= seq![e]);
        assert(dedup_by(s, f, seen) + seq![e] =~= dedup_by(s, f, seen).push(e));
    }
}

/// Key membership steps past the first element.
pub proof fn lemma_keys_shift<A, K>(s: Seq<A>, f: spec_fn(A) -> K, x: K)
    requires
        s.len() > 0,
    ensures
        keys_of(s, f).contains(x) <==> (f(s[0]) == x || keys_of(s.drop_first(), f).contains(x)),
{
    lemma_keys_of_contains(s, f, x);
    lemma_keys_of_contains(s.drop_first(), f, x);
    if keys_of(s, f).contains(x) {
        let i = choose|i: int| 0 <= i < s.len() && f(s[i]) == x;
        if i > 0 {
            assert(f(s.drop_first()[i - 1]) == x);
        }
    }
    if keys_of(s.drop_first(), f).contains(x) {
        let i = choose|i: int| 0 <= i < s.drop_first().len() && f(s.drop_first()[i]) == x;
        assert(f(s[i + 1]) == x);
    }
    if f(s[0]) == x {
        assert(exists|i: int| 0 <= i < s.len() && f(s[i]) == x);
    }
}

/// What first-wins de-duplication means, element by element: the output
/// keys are pairwise distinct, and every output element is the first input
/// element bearing its key.
pub proof fn lemma_dedup_by_first_wins<A, K>(s: Seq<A>, f: spec_fn(A) -> K, seen: Set<K>)
    ensures
        forall|l1: int, l2: int|
            0 <= l1 < l2 < dedup_by(s, f, seen).len() ==> f(#[trigger] dedup_by(s, f, seen)[l1])
                != f(#[trigger] dedup_by(s, f, seen)[l2]),
        forall|l: int|
            0 <= l < dedup_by(s, f, seen).len() ==> exists|m: int|
                {
                    &&& 0 <= m < s.len()
                    &&& s[m] == #[trigger] dedup_by(s, f, seen)[l]
                    &&& forall|m2: int| 0 <= m2 < m ==> f(#[trigger] s[m2]) != f(s[m])
                },
    decreases s.len(),
{
    if s.len() == 0 {
    } else {
        let k = f(s[0]);
        let d = s.drop_first();
        if seen.contains(k) {
            lemma_dedup_by_first_wins(d, f, seen);
            lemma_dedup_by_keys(d, f, seen);
            let out = dedup_by(s, f, seen);
            assert(out == dedup_by(d, f, seen));
            assert forall|l: int| 0 <= l < out.len() implies exists|m: int|
                {
                    &&& 0 <= m < s.len()
                    &&& s[m] == #[trigger] out[l]
                    &&& forall|m2: int| 0 <= m2 < m ==> f(#[trigger] s[m2]) != f(s[m])
                } by {
                let m0 = choose|m0: int|
                    {
                        &&& 0 <= m0 < d.len()
                        &&& d[m0] == out[l]
                        &&& forall|m2: int| 0 <= m2 < m0 ==> f(#[trigger] d[m2]) != f(d[m0])
                    };
                // The kept element's key was not in `seen`, so it is not k.
                lemma_keys_of_contains(out, f, f(out[l]));
                assert(f(out[l]) != k);
                let m = m0 + 1;
                assert(s[m] == d[m0]);
                assert forall|m2: int| 0 <= m2 < m implies f(#[trigger] s[m2]) != f(s[m]) by {
                    if m2 > 0 {
                        assert(s[m2] == d[m2 - 1]);
                    }
                };
            };
        } else {
            lemma_dedup_by_first_wins(d, f, seen.insert(k));
            lemma_dedup_by_keys(d, f, seen.insert(k));
            let rest = dedup_by(d, f, seen.insert(k));
            let out = dedup_by(s, f, seen);
            assert(out == seq![s[0]] + rest);
            assert(out[0] == s[0]);
            assert forall|l1: int, l2: int| 0 <= l1 < l2 < out.len() implies f(
                #[trigger] out[l1],
            ) != f(#[trigger] out[l2]) by {
                if l1 == 0 {
                    lemma_keys_of_contains(rest, f, f(out[l2]));
                    assert(rest[l2 - 1] == out[l2]);
                    assert(keys_of(rest, f).contains(f(out[l2])));
                } else {
                    assert(out[l1] == rest[l1 - 1] && out[l2] == rest[l2 - 1]);
                }
            };
            assert forall|l: int| 0 <= l < out.len() implies exists|m: int|
                {
                    &&& 0 <= m < s.len()
                    &&& s[m] == #[trigger] out[l]
                    &&& forall|m2: int| 0 <= m2 < m ==> f(#[trigger] s[m2]) != f(s[m])
                } by {
                if l == 0 {
                    assert(s[0] == out[0]);
                    assert(forall|m2: int| 0 <= m2 < 0 ==> f(#[trigger] s[m2]) != f(s[0]));
                } else {
                    assert(out[l] == rest[l - 1]);
                    let m0 = choose|m0: int|
                        {
                            &&& 0 <= m0 < d.len()
                            &&& d[m0] == rest[l - 1]
                            &&& forall|m2: int| 0 <= m2 < m0 ==> f(#[trigger] d[m2]) != f(d[m0])
                        };
                    lemma_keys_of_contains(rest, f, f(rest[l - 1]));
                    assert(keys_of(rest, f).contains(f(rest[l - 1])));
                    assert(f(rest[l - 1]) != k);
                    let m = m0 + 1;
                    assert(s[m] == d[m0]);
                    assert forall|m2: int| 0 <= m2 < m implies f(#[trigger] s[m2]) != f(s[m]) by {
                        if m2 > 0 {
                            assert(s[m2] == d[m2 - 1]);
                        }
                    };
                }
            };
        }
    }
}

/// De-duplication keeps exactly the keys that were not already seen.
pub proof fn lemma_dedup_by_keys<A, K>(s: Seq<A>, f: spec_fn(A) -> K, seen: Set<K>)
    ensures
        forall|x: K|
            #[trigger] keys_of(dedup_by(s, f, seen), f).contains(x) <==> (keys_of(s, f).contains(x)
                && !seen.contains(x)),
    decreases s.len(),
{
    if s.len() == 0 {
        assert forall|x: K| #[trigger]
            keys_of(dedup_by(s, f, seen), f).contains(x) <==> (keys_of(s, f).contains(x)
                && !seen.contains(x)) by {
            lemma_keys_of_contains(dedup_by(s, f, seen), f, x);
            lemma_keys_of_contains(s, f, x);
        };
    } else {
        let k = f(s[0]);
        let d = s.drop_first();
        if seen.contains(k) {
            lemma_dedup_by_keys(d, f, seen);
            assert forall|x: K| #[trigger]
                keys_of(dedup_by(s, f, seen), f).contains(x) <==> (keys_of(s, f).contains(x)
                    && !seen.contains(x)) by {
                lemma_keys_shift(s, f, x);
                assert(dedup_by(s, f, seen) == dedup_by(d, f, seen));
            };
        } else {
            lemma_dedup_by_keys(d, f, seen.insert(k));
            let rest = dedup_by(d, f, seen.insert(k));
            assert(dedup_by(s, f, seen) == seq![s[0]] + rest);
            assert forall|x: K| #[trigger]
                keys_of(dedup_by(s, f, seen), f).contains(x) <==> (keys_of(s, f).contains(x)
                    && !seen.contains(x)) by {
                lemma_keys_shift(s, f, x);
                let c = seq![s[0]] + rest;
                assert(c.len() > 0 && c[0] == s[0]);
                assert(c.drop_first() =~= rest);
                lemma_keys_shift(c, f, x);
            };
        }
    }
}

} // verus!
