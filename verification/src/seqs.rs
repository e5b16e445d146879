use vstd::prelude::*;

verus! {

/// Whether some element of `s` has key `k`.
pub open spec fn has_key<A, K>(s: Seq<A>, key: spec_fn(A) -> K, k: K) -> bool {
    exists|j: int| 0 <= j < s.len() && #[trigger] key(s[j]) == k
}

/// The elements of `s` in order, each kept only when no earlier element has
/// the same key.
pub open spec fn dedup_by<A, K>(s: Seq<A>, key: spec_fn(A) -> K) -> Seq<A>
    decreases s.len(),
{
    if s.len() == 0 {
        Seq::empty()
    } else {
        let p = s.drop_last();
        if has_key(p, key, key(s.last())) {
            dedup_by(p, key)
        } else {
            dedup_by(p, key).push(s.last())
        }
    }
}

/// Keeping first occurrences keeps every key and no key twice.
pub proof fn lemma_dedup_by<A, K>(s: Seq<A>, key: spec_fn(A) -> K)
    ensures
        forall|k: K| has_key(dedup_by(s, key), key, k) == has_key(s, key, k),
        forall|i: int, j: int|
            0 <= i < j < dedup_by(s, key).len() ==> key(dedup_by(s, key)[i]) != key(
                dedup_by(s, key)[j],
            ),
        dedup_by(s, key).len() <= s.len(),
    decreases s.len(),
{
    if s.len() > 0 {
        let p = s.drop_last();
        lemma_dedup_by(p, key);
        let d = dedup_by(p, key);
        let last = s.last();
        let e = dedup_by(s, key);
        assert(s == p.push(last));
        if has_key(p, key, key(last)) {
            assert(e == d);
        } else {
            assert(e == d.push(last));
        }
        assert forall|k: K| has_key(e, key, k) == has_key(s, key, k) by {
            if has_key(s, key, k) {
                let j = choose|j: int| 0 <= j < s.len() && #[trigger] key(s[j]) == k;
                if j < p.len() {
                    assert(key(p[j]) == k);
                    assert(has_key(p, key, k));
                    assert(has_key(d, key, k));
                    let m = choose|m: int| 0 <= m < d.len() && #[trigger] key(d[m]) == k;
                    if !has_key(p, key, key(last)) {
                        assert(e[m] == d[m]);
                        assert(key(e[m]) == k);
                    } else {
                        assert(key(e[m]) == k);
                    }
                    assert(has_key(e, key, k));
                } else {
                    assert(key(last) == k);
                    if has_key(p, key, key(last)) {
                        assert(has_key(d, key, k));
                    } else {
                        assert(e[d.len() as int] == last);
                        assert(key(e[d.len() as int]) == k);
                    }
                    assert(has_key(e, key, k));
                }
            }
            if has_key(e, key, k) {
                let m = choose|m: int| 0 <= m < e.len() && #[trigger] key(e[m]) == k;
                if m < d.len() {
                    assert(e[m] == d[m]);
                    assert(key(d[m]) == k);
                    assert(has_key(d, key, k));
                    assert(has_key(p, key, k));
                    let j = choose|j: int| 0 <= j < p.len() && #[trigger] key(p[j]) == k;
                    assert(s[j] == p[j]);
                    assert(key(s[j]) == k);
                } else {
                    assert(e[m] == last);
                    assert(key(s[s.len() - 1]) == k);
                }
                assert(has_key(s, key, k));
            }
        }
        if !has_key(p, key, key(s.last())) {
            let e = d.push(s.last());
            assert forall|i: int, j: int| 0 <= i < j < e.len() implies key(e[i]) != key(e[j]) by {
                if j == d.len() {
                    if key(e[i]) == key(e[j]) {
                        assert(e[i] == d[i]);
                        assert(has_key(d, key, key(s.last())));
                    }
                } else {
                    assert(e[i] == d[i] && e[j] == d[j]);
                }
            }
        }
    }
}

/// Every element kept by `dedup_by` is an element of the sequence.
pub proof fn lemma_dedup_by_from<A, K>(s: Seq<A>, key: spec_fn(A) -> K)
    ensures
        forall|i: int| 0 <= i < dedup_by(s, key).len() ==> s.contains(#[trigger] dedup_by(s, key)[i]),
    decreases s.len(),
{
    if s.len() > 0 {
        let p = s.drop_last();
        lemma_dedup_by_from(p, key);
        let d = dedup_by(p, key);
        assert forall|i: int| 0 <= i < dedup_by(s, key).len() implies s.contains(#[trigger] dedup_by(s, key)[i]) by {
            if i < d.len() {
                let x = d[i];
                assert(p.contains(x));
                let j = choose|j: int| 0 <= j < p.len() && p[j] == x;
                assert(s[j] == x);
                assert(dedup_by(s, key)[i] == x);
            } else {
                assert(dedup_by(s, key)[i] == s.last());
                assert(s[s.len() - 1] == s.last());
            }
        }
    }
}

} // verus!
