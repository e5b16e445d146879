use vstd::prelude::*;
use crate::seqs::{dedup_by, has_key, lemma_dedup_by};
use crate::states::{names, states_view, StateDecl, StateView};

verus! {

/// The variant names of the declared states, each once, in the order in
/// which they are first declared.
pub open spec fn unique_shortnames(sv: Seq<StateView>) -> Seq<Seq<char>> {
    dedup_by(sv.map_values(|s: StateView| s.shortname), |n: Seq<char>| n)
}

/// The word that ends each half of a disjunction trait's name.
pub open spec fn state_word() -> Seq<char> {
    seq!['S', 't', 'a', 't', 'e']
}

/// The name `{a}State{b}State` of the trait for "in state `a` or in state
/// `b`".
pub open spec fn disjunction_name(a: Seq<char>, b: Seq<char>) -> Seq<char> {
    a + state_word() + b + state_word()
}

/// The trait names that pair `a` with each name of `u` other than `a`, in
/// the order of `u`.
pub open spec fn pairings(a: Seq<char>, u: Seq<Seq<char>>) -> Seq<Seq<char>>
    decreases u.len(),
{
    if u.len() == 0 {
        Seq::empty()
    } else {
        let p = pairings(a, u.drop_last());
        if u.last() == a {
            p
        } else {
            p.push(disjunction_name(a, u.last()))
        }
    }
}

/// For each name of `roots` in order, its pairings with the names of `u`.
pub open spec fn disjunctions(roots: Seq<Seq<char>>, u: Seq<Seq<char>>) -> Seq<Seq<char>>
    decreases roots.len(),
{
    if roots.len() == 0 {
        Seq::empty()
    } else {
        disjunctions(roots.drop_last(), u) + pairings(roots.last(), u)
    }
}

/// The pairings of `a` name `a` with exactly the names of `u` other than `a`.
pub proof fn lemma_pairings(a: Seq<char>, u: Seq<Seq<char>>)
    ensures
        forall|k: Seq<char>|
            pairings(a, u).contains(k) <==> exists|b: Seq<char>|
                u.contains(b) && b != a && k == #[trigger] disjunction_name(a, b),
    decreases u.len(),
{
    if u.len() > 0 {
        let p = u.drop_last();
        lemma_pairings(a, p);
        assert forall|k: Seq<char>|
            pairings(a, u).contains(k) <==> exists|b: Seq<char>|
                u.contains(b) && b != a && k == #[trigger] disjunction_name(a, b) by {
            if pairings(a, u).contains(k) {
                let m = choose|m: int| 0 <= m < pairings(a, u).len() && pairings(a, u)[m] == k;
                if m < pairings(a, p).len() {
                    assert(pairings(a, p)[m] == k);
                }
                if pairings(a, p).contains(k) {
                    let b = choose|b: Seq<char>| p.contains(b) && b != a && k == #[trigger] disjunction_name(a, b);
                    let j = choose|j: int| 0 <= j < p.len() && p[j] == b;
                    assert(u[j] == b);
                    assert(u.contains(b));
                } else {
                    assert(u.last() != a && k == disjunction_name(a, u.last()));
                    assert(u[u.len() - 1] == u.last());
                    assert(u.contains(u.last()));
                }
            }
            if exists|b: Seq<char>| u.contains(b) && b != a && k == #[trigger] disjunction_name(a, b) {
                let b = choose|b: Seq<char>| u.contains(b) && b != a && k == #[trigger] disjunction_name(a, b);
                let j = choose|j: int| 0 <= j < u.len() && u[j] == b;
                if j < p.len() {
                    assert(p[j] == b);
                    assert(p.contains(b));
                    assert(pairings(a, p).contains(k));
                    let m = choose|m: int| 0 <= m < pairings(a, p).len() && pairings(a, p)[m] == k;
                    assert(pairings(a, u)[m] == k);
                } else {
                    assert(b == u.last());
                    assert(pairings(a, u) == pairings(a, p).push(k));
                    assert(pairings(a, u)[pairings(a, p).len() as int] == k);
                }
            }
        }
    }
}

/// The disjunction traits of `roots` with `u` name exactly the ordered pairs
/// of a name of `roots` and a different name of `u`: with the declared names
/// on both sides, every combination of two distinct states.
pub proof fn lemma_disjunctions(roots: Seq<Seq<char>>, u: Seq<Seq<char>>)
    ensures
        forall|k: Seq<char>|
            disjunctions(roots, u).contains(k) <==> exists|a: Seq<char>, b: Seq<char>|
                roots.contains(a) && u.contains(b) && a != b && k == #[trigger] disjunction_name(a, b),
    decreases roots.len(),
{
    if roots.len() > 0 {
        let r = roots.drop_last();
        let last = roots.last();
        lemma_disjunctions(r, u);
        lemma_pairings(last, u);
        let d = disjunctions(r, u);
        let q = pairings(last, u);
        assert(disjunctions(roots, u) == d + q);
        assert forall|k: Seq<char>|
            disjunctions(roots, u).contains(k) <==> exists|a: Seq<char>, b: Seq<char>|
                roots.contains(a) && u.contains(b) && a != b && k == #[trigger] disjunction_name(a, b) by {
            if (d + q).contains(k) {
                let m = choose|m: int| 0 <= m < (d + q).len() && (d + q)[m] == k;
                if m < d.len() {
                    assert(d[m] == k);
                    assert(d.contains(k));
                    let (a, b) = choose|a: Seq<char>, b: Seq<char>|
                        r.contains(a) && u.contains(b) && a != b && k == #[trigger] disjunction_name(a, b);
                    let j = choose|j: int| 0 <= j < r.len() && r[j] == a;
                    assert(roots[j] == a);
                    assert(roots.contains(a));
                } else {
                    assert(q[m - d.len()] == k);
                    assert(q.contains(k));
                    let b = choose|b: Seq<char>| u.contains(b) && b != last && k == #[trigger] disjunction_name(last, b);
                    assert(roots[roots.len() - 1] == last);
                    assert(roots.contains(last));
                }
            }
            if exists|a: Seq<char>, b: Seq<char>|
                roots.contains(a) && u.contains(b) && a != b && k == #[trigger] disjunction_name(a, b) {
                let (a, b) = choose|a: Seq<char>, b: Seq<char>|
                    roots.contains(a) && u.contains(b) && a != b && k == #[trigger] disjunction_name(a, b);
                let j = choose|j: int| 0 <= j < roots.len() && roots[j] == a;
                if j < r.len() {
                    assert(r[j] == a);
                    assert(r.contains(a));
                    assert(d.contains(k));
                    let m = choose|m: int| 0 <= m < d.len() && d[m] == k;
                    assert((d + q)[m] == k);
                } else {
                    assert(a == last);
                    assert(q.contains(k));
                    let m = choose|m: int| 0 <= m < q.len() && q[m] == k;
                    assert((d + q)[d.len() + m] == k);
                }
            }
        }
    }
}

/// The variant names of the declared states, each once, in the order in
/// which they are first declared.
pub fn unique_state_shortnames(states: &Vec<StateDecl>) -> (r: Vec<String>)
    ensures
        names(r@) == unique_shortnames(states_view(states@)),
{
    let ghost all = states_view(states@).map_values(|s: StateView| s.shortname);
    let ghost id = |n: Seq<char>| n;
    let mut u: Vec<String> = Vec::new();
    let mut i: usize = 0;
    while i < states.len()
        invariant
            i <= states.len(),
            all == states_view(states@).map_values(|s: StateView| s.shortname),
            id == |n: Seq<char>| n,
            names(u@) == dedup_by(all.take(i as int), id),
        decreases states.len() - i,
    {
        let name = &states[i].shortname;
        assert(all[i as int] == name@);
        let mut found = false;
        let mut k: usize = 0;
        while k < u.len()
            invariant
                k <= u.len(),
                found == exists|m: int| 0 <= m < k && #[trigger] names(u@)[m] == name@,
            decreases u.len() - k,
        {
            if u[k] == *name {
                assert(names(u@)[k as int] == name@);
                found = true;
            } else {
                assert(names(u@)[k as int] != name@);
            }
            k = k + 1;
        }
        proof {
            let p = all.take(i as int);
            lemma_dedup_by(p, id);
            assert(all.take(i + 1).drop_last() =~= p);
            assert(all.take(i + 1).last() == name@);
            assert(found == has_key(dedup_by(p, id), id, name@)) by {
                if found {
                    let m = choose|m: int| 0 <= m < u.len() && #[trigger] names(u@)[m] == name@;
                    assert(id(dedup_by(p, id)[m]) == name@);
                }
                if has_key(dedup_by(p, id), id, name@) {
                    let m = choose|m: int| 0 <= m < dedup_by(p, id).len() && #[trigger] id(dedup_by(p, id)[m]) == name@;
                    assert(names(u@)[m] == name@);
                }
            }
        }
        if !found {
            let ghost before = u@;
            u.push(name.clone());
            assert(names(u@) =~= names(before).push(name@));
        }
        i = i + 1;
    }
    assert(all.take(states.len() as int) =~= all);
    u
}

/// `{a}State{b}State`.
fn disjunction_trait_name(a: &String, b: &String) -> (r: String)
    ensures
        r@ == disjunction_name(a@, b@),
{
    proof {
        reveal_strlit("State");
    }
    let mut r = a.clone();
    r.append("State");
    r.append(b.as_str());
    r.append("State");
    assert(r@ =~= disjunction_name(a@, b@));
    r
}

/// The names of the traits that stand for "in one state or in another": one
/// `{A}State{B}State` for every ordered pair of distinct variant names of the
/// declared states, grouped by the first name, both in the order in which
/// the names are first declared.
pub fn generate_disjunctive_states(states: &Vec<StateDecl>) -> (r: Vec<String>)
    ensures
        names(r@) == disjunctions(
            unique_shortnames(states_view(states@)),
            unique_shortnames(states_view(states@)),
        ),
{
    let unique = unique_state_shortnames(states);
    let ghost u = names(unique@);
    let mut out: Vec<String> = Vec::new();
    let mut i: usize = 0;
    while i < unique.len()
        invariant
            i <= unique.len(),
            u == names(unique@),
            names(out@) == disjunctions(u.take(i as int), u),
        decreases unique.len() - i,
    {
        let ghost before = names(out@);
        let mut j: usize = 0;
        while j < unique.len()
            invariant
                j <= unique.len(),
                i < unique.len(),
                u == names(unique@),
                names(out@) == before + pairings(u[i as int], u.take(j as int)),
            decreases unique.len() - j,
        {
            assert(u.take(j + 1).drop_last() =~= u.take(j as int));
            assert(u[i as int] == unique[i as int]@ && u[j as int] == unique[j as int]@);
            if unique[i] != unique[j] {
                let n = disjunction_trait_name(&unique[i], &unique[j]);
                let ghost prev = out@;
                out.push(n);
                assert(names(out@) =~= names(prev).push(n@));
            }
            j = j + 1;
        }
        assert(u.take(unique.len() as int) =~= u);
        assert(u.take(i + 1).drop_last() =~= u.take(i as int));
        i = i + 1;
    }
    assert(u.take(unique.len() as int) =~= u);
    out
}

} // verus!
