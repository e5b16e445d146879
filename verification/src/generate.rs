use vstd::prelude::*;
use crate::seqs::{dedup_by, has_key, lemma_dedup_by, lemma_dedup_by_from};
use crate::states::{states_view, any_name, any_string, is_mergeable, names, parts_valid_into, same_names, valid_into_parts, StateDecl, StateView};

verus! {

/// A state with concrete substate names (`Any` among them possibly), as it
/// appears in a generated type: `Ident<Sub, ..>`.
pub struct ConcreteState {
    pub ident: String,
    pub substates: Vec<String>,
}

impl ConcreteState {
    pub open spec fn view(&self) -> (Seq<char>, Seq<Seq<char>>) {
        (self.ident@, names(self.substates@))
    }
}

/// One arm of a generated match over the stored-state enum: the variant, and
/// whether the arm converts (`true`) or hands the stored state back.
pub struct StoreArm {
    pub shortname: String,
    pub allowed: bool,
}

impl StoreArm {
    pub open spec fn view(&self) -> (Seq<char>, bool) {
        (self.shortname@, self.allowed)
    }
}

pub open spec fn arms_view(v: Seq<StoreArm>) -> Seq<(Seq<char>, bool)> {
    v.map_values(|a: StoreArm| a@)
}

/// The impls generated for one state type.
pub enum ImplKind {
    /// A state without substates: `State`, `Reg`, `From` and `TryFrom` by the
    /// state's name.
    Unit,
    /// A state with named substates: `State`, `Reg`, `From` and `TryFrom` by
    /// the state's variant.
    Concrete,
    /// A state with `Any` substates: `State`, `Reg`, `Merge` with the stored
    /// state (one arm per declared state, merging those that are mergeable),
    /// `AnyReg`, and `TryFrom` (one arm per declared state, converting those
    /// it is valid into).
    AnyState { merges: Vec<StoreArm>, try_froms: Vec<StoreArm> },
}

pub ghost enum ImplKindView {
    Unit,
    Concrete,
    AnyState { merges: Seq<(Seq<char>, bool)>, try_froms: Seq<(Seq<char>, bool)> },
}

impl ImplKind {
    pub open spec fn view(&self) -> ImplKindView {
        match self {
            ImplKind::Unit => ImplKindView::Unit,
            ImplKind::Concrete => ImplKindView::Concrete,
            ImplKind::AnyState { merges, try_froms } => ImplKindView::AnyState {
                merges: arms_view(merges@),
                try_froms: arms_view(try_froms@),
            },
        }
    }
}

/// The impls generated for one state type `state`, declared with variant
/// `shortname`.
pub struct StateImpl {
    pub state: ConcreteState,
    pub shortname: String,
    pub kind: ImplKind,
}

pub ghost struct ImplView {
    pub ident: Seq<char>,
    pub substates: Seq<Seq<char>>,
    pub shortname: Seq<char>,
    pub kind: ImplKindView,
}

impl StateImpl {
    pub open spec fn view(&self) -> ImplView {
        ImplView {
            ident: self.state.ident@,
            substates: names(self.state.substates@),
            shortname: self.shortname@,
            kind: self.kind@,
        }
    }
}

pub open spec fn impls_view(v: Seq<StateImpl>) -> Seq<ImplView> {
    v.map_values(|x: StateImpl| x@)
}

/// `n` substates, all `Any`.
pub open spec fn all_any(n: nat) -> Seq<Seq<char>> {
    Seq::new(n, |j: int| any_name())
}

/// The substates of the `k`-th type generated for state `s` with `n`
/// substates: for `k < n` the `k`-th substate becomes `Any`; for `k == n`
/// all become `Any`; for `k == n + 1` they are as declared.
pub open spec fn expansion_substates(s: StateView, k: int) -> Seq<Seq<char>> {
    let n = s.substates.len();
    if k < n {
        s.substates.update(k, any_name())
    } else if k == n {
        all_any(n)
    } else {
        s.substates
    }
}

/// Merge arms of an `Any` type of state `ident`: every declared state, merged
/// when it is mergeable (the same state).
pub open spec fn merge_arms(states: Seq<StateView>, ident: Seq<char>) -> Seq<(Seq<char>, bool)> {
    states.map_values(|t: StateView| (t.shortname, t.ident == ident))
}

/// `TryFrom` arms of an `Any` type: every declared state, converted when the
/// type is valid into it.
pub open spec fn try_from_arms(states: Seq<StateView>, ident: Seq<char>, substates: Seq<Seq<char>>) -> Seq<(Seq<char>, bool)> {
    states.map_values(|t: StateView| (t.shortname, valid_into_parts(ident, substates, t)))
}

/// What the `k`-th expansion of the `i`-th declared state generates.
pub open spec fn impl_view(states: Seq<StateView>, i: int, k: int) -> ImplView {
    let s = states[i];
    let subs = expansion_substates(s, k);
    ImplView {
        ident: s.ident,
        substates: subs,
        shortname: s.shortname,
        kind: if s.substates.len() == 0 {
            ImplKindView::Unit
        } else if k <= s.substates.len() {
            ImplKindView::AnyState {
                merges: merge_arms(states, s.ident),
                try_froms: try_from_arms(states, s.ident, subs),
            }
        } else {
            ImplKindView::Concrete
        },
    }
}

/// Every expansion of the first `m` declared states, in order.
pub open spec fn candidates(states: Seq<StateView>, m: int) -> Seq<ImplView>
    decreases m,
{
    if m <= 0 {
        Seq::empty()
    } else {
        candidates(states, m - 1) + Seq::new(
            (states[m - 1].substates.len() + 2) as nat,
            |k: int| impl_view(states, m - 1, k),
        )
    }
}

/// Generated types are told apart by name and substates.
pub open spec fn impl_key() -> spec_fn(ImplView) -> (Seq<char>, Seq<Seq<char>>) {
    |v: ImplView| (v.ident, v.substates)
}

/// The `k`-th expansion of state `i` is among the candidates of the first
/// `m` states, for `i < m`.
proof fn lemma_candidate_present(states: Seq<StateView>, m: int, i: int, k: int)
    requires
        0 <= i < m <= states.len(),
        0 <= k < states[i].substates.len() + 2,
    ensures
        has_key(candidates(states, m), impl_key(), impl_key()(impl_view(states, i, k))),
    decreases m,
{
    let c = candidates(states, m);
    let prev = candidates(states, m - 1);
    let tail = Seq::new(
        (states[m - 1].substates.len() + 2) as nat,
        |kk: int| impl_view(states, m - 1, kk),
    );
    assert(c == prev + tail);
    if i == m - 1 {
        assert(c[prev.len() + k] == impl_view(states, i, k));
        assert(impl_key()(c[prev.len() + k]) == impl_key()(impl_view(states, i, k)));
    } else {
        lemma_candidate_present(states, m - 1, i, k);
        let j = choose|j: int| 0 <= j < prev.len() && #[trigger] impl_key()(prev[j]) == impl_key()(impl_view(states, i, k));
        assert(c[j] == prev[j]);
    }
}

/// Every declared state gets a state type with its declared substates and,
/// when it has substates, one with all of them `Any`; no state type is
/// generated twice.
pub proof fn lemma_generated_state_types(states: Seq<StateView>)
    ensures
        forall|i: int|
            0 <= i < states.len() ==> #[trigger] has_key(
                dedup_by(candidates(states, states.len() as int), impl_key()),
                impl_key(),
                (states[i].ident, states[i].substates),
            ),
        forall|i: int|
            0 <= i < states.len() ==> #[trigger] has_key(
                dedup_by(candidates(states, states.len() as int), impl_key()),
                impl_key(),
                (states[i].ident, all_any(states[i].substates.len())),
            ),
        forall|a: int, b: int|
            0 <= a < b < dedup_by(candidates(states, states.len() as int), impl_key()).len() ==> impl_key()(
                dedup_by(candidates(states, states.len() as int), impl_key())[a],
            ) != impl_key()(dedup_by(candidates(states, states.len() as int), impl_key())[b]),
{
    let c = candidates(states, states.len() as int);
    lemma_dedup_by(c, impl_key());
    assert forall|i: int| 0 <= i < states.len() implies #[trigger] has_key(
        dedup_by(c, impl_key()),
        impl_key(),
        (states[i].ident, states[i].substates),
    ) by {
        let n = states[i].substates.len();
        lemma_candidate_present(states, states.len() as int, i, n as int + 1);
        assert(impl_key()(impl_view(states, i, n as int + 1)) == (states[i].ident, states[i].substates));
    }
    assert forall|i: int| 0 <= i < states.len() implies #[trigger] has_key(
        dedup_by(c, impl_key()),
        impl_key(),
        (states[i].ident, all_any(states[i].substates.len())),
    ) by {
        let n = states[i].substates.len();
        lemma_candidate_present(states, states.len() as int, i, n as int);
        assert(impl_key()(impl_view(states, i, n as int)) == (states[i].ident, all_any(n)));
    }
}

/// The substates of the `k`-th expansion of `s`.
fn expansion(s: &StateDecl, k: usize) -> (v: Vec<String>)
    requires
        k <= s.substates.len() + 1,
    ensures
        names(v@) == expansion_substates(s@, k as int),
{
    let n = s.substates.len();
    let mut v: Vec<String> = Vec::new();
    let mut j: usize = 0;
    while j < n
        invariant
            j <= n,
            n == s.substates.len(),
            k <= n + 1,
            names(v@) == expansion_substates(s@, k as int).take(j as int),
        decreases n - j,
    {
        let ghost old_v = v@;
        let x = if k == n || k == j {
            any_string()
        } else {
            s.substates[j].clone()
        };
        assert(names(s.substates@)[j as int] == s.substates@[j as int]@);
        assert(x@ == expansion_substates(s@, k as int)[j as int]);
        v.push(x);
        assert(v@ == old_v.push(x));
        assert(names(v@) =~= names(old_v).push(x@));
        assert(names(v@) =~= expansion_substates(s@, k as int).take(j + 1));
        j = j + 1;
    }
    assert(names(v@) =~= expansion_substates(s@, k as int));
    v
}

/// Merge arms over all declared states for a type of state `ident`.
fn build_merge_arms(states: &Vec<StateDecl>, ident: &String) -> (arms: Vec<StoreArm>)
    ensures
        arms_view(arms@) == merge_arms(states_view(states@), ident@),
{
    let mut arms: Vec<StoreArm> = Vec::new();
    let mut i: usize = 0;
    while i < states.len()
        invariant
            i <= states.len(),
            arms_view(arms@) == merge_arms(states_view(states@), ident@).take(i as int),
        decreases states.len() - i,
    {
        let allowed = is_mergeable(&states[i], &StateDecl {
            ident: ident.clone(),
            shortname: String::new(),
            substates: Vec::new(),
            transitions: Vec::new(),
        });
        let ghost old_arms = arms@;
        let arm = StoreArm { shortname: states[i].shortname.clone(), allowed };
        assert(states_view(states@)[i as int] == states@[i as int]@);
        assert(arm@ == merge_arms(states_view(states@), ident@)[i as int]);
        arms.push(arm);
        assert(arms_view(arms@) =~= arms_view(old_arms).push(arm@));
        assert(arms_view(arms@) =~= merge_arms(states_view(states@), ident@).take(i + 1));
        i = i + 1;
    }
    assert(arms_view(arms@) =~= merge_arms(states_view(states@), ident@));
    arms
}

/// `TryFrom` arms over all declared states for the type `ident<substates>`.
fn build_try_from_arms(states: &Vec<StateDecl>, ident: &String, substates: &Vec<String>) -> (arms: Vec<StoreArm>)
    ensures
        arms_view(arms@) == try_from_arms(states_view(states@), ident@, names(substates@)),
{
    let mut arms: Vec<StoreArm> = Vec::new();
    let mut i: usize = 0;
    while i < states.len()
        invariant
            i <= states.len(),
            arms_view(arms@) == try_from_arms(states_view(states@), ident@, names(substates@)).take(i as int),
        decreases states.len() - i,
    {
        let allowed = parts_valid_into(ident, substates, &states[i]);
        let ghost old_arms = arms@;
        let arm = StoreArm { shortname: states[i].shortname.clone(), allowed };
        assert(states_view(states@)[i as int] == states@[i as int]@);
        assert(arm@ == try_from_arms(states_view(states@), ident@, names(substates@))[i as int]);
        arms.push(arm);
        assert(arms_view(arms@) =~= arms_view(old_arms).push(arm@));
        assert(arms_view(arms@) =~= try_from_arms(states_view(states@), ident@, names(substates@)).take(i + 1));
        i = i + 1;
    }
    assert(arms_view(arms@) =~= try_from_arms(states_view(states@), ident@, names(substates@)));
    arms
}

/// Whether a type `ident<substates>` is among those already generated.
fn already_generated(out: &Vec<StateImpl>, ident: &String, substates: &Vec<String>) -> (b: bool)
    ensures
        b == has_key(impls_view(out@), impl_key(), (ident@, names(substates@))),
{
    let mut j: usize = 0;
    while j < out.len()
        invariant
            j <= out.len(),
            forall|m: int| 0 <= m < j ==> #[trigger] impl_key()(impls_view(out@)[m]) != (ident@, names(substates@)),
        decreases out.len() - j,
    {
        if out[j].state.ident == *ident && same_names(&out[j].state.substates, substates) {
            assert(impl_key()(impls_view(out@)[j as int]) == (ident@, names(substates@)));
            return true;
        }
        j = j + 1;
    }
    false
}

/// The state types generated from the declared states, with the impls of
/// each: every expansion of every declared state (each substate in turn made
/// `Any`, then all of them `Any`, then none), in order, leaving out a type
/// already generated.
pub fn generate_state_impls(states: &Vec<StateDecl>) -> (impls: Vec<StateImpl>)
    requires
        forall|i: int| 0 <= i < states.len() ==> #[trigger] states@[i].substates.len() + 2 <= usize::MAX,
    ensures
        impls_view(impls@) == dedup_by(candidates(states_view(states@), states@.len() as int), impl_key()),
{
    let ghost sv = states_view(states@);
    let mut out: Vec<StateImpl> = Vec::new();
    let mut i: usize = 0;
    while i < states.len()
        invariant
            i <= states.len(),
            sv == states_view(states@),
            forall|m: int| 0 <= m < states.len() ==> #[trigger] states@[m].substates.len() + 2 <= usize::MAX,
            impls_view(out@) == dedup_by(candidates(sv, i as int), impl_key()),
        decreases states.len() - i,
    {
        let s = &states[i];
        let n = s.substates.len();
        assert(states@[i as int].substates.len() + 2 <= usize::MAX);
        assert(sv[i as int] == s@);
        let mut k: usize = 0;
        while k < n + 2
            invariant
                i < states.len(),
                s == states@[i as int],
                sv == states_view(states@),
                sv[i as int] == s@,
                n == s.substates.len(),
                n + 2 <= usize::MAX,
                k <= n + 2,
                impls_view(out@) == dedup_by(
                    candidates(sv, i as int) + Seq::new(k as nat, |kk: int| impl_view(sv, i as int, kk)),
                    impl_key(),
                ),
            decreases n + 2 - k,
        {
            let ghost prev = candidates(sv, i as int) + Seq::new(k as nat, |kk: int| impl_view(sv, i as int, kk));
            let ghost next = candidates(sv, i as int) + Seq::new((k + 1) as nat, |kk: int| impl_view(sv, i as int, kk));
            let ghost c = impl_view(sv, i as int, k as int);
            assert(next =~= prev.push(c));
            assert(next.drop_last() =~= prev);
            proof {
                lemma_dedup_by(prev, impl_key());
            }
            let subs = expansion(s, k);
            let seen = already_generated(&out, &s.ident, &subs);
            if !seen {
                let kind = if n == 0 {
                    ImplKind::Unit
                } else if k <= n {
                    let merges = build_merge_arms(states, &s.ident);
                    let try_froms = build_try_from_arms(states, &s.ident, &subs);
                    ImplKind::AnyState { merges, try_froms }
                } else {
                    ImplKind::Concrete
                };
                let item = StateImpl {
                    state: ConcreteState { ident: s.ident.clone(), substates: subs },
                    shortname: s.shortname.clone(),
                    kind,
                };
                assert(item@ == c);
                let ghost before = out@;
                out.push(item);
                assert(impls_view(out@) =~= impls_view(before).push(c));
            }
            assert(impl_key()(c) == (s.ident@, names(subs@)));
            k = k + 1;
        }
        assert(candidates(sv, i + 1) =~= candidates(sv, i as int) + Seq::new(
            (n + 2) as nat,
            |kk: int| impl_view(sv, i as int, kk),
        ));
        i = i + 1;
    }
    out
}

/// A generated type constructor (or impl family) named by a state, with the
/// number of substate parameters it takes.
pub struct TypeDecl {
    pub ident: String,
    pub arity: usize,
}

impl TypeDecl {
    pub open spec fn view(&self) -> (Seq<char>, nat) {
        (self.ident@, self.arity as nat)
    }
}

pub open spec fn decls_view(v: Seq<TypeDecl>) -> Seq<(Seq<char>, nat)> {
    v.map_values(|d: TypeDecl| d@)
}

/// Declarations are told apart by name.
pub open spec fn ident_key() -> spec_fn((Seq<char>, nat)) -> Seq<char> {
    |d: (Seq<char>, nat)| d.0
}

/// The `Merge` impls between register blocks of one state, one family per
/// state name, for the number of substates of the state's first declaration.
pub open spec fn merge_impls_spec(states: Seq<StateView>) -> Seq<(Seq<char>, nat)> {
    dedup_by(states.map_values(|s: StateView| (s.ident, s.substates.len())), ident_key())
}

/// The state structs: one per state name among the generated state types,
/// with one type parameter per substate.
pub open spec fn structs_spec(impls: Seq<ImplView>) -> Seq<(Seq<char>, nat)> {
    dedup_by(impls.map_values(|v: ImplView| (v.ident, v.substates.len())), ident_key())
}

/// A generated substate struct; `Any` is the one that stands for every
/// substate, the others are concrete.
pub struct SubStateDecl {
    pub name: String,
    pub is_any: bool,
}

impl SubStateDecl {
    pub open spec fn view(&self) -> (Seq<char>, bool) {
        (self.name@, self.is_any)
    }
}

pub open spec fn substate_decls_view(v: Seq<SubStateDecl>) -> Seq<(Seq<char>, bool)> {
    v.map_values(|d: SubStateDecl| d@)
}

/// Every substate named in the declared states, in order.
pub open spec fn declared_substates(states: Seq<StateView>) -> Seq<Seq<char>> {
    states.map_values(|s: StateView| s.substates).flatten_alt()
}

/// The substate structs: `Any` and every declared substate, once each.
pub open spec fn substates_spec(states: Seq<StateView>) -> Seq<(Seq<char>, bool)> {
    dedup_by(
        (seq![any_name()] + declared_substates(states)).map_values(|x: Seq<char>| (x, x == any_name())),
        |d: (Seq<char>, bool)| d.0,
    )
}

/// Substate structs: exactly the one named `Any` is the `Any` substate and
/// every other one is concrete; `Any` and every declared substate get a
/// struct, and no name gets two.
pub proof fn lemma_substate_kinds(states: Seq<StateView>)
    ensures
        forall|i: int|
            0 <= i < substates_spec(states).len() ==> (#[trigger] substates_spec(states)[i]).1 == (
            substates_spec(states)[i].0 == any_name()),
        has_key(substates_spec(states), |d: (Seq<char>, bool)| d.0, any_name()),
        forall|x: Seq<char>|
            #[trigger] declared_substates(states).contains(x) ==> has_key(
                substates_spec(states),
                |d: (Seq<char>, bool)| d.0,
                x,
            ),
        forall|i: int, j: int|
            0 <= i < j < substates_spec(states).len() ==> substates_spec(states)[i].0 != substates_spec(states)[j].0,
{
    let key = |d: (Seq<char>, bool)| d.0;
    let names = seq![any_name()] + declared_substates(states);
    let all = names.map_values(|x: Seq<char>| (x, x == any_name()));
    lemma_dedup_by(all, key);
    lemma_dedup_by_from(all, key);
    assert forall|i: int|
        0 <= i < substates_spec(states).len() implies (#[trigger] substates_spec(states)[i]).1 == (
        substates_spec(states)[i].0 == any_name()) by {
        let d = substates_spec(states)[i];
        assert(all.contains(d));
        let j = choose|j: int| 0 <= j < all.len() && all[j] == d;
        assert(all[j] == (names[j], names[j] == any_name()));
    }
    assert(key(all[0]) == any_name());
    assert(has_key(all, key, any_name()));
    assert forall|x: Seq<char>| #[trigger] declared_substates(states).contains(x) implies has_key(
        substates_spec(states),
        key,
        x,
    ) by {
        let j = choose|j: int| 0 <= j < declared_substates(states).len() && declared_substates(states)[j] == x;
        assert(names[j + 1] == x);
        assert(key(all[j + 1]) == x);
        assert(has_key(all, key, x));
    }
    assert forall|i: int, j: int|
        0 <= i < j < substates_spec(states).len() implies substates_spec(states)[i].0 != substates_spec(states)[j].0 by {
        assert(key(substates_spec(states)[i]) != key(substates_spec(states)[j]));
    }
}

/// Whether a declaration named `ident` is among `out`.
fn declared(out: &Vec<TypeDecl>, ident: &String) -> (b: bool)
    ensures
        b == has_key(decls_view(out@), ident_key(), ident@),
{
    let mut j: usize = 0;
    while j < out.len()
        invariant
            j <= out.len(),
            forall|m: int| 0 <= m < j ==> #[trigger] ident_key()(decls_view(out@)[m]) != ident@,
        decreases out.len() - j,
    {
        if out[j].ident == *ident {
            assert(ident_key()(decls_view(out@)[j as int]) == ident@);
            return true;
        }
        j = j + 1;
    }
    false
}

/// The `Merge` impl families: one per declared state name.
pub fn generate_merge_impls(states: &Vec<StateDecl>) -> (decls: Vec<TypeDecl>)
    ensures
        decls_view(decls@) == merge_impls_spec(states_view(states@)),
{
    let ghost all = states_view(states@).map_values(|s: StateView| (s.ident, s.substates.len()));
    let mut out: Vec<TypeDecl> = Vec::new();
    let mut i: usize = 0;
    while i < states.len()
        invariant
            i <= states.len(),
            all == states_view(states@).map_values(|s: StateView| (s.ident, s.substates.len())),
            decls_view(out@) == dedup_by(all.take(i as int), ident_key()),
        decreases states.len() - i,
    {
        let ghost prev = all.take(i as int);
        assert(all.take(i + 1).drop_last() =~= prev);
        assert(all.take(i + 1).last() == all[i as int]);
        assert(states_view(states@)[i as int] == states@[i as int]@);
        proof {
            lemma_dedup_by(prev, ident_key());
        }
        if !declared(&out, &states[i].ident) {
            let d = TypeDecl { ident: states[i].ident.clone(), arity: states[i].substates.len() };
            let ghost before = out@;
            out.push(d);
            assert(decls_view(out@) =~= decls_view(before).push(d@));
        }
        i = i + 1;
    }
    assert(all.take(states.len() as int) =~= all);
    out
}

/// The state structs: one per state name among the generated state types.
pub fn generate_state_structs(impls: &Vec<StateImpl>) -> (decls: Vec<TypeDecl>)
    ensures
        decls_view(decls@) == structs_spec(impls_view(impls@)),
{
    let ghost all = impls_view(impls@).map_values(|v: ImplView| (v.ident, v.substates.len()));
    let mut out: Vec<TypeDecl> = Vec::new();
    let mut i: usize = 0;
    while i < impls.len()
        invariant
            i <= impls.len(),
            all == impls_view(impls@).map_values(|v: ImplView| (v.ident, v.substates.len())),
            decls_view(out@) == dedup_by(all.take(i as int), ident_key()),
        decreases impls.len() - i,
    {
        let ghost prev = all.take(i as int);
        assert(all.take(i + 1).drop_last() =~= prev);
        assert(all.take(i + 1).last() == all[i as int]);
        assert(impls_view(impls@)[i as int] == impls@[i as int]@);
        proof {
            lemma_dedup_by(prev, ident_key());
        }
        if !declared(&out, &impls[i].state.ident) {
            let d = TypeDecl { ident: impls[i].state.ident.clone(), arity: impls[i].state.substates.len() };
            let ghost before = out@;
            out.push(d);
            assert(decls_view(out@) =~= decls_view(before).push(d@));
        }
        i = i + 1;
    }
    assert(all.take(impls.len() as int) =~= all);
    out
}

/// Whether a substate named `name` is among `out`.
fn substate_declared(out: &Vec<SubStateDecl>, name: &String) -> (b: bool)
    ensures
        b == has_key(substate_decls_view(out@), |d: (Seq<char>, bool)| d.0, name@),
{
    let ghost key = |d: (Seq<char>, bool)| d.0;
    let mut j: usize = 0;
    while j < out.len()
        invariant
            j <= out.len(),
            key == |d: (Seq<char>, bool)| d.0,
            forall|m: int| 0 <= m < j ==> #[trigger] key(substate_decls_view(out@)[m]) != name@,
        decreases out.len() - j,
    {
        if out[j].name == *name {
            assert(key(substate_decls_view(out@)[j as int]) == name@);
            return true;
        }
        j = j + 1;
    }
    false
}

/// The substate structs: `Any` and every declared substate, once each.
pub fn generate_substates(states: &Vec<StateDecl>) -> (decls: Vec<SubStateDecl>)
    ensures
        substate_decls_view(decls@) == substates_spec(states_view(states@)),
{
    let ghost sv = states_view(states@);
    let ghost key = |d: (Seq<char>, bool)| d.0;
    let ghost tag = |x: Seq<char>| (x, x == any_name());
    let any = any_string();
    let mut out: Vec<SubStateDecl> = Vec::new();
    out.push(SubStateDecl { name: any, is_any: true });
    let ghost first = seq![any_name()].map_values(tag);
    assert(dedup_by(first, key) =~= seq![(any_name(), true)]) by {
        assert(first.len() == 1);
        assert(first.last() == (any_name(), true));
        assert(first.drop_last() =~= Seq::<(Seq<char>, bool)>::empty());
        assert(dedup_by(first.drop_last(), key) =~= Seq::<(Seq<char>, bool)>::empty());
        assert(!has_key(first.drop_last(), key, key(first.last())));
    }
    assert(declared_substates(sv.take(0)) =~= Seq::<Seq<char>>::empty());
    assert((seq![any_name()] + declared_substates(sv.take(0))).map_values(tag) =~= first);
    let mut i: usize = 0;
    while i < states.len()
        invariant
            i <= states.len(),
            sv == states_view(states@),
            key == |d: (Seq<char>, bool)| d.0,
            tag == |x: Seq<char>| (x, x == any_name()),
            substate_decls_view(out@) == dedup_by(
                (seq![any_name()] + declared_substates(sv.take(i as int))).map_values(tag),
                key,
            ),
        decreases states.len() - i,
    {
        let s = &states[i];
        assert(sv[i as int] == s@);
        let mut j: usize = 0;
        while j < s.substates.len()
            invariant
                i < states.len(),
                s == states@[i as int],
                sv == states_view(states@),
                sv[i as int] == s@,
                j <= s.substates.len(),
                key == |d: (Seq<char>, bool)| d.0,
                tag == |x: Seq<char>| (x, x == any_name()),
                substate_decls_view(out@) == dedup_by(
                    (seq![any_name()] + declared_substates(sv.take(i as int)) + s@.substates.take(j as int)).map_values(tag),
                    key,
                ),
            decreases s.substates.len() - j,
        {
            let ghost prev = (seq![any_name()] + declared_substates(sv.take(i as int)) + s@.substates.take(j as int)).map_values(tag);
            let ghost next = (seq![any_name()] + declared_substates(sv.take(i as int)) + s@.substates.take(j + 1)).map_values(tag);
            let name = &s.substates[j];
            assert(s@.substates[j as int] == name@);
            assert(next =~= prev.push(tag(name@)));
            assert(next.drop_last() =~= prev);
            proof {
                lemma_dedup_by(prev, key);
            }
            if !substate_declared(&out, name) {
                let any = any_string();
                let d = SubStateDecl { name: name.clone(), is_any: *name == any };
                let ghost before = out@;
                out.push(d);
                assert(substate_decls_view(out@) =~= substate_decls_view(before).push(d@));
            }
            j = j + 1;
        }
        assert(s@.substates.take(s.substates.len() as int) =~= s@.substates);
        assert(sv.take(i + 1).map_values(|t: StateView| t.substates).drop_last() =~= sv.take(i as int).map_values(|t: StateView| t.substates));
        assert(declared_substates(sv.take(i + 1)) =~= declared_substates(sv.take(i as int)) + s@.substates);
        assert(seq![any_name()] + declared_substates(sv.take(i + 1)) =~= seq![any_name()] + declared_substates(
            sv.take(i as int),
        ) + s@.substates.take(s.substates.len() as int));
        i = i + 1;
    }
    assert(sv.take(states.len() as int) =~= sv);
    out
}

/// Everything generated for the declared states: the `Merge` impl families,
/// the state structs, the state types with their impls, and the substate
/// structs.
pub struct StatesPlan {
    pub merge_impls: Vec<TypeDecl>,
    pub structs: Vec<TypeDecl>,
    pub impls: Vec<StateImpl>,
    pub substates: Vec<SubStateDecl>,
}

/// Plans the code generated for the declared states. A state name first
/// declared with more than two substates is not supported.
pub fn generate_states(states: &Vec<StateDecl>) -> (plan: StatesPlan)
    requires
        forall|i: int| 0 <= i < states.len() ==> #[trigger] states@[i].substates.len() + 2 <= usize::MAX,
        forall|m: int|
            0 <= m < merge_impls_spec(states_view(states@)).len() ==> #[trigger] merge_impls_spec(
                states_view(states@),
            )[m].1 <= 2,
    ensures
        decls_view(plan.merge_impls@) == merge_impls_spec(states_view(states@)),
        impls_view(plan.impls@) == dedup_by(candidates(states_view(states@), states@.len() as int), impl_key()),
        decls_view(plan.structs@) == structs_spec(impls_view(plan.impls@)),
        substate_decls_view(plan.substates@) == substates_spec(states_view(states@)),
{
    let merge_impls = generate_merge_impls(states);
    let impls = generate_state_impls(states);
    let structs = generate_state_structs(&impls);
    let substates = generate_substates(states);
    StatesPlan { merge_impls, structs, impls, substates }
}

} // verus!
