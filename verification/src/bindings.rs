use vstd::prelude::*;
use crate::generate::ConcreteState;
use crate::seqs::{dedup_by, has_key, lemma_dedup_by};
use crate::states::{any_name, any_string, names, Register, RegisterType, RegisterTypeView, RegisterView, StateDecl, StateView};
use crate::text::{concat, decimal, lowercase, lowercased, push_decimal};

verus! {

/// How many of the first `j` substates are `Any`.
pub open spec fn any_count(subs: Seq<Seq<char>>, j: int) -> nat
    decreases j,
{
    if j <= 0 {
        0
    } else {
        any_count(subs, j - 1) + if subs[j - 1] == any_name() { 1nat } else { 0nat }
    }
}

/// The substates with each `Any` replaced by a type parameter named `seed`
/// and its number among the `Any`s (`T0`, `T1`, ...).
pub open spec fn map_any_substates(subs: Seq<Seq<char>>, seed: Seq<char>) -> Seq<Seq<char>> {
    Seq::new(
        subs.len(),
        |j: int| if subs[j] == any_name() { seed + decimal(any_count(subs, j)) } else { subs[j] },
    )
}

/// Replacing `Any` substates by type parameters leaves no `Any`, keeps every
/// other substate, and makes as many parameters as there were `Any`s.
pub proof fn lemma_map_any_substates(subs: Seq<Seq<char>>)
    ensures
        map_any_substates(subs, generic_seed()).len() == subs.len(),
        forall|j: int| 0 <= j < subs.len() ==> #[trigger] map_any_substates(subs, generic_seed())[j] != any_name(),
        forall|j: int|
            0 <= j < subs.len() && subs[j] != any_name() ==> #[trigger] map_any_substates(subs, generic_seed())[j] == subs[j],
{
    assert forall|j: int| 0 <= j < subs.len() implies #[trigger] map_any_substates(subs, generic_seed())[j] != any_name() by {
        if subs[j] == any_name() {
            let g = generic_seed() + decimal(any_count(subs, j));
            assert(g[0] == 'T');
            assert(any_name()[0] == 'A');
        }
    }
}

/// The seed of generated type parameters.
pub open spec fn generic_seed() -> Seq<char> {
    seq!['T']
}

/// A state with its `Any` substates replaced by type parameters, and the
/// number of parameters.
pub fn map_any(state: &StateDecl) -> (r: (ConcreteState, usize))
    requires
        state.substates.len() < usize::MAX,
    ensures
        r.0@ == (state@.ident, map_any_substates(state@.substates, generic_seed())),
        r.1 == any_count(state@.substates, state@.substates.len() as int),
{
    let any = any_string();
    let ghost subs = state@.substates;
    let mut out: Vec<String> = Vec::new();
    let mut count: usize = 0;
    let mut j: usize = 0;
    proof {
        reveal_strlit("T");
    }
    while j < state.substates.len()
        invariant
            j <= state.substates.len(),
            state.substates.len() < usize::MAX,
            subs == state@.substates,
            any@ == any_name(),
            count == any_count(subs, j as int),
            count <= j,
            names(out@) == map_any_substates(subs, generic_seed()).take(j as int),
        decreases state.substates.len() - j,
    {
        let ghost old_out = out@;
        assert(subs[j as int] == state.substates@[j as int]@);
        let x = if state.substates[j] == any {
            let mut g = String::from_str("T");
            proof {
                reveal_strlit("T");
            }
            assert(g@ =~= generic_seed());
            push_decimal(&mut g, count);
            count = count + 1;
            g
        } else {
            state.substates[j].clone()
        };
        assert(x@ == map_any_substates(subs, generic_seed())[j as int]);
        out.push(x);
        assert(names(out@) =~= names(old_out).push(x@));
        assert(names(out@) =~= map_any_substates(subs, generic_seed()).take(j + 1));
        j = j + 1;
    }
    assert(map_any_substates(subs, generic_seed()).take(j as int) =~= map_any_substates(subs, generic_seed()));
    (ConcreteState { ident: state.ident.clone(), substates: out }, count)
}

/// A state as it stands, with no type parameters.
pub fn concrete(state: &StateDecl) -> (r: ConcreteState)
    ensures
        r@ == (state@.ident, state@.substates),
{
    let subs = crate::states::copy_names(&state.substates);
    ConcreteState { ident: state.ident.clone(), substates: subs }
}

/// Whether some substate is `Any` exactly when some `Any` has been counted.
pub proof fn lemma_any_count_contains(subs: Seq<Seq<char>>, j: int)
    requires
        0 <= j <= subs.len(),
    ensures
        (any_count(subs, j) > 0) == (exists|m: int| 0 <= m < j && subs[m] == any_name()),
    decreases j,
{
    if j > 0 {
        lemma_any_count_contains(subs, j - 1);
        if subs[j - 1] == any_name() {
            assert(0 <= j - 1 < j && subs[j - 1] == any_name());
        }
    }
}

/// The accessors generated for a register that does not change state.
#[derive(Clone, Copy, Debug, PartialEq, Eq, Structural)]
pub enum RegisterAccess {
    /// `get`.
    ReadOnly,
    /// `set` and `write`.
    WriteOnly,
    /// `get`, `set`, `write` and `is_set`.
    ReadWrite,
    /// `get`, `set`, `write` and `is_set` on a state-changing register.
    StateChangeRW,
}

/// One state in which a register's accessors are implemented: the register
/// block in `state`, generic over `generics` substate parameters `T0`, `T1`,
/// ...
pub struct AccessState {
    pub state: ConcreteState,
    pub generics: usize,
}

impl AccessState {
    pub open spec fn view(&self) -> ((Seq<char>, Seq<Seq<char>>), nat) {
        (self.state@, self.generics as nat)
    }
}

/// The mathematical values of a list of access states.
pub open spec fn access_states_view(v: Seq<AccessState>) -> Seq<((Seq<char>, Seq<Seq<char>>), nat)> {
    v.map_values(|a: AccessState| a@)
}

/// Accessors of a register, implemented for the register block in each of
/// `states`.
pub struct AccessBinding {
    pub access: RegisterAccess,
    pub bitwidth: String,
    pub register_shortname: String,
    pub states: Vec<AccessState>,
}

/// A state change through register `field`: the trait `trait_name` with its
/// method `fn_name`, which writes `instruction` and moves the register block
/// from each of `from_states` to `to_state`. When `generic`, the trait and
/// its impls take a substate parameter for an `Any` substate.
pub struct StateChangeBinding {
    pub trait_name: String,
    pub fn_name: String,
    pub field: String,
    pub instruction: Vec<String>,
    pub generic: bool,
    pub to_state: ConcreteState,
    pub from_states: Vec<ConcreteState>,
}

/// What is generated for one register attribute.
pub enum RegisterBinding {
    Access(AccessBinding),
    StateChange(StateChangeBinding),
}

pub ghost enum BindingView {
    Access {
        access: RegisterAccess,
        bitwidth: Seq<char>,
        register_shortname: Seq<char>,
        states: Seq<((Seq<char>, Seq<Seq<char>>), nat)>,
    },
    StateChange {
        trait_name: Seq<char>,
        fn_name: Seq<char>,
        field: Seq<char>,
        instruction: Seq<Seq<char>>,
        generic: bool,
        to_state: (Seq<char>, Seq<Seq<char>>),
        from_states: Seq<(Seq<char>, Seq<Seq<char>>)>,
    },
}

pub open spec fn concretes_view(v: Seq<ConcreteState>) -> Seq<(Seq<char>, Seq<Seq<char>>)> {
    v.map_values(|c: ConcreteState| c@)
}

impl RegisterBinding {
    pub open spec fn view(&self) -> BindingView {
        match self {
            RegisterBinding::Access(a) => BindingView::Access {
                access: a.access,
                bitwidth: a.bitwidth@,
                register_shortname: a.register_shortname@,
                states: access_states_view(a.states@),
            },
            RegisterBinding::StateChange(c) => BindingView::StateChange {
                trait_name: c.trait_name@,
                fn_name: c.fn_name@,
                field: c.field@,
                instruction: names(c.instruction@),
                generic: c.generic,
                to_state: c.to_state@,
                from_states: concretes_view(c.from_states@),
            },
        }
    }
}

pub open spec fn bindings_view(v: Seq<RegisterBinding>) -> Seq<BindingView> {
    v.map_values(|b: RegisterBinding| b@)
}

/// A state with its `Any` substates made type parameters.
pub open spec fn mapped(v: StateView) -> (Seq<char>, Seq<Seq<char>>) {
    (v.ident, map_any_substates(v.substates, generic_seed()))
}

/// A state as declared.
pub open spec fn plain(v: StateView) -> (Seq<char>, Seq<Seq<char>>) {
    (v.ident, v.substates)
}

/// `Step`, which begins a state-change trait's name.
pub open spec fn step_prefix() -> Seq<char> {
    seq!['S', 't', 'e', 'p']
}

/// `into_`, which begins a state-change method's name.
pub open spec fn into_prefix() -> Seq<char> {
    seq!['i', 'n', 't', 'o', '_']
}

/// A valid state in which accessors are implemented: the state with each
/// `Any` substate made its own type parameter, and the number of parameters.
pub open spec fn access_state(v: StateView) -> ((Seq<char>, Seq<Seq<char>>), nat) {
    (mapped(v), any_count(v.substates, v.substates.len() as int))
}

/// What is generated for a register: for a register that does not change
/// state, its accessors on the register block in each of its valid states
/// (with type parameters for `Any` substates); for a state-changing register, the
/// trait `Step<shortname>` with method `into_<shortname in lowercase>`,
/// implemented for every valid state, generic when the first valid state has
/// an `Any` substate.
pub open spec fn binding_spec(r: RegisterView) -> BindingView {
    let first = r.valid_states[0];
    let generic = first.substates.contains(any_name());
    let states = r.valid_states.map_values(|v: StateView| access_state(v));
    match r.register_type {
        RegisterTypeView::ReadOnly => BindingView::Access {
            access: RegisterAccess::ReadOnly,
            bitwidth: r.register_bitwidth,
            register_shortname: r.register_shortname,
            states,
        },
        RegisterTypeView::WriteOnly => BindingView::Access {
            access: RegisterAccess::WriteOnly,
            bitwidth: r.register_bitwidth,
            register_shortname: r.register_shortname,
            states,
        },
        RegisterTypeView::ReadWrite => BindingView::Access {
            access: RegisterAccess::ReadWrite,
            bitwidth: r.register_bitwidth,
            register_shortname: r.register_shortname,
            states,
        },
        RegisterTypeView::StateChangeRW => BindingView::Access {
            access: RegisterAccess::StateChangeRW,
            bitwidth: r.register_bitwidth,
            register_shortname: r.register_shortname,
            states,
        },
        RegisterTypeView::StateChange(target, instruction, shortname) => BindingView::StateChange {
            trait_name: step_prefix() + shortname,
            fn_name: into_prefix() + lowercase(shortname),
            field: r.name,
            instruction,
            generic,
            to_state: if generic { mapped(target) } else { plain(target) },
            from_states: r.valid_states.map_values(
                |v: StateView| if generic { mapped(v) } else { plain(v) },
            ),
        },
    }
}

/// Each register type gets bindings of its own kind: a read-only register
/// accessors that only read, a write-only one accessors that only write, a
/// read-write one both, a state-changing read-write one the state-change
/// accessors, and a state-changing register a state change; the accessors
/// are implemented in every valid state, in order, with each `Any` substate
/// a type parameter, and a state change is the register's own, moving to the
/// named state.
pub proof fn lemma_binding_kinds(r: RegisterView)
    ensures
        r.register_type is ReadOnly ==> (binding_spec(r) matches BindingView::Access { access, .. }
            && access == RegisterAccess::ReadOnly),
        r.register_type is WriteOnly ==> (binding_spec(r) matches BindingView::Access { access, .. }
            && access == RegisterAccess::WriteOnly),
        r.register_type is ReadWrite ==> (binding_spec(r) matches BindingView::Access { access, .. }
            && access == RegisterAccess::ReadWrite),
        r.register_type is StateChangeRW ==> (binding_spec(r) matches BindingView::Access { access, .. }
            && access == RegisterAccess::StateChangeRW),
        !(r.register_type is StateChange) ==> (binding_spec(r) matches BindingView::Access { bitwidth, register_shortname, states, .. }
            && bitwidth == r.register_bitwidth && register_shortname == r.register_shortname
            && states.len() == r.valid_states.len()
            && forall|i: int| 0 <= i < states.len() ==> {
                &&& (#[trigger] states[i]).0.0 == r.valid_states[i].ident
                &&& states[i].0.1.len() == r.valid_states[i].substates.len()
                &&& forall|j: int| 0 <= j < states[i].0.1.len() ==> #[trigger] states[i].0.1[j] != any_name()
            }),
        r.register_type matches RegisterTypeView::StateChange(target, instruction, shortname) ==> (binding_spec(r) matches BindingView::StateChange {
            field, instruction: i2, to_state, from_states, ..
        } && field == r.name && i2 == instruction && to_state.0 == target.ident
            && from_states.len() == r.valid_states.len()),
{
    if !(r.register_type is StateChange) {
        assert forall|i: int| 0 <= i < r.valid_states.len() implies forall|j: int|
            0 <= j < map_any_substates(#[trigger] r.valid_states[i].substates, generic_seed()).len()
                ==> map_any_substates(r.valid_states[i].substates, generic_seed())[j] != any_name() by {
            lemma_map_any_substates(r.valid_states[i].substates);
        }
    }
}

/// A register's attributes can be turned into bindings: it names a valid
/// state, and no state has more substates than can be counted.
pub open spec fn register_well_formed(r: &Register) -> bool {
    &&& r.valid_states@.len() > 0
    &&& forall|i: int| 0 <= i < r.valid_states@.len() ==> #[trigger] r.valid_states@[i].substates@.len() < usize::MAX
    &&& r.register_type matches RegisterType::StateChange(target, _, _) ==> target.substates@.len() < usize::MAX
}

/// The name of the method of a state change named `shortname`, given
/// `shortname` in lowercase: `into_<lowered>`.
pub fn state_change_fn_name(lowered: &String) -> (r: String)
    ensures
        r@ == into_prefix() + lowered@,
{
    proof {
        reveal_strlit("into_");
    }
    let r = concat("into_", lowered);
    assert(r@ =~= into_prefix() + lowered@);
    r
}

/// The name of the trait of a state change named `shortname`:
/// `Step<shortname>`.
pub fn state_change_trait_name(shortname: &String) -> (r: String)
    ensures
        r@ == step_prefix() + shortname@,
{
    proof {
        reveal_strlit("Step");
    }
    let r = concat("Step", shortname);
    assert(r@ =~= step_prefix() + shortname@);
    r
}

/// What is generated for one register attribute.
pub fn generate_register_op_bindings(r: &Register) -> (b: RegisterBinding)
    requires
        register_well_formed(r),
    ensures
        b@ == binding_spec(r@),
{
    let first = &r.valid_states[0];
    assert(r.valid_states@[0].substates@.len() < usize::MAX);
    let (_, count) = map_any(first);
    proof {
        lemma_any_count_contains(first@.substates, first@.substates.len() as int);
        assert(first@.substates.contains(any_name()) == (exists|m: int| 0 <= m < first@.substates.len() && first@.substates[m] == any_name()));
    }
    let ghost af = |v: StateDecl| access_state(v@);
    let ghost ag = |v: StateView| access_state(v);
    assert(r@.valid_states.map_values(ag) =~= r.valid_states@.map_values(af));
    let mut states: Vec<AccessState> = Vec::new();
    let mut k: usize = 0;
    while k < r.valid_states.len()
        invariant
            k <= r.valid_states.len(),
            register_well_formed(r),
            af == |v: StateDecl| access_state(v@),
            access_states_view(states@) == r.valid_states@.map_values(af).take(k as int),
        decreases r.valid_states.len() - k,
    {
        assert(r.valid_states@[k as int].substates@.len() < usize::MAX);
        let (st, n) = map_any(&r.valid_states[k]);
        let a = AccessState { state: st, generics: n };
        let ghost old_states = states@;
        states.push(a);
        assert(access_states_view(states@) =~= access_states_view(old_states).push(a@));
        assert(access_states_view(states@) =~= r.valid_states@.map_values(af).take(k + 1));
        k = k + 1;
    }
    assert(r.valid_states@.map_values(af).take(k as int) =~= r.valid_states@.map_values(af));
    match &r.register_type {
        RegisterType::ReadOnly => RegisterBinding::Access(AccessBinding {
            access: RegisterAccess::ReadOnly,
            bitwidth: r.register_bitwidth.clone(),
            register_shortname: r.register_shortname.clone(),
            states,
        }),
        RegisterType::WriteOnly => RegisterBinding::Access(AccessBinding {
            access: RegisterAccess::WriteOnly,
            bitwidth: r.register_bitwidth.clone(),
            register_shortname: r.register_shortname.clone(),
            states,
        }),
        RegisterType::ReadWrite => RegisterBinding::Access(AccessBinding {
            access: RegisterAccess::ReadWrite,
            bitwidth: r.register_bitwidth.clone(),
            register_shortname: r.register_shortname.clone(),
            states,
        }),
        RegisterType::StateChangeRW => RegisterBinding::Access(AccessBinding {
            access: RegisterAccess::StateChangeRW,
            bitwidth: r.register_bitwidth.clone(),
            register_shortname: r.register_shortname.clone(),
            states,
        }),
        RegisterType::StateChange(target, instruction, shortname) => {
            let generic = count > 0;
            let trait_name = state_change_trait_name(shortname);
            let lowered = lowercased(shortname);
            let fn_name = state_change_fn_name(&lowered);
            let to_state = if generic {
                map_any(target).0
            } else {
                concrete(target)
            };
            let ghost f = |v: StateDecl| if generic { mapped(v@) } else { plain(v@) };
            let ghost g = |v: StateView| if generic { mapped(v) } else { plain(v) };
            assert(r@.valid_states.map_values(g) =~= r.valid_states@.map_values(f));
            let mut from_states: Vec<ConcreteState> = Vec::new();
            let mut i: usize = 0;
            while i < r.valid_states.len()
                invariant
                    i <= r.valid_states.len(),
                    register_well_formed(r),
                    f == |v: StateDecl| if generic { mapped(v@) } else { plain(v@) },
                    concretes_view(from_states@) == r.valid_states@.map_values(f).take(i as int),
                decreases r.valid_states.len() - i,
            {
                assert(r.valid_states@[i as int].substates@.len() < usize::MAX);
                let c = if generic {
                    map_any(&r.valid_states[i]).0
                } else {
                    concrete(&r.valid_states[i])
                };
                let ghost old_from = from_states@;
                from_states.push(c);
                assert(concretes_view(from_states@) =~= concretes_view(old_from).push(c@));
                assert(concretes_view(from_states@) =~= r.valid_states@.map_values(f).take(i + 1));
                i = i + 1;
            }
            assert(r.valid_states@.map_values(f).take(i as int) =~= r.valid_states@.map_values(f));
            let instr = crate::states::copy_names(instruction);
            RegisterBinding::StateChange(StateChangeBinding {
                trait_name,
                fn_name,
                field: r.name.clone(),
                instruction: instr,
                generic,
                to_state,
                from_states,
            })
        },
    }
}

/// Whether two states with concrete substates are the same.
pub fn same_concrete(a: &ConcreteState, b: &ConcreteState) -> (r: bool)
    ensures
        r == (a@ == b@),
{
    a.ident == b.ident && crate::states::same_names(&a.substates, &b.substates)
}

/// Whether two lists of states with concrete substates are the same.
pub fn same_concretes(a: &Vec<ConcreteState>, b: &Vec<ConcreteState>) -> (r: bool)
    ensures
        r == (concretes_view(a@) == concretes_view(b@)),
{
    if a.len() != b.len() {
        assert(concretes_view(a@).len() != concretes_view(b@).len());
        return false;
    }
    let mut i: usize = 0;
    while i < a.len()
        invariant
            i <= a.len(),
            a.len() == b.len(),
            forall|j: int| 0 <= j < i ==> concretes_view(a@)[j] == concretes_view(b@)[j],
        decreases a.len() - i,
    {
        if !same_concrete(&a[i], &b[i]) {
            assert(concretes_view(a@)[i as int] != concretes_view(b@)[i as int]);
            return false;
        }
        i = i + 1;
    }
    assert(concretes_view(a@) =~= concretes_view(b@));
    true
}

/// Whether two lists of access states are the same.
pub fn same_access_states(a: &Vec<AccessState>, b: &Vec<AccessState>) -> (r: bool)
    ensures
        r == (access_states_view(a@) == access_states_view(b@)),
{
    if a.len() != b.len() {
        assert(access_states_view(a@).len() != access_states_view(b@).len());
        return false;
    }
    let mut i: usize = 0;
    while i < a.len()
        invariant
            i <= a.len(),
            a.len() == b.len(),
            forall|j: int| 0 <= j < i ==> access_states_view(a@)[j] == access_states_view(b@)[j],
        decreases a.len() - i,
    {
        if !same_concrete(&a[i].state, &b[i].state) || a[i].generics != b[i].generics {
            assert(access_states_view(a@)[i as int] != access_states_view(b@)[i as int]);
            return false;
        }
        i = i + 1;
    }
    assert(access_states_view(a@) =~= access_states_view(b@));
    true
}

/// Whether two bindings generate the same code.
pub fn same_binding(a: &RegisterBinding, b: &RegisterBinding) -> (r: bool)
    ensures
        r == (a@ == b@),
{
    match (a, b) {
        (RegisterBinding::Access(x), RegisterBinding::Access(y)) => {
            x.access == y.access && x.bitwidth == y.bitwidth && x.register_shortname == y.register_shortname
                && same_access_states(&x.states, &y.states)
        },
        (RegisterBinding::StateChange(x), RegisterBinding::StateChange(y)) => {
            x.trait_name == y.trait_name && x.fn_name == y.fn_name && x.field == y.field
                && crate::states::same_names(&x.instruction, &y.instruction) && x.generic == y.generic
                && same_concrete(&x.to_state, &y.to_state) && same_concretes(&x.from_states, &y.from_states)
        },
        _ => false,
    }
}

} // verus!
