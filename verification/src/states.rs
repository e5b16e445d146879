use vstd::prelude::*;

verus! {

/// A power state as declared to the register-block generator:
/// `Ident(Sub, ..) => [Transitions, ..] {Shortname}`.
pub struct StateDecl {
    /// The state's name, e.g. `Active`.
    pub ident: String,
    /// The name of the state's variant in the stored-state enum, e.g.
    /// `ActiveIdle`; the state's name when none is given.
    pub shortname: String,
    /// The substates, e.g. `RxIdle, TxIdle`; `Any` stands for every substate.
    pub substates: Vec<String>,
    /// The states this state may move to.
    pub transitions: Vec<StateDecl>,
}

/// The mathematical value of a declared state.
pub ghost struct StateView {
    pub ident: Seq<char>,
    pub shortname: Seq<char>,
    pub substates: Seq<Seq<char>>,
    pub transitions: Seq<StateView>,
}

/// The name that stands for every substate.
pub open spec fn any_name() -> Seq<char> {
    seq!['A', 'n', 'y']
}

/// The names of a list of strings.
pub open spec fn names(v: Seq<String>) -> Seq<Seq<char>> {
    v.map_values(|s: String| s@)
}

/// The mathematical values of a list of declared states.
pub open spec fn states_view(v: Seq<StateDecl>) -> Seq<StateView> {
    v.map_values(|s: StateDecl| s@)
}

impl StateDecl {
    pub open spec fn view(&self) -> StateView
        decreases self,
    {
        StateView {
            ident: self.ident@,
            shortname: self.shortname@,
            substates: names(self.substates@),
            transitions: Seq::new(
                self.transitions@.len(),
                |i: int|
                    if 0 <= i < self.transitions@.len() {
                        self.transitions@[i].view()
                    } else {
                        arbitrary()
                    },
            ),
        }
    }
}

/// Two states can be merged when they are the same state (their substates
/// may differ).
pub open spec fn spec_is_mergeable(a: StateView, b: StateView) -> bool {
    a.ident == b.ident
}

/// Whether substates at one position agree: equal, or one of them `Any`.
pub open spec fn substates_compatible(x: Seq<char>, y: Seq<char>) -> bool {
    x == y || x == any_name() || y == any_name()
}

/// A stored state can be taken as an expected state when they are the same
/// state and, position by position over the substates both have, the
/// substates are equal or one of them is `Any`.
pub open spec fn spec_is_valid_into(a: StateView, b: StateView) -> bool {
    valid_into_parts(a.ident, a.substates, b)
}

/// `spec_is_valid_into` for a state given by its name and substates.
pub open spec fn valid_into_parts(ident: Seq<char>, substates: Seq<Seq<char>>, b: StateView) -> bool {
    &&& ident == b.ident
    &&& forall|i: int|
        0 <= i < substates.len() && i < b.substates.len() ==> #[trigger] substates_compatible(
            substates[i],
            b.substates[i],
        )
}

/// Mergeability and validity relate states symmetrically; a state is valid
/// into itself; states one is valid into are mergeable with it.
pub proof fn lemma_state_relations(a: StateView, b: StateView)
    ensures
        spec_is_mergeable(a, b) == spec_is_mergeable(b, a),
        spec_is_valid_into(a, b) == spec_is_valid_into(b, a),
        spec_is_valid_into(a, a),
        spec_is_valid_into(a, b) ==> spec_is_mergeable(a, b),
{
    assert(spec_is_valid_into(a, b) ==> spec_is_valid_into(b, a)) by {
        if spec_is_valid_into(a, b) {
            assert forall|i: int| 0 <= i < b.substates.len() && i < a.substates.len() implies #[trigger] substates_compatible(
                b.substates[i],
                a.substates[i],
            ) by {
                assert(substates_compatible(a.substates[i], b.substates[i]));
            }
        }
    }
    assert(spec_is_valid_into(b, a) ==> spec_is_valid_into(a, b)) by {
        if spec_is_valid_into(b, a) {
            assert forall|i: int| 0 <= i < a.substates.len() && i < b.substates.len() implies #[trigger] substates_compatible(
                a.substates[i],
                b.substates[i],
            ) by {
                assert(substates_compatible(b.substates[i], a.substates[i]));
            }
        }
    }
}

/// A `String` holding the text of `s`.
pub fn text(s: &str) -> (r: String)
    ensures
        r@ == s@,
{
    String::from_str(s)
}

/// A `String` holding `Any`.
pub fn any_string() -> (r: String)
    ensures
        r@ == any_name(),
{
    let r = String::from_str("Any");
    proof {
        reveal_strlit("Any");
    }
    assert(r@ =~= any_name());
    r
}

/// Whether two states can be merged: they are the same state.
pub fn is_mergeable(state1: &StateDecl, state2: &StateDecl) -> (b: bool)
    ensures
        b == spec_is_mergeable(state1@, state2@),
{
    state1.ident == state2.ident
}

/// Whether a state can be taken as another: the same state whose substates
/// agree wherever neither is `Any`.
pub fn is_valid_into(state1: &StateDecl, state2: &StateDecl) -> (b: bool)
    ensures
        b == spec_is_valid_into(state1@, state2@),
{
    parts_valid_into(&state1.ident, &state1.substates, state2)
}

/// `is_valid_into` for a state given by its name and substates.
pub fn parts_valid_into(ident: &String, substates: &Vec<String>, state2: &StateDecl) -> (b: bool)
    ensures
        b == valid_into_parts(ident@, names(substates@), state2@),
{
    if *ident != state2.ident {
        return false;
    }
    let any = any_string();
    let n: usize = if substates.len() < state2.substates.len() {
        substates.len()
    } else {
        state2.substates.len()
    };
    let mut i: usize = 0;
    while i < n
        invariant
            i <= n,
            n <= substates.len(),
            n <= state2.substates.len(),
            n == substates.len() || n == state2.substates.len(),
            any@ == any_name(),
            ident@ == state2.ident@,
            forall|j: int|
                0 <= j < i ==> #[trigger] substates_compatible(
                    names(substates@)[j],
                    names(state2.substates@)[j],
                ),
        decreases n - i,
    {
        let s1 = &substates[i];
        let s2 = &state2.substates[i];
        if *s1 != *s2 {
            if *s1 != any && *s2 != any {
                assert(names(substates@)[i as int] == s1@);
                assert(names(state2.substates@)[i as int] == s2@);
                assert(!substates_compatible(names(substates@)[i as int], state2@.substates[i as int]));
                return false;
            }
        }
        i = i + 1;
    }
    true
}

/// A copy of a list of names.
pub fn copy_names(v: &Vec<String>) -> (r: Vec<String>)
    ensures
        r@ == v@,
{
    let mut r: Vec<String> = Vec::new();
    let mut i: usize = 0;
    while i < v.len()
        invariant
            i <= v.len(),
            r@ == v@.take(i as int),
        decreases v.len() - i,
    {
        r.push(v[i].clone());
        assert(r@ =~= v@.take(i + 1));
        i = i + 1;
    }
    assert(r@ =~= v@);
    r
}

/// Whether two lists of names are equal.
pub fn same_names(a: &Vec<String>, b: &Vec<String>) -> (r: bool)
    ensures
        r == (names(a@) == names(b@)),
{
    if a.len() != b.len() {
        assert(names(a@).len() != names(b@).len());
        return false;
    }
    let mut i: usize = 0;
    while i < a.len()
        invariant
            i <= a.len(),
            a.len() == b.len(),
            forall|j: int| 0 <= j < i ==> names(a@)[j] == names(b@)[j],
        decreases a.len() - i,
    {
        if a[i] != b[i] {
            assert(names(a@)[i as int] != names(b@)[i as int]);
            return false;
        }
        i = i + 1;
    }
    assert(names(a@) =~= names(b@));
    true
}

/// How a register of a register block may be used.
pub enum RegisterType {
    ReadOnly,
    WriteOnly,
    ReadWrite,
    /// Writing `instruction` to the register moves the peripheral to `state`;
    /// the move is named by `shortname`.
    StateChange(StateDecl, Vec<String>, String),
    StateChangeRW,
}

/// One register of a register block with its attributes: the states in which
/// it may be used and how.
pub struct Register {
    pub name: String,
    pub valid_states: Vec<StateDecl>,
    pub register_shortname: String,
    pub register_type: RegisterType,
    pub register_bitwidth: String,
}

/// The mathematical value of a register with its attributes.
pub ghost struct RegisterView {
    pub name: Seq<char>,
    pub valid_states: Seq<StateView>,
    pub register_shortname: Seq<char>,
    pub register_type: RegisterTypeView,
    pub register_bitwidth: Seq<char>,
}

impl Register {
    pub open spec fn view(&self) -> RegisterView {
        RegisterView {
            name: self.name@,
            valid_states: states_view(self.valid_states@),
            register_shortname: self.register_shortname@,
            register_type: self.register_type@,
            register_bitwidth: self.register_bitwidth@,
        }
    }
}

/// The mathematical value of a register type.
pub ghost enum RegisterTypeView {
    ReadOnly,
    WriteOnly,
    ReadWrite,
    StateChange(StateView, Seq<Seq<char>>, Seq<char>),
    StateChangeRW,
}

impl RegisterType {
    pub open spec fn view(&self) -> RegisterTypeView {
        match self {
            RegisterType::ReadOnly => RegisterTypeView::ReadOnly,
            RegisterType::WriteOnly => RegisterTypeView::WriteOnly,
            RegisterType::ReadWrite => RegisterTypeView::ReadWrite,
            RegisterType::StateChange(s, path, short) => RegisterTypeView::StateChange(s@, names(path@), short@),
            RegisterType::StateChangeRW => RegisterTypeView::StateChangeRW,
        }
    }

    /// The name the register type's wrapper struct starts with.
    pub open spec fn spec_ident(&self) -> Seq<char> {
        match self {
            RegisterType::ReadOnly => seq!['R', 'e', 'a', 'd', 'O', 'n', 'l', 'y'],
            RegisterType::WriteOnly => seq!['W', 'r', 'i', 't', 'e', 'O', 'n', 'l', 'y'],
            RegisterType::ReadWrite => seq!['R', 'e', 'a', 'd', 'W', 'r', 'i', 't', 'e'],
            _ => seq!['S', 't', 'a', 't', 'e', 'C', 'h', 'a', 'n', 'g', 'e'],
        }
    }

    /// The name the register type's wrapper struct starts with: `ReadOnly`,
    /// `WriteOnly`, `ReadWrite`, or `StateChange` for both state-changing
    /// types.
    pub fn to_ident(&self) -> (r: String)
        ensures
            r@ == self.spec_ident(),
    {
        let r = match self {
            RegisterType::ReadOnly => {
                proof { reveal_strlit("ReadOnly"); }
                String::from_str("ReadOnly")
            },
            RegisterType::WriteOnly => {
                proof { reveal_strlit("WriteOnly"); }
                String::from_str("WriteOnly")
            },
            RegisterType::ReadWrite => {
                proof { reveal_strlit("ReadWrite"); }
                String::from_str("ReadWrite")
            },
            _ => {
                proof { reveal_strlit("StateChange"); }
                String::from_str("StateChange")
            },
        };
        assert(r@ =~= self.spec_ident());
        r
    }
}

} // verus!
