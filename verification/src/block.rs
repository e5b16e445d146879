use vstd::prelude::*;
use crate::bindings::{
    binding_spec, bindings_view, generate_register_op_bindings, register_well_formed, same_binding,
    RegisterBinding,
};
use crate::generate::{
    candidates, decls_view, generate_states, impl_key, impls_view, lemma_generated_state_types, merge_impls_spec,
    structs_spec, substate_decls_view, substates_spec, ConcreteState, StatesPlan,
};
use crate::parse::{
    macro_input, parse_register_attributes, spec_macro_input,
    spec_register_attributes, tokens_view, ParseError, Token, TokenView,
};
use crate::seqs::{dedup_by, has_key, lemma_dedup_by};
use crate::states::{states_view, names, Register, RegisterTypeView, RegisterView, StateDecl, StateView};
use crate::text::{with_suffix};

verus! {

/// A generic argument of a register field's type, e.g. `u32` or
/// `Task::Register`: its text, and the name of its first path segment when it
/// is a path type.
pub struct TypeArg {
    pub text: String,
    pub path_head: Option<String>,
}

/// A field of the register-block struct given to the generator: its name, the
/// contents of each of its `RegAttributes(..)` attributes, and the generic
/// arguments of its type (`None` when the type is not a path whose last
/// segment has angle-bracketed arguments).
pub struct FieldInput {
    pub name: String,
    pub reg_attributes: Vec<Vec<Token>>,
    pub type_args: Option<Vec<TypeArg>>,
}

pub ghost struct FieldInputView {
    pub name: Seq<char>,
    pub attrs: Seq<Seq<TokenView>>,
    pub type_args: Option<Seq<(Seq<char>, Option<Seq<char>>)>>,
}

impl TypeArg {
    pub open spec fn view(&self) -> (Seq<char>, Option<Seq<char>>) {
        (self.text@, match self.path_head {
            Some(h) => Some(h@),
            None => None,
        })
    }
}

impl FieldInput {
    pub open spec fn view(&self) -> FieldInputView {
        FieldInputView {
            name: self.name@,
            attrs: self.reg_attributes@.map_values(|a: Vec<Token>| tokens_view(a@)),
            type_args: match self.type_args {
                Some(v) => Some(v@.map_values(|a: TypeArg| a@)),
                None => None,
            },
        }
    }
}

pub open spec fn fields_view(v: Seq<FieldInput>) -> Seq<FieldInputView> {
    v.map_values(|f: FieldInput| f@)
}

/// Why code could not be generated for a register block.
#[derive(Clone, Copy, Debug, PartialEq, Eq, Structural)]
pub enum GenerateError {
    /// The generator's arguments do not parse.
    Input(ParseError),
    /// A state is first declared with more than two substates.
    TooManySubstates,
    /// A register field's attributes do not parse.
    Attributes(ParseError),
    /// A register field's type is not a path with angle-bracketed arguments.
    NotGenericType,
    /// A register field's type does not have exactly two generic arguments.
    TypeArguments,
    /// The first generic argument of a register field's type is not a path.
    BitwidthType,
    /// A register's attributes name no valid state.
    NoValidState,
    /// A list is too long to be counted.
    InputTooLarge,
}

/// The first `Some` of a sequence of options.
pub open spec fn first_some<E>(s: Seq<Option<E>>) -> Option<E>
    decreases s.len(),
{
    if s.len() == 0 {
        None
    } else if s[0] is Some {
        s[0]
    } else {
        first_some(s.drop_first())
    }
}

/// The first error of two lists in a row is the first list's, or else the
/// second's.
pub proof fn lemma_first_some_append<E>(a: Seq<Option<E>>, b: Seq<Option<E>>)
    ensures
        first_some(a + b) == if first_some(a) is Some { first_some(a) } else { first_some(b) },
    decreases a.len(),
{
    if a.len() > 0 {
        assert((a + b).drop_first() =~= a.drop_first() + b);
        lemma_first_some_append(a.drop_first(), b);
    } else {
        assert(a + b =~= b);
    }
}

/// What goes wrong with a register field, if anything: its first attribute
/// that does not parse, a type that is not generic, a number of generic
/// arguments other than two, or a first argument that is not a path.
pub open spec fn field_error(f: FieldInputView) -> Option<GenerateError> {
    if f.attrs.len() == 0 {
        None
    } else {
        match first_some(f.attrs.map_values(|a: Seq<TokenView>| match spec_register_attributes(a) {
            Ok(_) => None,
            Err(e) => Some(e),
        })) {
            Some(e) => Some(GenerateError::Attributes(e)),
            None => match f.type_args {
                None => Some(GenerateError::NotGenericType),
                Some(args) => if args.len() != 2 {
                    Some(GenerateError::TypeArguments)
                } else if args[0].1 is None {
                    Some(GenerateError::BitwidthType)
                } else {
                    None
                },
            },
        }
    }
}

/// The registers a field without errors declares: one per attribute, named
/// after the field, with the register name of the type's second argument and
/// the bit width named by its first.
pub open spec fn field_registers(f: FieldInputView) -> Seq<RegisterView> {
    f.attrs.map_values(
        |a: Seq<TokenView>|
            RegisterView {
                name: f.name,
                valid_states: spec_register_attributes(a)->Ok_0.0,
                register_shortname: f.type_args->Some_0[1].0,
                register_type: spec_register_attributes(a)->Ok_0.1,
                register_bitwidth: f.type_args->Some_0[0].1->Some_0,
            },
    )
}

/// The registers of all fields, in order.
pub open spec fn registers_spec(fs: Seq<FieldInputView>) -> Seq<RegisterView> {
    fs.map_values(|f: FieldInputView| field_registers(f)).flatten_alt()
}

/// What goes wrong with a register, if anything.
pub open spec fn register_error(r: RegisterView) -> Option<GenerateError> {
    if r.valid_states.len() == 0 {
        Some(GenerateError::NoValidState)
    } else if exists|i: int| 0 <= i < r.valid_states.len() && #[trigger] r.valid_states[i].substates.len() >= usize::MAX {
        Some(GenerateError::InputTooLarge)
    } else if r.register_type matches RegisterTypeView::StateChange(t, _, _) && t.substates.len() >= usize::MAX {
        Some(GenerateError::InputTooLarge)
    } else {
        None
    }
}

/// How a field of the generated register block is declared.
pub enum FieldPlan {
    /// As given.
    Unchanged,
    /// As `wrapper<bitwidth, register_shortname, S>`.
    Register { wrapper: String, bitwidth: String, register_shortname: String },
}

pub ghost enum FieldPlanView {
    Unchanged,
    Register { wrapper: Seq<char>, bitwidth: Seq<char>, register_shortname: Seq<char> },
}

impl FieldPlan {
    pub open spec fn view(&self) -> FieldPlanView {
        match self {
            FieldPlan::Unchanged => FieldPlanView::Unchanged,
            FieldPlan::Register { wrapper, bitwidth, register_shortname } => FieldPlanView::Register {
                wrapper: wrapper@,
                bitwidth: bitwidth@,
                register_shortname: register_shortname@,
            },
        }
    }
}

/// `Register`, which ends each wrapper struct's name.
pub open spec fn register_suffix() -> Seq<char> {
    seq!['R', 'e', 'g', 'i', 's', 't', 'e', 'r']
}

/// The name of the wrapper struct of a register type.
pub open spec fn wrapper_name(t: RegisterTypeView) -> Seq<char> {
    match t {
        RegisterTypeView::ReadOnly => seq!['R', 'e', 'a', 'd', 'O', 'n', 'l', 'y'] + register_suffix(),
        RegisterTypeView::WriteOnly => seq!['W', 'r', 'i', 't', 'e', 'O', 'n', 'l', 'y'] + register_suffix(),
        RegisterTypeView::ReadWrite => seq!['R', 'e', 'a', 'd', 'W', 'r', 'i', 't', 'e'] + register_suffix(),
        _ => seq!['S', 't', 'a', 't', 'e', 'C', 'h', 'a', 'n', 'g', 'e'] + register_suffix(),
    }
}

/// How a field without errors is declared: unchanged without attributes,
/// otherwise wrapped in the register type of its first attribute.
pub open spec fn field_plan_spec(f: FieldInputView) -> FieldPlanView {
    if f.attrs.len() == 0 {
        FieldPlanView::Unchanged
    } else {
        FieldPlanView::Register {
            wrapper: wrapper_name(spec_register_attributes(f.attrs[0])->Ok_0.1),
            bitwidth: f.type_args->Some_0[0].1->Some_0,
            register_shortname: f.type_args->Some_0[1].0,
        }
    }
}

/// The mathematical values of a list of registers.
pub open spec fn registers_view(v: Seq<Register>) -> Seq<RegisterView> {
    v.map_values(|r: Register| r@)
}

/// For each attribute, the error parsing it gives, if any.
pub open spec fn attr_errors(attrs: Seq<Seq<TokenView>>) -> Seq<Option<ParseError>> {
    attrs.map_values(|a: Seq<TokenView>| match spec_register_attributes(a) {
        Ok(_) => None,
        Err(e) => Some(e),
    })
}

/// The bit width and register name a field's type gives, or what is wrong
/// with it.
fn field_type(f: &FieldInput) -> (r: Result<(String, String), GenerateError>)
    ensures
        match f@.type_args {
            None => r == Err::<(String, String), GenerateError>(GenerateError::NotGenericType),
            Some(args) => if args.len() != 2 {
                r == Err::<(String, String), GenerateError>(GenerateError::TypeArguments)
            } else if args[0].1 is None {
                r == Err::<(String, String), GenerateError>(GenerateError::BitwidthType)
            } else {
                r matches Ok((b, s)) && b@ == args[0].1->Some_0 && s@ == args[1].0
            },
        },
{
    match &f.type_args {
        None => Err(GenerateError::NotGenericType),
        Some(args) => {
            if args.len() != 2 {
                assert(f@.type_args->Some_0.len() == args@.len());
                return Err(GenerateError::TypeArguments);
            }
            assert(f@.type_args->Some_0[0] == args@[0]@);
            assert(f@.type_args->Some_0[1] == args@[1]@);
            match &args[0].path_head {
                None => Err(GenerateError::BitwidthType),
                Some(h) => Ok((h.clone(), args[1].text.clone())),
            }
        },
    }
}

/// What is generated for one field of the register-block struct: how the
/// field is declared and the registers its attributes declare.
pub fn process_field(f: &FieldInput) -> (r: Result<(FieldPlan, Vec<Register>), GenerateError>)
    ensures
        match r {
            Ok((plan, regs)) => {
                &&& field_error(f@) is None
                &&& plan@ == field_plan_spec(f@)
                &&& registers_view(regs@) == field_registers(f@)
            },
            Err(e) => field_error(f@) == Some(e),
        },
{
    let n = f.reg_attributes.len();
    if n == 0 {
        assert(registers_view(Seq::<Register>::empty()) =~= field_registers(f@));
        return Ok((FieldPlan::Unchanged, Vec::new()));
    }
    let ghost fv = f@;
    let ty = field_type(f);
    let mut regs: Vec<Register> = Vec::new();
    let mut wrapper: Option<String> = None;
    let mut i: usize = 0;
    while i < n
        invariant
            i <= n,
            n == f.reg_attributes.len(),
            n > 0,
            fv == f@,
            first_some(attr_errors(fv.attrs).take(i as int)) is None,
            i > 0 ==> spec_register_attributes(fv.attrs[0]) is Ok,
            i > 0 && ty is Ok ==> (wrapper matches Some(w) && w@ == wrapper_name(spec_register_attributes(fv.attrs[0])->Ok_0.1)),
            ty is Ok ==> registers_view(regs@) == field_registers(fv).take(i as int),
            match fv.type_args {
                None => ty == Err::<(String, String), GenerateError>(GenerateError::NotGenericType),
                Some(args) => if args.len() != 2 {
                    ty == Err::<(String, String), GenerateError>(GenerateError::TypeArguments)
                } else if args[0].1 is None {
                    ty == Err::<(String, String), GenerateError>(GenerateError::BitwidthType)
                } else {
                    ty matches Ok((b, s)) && b@ == args[0].1->Some_0 && s@ == args[1].0
                },
            },
        decreases n - i,
    {
        assert(fv.attrs[i as int] == tokens_view(f.reg_attributes@[i as int]@));
        let parsed = parse_register_attributes(&f.reg_attributes[i]);
        let ghost errs = attr_errors(fv.attrs);
        proof {
            assert(errs.take(i + 1) =~= errs.take(i as int) + seq![errs[i as int]]);
            lemma_first_some_append(errs.take(i as int), seq![errs[i as int]]);
            assert(seq![errs[i as int]].drop_first() =~= Seq::<Option<ParseError>>::empty());
        }
        match parsed {
            Err(e) => {
                proof {
                    assert(errs =~= errs.take(i + 1) + errs.skip(i + 1));
                    lemma_first_some_append(errs.take(i + 1), errs.skip(i + 1));
                }
                return Err(GenerateError::Attributes(e));
            },
            Ok(a) => {
                assert(errs[i as int] is None);
                assert(first_some(seq![errs[i as int]].drop_first()) is None);
                assert(first_some(seq![errs[i as int]]) is None);
                match &ty {
                    Ok((bitwidth, shortname)) => {
                        if i == 0 {
                            let mut w = a.register_type.to_ident();
                            proof {
                                reveal_strlit("Register");
                            }
                            w.append("Register");
                            assert(w@ =~= wrapper_name(spec_register_attributes(fv.attrs[0])->Ok_0.1));
                            wrapper = Some(w);
                        }
                        let reg = Register {
                            name: f.name.clone(),
                            valid_states: a.states,
                            register_shortname: shortname.clone(),
                            register_type: a.register_type,
                            register_bitwidth: bitwidth.clone(),
                        };
                        assert(reg@.valid_states =~= states_view(reg.valid_states@));
                        assert(reg@ == field_registers(fv)[i as int]);
                        let ghost before = regs@;
                        regs.push(reg);
                        assert(registers_view(regs@) =~= registers_view(before).push(reg@));
                        assert(registers_view(regs@) =~= field_registers(fv).take(i + 1));
                    },
                    Err(_) => {},
                }
            },
        }
        i = i + 1;
    }
    assert(attr_errors(fv.attrs).take(n as int) =~= attr_errors(fv.attrs));
    match ty {
        Err(e) => Err(e),
        Ok((bitwidth, shortname)) => {
            assert(field_registers(fv).take(n as int) =~= field_registers(fv));
            let w = match wrapper {
                Some(w) => w,
                None => String::new(),
            };
            Ok((FieldPlan::Register { wrapper: w, bitwidth, register_shortname: shortname }, regs))
        },
    }
}

/// A variant of the stored-state enum: its name and the register-block state
/// it holds.
pub struct StoreVariant {
    pub shortname: String,
    pub state: ConcreteState,
}

impl StoreVariant {
    pub open spec fn view(&self) -> (Seq<char>, (Seq<char>, Seq<Seq<char>>)) {
        (self.shortname@, self.state@)
    }
}

pub open spec fn store_variants_view(v: Seq<StoreVariant>) -> Seq<(Seq<char>, (Seq<char>, Seq<Seq<char>>))> {
    v.map_values(|x: StoreVariant| x@)
}

/// The variants of the stored-state enum: one per declared state, named by
/// its shortname.
pub open spec fn store_variants_spec(states: Seq<StateView>) -> Seq<(Seq<char>, (Seq<char>, Seq<Seq<char>>))> {
    states.map_values(|s: StateView| (s.shortname, (s.ident, s.substates)))
}

/// For each field, what is wrong with it, if anything.
pub open spec fn field_errors(fs: Seq<FieldInputView>) -> Seq<Option<GenerateError>> {
    fs.map_values(|f: FieldInputView| field_error(f))
}

/// For each register, what is wrong with it, if anything.
pub open spec fn register_errors(rs: Seq<RegisterView>) -> Seq<Option<GenerateError>> {
    rs.map_values(|r: RegisterView| register_error(r))
}

/// The binding generated for each register.
pub open spec fn binding_specs(rs: Seq<RegisterView>) -> Seq<crate::bindings::BindingView> {
    rs.map_values(|r: RegisterView| binding_spec(r))
}

/// How each field is declared.
pub open spec fn field_plan_specs(fs: Seq<FieldInputView>) -> Seq<FieldPlanView> {
    fs.map_values(|f: FieldInputView| field_plan_spec(f))
}

/// Each variant of the stored-state enum is named by a declared state's
/// shortname and holds the register block in that declared state itself (its
/// name and its substates, as declared, in the order declared), and that
/// state's type is among the generated state types.
pub proof fn lemma_store_variants_hold_declared_states(states: Seq<StateView>)
    ensures
        store_variants_spec(states).len() == states.len(),
        forall|i: int|
            0 <= i < states.len() ==> {
                &&& (#[trigger] store_variants_spec(states)[i]).0 == states[i].shortname
                &&& store_variants_spec(states)[i].1.0 == states[i].ident
                &&& store_variants_spec(states)[i].1.1 == states[i].substates
            },
        forall|i: int|
            0 <= i < states.len() ==> has_key(
                dedup_by(candidates(states, states.len() as int), impl_key()),
                impl_key(),
                (#[trigger] store_variants_spec(states)[i]).1,
            ),
{
    lemma_generated_state_types(states);
    assert forall|i: int|
        0 <= i < states.len() implies has_key(
            dedup_by(candidates(states, states.len() as int), impl_key()),
            impl_key(),
            (#[trigger] store_variants_spec(states)[i]).1,
        ) by {
        assert(store_variants_spec(states)[i].1 == (states[i].ident, states[i].substates));
    }
}

/// Whether some state is first declared with more than two substates.
pub open spec fn too_many_substates(states: Seq<StateView>) -> bool {
    exists|k: int| 0 <= k < merge_impls_spec(states).len() && #[trigger] merge_impls_spec(states)[k].1 > 2
}

/// Whether some state has more substates than can be counted.
pub open spec fn too_large(states: Seq<StateView>) -> bool {
    exists|i: int| 0 <= i < states.len() && #[trigger] states[i].substates.len() + 2 > usize::MAX
}

/// What goes wrong when generating code for a register block, if anything,
/// in the order the generator finds it: its arguments, a state declared with
/// too many substates, the fields in order, the registers in order.
pub open spec fn block_error(input: Seq<TokenView>, fs: Seq<FieldInputView>) -> Option<GenerateError> {
    match spec_macro_input(input) {
        Err(e) => Some(GenerateError::Input(e)),
        Ok(m) => if too_many_substates(m.states) {
            Some(GenerateError::TooManySubstates)
        } else if too_large(m.states) {
            Some(GenerateError::InputTooLarge)
        } else {
            match first_some(field_errors(fs)) {
                Some(e) => Some(e),
                None => first_some(register_errors(registers_spec(fs))),
            }
        },
    }
}

/// A binding is its own key when bindings are deduplicated.
pub open spec fn identity() -> spec_fn(crate::bindings::BindingView) -> crate::bindings::BindingView {
    |b: crate::bindings::BindingView| b
}

/// Everything generated for a register block.
pub struct BlockPlan {
    /// `<peripheral>Registers`, the register-block handle typed by state.
    pub register: String,
    /// `<peripheral>Store`, the stored-state enum.
    pub store: String,
    /// `<peripheral>Peripheral`.
    pub peripheral: String,
    /// `<peripheral>RegisterBlock`, the register-block struct.
    pub register_block: String,
    /// The base address of the register block, as written.
    pub base_addr: String,
    pub store_variants: Vec<StoreVariant>,
    pub states: StatesPlan,
    /// How each field of the register-block struct is declared.
    pub fields: Vec<FieldPlan>,
    /// The registers declared by the fields' attributes.
    pub registers: Vec<Register>,
    /// What is generated for the registers, each once.
    pub bindings: Vec<RegisterBinding>,
}

pub open spec fn field_plans_view(v: Seq<FieldPlan>) -> Seq<FieldPlanView> {
    v.map_values(|f: FieldPlan| f@)
}

/// What is wrong with a register, if anything.
fn check_register(r: &Register) -> (e: Option<GenerateError>)
    ensures
        e == register_error(r@),
        e is None ==> register_well_formed(r),
{
    if r.valid_states.len() == 0 {
        return Some(GenerateError::NoValidState);
    }
    let mut i: usize = 0;
    while i < r.valid_states.len()
        invariant
            i <= r.valid_states.len(),
            forall|j: int| 0 <= j < i ==> #[trigger] r.valid_states@[j].substates@.len() < usize::MAX,
        decreases r.valid_states.len() - i,
    {
        if r.valid_states[i].substates.len() == usize::MAX {
            assert(r@.valid_states[i as int].substates.len() >= usize::MAX);
            return Some(GenerateError::InputTooLarge);
        }
        i = i + 1;
    }
    assert(forall|j: int| 0 <= j < r@.valid_states.len() ==> #[trigger] r@.valid_states[j].substates.len() < usize::MAX);
    match &r.register_type {
        crate::states::RegisterType::StateChange(t, _, _) => if t.substates.len() == usize::MAX {
            return Some(GenerateError::InputTooLarge);
        },
        _ => {},
    }
    None
}

/// Whether `plan` is the plan for a register block with arguments `t` and
/// fields `fs`: the names derived from the peripheral's name, the base
/// address, the stored-state variants, the state types, the fields, the
/// registers, and one binding per distinct register binding.
pub open spec fn plans_block(t: Seq<TokenView>, fs: Seq<FieldInputView>, plan: BlockPlan) -> bool {
    let m = spec_macro_input(t)->Ok_0;
    &&& plan.register@ == m.peripheral_name + seq!['R', 'e', 'g', 'i', 's', 't', 'e', 'r', 's']
    &&& plan.store@ == m.peripheral_name + seq!['S', 't', 'o', 'r', 'e']
    &&& plan.peripheral@ == m.peripheral_name + seq!['P', 'e', 'r', 'i', 'p', 'h', 'e', 'r', 'a', 'l']
    &&& plan.register_block@ == m.peripheral_name + seq!['R', 'e', 'g', 'i', 's', 't', 'e', 'r', 'B', 'l', 'o', 'c', 'k']
    &&& plan.base_addr@ == m.base_addr
    &&& store_variants_view(plan.store_variants@) == store_variants_spec(m.states)
    &&& decls_view(plan.states.merge_impls@) == merge_impls_spec(m.states)
    &&& impls_view(plan.states.impls@) == dedup_by(candidates(m.states, m.states.len() as int), impl_key())
    &&& decls_view(plan.states.structs@) == structs_spec(impls_view(plan.states.impls@))
    &&& substate_decls_view(plan.states.substates@) == substates_spec(m.states)
    &&& field_plans_view(plan.fields@) == field_plan_specs(fs)
    &&& registers_view(plan.registers@) == registers_spec(fs)
    &&& bindings_view(plan.bindings@) == dedup_by(binding_specs(registers_spec(fs)), identity())
}

/// Plans the code generated for a register block from the generator's
/// arguments `attr` and the fields of the register-block struct, or finds
/// what is wrong with them.
#[verifier::rlimit(40)]
fn plan_register_block(attr: &Vec<Token>, fields: &Vec<FieldInput>) -> (r: Result<BlockPlan, GenerateError>)
    ensures
        match r {
            Err(e) => block_error(tokens_view(attr@), fields_view(fields@)) == Some(e),
            Ok(plan) => {
                &&& block_error(tokens_view(attr@), fields_view(fields@)) is None
                &&& plans_block(tokens_view(attr@), fields_view(fields@), plan)
            },
        },
{
    let input = match macro_input(attr) {
        Err(e) => return Err(GenerateError::Input(e)),
        Ok(m) => m,
    };
    let ghost mv = input@;
    let ghost fs = fields_view(fields@);
    assert(spec_macro_input(tokens_view(attr@)) == Ok::<crate::parse::MacroInputView, ParseError>(mv));
    // States first declared with more than two substates are not supported.
    let merge_impls = crate::generate::generate_merge_impls(&input.states);
    let mut k: usize = 0;
    while k < merge_impls.len()
        invariant
            k <= merge_impls.len(),
            decls_view(merge_impls@) == merge_impls_spec(mv.states),
            mv == input@,
            spec_macro_input(tokens_view(attr@)) == Ok::<crate::parse::MacroInputView, ParseError>(mv),
            forall|j: int| 0 <= j < k ==> #[trigger] merge_impls_spec(mv.states)[j].1 <= 2,
        decreases merge_impls.len() - k,
    {
        assert(decls_view(merge_impls@)[k as int] == merge_impls@[k as int]@);
        if merge_impls[k].arity > 2 {
            assert(merge_impls_spec(mv.states)[k as int].1 > 2);
            assert(too_many_substates(mv.states));
            return Err(GenerateError::TooManySubstates);
        }
        k = k + 1;
    }
    assert(!too_many_substates(mv.states));
    let mut i: usize = 0;
    while i < input.states.len()
        invariant
            i <= input.states.len(),
            mv == input@,
            !too_many_substates(mv.states),
            spec_macro_input(tokens_view(attr@)) == Ok::<crate::parse::MacroInputView, ParseError>(mv),
            forall|j: int| 0 <= j < i ==> #[trigger] input.states@[j].substates@.len() + 2 <= usize::MAX,
        decreases input.states.len() - i,
    {
        assert(mv.states[i as int] == input.states@[i as int]@);
        if input.states[i].substates.len() > usize::MAX - 2 {
            assert(mv.states[i as int].substates.len() + 2 > usize::MAX);
            assert(too_large(mv.states));
            return Err(GenerateError::InputTooLarge);
        }
        i = i + 1;
    }
    assert(forall|j: int| 0 <= j < mv.states.len() ==> #[trigger] mv.states[j].substates.len() + 2 <= usize::MAX) by {
        assert forall|j: int| 0 <= j < mv.states.len() implies #[trigger] mv.states[j].substates.len() + 2 <= usize::MAX by {
            assert(mv.states[j] == input.states@[j]@);
        }
    }
    assert(!too_large(mv.states));
    let states = generate_states(&input.states);
    // The stored-state enum.
    let mut store_variants: Vec<StoreVariant> = Vec::new();
    let mut i: usize = 0;
    while i < input.states.len()
        invariant
            i <= input.states.len(),
            mv == input@,
            store_variants_view(store_variants@) == store_variants_spec(mv.states).take(i as int),
        decreases input.states.len() - i,
    {
        let st = &input.states[i];
        assert(mv.states[i as int] == st@);
        let v = StoreVariant {
            shortname: st.shortname.clone(),
            state: ConcreteState { ident: st.ident.clone(), substates: crate::states::copy_names(&st.substates) },
        };
        let ghost before = store_variants@;
        store_variants.push(v);
        assert(store_variants_view(store_variants@) =~= store_variants_view(before).push(v@));
        assert(store_variants_view(store_variants@) =~= store_variants_spec(mv.states).take(i + 1));
        i = i + 1;
    }
    assert(store_variants_spec(mv.states).take(i as int) =~= store_variants_spec(mv.states));
    // The fields of the register block and the registers they declare.
    let ghost ferrs = field_errors(fs);
    let ghost fregs = fs.map_values(|f: FieldInputView| field_registers(f));
    let mut field_plans: Vec<FieldPlan> = Vec::new();
    let mut registers: Vec<Register> = Vec::new();
    let mut i: usize = 0;
    while i < fields.len()
        invariant
            i <= fields.len(),
            fs == fields_view(fields@),
            ferrs == field_errors(fs),
            spec_macro_input(tokens_view(attr@)) == Ok::<crate::parse::MacroInputView, ParseError>(mv),
            !too_many_substates(mv.states),
            !too_large(mv.states),
            fregs == fs.map_values(|f: FieldInputView| field_registers(f)),
            first_some(ferrs.take(i as int)) is None,
            field_plans_view(field_plans@) == field_plan_specs(fs).take(i as int),
            registers_view(registers@) == fregs.take(i as int).flatten_alt(),
        decreases fields.len() - i,
    {
        assert(fs[i as int] == fields@[i as int]@);
        proof {
            assert(ferrs.take(i + 1) =~= ferrs.take(i as int) + seq![ferrs[i as int]]);
            lemma_first_some_append(ferrs.take(i as int), seq![ferrs[i as int]]);
            assert(seq![ferrs[i as int]].drop_first() =~= Seq::<Option<GenerateError>>::empty());
        }
        match process_field(&fields[i]) {
            Err(e) => {
                proof {
                    assert(ferrs =~= ferrs.take(i + 1) + ferrs.skip(i + 1));
                    lemma_first_some_append(ferrs.take(i + 1), ferrs.skip(i + 1));
                    assert(ferrs[i as int] == Some(e));
                    assert(first_some(seq![ferrs[i as int]]) == Some(e));
                    assert(first_some(ferrs) == Some(e));
                }
                return Err(e);
            },
            Ok((plan, regs)) => {
                assert(first_some(seq![ferrs[i as int]].drop_first()) is None);
                let ghost before_plans = field_plans@;
                field_plans.push(plan);
                assert(field_plans_view(field_plans@) =~= field_plans_view(before_plans).push(plan@));
                assert(field_plans_view(field_plans@) =~= field_plan_specs(fs).take(i + 1));
                let ghost before_regs = registers@;
                let ghost regs_view = registers_view(regs@);
                let mut regs = regs;
                registers.append(&mut regs);
                assert(registers_view(registers@) =~= registers_view(before_regs) + regs_view);
                assert(fregs.take(i + 1).drop_last() =~= fregs.take(i as int));
                assert(registers_view(registers@) =~= fregs.take(i + 1).flatten_alt());
            },
        }
        i = i + 1;
    }
    assert(ferrs.take(i as int) =~= ferrs);
    assert(fregs.take(i as int) =~= fregs);
    assert(field_plans_view(field_plans@) =~= field_plan_specs(fs));
    // What is generated for each register, each once.
    let ghost rs = registers_spec(fs);
    let ghost rerrs = register_errors(rs);
    let ghost all = binding_specs(rs);
    let mut bindings: Vec<RegisterBinding> = Vec::new();
    let mut j: usize = 0;
    while j < registers.len()
        invariant
            j <= registers.len(),
            rs == registers_spec(fs),
            registers_view(registers@) == rs,
            fs == fields_view(fields@),
            first_some(field_errors(fs)) is None,
            spec_macro_input(tokens_view(attr@)) == Ok::<crate::parse::MacroInputView, ParseError>(mv),
            !too_many_substates(mv.states),
            !too_large(mv.states),
            rerrs == register_errors(rs),
            all == binding_specs(rs),
            first_some(rerrs.take(j as int)) is None,
            bindings_view(bindings@) == dedup_by(all.take(j as int), identity()),
        decreases registers.len() - j,
    {
        assert(rs[j as int] == registers@[j as int]@);
        proof {
            assert(rerrs.take(j + 1) =~= rerrs.take(j as int) + seq![rerrs[j as int]]);
            lemma_first_some_append(rerrs.take(j as int), seq![rerrs[j as int]]);
            assert(seq![rerrs[j as int]].drop_first() =~= Seq::<Option<GenerateError>>::empty());
        }
        match check_register(&registers[j]) {
            Some(e) => {
                proof {
                    assert(rerrs =~= rerrs.take(j + 1) + rerrs.skip(j + 1));
                    lemma_first_some_append(rerrs.take(j + 1), rerrs.skip(j + 1));
                    assert(rerrs[j as int] == Some(e));
                    assert(first_some(seq![rerrs[j as int]]) == Some(e));
                    assert(first_some(rerrs) == Some(e));
                }
                return Err(e);
            },
            None => {},
        }
        assert(first_some(seq![rerrs[j as int]].drop_first()) is None);
        let b = generate_register_op_bindings(&registers[j]);
        let ghost prev = all.take(j as int);
        assert(all.take(j + 1).drop_last() =~= prev);
        assert(all.take(j + 1).last() == b@);
        proof {
            lemma_dedup_by(prev, identity());
        }
        let mut seen = false;
        let mut m: usize = 0;
        while m < bindings.len()
            invariant
                m <= bindings.len(),
                seen == has_key(bindings_view(bindings@).take(m as int), identity(), b@),
            decreases bindings.len() - m,
        {
            if same_binding(&bindings[m], &b) {
                assert(identity()(bindings_view(bindings@).take(m + 1)[m as int]) == b@);
                seen = true;
            }
            proof {
                let t1 = bindings_view(bindings@).take(m + 1);
                let t0 = bindings_view(bindings@).take(m as int);
                if has_key(t1, identity(), b@) && !same_binding_spec(bindings@[m as int]@, b@) {
                    let w = choose|w: int| 0 <= w < t1.len() && #[trigger] identity()(t1[w]) == b@;
                    assert(t0[w] == t1[w]);
                }
                if has_key(t0, identity(), b@) {
                    let w = choose|w: int| 0 <= w < t0.len() && #[trigger] identity()(t0[w]) == b@;
                    assert(t1[w] == t0[w]);
                }
            }
            m = m + 1;
        }
        assert(bindings_view(bindings@).take(m as int) =~= bindings_view(bindings@));
        if !seen {
            let ghost before = bindings@;
            bindings.push(b);
            assert(bindings_view(bindings@) =~= bindings_view(before).push(bindings@[bindings@.len() - 1]@));
        }
        j = j + 1;
    }
    assert(rerrs.take(j as int) =~= rerrs);
    assert(all.take(j as int) =~= all);
    let register = with_suffix(&input.peripheral_name, "Registers");
    let store = with_suffix(&input.peripheral_name, "Store");
    let peripheral = with_suffix(&input.peripheral_name, "Peripheral");
    let register_block = with_suffix(&input.peripheral_name, "RegisterBlock");
    proof {
        reveal_strlit("Registers");
        reveal_strlit("Store");
        reveal_strlit("Peripheral");
        reveal_strlit("RegisterBlock");
    }
    assert(register@ =~= mv.peripheral_name + seq!['R', 'e', 'g', 'i', 's', 't', 'e', 'r', 's']);
    assert(store@ =~= mv.peripheral_name + seq!['S', 't', 'o', 'r', 'e']);
    assert(peripheral@ =~= mv.peripheral_name + seq!['P', 'e', 'r', 'i', 'p', 'h', 'e', 'r', 'a', 'l']);
    assert(register_block@ =~= mv.peripheral_name + seq!['R', 'e', 'g', 'i', 's', 't', 'e', 'r', 'B', 'l', 'o', 'c', 'k']);
    let base_addr = input.base_addr.clone();
    Ok(BlockPlan {
        register,
        store,
        peripheral,
        register_block,
        base_addr,
        store_variants,
        states,
        fields: field_plans,
        registers,
        bindings,
    })
}

/// Plans the code generated for a register block from the generator's
/// arguments `attr` and the fields of the register-block struct. Arguments
/// or fields with anything wrong (see `block_error`) are not to be given.
pub fn process_register_block(attr: &Vec<Token>, fields: &Vec<FieldInput>) -> (plan: BlockPlan)
    requires
        block_error(tokens_view(attr@), fields_view(fields@)) is None,
    ensures
        plans_block(tokens_view(attr@), fields_view(fields@), plan),
{
    match plan_register_block(attr, fields) {
        Ok(plan) => plan,
        Err(_) => vstd::pervasive::unreached(),
    }
}

/// Plans the code generated for a register block, or answers with the first
/// thing wrong with its arguments or fields.
pub fn try_process_register_block(attr: &Vec<Token>, fields: &Vec<FieldInput>) -> (r: Result<BlockPlan, GenerateError>)
    ensures
        match r {
            Err(e) => block_error(tokens_view(attr@), fields_view(fields@)) == Some(e),
            Ok(plan) => {
                &&& block_error(tokens_view(attr@), fields_view(fields@)) is None
                &&& plans_block(tokens_view(attr@), fields_view(fields@), plan)
            },
        },
{
    match plan_register_block(attr, fields) {
        Err(e) => Err(e),
        Ok(_) => Ok(process_register_block(attr, fields)),
    }
}

/// Whether two bindings are the same binding (generate the same code).
pub open spec fn same_binding_spec(a: crate::bindings::BindingView, b: crate::bindings::BindingView) -> bool {
    a == b
}

} // verus!
