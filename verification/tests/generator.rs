use power_states::bindings::{generate_register_op_bindings, map_any, RegisterAccess, RegisterBinding};
use power_states::block::{process_register_block, try_process_register_block, FieldInput, FieldPlan, GenerateError, TypeArg};
use power_states::disjunctive::{generate_disjunctive_states, unique_state_shortnames};
use power_states::generate::{generate_states, ImplKind};
use power_states::parse::{
    parse_macro_input, try_parse_macro_input, parse_register_attributes, parse_state, parse_state_list, Delimiter, ParseError,
    Token,
};
use power_states::states::{is_mergeable, is_valid_into, Register, RegisterType, StateDecl};
use power_states::text::lowercased;

fn is_punct(c: char) -> bool {
    !c.is_alphanumeric() && c != '_' && !c.is_whitespace() && !"()[]{}\"".contains(c)
}

/// Splits source text into the generator's tokens.
fn lex(src: &str) -> Vec<Token> {
    let chars: Vec<char> = src.chars().collect();
    let mut out = Vec::new();
    let mut i = 0;
    while i < chars.len() {
        let c = chars[i];
        if c.is_whitespace() {
            i += 1;
        } else if c.is_alphabetic() || c == '_' {
            let start = i;
            while i < chars.len() && (chars[i].is_alphanumeric() || chars[i] == '_') {
                i += 1;
            }
            out.push(Token::Ident(chars[start..i].iter().collect()));
        } else if c.is_ascii_digit() {
            let start = i;
            while i < chars.len() && chars[i].is_alphanumeric() {
                i += 1;
            }
            out.push(Token::Int(chars[start..i].iter().collect()));
        } else if c == '"' {
            let start = i + 1;
            i += 1;
            while chars[i] != '"' {
                i += 1;
            }
            out.push(Token::Str(chars[start - 1..=i].iter().collect()));
            i += 1;
        } else if c == '(' {
            out.push(Token::Open(Delimiter::Paren));
            i += 1;
        } else if c == '[' {
            out.push(Token::Open(Delimiter::Bracket));
            i += 1;
        } else if c == '{' {
            out.push(Token::Open(Delimiter::Brace));
            i += 1;
        } else if c == ')' {
            out.push(Token::Close(Delimiter::Paren));
            i += 1;
        } else if c == ']' {
            out.push(Token::Close(Delimiter::Bracket));
            i += 1;
        } else if c == '}' {
            out.push(Token::Close(Delimiter::Brace));
            i += 1;
        } else {
            let joint = i + 1 < chars.len() && is_punct(chars[i + 1]);
            out.push(Token::Punct(c, joint));
            i += 1;
        }
    }
    out
}

fn states(src: &str) -> Vec<StateDecl> {
    let mut t = vec![Token::Open(Delimiter::Bracket)];
    t.extend(lex(src));
    t.push(Token::Close(Delimiter::Bracket));
    match parse_state_list(&t, 1) {
        Ok((v, q)) => {
            assert_eq!(q, t.len());
            v
        },
        Err(e) => panic!("{:?}", e),
    }
}

fn names(v: &[String]) -> Vec<&str> {
    v.iter().map(|s| s.as_str()).collect()
}

const UARTE_STATES: &str = "Off => [Active(RxIdle, TxIdle)],
    Active(RxIdle, TxIdle) => [Active(RxIdle, Tx), Active(Rx, TxIdle), Off] {ActiveIdle},
    Active(Rx, TxIdle) => [Active(RxIdle, TxIdle), Active(Rx, Tx)] {ActiveRx},
    Active(RxIdle, Tx) => [Active(RxIdle, TxIdle), Active(Rx, Tx)] {ActiveTx},
    Active(Rx, Tx) => [Active(Rx, TxIdle), Active(RxIdle, Tx)] {ActiveRxTx},";

#[test]
fn parses_a_state_with_substates_transitions_and_shortname() {
    let t = lex("Active(RxIdle, TxIdle) => [Active(RxIdle, Tx), Off] {ActiveIdle}");
    let (s, q) = parse_state(&t, 0).unwrap_or_else(|e| panic!("{:?}", e));
    assert_eq!(q, t.len());
    assert_eq!(s.ident, "Active");
    assert_eq!(s.shortname, "ActiveIdle");
    assert_eq!(names(&s.substates), vec!["RxIdle", "TxIdle"]);
    assert_eq!(s.transitions.len(), 2);
    assert_eq!(s.transitions[0].ident, "Active");
    assert_eq!(names(&s.transitions[0].substates), vec!["RxIdle", "Tx"]);
    assert_eq!(s.transitions[1].ident, "Off");
    assert_eq!(s.transitions[1].shortname, "Off");
}

#[test]
fn shortname_defaults_to_the_state_name() {
    let t = lex("Reading => [Off] {}");
    let (s, _) = parse_state(&t, 0).unwrap_or_else(|e| panic!("{:?}", e));
    assert_eq!(s.shortname, "Reading");
    let t = lex("Reading");
    let (s, q) = parse_state(&t, 0).unwrap_or_else(|e| panic!("{:?}", e));
    assert_eq!((s.shortname.as_str(), q), ("Reading", 1));
    assert!(s.transitions.is_empty());
}

#[test]
fn parses_the_uarte_states() {
    let s = states(UARTE_STATES);
    assert_eq!(s.len(), 5);
    let shortnames: Vec<&str> = s.iter().map(|x| x.shortname.as_str()).collect();
    assert_eq!(shortnames, vec!["Off", "ActiveIdle", "ActiveRx", "ActiveTx", "ActiveRxTx"]);
}

#[test]
fn state_parse_errors() {
    assert!(matches!(parse_state(&lex("fn"), 0), Err(ParseError::ExpectedIdent)));
    assert!(matches!(parse_state(&lex("A(B C)"), 0), Err(ParseError::ExpectedPunct(','))));
    assert!(matches!(parse_state(&lex("A => B"), 0), Err(ParseError::ExpectedGroup(Delimiter::Bracket))));
    assert!(matches!(parse_state(&lex("A => [B] {C D}"), 0), Err(ParseError::UnexpectedToken)));
    assert!(matches!(parse_state(&lex("A => [B C]"), 0), Err(ParseError::ExpectedPunct(','))));
}

#[test]
fn parses_register_attributes() {
    let a = parse_register_attributes(&lex("[Off], StateChange(Reading, Task::ENABLE::SET)"))
        .unwrap_or_else(|e| panic!("{:?}", e));
    assert_eq!(a.states.len(), 1);
    match a.register_type {
        RegisterType::StateChange(s, path, short) => {
            assert_eq!(s.ident, "Reading");
            assert_eq!(names(&path), vec!["Task", "ENABLE", "SET"]);
            assert_eq!(short, "Reading");
        },
        _ => panic!("expected a state change"),
    }
    let a = parse_register_attributes(&lex("[Active(RxIdle, Any)], StateChange(Active(Rx, Any), Task::ENABLE::SET, startrx)"))
        .unwrap_or_else(|e| panic!("{:?}", e));
    match a.register_type {
        RegisterType::StateChange(_, _, short) => assert_eq!(short, "startrx"),
        _ => panic!("expected a state change"),
    }
    let a = parse_register_attributes(&lex("[Reading], ReadOnly")).unwrap_or_else(|e| panic!("{:?}", e));
    assert!(matches!(a.register_type, RegisterType::ReadOnly));
}

#[test]
fn instruction_paths_may_carry_generic_arguments() {
    let path_of = |src: &str| match parse_register_attributes(&lex(src)).unwrap_or_else(|e| panic!("{:?}", e)).register_type {
        RegisterType::StateChange(_, path, _) => path.join("::").replace(' ', ""),
        _ => panic!("expected a state change"),
    };
    assert_eq!(path_of("[Off], StateChange(Reading, Foo::<u8>::SET)"), "Foo::<u8>::SET");
    assert_eq!(path_of("[Off], StateChange(Reading, Foo<u8>::SET)"), "Foo<u8>::SET");
    assert_eq!(path_of("[Off], StateChange(Reading, Foo<Vec<u8>>::SET)"), "Foo<Vec<u8>>::SET");
    assert_eq!(path_of("[Off], StateChange(Reading, ::Task::ENABLE::SET)"), "::Task::ENABLE::SET");
    // Arguments that syn does not accept, and unclosed ones, are refused.
    assert!(matches!(
        parse_register_attributes(&lex("[Off], StateChange(Reading, Foo<,>::SET)")),
        Err(ParseError::InvalidPath)
    ));
    assert!(matches!(
        parse_register_attributes(&lex("[Off], StateChange(Reading, Foo<u8)")),
        Err(ParseError::ExpectedPunct('>'))
    ));
}

#[test]
fn register_attribute_errors() {
    assert!(matches!(parse_register_attributes(&lex("[Off], Frobnicate")), Err(ParseError::UnknownRegisterType)));
    // Trailing tokens are refused.
    assert!(matches!(
        parse_register_attributes(&lex("[Active(Any, Any)], ReadWrite, CtsEvent")),
        Err(ParseError::UnexpectedToken)
    ));
    assert!(matches!(parse_register_attributes(&lex("Off, ReadOnly")), Err(ParseError::ExpectedGroup(Delimiter::Bracket))));
}

#[test]
fn parses_macro_input() {
    let m = try_parse_macro_input(&lex(
        "peripheral_name = \"Nrf5xTemp\", register_base_addr = 0x4000C000, states = [Off => [Reading], Reading => [Off],]",
    ))
    .unwrap_or_else(|e| panic!("{:?}", e));
    assert_eq!(m.peripheral_name, "Nrf5xTemp");
    assert_eq!(m.base_addr, "0x4000C000");
    assert_eq!(m.states.len(), 2);
    // Without a base address the arguments are refused.
    assert!(matches!(
        try_parse_macro_input(&lex("peripheral_name = \"Nrf52Uarte\", states = [Off]")),
        Err(ParseError::ExpectedKeyword)
    ));
}

#[test]
fn peripheral_name_is_the_string_literal_value() {
    let m = try_parse_macro_input(&lex("peripheral_name = \"Nr\\x66\", register_base_addr = 1, states = [Off]"))
        .unwrap_or_else(|e| panic!("{:?}", e));
    assert_eq!(m.peripheral_name, "Nrf");
}

#[test]
fn base_address_may_be_a_negative_literal() {
    let m = try_parse_macro_input(&lex("peripheral_name = \"P\", register_base_addr = -16, states = [Off]"))
        .unwrap_or_else(|e| panic!("{:?}", e));
    assert_eq!(m.base_addr, "-16");
    assert_eq!(m.states.len(), 1);
    assert!(matches!(
        try_parse_macro_input(&lex("peripheral_name = \"P\", register_base_addr = -, states = [Off]")),
        Err(ParseError::ExpectedInt)
    ));
}

#[test]
fn mergeable_and_valid_into() {
    let s = states("Active(Rx, TxIdle), Active(Any, TxIdle), Active(RxIdle, Tx), Off");
    assert!(is_mergeable(&s[0], &s[2]));
    assert!(!is_mergeable(&s[0], &s[3]));
    assert!(is_valid_into(&s[1], &s[0]));
    assert!(is_valid_into(&s[0], &s[1]));
    assert!(!is_valid_into(&s[0], &s[2]));
    assert!(!is_valid_into(&s[1], &s[2]));
    assert!(is_valid_into(&s[3], &s[3]));
}

#[test]
fn temperature_states_generate_two_unit_types() {
    let plan = generate_states(&states("Off => [Reading], Reading => [Off]"));
    let merge: Vec<(&str, usize)> = plan.merge_impls.iter().map(|d| (d.ident.as_str(), d.arity)).collect();
    assert_eq!(merge, vec![("Off", 0), ("Reading", 0)]);
    let structs: Vec<&str> = plan.structs.iter().map(|d| d.ident.as_str()).collect();
    assert_eq!(structs, vec!["Off", "Reading"]);
    assert_eq!(plan.impls.len(), 2);
    assert!(plan.impls.iter().all(|i| matches!(i.kind, ImplKind::Unit)));
    let subs: Vec<(&str, bool)> = plan.substates.iter().map(|d| (d.name.as_str(), d.is_any)).collect();
    assert_eq!(subs, vec![("Any", true)]);
}

#[test]
fn uarte_states_expand_with_any() {
    let plan = generate_states(&states(UARTE_STATES));
    let types: Vec<(String, Vec<&str>)> =
        plan.impls.iter().map(|i| (i.state.ident.clone(), names(&i.state.substates))).collect();
    assert_eq!(
        types,
        vec![
            ("Off".to_string(), vec![]),
            ("Active".to_string(), vec!["Any", "TxIdle"]),
            ("Active".to_string(), vec!["RxIdle", "Any"]),
            ("Active".to_string(), vec!["Any", "Any"]),
            ("Active".to_string(), vec!["RxIdle", "TxIdle"]),
            ("Active".to_string(), vec!["Rx", "Any"]),
            ("Active".to_string(), vec!["Rx", "TxIdle"]),
            ("Active".to_string(), vec!["Any", "Tx"]),
            ("Active".to_string(), vec!["RxIdle", "Tx"]),
            ("Active".to_string(), vec!["Rx", "Tx"]),
        ]
    );
    // The declared types convert by their own variant; the Any types merge.
    assert!(matches!(plan.impls[4].kind, ImplKind::Concrete));
    assert_eq!(plan.impls[4].shortname, "ActiveIdle");
    match &plan.impls[1].kind {
        ImplKind::AnyState { merges, try_froms } => {
            let m: Vec<(&str, bool)> = merges.iter().map(|a| (a.shortname.as_str(), a.allowed)).collect();
            assert_eq!(
                m,
                vec![("Off", false), ("ActiveIdle", true), ("ActiveRx", true), ("ActiveTx", true), ("ActiveRxTx", true)]
            );
            let t: Vec<(&str, bool)> = try_froms.iter().map(|a| (a.shortname.as_str(), a.allowed)).collect();
            assert_eq!(
                t,
                vec![("Off", false), ("ActiveIdle", true), ("ActiveRx", true), ("ActiveTx", false), ("ActiveRxTx", false)]
            );
        },
        _ => panic!("expected an Any type"),
    }
    let merge: Vec<(&str, usize)> = plan.merge_impls.iter().map(|d| (d.ident.as_str(), d.arity)).collect();
    assert_eq!(merge, vec![("Off", 0), ("Active", 2)]);
    let structs: Vec<(&str, usize)> = plan.structs.iter().map(|d| (d.ident.as_str(), d.arity)).collect();
    assert_eq!(structs, vec![("Off", 0), ("Active", 2)]);
    let subs: Vec<&str> = plan.substates.iter().map(|d| d.name.as_str()).collect();
    assert_eq!(subs, vec!["Any", "RxIdle", "TxIdle", "Rx", "Tx"]);
}

#[test]
fn any_substates_become_type_parameters() {
    let s = states("Active(Any, TxIdle, Any)");
    let (c, n) = map_any(&s[0]);
    assert_eq!(n, 2);
    assert_eq!(c.ident, "Active");
    assert_eq!(names(&c.substates), vec!["T0", "TxIdle", "T1"]);
}

fn register(name: &str, attrs: &str) -> Register {
    let a = parse_register_attributes(&lex(attrs)).unwrap_or_else(|e| panic!("{:?}", e));
    Register {
        name: name.to_string(),
        valid_states: a.states,
        register_shortname: "Task::Register".to_string(),
        register_type: a.register_type,
        register_bitwidth: "u32".to_string(),
    }
}

#[test]
fn state_change_bindings_are_named_after_the_move() {
    let r = register("task_start", "[Off], StateChange(Reading, Task::ENABLE::SET)");
    match generate_register_op_bindings(&r) {
        RegisterBinding::StateChange(b) => {
            assert_eq!(b.trait_name, "StepReading");
            assert_eq!(b.fn_name, "into_reading");
            assert_eq!(b.field, "task_start");
            assert!(!b.generic);
            assert_eq!(b.to_state.ident, "Reading");
            assert_eq!(b.from_states.len(), 1);
            assert_eq!(b.from_states[0].ident, "Off");
        },
        _ => panic!("expected a state change"),
    }
    let r = register("task_startrx", "[Active(RxIdle, Any)], StateChange(Active(Rx, Any), Task::ENABLE::SET, StartRx)");
    match generate_register_op_bindings(&r) {
        RegisterBinding::StateChange(b) => {
            assert_eq!(b.trait_name, "StepStartRx");
            assert_eq!(b.fn_name, "into_startrx");
            assert!(b.generic);
            assert_eq!(names(&b.to_state.substates), vec!["Rx", "T0"]);
            assert_eq!(names(&b.from_states[0].substates), vec!["RxIdle", "T0"]);
        },
        _ => panic!("expected a state change"),
    }
}

#[test]
fn access_bindings_cover_every_valid_state() {
    let r = register("temp", "[Reading], ReadOnly");
    match generate_register_op_bindings(&r) {
        RegisterBinding::Access(a) => {
            assert_eq!(a.access, RegisterAccess::ReadOnly);
            assert_eq!(a.states.len(), 1);
            assert_eq!(a.states[0].state.ident, "Reading");
            assert_eq!(a.states[0].generics, 0);
        },
        _ => panic!("expected accessors"),
    }
    let r = register("temp", "[Off, Reading], ReadOnly");
    match generate_register_op_bindings(&r) {
        RegisterBinding::Access(a) => {
            let idents: Vec<&str> = a.states.iter().map(|s| s.state.ident.as_str()).collect();
            assert_eq!(idents, vec!["Off", "Reading"]);
        },
        _ => panic!("expected accessors"),
    }
    let r = register("baudrate", "[Active(Any, Any), Active(Rx, Any), Off], ReadWrite");
    match generate_register_op_bindings(&r) {
        RegisterBinding::Access(a) => {
            assert_eq!(a.access, RegisterAccess::ReadWrite);
            assert_eq!(a.states.len(), 3);
            assert_eq!(names(&a.states[0].state.substates), vec!["T0", "T1"]);
            assert_eq!(a.states[0].generics, 2);
            assert_eq!(names(&a.states[1].state.substates), vec!["Rx", "T0"]);
            assert_eq!(a.states[1].generics, 1);
            assert_eq!(a.states[2].state.ident, "Off");
            assert_eq!(a.states[2].generics, 0);
        },
        _ => panic!("expected accessors"),
    }
}

fn field(name: &str, attrs: &[&str], args: Option<(&str, Option<&str>, &str)>) -> FieldInput {
    FieldInput {
        name: name.to_string(),
        reg_attributes: attrs.iter().map(|a| lex(a)).collect(),
        type_args: args.map(|(w, h, r)| {
            vec![
                TypeArg { text: w.to_string(), path_head: h.map(|x| x.to_string()) },
                TypeArg { text: r.to_string(), path_head: Some(r.to_string()) },
            ]
        }),
    }
}

const TEMP_ARGS: &str =
    "peripheral_name = \"Nrf5xTemp\", register_base_addr = 0x4000C000, states = [Off => [Reading], Reading => [Off],]";

#[test]
fn plans_the_temperature_register_block() {
    let fields = vec![
        field("task_start", &["[Off], StateChange(Reading, Task::ENABLE::SET)"], Some(("u32", Some("u32"), "Task::Register"))),
        field("task_stop", &["[Reading], StateChange(Off, Task::ENABLE::SET)"], Some(("u32", Some("u32"), "Task::Register"))),
        field("_reserved1", &[], None),
        field("temp", &["[Reading], ReadOnly"], Some(("u32", Some("u32"), "Temperature::Register"))),
    ];
    let plan = match try_process_register_block(&lex(TEMP_ARGS), &fields) {
        Ok(p) => p,
        Err(e) => panic!("{:?}", e),
    };
    assert_eq!(plan.register, "Nrf5xTempRegisters");
    assert_eq!(plan.store, "Nrf5xTempStore");
    assert_eq!(plan.peripheral, "Nrf5xTempPeripheral");
    assert_eq!(plan.register_block, "Nrf5xTempRegisterBlock");
    assert_eq!(plan.base_addr, "0x4000C000");
    let variants: Vec<&str> = plan.store_variants.iter().map(|v| v.shortname.as_str()).collect();
    assert_eq!(variants, vec!["Off", "Reading"]);
    assert_eq!(plan.fields.len(), 4);
    match &plan.fields[0] {
        FieldPlan::Register { wrapper, bitwidth, register_shortname } => {
            assert_eq!(wrapper, "StateChangeRegister");
            assert_eq!(bitwidth, "u32");
            assert_eq!(register_shortname, "Task::Register");
        },
        _ => panic!("expected a register field"),
    }
    assert!(matches!(plan.fields[2], FieldPlan::Unchanged));
    match &plan.fields[3] {
        FieldPlan::Register { wrapper, .. } => assert_eq!(wrapper, "ReadOnlyRegister"),
        _ => panic!("expected a register field"),
    }
    assert_eq!(plan.registers.len(), 3);
    assert_eq!(plan.bindings.len(), 3);
}

#[test]
fn identical_bindings_are_generated_once() {
    let fields = vec![
        field("a", &["[Reading], ReadOnly"], Some(("u32", Some("u32"), "Temperature::Register"))),
        field("b", &["[Reading], ReadOnly"], Some(("u32", Some("u32"), "Temperature::Register"))),
    ];
    let plan = match try_process_register_block(&lex(TEMP_ARGS), &fields) {
        Ok(p) => p,
        Err(e) => panic!("{:?}", e),
    };
    assert_eq!(plan.registers.len(), 2);
    assert_eq!(plan.bindings.len(), 1);
}

#[test]
fn register_block_errors() {
    let good = Some(("u32", Some("u32"), "Task::Register"));
    let e = |args: &str, fields: Vec<FieldInput>| match try_process_register_block(&lex(args), &fields) {
        Ok(_) => panic!("expected an error"),
        Err(e) => e,
    };
    assert_eq!(e("states = [Off]", vec![]), GenerateError::Input(ParseError::ExpectedKeyword));
    assert_eq!(
        e("peripheral_name = \"P\", register_base_addr = 1, states = [A(X, Y, Z)]", vec![]),
        GenerateError::TooManySubstates
    );
    assert_eq!(
        e(TEMP_ARGS, vec![field("f", &["[Off], Nope"], good)]),
        GenerateError::Attributes(ParseError::UnknownRegisterType)
    );
    assert_eq!(e(TEMP_ARGS, vec![field("f", &["[Off], ReadOnly"], None)]), GenerateError::NotGenericType);
    let mut three = field("f", &["[Off], ReadOnly"], good);
    if let Some(v) = three.type_args.as_mut() {
        v.push(TypeArg { text: "X".to_string(), path_head: Some("X".to_string()) });
    }
    assert_eq!(e(TEMP_ARGS, vec![three]), GenerateError::TypeArguments);
    assert_eq!(
        e(TEMP_ARGS, vec![field("f", &["[Off], ReadOnly"], Some(("[u8; 4]", None, "R")))]),
        GenerateError::BitwidthType
    );
    assert_eq!(e(TEMP_ARGS, vec![field("f", &["[], ReadOnly"], good)]), GenerateError::NoValidState);
}

#[test]
fn disjunctive_traits_pair_every_two_distinct_states() {
    let s = states("Off => [On], On => [Off], Off => [On] {Off}");
    assert_eq!(names(&unique_state_shortnames(&s)), vec!["Off", "On"]);
    let traits = generate_disjunctive_states(&s);
    assert_eq!(names(&traits), vec!["OffStateOnState", "OnStateOffState"]);
}

#[test]
fn disjunctive_traits_of_the_uarte_states() {
    let traits = generate_disjunctive_states(&states(UARTE_STATES));
    assert_eq!(traits.len(), 5 * 4);
    assert_eq!(traits[0], "OffStateActiveIdleState");
    assert!(traits.contains(&"ActiveRxTxStateActiveTxState".to_string()));
    assert!(!traits.iter().any(|t| t == "OffStateOffState"));
}

#[test]
fn a_single_state_has_no_disjunctive_traits() {
    assert!(generate_disjunctive_states(&states("Off => [Off]")).is_empty());
}

#[test]
fn lowercased_lowers_every_letter() {
    assert_eq!(lowercased(&"ActiveRxTx".to_string()), "activerxtx");
    assert_eq!(lowercased(&"into_Off2".to_string()), "into_off2");
}

#[test]
fn valid_input_plans_without_checking_again() {
    let fields = vec![field("temp", &["[Reading], ReadOnly"], Some(("u32", Some("u32"), "Temperature::Register")))];
    let plan = process_register_block(&lex(TEMP_ARGS), &fields);
    assert_eq!(plan.register, "Nrf5xTempRegisters");
    assert_eq!(plan.bindings.len(), 1);
    let m = parse_macro_input(&lex(TEMP_ARGS));
    assert_eq!(m.peripheral_name, "Nrf5xTemp");
    assert_eq!(m.base_addr, "0x4000C000");
}
