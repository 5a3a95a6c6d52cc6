use tim::datatypes::{Address, Instruction, ValueAddress, ValueOp};
use tim::decode::{
    build_codestore, coerce_to_obj, coerce_to_str, extract_address, extract_instruction,
    extract_instructions, extract_op, extract_value_address, get_int_field, get_key_or_fail,
    get_str_field, DecodeError, Json,
};
use tim::machine::{init_state, run_program};

fn s(text: &str) -> Json {
    Json::Str(text.to_string())
}

fn obj(fields: Vec<(&str, Json)>) -> Vec<(String, Json)> {
    fields.into_iter().map(|(k, v)| (k.to_string(), v)).collect()
}

fn instr(fields: Vec<(&str, Json)>) -> Json {
    Json::Object(obj(fields))
}

#[test]
fn key_lookup_takes_first_match() {
    let o = obj(vec![("a", Json::Number(1)), ("b", Json::Number(2)), ("a", Json::Number(3))]);
    assert!(matches!(get_key_or_fail(&"a".to_string(), &o), Ok(Json::Number(1))));
    assert!(matches!(get_key_or_fail(&"b".to_string(), &o), Ok(Json::Number(2))));
    assert_eq!(get_key_or_fail(&"c".to_string(), &o).err(), Some(DecodeError::MissingKey));
}

#[test]
fn coercions() {
    assert_eq!(coerce_to_obj(&Json::Null).err(), Some(DecodeError::ExpectedObject));
    assert_eq!(coerce_to_obj(&instr(vec![("x", Json::Null)])).map(|o| o.len()), Ok(1));
    assert_eq!(coerce_to_str(&s("hi")).map(|t| t.clone()), Ok("hi".to_string()));
    assert_eq!(coerce_to_str(&Json::Bool(true)).err(), Some(DecodeError::ExpectedString));
}

#[test]
fn typed_fields() {
    let o = obj(vec![("n", Json::Number(-4)), ("t", s("x"))]);
    assert_eq!(get_int_field(&"n".to_string(), &o), Ok(-4));
    assert_eq!(get_int_field(&"t".to_string(), &o), Err(DecodeError::InvalidInt));
    assert_eq!(get_int_field(&"z".to_string(), &o), Err(DecodeError::MissingKey));
    assert_eq!(get_str_field(&"t".to_string(), &o), Ok("x".to_string()));
    assert_eq!(get_str_field(&"n".to_string(), &o), Err(DecodeError::ExpectedString));
}

#[test]
fn addresses_decode() {
    let a = extract_address(&obj(vec![("addr", s("Arg")), ("arg", Json::Number(2))]));
    assert!(matches!(a, Ok(Address::Arg(2))));
    let a = extract_address(&obj(vec![("addr", s("Const")), ("arg", Json::Number(-9))]));
    assert!(matches!(a, Ok(Address::Const(-9))));
    let a = extract_address(&obj(vec![("addr", s("Label")), ("arg", s("f"))]));
    assert!(matches!(a, Ok(Address::Label(ref l)) if l == "f"));
    let a = extract_address(&obj(vec![("addr", s("Comb")), ("arg", s("k"))]));
    assert!(matches!(a, Ok(Address::Comb(ref l)) if l == "k"));
    let a = extract_address(&obj(vec![("addr", s("Arg")), ("arg", Json::Number(-1))]));
    assert_eq!(a.err(), Some(DecodeError::InvalidInt));
    let a = extract_address(&obj(vec![("addr", s("Nope")), ("arg", Json::Number(1))]));
    assert_eq!(a.err(), Some(DecodeError::InvalidAddress));
}

#[test]
fn value_addresses_and_ops_decode() {
    let v = extract_value_address(&obj(vec![("addr", s("CurrentFrame"))]));
    assert_eq!(v, Ok(ValueAddress::CurrentFrame));
    let v = extract_value_address(&obj(vec![("addr", s("IntVal")), ("arg", Json::Number(5))]));
    assert_eq!(v, Ok(ValueAddress::IntVal(5)));
    let v = extract_value_address(&obj(vec![("addr", s("Arg"))]));
    assert_eq!(v, Err(DecodeError::InvalidAddress));
    assert_eq!(extract_op(&obj(vec![("arg", s("Div"))])), Ok(ValueOp::Div));
    assert_eq!(extract_op(&obj(vec![("arg", s("Sub"))])), Ok(ValueOp::Sub));
    assert_eq!(extract_op(&obj(vec![("arg", s("Mod"))])), Err(DecodeError::InvalidOp));
}

#[test]
fn instructions_decode() {
    let i = extract_instruction(&obj(vec![("instr", s("Take")), ("arg", Json::Number(3))]));
    assert!(matches!(i, Ok(Instruction::Take(3))));
    let i = extract_instruction(&obj(vec![("instr", s("Return"))]));
    assert!(matches!(i, Ok(Instruction::Return)));
    let i = extract_instruction(&obj(vec![("instr", s("Op")), ("arg", s("Mul"))]));
    assert!(matches!(i, Ok(Instruction::Op(ValueOp::Mul))));
    let i = extract_instruction(&obj(vec![("instr", s("Enter")), ("addr", s("Arg")), ("arg", Json::Number(0))]));
    assert!(matches!(i, Ok(Instruction::Enter(Address::Arg(0)))));
    let i = extract_instruction(&obj(vec![("instr", s("Jump"))]));
    assert_eq!(i.err(), Some(DecodeError::UnsupportedInstruction));
    let i = extract_instruction(&obj(vec![("arg", s("Jump"))]));
    assert_eq!(i.err(), Some(DecodeError::MissingKey));
}

#[test]
fn instruction_list_decodes_in_order() {
    let list = Json::List(vec![
        instr(vec![("instr", s("PushV")), ("addr", s("IntVal")), ("arg", Json::Number(1))]),
        instr(vec![("instr", s("Return"))]),
    ]);
    let v = extract_instructions(&list).unwrap();
    assert_eq!(v.len(), 2);
    assert!(matches!(v[0], Instruction::PushV(ValueAddress::IntVal(1))));
    assert!(matches!(v[1], Instruction::Return));
    assert_eq!(extract_instructions(&Json::Null).err(), Some(DecodeError::ExpectedList));
    let bad = Json::List(vec![instr(vec![("instr", s("Return"))]), Json::Number(1)]);
    assert_eq!(extract_instructions(&bad).err(), Some(DecodeError::ExpectedObject));
}

#[test]
fn document_decodes_and_runs() {
    let doc = Json::Object(obj(vec![(
        "main",
        Json::List(vec![
            instr(vec![("instr", s("Take")), ("arg", Json::Number(0))]),
            instr(vec![("instr", s("PushV")), ("addr", s("IntVal")), ("arg", Json::Number(3))]),
            instr(vec![("instr", s("PushV")), ("addr", s("IntVal")), ("arg", Json::Number(4))]),
            instr(vec![("instr", s("Op")), ("arg", s("Add"))]),
            instr(vec![("instr", s("Return"))]),
        ]),
    )]));
    let store = build_codestore(&doc).unwrap();
    let mut state = init_state(store);
    assert_eq!(run_program(&mut state, 100), Ok(true));
    assert_eq!(state.vstack, vec![7]);
}

#[test]
fn document_errors() {
    assert_eq!(build_codestore(&Json::List(vec![])).err(), Some(DecodeError::ExpectedObject));
    let doc = Json::Object(obj(vec![("main", Json::List(vec![])), ("f", Json::Bool(false))]));
    assert_eq!(build_codestore(&doc).err(), Some(DecodeError::ExpectedList));
    let doc = Json::Object(obj(vec![("f", Json::List(vec![instr(vec![("instr", s("Take"))])]))]));
    assert_eq!(build_codestore(&doc).err(), Some(DecodeError::MissingKey));
}
