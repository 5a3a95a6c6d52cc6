use crate::codestore::CodeStore;
use crate::datatypes::{Address, Instruction, ValueAddress, ValueOp};
use vstd::prelude::*;

verus! {

/// A structured-data document, as the loader hands it over.
#[derive(Debug)]
pub enum Json {
    Null,
    Bool(bool),
    Number(i64),
    Str(String),
    List(Vec<Json>),
    Object(Vec<(String, Json)>),
}

/// Why a document does not denote a program.
#[derive(Clone, Copy, PartialEq, Eq, Structural, Debug)]
pub enum DecodeError {
    /// A required field is absent.
    MissingKey,
    /// An object was expected.
    ExpectedObject,
    /// A string was expected.
    ExpectedString,
    /// A list was expected.
    ExpectedList,
    /// A number was expected, or one that fits the field.
    InvalidInt,
    /// An instruction name outside the instruction set.
    UnsupportedInstruction,
    /// An address or value-address kind that does not exist.
    InvalidAddress,
    /// An operator name outside `Add`, `Sub`, `Mul`, `Div`.
    InvalidOp,
}

/// The value of the first field of `obj` named `key`.
pub open spec fn field(obj: Seq<(String, Json)>, key: Seq<char>) -> Option<Json>
    decreases obj.len(),
{
    if obj.len() == 0 {
        None
    } else if obj[0].0@ == key {
        Some(obj[0].1)
    } else {
        field(obj.drop_first(), key)
    }
}

pub open spec fn int_field(obj: Seq<(String, Json)>, key: Seq<char>) -> Result<i64, DecodeError> {
    match field(obj, key) {
        None => Err(DecodeError::MissingKey),
        Some(Json::Number(i)) => Ok(i),
        Some(_) => Err(DecodeError::InvalidInt),
    }
}

pub open spec fn str_field(obj: Seq<(String, Json)>, key: Seq<char>) -> Result<String, DecodeError> {
    match field(obj, key) {
        None => Err(DecodeError::MissingKey),
        Some(Json::Str(s)) => Ok(s),
        Some(_) => Err(DecodeError::ExpectedString),
    }
}

/// A count or index field: a number that fits a `usize`.
pub open spec fn count_field(obj: Seq<(String, Json)>, key: Seq<char>) -> Result<usize, DecodeError> {
    match int_field(obj, key) {
        Err(e) => Err(e),
        Ok(i) => if 0 <= i <= usize::MAX { Ok(i as usize) } else { Err(DecodeError::InvalidInt) },
    }
}

/// The address that `obj` describes in its `addr` and `arg` fields.
pub open spec fn decode_address(obj: Seq<(String, Json)>) -> Result<Address, DecodeError> {
    match str_field(obj, "addr"@) {
        Err(e) => Err(e),
        Ok(kind) => if kind@ == "Arg"@ {
            match count_field(obj, "arg"@) { Ok(n) => Ok(Address::Arg(n)), Err(e) => Err(e) }
        } else if kind@ == "Comb"@ {
            match str_field(obj, "arg"@) { Ok(s) => Ok(Address::Comb(s)), Err(e) => Err(e) }
        } else if kind@ == "Const"@ {
            match int_field(obj, "arg"@) { Ok(i) => Ok(Address::Const(i)), Err(e) => Err(e) }
        } else if kind@ == "Label"@ {
            match str_field(obj, "arg"@) { Ok(s) => Ok(Address::Label(s)), Err(e) => Err(e) }
        } else {
            Err(DecodeError::InvalidAddress)
        },
    }
}

/// The value address that `obj` describes in its `addr` and `arg` fields.
pub open spec fn decode_value_address(obj: Seq<(String, Json)>) -> Result<ValueAddress, DecodeError> {
    match str_field(obj, "addr"@) {
        Err(e) => Err(e),
        Ok(kind) => if kind@ == "CurrentFrame"@ {
            Ok(ValueAddress::CurrentFrame)
        } else if kind@ == "IntVal"@ {
            match int_field(obj, "arg"@) { Ok(i) => Ok(ValueAddress::IntVal(i)), Err(e) => Err(e) }
        } else {
            Err(DecodeError::InvalidAddress)
        },
    }
}

/// The operator that `obj` names in its `arg` field.
pub open spec fn decode_op(obj: Seq<(String, Json)>) -> Result<ValueOp, DecodeError> {
    match str_field(obj, "arg"@) {
        Err(e) => Err(e),
        Ok(name) => if name@ == "Add"@ {
            Ok(ValueOp::Add)
        } else if name@ == "Sub"@ {
            Ok(ValueOp::Sub)
        } else if name@ == "Mul"@ {
            Ok(ValueOp::Mul)
        } else if name@ == "Div"@ {
            Ok(ValueOp::Div)
        } else {
            Err(DecodeError::InvalidOp)
        },
    }
}

/// The instruction that the object `obj` describes, named by its `instr` field.
pub open spec fn decode_instruction(obj: Seq<(String, Json)>) -> Result<Instruction, DecodeError> {
    match str_field(obj, "instr"@) {
        Err(e) => Err(e),
        Ok(name) => if name@ == "Take"@ {
            match count_field(obj, "arg"@) { Ok(n) => Ok(Instruction::Take(n)), Err(e) => Err(e) }
        } else if name@ == "Enter"@ {
            match decode_address(obj) { Ok(a) => Ok(Instruction::Enter(a)), Err(e) => Err(e) }
        } else if name@ == "Push"@ {
            match decode_address(obj) { Ok(a) => Ok(Instruction::Push(a)), Err(e) => Err(e) }
        } else if name@ == "PushV"@ {
            match decode_value_address(obj) { Ok(v) => Ok(Instruction::PushV(v)), Err(e) => Err(e) }
        } else if name@ == "Return"@ {
            Ok(Instruction::Return)
        } else if name@ == "Op"@ {
            match decode_op(obj) { Ok(o) => Ok(Instruction::Op(o)), Err(e) => Err(e) }
        } else {
            Err(DecodeError::UnsupportedInstruction)
        },
    }
}

/// Looks up the first field of `obj` named `key`.
pub fn get_key_or_fail<'a>(key: &String, obj: &'a Vec<(String, Json)>) -> (r: Result<&'a Json, DecodeError>)
    ensures
        match field(obj@, key@) {
            Some(j) => r == Ok::<&Json, DecodeError>(&j),
            None => r == Err::<&Json, DecodeError>(DecodeError::MissingKey),
        },
{
    let mut i: usize = 0;
    assert(obj@.subrange(0, obj@.len() as int) =~= obj@);
    while i < obj.len()
        invariant
            i <= obj@.len(),
            field(obj@, key@) == field(obj@.subrange(i as int, obj@.len() as int), key@),
        decreases obj.len() - i,
    {
        let ghost tail = obj@.subrange(i as int, obj@.len() as int);
        assert(tail.drop_first() =~= obj@.subrange(i + 1, obj@.len() as int));
        if obj[i].0 == *key {
            return Ok(&obj[i].1);
        }
        i = i + 1;
    }
    Err(DecodeError::MissingKey)
}

/// The fields of an object.
pub fn coerce_to_obj(j: &Json) -> (r: Result<&Vec<(String, Json)>, DecodeError>)
    ensures
        match j {
            Json::Object(o) => r == Ok::<&Vec<(String, Json)>, DecodeError>(o),
            _ => r == Err::<&Vec<(String, Json)>, DecodeError>(DecodeError::ExpectedObject),
        },
{
    match j {
        Json::Object(o) => Ok(o),
        _ => Err(DecodeError::ExpectedObject),
    }
}

/// The text of a string.
pub fn coerce_to_str(j: &Json) -> (r: Result<&String, DecodeError>)
    ensures
        match j {
            Json::Str(s) => r == Ok::<&String, DecodeError>(s),
            _ => r == Err::<&String, DecodeError>(DecodeError::ExpectedString),
        },
{
    match j {
        Json::Str(s) => Ok(s),
        _ => Err(DecodeError::ExpectedString),
    }
}

pub fn get_int_field(key: &String, obj: &Vec<(String, Json)>) -> (r: Result<i64, DecodeError>)
    ensures
        r == int_field(obj@, key@),
{
    match get_key_or_fail(key, obj)? {
        Json::Number(i) => Ok(*i),
        _ => Err(DecodeError::InvalidInt),
    }
}

pub fn get_str_field(key: &String, obj: &Vec<(String, Json)>) -> (r: Result<String, DecodeError>)
    ensures
        r == str_field(obj@, key@),
{
    let s = coerce_to_str(get_key_or_fail(key, obj)?)?;
    Ok(s.clone())
}

fn get_count_field(key: &String, obj: &Vec<(String, Json)>) -> (r: Result<usize, DecodeError>)
    ensures
        r == count_field(obj@, key@),
{
    let i = get_int_field(key, obj)?;
    if i < 0 || i as u64 > usize::MAX as u64 {
        Err(DecodeError::InvalidInt)
    } else {
        Ok(i as usize)
    }
}

pub fn extract_address(obj: &Vec<(String, Json)>) -> (r: Result<Address, DecodeError>)
    ensures
        r == decode_address(obj@),
{
    let kind = get_str_field(&"addr".to_owned(), obj)?;
    let arg = "arg".to_owned();
    if kind == "Arg".to_owned() {
        Ok(Address::Arg(get_count_field(&arg, obj)?))
    } else if kind == "Comb".to_owned() {
        Ok(Address::Comb(get_str_field(&arg, obj)?))
    } else if kind == "Const".to_owned() {
        Ok(Address::Const(get_int_field(&arg, obj)?))
    } else if kind == "Label".to_owned() {
        Ok(Address::Label(get_str_field(&arg, obj)?))
    } else {
        Err(DecodeError::InvalidAddress)
    }
}

pub fn extract_value_address(obj: &Vec<(String, Json)>) -> (r: Result<ValueAddress, DecodeError>)
    ensures
        r == decode_value_address(obj@),
{
    let kind = get_str_field(&"addr".to_owned(), obj)?;
    if kind == "CurrentFrame".to_owned() {
        Ok(ValueAddress::CurrentFrame)
    } else if kind == "IntVal".to_owned() {
        Ok(ValueAddress::IntVal(get_int_field(&"arg".to_owned(), obj)?))
    } else {
        Err(DecodeError::InvalidAddress)
    }
}

pub fn extract_op(obj: &Vec<(String, Json)>) -> (r: Result<ValueOp, DecodeError>)
    ensures
        r == decode_op(obj@),
{
    let name = get_str_field(&"arg".to_owned(), obj)?;
    if name == "Add".to_owned() {
        Ok(ValueOp::Add)
    } else if name == "Sub".to_owned() {
        Ok(ValueOp::Sub)
    } else if name == "Mul".to_owned() {
        Ok(ValueOp::Mul)
    } else if name == "Div".to_owned() {
        Ok(ValueOp::Div)
    } else {
        Err(DecodeError::InvalidOp)
    }
}

pub fn extract_instruction(obj: &Vec<(String, Json)>) -> (r: Result<Instruction, DecodeError>)
    ensures
        r == decode_instruction(obj@),
{
    let name = get_str_field(&"instr".to_owned(), obj)?;
    if name == "Take".to_owned() {
        Ok(Instruction::Take(get_count_field(&"arg".to_owned(), obj)?))
    } else if name == "Enter".to_owned() {
        Ok(Instruction::Enter(extract_address(obj)?))
    } else if name == "Push".to_owned() {
        Ok(Instruction::Push(extract_address(obj)?))
    } else if name == "PushV".to_owned() {
        Ok(Instruction::PushV(extract_value_address(obj)?))
    } else if name == "Return".to_owned() {
        Ok(Instruction::Return)
    } else if name == "Op".to_owned() {
        Ok(Instruction::Op(extract_op(obj)?))
    } else {
        Err(DecodeError::UnsupportedInstruction)
    }
}

/// The instructions that a list of instruction objects describes; the first
/// item that fails decides the error.
pub open spec fn decode_items(items: Seq<Json>) -> Result<Seq<Instruction>, DecodeError>
    decreases items.len(),
{
    if items.len() == 0 {
        Ok(Seq::empty())
    } else {
        match decode_items(items.drop_last()) {
            Err(e) => Err(e),
            Ok(prefix) => match items.last() {
                Json::Object(o) => match decode_instruction(o@) {
                    Ok(i) => Ok(prefix.push(i)),
                    Err(e) => Err(e),
                },
                _ => Err(DecodeError::ExpectedObject),
            },
        }
    }
}

pub open spec fn decode_instructions(node: Json) -> Result<Seq<Instruction>, DecodeError> {
    match node {
        Json::List(l) => decode_items(l@),
        _ => Err(DecodeError::ExpectedList),
    }
}

/// The label-to-body mapping that an object of instruction lists describes;
/// a later field of the same name replaces an earlier one.
pub open spec fn decode_store(fields: Seq<(String, Json)>) -> Result<Map<Seq<char>, Seq<Instruction>>, DecodeError>
    decreases fields.len(),
{
    if fields.len() == 0 {
        Ok(Map::empty())
    } else {
        match decode_store(fields.drop_last()) {
            Err(e) => Err(e),
            Ok(m) => match decode_instructions(fields.last().1) {
                Ok(body) => Ok(m.insert(fields.last().0@, body)),
                Err(e) => Err(e),
            },
        }
    }
}

proof fn lemma_items_error_stays(items: Seq<Json>, k: int, e: DecodeError)
    requires
        0 <= k <= items.len(),
        decode_items(items.take(k)) == Err::<Seq<Instruction>, DecodeError>(e),
    ensures
        decode_items(items) == Err::<Seq<Instruction>, DecodeError>(e),
    decreases items.len() - k,
{
    if k < items.len() {
        assert(items.take(k + 1).drop_last() =~= items.take(k));
        lemma_items_error_stays(items, k + 1, e);
    } else {
        assert(items.take(k) =~= items);
    }
}

proof fn lemma_store_error_stays(fields: Seq<(String, Json)>, k: int, e: DecodeError)
    requires
        0 <= k <= fields.len(),
        decode_store(fields.take(k)) == Err::<Map<Seq<char>, Seq<Instruction>>, DecodeError>(e),
    ensures
        decode_store(fields) == Err::<Map<Seq<char>, Seq<Instruction>>, DecodeError>(e),
    decreases fields.len() - k,
{
    if k < fields.len() {
        assert(fields.take(k + 1).drop_last() =~= fields.take(k));
        lemma_store_error_stays(fields, k + 1, e);
    } else {
        assert(fields.take(k) =~= fields);
    }
}

/// Decodes a list of instruction objects.
pub fn extract_instructions(node: &Json) -> (r: Result<Vec<Instruction>, DecodeError>)
    ensures
        match decode_instructions(*node) {
            Ok(s) => r is Ok && r->Ok_0@ == s,
            Err(e) => r == Err::<Vec<Instruction>, DecodeError>(e),
        },
{
    let items = match node {
        Json::List(l) => l,
        _ => return Err(DecodeError::ExpectedList),
    };
    let mut out: Vec<Instruction> = Vec::new();
    let mut i: usize = 0;
    assert(items@.take(0) =~= Seq::<Json>::empty());
    while i < items.len()
        invariant
            i <= items@.len(),
            decode_instructions(*node) == decode_items(items@),
            decode_items(items@.take(i as int)) == Ok::<Seq<Instruction>, DecodeError>(out@),
        decreases items.len() - i,
    {
        assert(items@.take(i + 1).drop_last() =~= items@.take(i as int));
        assert(items@.take(i + 1).last() == items@[i as int]);
        let instr = match &items[i] {
            Json::Object(o) => match extract_instruction(o) {
                Ok(instr) => instr,
                Err(e) => {
                    proof { lemma_items_error_stays(items@, i + 1, e); }
                    return Err(e);
                },
            },
            _ => {
                proof { lemma_items_error_stays(items@, i + 1, DecodeError::ExpectedObject); }
                return Err(DecodeError::ExpectedObject);
            },
        };
        out.push(instr);
        i = i + 1;
    }
    assert(items@.take(i as int) =~= items@);
    Ok(out)
}

/// Builds the code store from an object whose fields bind labels to lists
/// of instruction objects.
pub fn build_codestore(node: &Json) -> (r: Result<CodeStore, DecodeError>)
    ensures
        match node {
            Json::Object(fields) => match decode_store(fields@) {
                Ok(m) => r is Ok && r->Ok_0@ == m,
                Err(e) => r is Err && r->Err_0 == e,
            },
            _ => r is Err && r->Err_0 == DecodeError::ExpectedObject,
        },
{
    let fields = coerce_to_obj(node)?;
    let mut store = CodeStore::new();
    let mut i: usize = 0;
    assert(fields@.take(0) =~= Seq::<(String, Json)>::empty());
    while i < fields.len()
        invariant
            i <= fields@.len(),
            *node matches Json::Object(f) && f@ == fields@,
            decode_store(fields@.take(i as int)) == Ok::<Map<Seq<char>, Seq<Instruction>>, DecodeError>(store@),
        decreases fields.len() - i,
    {
        assert(fields@.take(i + 1).drop_last() =~= fields@.take(i as int));
        assert(fields@.take(i + 1).last() == fields@[i as int]);
        let body = match extract_instructions(&fields[i].1) {
            Ok(body) => body,
            Err(e) => {
                proof { lemma_store_error_stays(fields@, i + 1, e); }
                return Err(e);
            },
        };
        store.insert(fields[i].0.clone(), body);
        i = i + 1;
    }
    assert(fields@.take(i as int) =~= fields@);
    Ok(store)
}

} // verus!
