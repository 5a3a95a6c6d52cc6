use std::rc::Rc;
use tim::codestore::CodeStore;
use tim::datatypes::{Address, Closure, FrameIndex, Instruction, ValueAddress, ValueOp};
use tim::machine::{apply_op, init_state, run_program, step};
use tim::state::{MachineError, State};

fn store_with_main(body: Vec<Instruction>) -> CodeStore {
    let mut store = CodeStore::new();
    store.insert("main".to_string(), body);
    store
}

fn lit(i: i64) -> Instruction {
    Instruction::PushV(ValueAddress::IntVal(i))
}

fn bare_state() -> State {
    State {
        instructions: Vec::new(),
        stack: Vec::new(),
        vstack: Vec::new(),
        fidx: Rc::new(FrameIndex::FrameNone),
        codestore: CodeStore::new(),
    }
}

fn const_closure(i: i64) -> Rc<Closure> {
    Address::Const(i).to_closure(&bare_state()).unwrap()
}

#[test]
fn adds_three_and_four() {
    let store = store_with_main(vec![
        Instruction::Take(0),
        lit(3),
        lit(4),
        Instruction::Op(ValueOp::Add),
        Instruction::Return,
    ]);
    let mut state = init_state(store);
    assert_eq!(run_program(&mut state, 100), Ok(true));
    assert_eq!(state.vstack, vec![7]);
    assert!(state.stack.is_empty());
    assert!(state.is_final());
}

#[test]
fn arithmetic_uses_first_popped_as_left_operand() {
    // (10 pushed, then 2): val1 = 2, val2 = 10, so Sub gives 2 - 10.
    let store = store_with_main(vec![
        Instruction::Take(0),
        lit(10),
        lit(2),
        Instruction::Op(ValueOp::Sub),
        lit(3),
        Instruction::Op(ValueOp::Mul),
        Instruction::Return,
    ]);
    let mut state = init_state(store);
    assert_eq!(run_program(&mut state, 100), Ok(true));
    assert_eq!(state.vstack, vec![-24]);
}

#[test]
fn take_builds_frame_topmost_first() {
    let mut state = bare_state();
    let a = const_closure(1);
    let b = const_closure(2);
    let c = const_closure(3);
    state.push_closure(a.clone());
    state.push_closure(b.clone());
    state.push_closure(c.clone());
    assert_eq!(state.alloc_frame(2), Ok(()));
    assert_eq!(state.stack.len(), 1);
    assert!(Rc::ptr_eq(&state.stack[0], &a));
    match &*state.fidx {
        FrameIndex::FramePtr(f) => {
            assert_eq!(f.len(), 2);
            assert!(Rc::ptr_eq(&f[0], &c));
            assert!(Rc::ptr_eq(&f[1], &b));
        }
        other => panic!("expected an argument frame, got {:?}", other),
    }
}

#[test]
fn take_zero_gives_empty_frame() {
    let mut state = bare_state();
    assert_eq!(state.alloc_frame(0), Ok(()));
    assert!(matches!(&*state.fidx, FrameIndex::FramePtr(f) if f.is_empty()));
}

#[test]
fn take_underflow_is_fatal() {
    let mut state = bare_state();
    state.push_closure(const_closure(1));
    assert_eq!(state.alloc_frame(2), Err(MachineError::StackUnderflow));
    assert_eq!(state.stack.len(), 1);
    assert!(matches!(&*state.fidx, FrameIndex::FrameNone));
}

#[test]
fn const_resolves_to_fresh_closures() {
    let state = bare_state();
    let x = Address::Const(5).to_closure(&state).unwrap();
    let y = Address::Const(5).to_closure(&state).unwrap();
    assert!(!Rc::ptr_eq(&x, &y));
    assert!(x.instrs.is_empty());
    assert!(matches!(*x.fidx, FrameIndex::FrameInt(5)));
    assert!(matches!(*y.fidx, FrameIndex::FrameInt(5)));
}

#[test]
fn absent_label_is_unbound() {
    let mut state = init_state(store_with_main(vec![Instruction::Return]));
    state.push_value(1);
    state.push_closure(const_closure(2));
    let r = Address::Label("nowhere".to_string()).to_closure(&state);
    assert_eq!(r.err(), Some(MachineError::UnboundLabel));
}

#[test]
fn label_closure_captures_current_frame() {
    let mut state = init_state(store_with_main(vec![lit(1), Instruction::Return]));
    state.fidx = Rc::new(FrameIndex::FrameInt(8));
    let c = Address::Label("main".to_string()).to_closure(&state).unwrap();
    assert_eq!(c.instrs.len(), 2);
    assert!(Rc::ptr_eq(&c.fidx, &state.fidx));
}

#[test]
fn enter_arg_zero_runs_pushed_closure() {
    let store = store_with_main(vec![Instruction::Take(1), Instruction::Enter(Address::Arg(0))]);
    let mut state = init_state(store);
    let env = Rc::new(FrameIndex::FrameInt(42));
    let pushed = Rc::new(Closure {
        instrs: vec![Instruction::PushV(ValueAddress::CurrentFrame), Instruction::Return],
        fidx: env.clone(),
    });
    state.push_closure(pushed.clone());
    assert_eq!(step(&mut state), Ok(()));
    assert_eq!(step(&mut state), Ok(()));
    match &*state.fidx {
        FrameIndex::FramePtr(f) => assert!(Rc::ptr_eq(&f[0], &pushed)),
        other => panic!("expected an argument frame, got {:?}", other),
    }
    assert_eq!(step(&mut state), Ok(()));
    assert_eq!(state.instructions.len(), 2);
    assert!(matches!(state.instructions[0], Instruction::PushV(ValueAddress::CurrentFrame)));
    assert!(Rc::ptr_eq(&state.fidx, &env));
    assert_eq!(run_program(&mut state, 10), Ok(true));
    assert_eq!(state.vstack, vec![42]);
}

#[test]
fn division_by_zero_divisor_popped_second() {
    let mut state = bare_state();
    state.vstack = vec![0, 5];
    state.instructions = vec![Instruction::Op(ValueOp::Div)];
    assert_eq!(step(&mut state), Err(MachineError::DivisionByZero));
}

#[test]
fn zero_dividend_popped_first_divides() {
    let mut state = bare_state();
    state.vstack = vec![5, 0];
    state.instructions = vec![Instruction::Op(ValueOp::Div)];
    assert_eq!(step(&mut state), Ok(()));
    assert_eq!(state.vstack, vec![0]);
}

#[test]
fn apply_op_exact_values() {
    assert_eq!(apply_op(ValueOp::Add, 3, 4), Ok(7));
    assert_eq!(apply_op(ValueOp::Sub, 3, 4), Ok(-1));
    assert_eq!(apply_op(ValueOp::Mul, -6, 7), Ok(-42));
    assert_eq!(apply_op(ValueOp::Div, 7, 2), Ok(3));
    assert_eq!(apply_op(ValueOp::Div, -7, 2), Ok(-3));
    assert_eq!(apply_op(ValueOp::Div, 7, -2), Ok(-3));
    assert_eq!(apply_op(ValueOp::Div, -7, -2), Ok(3));
    assert_eq!(apply_op(ValueOp::Div, 1, 0), Err(MachineError::DivisionByZero));
}

#[test]
fn apply_op_overflow() {
    assert_eq!(apply_op(ValueOp::Add, i64::MAX, 1), Err(MachineError::Overflow));
    assert_eq!(apply_op(ValueOp::Sub, i64::MIN, 1), Err(MachineError::Overflow));
    assert_eq!(apply_op(ValueOp::Mul, i64::MAX, 2), Err(MachineError::Overflow));
    assert_eq!(apply_op(ValueOp::Div, i64::MIN, -1), Err(MachineError::Overflow));
    assert_eq!(apply_op(ValueOp::Add, i64::MAX, 0), Ok(i64::MAX));
    assert_eq!(apply_op(ValueOp::Mul, i64::MIN, 1), Ok(i64::MIN));
}

#[test]
fn op_underflow_is_fatal() {
    let mut state = bare_state();
    state.vstack = vec![1];
    state.instructions = vec![Instruction::Op(ValueOp::Add)];
    assert_eq!(step(&mut state), Err(MachineError::StackUnderflow));
}

#[test]
fn arg_outside_frame_is_not_a_frame() {
    let state = bare_state();
    assert_eq!(Address::Arg(0).to_closure(&state).err(), Some(MachineError::NotAFrame));
}

#[test]
fn arg_past_frame_end() {
    let mut state = bare_state();
    state.push_closure(const_closure(1));
    assert_eq!(state.alloc_frame(1), Ok(()));
    assert_eq!(Address::Arg(1).to_closure(&state).err(), Some(MachineError::ArgOutOfRange));
    assert!(Address::Arg(0).to_closure(&state).is_ok());
}

#[test]
fn comb_is_unsupported() {
    let state = bare_state();
    let r = Address::Comb("k".to_string()).to_closure(&state);
    assert_eq!(r.err(), Some(MachineError::UnsupportedAddress));
}

#[test]
fn push_frame_value_needs_integer_frame() {
    let mut state = bare_state();
    assert_eq!(state.push_frame_value(), Err(MachineError::UnexpectedFrameKind));
    state.fidx = Rc::new(FrameIndex::FrameInt(-3));
    assert_eq!(state.push_frame_value(), Ok(()));
    assert_eq!(state.vstack, vec![-3]);
}

#[test]
fn missing_main_is_unbound() {
    let mut state = init_state(CodeStore::new());
    assert_eq!(run_program(&mut state, 10), Err(MachineError::UnboundLabel));
}

#[test]
fn endless_program_runs_out_of_fuel() {
    let store = store_with_main(vec![Instruction::Enter(Address::Label("main".to_string()))]);
    let mut state = init_state(store);
    assert_eq!(run_program(&mut state, 50), Ok(false));
    assert!(!state.is_final());
}

#[test]
fn return_enters_pushed_continuation() {
    let mut store = store_with_main(vec![
        Instruction::Take(0),
        Instruction::Push(Address::Label("k".to_string())),
        lit(6),
        Instruction::Return,
    ]);
    store.insert("k".to_string(), vec![lit(7), Instruction::Op(ValueOp::Mul), Instruction::Return]);
    let mut state = init_state(store);
    assert_eq!(run_program(&mut state, 100), Ok(true));
    assert_eq!(state.vstack, vec![42]);
    assert!(state.stack.is_empty());
}

#[test]
fn code_store_rebinding_replaces() {
    let mut store = CodeStore::new();
    store.insert("f".to_string(), vec![Instruction::Return]);
    store.insert("g".to_string(), vec![]);
    store.insert("f".to_string(), vec![lit(1), lit(2)]);
    assert_eq!(store.get(&"f".to_string()).map(|v| v.len()), Some(2));
    assert_eq!(store.get(&"g".to_string()).map(|v| v.len()), Some(0));
    assert!(store.get(&"h".to_string()).is_none());
}

#[test]
fn state_stack_accessors() {
    let mut state = bare_state();
    assert!(state.pop_stack().is_none());
    assert_eq!(state.pop_value(), None);
    state.push_value(4);
    state.push_value(9);
    assert_eq!(state.pop_value(), Some(9));
    let c = const_closure(2);
    state.push_closure(c.clone());
    assert!(Rc::ptr_eq(&state.pop_stack().unwrap(), &c));
    state.instructions = vec![lit(1), Instruction::Return];
    assert!(matches!(state.pop_instruction(), Instruction::PushV(ValueAddress::IntVal(1))));
    assert_eq!(state.instructions.len(), 1);
    state.set_closure(c.clone());
    assert!(state.is_final());
    assert!(matches!(*state.fidx, FrameIndex::FrameInt(2)));
}

#[test]
fn arithmetic_finishes_within_body_length_plus_one() {
    let body = vec![
        Instruction::Take(0),
        lit(20),
        lit(5),
        Instruction::Op(ValueOp::Div),
        lit(1),
        Instruction::Op(ValueOp::Add),
        Instruction::Return,
    ];
    let budget = body.len() + 1;
    let mut state = init_state(store_with_main(body));
    assert_eq!(run_program(&mut state, budget), Ok(true));
    assert_eq!(state.vstack, vec![1]);
}

#[test]
fn pushed_arg_is_the_frame_closure() {
    let mut state = bare_state();
    let c = const_closure(11);
    state.push_closure(c.clone());
    assert_eq!(state.alloc_frame(1), Ok(()));
    state.instructions = vec![Instruction::Push(Address::Arg(0))];
    assert_eq!(step(&mut state), Ok(()));
    assert_eq!(state.stack.len(), 1);
    assert!(Rc::ptr_eq(&state.stack[0], &c));
}
