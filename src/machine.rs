use crate::codestore::CodeStore;
use crate::datatypes::{Address, FrameIndex, Instruction, ValueAddress, ValueOp};
use crate::state::{frame_of, resolves, taken, MachineError, State};
use std::rc::Rc;
use vstd::prelude::*;

verus! {

/// Integer division rounding toward zero; `b` is not zero.
pub open spec fn trunc_div(a: int, b: int) -> int {
    let q = (if a < 0 { -a } else { a }) / (if b < 0 { -b } else { b });
    if (a < 0) == (b < 0) { q } else { -q }
}

/// `val1 <op> val2` over unbounded integers; `None` for a zero divisor.
pub open spec fn op_value(op: ValueOp, val1: int, val2: int) -> Option<int> {
    match op {
        ValueOp::Add => Some(val1 + val2),
        ValueOp::Sub => Some(val1 - val2),
        ValueOp::Mul => Some(val1 * val2),
        ValueOp::Div => if val2 == 0 { None } else { Some(trunc_div(val1, val2)) },
    }
}

/// What `Op(op)` pushes for `val1` (popped first) and `val2` (popped second).
pub open spec fn op_result(op: ValueOp, val1: i64, val2: i64) -> Result<i64, MachineError> {
    match op_value(op, val1 as int, val2 as int) {
        None => Err(MachineError::DivisionByZero),
        Some(v) => if i64::MIN <= v <= i64::MAX {
            Ok(v as i64)
        } else {
            Err(MachineError::Overflow)
        },
    }
}

/// Computes `val1 <op> val2`.
pub fn apply_op(op: ValueOp, val1: i64, val2: i64) -> (r: Result<i64, MachineError>)
    ensures
        r == op_result(op, val1, val2),
{
    let a = val1 as i128;
    let b = val2 as i128;
    let wide: i128 = match op {
        ValueOp::Add => a + b,
        ValueOp::Sub => a - b,
        ValueOp::Mul => {
            assert(-0x4000_0000_0000_0000_0000_0000_0000_0000 <= (a as int) * (b as int)
                <= 0x4000_0000_0000_0000_0000_0000_0000_0000) by (nonlinear_arith)
                requires
                    -0x8000_0000_0000_0000 <= a <= 0x7fff_ffff_ffff_ffff,
                    -0x8000_0000_0000_0000 <= b <= 0x7fff_ffff_ffff_ffff,
            ;
            a * b
        },
        ValueOp::Div => {
            if b == 0 {
                return Err(MachineError::DivisionByZero);
            }
            let ua: u128 = if a < 0 { (-a) as u128 } else { a as u128 };
            let ub: u128 = if b < 0 { (-b) as u128 } else { b as u128 };
            let q: u128 = ua / ub;
            assert(q <= ua) by (nonlinear_arith)
                requires q == ua / ub, ub > 0;
            if (a < 0) == (b < 0) { q as i128 } else { -(q as i128) }
        },
    };
    if wide < i64::MIN as i128 || wide > i64::MAX as i128 {
        Err(MachineError::Overflow)
    } else {
        Ok(wide as i64)
    }
}

/// The condition that resolving `addr` in `s` raises, if any.
pub open spec fn resolve_error(addr: Address, s: State) -> Option<MachineError> {
    match addr {
        Address::Const(_) => None,
        Address::Label(l) => if s.codestore@.contains_key(l@) { None } else { Some(MachineError::UnboundLabel) },
        Address::Arg(n) => match frame_of(*s.fidx) {
            Some(f) => if n < f.len() { None } else { Some(MachineError::ArgOutOfRange) },
            None => Some(MachineError::NotAFrame),
        },
        Address::Comb(_) => Some(MachineError::UnsupportedAddress),
    }
}

/// The body of the closure that `addr` resolves to in `s`.
pub open spec fn resolved_body(addr: Address, s: State) -> Seq<Instruction> {
    match addr {
        Address::Label(l) => s.codestore@[l@],
        Address::Arg(n) => frame_of(*s.fidx)->Some_0[n as int].instrs@,
        _ => Seq::empty(),
    }
}

/// The environment of the closure that `addr` resolves to in `s`.
pub open spec fn resolved_env(addr: Address, s: State) -> FrameIndex {
    match addr {
        Address::Const(i) => FrameIndex::FrameInt(i),
        Address::Label(_) => *s.fidx,
        Address::Arg(n) => *frame_of(*s.fidx)->Some_0[n as int].fidx,
        Address::Comb(_) => FrameIndex::FrameNone,
    }
}

/// The transition of one instruction from `pre` to `post`, with the
/// condition `r` that it reports. `Return` on an empty closure stack ends the
/// run.
pub open spec fn step_post(pre: State, post: State, r: Result<(), MachineError>) -> bool {
    let rest = pre.instructions@.drop_first();
    &&& post.codestore == pre.codestore
    &&& match pre.instructions@[0] {
        Instruction::Take(n) => if pre.stack@.len() < n {
            r == Err::<(), MachineError>(MachineError::StackUnderflow)
        } else {
            &&& r is Ok
            &&& post.instructions@ == rest
            &&& post.stack@ == pre.stack@.subrange(0, pre.stack@.len() - n)
            &&& frame_of(*post.fidx) == Some(taken(pre.stack@, n as int))
            &&& post.vstack@ == pre.vstack@
        },
        Instruction::Push(a) => match resolve_error(a, pre) {
            Some(e) => r == Err::<(), MachineError>(e),
            None => {
                &&& r is Ok
                &&& post.instructions@ == rest
                &&& post.stack@.len() == pre.stack@.len() + 1
                &&& post.stack@.drop_last() == pre.stack@
                &&& post.stack@.last().instrs@ == resolved_body(a, pre)
                &&& *post.stack@.last().fidx == resolved_env(a, pre)
                &&& resolves(a, pre, Ok(post.stack@.last()))
                &&& post.vstack@ == pre.vstack@
                &&& post.fidx == pre.fidx
            },
        },
        Instruction::Enter(a) => match resolve_error(a, pre) {
            Some(e) => r == Err::<(), MachineError>(e),
            None => {
                &&& r is Ok
                &&& post.instructions@ == resolved_body(a, pre)
                &&& *post.fidx == resolved_env(a, pre)
                &&& post.stack@ == pre.stack@
                &&& post.vstack@ == pre.vstack@
            },
        },
        Instruction::Return => if pre.stack@.len() == 0 {
            &&& r is Ok
            &&& post.instructions@.len() == 0
            &&& post.stack@ == pre.stack@
            &&& post.vstack@ == pre.vstack@
            &&& post.fidx == pre.fidx
        } else {
            &&& r is Ok
            &&& post.instructions@ == pre.stack@.last().instrs@
            &&& post.fidx == pre.stack@.last().fidx
            &&& post.stack@ == pre.stack@.drop_last()
            &&& post.vstack@ == pre.vstack@
        },
        Instruction::PushV(ValueAddress::CurrentFrame) => match *pre.fidx {
            FrameIndex::FrameInt(i) => {
                &&& r is Ok
                &&& post.instructions@ == rest
                &&& post.vstack@ == pre.vstack@.push(i)
                &&& post.stack@ == pre.stack@
                &&& post.fidx == pre.fidx
            },
            _ => r == Err::<(), MachineError>(MachineError::UnexpectedFrameKind),
        },
        Instruction::PushV(ValueAddress::IntVal(i)) => {
            &&& r is Ok
            &&& post.instructions@ == rest
            &&& post.vstack@ == pre.vstack@.push(i)
            &&& post.stack@ == pre.stack@
            &&& post.fidx == pre.fidx
        },
        Instruction::Op(op) => if pre.vstack@.len() < 2 {
            r == Err::<(), MachineError>(MachineError::StackUnderflow)
        } else {
            let n = pre.vstack@.len();
            match op_result(op, pre.vstack@[n - 1], pre.vstack@[n - 2]) {
                Err(e) => r == Err::<(), MachineError>(e),
                Ok(v) => {
                    &&& r is Ok
                    &&& post.instructions@ == rest
                    &&& post.vstack@ == pre.vstack@.take(n - 2).push(v)
                    &&& post.stack@ == pre.stack@
                    &&& post.fidx == pre.fidx
                },
            }
        },
    }
}

/// `Enter(addr)`: resolves `addr` and transfers control into the closure.
pub fn handle_enter(addr: &Address, state: &mut State) -> (r: Result<(), MachineError>)
    ensures
        match resolve_error(*addr, *old(state)) {
            Some(e) => r == Err::<(), MachineError>(e),
            None => {
                &&& r is Ok
                &&& final(state).instructions@ == resolved_body(*addr, *old(state))
                &&& *final(state).fidx == resolved_env(*addr, *old(state))
                &&& final(state).stack == old(state).stack
                &&& final(state).vstack == old(state).vstack
            },
        },
        final(state).codestore == old(state).codestore,
{
    let c = addr.to_closure(state)?;
    state.set_closure(c);
    Ok(())
}

/// `Push(addr)`: resolves `addr` and pushes the closure.
pub fn handle_push(addr: &Address, state: &mut State) -> (r: Result<(), MachineError>)
    ensures
        match resolve_error(*addr, *old(state)) {
            Some(e) => r == Err::<(), MachineError>(e),
            None => {
                &&& r is Ok
                &&& final(state).stack@.len() == old(state).stack@.len() + 1
                &&& final(state).stack@.drop_last() == old(state).stack@
                &&& final(state).stack@.last().instrs@ == resolved_body(*addr, *old(state))
                &&& *final(state).stack@.last().fidx == resolved_env(*addr, *old(state))
                &&& resolves(*addr, *old(state), Ok(final(state).stack@.last()))
                &&& final(state).instructions == old(state).instructions
                &&& final(state).vstack == old(state).vstack
                &&& final(state).fidx == old(state).fidx
            },
        },
        final(state).codestore == old(state).codestore,
{
    let c = addr.to_closure(state)?;
    state.push_closure(c);
    Ok(())
}

proof fn lemma_resolution_ignores_code(a: Address, s: State, t: State)
    requires
        s.fidx == t.fidx,
        s.codestore == t.codestore,
    ensures
        resolve_error(a, s) == resolve_error(a, t),
        resolved_body(a, s) == resolved_body(a, t),
        resolved_env(a, s) == resolved_env(a, t),
        forall|r: Result<Rc<crate::datatypes::Closure>, MachineError>| resolves(a, s, r) == resolves(a, t, r),
{
}

/// Runs the next instruction.
pub fn step(state: &mut State) -> (r: Result<(), MachineError>)
    requires
        old(state).instructions@.len() > 0,
    ensures
        step_post(*old(state), *final(state), r),
{
    let ghost pre = *state;
    let instr = state.pop_instruction();
    match instr {
        Instruction::Take(n) => state.alloc_frame(n),
        Instruction::Push(a) => {
            proof { lemma_resolution_ignores_code(a, pre, *state); }
            handle_push(&a, state)
        },
        Instruction::Enter(a) => {
            proof { lemma_resolution_ignores_code(a, pre, *state); }
            handle_enter(&a, state)
        },
        Instruction::Return => {
            match state.pop_stack() {
                Some(c) => state.set_closure(c),
                None => state.instructions = Vec::new(),
            }
            Ok(())
        },
        Instruction::PushV(ValueAddress::CurrentFrame) => state.push_frame_value(),
        Instruction::PushV(ValueAddress::IntVal(i)) => {
            state.push_value(i);
            Ok(())
        },
        Instruction::Op(op) => {
            if state.vstack.len() < 2 {
                return Err(MachineError::StackUnderflow);
            }
            let val1 = state.pop_value().unwrap();
            let val2 = state.pop_value().unwrap();
            let v = apply_op(op, val1, val2)?;
            state.push_value(v);
            assert(state.vstack@ =~= pre.vstack@.take(pre.vstack@.len() - 2).push(v));
            Ok(())
        },
    }
}

/// The label that a run starts from.
pub open spec fn main_label() -> Seq<char> {
    seq!['m', 'a', 'i', 'n']
}

/// The initial state over `codestore`: about to enter `main`, with empty
/// stacks and no environment.
pub fn init_state(codestore: CodeStore) -> (r: State)
    ensures
        r.instructions@.len() == 1,
        r.instructions@[0] matches Instruction::Enter(Address::Label(l)) && l@ == main_label(),
        r.stack@.len() == 0,
        r.vstack@.len() == 0,
        *r.fidx == FrameIndex::FrameNone,
        r.codestore == codestore,
        codestore@.contains_key(main_label()) && arith_code(codestore@[main_label()]) ==> {
            &&& arith_program(r)
            &&& arith_meaning(r) == arith_eval(codestore@[main_label()], Seq::empty())
            &&& arith_length(r) == 1 + codestore@[main_label()].len()
        },
{
    let main = "main".to_owned();
    proof {
        reveal_strlit("main");
        assert(main@ =~= main_label());
    }
    let mut instructions: Vec<Instruction> = Vec::new();
    instructions.push(Instruction::Enter(Address::Label(main)));
    State {
        instructions,
        stack: Vec::new(),
        vstack: Vec::new(),
        fidx: Rc::new(FrameIndex::FrameNone),
        codestore,
    }
}

/// An instruction of straight-line arithmetic code: `Take(0)`, `PushV` of a
/// literal, `Op`, or `Return`.
pub open spec fn arith_instr(i: Instruction) -> bool {
    match i {
        Instruction::Take(n) => n == 0,
        Instruction::PushV(ValueAddress::IntVal(_)) => true,
        Instruction::Op(_) => true,
        Instruction::Return => true,
        _ => false,
    }
}

pub open spec fn arith_code(code: Seq<Instruction>) -> bool {
    forall|k: int| 0 <= k < code.len() ==> arith_instr(#[trigger] code[k])
}

/// The value stack that straight-line arithmetic `code` leaves when run on
/// `vs` with an empty closure stack (`Op` computes `val1 <op> val2`, `val1`
/// popped first; `Return` ends the run); `None` where the code fails.
pub open spec fn arith_eval(code: Seq<Instruction>, vs: Seq<i64>) -> Option<Seq<i64>>
    decreases code.len(),
{
    if code.len() == 0 {
        Some(vs)
    } else {
        let rest = code.drop_first();
        match code[0] {
            Instruction::Take(n) => if n == 0 { arith_eval(rest, vs) } else { None },
            Instruction::PushV(ValueAddress::IntVal(i)) => arith_eval(rest, vs.push(i)),
            Instruction::Op(op) => if vs.len() < 2 {
                None
            } else {
                match op_result(op, vs[vs.len() - 1], vs[vs.len() - 2]) {
                    Ok(v) => arith_eval(rest, vs.take(vs.len() - 2).push(v)),
                    Err(_) => None,
                }
            },
            Instruction::Return => Some(vs),
            _ => None,
        }
    }
}

/// `s` runs straight-line arithmetic with an empty closure stack, either as
/// its remaining instructions or as the body of the label it is about to
/// enter.
pub open spec fn arith_program(s: State) -> bool {
    &&& s.stack@.len() == 0
    &&& arith_code(s.instructions@) || {
        &&& s.instructions@.len() == 1
        &&& s.instructions@[0] matches Instruction::Enter(Address::Label(l))
            && s.codestore@.contains_key(l@) && arith_code(s.codestore@[l@])
    }
}

/// The value stack that the arithmetic of `s` ends with.
pub open spec fn arith_meaning(s: State) -> Option<Seq<i64>> {
    if arith_code(s.instructions@) {
        arith_eval(s.instructions@, s.vstack@)
    } else {
        match s.instructions@[0] {
            Instruction::Enter(Address::Label(l)) => arith_eval(s.codestore@[l@], s.vstack@),
            _ => None,
        }
    }
}

/// How many steps at most the arithmetic of `s` has left to run.
pub open spec fn arith_length(s: State) -> nat {
    if arith_code(s.instructions@) {
        s.instructions@.len()
    } else {
        match s.instructions@[0] {
            Instruction::Enter(Address::Label(l)) => 1 + s.codestore@[l@].len(),
            _ => 0,
        }
    }
}

/// A straight-line arithmetic program whose arithmetic succeeds cannot
/// raise a fatal condition on its next step.
pub proof fn lemma_arith_step_succeeds(pre: State, post: State, r: Result<(), MachineError>)
    requires
        arith_program(pre),
        arith_meaning(pre) is Some,
        pre.instructions@.len() > 0,
        step_post(pre, post, r),
    ensures
        r is Ok,
{
    let code = pre.instructions@;
    if arith_code(code) {
        assert(arith_instr(code[0]));
    }
}

/// Every successful step of a straight-line arithmetic program keeps it one,
/// with the same final value stack and fewer steps left.
pub proof fn lemma_arith_step(pre: State, post: State, r: Result<(), MachineError>)
    requires
        arith_program(pre),
        pre.instructions@.len() > 0,
        step_post(pre, post, r),
        r is Ok,
    ensures
        arith_program(post),
        arith_meaning(post) == arith_meaning(pre),
        arith_length(post) < arith_length(pre),
{
    let code = pre.instructions@;
    if arith_code(code) {
        assert(arith_instr(code[0]));
        let rest = code.drop_first();
        assert(arith_code(rest)) by {
            assert forall|k: int| 0 <= k < rest.len() implies arith_instr(#[trigger] rest[k]) by {
                assert(rest[k] == code[k + 1]);
            }
        }
        match code[0] {
            Instruction::Return => {
                assert(arith_code(post.instructions@));
            },
            Instruction::Take(n) => {
                assert(post.stack@ =~= Seq::<Rc<crate::datatypes::Closure>>::empty());
            },
            _ => {},
        }
    } else {
        assert(post.instructions@ == post.codestore@[match code[0] {
            Instruction::Enter(Address::Label(l)) => l@,
            _ => Seq::empty(),
        }]);
    }
}

/// A straight-line arithmetic program that has run out of instructions has
/// reached the value stack it denotes.
pub proof fn lemma_arith_final(s: State)
    requires
        arith_program(s),
        s.instructions@.len() == 0,
    ensures
        arith_meaning(s) == Some(s.vstack@),
{
}

/// `t` is a run: each state but the last has an instruction left, and
/// steps to the next one without a fatal condition.
pub open spec fn is_run(t: Seq<State>) -> bool {
    &&& t.len() >= 1
    &&& forall|k: int| 0 <= k < t.len() - 1 ==> (#[trigger] t[k]).instructions@.len() > 0
        && step_post(t[k], t[k + 1], Ok(()))
}

/// Runs at most `fuel` steps; `Ok(true)` once the instructions are used up,
/// `Ok(false)` if the fuel ran out first.
pub fn run_program(state: &mut State, fuel: usize) -> (r: Result<bool, MachineError>)
    ensures
        r == Ok::<bool, MachineError>(true) ==> final(state).instructions@.len() == 0,
        r == Ok::<bool, MachineError>(false) ==> final(state).instructions@.len() > 0,
        old(state).instructions@.len() == 0 ==> r == Ok::<bool, MachineError>(true)
            && *final(state) == *old(state),
        final(state).codestore == old(state).codestore,
        r is Ok ==> exists|t: Seq<State>| {
            &&& is_run(t)
            &&& t[0] == *old(state)
            &&& t.last() == *final(state)
            &&& r == Ok::<bool, MachineError>(false) ==> t.len() == fuel + 1
        },
        r is Err ==> exists|t: Seq<State>| {
            &&& is_run(t)
            &&& t[0] == *old(state)
            &&& t.last().instructions@.len() > 0
            &&& step_post(t.last(), *final(state), Err(r->Err_0))
        },
        arith_program(*old(state)) && arith_meaning(*old(state)) is Some
            && fuel >= arith_length(*old(state)) ==> r == Ok::<bool, MachineError>(true),
        arith_program(*old(state)) && r == Ok::<bool, MachineError>(true) ==> {
            &&& arith_meaning(*old(state)) == Some(final(state).vstack@)
            &&& final(state).stack@.len() == 0
        },
{
    let mut k: usize = 0;
    let ghost mut t: Seq<State> = seq![*state];
    while !state.is_final()
        invariant
            k <= fuel,
            is_run(t),
            t.len() == k + 1,
            t[0] == *old(state),
            t.last() == *state,
            state.codestore == old(state).codestore,
            old(state).instructions@.len() == 0 ==> *state == *old(state),
            arith_program(*old(state)) ==> arith_program(*state)
                && arith_meaning(*state) == arith_meaning(*old(state))
                && k + arith_length(*state) <= arith_length(*old(state)),
        decreases fuel - k,
    {
        if k == fuel {
            return Ok(false);
        }
        let ghost pre = *state;
        let res = step(state);
        proof {
            if arith_program(*old(state)) {
                if arith_meaning(*old(state)) is Some {
                    lemma_arith_step_succeeds(pre, *state, res);
                }
                if res is Ok {
                    lemma_arith_step(pre, *state, res);
                }
            }
        }
        if let Err(e) = res {
            return Err(e);
        }
        proof {
            let t2 = t.push(*state);
            assert forall|j: int| 0 <= j < t2.len() - 1 implies (#[trigger] t2[j]).instructions@.len() > 0
                && step_post(t2[j], t2[j + 1], Ok(())) by {
                if j < t.len() - 1 {
                    assert(t2[j] == t[j] && t2[j + 1] == t[j + 1]);
                }
            }
            t = t2;
        }
        k = k + 1;
    }
    proof {
        if arith_program(*old(state)) {
            lemma_arith_final(*state);
        }
    }
    Ok(true)
}

} // verus!
