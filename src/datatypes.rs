use std::rc::Rc;
use vstd::prelude::*;

verus! {

/// An operand that resolves to a closure.
#[derive(Debug)]
pub enum Address {
    /// Positional reference into the current argument frame.
    Arg(usize),
    /// A supercombinator name; no resolution rule is defined for it.
    Comb(String),
    /// An immediate integer, materialised as a closure over an integer frame.
    Const(i64),
    /// A reference to an entry of the code store.
    Label(String),
}

impl Clone for Address {
    fn clone(&self) -> (r: Self)
        ensures
            r == *self,
    {
        match self {
            Address::Arg(n) => Address::Arg(*n),
            Address::Comb(s) => Address::Comb(s.clone()),
            Address::Const(i) => Address::Const(*i),
            Address::Label(s) => Address::Label(s.clone()),
        }
    }
}

/// Where `PushV` takes its integer from.
#[derive(Clone, Copy, PartialEq, Eq, Structural, Debug)]
pub enum ValueAddress {
    /// The integer bound by the current integer frame.
    CurrentFrame,
    /// A literal.
    IntVal(i64),
}

/// The binary operators of the value stack.
#[derive(Clone, Copy, PartialEq, Eq, Structural, Debug)]
pub enum ValueOp {
    Sub,
    Add,
    Div,
    Mul,
}

/// One machine instruction.
#[derive(Debug)]
pub enum Instruction {
    Take(usize),
    Push(Address),
    PushV(ValueAddress),
    Enter(Address),
    Return,
    Op(ValueOp),
}

impl Clone for Instruction {
    fn clone(&self) -> (r: Self)
        ensures
            r == *self,
    {
        match self {
            Instruction::Take(n) => Instruction::Take(*n),
            Instruction::Push(a) => Instruction::Push(a.clone()),
            Instruction::PushV(v) => Instruction::PushV(*v),
            Instruction::Enter(a) => Instruction::Enter(a.clone()),
            Instruction::Return => Instruction::Return,
            Instruction::Op(o) => Instruction::Op(*o),
        }
    }
}

/// A suspended computation: an instruction body and its environment.
#[derive(Debug)]
pub struct Closure {
    pub instrs: Vec<Instruction>,
    pub fidx: Rc<FrameIndex>,
}

/// The environment a closure runs under.
#[derive(Debug)]
pub enum FrameIndex {
    /// A fixed-length argument frame; index 0 is the most recently pushed closure.
    FramePtr(Vec<Rc<Closure>>),
    /// A frame standing for one resolved integer.
    FrameInt(i64),
    /// No environment.
    FrameNone,
}

/// Copies an instruction sequence element for element.
pub fn clone_instrs(v: &Vec<Instruction>) -> (r: Vec<Instruction>)
    ensures
        r@ == v@,
{
    let r = v.clone();
    assert(r@ =~= v@);
    r
}

/// Shares a handle on the same closure.
pub fn share(c: &Rc<Closure>) -> (r: Rc<Closure>)
    ensures
        r == *c,
{
    c.clone()
}

} // verus!
