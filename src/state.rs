use crate::codestore::CodeStore;
use crate::datatypes::{clone_instrs, share, Address, Closure, FrameIndex, Instruction};
use std::rc::Rc;
use vstd::prelude::*;

verus! {

/// The fatal conditions of the machine. Each one means the program is
/// malformed; the run stops where it arises.
#[derive(Clone, Copy, PartialEq, Eq, Structural, Debug)]
pub enum MachineError {
    /// A `Label` address names no entry of the code store.
    UnboundLabel,
    /// An `Arg` address was resolved outside an argument frame.
    NotAFrame,
    /// An `Arg` address indexes past the end of the current frame.
    ArgOutOfRange,
    /// `PushV(CurrentFrame)` ran outside an integer frame.
    UnexpectedFrameKind,
    /// An address kind with no resolution rule (`Comb`).
    UnsupportedAddress,
    /// `Take` or `Op` found too few elements on its stack.
    StackUnderflow,
    /// `Op(Div)` with a zero divisor.
    DivisionByZero,
    /// An `Op` whose result does not fit in an `i64`.
    Overflow,
}

/// The register set of the machine.
#[derive(Debug)]
pub struct State {
    /// The instructions that remain to run, next one first.
    pub instructions: Vec<Instruction>,
    /// The closure stack; its top is the last element.
    pub stack: Vec<Rc<Closure>>,
    /// The value stack; its top is the last element.
    pub vstack: Vec<i64>,
    /// The current environment.
    pub fidx: Rc<FrameIndex>,
    /// The program, read-only during a run.
    pub codestore: CodeStore,
}

/// The frame that `Take(n)` builds from `stack`: element `i` is the `(i+1)`-th
/// closure from the top.
pub open spec fn taken(stack: Seq<Rc<Closure>>, n: int) -> Seq<Rc<Closure>> {
    Seq::new(n as nat, |i: int| stack[stack.len() - 1 - i])
}

/// The closures of an argument frame; `None` for the other environments.
pub open spec fn frame_of(f: FrameIndex) -> Option<Seq<Rc<Closure>>> {
    match f {
        FrameIndex::FramePtr(v) => Some(v@),
        _ => None,
    }
}

/// What resolving `addr` in `state` yields: the closure it denotes (checked
/// with `denotes`) or the fatal condition it raises.
pub open spec fn resolves(addr: Address, state: State, r: Result<Rc<Closure>, MachineError>) -> bool {
    match addr {
        Address::Const(i) => r is Ok && r->Ok_0.instrs@.len() == 0
            && *r->Ok_0.fidx == FrameIndex::FrameInt(i),
        Address::Label(l) => if state.codestore@.contains_key(l@) {
            r is Ok && r->Ok_0.instrs@ == state.codestore@[l@] && r->Ok_0.fidx == state.fidx
        } else {
            r == Err::<Rc<Closure>, MachineError>(MachineError::UnboundLabel)
        },
        Address::Arg(n) => match *state.fidx {
            FrameIndex::FramePtr(f) => if n < f@.len() {
                r == Ok::<Rc<Closure>, MachineError>(f@[n as int])
            } else {
                r == Err::<Rc<Closure>, MachineError>(MachineError::ArgOutOfRange)
            },
            _ => r == Err::<Rc<Closure>, MachineError>(MachineError::NotAFrame),
        },
        Address::Comb(_) => r == Err::<Rc<Closure>, MachineError>(MachineError::UnsupportedAddress),
    }
}

impl Address {
    /// Resolves this operand to a closure in `state`; `state` is not changed.
    pub fn to_closure(&self, state: &State) -> (r: Result<Rc<Closure>, MachineError>)
        ensures
            resolves(*self, *state, r),
    {
        match self {
            Address::Const(i) => {
                let fidx = Rc::new(FrameIndex::FrameInt(*i));
                Ok(Rc::new(Closure { instrs: Vec::new(), fidx }))
            },
            Address::Label(l) => match state.codestore.get(l) {
                Some(body) => {
                    let instrs = clone_instrs(body);
                    let fidx = state.fidx.clone();
                    Ok(Rc::new(Closure { instrs, fidx }))
                },
                None => Err(MachineError::UnboundLabel),
            },
            Address::Arg(n) => match &*state.fidx {
                FrameIndex::FramePtr(f) => {
                    if *n < f.len() {
                        Ok(share(&f[*n]))
                    } else {
                        Err(MachineError::ArgOutOfRange)
                    }
                },
                _ => Err(MachineError::NotAFrame),
            },
            Address::Comb(_) => Err(MachineError::UnsupportedAddress),
        }
    }
}

/// Two resolutions of the same constant, in any two states, each yield an
/// empty body over the integer frame of that constant.
pub proof fn lemma_const_resolves_alike(
    i: i64,
    s1: State,
    s2: State,
    r1: Result<Rc<Closure>, MachineError>,
    r2: Result<Rc<Closure>, MachineError>,
)
    requires
        resolves(Address::Const(i), s1, r1),
        resolves(Address::Const(i), s2, r2),
    ensures
        r1 is Ok && r2 is Ok,
        r1->Ok_0.instrs@ == r2->Ok_0.instrs@,
        *r1->Ok_0.fidx == FrameIndex::FrameInt(i),
        *r2->Ok_0.fidx == FrameIndex::FrameInt(i),
{
}

/// A label that the code store does not bind resolves to `UnboundLabel`,
/// whatever the rest of the state holds.
pub proof fn lemma_unbound_label(name: String, s: State, r: Result<Rc<Closure>, MachineError>)
    requires
        !s.codestore@.contains_key(name@),
        resolves(Address::Label(name), s, r),
    ensures
        r == Err::<Rc<Closure>, MachineError>(MachineError::UnboundLabel),
{
}

impl State {
    pub fn is_final(&self) -> (r: bool)
        ensures
            r == (self.instructions@.len() == 0),
    {
        self.instructions.len() == 0
    }

    /// `Take(n)`: moves the top `n` closures into a new frame, the topmost at
    /// index 0, and makes it the current frame.
    pub fn alloc_frame(&mut self, n: usize) -> (r: Result<(), MachineError>)
        ensures
            old(self).stack@.len() < n ==> r == Err::<(), MachineError>(MachineError::StackUnderflow)
                && *final(self) == *old(self),
            old(self).stack@.len() >= n ==> r is Ok
                && final(self).stack@ == old(self).stack@.subrange(0, old(self).stack@.len() - n)
                && frame_of(*final(self).fidx) == Some(taken(old(self).stack@, n as int))
                && final(self).instructions == old(self).instructions
                && final(self).vstack == old(self).vstack
                && final(self).codestore == old(self).codestore,
    {
        if self.stack.len() < n {
            return Err(MachineError::StackUnderflow);
        }
        let ghost s0 = self.stack@;
        let mut frame: Vec<Rc<Closure>> = Vec::new();
        let mut k: usize = 0;
        while k < n
            invariant
                k <= n,
                n <= s0.len(),
                self.stack@ == s0.subrange(0, s0.len() - k),
                frame@ == taken(s0, k as int),
                self.instructions == old(self).instructions,
                self.vstack == old(self).vstack,
                self.codestore == old(self).codestore,
            decreases n - k,
        {
            let c = self.stack.pop().unwrap();
            frame.push(c);
            k = k + 1;
            assert(frame@ =~= taken(s0, k as int));
            assert(self.stack@ =~= s0.subrange(0, s0.len() - k));
        }
        self.fidx = Rc::new(FrameIndex::FramePtr(frame));
        Ok(())
    }

    /// Pushes `c` onto the closure stack.
    pub fn push_closure(&mut self, c: Rc<Closure>)
        ensures
            final(self).stack@ == old(self).stack@.push(c),
            final(self).instructions == old(self).instructions,
            final(self).vstack == old(self).vstack,
            final(self).fidx == old(self).fidx,
            final(self).codestore == old(self).codestore,
    {
        self.stack.push(c);
    }

    /// Transfers control into `c`: its body becomes the remaining
    /// instructions and its environment the current frame.
    pub fn set_closure(&mut self, c: Rc<Closure>)
        ensures
            final(self).instructions@ == c.instrs@,
            final(self).fidx == c.fidx,
            final(self).stack == old(self).stack,
            final(self).vstack == old(self).vstack,
            final(self).codestore == old(self).codestore,
    {
        self.instructions = clone_instrs(&c.instrs);
        self.fidx = c.fidx.clone();
    }

    /// Removes and returns the next instruction.
    pub fn pop_instruction(&mut self) -> (r: Instruction)
        requires
            old(self).instructions@.len() > 0,
        ensures
            r == old(self).instructions@[0],
            final(self).instructions@ == old(self).instructions@.drop_first(),
            final(self).stack == old(self).stack,
            final(self).vstack == old(self).vstack,
            final(self).fidx == old(self).fidx,
            final(self).codestore == old(self).codestore,
    {
        self.instructions.remove(0)
    }

    /// Pops the top of the closure stack; `None` when it is empty.
    pub fn pop_stack(&mut self) -> (r: Option<Rc<Closure>>)
        ensures
            old(self).stack@.len() == 0 ==> r is None && final(self).stack == old(self).stack,
            old(self).stack@.len() > 0 ==> r == Some(old(self).stack@.last())
                && final(self).stack@ == old(self).stack@.drop_last(),
            final(self).instructions == old(self).instructions,
            final(self).vstack == old(self).vstack,
            final(self).fidx == old(self).fidx,
            final(self).codestore == old(self).codestore,
    {
        if self.stack.len() == 0 {
            None
        } else {
            self.stack.pop()
        }
    }

    /// `PushV(CurrentFrame)`: pushes the integer of the current integer frame.
    pub fn push_frame_value(&mut self) -> (r: Result<(), MachineError>)
        ensures
            match *old(self).fidx {
                FrameIndex::FrameInt(i) => r is Ok && final(self).vstack@ == old(self).vstack@.push(i),
                _ => r == Err::<(), MachineError>(MachineError::UnexpectedFrameKind)
                    && final(self).vstack == old(self).vstack,
            },
            final(self).instructions == old(self).instructions,
            final(self).stack == old(self).stack,
            final(self).fidx == old(self).fidx,
            final(self).codestore == old(self).codestore,
    {
        match &*self.fidx {
            FrameIndex::FrameInt(i) => {
                let v = *i;
                self.push_value(v);
                Ok(())
            },
            _ => Err(MachineError::UnexpectedFrameKind),
        }
    }

    /// Pushes `val` onto the value stack.
    pub fn push_value(&mut self, val: i64)
        ensures
            final(self).vstack@ == old(self).vstack@.push(val),
            final(self).instructions == old(self).instructions,
            final(self).stack == old(self).stack,
            final(self).fidx == old(self).fidx,
            final(self).codestore == old(self).codestore,
    {
        self.vstack.push(val);
    }

    /// Pops the top of the value stack; `None` when it is empty.
    pub fn pop_value(&mut self) -> (r: Option<i64>)
        ensures
            old(self).vstack@.len() == 0 ==> r is None && final(self).vstack == old(self).vstack,
            old(self).vstack@.len() > 0 ==> r == Some(old(self).vstack@.last())
                && final(self).vstack@ == old(self).vstack@.drop_last(),
            final(self).instructions == old(self).instructions,
            final(self).stack == old(self).stack,
            final(self).fidx == old(self).fidx,
            final(self).codestore == old(self).codestore,
    {
        if self.vstack.len() == 0 {
            None
        } else {
            self.vstack.pop()
        }
    }
}

} // verus!
