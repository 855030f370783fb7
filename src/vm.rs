//! The executor: a stack machine with a bounded operand stack and a bounded,
//! append-only heap.
//!
//! Conventions chosen here: a binary operator takes its left operand from
//! below its right operand (push the left one first); arithmetic that leaves
//! the range of `i32`, and division by zero, stop the run with an error.

use crate::isa::{Binop, Instr, Unop, Val};
use vstd::prelude::*;
use vstd::slice::slice_to_vec;
use vstd::string::StringExecFns;

verus! {

/// Capacity of the operand stack.
pub const STK_SIZE: usize = 1024;

/// Capacity of the heap.
pub const HEAP_SIZE: usize = 1024;

/// Most steps a run takes before it gives up.
pub const MAX_STEPS: u64 = 0xffff_ffff_ffff_ffff;

/// Whether a driver prints the machine state before each step.
#[allow(non_camel_case_types)]
#[derive(Clone, Copy)]
pub enum Debug {
    DEBUG,
    NODEBUG,
}

/// Why a run stopped without a value.
#[derive(Debug, Clone, Copy, PartialEq, Eq, Structural)]
pub enum VmError {
    /// The counter names no instruction.
    PcOutOfBounds,
    /// A push onto a full stack.
    StackOverflow,
    /// A pop from an empty stack.
    StackUnderflow,
    /// An operand that should be a boolean.
    ExpectedBool,
    /// An operand that should be an integer.
    ExpectedInt,
    /// A branch target that is not a location.
    ExpectedLoc,
    /// An array operand that is not a heap address.
    ExpectedAddress,
    /// An arithmetic result outside the range of `i32`.
    Overflow,
    /// Division by zero.
    DivideByZero,
    /// An allocation of a negative number of elements.
    NegativeSize,
    /// An allocation that does not fit in the heap.
    HeapFull,
    /// An array access beyond the heap.
    HeapRange,
    /// An array access whose base holds no size marker.
    NotArray,
    /// An array index outside the array.
    IndexPastEnd,
    /// A peek below the bottom of the stack.
    PeekRange,
    /// A local read beyond the top of the stack.
    VarRange,
    /// A local write beyond the top of the stack.
    StoreRange,
    /// A frame that would start below the bottom of the stack.
    FrameRange,
    /// A call target that is not a location.
    CallTarget,
    /// A return whose saved counter or frame pointer is not a location.
    RetLocations,
    /// A run that did not halt within the step limit.
    StepLimit,
    /// A halt with more than one value on the stack.
    LeftoverValues,
}

impl VmError {
    /// The message reported for the error.
    pub open spec fn text(self) -> Seq<char> {
        match self {
            VmError::PcOutOfBounds => "pc out of bounds"@,
            VmError::StackOverflow => "out of stack space"@,
            VmError::StackUnderflow => "attempt to pop empty stack"@,
            VmError::ExpectedBool => "expected bool"@,
            VmError::ExpectedInt => "expected i32"@,
            VmError::ExpectedLoc => "expected location"@,
            VmError::ExpectedAddress => "expected address"@,
            VmError::Overflow => "arithmetic overflow"@,
            VmError::DivideByZero => "division by zero"@,
            VmError::NegativeSize => "negative array size"@,
            VmError::HeapFull => "out of heap space"@,
            VmError::HeapRange => "indexing past end of heap"@,
            VmError::NotArray => "expected size at array location"@,
            VmError::IndexPastEnd => "index past end of array"@,
            VmError::PeekRange => "peek past bottom of stack"@,
            VmError::VarRange => "variable access past end of stack"@,
            VmError::StoreRange => "store past end of stack"@,
            VmError::FrameRange => "frame below bottom of stack"@,
            VmError::CallTarget => "expected loc for call target"@,
            VmError::RetLocations => "expected location for pc and fp in return"@,
            VmError::StepLimit => "step limit exceeded"@,
            VmError::LeftoverValues => "more than one value on the stack at halt"@,
        }
    }

    pub fn message(&self) -> (r: String)
        ensures
            r@ == self.text(),
    {
        match self {
            VmError::PcOutOfBounds => String::from_str("pc out of bounds"),
            VmError::StackOverflow => String::from_str("out of stack space"),
            VmError::StackUnderflow => String::from_str("attempt to pop empty stack"),
            VmError::ExpectedBool => String::from_str("expected bool"),
            VmError::ExpectedInt => String::from_str("expected i32"),
            VmError::ExpectedLoc => String::from_str("expected location"),
            VmError::ExpectedAddress => String::from_str("expected address"),
            VmError::Overflow => String::from_str("arithmetic overflow"),
            VmError::DivideByZero => String::from_str("division by zero"),
            VmError::NegativeSize => String::from_str("negative array size"),
            VmError::HeapFull => String::from_str("out of heap space"),
            VmError::HeapRange => String::from_str("indexing past end of heap"),
            VmError::NotArray => String::from_str("expected size at array location"),
            VmError::IndexPastEnd => String::from_str("index past end of array"),
            VmError::PeekRange => String::from_str("peek past bottom of stack"),
            VmError::VarRange => String::from_str("variable access past end of stack"),
            VmError::StoreRange => String::from_str("store past end of stack"),
            VmError::FrameRange => String::from_str("frame below bottom of stack"),
            VmError::CallTarget => String::from_str("expected loc for call target"),
            VmError::RetLocations => String::from_str("expected location for pc and fp in return"),
            VmError::StepLimit => String::from_str("step limit exceeded"),
            VmError::LeftoverValues => String::from_str("more than one value on the stack at halt"),
        }
    }
}

/// The machine state as a mathematical value.
pub struct MState {
    pub pc: u32,
    pub fp: u32,
    pub stk: Seq<Val>,
    pub heap: Seq<Val>,
}

/// The state a run starts from.
pub open spec fn initial_m() -> MState {
    MState { pc: 0, fp: 0, stk: Seq::empty(), heap: Seq::empty() }
}

pub open spec fn push_m(m: MState, v: Val) -> Result<MState, VmError> {
    if m.stk.len() < STK_SIZE {
        Ok(MState { stk: m.stk.push(v), ..m })
    } else {
        Err(VmError::StackOverflow)
    }
}

pub open spec fn pop_m(m: MState) -> Result<(Val, MState), VmError> {
    if m.stk.len() > 0 {
        Ok((m.stk.last(), MState { stk: m.stk.drop_last(), ..m }))
    } else {
        Err(VmError::StackUnderflow)
    }
}

/// A unary operator applied to a value.
pub open spec fn unop_spec(u: Unop, v: Val) -> Result<Val, VmError> {
    match v {
        Val::Vbool(b) => Ok(Val::Vbool(!b)),
        _ => Err(VmError::ExpectedBool),
    }
}

/// An integer result, or an overflow.
pub open spec fn int_result(x: int) -> Result<Val, VmError> {
    if i32::MIN <= x <= i32::MAX {
        Ok(Val::Vi32(x as i32))
    } else {
        Err(VmError::Overflow)
    }
}

/// A binary operator applied to a left and a right operand.
pub open spec fn binop_spec(b: Binop, left: Val, right: Val) -> Result<Val, VmError> {
    match (left, right) {
        (Val::Vi32(l), Val::Vi32(r)) => match b {
            Binop::Add => int_result(l + r),
            Binop::Mul => int_result(l * r),
            Binop::Sub => int_result(l - r),
            Binop::Div => if r == 0 {
                Err(VmError::DivideByZero)
            } else {
                match l.checked_div(r) {
                    Some(q) => Ok(Val::Vi32(q)),
                    None => Err(VmError::Overflow),
                }
            },
            Binop::Lt => Ok(Val::Vbool(l < r)),
            Binop::Eq => Ok(Val::Vbool(l == r)),
        },
        _ => Err(VmError::ExpectedInt),
    }
}

pub open spec fn peek_spec(m: MState, i: u32) -> Result<MState, VmError> {
    if (i as int) < m.stk.len() {
        push_m(m, m.stk[m.stk.len() - 1 - i])
    } else {
        Err(VmError::PeekRange)
    }
}

pub open spec fn unary_spec(m: MState, u: Unop) -> Result<MState, VmError> {
    match pop_m(m) {
        Err(e) => Err(e),
        Ok((v, m1)) => match unop_spec(u, v) {
            Ok(r) => push_m(m1, r),
            Err(e) => Err(e),
        },
    }
}

pub open spec fn binary_spec(m: MState, b: Binop) -> Result<MState, VmError> {
    match pop_m(m) {
        Err(e) => Err(e),
        Ok((right, m1)) => match pop_m(m1) {
            Err(e) => Err(e),
            Ok((left, m2)) => match binop_spec(b, left, right) {
                Ok(r) => push_m(m2, r),
                Err(e) => Err(e),
            },
        },
    }
}

pub open spec fn swap_spec(m: MState) -> Result<MState, VmError> {
    if m.stk.len() >= 2 {
        let n = m.stk.len();
        Ok(MState { stk: m.stk.take(n - 2).push(m.stk[n - 1]).push(m.stk[n - 2]), ..m })
    } else {
        Err(VmError::StackUnderflow)
    }
}

/// A block of `n` copies of `v`.
pub open spec fn block(n: nat, v: Val) -> Seq<Val> {
    Seq::new(n, |k: int| v)
}

pub open spec fn alloc_spec(m: MState) -> Result<MState, VmError> {
    match pop_m(m) {
        Err(e) => Err(e),
        Ok((init, m1)) => match pop_m(m1) {
            Err(e) => Err(e),
            Ok((vsize, m2)) => match vsize {
                Val::Vi32(n) => if n < 0 {
                    Err(VmError::NegativeSize)
                } else if m2.heap.len() + n + 1 < HEAP_SIZE {
                    push_m(
                        MState {
                            heap: m2.heap.push(Val::Vsize(n as usize)) + block(n as nat, init),
                            ..m2
                        },
                        Val::Vaddr(m2.heap.len() as usize),
                    )
                } else {
                    Err(VmError::HeapFull)
                },
                _ => Err(VmError::ExpectedInt),
            },
        },
    }
}

/// The heap slot of element `ix` of the array at `base`.
pub open spec fn slot_spec(heap: Seq<Val>, base: usize, ix: i32) -> Result<int, VmError> {
    if ix < 0 {
        Err(VmError::IndexPastEnd)
    } else if base + ix >= HEAP_SIZE || base >= heap.len() {
        Err(VmError::HeapRange)
    } else {
        match heap[base as int] {
            Val::Vsize(size) => if ix < size && base + ix + 1 < heap.len() {
                Ok(base + ix + 1)
            } else {
                Err(VmError::IndexPastEnd)
            },
            _ => Err(VmError::NotArray),
        }
    }
}

/// The heap slot named by an index value and a base value.
pub open spec fn operand_slot(heap: Seq<Val>, vix: Val, vbase: Val) -> Result<int, VmError> {
    match vix {
        Val::Vi32(ix) => match vbase {
            Val::Vaddr(base) => slot_spec(heap, base, ix),
            _ => Err(VmError::ExpectedAddress),
        },
        _ => Err(VmError::ExpectedInt),
    }
}

pub open spec fn get_spec(m: MState) -> Result<MState, VmError> {
    match pop_m(m) {
        Err(e) => Err(e),
        Ok((vix, m1)) => match pop_m(m1) {
            Err(e) => Err(e),
            Ok((vbase, m2)) => match operand_slot(m2.heap, vix, vbase) {
                Ok(slot) => push_m(m2, m2.heap[slot]),
                Err(e) => Err(e),
            },
        },
    }
}

pub open spec fn set_spec(m: MState) -> Result<MState, VmError> {
    match pop_m(m) {
        Err(e) => Err(e),
        Ok((v, m1)) => match pop_m(m1) {
            Err(e) => Err(e),
            Ok((vix, m2)) => match pop_m(m2) {
                Err(e) => Err(e),
                Ok((vbase, m3)) => match operand_slot(m3.heap, vix, vbase) {
                    Ok(slot) => Ok(MState { heap: m3.heap.update(slot, v), ..m3 }),
                    Err(e) => Err(e),
                },
            },
        },
    }
}

pub open spec fn var_spec(m: MState, i: u32) -> Result<MState, VmError> {
    if m.fp + i < m.stk.len() {
        push_m(m, m.stk[m.fp + i])
    } else {
        Err(VmError::VarRange)
    }
}

pub open spec fn store_spec(m: MState, i: u32) -> Result<MState, VmError> {
    match pop_m(m) {
        Err(e) => Err(e),
        Ok((v, m1)) => if m1.fp + i < m1.stk.len() {
            Ok(MState { stk: m1.stk.update(m1.fp + i, v), ..m1 })
        } else {
            Err(VmError::StoreRange)
        },
    }
}

pub open spec fn setframe_spec(m: MState, i: u32) -> Result<MState, VmError> {
    if i > m.stk.len() {
        Err(VmError::FrameRange)
    } else {
        match push_m(m, Val::Vloc(m.fp)) {
            Err(e) => Err(e),
            Ok(m1) => Ok(MState { fp: (m1.stk.len() - i - 1) as u32, ..m1 }),
        }
    }
}

pub open spec fn call_spec(m: MState) -> Result<MState, VmError> {
    match pop_m(m) {
        Err(e) => Err(e),
        Ok((vt, m1)) => match vt {
            Val::Vloc(t) => match push_m(m1, Val::Vloc(m1.pc)) {
                Ok(m2) => Ok(MState { pc: t, ..m2 }),
                Err(e) => Err(e),
            },
            _ => Err(VmError::CallTarget),
        },
    }
}

/// The stack cut down to `n` values, or left as it is if it holds no more.
pub open spec fn truncate_spec(s: Seq<Val>, n: int) -> Seq<Val> {
    if n < s.len() {
        s.take(n)
    } else {
        s
    }
}

pub open spec fn ret_spec(m: MState) -> Result<MState, VmError> {
    match pop_m(m) {
        Err(e) => Err(e),
        Ok((vret, m1)) => match pop_m(m1) {
            Err(e) => Err(e),
            Ok((vpc, m2)) => match pop_m(m2) {
                Err(e) => Err(e),
                Ok((vfp, m3)) => match (vpc, vfp) {
                    (Val::Vloc(pc), Val::Vloc(fp)) => push_m(
                        MState {
                            pc: pc,
                            fp: fp,
                            stk: truncate_spec(m3.stk, m.fp as int),
                            heap: m3.heap,
                        },
                        vret,
                    ),
                    _ => Err(VmError::RetLocations),
                },
            },
        },
    }
}

pub open spec fn branch_spec(m: MState) -> Result<MState, VmError> {
    match pop_m(m) {
        Err(e) => Err(e),
        Ok((vt, m1)) => match pop_m(m1) {
            Err(e) => Err(e),
            Ok((vb, m2)) => match vt {
                Val::Vloc(t) => match vb {
                    Val::Vbool(b) => if b {
                        Ok(MState { pc: t, ..m2 })
                    } else {
                        Ok(m2)
                    },
                    _ => Err(VmError::ExpectedBool),
                },
                _ => Err(VmError::ExpectedLoc),
            },
        },
    }
}

/// What an instruction does to a state whose counter has already moved past it.
pub open spec fn instr_spec(i: Instr, m: MState) -> Result<MState, VmError> {
    match i {
        Instr::Push(v) => push_m(m, v),
        Instr::Pop => match pop_m(m) {
            Ok((_, m1)) => Ok(m1),
            Err(e) => Err(e),
        },
        Instr::Peek(n) => peek_spec(m, n),
        Instr::Unary(u) => unary_spec(m, u),
        Instr::Binary(b) => binary_spec(m, b),
        Instr::Swap => swap_spec(m),
        Instr::Alloc => alloc_spec(m),
        Instr::SetElem => set_spec(m),
        Instr::Get => get_spec(m),
        Instr::Var(n) => var_spec(m, n),
        Instr::Store(n) => store_spec(m, n),
        Instr::SetFrame(n) => setframe_spec(m, n),
        Instr::Call => call_spec(m),
        Instr::Ret => ret_spec(m),
        Instr::Branch => branch_spec(m),
        Instr::Halt => Ok(m),
    }
}

/// The counter names an instruction and can move past it.
pub open spec fn can_fetch(prog: Seq<Instr>, m: MState) -> bool {
    (m.pc as int) < prog.len() && m.pc < u32::MAX
}

/// One step: fetch, advance the counter, execute. The flag tells whether the
/// machine halted.
pub open spec fn step_spec(prog: Seq<Instr>, m: MState) -> Result<(MState, bool), VmError> {
    if !can_fetch(prog, m) {
        Err(VmError::PcOutOfBounds)
    } else {
        let i = prog[m.pc as int];
        match instr_spec(i, MState { pc: (m.pc + 1) as u32, ..m }) {
            Ok(m1) => Ok((m1, i is Halt)),
            Err(e) => Err(e),
        }
    }
}

/// Steps from `m` until a halt, an error, or `fuel` steps without a halt.
pub open spec fn run_from(prog: Seq<Instr>, m: MState, fuel: nat) -> Result<MState, VmError>
    decreases fuel,
{
    if fuel == 0 {
        Err(VmError::StepLimit)
    } else {
        match step_spec(prog, m) {
            Err(e) => Err(e),
            Ok((m1, true)) => Ok(m1),
            Ok((m1, false)) => run_from(prog, m1, (fuel - 1) as nat),
        }
    }
}

/// `n` steps from `m`, whatever they are.
pub open spec fn steps(prog: Seq<Instr>, m: MState, n: nat) -> Result<MState, VmError>
    decreases n,
{
    if n == 0 {
        Ok(m)
    } else {
        match step_spec(prog, m) {
            Err(e) => Err(e),
            Ok((m1, _)) => steps(prog, m1, (n - 1) as nat),
        }
    }
}

/// The value of a halted machine: the one value left on its stack.
pub open spec fn result_of(m: MState) -> Result<Val, VmError> {
    if m.stk.len() == 1 {
        Ok(m.stk[0])
    } else if m.stk.len() == 0 {
        Err(VmError::StackUnderflow)
    } else {
        Err(VmError::LeftoverValues)
    }
}

/// The outcome of running a program from the initial state.
pub open spec fn run_spec(prog: Seq<Instr>) -> Result<Val, VmError> {
    match run_from(prog, initial_m(), MAX_STEPS as nat) {
        Ok(m) => result_of(m),
        Err(e) => Err(e),
    }
}

/// How a step's result relates to the state it leaves and the state the
/// model expects.
pub open spec fn effect(r: Result<(), VmError>, after: MState, expected: Result<MState, VmError>) -> bool {
    match expected {
        Ok(m) => r is Ok && after == m,
        Err(e) => r == Err::<(), VmError>(e),
    }
}

/// The machine: counter, frame pointer, stack, heap and the program it runs.
pub struct State {
    pub pc: u32,
    pub fp: u32,
    pub stk: Vec<Val>,
    pub heap: Vec<Val>,
    pub prog: Vec<Instr>,
}

impl View for State {
    type V = MState;

    open spec fn view(&self) -> MState {
        MState { pc: self.pc, fp: self.fp, stk: self.stk@, heap: self.heap@ }
    }
}

impl State {
    /// Stack and heap within their capacities.
    pub open spec fn wf(&self) -> bool {
        self.stk@.len() <= STK_SIZE && self.heap@.len() <= HEAP_SIZE
    }

    /// A fresh machine for `prog`: counter and frame pointer 0, empty stack and heap.
    pub fn init(prog: Vec<Instr>) -> (s: State)
        ensures
            s@ == initial_m(),
            s.prog@ == prog@,
            s.wf(),
    {
        let s = State {
            pc: 0,
            fp: 0,
            stk: Vec::with_capacity(STK_SIZE),
            heap: Vec::with_capacity(HEAP_SIZE),
            prog: prog,
        };
        proof {
            assert(s@.stk =~= Seq::<Val>::empty());
            assert(s@.heap =~= Seq::<Val>::empty());
        }
        s
    }

    /// Push a value, failing when the stack is full.
    pub fn push(&mut self, v: Val) -> (r: Result<(), VmError>)
        ensures
            effect(r, final(self)@, push_m(old(self)@, v)),
            r is Err ==> final(self)@ == old(self)@,
            final(self).prog@ == old(self).prog@,
    {
        if self.stk.len() < STK_SIZE {
            self.stk.push(v);
            Ok(())
        } else {
            Err(VmError::StackOverflow)
        }
    }

    /// Pop a value, failing when the stack is empty.
    pub fn pop(&mut self) -> (r: Result<Val, VmError>)
        ensures
            match pop_m(old(self)@) {
                Ok((v, m)) => r == Ok::<Val, VmError>(v) && final(self)@ == m,
                Err(e) => r == Err::<Val, VmError>(e) && final(self)@ == old(self)@,
            },
            final(self).prog@ == old(self).prog@,
    {
        match self.stk.pop() {
            Some(v) => Ok(v),
            None => Err(VmError::StackUnderflow),
        }
    }

    fn exec_peek(&mut self, i: u32) -> (r: Result<(), VmError>)
        ensures
            effect(r, final(self)@, peek_spec(old(self)@, i)),
            final(self).prog@ == old(self).prog@,
            r is Err ==> final(self).heap@ == old(self).heap@,
            r is Err ==> final(self).stk@.len() <= old(self).stk@.len(),
    {
        let n = self.stk.len();
        if (i as usize) < n {
            let v = self.stk[n - 1 - i as usize];
            self.push(v)
        } else {
            Err(VmError::PeekRange)
        }
    }

    fn exec_unary(&mut self, u: Unop) -> (r: Result<(), VmError>)
        ensures
            effect(r, final(self)@, unary_spec(old(self)@, u)),
            final(self).prog@ == old(self).prog@,
            r is Err ==> final(self).heap@ == old(self).heap@,
            r is Err ==> final(self).stk@.len() <= old(self).stk@.len(),
    {
        let v = self.pop()?;
        let x = unop(u, v)?;
        self.push(x)
    }

    fn exec_binary(&mut self, b: Binop) -> (r: Result<(), VmError>)
        ensures
            effect(r, final(self)@, binary_spec(old(self)@, b)),
            final(self).prog@ == old(self).prog@,
            r is Err ==> final(self).heap@ == old(self).heap@,
            r is Err ==> final(self).stk@.len() <= old(self).stk@.len(),
    {
        let right = self.pop()?;
        let left = self.pop()?;
        let x = binop(b, left, right)?;
        self.push(x)
    }

    fn exec_swap(&mut self) -> (r: Result<(), VmError>)
        ensures
            effect(r, final(self)@, swap_spec(old(self)@)),
            final(self).prog@ == old(self).prog@,
            r is Err ==> final(self).heap@ == old(self).heap@,
            r is Err ==> final(self).stk@.len() <= old(self).stk@.len(),
    {
        if self.stk.len() < 2 {
            return Err(VmError::StackUnderflow);
        }
        let ghost s0 = self.stk@;
        let top = self.pop()?;
        let second = self.pop()?;
        self.stk.push(top);
        self.stk.push(second);
        proof {
            let n = s0.len();
            assert(self.stk@ =~= s0.take(n - 2).push(s0[n - 1]).push(s0[n - 2]));
        }
        Ok(())
    }

    fn exec_alloc(&mut self) -> (r: Result<(), VmError>)
        ensures
            effect(r, final(self)@, alloc_spec(old(self)@)),
            r is Err ==> final(self).heap@ == old(self).heap@,
            r is Err ==> final(self).stk@.len() <= old(self).stk@.len(),
            final(self).prog@ == old(self).prog@,
    {
        let init = self.pop()?;
        let vsize = self.pop()?;
        let n = match vsize {
            Val::Vi32(n) => n,
            _ => {
                return Err(VmError::ExpectedInt);
            },
        };
        if n < 0 {
            return Err(VmError::NegativeSize);
        }
        let size = n as usize;
        if size >= HEAP_SIZE - 1 || self.heap.len() >= HEAP_SIZE - 1 - size {
            return Err(VmError::HeapFull);
        }
        if self.stk.len() >= STK_SIZE {
            return Err(VmError::StackOverflow);
        }
        let base = self.heap.len();
        let ghost h0 = self.heap@;
        let ghost m1 = self@;
        self.heap.push(Val::Vsize(size));
        let mut k: usize = 0;
        while k < size
            invariant
                k <= size,
                self.stk@ == m1.stk,
                self.pc == m1.pc,
                self.fp == m1.fp,
                self.prog@ == old(self).prog@,
                base == h0.len(),
                base + size + 1 < HEAP_SIZE,
                self.heap@ =~= h0.push(Val::Vsize(size)) + block(k as nat, init),
            decreases size - k,
        {
            self.heap.push(init);
            k += 1;
            proof {
                assert(self.heap@ =~= h0.push(Val::Vsize(size)) + block(k as nat, init));
            }
        }
        self.stk.push(Val::Vaddr(base));
        Ok(())
    }

    /// The heap slot of element `ix` of the array whose base is `base`.
    fn slot(&self, base: usize, ix: i32) -> (r: Result<usize, VmError>)
        ensures
            match slot_spec(self.heap@, base, ix) {
                Ok(k) => r == Ok::<usize, VmError>(k as usize) && k < self.heap@.len(),
                Err(e) => r == Err::<usize, VmError>(e),
            },
    {
        if ix < 0 {
            return Err(VmError::IndexPastEnd);
        }
        let i = ix as usize;
        if base >= HEAP_SIZE || i >= HEAP_SIZE - base || base >= self.heap.len() {
            return Err(VmError::HeapRange);
        }
        match self.heap[base] {
            Val::Vsize(size) => {
                if i < size && base + i + 1 < self.heap.len() {
                    Ok(base + i + 1)
                } else {
                    Err(VmError::IndexPastEnd)
                }
            },
            _ => Err(VmError::NotArray),
        }
    }

    fn operand_slot(&self, vix: Val, vbase: Val) -> (r: Result<usize, VmError>)
        ensures
            match operand_slot(self.heap@, vix, vbase) {
                Ok(k) => r == Ok::<usize, VmError>(k as usize) && k < self.heap@.len(),
                Err(e) => r == Err::<usize, VmError>(e),
            },
    {
        let ix = match vix.to_i32() {
            Some(ix) => ix,
            None => {
                return Err(VmError::ExpectedInt);
            },
        };
        let base = match vbase.to_address() {
            Some(b) => b,
            None => {
                return Err(VmError::ExpectedAddress);
            },
        };
        self.slot(base, ix)
    }

    fn exec_get(&mut self) -> (r: Result<(), VmError>)
        ensures
            effect(r, final(self)@, get_spec(old(self)@)),
            final(self).prog@ == old(self).prog@,
            r is Err ==> final(self).heap@ == old(self).heap@,
            r is Err ==> final(self).stk@.len() <= old(self).stk@.len(),
    {
        let vix = self.pop()?;
        let vbase = self.pop()?;
        let k = self.operand_slot(vix, vbase)?;
        let v = self.heap[k];
        self.push(v)
    }

    fn exec_set(&mut self) -> (r: Result<(), VmError>)
        ensures
            effect(r, final(self)@, set_spec(old(self)@)),
            r is Err ==> final(self).heap@ == old(self).heap@,
            r is Err ==> final(self).stk@.len() <= old(self).stk@.len(),
            final(self).prog@ == old(self).prog@,
    {
        let v = self.pop()?;
        let vix = self.pop()?;
        let vbase = self.pop()?;
        let k = self.operand_slot(vix, vbase)?;
        self.heap[k] = v;
        Ok(())
    }

    fn exec_var(&mut self, i: u32) -> (r: Result<(), VmError>)
        ensures
            effect(r, final(self)@, var_spec(old(self)@, i)),
            final(self).prog@ == old(self).prog@,
            r is Err ==> final(self).heap@ == old(self).heap@,
            r is Err ==> final(self).stk@.len() <= old(self).stk@.len(),
    {
        let ix = self.fp as u64 + i as u64;
        if ix < self.stk.len() as u64 {
            let v = self.stk[ix as usize];
            self.push(v)
        } else {
            Err(VmError::VarRange)
        }
    }

    fn exec_store(&mut self, i: u32) -> (r: Result<(), VmError>)
        ensures
            effect(r, final(self)@, store_spec(old(self)@, i)),
            final(self).prog@ == old(self).prog@,
            r is Err ==> final(self).heap@ == old(self).heap@,
            r is Err ==> final(self).stk@.len() <= old(self).stk@.len(),
    {
        let v = self.pop()?;
        let ix = self.fp as u64 + i as u64;
        if ix < self.stk.len() as u64 {
            self.stk[ix as usize] = v;
            Ok(())
        } else {
            Err(VmError::StoreRange)
        }
    }

    fn exec_setframe(&mut self, i: u32) -> (r: Result<(), VmError>)
        ensures
            effect(r, final(self)@, setframe_spec(old(self)@, i)),
            final(self).prog@ == old(self).prog@,
            r is Err ==> final(self).heap@ == old(self).heap@,
            r is Err ==> final(self).stk@.len() <= old(self).stk@.len(),
    {
        if i as usize > self.stk.len() {
            return Err(VmError::FrameRange);
        }
        let fp = self.fp;
        self.push(Val::Vloc(fp))?;
        let n = self.stk.len();
        self.fp = (n - i as usize - 1) as u32;
        Ok(())
    }

    fn exec_call(&mut self) -> (r: Result<(), VmError>)
        ensures
            effect(r, final(self)@, call_spec(old(self)@)),
            final(self).prog@ == old(self).prog@,
            r is Err ==> final(self).heap@ == old(self).heap@,
            r is Err ==> final(self).stk@.len() <= old(self).stk@.len(),
    {
        let vt = self.pop()?;
        match vt {
            Val::Vloc(t) => {
                let pc = self.pc;
                self.push(Val::Vloc(pc))?;
                self.pc = t;
                Ok(())
            },
            _ => Err(VmError::CallTarget),
        }
    }

    fn exec_ret(&mut self) -> (r: Result<(), VmError>)
        ensures
            effect(r, final(self)@, ret_spec(old(self)@)),
            final(self).prog@ == old(self).prog@,
            r is Err ==> final(self).heap@ == old(self).heap@,
            r is Err ==> final(self).stk@.len() <= old(self).stk@.len(),
    {
        let vret = self.pop()?;
        let vpc = self.pop()?;
        let vfp = self.pop()?;
        match (vpc, vfp) {
            (Val::Vloc(pc), Val::Vloc(fp)) => {
                let ghost s3 = self.stk@;
                self.stk.truncate(self.fp as usize);
                proof {
                    assert(self.stk@ =~= truncate_spec(s3, self.fp as int));
                }
                self.pc = pc;
                self.fp = fp;
                self.push(vret)
            },
            _ => Err(VmError::RetLocations),
        }
    }

    fn exec_branch(&mut self) -> (r: Result<(), VmError>)
        ensures
            effect(r, final(self)@, branch_spec(old(self)@)),
            final(self).prog@ == old(self).prog@,
            r is Err ==> final(self).heap@ == old(self).heap@,
            r is Err ==> final(self).stk@.len() <= old(self).stk@.len(),
    {
        let vt = self.pop()?;
        let vb = self.pop()?;
        let t = match vt.to_loc() {
            Some(t) => t,
            None => {
                return Err(VmError::ExpectedLoc);
            },
        };
        let b = match vb.to_bool() {
            Some(b) => b,
            None => {
                return Err(VmError::ExpectedBool);
            },
        };
        if b {
            self.pc = t;
        }
        Ok(())
    }

    /// The value of a halted machine: the one value left on its stack.
    pub fn result(&self) -> (r: Result<Val, VmError>)
        ensures
            r == result_of(self@),
    {
        let n = self.stk.len();
        if n == 1 {
            Ok(self.stk[0])
        } else if n == 0 {
            Err(VmError::StackUnderflow)
        } else {
            Err(VmError::LeftoverValues)
        }
    }

    /// Execute one instruction. `Ok(true)` means the machine halted.
    pub fn step(&mut self) -> (r: Result<bool, VmError>)
        ensures
            old(self).wf() ==> final(self).wf(),
            !can_fetch(old(self).prog@, old(self)@) ==> final(self)@ == old(self)@,
            final(self).prog@ == old(self).prog@,
            r is Err ==> final(self).heap@ == old(self).heap@,
            r is Err ==> final(self).stk@.len() <= old(self).stk@.len(),
            match step_spec(old(self).prog@, old(self)@) {
                Ok((m, h)) => r == Ok::<bool, VmError>(h) && final(self)@ == m,
                Err(e) => r == Err::<bool, VmError>(e),
            },
    {
        if self.pc as usize >= self.prog.len() || self.pc == u32::MAX {
            return Err(VmError::PcOutOfBounds);
        }
        let instr = self.prog[self.pc as usize];
        self.pc = self.pc + 1;
        let r = match instr {
            Instr::Push(v) => self.push(v),
            Instr::Pop => match self.pop() {
                Ok(_) => Ok(()),
                Err(e) => Err(e),
            },
            Instr::Peek(i) => self.exec_peek(i),
            Instr::Unary(u) => self.exec_unary(u),
            Instr::Binary(b) => self.exec_binary(b),
            Instr::Swap => self.exec_swap(),
            Instr::Alloc => self.exec_alloc(),
            Instr::SetElem => self.exec_set(),
            Instr::Get => self.exec_get(),
            Instr::Var(i) => self.exec_var(i),
            Instr::Store(i) => self.exec_store(i),
            Instr::SetFrame(i) => self.exec_setframe(i),
            Instr::Call => self.exec_call(),
            Instr::Ret => self.exec_ret(),
            Instr::Branch => self.exec_branch(),
            Instr::Halt => {
                return Ok(true);
            },
        };
        match r {
            Ok(()) => Ok(false),
            Err(e) => Err(e),
        }
    }
}

/// Apply a unary operator.
pub fn unop(u: Unop, v: Val) -> (r: Result<Val, VmError>)
    ensures
        r == unop_spec(u, v),
{
    match u {
        Unop::Neg => match v.to_bool() {
            Some(b) => Ok(Val::Vbool(!b)),
            None => Err(VmError::ExpectedBool),
        },
    }
}

/// Apply a binary operator to a left and a right operand.
pub fn binop(b: Binop, left: Val, right: Val) -> (r: Result<Val, VmError>)
    ensures
        r == binop_spec(b, left, right),
{
    let l = match left.to_i32() {
        Some(i) => i,
        None => {
            return Err(VmError::ExpectedInt);
        },
    };
    let r = match right.to_i32() {
        Some(i) => i,
        None => {
            return Err(VmError::ExpectedInt);
        },
    };
    let checked = match b {
        Binop::Add => l.checked_add(r),
        Binop::Mul => l.checked_mul(r),
        Binop::Sub => l.checked_sub(r),
        Binop::Div => {
            if r == 0 {
                return Err(VmError::DivideByZero);
            }
            l.checked_div(r)
        },
        Binop::Lt => {
            return Ok(Val::Vbool(l < r));
        },
        Binop::Eq => {
            return Ok(Val::Vbool(l == r));
        },
    };
    match checked {
        Some(x) => Ok(Val::Vi32(x)),
        None => Err(VmError::Overflow),
    }
}

/// Run a program from the initial state until it halts, and return the one
/// value left on the stack.
pub fn run(prog: &[Instr]) -> (r: Result<Val, String>)
    ensures
        match run_spec(prog@) {
            Ok(v) => r == Ok::<Val, String>(v),
            Err(e) => r is Err && r->Err_0@ == e.text(),
        },
{
    let mut s = State::init(slice_to_vec(prog));
    let mut count: u64 = 0;
    let mut halted = false;
    while !halted
        invariant
            s.prog@ == prog@,
            count <= MAX_STEPS,
            !halted ==> run_from(prog@, initial_m(), MAX_STEPS as nat) == run_from(
                prog@,
                s@,
                (MAX_STEPS - count) as nat,
            ),
            halted ==> run_from(prog@, initial_m(), MAX_STEPS as nat) == Ok::<MState, VmError>(
                s@,
            ),
        decreases MAX_STEPS - count,
    {
        if count == MAX_STEPS {
            return Err(VmError::StepLimit.message());
        }
        match s.step() {
            Ok(h) => {
                halted = h;
            },
            Err(e) => {
                return Err(e.message());
            },
        }
        count = count + 1;
    }
    match s.result() {
        Ok(v) => Ok(v),
        Err(e) => Err(e.message()),
    }
}

/// A call and its return restore the caller. The caller has `k` values of the
/// callee's frame on top of its stack, runs `setframe k`, pushes the
/// subroutine's location and calls it; the subroutine pushes its result and
/// returns. Afterwards the counter is just past the call, the caller's frame
/// pointer is back, the `k` frame values are gone and the result is the one
/// new value on the stack.
pub proof fn lemma_call_return(prog: Seq<Instr>, m: MState, k: u32, t: u32, v: Val)
    requires
        m.pc + 3 <= prog.len(),
        m.pc + 3 < u32::MAX,
        prog[m.pc as int] == Instr::SetFrame(k),
        prog[m.pc + 1] == Instr::Push(Val::Vloc(t)),
        prog[m.pc + 2] == Instr::Call,
        t + 2 <= prog.len(),
        t + 2 < u32::MAX,
        prog[t as int] == Instr::Push(v),
        prog[t + 1] == Instr::Ret,
        k <= m.stk.len(),
        m.stk.len() + 3 <= STK_SIZE,
    ensures
        steps(prog, m, 5) == Ok::<MState, VmError>(
            MState {
                pc: (m.pc + 3) as u32,
                fp: m.fp,
                stk: m.stk.take(m.stk.len() - k).push(v),
                heap: m.heap,
            },
        ),
{
    let s = m.stk;
    let n = s.len();
    let base = (n - k) as u32;
    let m1 = MState { pc: (m.pc + 1) as u32, fp: base, stk: s.push(Val::Vloc(m.fp)), heap: m.heap };
    assert(step_spec(prog, m) == Ok::<(MState, bool), VmError>((m1, false)));
    let m2 = MState { pc: (m.pc + 2) as u32, stk: m1.stk.push(Val::Vloc(t)), ..m1 };
    assert(step_spec(prog, m1) == Ok::<(MState, bool), VmError>((m2, false)));
    let m3 = MState { pc: t, stk: m1.stk.push(Val::Vloc((m.pc + 3) as u32)), ..m1 };
    assert(m2.stk.drop_last() =~= m1.stk);
    assert(step_spec(prog, m2) == Ok::<(MState, bool), VmError>((m3, false)));
    let m4 = MState { pc: (t + 1) as u32, stk: m3.stk.push(v), ..m3 };
    assert(step_spec(prog, m3) == Ok::<(MState, bool), VmError>((m4, false)));
    let m5 = MState {
        pc: (m.pc + 3) as u32,
        fp: m.fp,
        stk: s.take(n - k).push(v),
        heap: m.heap,
    };
    assert(m4.stk.drop_last() =~= m3.stk);
    assert(m3.stk.drop_last() =~= m1.stk);
    assert(m1.stk.drop_last() =~= s);
    assert(truncate_spec(s, base as int) =~= s.take(n - k));
    assert(step_spec(prog, m4) == Ok::<(MState, bool), VmError>((m5, false)));
    assert(steps(prog, m5, 0) == Ok::<MState, VmError>(m5));
    assert(steps(prog, m4, 1) == Ok::<MState, VmError>(m5));
    assert(steps(prog, m3, 2) == Ok::<MState, VmError>(m5));
    assert(steps(prog, m2, 3) == Ok::<MState, VmError>(m5));
    assert(steps(prog, m1, 4) == Ok::<MState, VmError>(m5));
}

/// An allocation of `n` elements where the heap's length plus `n + 1`
/// reaches its capacity fails as out of heap space.
proof fn lemma_alloc_full(m: MState, n: i32, init: Val)
    requires
        m.stk.len() >= 2,
        m.stk[m.stk.len() - 1] == init,
        m.stk[m.stk.len() - 2] == Val::Vi32(n),
        n >= 0,
        m.heap.len() + n + 1 >= HEAP_SIZE,
    ensures
        alloc_spec(m) == Err::<MState, VmError>(VmError::HeapFull),
{
}

/// Reading or writing element `ix` of an array of `size` elements, with
/// `ix >= size`, fails with an index error.
proof fn lemma_index_past_end(m: MState, base: usize, size: usize, ix: i32, v: Val)
    requires
        base < m.heap.len(),
        m.heap[base as int] == Val::Vsize(size),
        ix >= size,
    ensures
        ({
            let g = MState { stk: m.stk.push(Val::Vaddr(base)).push(Val::Vi32(ix)), ..m };
            get_spec(g) == Err::<MState, VmError>(VmError::IndexPastEnd) || get_spec(g) == Err::<
                MState,
                VmError,
            >(VmError::HeapRange)
        }),
        ({
            let st = MState {
                stk: m.stk.push(Val::Vaddr(base)).push(Val::Vi32(ix)).push(v),
                ..m
            };
            set_spec(st) == Err::<MState, VmError>(VmError::IndexPastEnd) || set_spec(st) == Err::<
                MState,
                VmError,
            >(VmError::HeapRange)
        }),
{
    let s1 = m.stk.push(Val::Vaddr(base));
    let s2 = s1.push(Val::Vi32(ix));
    assert(s2.drop_last() =~= s1);
    assert(s1.drop_last() =~= m.stk);
    assert(s2.push(v).drop_last() =~= s2);
}

/// A `ret` step over a stack that ends with the saved frame pointer `f`, the
/// return location `p` and the result: the counter goes to `p`, the frame
/// pointer to `f`, the stack is cut back to the returning frame's base and the
/// result is the one new value on it.
pub proof fn lemma_ret_step(prog: Seq<Instr>, m: MState, st: Seq<Val>, f: u32, p: u32, v: Val)
    requires
        can_fetch(prog, m),
        prog[m.pc as int] == Instr::Ret,
        m.stk == st.push(Val::Vloc(f)).push(Val::Vloc(p)).push(v),
        m.fp <= st.len(),
        m.stk.len() <= STK_SIZE,
    ensures
        step_spec(prog, m) == Ok::<(MState, bool), VmError>(
            (MState { pc: p, fp: f, stk: st.take(m.fp as int).push(v), heap: m.heap }, false),
        ),
{
    let s1 = st.push(Val::Vloc(f));
    let s2 = s1.push(Val::Vloc(p));
    assert(m.stk.drop_last() =~= s2);
    assert(s2.drop_last() =~= s1);
    assert(s1.drop_last() =~= st);
    assert(truncate_spec(st, m.fp as int) =~= st.take(m.fp as int));
}

/// An `alloc` step of `n` elements where the heap's length plus `n + 1`
/// reaches its capacity fails as out of heap space; `State::step` then leaves
/// the heap as it was.
pub proof fn lemma_alloc_full_step(prog: Seq<Instr>, m: MState, n: i32, init: Val)
    requires
        can_fetch(prog, m),
        prog[m.pc as int] == Instr::Alloc,
        m.stk.len() >= 2,
        m.stk[m.stk.len() - 1] == init,
        m.stk[m.stk.len() - 2] == Val::Vi32(n),
        n >= 0,
        m.heap.len() + n + 1 >= HEAP_SIZE,
    ensures
        step_spec(prog, m) == Err::<(MState, bool), VmError>(VmError::HeapFull),
{
    lemma_alloc_full(MState { pc: (m.pc + 1) as u32, ..m }, n, init);
}

/// A `get` or `set` step on element `ix` of an array of `size` elements,
/// with `ix >= size`, fails with an index error; `State::step` then leaves the
/// heap as it was.
pub proof fn lemma_index_past_end_step(
    prog: Seq<Instr>,
    m: MState,
    st: Seq<Val>,
    base: usize,
    size: usize,
    ix: i32,
    v: Val,
)
    requires
        can_fetch(prog, m),
        prog[m.pc as int] == Instr::Get || prog[m.pc as int] == Instr::SetElem,
        prog[m.pc as int] == Instr::Get ==> m.stk == st.push(Val::Vaddr(base)).push(Val::Vi32(ix)),
        prog[m.pc as int] == Instr::SetElem ==> m.stk == st.push(Val::Vaddr(base)).push(
            Val::Vi32(ix),
        ).push(v),
        base < m.heap.len(),
        m.heap[base as int] == Val::Vsize(size),
        ix >= size,
    ensures
        step_spec(prog, m) == Err::<(MState, bool), VmError>(VmError::IndexPastEnd)
            || step_spec(prog, m) == Err::<(MState, bool), VmError>(VmError::HeapRange),
{
    let m0 = MState { pc: (m.pc + 1) as u32, stk: st, ..m };
    lemma_index_past_end(m0, base, size, ix, v);
    assert(MState { pc: (m.pc + 1) as u32, ..m } == MState {
        stk: m.stk,
        ..m0
    });
}

} // verus!
