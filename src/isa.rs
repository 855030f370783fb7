//! Values, native instructions, pseudo-instructions and operator tags.

use vstd::prelude::*;

verus! {

/// Heap addresses.
pub type Address = usize;

/// Program labels.
pub type Label = String;

/// Everything the machine can hold.
#[derive(Debug, Clone, Copy, PartialEq, Eq, Structural)]
pub enum Val {
    /// The unit value.
    Vunit,
    /// 32-bit signed integers.
    Vi32(i32),
    /// Booleans.
    Vbool(bool),
    /// Code locations and saved frame pointers.
    Vloc(u32),
    /// The undefined value.
    Vundef,
    /// Size marker at the base of a heap block (internal only).
    Vsize(usize),
    /// Pointer into the heap (internal only).
    Vaddr(Address),
}

impl Val {
    /// Values that a program may carry; the two heap-internal kinds are excluded.
    pub open spec fn is_program_value(self) -> bool {
        !(self is Vsize || self is Vaddr)
    }

    /// The integer held, if this is an integer.
    pub fn to_i32(&self) -> (r: Option<i32>)
        ensures
            r == (match *self {
                Val::Vi32(i) => Some(i),
                _ => None::<i32>,
            }),
    {
        match self {
            Val::Vi32(i) => Some(*i),
            _ => None,
        }
    }

    /// The boolean held, if this is a boolean.
    pub fn to_bool(&self) -> (r: Option<bool>)
        ensures
            r == (match *self {
                Val::Vbool(b) => Some(b),
                _ => None::<bool>,
            }),
    {
        match self {
            Val::Vbool(b) => Some(*b),
            _ => None,
        }
    }

    /// The location held, if this is a location.
    pub fn to_loc(&self) -> (r: Option<u32>)
        ensures
            r == (match *self {
                Val::Vloc(l) => Some(l),
                _ => None::<u32>,
            }),
    {
        match self {
            Val::Vloc(l) => Some(*l),
            _ => None,
        }
    }

    /// The heap address held, if this is an address.
    pub fn to_address(&self) -> (r: Option<Address>)
        ensures
            r == (match *self {
                Val::Vaddr(a) => Some(a),
                _ => None::<usize>,
            }),
    {
        match self {
            Val::Vaddr(a) => Some(*a),
            _ => None,
        }
    }
}

/// Native instructions.
#[derive(Debug, Clone, Copy, PartialEq, Eq, Structural)]
pub enum Instr {
    /// Push a constant.
    Push(Val),
    /// Discard the top of the stack.
    Pop,
    /// Push a copy of the value `i` places below the top (0 is the top).
    Peek(u32),
    /// Apply a unary operator to the top value.
    Unary(Unop),
    /// Apply a binary operator to the top two values.
    Binary(Binop),
    /// Exchange the top two values.
    Swap,
    /// Allocate an array on the heap.
    Alloc,
    /// Write an element of a heap array.
    SetElem,
    /// Read an element of a heap array.
    Get,
    /// Push the local at `fp + i`.
    Var(u32),
    /// Pop into the local at `fp + i`.
    Store(u32),
    /// Save the frame pointer and start a frame `i` slots below the top.
    SetFrame(u32),
    /// Jump to a popped location, pushing the return location.
    Call,
    /// Return from a call.
    Ret,
    /// Jump to a popped location if a popped boolean is true.
    Branch,
    /// Stop the machine.
    Halt,
}

impl Instr {
    /// Every value carried by the instruction may occur in a program.
    pub open spec fn well_formed(self) -> bool {
        match self {
            Instr::Push(v) => v.is_program_value(),
            _ => true,
        }
    }
}

/// Pseudo-instructions: native instructions plus symbolic labels.
#[derive(Debug, Clone, PartialEq, Eq)]
pub enum PInstr {
    /// Label the next native instruction.
    PLabel(Label),
    /// Push the location of a label.
    PPush(Label),
    /// A native instruction, passed through unchanged.
    PI(Instr),
}

/// Unary operators.
#[derive(Debug, Clone, Copy, PartialEq, Eq, Structural)]
pub enum Unop {
    /// Boolean negation.
    Neg,
}

/// Binary operators.
#[derive(Debug, Clone, Copy, PartialEq, Eq, Structural)]
pub enum Binop {
    /// Addition.
    Add,
    /// Multiplication.
    Mul,
    /// Subtraction.
    Sub,
    /// Division.
    Div,
    /// Strictly less than.
    Lt,
    /// Equality.
    Eq,
}

} // verus!
