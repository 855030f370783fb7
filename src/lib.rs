//! A small stack virtual machine: its instruction set, a bit-exact bytecode
//! codec, an assembler that resolves symbolic labels, and an executor.

use vstd::prelude::*;

pub mod assemble;
pub mod bytes;
pub mod isa;
pub mod text;
pub mod vm;

verus! {

/// A failure to read a program, from bytes or from text, with a message that
/// names what was being read.
#[derive(Debug)]
pub struct ParseError(pub String);

impl ParseError {
    /// The message carried by the error.
    pub fn message(&self) -> (r: String)
        ensures
            r@ == self.0@,
    {
        self.0.clone()
    }
}

} // verus!
