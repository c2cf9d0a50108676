//! A small bytecode interpreter: a fixed instruction set, a decoder from bytes
//! to instructions, and an execution engine that runs instructions against a
//! value stack, a call stack and an addressable store.
//!
//! The modules, leaves first:
//!
//! - [`opcode`]: the opcode table and instructions;
//! - [`codec`]: the binary program format, both ways;
//! - [`arith`]: what the operators compute on machine words;
//! - [`text`]: decimal text of machine integers;
//! - [`debugger`]: the sink for debug output;
//! - [`machine`]: the engine as mathematics, and what holds of it;
//! - [`vm`]: the engine itself.
//!
//! Conventions that the engine keeps to:
//!
//! - Operators take the value pushed earlier as their left operand.
//! - Sums, differences and products wrap around at the width of a word; shift
//!   counts are taken modulo that width; division rounds toward zero, and a
//!   zero divisor is an error.
//! - A procedure header holds the length of the body that follows it and
//!   skips it. A call names the header and enters one past it.
//! - A conditional jump pops its condition and, only if that is zero, the
//!   target below it.
//! - Every error of a run names the pointer of the instruction that raised
//!   it, and an instruction that fails has no effect.
//! - A run executes no more instructions than the engine's step limit, which
//!   is `u64::MAX` unless set otherwise.

use vstd::prelude::*;

pub mod arith;
pub mod codec;
pub mod debugger;
pub mod machine;
pub mod opcode;
pub mod text;
pub mod vm;

use opcode::Op;

verus! {

/// A machine-width signed integer: stack entries, operands, stored values and
/// truth values (zero is false, anything else is true).
pub type Value = isize;

/// An index into an instruction sequence, also used as a store address.
pub type Pointer = usize;

/// An ordered program; index 0 is the entry point.
#[derive(Debug, Clone, PartialEq)]
pub struct Instructions(pub Vec<Op>);

impl Default for Instructions {
    /// The empty program.
    fn default() -> (program: Self)
        ensures
            program@ == Seq::<Op>::empty(),
    {
        Instructions(Vec::new())
    }
}

impl View for Instructions {
    type V = Seq<Op>;

    open spec fn view(&self) -> Seq<Op> {
        self.0@
    }
}

/// What went wrong while decoding or running a program.
#[derive(Debug, Clone, Copy, PartialEq, Eq, Structural)]
pub enum BytecodeErrorKind {
    /// The byte is not in the opcode table.
    InvalidOpcode(u8),
    /// A value was popped from an empty value stack.
    EmptyStack,
    /// An instruction that needs an operand carries none.
    EmptyOperand,
    /// A return was executed with no call frame to return to.
    EmptyCallStack,
    /// A load named an address that was never stored to.
    NotFoundAddressInStore(Pointer),
    /// The byte stream ends right after an opcode that takes an operand.
    TruncatedOperand,
    /// A division or remainder had a zero divisor.
    DivisionByZero,
    /// The run was stopped after the engine's step limit.
    StepLimitExceeded,
}

/// An error kind together with the instruction pointer at which it arose.
/// Decoding errors carry no pointer.
#[derive(Debug, Clone, Copy, PartialEq, Eq, Structural)]
pub struct BytecodeError {
    pub kind: BytecodeErrorKind,
    pub ptr: Option<Pointer>,
}

impl BytecodeError {
    /// An error that is not tied to an instruction.
    pub fn new(kind: BytecodeErrorKind) -> (e: Self)
        ensures
            e == (BytecodeError { kind, ptr: None }),
    {
        Self { kind, ptr: None }
    }

    /// An error raised while the instruction at `ptr` was executing.
    pub fn new_with_ptr(kind: BytecodeErrorKind, ptr: Pointer) -> (e: Self)
        ensures
            e == (BytecodeError { kind, ptr: Some(ptr) }),
    {
        Self { kind, ptr: Some(ptr) }
    }
}

} // verus!
