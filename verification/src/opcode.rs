//! The instruction set: operation codes, their byte values, and instructions.

use vstd::prelude::*;
use vstd::std_specs::convert::TryFromSpecImpl;
use vstd::string::StringExecFns;

use crate::text::{append_value, decimal};
use crate::{BytecodeError, BytecodeErrorKind, Value};

verus! {

/// An operation code. Each has one byte value; no two share one.
#[derive(Debug, Clone, Copy, PartialEq, Eq, Structural)]
#[non_exhaustive]
pub enum Opcode {
    /// Does nothing.
    NOOP,
    /// Pushes its operand.
    PUSH,
    /// Pops a value and stores it at the address given by the operand.
    STORE,
    /// Pushes the value stored at the address given by the operand.
    LOAD,
    /// Pops two values and pushes their sum.
    ADD,
    /// Pops two values and pushes the one pushed first minus the other.
    SUB,
    /// Pops two values and pushes their product.
    MUL,
    /// Pops two values and pushes the one pushed first divided by the other.
    DIV,
    /// Pops two values and pushes what that division leaves.
    MOD,
    /// Pops two values and pushes their bitwise conjunction.
    AND,
    /// Pops two values and pushes their bitwise disjunction.
    OR,
    /// Pops two values and pushes their bitwise exclusive disjunction.
    XOR,
    /// Pops a value and pushes its bitwise complement.
    NOT,
    /// Pops two values and pushes the one pushed first, shifted left by the other.
    LSF,
    /// Pops two values and pushes the one pushed first, shifted right by the other.
    RSF,
    /// Pops two values and pushes 1 if they are equal, else 0.
    EQ,
    /// Pops two values and pushes 1 if the one pushed first is greater, else 0.
    GT,
    /// Pops two values and pushes 1 if the one pushed first is less, else 0.
    LT,
    /// Pops two values and pushes 1 if the one pushed first is greater or equal, else 0.
    GTE,
    /// Pops two values and pushes 1 if the one pushed first is less or equal, else 0.
    LTE,
    /// Heads a procedure; the operand is the length of its body, which is skipped.
    PROC,
    /// Calls the procedure whose header stands at the operand.
    CALL,
    /// Returns to the instruction after the latest call.
    RET,
    /// Jumps to the operand.
    JMP,
    /// Pops a condition; if it is zero, pops a target too and jumps to it.
    JIF,
    /// Pops a value and hands it to the debugger.
    DBG,
    /// Stops the run.
    EXIT,
}

impl Opcode {
    /// The byte value of this opcode.
    pub open spec fn code(self) -> u8 {
        match self {
            Opcode::NOOP => 0x00u8,
            Opcode::PUSH => 0x01u8,
            Opcode::STORE => 0x02u8,
            Opcode::LOAD => 0x03u8,
            Opcode::ADD => 0x10u8,
            Opcode::SUB => 0x11u8,
            Opcode::MUL => 0x12u8,
            Opcode::DIV => 0x13u8,
            Opcode::MOD => 0x14u8,
            Opcode::AND => 0x18u8,
            Opcode::OR => 0x19u8,
            Opcode::XOR => 0x1Au8,
            Opcode::NOT => 0x1Bu8,
            Opcode::LSF => 0x1Cu8,
            Opcode::RSF => 0x1Du8,
            Opcode::EQ => 0x20u8,
            Opcode::GT => 0x21u8,
            Opcode::LT => 0x22u8,
            Opcode::GTE => 0x23u8,
            Opcode::LTE => 0x24u8,
            Opcode::PROC => 0x28u8,
            Opcode::CALL => 0x29u8,
            Opcode::RET => 0x2Au8,
            Opcode::JMP => 0x2Cu8,
            Opcode::JIF => 0x2Du8,
            Opcode::DBG => 0xFEu8,
            Opcode::EXIT => 0xFFu8,
        }
    }

    /// Whether an instruction with this opcode is followed by one operand byte.
    pub open spec fn has_operand(self) -> bool {
        match self {
            Opcode::PUSH
            | Opcode::STORE
            | Opcode::LOAD
            | Opcode::PROC
            | Opcode::CALL
            | Opcode::JMP
            | Opcode::JIF
            | Opcode::DBG => true,
            _ => false,
        }
    }

    /// The opcode's mnemonic.
    pub open spec fn mnemonic(self) -> Seq<char> {
        match self {
            Opcode::NOOP => "NOOP"@,
            Opcode::PUSH => "PUSH"@,
            Opcode::STORE => "STORE"@,
            Opcode::LOAD => "LOAD"@,
            Opcode::ADD => "ADD"@,
            Opcode::SUB => "SUB"@,
            Opcode::MUL => "MUL"@,
            Opcode::DIV => "DIV"@,
            Opcode::MOD => "MOD"@,
            Opcode::AND => "AND"@,
            Opcode::OR => "OR"@,
            Opcode::XOR => "XOR"@,
            Opcode::NOT => "NOT"@,
            Opcode::LSF => "LSF"@,
            Opcode::RSF => "RSF"@,
            Opcode::EQ => "EQ"@,
            Opcode::GT => "GT"@,
            Opcode::LT => "LT"@,
            Opcode::GTE => "GTE"@,
            Opcode::LTE => "LTE"@,
            Opcode::PROC => "PROC"@,
            Opcode::CALL => "CALL"@,
            Opcode::RET => "RET"@,
            Opcode::JMP => "JMP"@,
            Opcode::JIF => "JIF"@,
            Opcode::DBG => "DBG"@,
            Opcode::EXIT => "EXIT"@,
        }
    }

    /// The byte value of this opcode.
    pub fn to_byte(self) -> (b: u8)
        ensures
            b == self.code(),
    {
        match self {
            Opcode::NOOP => 0x00,
            Opcode::PUSH => 0x01,
            Opcode::STORE => 0x02,
            Opcode::LOAD => 0x03,
            Opcode::ADD => 0x10,
            Opcode::SUB => 0x11,
            Opcode::MUL => 0x12,
            Opcode::DIV => 0x13,
            Opcode::MOD => 0x14,
            Opcode::AND => 0x18,
            Opcode::OR => 0x19,
            Opcode::XOR => 0x1A,
            Opcode::NOT => 0x1B,
            Opcode::LSF => 0x1C,
            Opcode::RSF => 0x1D,
            Opcode::EQ => 0x20,
            Opcode::GT => 0x21,
            Opcode::LT => 0x22,
            Opcode::GTE => 0x23,
            Opcode::LTE => 0x24,
            Opcode::PROC => 0x28,
            Opcode::CALL => 0x29,
            Opcode::RET => 0x2A,
            Opcode::JMP => 0x2C,
            Opcode::JIF => 0x2D,
            Opcode::DBG => 0xFE,
            Opcode::EXIT => 0xFF,
        }
    }

    /// Whether an instruction with this opcode is followed by one operand byte.
    pub fn takes_operand(self) -> (b: bool)
        ensures
            b == self.has_operand(),
    {
        match self {
            Opcode::PUSH
            | Opcode::STORE
            | Opcode::LOAD
            | Opcode::PROC
            | Opcode::CALL
            | Opcode::JMP
            | Opcode::JIF
            | Opcode::DBG => true,
            _ => false,
        }
    }

    /// The opcode's mnemonic.
    pub fn name(self) -> (s: &'static str)
        ensures
            s@ == self.mnemonic(),
    {
        match self {
            Opcode::NOOP => "NOOP",
            Opcode::PUSH => "PUSH",
            Opcode::STORE => "STORE",
            Opcode::LOAD => "LOAD",
            Opcode::ADD => "ADD",
            Opcode::SUB => "SUB",
            Opcode::MUL => "MUL",
            Opcode::DIV => "DIV",
            Opcode::MOD => "MOD",
            Opcode::AND => "AND",
            Opcode::OR => "OR",
            Opcode::XOR => "XOR",
            Opcode::NOT => "NOT",
            Opcode::LSF => "LSF",
            Opcode::RSF => "RSF",
            Opcode::EQ => "EQ",
            Opcode::GT => "GT",
            Opcode::LT => "LT",
            Opcode::GTE => "GTE",
            Opcode::LTE => "LTE",
            Opcode::PROC => "PROC",
            Opcode::CALL => "CALL",
            Opcode::RET => "RET",
            Opcode::JMP => "JMP",
            Opcode::JIF => "JIF",
            Opcode::DBG => "DBG",
            Opcode::EXIT => "EXIT",
        }
    }
}

/// The opcode with byte value `b`, if the table has one.
pub open spec fn opcode_of(b: u8) -> Option<Opcode> {
    if exists|op: Opcode| op.code() == b {
        Some(choose|op: Opcode| op.code() == b)
    } else {
        None
    }
}

/// Every opcode is found again from its byte value, and an opcode that is
/// found for a byte has that byte value: the table is one-to-one.
pub proof fn lemma_opcode_table(op: Opcode, b: u8)
    ensures
        opcode_of(op.code()) == Some(op),
        opcode_of(b) == Some(op) <==> op.code() == b,
{
    // No two opcodes share a byte value, so the one chosen for `op.code()`
    // is `op` itself.
    let found = choose|other: Opcode| other.code() == op.code();
    assert(found.code() == op.code());
}

impl TryFrom<u8> for Opcode {
    type Error = BytecodeError;

    /// Looks the byte up in the opcode table.
    fn try_from(value: u8) -> (r: Result<Self, BytecodeError>) {
        let r = match value {
            0x00 => Ok(Opcode::NOOP),
            0x01 => Ok(Opcode::PUSH),
            0x02 => Ok(Opcode::STORE),
            0x03 => Ok(Opcode::LOAD),
            0x10 => Ok(Opcode::ADD),
            0x11 => Ok(Opcode::SUB),
            0x12 => Ok(Opcode::MUL),
            0x13 => Ok(Opcode::DIV),
            0x14 => Ok(Opcode::MOD),
            0x18 => Ok(Opcode::AND),
            0x19 => Ok(Opcode::OR),
            0x1A => Ok(Opcode::XOR),
            0x1B => Ok(Opcode::NOT),
            0x1C => Ok(Opcode::LSF),
            0x1D => Ok(Opcode::RSF),
            0x20 => Ok(Opcode::EQ),
            0x21 => Ok(Opcode::GT),
            0x22 => Ok(Opcode::LT),
            0x23 => Ok(Opcode::GTE),
            0x24 => Ok(Opcode::LTE),
            0x28 => Ok(Opcode::PROC),
            0x29 => Ok(Opcode::CALL),
            0x2A => Ok(Opcode::RET),
            0x2C => Ok(Opcode::JMP),
            0x2D => Ok(Opcode::JIF),
            0xFE => Ok(Opcode::DBG),
            0xFF => Ok(Opcode::EXIT),
            _ => Err(BytecodeError::new(BytecodeErrorKind::InvalidOpcode(value))),
        };
        proof {
            match r {
                Ok(op) => {
                    lemma_opcode_table(op, value);
                },
                Err(_) => {
                    assert forall|op: Opcode| op.code() != value by {}
                },
            }
        }
        r
    }
}

impl TryFromSpecImpl<u8> for Opcode {
    open spec fn obeys_try_from_spec() -> bool {
        true
    }

    /// The opcode with that byte value; `InvalidOpcode` with the byte
    /// itself, and no pointer, where the table has none.
    open spec fn try_from_spec(v: u8) -> Result<Self, BytecodeError> {
        match opcode_of(v) {
            Some(op) => Ok(op),
            None => Err(BytecodeError { kind: BytecodeErrorKind::InvalidOpcode(v), ptr: None }),
        }
    }
}

/// An instruction: an opcode with its operand, if it has one.
#[derive(Debug, Clone, Copy, PartialEq, Eq, Structural)]
pub struct Op {
    pub opcode: Opcode,
    pub operand: Option<Value>,
}

impl Op {
    pub fn new(opcode: Opcode, operand: Option<Value>) -> (op: Self)
        ensures
            op == (Op { opcode, operand }),
    {
        Self { opcode, operand }
    }

    /// How the instruction reads: the mnemonic, then a space and the operand
    /// in decimal where there is one.
    pub open spec fn text_of(self) -> Seq<char> {
        match self.operand {
            Some(operand) => self.opcode.mnemonic() + seq![' '] + decimal(operand as int),
            None => self.opcode.mnemonic(),
        }
    }

    /// How the instruction reads, for traces and listings.
    pub fn text(&self) -> (s: String)
        ensures
            s@ == self.text_of(),
    {
        let mut s = String::from_str(self.opcode.name());
        if let Some(operand) = self.operand {
            proof {
                reveal_strlit(" ");
            }
            s.append(" ");
            append_value(&mut s, operand);
        }
        s
    }
}

} // verus!
