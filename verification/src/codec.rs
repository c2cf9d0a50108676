//! The binary program format: a flat byte array in which each instruction is
//! its opcode's byte, followed by one operand byte where the opcode takes an
//! operand. No header, no length prefix.

use vstd::prelude::*;
use vstd::std_specs::convert::TryFromSpecImpl;

use crate::opcode::{lemma_opcode_table, opcode_of, Op, Opcode};
use crate::{BytecodeError, BytecodeErrorKind, Instructions, Value};

verus! {

impl Op {
    /// Whether a decoder can give this instruction: it has an operand exactly
    /// if its opcode takes one, and the operand is the value of one byte.
    pub open spec fn decodable(self) -> bool {
        match self.operand {
            Some(operand) => self.opcode.has_operand() && 0 <= operand <= 255,
            None => !self.opcode.has_operand(),
        }
    }

    /// The bytes that stand for this instruction: the opcode's byte, then the
    /// low byte of the operand where there is one.
    pub open spec fn encoding(self) -> Seq<u8> {
        match self.operand {
            Some(operand) => seq![self.opcode.code(), operand as u8],
            None => seq![self.opcode.code()],
        }
    }

    /// How many bytes an instruction with this opcode takes in a byte stream.
    pub open spec fn width(self) -> nat {
        if self.opcode.has_operand() {
            2
        } else {
            1
        }
    }
}

/// The bytes that stand for a program: the encodings of its instructions, one
/// after the other.
pub open spec fn encoding(ops: Seq<Op>) -> Seq<u8>
    decreases ops.len(),
{
    if ops.len() == 0 {
        Seq::empty()
    } else {
        ops.first().encoding() + encoding(ops.skip(1))
    }
}

/// How many bytes a program takes in a byte stream.
pub open spec fn byte_count(ops: Seq<Op>) -> nat
    decreases ops.len(),
{
    if ops.len() == 0 {
        0
    } else {
        ops.first().width() + byte_count(ops.skip(1))
    }
}

/// An error found while decoding; it has no pointer.
pub open spec fn decode_error(kind: BytecodeErrorKind) -> BytecodeError {
    BytecodeError { kind, ptr: None }
}

/// `first` put in front of what the rest of a stream decodes to.
pub open spec fn after(first: Seq<Op>, rest: Result<Seq<Op>, BytecodeError>) -> Result<
    Seq<Op>,
    BytecodeError,
> {
    match rest {
        Ok(ops) => Ok(first + ops),
        Err(error) => Err(error),
    }
}

/// The program that a byte stream stands for, read from left to right.
///
/// A byte that is no opcode where an opcode is due gives `InvalidOpcode` with
/// that byte. A stream that ends where an operand byte is due gives
/// `TruncatedOperand`. The leftmost fault decides.
pub open spec fn decoding(bytes: Seq<u8>) -> Result<Seq<Op>, BytecodeError>
    decreases bytes.len(),
{
    if bytes.len() == 0 {
        Ok(Seq::empty())
    } else {
        match opcode_of(bytes[0]) {
            None => Err(decode_error(BytecodeErrorKind::InvalidOpcode(bytes[0]))),
            Some(opcode) => if !opcode.has_operand() {
                after(seq![Op { opcode, operand: None }], decoding(bytes.skip(1)))
            } else if bytes.len() < 2 {
                Err(decode_error(BytecodeErrorKind::TruncatedOperand))
            } else {
                after(
                    seq![Op { opcode, operand: Some(bytes[1] as Value) }],
                    decoding(bytes.skip(2)),
                )
            },
        }
    }
}

/// Whether every instruction of a program is one that a decoder can give.
pub open spec fn all_decodable(ops: Seq<Op>) -> bool {
    forall|i: int| 0 <= i < ops.len() ==> (#[trigger] ops[i]).decodable()
}

/// Putting one more instruction at the end of a program puts its bytes at the
/// end of the program's bytes.
pub proof fn lemma_encoding_push(ops: Seq<Op>, op: Op)
    ensures
        encoding(ops.push(op)) == encoding(ops) + op.encoding(),
        byte_count(ops.push(op)) == byte_count(ops) + op.width(),
    decreases ops.len(),
{
    if ops.len() == 0 {
        assert(encoding(ops.push(op).skip(1)) =~= Seq::<u8>::empty());
        assert(byte_count(ops.push(op).skip(1)) == 0);
    } else {
        assert(ops.push(op).skip(1) =~= ops.skip(1).push(op));
        lemma_encoding_push(ops.skip(1), op);
    }
}

/// Encoding what a stream decodes to gives the stream back. What it decodes
/// to holds only instructions that match their opcodes, and has one byte in
/// the stream for each instruction without an operand and two for each with
/// one.
pub proof fn lemma_decode_then_encode(bytes: Seq<u8>)
    requires
        decoding(bytes) is Ok,
    ensures
        encoding(decoding(bytes)->Ok_0) == bytes,
        all_decodable(decoding(bytes)->Ok_0),
        byte_count(decoding(bytes)->Ok_0) == bytes.len(),
        decoding(bytes)->Ok_0.len() <= bytes.len() <= 2 * decoding(bytes)->Ok_0.len(),
    decreases bytes.len(),
{
    if bytes.len() > 0 {
        let opcode = opcode_of(bytes[0])->Some_0;
        lemma_opcode_table(opcode, bytes[0]);
        let width: int = if opcode.has_operand() {
            2
        } else {
            1
        };
        let rest = bytes.skip(width);
        let op = if opcode.has_operand() {
            Op { opcode, operand: Some(bytes[1] as Value) }
        } else {
            Op { opcode, operand: None }
        };
        lemma_decode_then_encode(rest);
        let ops = decoding(bytes)->Ok_0;
        let tail = decoding(rest)->Ok_0;
        assert(ops.skip(1) =~= tail);
        assert(op.encoding() + rest =~= bytes);
        assert forall|i: int| 0 <= i < ops.len() implies (#[trigger] ops[i]).decodable() by {
            if i > 0 {
                assert(ops[i] == tail[i - 1]);
            }
        }
    } else {
        assert(encoding(Seq::<Op>::empty()) =~= bytes);
    }
}

/// A stream that starts with the encoding of a program of instructions that
/// match their opcodes decodes to that program, followed by what the rest of
/// the stream decodes to.
pub proof fn lemma_decoding_prefix(ops: Seq<Op>, rest: Seq<u8>)
    requires
        all_decodable(ops),
    ensures
        decoding(encoding(ops) + rest) == after(ops, decoding(rest)),
    decreases ops.len(),
{
    if ops.len() == 0 {
        assert(encoding(ops) + rest =~= rest);
        if let Ok(tail) = decoding(rest) {
            assert(ops + tail =~= tail);
        }
    } else {
        let op = ops.first();
        let tail = ops.skip(1);
        assert forall|i: int| 0 <= i < tail.len() implies (#[trigger] tail[i]).decodable() by {
            assert(tail[i] == ops[i + 1]);
        }
        lemma_decoding_prefix(tail, rest);
        lemma_opcode_table(op.opcode, op.opcode.code());
        let bytes = encoding(ops) + rest;
        let follow = encoding(tail) + rest;
        assert(bytes =~= op.encoding() + follow);
        assert(bytes.skip(op.width() as int) =~= follow);
        assert(bytes[0] == op.opcode.code());
        if let Ok(end) = decoding(rest) {
            assert(seq![op] + (tail + end) =~= ops + end);
        }
    }
}

/// A program of instructions that match their opcodes is found again from its
/// encoding: decoding is the inverse of encoding.
pub proof fn lemma_encode_then_decode(ops: Seq<Op>)
    requires
        all_decodable(ops),
    ensures
        decoding(encoding(ops)) == Ok::<Seq<Op>, BytecodeError>(ops),
{
    lemma_decoding_prefix(ops, Seq::<u8>::empty());
}

/// A byte that is no opcode, standing where an opcode is due, makes decoding
/// fail with `InvalidOpcode` and that very byte, whatever follows it.
pub proof fn lemma_invalid_opcode(ops: Seq<Op>, byte: u8, rest: Seq<u8>)
    requires
        all_decodable(ops),
        opcode_of(byte) is None,
    ensures
        decoding(encoding(ops) + seq![byte] + rest) == Err::<Seq<Op>, BytecodeError>(
            decode_error(BytecodeErrorKind::InvalidOpcode(byte)),
        ),
{
    let tail = seq![byte] + rest;
    assert(encoding(ops) + seq![byte] + rest =~= encoding(ops) + tail);
    assert(tail[0] == byte);
    lemma_decoding_prefix(ops, tail);
}

/// Decoding fails in two ways only, and never names a pointer: with
/// `InvalidOpcode` and a byte of the stream that is no opcode, or with
/// `TruncatedOperand`.
pub proof fn lemma_decoding_errors(bytes: Seq<u8>)
    requires
        decoding(bytes) is Err,
    ensures
        decoding(bytes)->Err_0.ptr is None,
        decoding(bytes)->Err_0.kind == BytecodeErrorKind::TruncatedOperand || exists|i: int|
            0 <= i < bytes.len() && opcode_of(#[trigger] bytes[i]) is None && decoding(
                bytes,
            )->Err_0.kind == BytecodeErrorKind::InvalidOpcode(bytes[i]),
    decreases bytes.len(),
{
    let kind = decoding(bytes)->Err_0.kind;
    match opcode_of(bytes[0]) {
        None => {},
        Some(opcode) => {
            let width: int = if opcode.has_operand() {
                2
            } else {
                1
            };
            if bytes.len() >= width {
                let rest = bytes.skip(width);
                lemma_decoding_errors(rest);
                if kind != BytecodeErrorKind::TruncatedOperand {
                    let i = choose|i: int|
                        0 <= i < rest.len() && opcode_of(#[trigger] rest[i]) is None && kind
                            == BytecodeErrorKind::InvalidOpcode(rest[i]);
                    assert(bytes[i + width] == rest[i]);
                }
            }
        },
    }
}

impl Op {
    /// Appends the bytes that stand for this instruction to `out`.
    pub fn encode_into(&self, out: &mut Vec<u8>)
        ensures
            final(out)@ == old(out)@ + self.encoding(),
    {
        out.push(self.opcode.to_byte());
        if let Some(operand) = self.operand {
            out.push(#[verifier::truncate] (operand as u8));
        }
    }
}

impl Instructions {
    /// The bytes that stand for this program.
    pub fn to_bytes(&self) -> (bytes: Vec<u8>)
        ensures
            bytes@ == encoding(self@),
    {
        let mut bytes: Vec<u8> = Vec::new();
        let mut i: usize = 0;
        while i < self.0.len()
            invariant
                i <= self.0.len(),
                bytes@ == encoding(self@.take(i as int)),
            decreases self.0.len() - i,
        {
            proof {
                lemma_encoding_push(self@.take(i as int), self@[i as int]);
                assert(self@.take(i as int).push(self@[i as int]) =~= self@.take(i + 1));
            }
            self.0[i].encode_into(&mut bytes);
            i += 1;
        }
        assert(self@.take(i as int) =~= self@);
        bytes
    }
}

impl<'a> TryFrom<&'a [u8]> for Instructions {
    type Error = BytecodeError;

    /// Decodes a byte stream: the program that `decoding` gives, or the error
    /// that it gives, and then no program at all.
    fn try_from(bytes: &'a [u8]) -> (r: Result<Self, BytecodeError>)
        ensures
            match decoding(bytes@) {
                Ok(ops) => r is Ok && r->Ok_0@ == ops,
                Err(error) => r == Err::<Self, BytecodeError>(error),
            },
    {
        let mut instructions: Vec<Op> = Vec::new();
        let mut index: usize = 0;
        proof {
            assert(bytes@.skip(0) =~= bytes@);
            if let Ok(ops) = decoding(bytes@) {
                assert(instructions@ + ops =~= ops);
            }
        }
        while index < bytes.len()
            invariant
                index <= bytes.len(),
                decoding(bytes@) == after(instructions@, decoding(bytes@.skip(index as int))),
            decreases bytes.len() - index,
        {
            let ghost here = bytes@.skip(index as int);
            let ghost done = instructions@;
            assert(here[0] == bytes@[index as int]);
            let opcode = match Opcode::try_from(bytes[index]) {
                Ok(opcode) => opcode,
                Err(error) => {
                    return Err(error);
                },
            };
            let width: usize = if opcode.takes_operand() {
                if bytes.len() - index < 2 {
                    return Err(BytecodeError::new(BytecodeErrorKind::TruncatedOperand));
                }
                assert(here[1] == bytes@[index + 1]);
                instructions.push(Op::new(opcode, Some(bytes[index + 1] as Value)));
                2
            } else {
                instructions.push(Op::new(opcode, None));
                1
            };
            index += width;
            proof {
                let rest = bytes@.skip(index as int);
                assert(here.skip(width as int) =~= rest);
                let op = instructions@.last();
                if let Ok(ops) = decoding(rest) {
                    assert(done + (seq![op] + ops) =~= instructions@ + ops);
                }
            }
        }
        proof {
            assert(bytes@.skip(index as int) =~= Seq::<u8>::empty());
            assert(instructions@ + Seq::<Op>::empty() =~= instructions@);
        }
        Ok(Instructions(instructions))
    }
}

impl<'a> TryFromSpecImpl<&'a [u8]> for Instructions {
    /// `try_from` gives a program with the instructions that `try_from_spec`
    /// names, not that very value: its contract is stated on the function
    /// itself, over the program's view.
    open spec fn obeys_try_from_spec() -> bool {
        false
    }

    open spec fn try_from_spec(bytes: &'a [u8]) -> Result<Self, BytecodeError> {
        match decoding(bytes@) {
            Ok(ops) => Ok(choose|program: Instructions| program@ == ops),
            Err(error) => Err(error),
        }
    }
}

} // verus!
