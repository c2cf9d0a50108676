use ussua::opcode::{Op, Opcode};
use ussua::{BytecodeError, BytecodeErrorKind, Instructions};

const TABLE: [(u8, Opcode, bool); 27] = [
    (0x00, Opcode::NOOP, false),
    (0x01, Opcode::PUSH, true),
    (0x02, Opcode::STORE, true),
    (0x03, Opcode::LOAD, true),
    (0x10, Opcode::ADD, false),
    (0x11, Opcode::SUB, false),
    (0x12, Opcode::MUL, false),
    (0x13, Opcode::DIV, false),
    (0x14, Opcode::MOD, false),
    (0x18, Opcode::AND, false),
    (0x19, Opcode::OR, false),
    (0x1A, Opcode::XOR, false),
    (0x1B, Opcode::NOT, false),
    (0x1C, Opcode::LSF, false),
    (0x1D, Opcode::RSF, false),
    (0x20, Opcode::EQ, false),
    (0x21, Opcode::GT, false),
    (0x22, Opcode::LT, false),
    (0x23, Opcode::GTE, false),
    (0x24, Opcode::LTE, false),
    (0x28, Opcode::PROC, true),
    (0x29, Opcode::CALL, true),
    (0x2A, Opcode::RET, false),
    (0x2C, Opcode::JMP, true),
    (0x2D, Opcode::JIF, true),
    (0xFE, Opcode::DBG, true),
    (0xFF, Opcode::EXIT, false),
];

fn decode(bytes: &[u8]) -> Result<Instructions, BytecodeError> {
    Instructions::try_from(bytes)
}

#[test]
fn every_table_entry_decodes_to_its_opcode() {
    for (byte, opcode, _) in TABLE {
        assert_eq!(Opcode::try_from(byte), Ok(opcode));
        assert_eq!(opcode.to_byte(), byte);
    }
}

#[test]
fn every_other_byte_is_an_invalid_opcode() {
    let mut invalid = 0;
    for byte in 0..=255u8 {
        if TABLE.iter().any(|(b, _, _)| *b == byte) {
            continue;
        }
        invalid += 1;
        assert_eq!(
            Opcode::try_from(byte),
            Err(BytecodeError { kind: BytecodeErrorKind::InvalidOpcode(byte), ptr: None })
        );
    }
    assert_eq!(invalid, 256 - 27);
}

#[test]
fn reserved_gaps_are_invalid() {
    for byte in [0x04u8, 0x0F, 0x15, 0x17, 0x1E, 0x1F, 0x25, 0x27, 0x2B, 0x2E, 0x80, 0xFD] {
        assert_eq!(
            Opcode::try_from(byte),
            Err(BytecodeError::new(BytecodeErrorKind::InvalidOpcode(byte)))
        );
    }
}

#[test]
fn operand_bearing_opcodes_are_the_eight_listed() {
    for (_, opcode, with_operand) in TABLE {
        assert_eq!(opcode.takes_operand(), with_operand);
    }
    assert_eq!(TABLE.iter().filter(|(_, opcode, _)| opcode.takes_operand()).count(), 8);
}

#[test]
fn mnemonics_are_the_opcode_names() {
    assert_eq!(Opcode::NOOP.name(), "NOOP");
    assert_eq!(Opcode::GTE.name(), "GTE");
    assert_eq!(Opcode::EXIT.name(), "EXIT");
    for (_, opcode, _) in TABLE {
        assert_eq!(opcode.name(), format!("{:?}", opcode));
    }
}

#[test]
fn op_new_keeps_its_parts() {
    let op = Op::new(Opcode::PUSH, Some(7));
    assert_eq!(op.opcode, Opcode::PUSH);
    assert_eq!(op.operand, Some(7));
    assert_eq!(Op::new(Opcode::RET, None), Op { opcode: Opcode::RET, operand: None });
}

#[test]
fn op_text_reads_mnemonic_and_operand() {
    assert_eq!(Op::new(Opcode::PUSH, Some(3)).text(), "PUSH 3");
    assert_eq!(Op::new(Opcode::NOOP, None).text(), "NOOP");
    assert_eq!(Op::new(Opcode::PUSH, Some(-15)).text(), "PUSH -15");
    assert_eq!(Op::new(Opcode::JMP, Some(0)).text(), "JMP 0");
    assert_eq!(Op::new(Opcode::LOAD, Some(255)).text(), "LOAD 255");
}

#[test]
fn error_constructors_set_the_pointer() {
    assert_eq!(
        BytecodeError::new(BytecodeErrorKind::EmptyStack),
        BytecodeError { kind: BytecodeErrorKind::EmptyStack, ptr: None }
    );
    assert_eq!(
        BytecodeError::new_with_ptr(BytecodeErrorKind::EmptyOperand, 9),
        BytecodeError { kind: BytecodeErrorKind::EmptyOperand, ptr: Some(9) }
    );
}

#[test]
fn decodes_the_call_and_return_program() {
    let expected = Instructions(vec![
        Op::new(Opcode::PROC, Some(2)),
        Op::new(Opcode::NOOP, None),
        Op::new(Opcode::RET, None),
        Op::new(Opcode::CALL, Some(0)),
        Op::new(Opcode::NOOP, None),
    ]);
    let bytes = [0x28, 0x02, 0x00, 0x2a, 0x29, 0x00, 0x00];
    assert_eq!(decode(&bytes), Ok(expected));
}

#[test]
fn decodes_the_empty_stream_to_the_empty_program() {
    assert_eq!(decode(&[]), Ok(Instructions(vec![])));
}

#[test]
fn operand_bytes_are_not_read_as_opcodes() {
    // 0x04 is no opcode, but here it is the operand of PUSH.
    let program = decode(&[0x01, 0x04, 0xFE, 0xFF]).unwrap();
    assert_eq!(
        program.0,
        vec![Op::new(Opcode::PUSH, Some(4)), Op::new(Opcode::DBG, Some(255))]
    );
}

#[test]
fn operand_byte_is_widened_without_sign() {
    let program = decode(&[0x01, 0xFF, 0x01, 0x80, 0x01, 0x00]).unwrap();
    assert_eq!(program.0[0].operand, Some(255));
    assert_eq!(program.0[1].operand, Some(128));
    assert_eq!(program.0[2].operand, Some(0));
}

#[test]
fn instruction_count_is_not_byte_count() {
    let bytes = [0x01, 0x0A, 0x01, 0x03, 0x11, 0xFF];
    let program = decode(&bytes).unwrap();
    assert_eq!(program.0.len(), 4);
    let widths: usize = program.0.iter().map(|op| if op.opcode.takes_operand() { 2 } else { 1 }).sum();
    assert_eq!(widths, bytes.len());
}

#[test]
fn invalid_opcode_carries_the_byte_and_no_pointer() {
    assert_eq!(
        decode(&[0x00, 0x04]),
        Err(BytecodeError { kind: BytecodeErrorKind::InvalidOpcode(0x04), ptr: None })
    );
    assert_eq!(
        decode(&[0x01, 0x01, 0x77, 0x00]),
        Err(BytecodeError { kind: BytecodeErrorKind::InvalidOpcode(0x77), ptr: None })
    );
}

#[test]
fn leftmost_fault_decides() {
    assert_eq!(
        decode(&[0x05, 0x06, 0x01]),
        Err(BytecodeError::new(BytecodeErrorKind::InvalidOpcode(0x05)))
    );
    assert_eq!(
        decode(&[0x00, 0x30, 0x01]),
        Err(BytecodeError::new(BytecodeErrorKind::InvalidOpcode(0x30)))
    );
}

#[test]
fn missing_trailing_operand_is_truncated_operand() {
    for opcode in [0x01u8, 0x02, 0x03, 0x28, 0x29, 0x2C, 0x2D, 0xFE] {
        assert_eq!(
            decode(&[opcode]),
            Err(BytecodeError { kind: BytecodeErrorKind::TruncatedOperand, ptr: None })
        );
        assert_eq!(
            decode(&[0x00, 0x10, opcode]),
            Err(BytecodeError::new(BytecodeErrorKind::TruncatedOperand))
        );
    }
}

#[test]
fn encodes_opcode_then_operand() {
    let mut out = vec![0xAAu8];
    Op::new(Opcode::PUSH, Some(42)).encode_into(&mut out);
    Op::new(Opcode::EXIT, None).encode_into(&mut out);
    assert_eq!(out, vec![0xAA, 0x01, 42, 0xFF]);
}

#[test]
fn encoding_keeps_the_low_byte_of_a_wide_operand() {
    let program = Instructions(vec![
        Op::new(Opcode::PUSH, Some(0x1234)),
        Op::new(Opcode::PUSH, Some(-1)),
        Op::new(Opcode::JMP, Some(256)),
    ]);
    assert_eq!(program.to_bytes(), vec![0x01, 0x34, 0x01, 0xFF, 0x2C, 0x00]);
}

#[test]
fn decode_then_encode_gives_the_bytes_back() {
    let streams: [&[u8]; 5] = [
        &[],
        &[0x28, 0x02, 0x00, 0x2a, 0x29, 0x00, 0x00],
        &[0x01, 0x2A, 0x02, 0x05, 0x03, 0x05, 0xFF],
        &[0x01, 0x00, 0x01, 0x05, 0x2D, 0x00, 0xFE, 0x07, 0x1B, 0x24],
        &[0xFF, 0xFF, 0x00, 0x10, 0x11, 0x12, 0x13, 0x14, 0x18, 0x19, 0x1A, 0x1C, 0x1D, 0x20, 0x21, 0x22, 0x23],
    ];
    for bytes in streams {
        assert_eq!(decode(bytes).unwrap().to_bytes(), bytes.to_vec());
    }
}

#[test]
fn encode_then_decode_gives_the_program_back() {
    let program = Instructions(vec![
        Op::new(Opcode::PUSH, Some(200)),
        Op::new(Opcode::STORE, Some(0)),
        Op::new(Opcode::LOAD, Some(0)),
        Op::new(Opcode::NOT, None),
        Op::new(Opcode::JIF, Some(9)),
        Op::new(Opcode::DBG, Some(1)),
        Op::new(Opcode::RET, None),
    ]);
    let bytes = program.to_bytes();
    assert_eq!(bytes.len(), 12);
    assert_eq!(decode(&bytes), Ok(program));
}

#[test]
fn every_single_instruction_round_trips() {
    for (byte, opcode, with_operand) in TABLE {
        if with_operand {
            for operand in [0u8, 1, 127, 128, 255] {
                let program = decode(&[byte, operand]).unwrap();
                assert_eq!(program.0, vec![Op::new(opcode, Some(operand as isize))]);
                assert_eq!(program.to_bytes(), vec![byte, operand]);
            }
        } else {
            let program = decode(&[byte]).unwrap();
            assert_eq!(program.0, vec![Op::new(opcode, None)]);
            assert_eq!(program.to_bytes(), vec![byte]);
        }
    }
}
