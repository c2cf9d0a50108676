use ussua::arith::{compute, forward, invert, to_pointer};
use ussua::debugger::{DebugDisable, DebugMessage, DebugPrint, Debugger};
use ussua::opcode::{Op, Opcode};
use ussua::text::{append_pointer, append_value, value_text};
use ussua::vm::Vm;
use ussua::{BytecodeError, BytecodeErrorKind, Instructions};

#[test]
fn decimal_text_of_values() {
    assert_eq!(value_text(0), "0");
    assert_eq!(value_text(7), "7");
    assert_eq!(value_text(10), "10");
    assert_eq!(value_text(-1), "-1");
    assert_eq!(value_text(-120), "-120");
    assert_eq!(value_text(1234567890), "1234567890");
    assert_eq!(value_text(isize::MAX), isize::MAX.to_string());
    assert_eq!(value_text(isize::MIN), isize::MIN.to_string());
}

#[test]
fn decimal_text_agrees_with_the_standard_rendering() {
    let mut v: isize = 1;
    while v < isize::MAX / 7 {
        assert_eq!(value_text(v), v.to_string());
        assert_eq!(value_text(-v), (-v).to_string());
        assert_eq!(value_text(v - 1), (v - 1).to_string());
        v *= 7;
    }
}

#[test]
fn decimal_text_is_appended() {
    let mut out = String::from("at ");
    append_pointer(&mut out, 0);
    out.push(',');
    append_pointer(&mut out, usize::MAX);
    out.push(',');
    append_value(&mut out, -45);
    assert_eq!(out, format!("at 0,{},-45", usize::MAX));
}

#[test]
fn words_read_as_unsigned() {
    assert_eq!(to_pointer(0), 0);
    assert_eq!(to_pointer(255), 255);
    assert_eq!(to_pointer(isize::MAX), usize::MAX / 2);
    assert_eq!(to_pointer(-1), usize::MAX);
    assert_eq!(to_pointer(isize::MIN), usize::MAX / 2 + 1);
}

#[test]
fn pointers_move_forward_and_wrap() {
    assert_eq!(forward(3, 4), 7);
    assert_eq!(forward(usize::MAX, 1), 0);
    assert_eq!(forward(usize::MAX, usize::MAX), usize::MAX - 1);
    assert_eq!(forward(0, 0), 0);
}

#[test]
fn compute_gives_none_only_for_a_zero_divisor() {
    assert_eq!(compute(Opcode::ADD, 2, 3), Some(5));
    assert_eq!(compute(Opcode::SUB, 2, 3), Some(-1));
    assert_eq!(compute(Opcode::DIV, 2, 0), None);
    assert_eq!(compute(Opcode::MOD, 2, 0), None);
    assert_eq!(compute(Opcode::DIV, 0, 2), Some(0));
    assert_eq!(compute(Opcode::LSF, 0, 0), Some(0));
    assert_eq!(compute(Opcode::EQ, 0, 0), Some(1));
    assert_eq!(invert(-6), 5);
    assert_eq!(invert(isize::MAX), isize::MIN);
}

#[test]
fn console_lines() {
    assert_eq!(
        DebugPrint::render(&DebugMessage::DbgInstruction(String::from("42"))),
        "DBG instruction: 42"
    );
    assert_eq!(
        DebugPrint::render(&DebugMessage::InstructionTrace(String::from("PUSH 3"), 0)),
        "Executing PUSH 3, Pointer: 0"
    );
    let op = Op::new(Opcode::CALL, Some(12));
    assert_eq!(
        DebugPrint::render(&DebugMessage::InstructionTrace(op.text(), 1500)),
        "Executing CALL 12, Pointer: 1500"
    );
}

#[test]
fn the_keeping_sink_keeps_messages_in_order() {
    let mut sink = DebugPrint::default();
    assert!(sink.lines().is_empty());
    sink.debug(DebugMessage::DbgInstruction(String::from("first")));
    sink.debug(DebugMessage::InstructionTrace(String::from("NOOP"), 3));
    sink.debug(DebugMessage::DbgInstruction(String::new()));
    assert_eq!(
        sink.lines(),
        vec!["DBG instruction: first", "Executing NOOP, Pointer: 3", "DBG instruction: "]
    );
}

#[test]
fn the_dropping_sink_takes_messages() {
    let mut sink = DebugDisable::default();
    sink.debug(DebugMessage::DbgInstruction(String::from("gone")));
    sink.debug(DebugMessage::InstructionTrace(String::from("gone"), 0));
}

#[test]
fn dbg_pops_the_value_and_hands_its_text_to_the_sink() {
    let mut vm: Vm<DebugPrint> = Vm::new(Instructions(vec![
        Op::new(Opcode::PUSH, Some(1)),
        Op::new(Opcode::PUSH, Some(42)),
        Op::new(Opcode::DBG, Some(0)),
        Op::new(Opcode::PUSH, Some(0)),
        Op::new(Opcode::PUSH, Some(8)),
        Op::new(Opcode::SUB, None),
        Op::new(Opcode::DBG, None),
    ]));
    assert!(vm.debugger().lines().is_empty());
    assert_eq!(vm.execute(), Ok(()));
    assert_eq!(vm.stack().0, vec![1]);
    assert_eq!(vm.debugger().lines(), vec!["DBG instruction: 42", "DBG instruction: -8"]);
}

#[test]
fn messages_before_an_error_stay_in_the_sink() {
    let mut vm: Vm<DebugPrint> = Vm::new(Instructions(vec![
        Op::new(Opcode::PUSH, Some(5)),
        Op::new(Opcode::DBG, None),
        Op::new(Opcode::DBG, None),
    ]));
    assert_eq!(
        vm.execute(),
        Err(BytecodeError { kind: BytecodeErrorKind::EmptyStack, ptr: Some(2) })
    );
    assert_eq!(vm.debugger().lines(), vec!["DBG instruction: 5"]);
}
