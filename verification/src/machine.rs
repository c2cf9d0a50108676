//! The engine as mathematics: its state, what one instruction does to it, and
//! what a whole run comes to.

use vstd::prelude::*;

use crate::arith::{binary_value, complement, is_binary, unsigned, wrap_pointer};
use crate::debugger::DebugText;
use crate::opcode::{Op, Opcode};
use crate::text::decimal;
use crate::vm::OpExecuted;
use crate::{BytecodeError, BytecodeErrorKind, Pointer, Value};

verus! {

/// The state of an engine between two instructions.
#[verifier::ext_equal]
pub struct Machine {
    /// The value stack, top last.
    pub stack: Seq<Value>,
    /// The return pointers of the calls under way, latest last.
    pub calls: Seq<Pointer>,
    /// The store: the addresses stored to, each with its latest value.
    pub store: Map<Pointer, Value>,
    /// The messages handed to the debug sink so far, oldest first.
    pub log: Seq<DebugText>,
}

impl Machine {
    /// The state with `v` pushed on the value stack.
    pub open spec fn push(self, v: Value) -> Machine {
        Machine { stack: self.stack.push(v), ..self }
    }

    /// The state with the `n` topmost values taken off the value stack.
    pub open spec fn drop(self, n: nat) -> Machine {
        Machine { stack: self.stack.take(self.stack.len() - n), ..self }
    }

    /// The value `depth` places below the top of the value stack; 0 is the
    /// top.
    pub open spec fn peek(self, depth: nat) -> Value {
        self.stack[self.stack.len() - 1 - depth]
    }
}

/// What executing one instruction leads to.
pub struct Step {
    /// The state after the instruction.
    pub machine: Machine,
    /// The pointer after the instruction: its target where it redirects, the
    /// pointer of the instruction itself where it does not.
    pub pointer: Pointer,
    /// How the run goes on.
    pub flow: OpExecuted,
}

/// An error of the given kind, raised by the instruction at `pointer`.
pub open spec fn fault(kind: BytecodeErrorKind, pointer: Pointer) -> BytecodeError {
    BytecodeError { kind, ptr: Some(pointer) }
}

/// The step that leaves the pointer alone and lets the run go on with the next
/// instruction.
pub open spec fn advance(machine: Machine, pointer: Pointer) -> Step {
    Step { machine, pointer, flow: OpExecuted::Advance }
}

/// The step that sends the run to `target`.
pub open spec fn redirect(machine: Machine, target: Pointer) -> Step {
    Step { machine, pointer: target, flow: OpExecuted::Redirect }
}

/// What the instruction `op`, standing at `pointer`, does in state `m`: the
/// state, pointer and flow that it leads to, or the error it fails with. An
/// instruction that fails has no effect.
///
/// A value stack that is too short comes before a missing operand, and both
/// before anything that the instruction computes.
pub open spec fn step(op: Op, pointer: Pointer, m: Machine) -> Result<Step, BytecodeError> {
    match op.opcode {
        Opcode::NOOP => Ok(advance(m, pointer)),
        Opcode::PUSH => match op.operand {
            Some(v) => Ok(advance(m.push(v), pointer)),
            None => Err(fault(BytecodeErrorKind::EmptyOperand, pointer)),
        },
        Opcode::STORE => if m.stack.len() == 0 {
            Err(fault(BytecodeErrorKind::EmptyStack, pointer))
        } else {
            match op.operand {
                Some(address) => Ok(
                    advance(
                        Machine {
                            store: m.store.insert(unsigned(address), m.peek(0)),
                            ..m.drop(1)
                        },
                        pointer,
                    ),
                ),
                None => Err(fault(BytecodeErrorKind::EmptyOperand, pointer)),
            }
        },
        Opcode::LOAD => match op.operand {
            Some(address) => if m.store.contains_key(unsigned(address)) {
                Ok(advance(m.push(m.store[unsigned(address)]), pointer))
            } else {
                Err(fault(BytecodeErrorKind::NotFoundAddressInStore(unsigned(address)), pointer))
            },
            None => Err(fault(BytecodeErrorKind::EmptyOperand, pointer)),
        },
        Opcode::NOT => if m.stack.len() == 0 {
            Err(fault(BytecodeErrorKind::EmptyStack, pointer))
        } else {
            Ok(advance(m.drop(1).push(complement(m.peek(0))), pointer))
        },
        Opcode::PROC => match op.operand {
            Some(length) => Ok(redirect(m, wrap_pointer(pointer + unsigned(length) + 1))),
            None => Err(fault(BytecodeErrorKind::EmptyOperand, pointer)),
        },
        Opcode::CALL => match op.operand {
            Some(header) => Ok(
                redirect(
                    Machine { calls: m.calls.push(wrap_pointer(pointer + 1)), ..m },
                    wrap_pointer(unsigned(header) + 1),
                ),
            ),
            None => Err(fault(BytecodeErrorKind::EmptyOperand, pointer)),
        },
        Opcode::RET => if m.calls.len() == 0 {
            Err(fault(BytecodeErrorKind::EmptyCallStack, pointer))
        } else {
            Ok(redirect(Machine { calls: m.calls.drop_last(), ..m }, m.calls.last()))
        },
        Opcode::JMP => match op.operand {
            Some(target) => Ok(redirect(m, unsigned(target))),
            None => Err(fault(BytecodeErrorKind::EmptyOperand, pointer)),
        },
        Opcode::JIF => if m.stack.len() == 0 {
            Err(fault(BytecodeErrorKind::EmptyStack, pointer))
        } else if m.peek(0) != 0 {
            Ok(advance(m.drop(1), pointer))
        } else if m.stack.len() == 1 {
            Err(fault(BytecodeErrorKind::EmptyStack, pointer))
        } else {
            Ok(redirect(m.drop(2), unsigned(m.peek(1))))
        },
        Opcode::DBG => if m.stack.len() == 0 {
            Err(fault(BytecodeErrorKind::EmptyStack, pointer))
        } else {
            Ok(
                advance(
                    Machine {
                        log: m.log.push(DebugText::DbgInstruction(decimal(m.peek(0) as int))),
                        ..m.drop(1)
                    },
                    pointer,
                ),
            )
        },
        Opcode::EXIT => Ok(Step { machine: m, pointer, flow: OpExecuted::Halt }),
        Opcode::ADD
        | Opcode::SUB
        | Opcode::MUL
        | Opcode::DIV
        | Opcode::MOD
        | Opcode::AND
        | Opcode::OR
        | Opcode::XOR
        | Opcode::LSF
        | Opcode::RSF
        | Opcode::EQ
        | Opcode::GT
        | Opcode::LT
        | Opcode::GTE
        | Opcode::LTE => if m.stack.len() < 2 {
            Err(fault(BytecodeErrorKind::EmptyStack, pointer))
        } else {
            match binary_value(op.opcode, m.peek(1), m.peek(0)) {
                Some(v) => Ok(advance(m.drop(2).push(v), pointer)),
                None => Err(fault(BytecodeErrorKind::DivisionByZero, pointer)),
            }
        },
    }
}

/// How a run ends.
pub enum Outcome {
    /// The run came to an end of its own accord, in this state.
    Finished(Machine),
    /// The run was stopped by this error, in this state: the one that the
    /// instructions before the error had led to.
    Failed(BytecodeError, Machine),
}

/// What a run comes to that starts at `pointer` in state `m` and may execute
/// up to `limit` instructions.
///
/// The run ends of its own accord when the pointer leaves the program or an
/// instruction halts it. The first error stops it. So does the limit, with
/// `StepLimitExceeded` at the instruction that was not executed any more.
pub open spec fn run(program: Seq<Op>, pointer: Pointer, m: Machine, limit: nat) -> Outcome
    decreases limit,
{
    if pointer >= program.len() {
        Outcome::Finished(m)
    } else if limit == 0 {
        Outcome::Failed(fault(BytecodeErrorKind::StepLimitExceeded, pointer), m)
    } else {
        match step(program[pointer as int], pointer, m) {
            Err(error) => Outcome::Failed(error, m),
            Ok(s) => match s.flow {
                OpExecuted::Halt => Outcome::Finished(s.machine),
                OpExecuted::Redirect => run(program, s.pointer, s.machine, (limit - 1) as nat),
                OpExecuted::Advance => run(
                    program,
                    (pointer + 1) as Pointer,
                    s.machine,
                    (limit - 1) as nat,
                ),
            },
        }
    }
}

/// How many values an instruction with this opcode needs on the value stack
/// at the least.
pub open spec fn demand(opcode: Opcode) -> nat {
    if is_binary(opcode) {
        2
    } else {
        match opcode {
            Opcode::STORE | Opcode::NOT | Opcode::JIF | Opcode::DBG => 1,
            _ => 0,
        }
    }
}

/// An instruction that finds fewer values on the value stack than it needs
/// fails with `EmptyStack` at its own pointer, whatever its operand.
pub proof fn lemma_short_stack_faults(op: Op, pointer: Pointer, m: Machine)
    requires
        m.stack.len() < demand(op.opcode),
    ensures
        step(op, pointer, m) == Err::<Step, BytecodeError>(
            fault(BytecodeErrorKind::EmptyStack, pointer),
        ),
{
}

/// A return with no call under way fails with `EmptyCallStack` at its own
/// pointer.
pub proof fn lemma_return_without_call_faults(op: Op, pointer: Pointer, m: Machine)
    requires
        op.opcode == Opcode::RET,
        m.calls.len() == 0,
    ensures
        step(op, pointer, m) == Err::<Step, BytecodeError>(
            fault(BytecodeErrorKind::EmptyCallStack, pointer),
        ),
{
}

/// A two-operand instruction takes the two topmost values off the stack and
/// puts back what it computes with the lower one, which was pushed earlier, as
/// the left operand and the top one as the right operand: pushing 10, then 3,
/// then subtracting leaves 10 - 3.
pub proof fn lemma_operand_order(op: Op, pointer: Pointer, m: Machine)
    requires
        is_binary(op.opcode),
        m.stack.len() >= 2,
    ensures
        step(op, pointer, m) == (match binary_value(op.opcode, m.peek(1), m.peek(0)) {
            Some(v) => Ok::<Step, BytecodeError>(advance(m.drop(2).push(v), pointer)),
            None => Err::<Step, BytecodeError>(fault(BytecodeErrorKind::DivisionByZero, pointer)),
        }),
        binary_value(op.opcode, m.peek(1), m.peek(0)) is None <==> (op.opcode == Opcode::DIV
            || op.opcode == Opcode::MOD) && m.peek(0) == 0,
{
}

/// Storing the top value at an address and loading from that address at once
/// puts the value back on top: the stack is as it was, and the store holds
/// the value at that address.
pub proof fn lemma_store_then_load(
    store: Op,
    load: Op,
    address: Value,
    pointer: Pointer,
    next: Pointer,
    m: Machine,
)
    requires
        store == (Op { opcode: Opcode::STORE, operand: Some(address) }),
        load == (Op { opcode: Opcode::LOAD, operand: Some(address) }),
        m.stack.len() > 0,
    ensures
        step(store, pointer, m) is Ok,
        step(load, next, step(store, pointer, m)->Ok_0.machine) is Ok,
        ({
            let stored = step(store, pointer, m)->Ok_0.machine;
            let loaded = step(load, next, stored)->Ok_0.machine;
            &&& loaded.stack == m.stack
            &&& loaded.store == m.store.insert(unsigned(address), m.peek(0))
            &&& loaded.calls == m.calls
            &&& loaded.log == m.log
        }),
{
    let stored = step(store, pointer, m)->Ok_0.machine;
    let loaded = step(load, next, stored)->Ok_0.machine;
    assert(loaded.stack =~= m.stack);
}

/// Loading from an address that nothing was stored at fails with
/// `NotFoundAddressInStore` and that address, at the instruction's pointer.
pub proof fn lemma_load_unstored(load: Op, address: Value, pointer: Pointer, m: Machine)
    requires
        load == (Op { opcode: Opcode::LOAD, operand: Some(address) }),
        !m.store.contains_key(unsigned(address)),
    ensures
        step(load, pointer, m) == Err::<Step, BytecodeError>(
            fault(BytecodeErrorKind::NotFoundAddressInStore(unsigned(address)), pointer),
        ),
{
}

/// A call sends the run to the instruction after the procedure's header and
/// notes the instruction after itself; the return that follows, wherever it
/// stands, sends the run there and leaves the call stack as it was before
/// the call.
pub proof fn lemma_call_then_return(
    call: Op,
    header: Value,
    ret: Op,
    pointer: Pointer,
    at_return: Pointer,
    m: Machine,
)
    requires
        call == (Op { opcode: Opcode::CALL, operand: Some(header) }),
        ret.opcode == Opcode::RET,
    ensures
        step(call, pointer, m) is Ok,
        ({
            let called = step(call, pointer, m)->Ok_0;
            &&& called.flow == OpExecuted::Redirect
            &&& called.pointer == wrap_pointer(unsigned(header) + 1)
            &&& called.machine.calls == m.calls.push(wrap_pointer(pointer + 1))
            &&& step(ret, at_return, called.machine) == Ok::<Step, BytecodeError>(
                redirect(m, wrap_pointer(pointer + 1)),
            )
        }),
{
    let called = step(call, pointer, m)->Ok_0;
    assert(called.machine.calls.drop_last() =~= m.calls);
}

/// A conditional jump that finds a zero condition on top takes the condition
/// and the target below it off the stack and sends the run to the target. One
/// that finds another condition takes only the condition off and lets the run
/// go on with the next instruction; what lay below the condition stays.
pub proof fn lemma_conditional_jump(op: Op, pointer: Pointer, m: Machine)
    requires
        op.opcode == Opcode::JIF,
        m.stack.len() >= 2,
    ensures
        step(op, pointer, m) is Ok,
        m.peek(0) == 0 ==> {
            let s = step(op, pointer, m)->Ok_0;
            &&& s.flow == OpExecuted::Redirect
            &&& s.pointer == unsigned(m.peek(1))
            &&& s.machine.stack == m.stack.take(m.stack.len() - 2)
        },
        m.peek(0) != 0 ==> {
            let s = step(op, pointer, m)->Ok_0;
            &&& s.flow == OpExecuted::Advance
            &&& s.pointer == pointer
            &&& s.machine.stack == m.stack.take(m.stack.len() - 1)
        },
        step(op, pointer, m)->Ok_0.machine.calls == m.calls,
        step(op, pointer, m)->Ok_0.machine.store == m.store,
        step(op, pointer, m)->Ok_0.machine.log == m.log,
{
}

/// A run that comes to an exit instruction ends there, in the state it has,
/// whatever is on the stacks and whatever instructions follow. The run must
/// have at least that one step left.
pub proof fn lemma_exit_halts(program: Seq<Op>, pointer: Pointer, m: Machine, limit: nat)
    requires
        pointer < program.len(),
        program[pointer as int].opcode == Opcode::EXIT,
        limit > 0,
    ensures
        step(program[pointer as int], pointer, m) == Ok::<Step, BytecodeError>(
            Step { machine: m, pointer, flow: OpExecuted::Halt },
        ),
        run(program, pointer, m, limit) == Outcome::Finished(m),
{
}

/// No instruction gives `StepLimitExceeded` of itself, and every error of an
/// instruction names the instruction's pointer.
pub proof fn lemma_step_errors(op: Op, pointer: Pointer, m: Machine)
    requires
        step(op, pointer, m) is Err,
    ensures
        step(op, pointer, m)->Err_0.kind != BytecodeErrorKind::StepLimitExceeded,
        step(op, pointer, m)->Err_0.ptr == Some(pointer),
{
}

/// An instruction leaves the messages handed to the sink as they are, or
/// adds one at the end.
pub proof fn lemma_step_extends_log(op: Op, pointer: Pointer, m: Machine)
    requires
        step(op, pointer, m) is Ok,
    ensures
        ({
            let log = step(op, pointer, m)->Ok_0.machine.log;
            log == m.log || (log.len() == m.log.len() + 1 && log.drop_last() == m.log)
        }),
        m.log.is_prefix_of(step(op, pointer, m)->Ok_0.machine.log),
{
    let log = step(op, pointer, m)->Ok_0.machine.log;
    if log != m.log {
        assert(log.drop_last() =~= m.log);
    }
}

/// Whether a run was stopped by the step limit.
pub open spec fn out_of_steps(outcome: Outcome) -> bool {
    outcome matches Outcome::Failed(error, _) && error.kind
        == BytecodeErrorKind::StepLimitExceeded
}

/// A run that the step limit did not stop ends in the same way under every
/// higher limit: the limit has no part in what such a run comes to.
pub proof fn lemma_limit_is_idle(
    program: Seq<Op>,
    pointer: Pointer,
    m: Machine,
    limit: nat,
    higher: nat,
)
    requires
        limit <= higher,
        !out_of_steps(run(program, pointer, m, limit)),
    ensures
        run(program, pointer, m, higher) == run(program, pointer, m, limit),
    decreases limit,
{
    if pointer < program.len() && limit > 0 {
        match step(program[pointer as int], pointer, m) {
            Err(_) => {
                lemma_step_errors(program[pointer as int], pointer, m);
            },
            Ok(s) => {
                match s.flow {
                    OpExecuted::Halt => {},
                    OpExecuted::Redirect => {
                        lemma_limit_is_idle(
                            program,
                            s.pointer,
                            s.machine,
                            (limit - 1) as nat,
                            (higher - 1) as nat,
                        );
                    },
                    OpExecuted::Advance => {
                        lemma_limit_is_idle(
                            program,
                            (pointer + 1) as Pointer,
                            s.machine,
                            (limit - 1) as nat,
                            (higher - 1) as nat,
                        );
                    },
                }
            },
        }
    }
}

} // verus!
