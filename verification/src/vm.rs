//! The execution engine.

use std::collections::HashMap;
use vstd::prelude::*;

use crate::arith::{compute, forward, invert, lemma_wrap_twice, to_pointer};
use crate::debugger::{DebugMessage, DebugText, Debugger};
use crate::machine::{lemma_step_extends_log, run, step, Machine, Outcome};
use crate::opcode::{Op, Opcode};
use crate::text::value_text;
use crate::{BytecodeError, BytecodeErrorKind, Instructions, Pointer, Value};

verus! {

broadcast use vstd::std_specs::hash::group_hash_axioms;

/// A last-in-first-out stack of values; the top is the last element.
#[derive(Debug, Clone, Default)]
pub struct Stack(pub Vec<Value>);

impl View for Stack {
    type V = Seq<Value>;

    open spec fn view(&self) -> Seq<Value> {
        self.0@
    }
}

impl Stack {
    /// Puts `value` on top.
    pub fn push(&mut self, value: Value)
        ensures
            final(self)@ == old(self)@.push(value),
    {
        self.0.push(value);
    }

    /// Takes the top value off. An empty stack stays empty and gives
    /// `EmptyStack`, with no pointer.
    pub fn pop(&mut self) -> (r: Result<Value, BytecodeError>)
        ensures
            old(self)@.len() > 0 ==> r == Ok::<Value, BytecodeError>(old(self)@.last())
                && final(self)@ == old(self)@.drop_last(),
            old(self)@.len() == 0 ==> r == Err::<Value, BytecodeError>(
                BytecodeError { kind: BytecodeErrorKind::EmptyStack, ptr: None },
            ) && final(self)@ == old(self)@,
    {
        match self.0.pop() {
            Some(value) => Ok(value),
            None => Err(BytecodeError::new(BytecodeErrorKind::EmptyStack)),
        }
    }
}

/// Where a call returns to.
#[derive(Debug, Clone, Copy)]
struct CallStackFrame {
    pointer: Pointer,
}

/// How the run goes on after an instruction.
#[derive(Debug, Clone, Copy, PartialEq, Eq, Structural)]
pub enum OpExecuted {
    /// With the next instruction.
    Advance,
    /// At the pointer that the instruction has set.
    Redirect,
    /// Not at all: the run is over.
    Halt,
}

/// An engine: a program with the state it runs on and the sink for its debug
/// output. The engine keeps account of what it hands to the sink.
pub struct Vm<T: Debugger> {
    pub instructions: Instructions,
    stack: Stack,
    call_stack: Vec<CallStackFrame>,
    heap_store: HashMap<Pointer, Value>,
    debugger: T,
    handed: Ghost<Seq<DebugText>>,
    step_limit: u64,
}

impl<T: Debugger> View for Vm<T> {
    type V = Machine;

    closed spec fn view(&self) -> Machine {
        Machine {
            stack: self.stack@,
            calls: self.call_stack@.map_values(|frame: CallStackFrame| frame.pointer),
            store: self.heap_store@,
            log: self.handed@,
        }
    }
}

impl<T: Debugger> Default for Vm<T> {
    /// An engine for the empty program.
    fn default() -> (vm: Self)
        ensures
            vm.program() == Seq::<Op>::empty(),
            call_ensures(T::default, (), vm.sink()),
            vm@.stack == Seq::<Value>::empty(),
            vm@.calls == Seq::<Pointer>::empty(),
            vm@.store == Map::<Pointer, Value>::empty(),
            vm@.log == Seq::<DebugText>::empty(),
            vm.limit() == u64::MAX,
    {
        Vm::new(Instructions::default())
    }
}

impl<T: Debugger> Vm<T> {
    /// The program that the engine runs.
    pub closed spec fn program(&self) -> Seq<Op> {
        self.instructions@
    }

    /// The debug sink, as it stands.
    pub closed spec fn sink(&self) -> T {
        self.debugger
    }

    /// How many instructions one run may execute.
    pub closed spec fn limit(&self) -> nat {
        self.step_limit as nat
    }

    /// An engine for `instructions`, with empty stacks and an empty store, and
    /// with the sink that `T::default()` gives. A run of it may execute
    /// `u64::MAX` instructions.
    pub fn new(instructions: Instructions) -> (vm: Self)
        ensures
            vm.program() == instructions@,
            call_ensures(T::default, (), vm.sink()),
            vm@.stack == Seq::<Value>::empty(),
            vm@.calls == Seq::<Pointer>::empty(),
            vm@.store == Map::<Pointer, Value>::empty(),
            vm@.log == Seq::<DebugText>::empty(),
            vm.limit() == u64::MAX,
    {
        let vm = Vm {
            instructions,
            stack: Stack(Vec::new()),
            call_stack: Vec::new(),
            heap_store: HashMap::new(),
            debugger: T::default(),
            handed: Ghost(Seq::empty()),
            step_limit: u64::MAX,
        };
        vm
    }

    /// Sets how many instructions one run may execute.
    pub fn set_step_limit(&mut self, limit: u64)
        ensures
            final(self).limit() == limit,
            final(self)@ == old(self)@,
            final(self).program() == old(self).program(),
            final(self).sink() == old(self).sink(),
    {
        self.step_limit = limit;
    }

    /// The value stack.
    pub fn stack(&self) -> (stack: &Stack)
        ensures
            stack@ == self@.stack,
    {
        &self.stack
    }

    /// How many calls are under way.
    pub fn call_depth(&self) -> (depth: usize)
        ensures
            depth == self@.calls.len(),
    {
        self.call_stack.len()
    }

    /// The value stored at `address`, if any was.
    pub fn stored(&self, address: Pointer) -> (value: Option<Value>)
        ensures
            value == (if self@.store.contains_key(address) {
                Some(self@.store[address])
            } else {
                None
            }),
    {
        match self.heap_store.get(&address) {
            Some(value) => Some(*value),
            None => None,
        }
    }

    /// The debug sink, to read what it holds.
    pub fn debugger(&self) -> (sink: &T)
        ensures
            *sink == self.sink(),
    {
        &self.debugger
    }

    /// Hands `message` to the debug sink.
    fn hand(&mut self, message: DebugMessage)
        ensures
            final(self).program() == old(self).program(),
            final(self).limit() == old(self).limit(),
            final(self)@ == (Machine { log: old(self)@.log.push(message@), ..old(self)@ }),
    {
        self.handed = Ghost(self.handed@.push(message@));
        self.debugger.debug(message);
    }

    /// The operand of `op`; `EmptyOperand` at `pointer` where it has none.
    pub fn get_operand(&self, op: &Op, pointer: Pointer) -> (r: Result<Value, BytecodeError>)
        ensures
            r == (match op.operand {
                Some(operand) => Ok::<Value, BytecodeError>(operand),
                None => Err::<Value, BytecodeError>(
                    BytecodeError { kind: BytecodeErrorKind::EmptyOperand, ptr: Some(pointer) },
                ),
            }),
    {
        match op.operand {
            Some(operand) => Ok(operand),
            None => Err(BytecodeError::new_with_ptr(BytecodeErrorKind::EmptyOperand, pointer)),
        }
    }

    /// The value `depth` places below the top of the value stack;
    /// `EmptyStack` at `pointer` where the stack does not reach that deep.
    fn peek(&self, depth: usize, pointer: Pointer) -> (r: Result<Value, BytecodeError>)
        ensures
            r == (if depth < self@.stack.len() {
                Ok::<Value, BytecodeError>(self@.peek(depth as nat))
            } else {
                Err::<Value, BytecodeError>(
                    BytecodeError { kind: BytecodeErrorKind::EmptyStack, ptr: Some(pointer) },
                )
            }),
    {
        let len = self.stack.0.len();
        if depth < len {
            Ok(self.stack.0[len - 1 - depth])
        } else {
            Err(BytecodeError::new_with_ptr(BytecodeErrorKind::EmptyStack, pointer))
        }
    }

    /// Takes the top value off the value stack.
    fn discard(&mut self)
        requires
            old(self)@.stack.len() > 0,
        ensures
            final(self).program() == old(self).program(),
            final(self).limit() == old(self).limit(),
            final(self).sink() == old(self).sink(),
            final(self)@ == old(self)@.drop(1),
    {
        let _ = self.stack.pop();
    }

    /// Executes the instruction `op`, standing at `pointer`, as `step` says.
    ///
    /// On success the state is the one that `step` gives, and the pointer is
    /// set where the instruction redirects. On an error neither the state nor
    /// the pointer has changed. The sink is touched only to hand it a
    /// message.
    pub fn execute_op(&mut self, op: &Op, pointer: &mut Pointer) -> (r: Result<
        OpExecuted,
        BytecodeError,
    >)
        ensures
            final(self).program() == old(self).program(),
            final(self).limit() == old(self).limit(),
            match step(*op, *old(pointer), old(self)@) {
                Ok(s) => r == Ok::<OpExecuted, BytecodeError>(s.flow) && final(self)@ == s.machine
                    && *final(pointer) == s.pointer,
                Err(error) => r == Err::<OpExecuted, BytecodeError>(error)
                    && final(self)@ == old(self)@ && *final(pointer) == *old(pointer),
            },
            final(self)@.log == old(self)@.log ==> final(self).sink() == old(self).sink(),
    {
        let at = *pointer;
        match op.opcode {
            Opcode::NOOP => {},
            Opcode::PUSH => {
                let value = self.get_operand(op, at)?;
                self.stack.push(value);
            },
            Opcode::STORE => {
                let value = self.peek(0, at)?;
                let address = to_pointer(self.get_operand(op, at)?);
                self.discard();
                self.heap_store.insert(address, value);
            },
            Opcode::LOAD => {
                let address = to_pointer(self.get_operand(op, at)?);
                let value = match self.heap_store.get(&address) {
                    Some(value) => *value,
                    None => {
                        return Err(
                            BytecodeError::new_with_ptr(
                                BytecodeErrorKind::NotFoundAddressInStore(address),
                                at,
                            ),
                        );
                    },
                };
                self.stack.push(value);
            },
            Opcode::NOT => {
                let first = self.peek(0, at)?;
                self.discard();
                self.stack.push(invert(first));
            },
            Opcode::PROC => {
                let length = to_pointer(self.get_operand(op, at)?);
                *pointer = forward(forward(at, length), 1);
                proof {
                    lemma_wrap_twice(at + length, 1);
                }
                return Ok(OpExecuted::Redirect);
            },
            Opcode::CALL => {
                let header = to_pointer(self.get_operand(op, at)?);
                self.call_stack.push(CallStackFrame { pointer: forward(at, 1) });
                *pointer = forward(header, 1);
                return Ok(OpExecuted::Redirect);
            },
            Opcode::RET => {
                let frame = match self.call_stack.pop() {
                    Some(frame) => frame,
                    None => {
                        return Err(
                            BytecodeError::new_with_ptr(BytecodeErrorKind::EmptyCallStack, at),
                        );
                    },
                };
                *pointer = frame.pointer;
                return Ok(OpExecuted::Redirect);
            },
            Opcode::JMP => {
                *pointer = to_pointer(self.get_operand(op, at)?);
                return Ok(OpExecuted::Redirect);
            },
            Opcode::JIF => {
                if self.peek(0, at)? == 0 {
                    let target = to_pointer(self.peek(1, at)?);
                    self.discard();
                    self.discard();
                    *pointer = target;
                    return Ok(OpExecuted::Redirect);
                }
                self.discard();
            },
            Opcode::DBG => {
                let value = self.peek(0, at)?;
                self.discard();
                self.hand(DebugMessage::DbgInstruction(value_text(value)));
                assert(self@.log.len() == old(self)@.log.len() + 1);
            },
            Opcode::EXIT => {
                return Ok(OpExecuted::Halt);
            },
            Opcode::ADD
            | Opcode::SUB
            | Opcode::MUL
            | Opcode::DIV
            | Opcode::MOD
            | Opcode::AND
            | Opcode::OR
            | Opcode::XOR
            | Opcode::LSF
            | Opcode::RSF
            | Opcode::EQ
            | Opcode::GT
            | Opcode::LT
            | Opcode::GTE
            | Opcode::LTE => {
                let first = self.peek(0, at)?;
                let second = self.peek(1, at)?;
                let value = match compute(op.opcode, second, first) {
                    Some(value) => value,
                    None => {
                        return Err(
                            BytecodeError::new_with_ptr(BytecodeErrorKind::DivisionByZero, at),
                        );
                    },
                };
                self.discard();
                self.discard();
                self.stack.push(value);
            },
        }
        Ok(OpExecuted::Advance)
    }

    /// Runs the program from its first instruction, on the state as it
    /// stands, and ends as `run` says: with `Ok` where the run finishes, with
    /// the error that stopped it where it does not, and either way in the
    /// state that the run had reached. The sink is touched only to hand it a
    /// message.
    pub fn execute(&mut self) -> (r: Result<(), BytecodeError>)
        ensures
            final(self).program() == old(self).program(),
            final(self).limit() == old(self).limit(),
            match run(old(self).program(), 0, old(self)@, old(self).limit()) {
                Outcome::Finished(machine) => r == Ok::<(), BytecodeError>(()) && final(self)@
                    == machine,
                Outcome::Failed(error, machine) => r == Err::<(), BytecodeError>(error)
                    && final(self)@ == machine,
            },
            final(self)@.log == old(self)@.log ==> final(self).sink() == old(self).sink(),
    {
        let mut pointer: Pointer = 0;
        let mut steps: u64 = 0;
        while pointer < self.instructions.0.len()
            invariant
                self.program() == old(self).program(),
                self.limit() == old(self).limit(),
                steps <= self.limit(),
                old(self)@.log.is_prefix_of(self@.log),
                self@.log == old(self)@.log ==> self.sink() == old(self).sink(),
                run(old(self).program(), 0, old(self)@, old(self).limit()) == run(
                    self.program(),
                    pointer,
                    self@,
                    (self.limit() - steps) as nat,
                ),
            ensures
                run(old(self).program(), 0, old(self)@, old(self).limit()) == Outcome::Finished(
                    self@,
                ),
                self.program() == old(self).program(),
                self.limit() == old(self).limit(),
                self@.log == old(self)@.log ==> self.sink() == old(self).sink(),
            decreases self.limit() - steps,
        {
            if steps >= self.step_limit {
                return Err(
                    BytecodeError::new_with_ptr(BytecodeErrorKind::StepLimitExceeded, pointer),
                );
            }
            let op = self.instructions.0[pointer];
            let at = pointer;
            let ghost before = self@;
            proof {
                if step(op, at, before) is Ok {
                    lemma_step_extends_log(op, at, before);
                }
            }
            match self.execute_op(&op, &mut pointer) {
                Err(error) => {
                    return Err(error);
                },
                Ok(OpExecuted::Halt) => {
                    break ;
                },
                Ok(OpExecuted::Redirect) => {},
                Ok(OpExecuted::Advance) => {
                    pointer = at + 1;
                },
            }
            steps = steps + 1;
        }
        Ok(())
    }
}

} // verus!
