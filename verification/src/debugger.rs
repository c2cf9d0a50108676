//! Where the engine hands its debug output: the messages, the sink interface,
//! a sink that keeps what it is handed, and one that drops it.

use vstd::prelude::*;
use vstd::string::StringExecFns;

use crate::text::{append_pointer, digits};
use crate::Pointer;

verus! {

/// A message for a debug sink.
#[derive(Debug)]
pub enum DebugMessage {
    /// The text of an instruction about to execute, and where it stands.
    InstructionTrace(String, Pointer),
    /// The text of a value that a debug instruction popped.
    DbgInstruction(String),
}

/// What a `DebugMessage` says, as plain data.
pub enum DebugText {
    InstructionTrace(Seq<char>, Pointer),
    DbgInstruction(Seq<char>),
}

impl View for DebugMessage {
    type V = DebugText;

    open spec fn view(&self) -> DebugText {
        match self {
            DebugMessage::InstructionTrace(text, pointer) => DebugText::InstructionTrace(
                text@,
                *pointer,
            ),
            DebugMessage::DbgInstruction(text) => DebugText::DbgInstruction(text@),
        }
    }
}

/// The line that a console shows for a message.
pub open spec fn line_of(message: DebugText) -> Seq<char> {
    match message {
        DebugText::InstructionTrace(text, pointer) => "Executing "@ + text + ", Pointer: "@
            + digits(pointer as nat),
        DebugText::DbgInstruction(text) => "DBG instruction: "@ + text,
    }
}

/// A sink for debug messages: print them, keep them, drop them. The engine
/// only relies on each message being taken; it never reads anything back, so
/// nothing is asked of an implementation.
pub trait Debugger: Default {
    /// Takes one message.
    fn debug(&mut self, msg: DebugMessage);
}

/// A sink that keeps every message, to be shown as console lines.
#[derive(Debug)]
pub struct DebugPrint {
    messages: Vec<DebugMessage>,
}

impl Default for DebugPrint {
    /// A sink that has kept nothing yet.
    fn default() -> (sink: Self)
        ensures
            sink.kept() == Seq::<DebugText>::empty(),
    {
        DebugPrint { messages: Vec::new() }
    }
}

impl Debugger for DebugPrint {
    /// Keeps the message, after those it has.
    fn debug(&mut self, msg: DebugMessage)
        ensures
            final(self).kept() == old(self).kept().push(msg@),
    {
        self.messages.push(msg);
    }
}

impl DebugPrint {
    /// The messages kept so far, oldest first.
    pub closed spec fn kept(&self) -> Seq<DebugText> {
        self.messages@.map_values(|m: DebugMessage| m@)
    }

    /// The console line for one message.
    pub fn render(msg: &DebugMessage) -> (line: String)
        ensures
            line@ == line_of(msg@),
    {
        match msg {
            DebugMessage::InstructionTrace(text, pointer) => {
                let mut line = String::from_str("Executing ");
                line.append(text.as_str());
                line.append(", Pointer: ");
                append_pointer(&mut line, *pointer);
                line
            },
            DebugMessage::DbgInstruction(text) => {
                let mut line = String::from_str("DBG instruction: ");
                line.append(text.as_str());
                line
            },
        }
    }

    /// The console lines for all messages taken so far, oldest first.
    pub fn lines(&self) -> (lines: Vec<String>)
        ensures
            lines@.len() == self.kept().len(),
            forall|i: int|
                0 <= i < lines@.len() ==> (#[trigger] lines@[i])@ == line_of(self.kept()[i]),
    {
        let mut lines: Vec<String> = Vec::new();
        let mut i: usize = 0;
        while i < self.messages.len()
            invariant
                i <= self.messages.len(),
                lines@.len() == i,
                forall|j: int|
                    0 <= j < i ==> (#[trigger] lines@[j])@ == line_of(self.kept()[j]),
            decreases self.messages.len() - i,
        {
            lines.push(Self::render(&self.messages[i]));
            i += 1;
        }
        lines
    }
}

/// A sink that drops every message.
#[derive(Debug, Default)]
pub struct DebugDisable;

impl Debugger for DebugDisable {
    /// Drops the message.
    fn debug(&mut self, _msg: DebugMessage) {
    }
}

} // verus!
