//! A small interpreter for a MIPS-like assembly subset, driven interactively:
//! a controller loads a parsed program, executes it one statement at a time or
//! continuously, and exchanges blocking I/O with the running program through
//! an explicit suspend/resume protocol.
//!
//! The crate holds the execution engine: the register and memory model, the
//! instruction dispatcher, the syscall-driven interruption state machine, and
//! the step/run execution controller. The lexer/parser that produces the
//! structured program and the network transport around the engine are
//! external collaborators.
use vstd::prelude::*;

pub mod ast;
pub mod decimal;
pub mod strutil;
pub mod vm;

verus! {

/// A command selecting one of the two execution modes of the engine.
#[derive(Clone, Copy, Debug, PartialEq, Eq, Structural)]
pub enum VMCommand {
    Step,
    Run,
}

/// Inbound control message: asks the engine to step once or to run.
#[derive(Clone, Copy, Debug, PartialEq, Eq, Structural)]
pub struct CommandMessage {
    pub command: VMCommand,
}

/// Outbound snapshot of the engine: the full register file in index order,
/// the program counter, and the pending interruption, if any.
#[derive(Clone, Debug)]
pub struct StatusUpdateMessage {
    pub registers: Vec<u32>,
    pub pc: usize,
    pub io_interruption: Option<crate::vm::IOInterruption>,
}

/// Outbound error report carrying a human-readable message.
#[derive(Clone, Debug)]
pub struct ErrorMessage {
    pub message: String,
}

/// The messages exchanged between the engine's controller and its host.
#[derive(Clone, Debug)]
pub enum SocketMessage {
    Command(CommandMessage),
    Input(String),
    StatusUpdate(StatusUpdateMessage),
    Error(ErrorMessage),
}

} // verus!
