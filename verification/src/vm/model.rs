//! The mathematical model of the engine: an abstract machine state, and one
//! specification function per operation saying exactly what the next state
//! and the outcome are. The executable engine in [`crate::vm::eval`] is
//! verified against these functions.
use vstd::prelude::*;

use crate::ast::{ArgumentView, InstructionView, ProgramView, StatementView};
use crate::decimal::{dec_rep, parse_u32_spec};
use crate::vm::memory_map::variable_bytes;
use crate::vm::register::{lemma_register_index_in_range, register_index};
use crate::vm::{IOInterruptionView, InputRequest, LoadErrorKind, Opcode, VMError, VM};

verus! {

/// Index of `$v0`, the register syscalls read their trap code from and
/// numeric resumption writes to.
pub const V0: usize = 2;

/// Index of `$a0`, the argument register of the print and read-string
/// syscalls.
pub const A0: usize = 4;

/// The abstract state of the engine.
#[verifier::ext_equal]
pub struct MachineView {
    pub registers: Seq<u32>,
    pub pc: int,
    pub memory: Seq<u8>,
    pub stack: Seq<u8>,
    pub data_variables: Seq<(Seq<char>, usize)>,
    pub statements: Seq<StatementView>,
    pub io_interruption: Option<IOInterruptionView>,
    pub memory_patch: Option<Seq<u8>>,
}

impl View for VM {
    type V = MachineView;

    open spec fn view(&self) -> MachineView {
        MachineView {
            registers: self.registers@,
            pc: self.pc as int,
            memory: self.memory@,
            stack: self.stack@,
            data_variables: self.data_variables.deep_view(),
            statements: self.statements.deep_view(),
            io_interruption: self.io_interruption.deep_view(),
            memory_patch: self.memory_patch.deep_view(),
        }
    }
}

/// What one operation of the engine yields: the next abstract state and the
/// reported outcome.
#[verifier::ext_equal]
pub struct StepOutcome {
    pub state: MachineView,
    pub result: Result<(), VMError>,
}

/// The state after writing one register cell.
pub open spec fn reg_write(m: MachineView, idx: usize, val: u32) -> MachineView {
    MachineView { registers: m.registers.update(idx as int, val), ..m }
}

/// The state after filling the pending-interruption slot.
pub open spec fn set_interruption(m: MachineView, i: IOInterruptionView) -> MachineView {
    MachineView { io_interruption: Some(i), ..m }
}

/// The offset recorded for a variable name: the table is searched from the
/// most recent entry backwards, so a re-recorded name resolves to its
/// latest offset.
pub open spec fn lookup_variable(dv: Seq<(Seq<char>, usize)>, name: Seq<char>) -> Option<usize>
    decreases dv.len(),
{
    if dv.len() == 0 {
        None
    } else if dv.last().0 == name {
        Some(dv.last().1)
    } else {
        lookup_variable(dv.drop_last(), name)
    }
}

/// Where the text run starting at `a` ends: the first index at or after `a`
/// holding a zero byte, or the end of memory.
pub open spec fn cstr_end(mem: Seq<u8>, a: int) -> int
    decreases mem.len() - a,
{
    if a < 0 || a >= mem.len() || mem[a] == 0 {
        a
    } else {
        cstr_end(mem, a + 1)
    }
}

/// The text the print-string syscall emits for address `a`: the bytes from
/// `a` up to the first zero byte (or the end of memory), each decoded as
/// one character.
pub open spec fn cstr_chars(mem: Seq<u8>, a: int) -> Seq<char> {
    if 0 <= a <= mem.len() {
        mem.subrange(a, cstr_end(mem, a)).map_values(|b: u8| b as char)
    } else {
        Seq::empty()
    }
}

/// The end of a text run lies between its start and the end of memory.
pub proof fn lemma_cstr_end_bounds(mem: Seq<u8>, a: int)
    requires
        0 <= a <= mem.len(),
    ensures
        a <= cstr_end(mem, a) <= mem.len(),
    decreases mem.len() - a,
{
    if a < mem.len() && mem[a] != 0 {
        lemma_cstr_end_bounds(mem, a + 1);
    }
}

/// Extending a data image by one variable appends that variable's bytes.
pub proof fn lemma_data_image_snoc(vars: Seq<crate::ast::VariableView>, k: int)
    requires
        0 <= k < vars.len(),
    ensures
        data_image(vars.subrange(0, k + 1)) == data_image(vars.subrange(0, k)) + variable_bytes(
            vars[k],
        ),
{
    let p = vars.subrange(0, k + 1);
    assert(p.drop_last() =~= vars.subrange(0, k));
    assert(p.last() == vars[k]);
}

/// A prefix of the data section never occupies more bytes than the whole.
pub proof fn lemma_data_image_prefix_len(vars: Seq<crate::ast::VariableView>, k: int)
    requires
        0 <= k <= vars.len(),
    ensures
        data_image(vars.subrange(0, k)).len() <= data_image(vars).len(),
    decreases vars.len() - k,
{
    if k == vars.len() {
        assert(vars.subrange(0, k) =~= vars);
    } else {
        lemma_data_image_snoc(vars, k);
        lemma_data_image_prefix_len(vars, k + 1);
    }
}

/// The memory after writing the run `b` at offset `a`.
pub open spec fn spliced(mem: Seq<u8>, a: int, b: Seq<u8>) -> Seq<u8> {
    mem.subrange(0, a) + b + mem.subrange(a + b.len(), mem.len() as int)
}

/// Load-immediate: the destination register takes the literal value.
pub open spec fn eval_li(m: MachineView, args: Seq<ArgumentView>) -> StepOutcome {
    if args.len() == 2 {
        match (args[0], args[1]) {
            (ArgumentView::Register(name), ArgumentView::Immediate(imm)) => {
                match register_index(name) {
                    Some(i) => StepOutcome { state: reg_write(m, i, imm), result: Ok(()) },
                    None => StepOutcome { state: m, result: Err(VMError::UnknownRegister) },
                }
            },
            _ => StepOutcome { state: m, result: Err(VMError::MalformedInstruction) },
        }
    } else {
        StepOutcome { state: m, result: Err(VMError::MalformedInstruction) }
    }
}

/// Load-address: the destination register takes the byte offset recorded
/// for the named data variable, truncated to 32 bits.
pub open spec fn eval_la(m: MachineView, args: Seq<ArgumentView>) -> StepOutcome {
    if args.len() == 2 {
        match (args[0], args[1]) {
            (ArgumentView::Register(name), ArgumentView::Label(label)) => {
                match lookup_variable(m.data_variables, label) {
                    Some(off) => match register_index(name) {
                        Some(i) => StepOutcome {
                            state: reg_write(m, i, ((off as int) % 0x1_0000_0000) as u32),
                            result: Ok(()),
                        },
                        None => StepOutcome { state: m, result: Err(VMError::UnknownRegister) },
                    },
                    None => StepOutcome { state: m, result: Err(VMError::UnknownDataVariable) },
                }
            },
            _ => StepOutcome { state: m, result: Err(VMError::MalformedInstruction) },
        }
    } else {
        StepOutcome { state: m, result: Err(VMError::MalformedInstruction) }
    }
}

/// Register-move: the destination register takes the source's value.
pub open spec fn eval_move(m: MachineView, args: Seq<ArgumentView>) -> StepOutcome {
    if args.len() == 2 {
        match (args[0], args[1]) {
            (ArgumentView::Register(dst), ArgumentView::Register(src)) => {
                match register_index(src) {
                    Some(s) => match register_index(dst) {
                        Some(d) => StepOutcome {
                            state: reg_write(m, d, m.registers[s as int]),
                            result: Ok(()),
                        },
                        None => StepOutcome { state: m, result: Err(VMError::UnknownRegister) },
                    },
                    None => StepOutcome { state: m, result: Err(VMError::UnknownRegister) },
                }
            },
            _ => StepOutcome { state: m, result: Err(VMError::MalformedInstruction) },
        }
    } else {
        StepOutcome { state: m, result: Err(VMError::MalformedInstruction) }
    }
}

/// Add: the destination takes the sum of the two sources modulo two to the
/// thirty-second; overflow wraps silently.
pub open spec fn eval_add(m: MachineView, args: Seq<ArgumentView>) -> StepOutcome {
    if args.len() == 3 {
        match (args[0], args[1], args[2]) {
            (
                ArgumentView::Register(dst),
                ArgumentView::Register(lhs),
                ArgumentView::Register(rhs),
            ) => {
                match (register_index(lhs), register_index(rhs), register_index(dst)) {
                    (Some(a), Some(b), Some(d)) => StepOutcome {
                        state: reg_write(
                            m,
                            d,
                            ((m.registers[a as int] + m.registers[b as int]) % 0x1_0000_0000) as u32,
                        ),
                        result: Ok(()),
                    },
                    _ => StepOutcome { state: m, result: Err(VMError::UnknownRegister) },
                }
            },
            _ => StepOutcome { state: m, result: Err(VMError::MalformedInstruction) },
        }
    } else {
        StepOutcome { state: m, result: Err(VMError::MalformedInstruction) }
    }
}

/// The syscall dispatcher. While an interruption is outstanding no second
/// one may be raised, whatever the code. Codes 1 and 4 emit output, 5 and 8
/// suspend awaiting input, 10 halts; anything else is an unhandled trap and
/// leaves the slot empty.
pub open spec fn spec_syscall(m: MachineView, code: u32) -> StepOutcome {
    if m.io_interruption is Some {
        StepOutcome { state: m, result: Err(VMError::InterruptionAlreadyPending) }
    } else if code == 1 {
        StepOutcome {
            state: set_interruption(
                m,
                IOInterruptionView::Output(dec_rep(m.registers[A0 as int] as nat)),
            ),
            result: Ok(()),
        }
    } else if code == 4 {
        StepOutcome {
            state: set_interruption(
                m,
                IOInterruptionView::Output(cstr_chars(m.memory, m.registers[A0 as int] as int)),
            ),
            result: Ok(()),
        }
    } else if code == 5 {
        StepOutcome {
            state: set_interruption(m, IOInterruptionView::Input(InputRequest::Number)),
            result: Ok(()),
        }
    } else if code == 8 {
        StepOutcome {
            state: set_interruption(m, IOInterruptionView::Input(InputRequest::String)),
            result: Ok(()),
        }
    } else if code == 10 {
        StepOutcome { state: set_interruption(m, IOInterruptionView::Halt), result: Ok(()) }
    } else {
        StepOutcome { state: m, result: Err(VMError::UnhandledSyscall(code)) }
    }
}

/// The instruction dispatcher: a pure mapping from one instruction and the
/// current state to the next state and outcome. Unimplemented opcodes fail
/// with a recoverable not-implemented error and change nothing.
pub open spec fn eval_instruction_view(m: MachineView, instr: InstructionView) -> StepOutcome {
    match instr {
        InstructionView::Li(args) => eval_li(m, args),
        InstructionView::La(args) => eval_la(m, args),
        InstructionView::Syscall => spec_syscall(m, m.registers[V0 as int]),
        InstructionView::Move(args) => eval_move(m, args),
        InstructionView::Add(args) => eval_add(m, args),
        InstructionView::Jal(_) => StepOutcome {
            state: m,
            result: Err(VMError::NotImplemented(Opcode::Jal)),
        },
        InstructionView::Beq(_) => StepOutcome {
            state: m,
            result: Err(VMError::NotImplemented(Opcode::Beq)),
        },
        InstructionView::Sub(_) => StepOutcome {
            state: m,
            result: Err(VMError::NotImplemented(Opcode::Sub)),
        },
        InstructionView::Jr(_) => StepOutcome {
            state: m,
            result: Err(VMError::NotImplemented(Opcode::Jr)),
        },
        InstructionView::Addi(_) => StepOutcome {
            state: m,
            result: Err(VMError::NotImplemented(Opcode::Addi)),
        },
        InstructionView::Andi(_) => StepOutcome {
            state: m,
            result: Err(VMError::NotImplemented(Opcode::Andi)),
        },
        InstructionView::J(_) => StepOutcome {
            state: m,
            result: Err(VMError::NotImplemented(Opcode::J)),
        },
    }
}

/// One statement's effect: labels are no-ops, instructions dispatch.
pub open spec fn eval_statement(m: MachineView, stmt: StatementView) -> StepOutcome {
    match stmt {
        StatementView::Label(_) => StepOutcome { state: m, result: Ok(()) },
        StatementView::Instruction(instr) => eval_instruction_view(m, instr),
    }
}

/// One execution cycle. A halted engine executes nothing. Otherwise, if the
/// cursor is within the statement sequence, it advances by one before the
/// statement's effects are applied.
pub open spec fn spec_step(m: MachineView) -> StepOutcome {
    if m.io_interruption == Some(IOInterruptionView::Halt) {
        StepOutcome { state: m, result: Ok(()) }
    } else if m.pc >= m.statements.len() {
        StepOutcome { state: m, result: Ok(()) }
    } else {
        let stmt = m.statements[m.pc];
        eval_statement(MachineView { pc: m.pc + 1, ..m }, stmt)
    }
}

/// No statement's effect touches the cursor, the statement sequence, the
/// stack, the variable table, the diagnostic record, the register count or
/// the memory size.
pub proof fn lemma_eval_statement_frame(m: MachineView, stmt: StatementView)
    ensures
        eval_statement(m, stmt).state.pc == m.pc,
        eval_statement(m, stmt).state.statements == m.statements,
        eval_statement(m, stmt).state.stack == m.stack,
        eval_statement(m, stmt).state.data_variables == m.data_variables,
        eval_statement(m, stmt).state.memory_patch == m.memory_patch,
        m.registers.len() == 32 ==> eval_statement(m, stmt).state.registers.len() == 32,
        eval_statement(m, stmt).state.memory == m.memory,
{
    match stmt {
        StatementView::Label(_) => {},
        StatementView::Instruction(instr) => {
            match instr {
                InstructionView::Li(args) => {
                    if args.len() == 2 {
                        match (args[0], args[1]) {
                            (ArgumentView::Register(name), ArgumentView::Immediate(_)) => {
                                lemma_register_index_in_range(name);
                            },
                            _ => {},
                        }
                    }
                },
                InstructionView::La(args) => {
                    if args.len() == 2 {
                        match (args[0], args[1]) {
                            (ArgumentView::Register(name), ArgumentView::Label(_)) => {
                                lemma_register_index_in_range(name);
                            },
                            _ => {},
                        }
                    }
                },
                InstructionView::Move(args) => {
                    if args.len() == 2 {
                        match (args[0], args[1]) {
                            (ArgumentView::Register(dst), ArgumentView::Register(src)) => {
                                lemma_register_index_in_range(dst);
                                lemma_register_index_in_range(src);
                            },
                            _ => {},
                        }
                    }
                },
                InstructionView::Add(args) => {
                    if args.len() == 3 {
                        match (args[0], args[1], args[2]) {
                            (
                                ArgumentView::Register(dst),
                                ArgumentView::Register(lhs),
                                ArgumentView::Register(rhs),
                            ) => {
                                lemma_register_index_in_range(dst);
                                lemma_register_index_in_range(lhs);
                                lemma_register_index_in_range(rhs);
                            },
                            _ => {},
                        }
                    }
                },
                _ => {},
            }
        },
    }
}

/// The run loop proper: step repeatedly until the cursor leaves the
/// statement sequence or any interruption becomes pending; a failing step
/// stops the run with its error, the cursor already advanced.
pub open spec fn spec_run_loop(m: MachineView) -> StepOutcome
    decreases m.statements.len() - m.pc,
    via spec_run_decreases
{
    if m.pc >= m.statements.len() || m.io_interruption is Some {
        StepOutcome { state: m, result: Ok(()) }
    } else {
        let r = spec_step(m);
        if r.result is Err {
            r
        } else {
            spec_run_loop(r.state)
        }
    }
}

/// A pending output interruption is self-resolving: invoking the run
/// controller again acknowledges it and clears the slot. Input and halt
/// interruptions are never cleared this way.
pub open spec fn acknowledge_output(m: MachineView) -> MachineView {
    match m.io_interruption {
        Some(IOInterruptionView::Output(_)) => MachineView { io_interruption: None, ..m },
        _ => m,
    }
}

/// Run-to-suspension: a pending output is first acknowledged and cleared,
/// then the engine steps until natural termination or the next pending
/// interruption. A pending input or halt stops the run at once.
pub open spec fn spec_run(m: MachineView) -> StepOutcome {
    spec_run_loop(acknowledge_output(m))
}

#[via_fn]
proof fn spec_run_decreases(m: MachineView) {
    if m.pc < m.statements.len() && m.io_interruption is None {
        lemma_eval_statement_frame(MachineView { pc: m.pc + 1, ..m }, m.statements[m.pc]);
    }
}

/// The first statement that is a label carrying the given name, if any.
pub open spec fn find_label_from(stmts: Seq<StatementView>, name: Seq<char>, i: int) -> Option<int>
    decreases stmts.len() - i,
{
    if i < 0 || i >= stmts.len() {
        None
    } else if stmts[i] == StatementView::Label(name) {
        Some(i)
    } else {
        find_label_from(stmts, name, i + 1)
    }
}

/// The index of the entry label's statement, if present.
pub open spec fn find_label(stmts: Seq<StatementView>, name: Seq<char>) -> Option<int> {
    find_label_from(stmts, name, 0)
}

/// A found label's index always lies within the statement sequence.
pub proof fn lemma_find_label_from_in_range(stmts: Seq<StatementView>, name: Seq<char>, j: int)
    ensures
        find_label_from(stmts, name, j) matches Some(i) ==> j <= i < stmts.len(),
    decreases stmts.len() - j,
{
    if 0 <= j < stmts.len() && stmts[j] != StatementView::Label(name) {
        lemma_find_label_from_in_range(stmts, name, j + 1);
    }
}

/// A found entry index always lies within the statement sequence.
pub proof fn lemma_find_label_in_range(stmts: Seq<StatementView>, name: Seq<char>)
    ensures
        find_label(stmts, name) matches Some(i) ==> 0 <= i < stmts.len(),
{
    lemma_find_label_from_in_range(stmts, name, 0);
}

/// The concatenation of the encoded bytes of all variables, in declaration
/// order, with no padding between them.
pub open spec fn data_image(vars: Seq<crate::ast::VariableView>) -> Seq<u8>
    decreases vars.len(),
{
    if vars.len() == 0 {
        Seq::empty()
    } else {
        data_image(vars.drop_last()) + variable_bytes(vars.last())
    }
}

/// The byte offset assigned to the variable at position `i`: the total size
/// of everything declared before it.
pub open spec fn offset_of(vars: Seq<crate::ast::VariableView>, i: int) -> int {
    data_image(vars.subrange(0, i)).len() as int
}

/// The variable table entries a load appends: each name with its assigned
/// offset.
pub open spec fn layout_entries(vars: Seq<crate::ast::VariableView>) -> Seq<(Seq<char>, usize)> {
    Seq::new(vars.len(), |i: int| (vars[i].name, offset_of(vars, i) as usize))
}

/// Loading a program: the data section is laid into memory from offset
/// zero, each variable at the next free offset, and recorded in the
/// variable table; then the entry label is resolved and the cursor set to
/// its statement. A data section larger than memory fails and changes
/// nothing; a missing entry label fails with the data already laid out but
/// no statements installed.
pub open spec fn spec_load(m: MachineView, p: ProgramView) -> StepOutcome {
    let vars = p.data_section.variables;
    let image = data_image(vars);
    if image.len() > m.memory.len() {
        StepOutcome { state: m, result: Err(VMError::LoadError(LoadErrorKind::DataSectionTooLarge)) }
    } else {
        let loaded = MachineView {
            memory: image + m.memory.skip(image.len() as int),
            data_variables: m.data_variables + layout_entries(vars),
            ..m
        };
        match find_label(p.text_section.statements, p.text_section.entrypoint) {
            Some(idx) => StepOutcome {
                state: MachineView { pc: idx, statements: p.text_section.statements, ..loaded },
                result: Ok(()),
            },
            None => StepOutcome {
                state: loaded,
                result: Err(VMError::LoadError(LoadErrorKind::EntrypointNotFound)),
            },
        }
    }
}

/// Once the halt interruption is pending the engine is terminal: stepping
/// and running change nothing and execute no further statements.
pub proof fn lemma_halt_is_terminal(m: MachineView)
    requires
        m.io_interruption == Some(IOInterruptionView::Halt),
    ensures
        spec_step(m) == (StepOutcome { state: m, result: Ok::<(), VMError>(()) }),
        spec_run(m) == (StepOutcome { state: m, result: Ok::<(), VMError>(()) }),
{
}

/// Loading a program whose declared entry label is absent from its
/// statements fails with a load error, and no statements are installed:
/// the statement sequence and the cursor keep their previous values.
pub proof fn lemma_load_missing_entry(m: MachineView, p: ProgramView)
    requires
        find_label(p.text_section.statements, p.text_section.entrypoint) is None,
    ensures
        spec_load(m, p).result matches Err(e) ==> e matches VMError::LoadError(_),
        spec_load(m, p).result is Err,
        spec_load(m, p).state.statements == m.statements,
        spec_load(m, p).state.pc == m.pc,
{
}

/// After a successful load the cursor holds the index of the entry
/// label's statement, and the loaded statements are the program's.
pub proof fn lemma_load_sets_entry_cursor(m: MachineView, p: ProgramView)
    requires
        spec_load(m, p).result is Ok,
    ensures
        Some(spec_load(m, p).state.pc) == find_label(
            p.text_section.statements,
            p.text_section.entrypoint,
        ),
        spec_load(m, p).state.statements == p.text_section.statements,
{
}

/// Resumption. Input is valid only while an input-kind interruption is
/// pending. Numeric input parses as an unsigned 32-bit integer into `$v0`,
/// leaving the interruption pending on a parse failure so the caller can
/// resubmit. String input copies the text's raw bytes verbatim into memory
/// at the address `$a0` holds at resumption time, failing — and leaving the
/// interruption pending — if they do not fit. Success clears the slot.
pub open spec fn spec_handle_input(m: MachineView, input: Seq<char>) -> StepOutcome {
    match m.io_interruption {
        Some(IOInterruptionView::Input(InputRequest::Number)) => {
            match parse_u32_spec(input) {
                Some(v) => StepOutcome {
                    state: MachineView {
                        io_interruption: None,
                        ..reg_write(m, V0, v)
                    },
                    result: Ok(()),
                },
                None => StepOutcome { state: m, result: Err(VMError::InvalidInputFormat) },
            }
        },
        Some(IOInterruptionView::Input(InputRequest::String)) => {
            let addr = m.registers[A0 as int] as int;
            let bytes = vstd::utf8::encode_utf8(input);
            if addr + bytes.len() <= m.memory.len() {
                StepOutcome {
                    state: MachineView {
                        io_interruption: None,
                        memory: spliced(m.memory, addr, bytes),
                        ..m
                    },
                    result: Ok(()),
                }
            } else {
                StepOutcome { state: m, result: Err(VMError::InvalidInputFormat) }
            }
        },
        _ => StepOutcome { state: m, result: Err(VMError::InvalidResumption) },
    }
}

} // verus!
