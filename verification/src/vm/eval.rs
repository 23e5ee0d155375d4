//! The executable engine, verified against the model in
//! [`crate::vm::model`]: the instruction dispatcher, the syscall and
//! resumption handling, the program loader, and the step/run execution
//! controller.
use vstd::prelude::*;

use crate::ast::{Instruction, InstructionArgument, Program, Statement};
use crate::decimal::{parse_u32, u32_to_decimal};
use crate::strutil::{push_char, str_eq};
use crate::vm::memory_map::Memory;
use crate::vm::model::{
    cstr_chars, cstr_end, data_image, eval_add, eval_instruction_view, eval_la, eval_li, eval_move,
    find_label, find_label_from, layout_entries, lemma_cstr_end_bounds,
    lemma_data_image_prefix_len, lemma_data_image_snoc, lemma_eval_statement_frame, offset_of,
    lookup_variable, spec_handle_input, spec_load, spec_run, spec_run_loop, spec_step,
    spec_syscall, spliced, acknowledge_output,
    MachineView, StepOutcome, A0, V0,
};
use crate::vm::register::{lemma_register_index_in_range, RegisterPosition};
use crate::vm::{IOInterruption, InputRequest, LoadErrorKind, VMError, VM};
use crate::StatusUpdateMessage;

verus! {

/// The offset recorded for a name, searching the table from its most
/// recent entry backwards.
fn lookup_data_variable(dv: &Vec<(String, usize)>, name: &str) -> (r: Option<usize>)
    ensures
        r == lookup_variable(dv.deep_view(), name@),
{
    let mut i: usize = dv.len();
    proof {
        assert(dv.deep_view().subrange(0, i as int) =~= dv.deep_view());
    }
    while i > 0
        invariant
            i <= dv.len(),
            lookup_variable(dv.deep_view(), name@) == lookup_variable(
                dv.deep_view().subrange(0, i as int),
                name@,
            ),
        decreases i,
    {
        i = i - 1;
        proof {
            let pre = dv.deep_view().subrange(0, i + 1);
            assert(pre.last() == (dv@[i as int].0@, dv@[i as int].1));
            assert(pre.drop_last() =~= dv.deep_view().subrange(0, i as int));
        }
        if str_eq(dv[i].0.as_str(), name) {
            return Some(dv[i].1);
        }
    }
    proof {
        assert(dv.deep_view().subrange(0, 0) =~= Seq::<(Seq<char>, usize)>::empty());
    }
    None
}

/// Reads the zero-terminated text starting at `addr`: bytes up to the
/// first zero byte or the end of memory, each decoded as one character.
fn read_cstring(mem: &Vec<u8>, addr: usize) -> (s: String)
    ensures
        s@ == cstr_chars(mem@, addr as int),
{
    let mut s = String::new();
    if addr > mem.len() {
        return s;
    }
    let ghost end = cstr_end(mem@, addr as int);
    proof {
        lemma_cstr_end_bounds(mem@, addr as int);
    }
    let mut i: usize = addr;
    while i < mem.len() && mem[i] != 0
        invariant
            addr <= i <= mem@.len(),
            cstr_end(mem@, i as int) == end,
            s@ == mem@.subrange(addr as int, i as int).map_values(|b: u8| b as char),
        decreases mem@.len() - i,
    {
        let b = mem[i];
        push_char(&mut s, b as char);
        proof {
            let pre = mem@.subrange(addr as int, i + 1);
            assert(pre.drop_last() =~= mem@.subrange(addr as int, i as int));
            assert(s@ =~= pre.map_values(|b: u8| b as char));
        }
        i = i + 1;
    }
    proof {
        assert(cstr_end(mem@, i as int) == i);
        assert(s@ == mem@.subrange(addr as int, end).map_values(|b: u8| b as char));
    }
    s
}

/// Writes the run `bytes` into memory at `offset`.
fn copy_into(mem: &mut Vec<u8>, offset: usize, bytes: &[u8])
    requires
        offset + bytes@.len() <= old(mem)@.len(),
    ensures
        final(mem)@ == spliced(old(mem)@, offset as int, bytes@),
{
    let n = bytes.len();
    let m_len = mem.len();
    let mut i: usize = 0;
    while i < n
        invariant
            i <= n,
            n == bytes@.len(),
            offset + n <= m_len,
            m_len == mem@.len(),
            mem@ == spliced(old(mem)@, offset as int, bytes@.subrange(0, i as int)),
            mem@.len() == old(mem)@.len(),
        decreases n - i,
    {
        mem.set(offset + i, bytes[i]);
        proof {
            assert(mem@ =~= spliced(old(mem)@, offset as int, bytes@.subrange(0, i + 1)));
        }
        i = i + 1;
    }
    proof {
        assert(bytes@.subrange(0, n as int) =~= bytes@);
    }
}

impl VM {
    /// Load-immediate: the destination register takes the literal value.
    fn exec_li(&mut self, args: &Vec<InstructionArgument>) -> (r: Result<(), VMError>)
        requires
            old(self).wf(),
        ensures
            final(self).wf(),
            final(self)@ == eval_li(old(self)@, args.deep_view()).state,
            r == eval_li(old(self)@, args.deep_view()).result,
    {
        if args.len() != 2 {
            return Err(VMError::MalformedInstruction);
        }
        match (&args[0], &args[1]) {
            (InstructionArgument::Register(reg), InstructionArgument::Immediate(imm)) => {
                match reg.get_register_position() {
                    Ok(pos) => {
                        proof {
                            lemma_register_index_in_range(reg.name@);
                        }
                        self.registers.set(pos, *imm);
                        proof {
                            assert(self@ =~= eval_li(old(self)@, args.deep_view()).state);
                        }
                        Ok(())
                    },
                    Err(e) => Err(e),
                }
            },
            _ => Err(VMError::MalformedInstruction),
        }
    }

    /// Load-address: the destination register takes the byte offset of the
    /// named data variable.
    fn exec_la(&mut self, args: &Vec<InstructionArgument>) -> (r: Result<(), VMError>)
        requires
            old(self).wf(),
        ensures
            final(self).wf(),
            final(self)@ == eval_la(old(self)@, args.deep_view()).state,
            r == eval_la(old(self)@, args.deep_view()).result,
    {
        if args.len() != 2 {
            return Err(VMError::MalformedInstruction);
        }
        match (&args[0], &args[1]) {
            (InstructionArgument::Register(reg), InstructionArgument::Label(label)) => {
                let address = match lookup_data_variable(&self.data_variables, label.as_str()) {
                    Some(a) => a,
                    None => {
                        return Err(VMError::UnknownDataVariable);
                    },
                };
                match reg.get_register_position() {
                    Ok(pos) => {
                        proof {
                            lemma_register_index_in_range(reg.name@);
                        }
                        let wide = address as u64;
                        let value = #[verifier::truncate] (wide as u32);
                        proof {
                            assert(wide as u32 == wide % 0x1_0000_0000u64) by (bit_vector);
                        }
                        self.registers.set(pos, value);
                        proof {
                            assert(self@ =~= eval_la(old(self)@, args.deep_view()).state);
                        }
                        Ok(())
                    },
                    Err(e) => Err(e),
                }
            },
            _ => Err(VMError::MalformedInstruction),
        }
    }

    /// Register-move: the destination register takes the source's value.
    fn exec_move(&mut self, args: &Vec<InstructionArgument>) -> (r: Result<(), VMError>)
        requires
            old(self).wf(),
        ensures
            final(self).wf(),
            final(self)@ == eval_move(old(self)@, args.deep_view()).state,
            r == eval_move(old(self)@, args.deep_view()).result,
    {
        if args.len() != 2 {
            return Err(VMError::MalformedInstruction);
        }
        match (&args[0], &args[1]) {
            (InstructionArgument::Register(dst), InstructionArgument::Register(src)) => {
                let src_pos = match src.get_register_position() {
                    Ok(p) => p,
                    Err(e) => {
                        return Err(e);
                    },
                };
                let dst_pos = match dst.get_register_position() {
                    Ok(p) => p,
                    Err(e) => {
                        return Err(e);
                    },
                };
                proof {
                    lemma_register_index_in_range(src.name@);
                    lemma_register_index_in_range(dst.name@);
                }
                let value = self.registers[src_pos];
                self.registers.set(dst_pos, value);
                proof {
                    assert(self@ =~= eval_move(old(self)@, args.deep_view()).state);
                }
                Ok(())
            },
            _ => Err(VMError::MalformedInstruction),
        }
    }

    /// Add: the destination takes the sum of the two sources, wrapping
    /// silently on overflow.
    fn exec_add(&mut self, args: &Vec<InstructionArgument>) -> (r: Result<(), VMError>)
        requires
            old(self).wf(),
        ensures
            final(self).wf(),
            final(self)@ == eval_add(old(self)@, args.deep_view()).state,
            r == eval_add(old(self)@, args.deep_view()).result,
    {
        if args.len() != 3 {
            return Err(VMError::MalformedInstruction);
        }
        match (&args[0], &args[1], &args[2]) {
            (
                InstructionArgument::Register(dst),
                InstructionArgument::Register(lhs),
                InstructionArgument::Register(rhs),
            ) => {
                let lhs_pos = match lhs.get_register_position() {
                    Ok(p) => p,
                    Err(e) => {
                        return Err(e);
                    },
                };
                let rhs_pos = match rhs.get_register_position() {
                    Ok(p) => p,
                    Err(e) => {
                        return Err(e);
                    },
                };
                let dst_pos = match dst.get_register_position() {
                    Ok(p) => p,
                    Err(e) => {
                        return Err(e);
                    },
                };
                proof {
                    lemma_register_index_in_range(lhs.name@);
                    lemma_register_index_in_range(rhs.name@);
                    lemma_register_index_in_range(dst.name@);
                }
                let value = self.registers[lhs_pos].wrapping_add(self.registers[rhs_pos]);
                self.registers.set(dst_pos, value);
                proof {
                    assert(self@ =~= eval_add(old(self)@, args.deep_view()).state);
                }
                Ok(())
            },
            _ => Err(VMError::MalformedInstruction),
        }
    }

    /// The syscall dispatcher: services print syscalls inline, suspends on
    /// input and exit syscalls, and refuses to raise a second interruption
    /// while one is outstanding.
    fn handle_syscall(&mut self, code: u32) -> (r: Result<(), VMError>)
        requires
            old(self).wf(),
        ensures
            final(self).wf(),
            final(self)@ == spec_syscall(old(self)@, code).state,
            r == spec_syscall(old(self)@, code).result,
    {
        if self.io_interruption.is_some() {
            return Err(VMError::InterruptionAlreadyPending);
        }
        if code == 1 {
            let value = self.registers[A0];
            self.io_interruption = Some(IOInterruption::Output(u32_to_decimal(value)));
            proof {
                assert(self@ =~= spec_syscall(old(self)@, code).state);
            }
            Ok(())
        } else if code == 4 {
            let address = self.registers[A0] as usize;
            let output = read_cstring(&self.memory, address);
            self.io_interruption = Some(IOInterruption::Output(output));
            proof {
                assert(self@ =~= spec_syscall(old(self)@, code).state);
            }
            Ok(())
        } else if code == 5 {
            self.io_interruption = Some(IOInterruption::Input(InputRequest::Number));
            proof {
                assert(self@ =~= spec_syscall(old(self)@, code).state);
            }
            Ok(())
        } else if code == 8 {
            self.io_interruption = Some(IOInterruption::Input(InputRequest::String));
            proof {
                assert(self@ =~= spec_syscall(old(self)@, code).state);
            }
            Ok(())
        } else if code == 10 {
            self.io_interruption = Some(IOInterruption::Halt);
            proof {
                assert(self@ =~= spec_syscall(old(self)@, code).state);
            }
            Ok(())
        } else {
            Err(VMError::UnhandledSyscall(code))
        }
    }

    /// The instruction dispatcher: a pure mapping from one instruction and
    /// the current state to a state mutation, producing at most one pending
    /// interruption. Unimplemented opcodes fail with a recoverable
    /// not-implemented error so the session stays usable.
    pub fn eval_instruction(&mut self, instruction: &Instruction) -> (r: Result<(), VMError>)
        requires
            old(self).wf(),
        ensures
            final(self).wf(),
            final(self)@ == eval_instruction_view(old(self)@, instruction.deep_view()).state,
            r == eval_instruction_view(old(self)@, instruction.deep_view()).result,
    {
        match instruction {
            Instruction::Li(args) => self.exec_li(args),
            Instruction::La(args) => self.exec_la(args),
            Instruction::Syscall => {
                let code = self.registers[V0];
                self.handle_syscall(code)
            },
            Instruction::Move(args) => self.exec_move(args),
            Instruction::Add(args) => self.exec_add(args),
            Instruction::Jal(_) => Err(VMError::NotImplemented(crate::vm::Opcode::Jal)),
            Instruction::Beq(_) => Err(VMError::NotImplemented(crate::vm::Opcode::Beq)),
            Instruction::Sub(_) => Err(VMError::NotImplemented(crate::vm::Opcode::Sub)),
            Instruction::Jr(_) => Err(VMError::NotImplemented(crate::vm::Opcode::Jr)),
            Instruction::Addi(_) => Err(VMError::NotImplemented(crate::vm::Opcode::Addi)),
            Instruction::Andi(_) => Err(VMError::NotImplemented(crate::vm::Opcode::Andi)),
            Instruction::J(_) => Err(VMError::NotImplemented(crate::vm::Opcode::J)),
        }
    }

    /// Resumption: valid only while an input-kind interruption is pending.
    /// Numeric input is parsed into `$v0`; string input is copied verbatim
    /// into memory at the address `$a0` holds now. A parse failure, or
    /// input that does not fit in memory, leaves the interruption pending
    /// for retry; success clears it. Resuming with no pending interruption,
    /// or while it is an output or the halt, is an invalid resumption and
    /// changes nothing.
    pub fn handle_input(&mut self, input: String) -> (r: Result<(), VMError>)
        requires
            old(self).wf(),
        ensures
            final(self).wf(),
            final(self)@ == spec_handle_input(old(self)@, input@).state,
            r == spec_handle_input(old(self)@, input@).result,
    {
        let request: InputRequest = match &self.io_interruption {
            Some(IOInterruption::Input(request)) => *request,
            _ => {
                return Err(VMError::InvalidResumption);
            },
        };
        match request {
            InputRequest::Number => {
                match parse_u32(input.as_str()) {
                    Some(value) => {
                        self.registers.set(V0, value);
                        self.io_interruption = None;
                        proof {
                            assert(self@ =~= spec_handle_input(old(self)@, input@).state);
                        }
                        Ok(())
                    },
                    None => Err(VMError::InvalidInputFormat),
                }
            },
            InputRequest::String => {
                let address = self.registers[A0] as usize;
                let bytes = input.as_str().as_bytes();
                if address > self.memory.len() || bytes.len() > self.memory.len() - address {
                    return Err(VMError::InvalidInputFormat);
                }
                copy_into(&mut self.memory, address, bytes);
                self.io_interruption = None;
                proof {
                    assert(self@ =~= spec_handle_input(old(self)@, input@).state);
                }
                Ok(())
            },
        }
    }

    /// Scans the statement sequence in order for the first label matching
    /// the declared entry name.
    pub fn search_entrypoint(&self, entrypoint: &str, statements: &[Statement]) -> (r: Result<
        usize,
        VMError,
    >)
        ensures
            r == (match find_label(statements.deep_view(), entrypoint@) {
                Some(i) => Ok::<usize, VMError>(i as usize),
                None => Err::<usize, VMError>(VMError::LoadError(LoadErrorKind::EntrypointNotFound)),
            }),
    {
        let n = statements.len();
        let mut i: usize = 0;
        while i < n
            invariant
                i <= n,
                n == statements@.len(),
                find_label(statements.deep_view(), entrypoint@) == find_label_from(
                    statements.deep_view(),
                    entrypoint@,
                    i as int,
                ),
            decreases n - i,
        {
            match &statements[i] {
                Statement::Label(label) => {
                    if str_eq(label.as_str(), entrypoint) {
                        return Ok(i);
                    }
                },
                _ => {},
            }
            i = i + 1;
        }
        Err(VMError::LoadError(LoadErrorKind::EntrypointNotFound))
    }

    /// Installs a program: walks the data-section variables in order,
    /// assigns each the next free offset starting at zero with no padding,
    /// copies its encoded bytes into memory and records its offset; then
    /// resolves the entry label and initializes the statement cursor. A
    /// data section that does not fit fails before anything is written; a
    /// missing entry label fails with the data laid out but no statements
    /// installed. Loading is meant to happen once per session, on
    /// zero-initialized memory.
    pub fn load(&mut self, program: Program) -> (r: Result<(), VMError>)
        requires
            old(self).wf(),
        ensures
            final(self).wf(),
            final(self)@ == spec_load(old(self)@, program.deep_view()).state,
            r == spec_load(old(self)@, program.deep_view()).result,
    {
        let ghost prog_view = program.deep_view();
        let ghost vars_view = program.data_section.variables.deep_view();
        let vars = &program.data_section.variables;
        let n = vars.len();
        let mem_len = self.memory.len();

        let mut total: usize = 0;
        let mut i: usize = 0;
        while i < n
            invariant
                i <= n,
                n == vars_view.len(),
                vars_view == vars.deep_view(),
                vars_view == program.data_section.variables.deep_view(),
                mem_len == self.memory@.len(),
                *self == *old(self),
                old(self).wf(),
                total == data_image(vars_view.subrange(0, i as int)).len(),
                total <= mem_len,
            decreases n - i,
        {
            let size = vars[i].size();
            proof {
                assert(vars_view[i as int] == vars@[i as int].deep_view());
                lemma_data_image_snoc(vars_view, i as int);
            }
            if size > mem_len - total {
                proof {
                    lemma_data_image_prefix_len(vars_view, i + 1);
                }
                return Err(VMError::LoadError(LoadErrorKind::DataSectionTooLarge));
            }
            total = total + size;
            i = i + 1;
        }
        proof {
            assert(vars_view.subrange(0, n as int) =~= vars_view);
            lemma_data_image_prefix_len(vars_view, n as int);
        }

        let mut offset: usize = 0;
        let mut idx: usize = 0;
        while idx < n
            invariant
                idx <= n,
                n == vars_view.len(),
                vars_view == vars.deep_view(),
                vars_view == program.data_section.variables.deep_view(),
                mem_len == self.memory@.len(),
                mem_len == old(self).memory@.len(),
                old(self).wf(),
                total == data_image(vars_view).len(),
                total <= mem_len,
                offset == data_image(vars_view.subrange(0, idx as int)).len(),
                self.memory@ == data_image(vars_view.subrange(0, idx as int)) + old(
                    self,
                ).memory@.skip(offset as int),
                self.data_variables.deep_view() == old(self).data_variables.deep_view()
                    + layout_entries(vars_view).subrange(0, idx as int),
                self.registers == old(self).registers,
                self.pc == old(self).pc,
                self.stack == old(self).stack,
                self.statements == old(self).statements,
                self.io_interruption == old(self).io_interruption,
                self.memory_patch == old(self).memory_patch,
            decreases n - idx,
        {
            let bytes = vars[idx].to_bytes();
            proof {
                assert(vars_view[idx as int] == vars@[idx as int].deep_view());
                lemma_data_image_snoc(vars_view, idx as int);
                lemma_data_image_prefix_len(vars_view, idx + 1);
            }
            copy_into(&mut self.memory, offset, bytes.as_slice());
            let ghost dv_pre_raw = self.data_variables@;
            let ghost dv_pre = self.data_variables.deep_view();
            let name = vars[idx].name.clone();
            self.data_variables.push((name, offset));
            proof {
                assert(self.memory@ =~= data_image(vars_view.subrange(0, idx + 1)) + old(
                    self,
                ).memory@.skip(offset + bytes@.len()));
                let lhs = self.data_variables.deep_view();
                let rhs = old(self).data_variables.deep_view() + layout_entries(
                    vars_view,
                ).subrange(0, idx + 1);
                assert(self.data_variables@ == dv_pre_raw.push((name, offset)));
                assert(lhs.len() == dv_pre_raw.len() + 1);
                assert(dv_pre.len() == dv_pre_raw.len());
                assert(dv_pre.len() == old(self).data_variables.deep_view().len() + idx);
                assert(rhs.len() == old(self).data_variables.deep_view().len() + idx + 1);
                assert(lhs.len() == rhs.len());
                assert forall|k: int| 0 <= k < lhs.len() implies lhs[k] == rhs[k] by {
                    if k < dv_pre_raw.len() {
                        assert(lhs[k] == self.data_variables@[k].deep_view());
                        assert(self.data_variables@[k] == dv_pre_raw[k]);
                        assert(dv_pre[k] == dv_pre_raw[k].deep_view());
                        assert(dv_pre[k] == rhs[k]);
                    } else {
                        assert(lhs[k] == self.data_variables@[k].deep_view());
                        assert(self.data_variables@[k] == (name, offset));
                        assert(lhs[k] == (name@, offset as usize));
                        assert(name@ == vars_view[idx as int].name);
                        assert(rhs[k] == layout_entries(vars_view)[idx as int]);
                        assert(rhs[k] == (vars_view[idx as int].name, offset_of(
                            vars_view,
                            idx as int,
                        ) as usize));
                        assert(offset_of(vars_view, idx as int) == offset);
                    }
                }
                assert(lhs =~= rhs);
            }
            offset = offset + bytes.len();
            idx = idx + 1;
        }
        proof {
            assert(vars_view.subrange(0, n as int) =~= vars_view);
            assert(layout_entries(vars_view).subrange(0, n as int) =~= layout_entries(vars_view));
        }

        let statements_slice = program.text_section.statements.as_slice();
        let statement_count = statements_slice.len();
        proof {
            assert(statements_slice.deep_view() =~= program.text_section.statements.deep_view());
            assert(statements_slice.deep_view().len() == statement_count);
        }
        let entry = match self.search_entrypoint(
            program.text_section.entrypoint.as_str(),
            statements_slice,
        ) {
            Ok(e) => e,
            Err(err) => {
                proof {
                    assert(self@ =~= spec_load(old(self)@, program.deep_view()).state);
                }
                return Err(err);
            },
        };
        self.pc = entry;
        self.statements = program.text_section.statements;
        proof {
            crate::vm::model::lemma_find_label_in_range(
                prog_view.text_section.statements,
                prog_view.text_section.entrypoint,
            );
            assert(self.statements.deep_view() =~= prog_view.text_section.statements);
            assert(prog_view.data_section.variables == vars_view);
            assert(data_image(vars_view).len() <= old(self)@.memory.len());
            assert(statements_slice.deep_view() == prog_view.text_section.statements);
            let o = spec_load(old(self)@, prog_view).state;
            assert(self@.registers == o.registers);
            assert(self@.pc == o.pc);
            assert(self@.memory =~= o.memory);
            assert(self@.stack == o.stack);
            assert(self@.data_variables =~= o.data_variables);
            assert(self@.statements =~= o.statements);
            assert(self@.io_interruption == o.io_interruption);
            assert(self@.memory_patch == o.memory_patch);
            assert(self@ =~= spec_load(old(self)@, prog_view).state);
        }
        Ok(())
    }

    /// Executes exactly one statement. A halted engine executes nothing,
    /// and a cursor past the end of the statement sequence leaves the
    /// engine unchanged. The cursor advances before the statement's effects
    /// are applied, and a raised interruption is not an error: it is
    /// observable only through the status snapshot.
    pub fn step(&mut self) -> (r: Result<(), VMError>)
        requires
            old(self).wf(),
        ensures
            final(self).wf(),
            final(self)@ == spec_step(old(self)@).state,
            r == spec_step(old(self)@).result,
    {
        match &self.io_interruption {
            Some(IOInterruption::Halt) => {
                return Ok(());
            },
            _ => {},
        }
        if self.pc >= self.statements.len() {
            return Ok(());
        }
        let statement = self.statements[self.pc].clone();
        proof {
            assert(old(self)@.statements[old(self)@.pc] == self.statements@[self.pc as int].deep_view());
            assert(statement.deep_view() == old(self)@.statements[old(self)@.pc]);
        }
        self.pc = self.pc + 1;
        let ghost mid = self@;
        proof {
            assert(mid =~= MachineView { pc: old(self)@.pc + 1, ..old(self)@ });
        }
        match statement {
            Statement::Label(_) => {
                proof {
                    assert(self@ =~= spec_step(old(self)@).state);
                }
                Ok(())
            },
            Statement::Instruction(instruction) => {
                proof {
                    assert(old(self)@.statements[old(self)@.pc] == crate::ast::StatementView::Instruction(
                        instruction.deep_view(),
                    ));
                }
                let r = self.eval_instruction(&instruction);
                proof {
                    assert(spec_step(old(self)@) == eval_instruction_view(
                        mid,
                        instruction.deep_view(),
                    ));
                }
                r
            },
        }
    }

    /// Runs until the cursor leaves the statement sequence or any
    /// interruption becomes pending — including output. An output pending
    /// from an earlier run is self-resolving: invoking the run controller
    /// again acknowledges and clears it before stepping resumes; input and
    /// halt interruptions are never cleared this way. Pacing between steps
    /// is the host's concern: the engine itself steps as fast as it can.
    pub fn run(&mut self) -> (r: Result<(), VMError>)
        requires
            old(self).wf(),
        ensures
            final(self).wf(),
            final(self)@ == spec_run(old(self)@).state,
            r == spec_run(old(self)@).result,
    {
        match &self.io_interruption {
            Some(IOInterruption::Output(_)) => {
                self.io_interruption = None;
            },
            _ => {},
        }
        proof {
            assert(self@ =~= acknowledge_output(old(self)@));
        }
        while self.pc < self.statements.len() && self.io_interruption.is_none()
            invariant
                self.wf(),
                spec_run(old(self)@) == spec_run_loop(self@),
            decreases self.statements@.len() - self.pc,
        {
            let ghost pre = self@;
            let r = self.step();
            proof {
                lemma_eval_statement_frame(
                    MachineView { pc: pre.pc + 1, ..pre },
                    pre.statements[pre.pc],
                );
            }
            if let Err(e) = r {
                proof {
                    assert(spec_run_loop(pre) == spec_step(pre));
                }
                return Err(e);
            }
            proof {
                assert(spec_run_loop(pre) == spec_run_loop(self@));
            }
        }
        proof {
            assert(spec_run_loop(self@) == StepOutcome {
                state: self@,
                result: Ok::<(), VMError>(()),
            });
        }
        Ok(())
    }

    /// Loads a program and runs it to its first suspension, its natural
    /// end, or a failing statement.
    pub fn eval(&mut self, program: Program) -> (r: Result<(), VMError>)
        requires
            old(self).wf(),
        ensures
            final(self).wf(),
            final(self)@ == (if spec_load(old(self)@, program.deep_view()).result is Err {
                spec_load(old(self)@, program.deep_view()).state
            } else {
                spec_run(spec_load(old(self)@, program.deep_view()).state).state
            }),
            r == (if spec_load(old(self)@, program.deep_view()).result is Err {
                spec_load(old(self)@, program.deep_view()).result
            } else {
                spec_run(spec_load(old(self)@, program.deep_view()).state).result
            }),
    {
        match self.load(program) {
            Err(e) => Err(e),
            Ok(()) => self.run(),
        }
    }

    /// An immutable snapshot for external observers: the full register file
    /// in index order, the statement cursor, and the pending interruption.
    pub fn get_status(&self) -> (s: StatusUpdateMessage)
        ensures
            s.registers@ == self.registers@,
            s.pc == self.pc,
            s.io_interruption == self.io_interruption,
    {
        let mut registers: Vec<u32> = Vec::new();
        let mut i: usize = 0;
        let n = self.registers.len();
        while i < n
            invariant
                i <= n,
                n == self.registers@.len(),
                registers@ == self.registers@.subrange(0, i as int),
            decreases n - i,
        {
            registers.push(self.registers[i]);
            proof {
                assert(registers@ =~= self.registers@.subrange(0, i + 1));
            }
            i = i + 1;
        }
        proof {
            assert(registers@ =~= self.registers@);
        }
        let io_interruption = match &self.io_interruption {
            None => None,
            Some(interruption) => Some(interruption.clone()),
        };
        StatusUpdateMessage { registers, pc: self.pc, io_interruption }
    }
}

} // verus!
