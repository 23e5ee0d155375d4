use sextant::ast::{
    DataSection, Instruction, InstructionArgument, Program, Register, Statement, TextSection,
    Type, Value, Variable,
};
use sextant::vm::{IOInterruption, InitVMArgs, InputRequest, LoadErrorKind, Opcode, VMError, VM};

fn reg(name: &str) -> InstructionArgument {
    InstructionArgument::Register(Register { name: name.to_string() })
}

fn imm(value: u32) -> InstructionArgument {
    InstructionArgument::Immediate(value)
}

fn lab(name: &str) -> InstructionArgument {
    InstructionArgument::Label(name.to_string())
}

fn asciiz(name: &str, text: &str) -> Variable {
    Variable {
        name: name.to_string(),
        type_: Type::Asciiz,
        value: Value::String(text.to_string()),
    }
}

fn program(variables: Vec<Variable>, statements: Vec<Statement>, entrypoint: &str) -> Program {
    Program {
        data_section: DataSection { variables },
        text_section: TextSection { statements, entrypoint: entrypoint.to_string() },
    }
}

fn fresh_vm() -> VM {
    VM::new(InitVMArgs { stack_size: 1024, memory_size: 1024 }).unwrap()
}

#[test]
fn construction_accepts_power_of_two_capacities() {
    assert!(VM::new(InitVMArgs { stack_size: 1, memory_size: 1 }).is_ok());
    assert!(VM::new(InitVMArgs { stack_size: 1024, memory_size: 2 }).is_ok());
    assert!(VM::new(InitVMArgs { stack_size: 1048576, memory_size: 1048576 }).is_ok());
}

#[test]
fn construction_rejects_other_capacities() {
    for (stack, memory) in [(0, 16), (16, 0), (3, 16), (16, 12), (1048577, 1024), (0, 0)] {
        let result = VM::new(InitVMArgs { stack_size: stack, memory_size: memory });
        match result {
            Err(VMError::ConfigurationError) => {},
            _ => panic!("expected a configuration error"),
        }
    }
}

#[test]
fn construction_zeroes_registers_and_memory() {
    let vm = fresh_vm();
    let status = vm.get_status();
    assert_eq!(status.registers, vec![0u32; 32]);
    assert_eq!(status.pc, 0);
    assert!(status.io_interruption.is_none());
    assert_eq!(vm.memory, vec![0u8; 1024]);
    assert_eq!(vm.stack, vec![0u8; 1024]);
}

#[test]
fn load_fails_when_entry_label_is_absent() {
    let mut vm = fresh_vm();
    let p = program(
        vec![],
        vec![
            Statement::Label("start".to_string()),
            Statement::Instruction(Instruction::Li(vec![reg("$t0"), imm(1)])),
        ],
        "main",
    );
    let result = vm.load(p);
    assert_eq!(result, Err(VMError::LoadError(LoadErrorKind::EntrypointNotFound)));
    assert!(vm.statements.is_empty());
    assert_eq!(vm.pc, 0);
}

#[test]
fn load_sets_cursor_to_entry_label_index() {
    let mut vm = fresh_vm();
    let p = program(
        vec![],
        vec![
            Statement::Instruction(Instruction::Li(vec![reg("$t0"), imm(1)])),
            Statement::Label("other".to_string()),
            Statement::Label("main".to_string()),
            Statement::Instruction(Instruction::Li(vec![reg("$t1"), imm(2)])),
        ],
        "main",
    );
    assert_eq!(vm.load(p), Ok(()));
    assert_eq!(vm.get_status().pc, 2);
}

#[test]
fn load_rejects_data_section_larger_than_memory() {
    let mut vm = VM::new(InitVMArgs { stack_size: 4, memory_size: 4 }).unwrap();
    let p = program(vec![asciiz("big", "hello!")], vec![Statement::Label("main".to_string())], "main");
    assert_eq!(vm.load(p), Err(VMError::LoadError(LoadErrorKind::DataSectionTooLarge)));
}

#[test]
fn load_lays_variables_out_contiguously() {
    let mut vm = fresh_vm();
    let p = program(
        vec![asciiz("first", "Sum: "), asciiz("second", "ab")],
        vec![Statement::Label("main".to_string())],
        "main",
    );
    assert_eq!(vm.load(p), Ok(()));
    assert_eq!(&vm.memory[0..5], b"Sum: ");
    assert_eq!(&vm.memory[5..7], b"ab");
    assert_eq!(vm.data_variables, vec![("first".to_string(), 0), ("second".to_string(), 5)]);
}

#[test]
fn li_sets_register() {
    let mut vm = fresh_vm();
    let p = program(
        vec![],
        vec![
            Statement::Label("main".to_string()),
            Statement::Instruction(Instruction::Li(vec![reg("$t0"), imm(7)])),
        ],
        "main",
    );
    vm.load(p).unwrap();
    vm.run().unwrap();
    assert_eq!(vm.get_status().registers[8], 7);
}

#[test]
fn add_wraps_around_silently() {
    let mut vm = fresh_vm();
    let p = program(
        vec![],
        vec![
            Statement::Label("main".to_string()),
            Statement::Instruction(Instruction::Li(vec![reg("$t0"), imm(4294967295)])),
            Statement::Instruction(Instruction::Li(vec![reg("$t1"), imm(1)])),
            Statement::Instruction(Instruction::Add(vec![reg("$t2"), reg("$t0"), reg("$t1")])),
        ],
        "main",
    );
    vm.load(p).unwrap();
    assert_eq!(vm.run(), Ok(()));
    assert_eq!(vm.get_status().registers[10], 0);
}

#[test]
fn move_copies_between_registers() {
    let mut vm = fresh_vm();
    let p = program(
        vec![],
        vec![
            Statement::Label("main".to_string()),
            Statement::Instruction(Instruction::Li(vec![reg("$t0"), imm(99)])),
            Statement::Instruction(Instruction::Move(vec![reg("$s1"), reg("$t0")])),
        ],
        "main",
    );
    vm.load(p).unwrap();
    vm.run().unwrap();
    assert_eq!(vm.get_status().registers[17], 99);
}

#[test]
fn numeric_resumption_sets_source_register_and_clears_slot() {
    let mut vm = fresh_vm();
    let p = program(
        vec![],
        vec![
            Statement::Label("main".to_string()),
            Statement::Instruction(Instruction::Li(vec![reg("$v0"), imm(5)])),
            Statement::Instruction(Instruction::Syscall),
            Statement::Instruction(Instruction::Move(vec![reg("$t0"), reg("$v0")])),
        ],
        "main",
    );
    vm.load(p).unwrap();
    vm.run().unwrap();
    assert_eq!(
        vm.get_status().io_interruption,
        Some(IOInterruption::Input(InputRequest::Number))
    );
    assert_eq!(vm.handle_input("abc".to_string()), Err(VMError::InvalidInputFormat));
    assert_eq!(
        vm.get_status().io_interruption,
        Some(IOInterruption::Input(InputRequest::Number))
    );
    assert_eq!(vm.handle_input("42".to_string()), Ok(()));
    assert_eq!(vm.get_status().registers[2], 42);
    assert!(vm.get_status().io_interruption.is_none());
    vm.run().unwrap();
    assert_eq!(vm.get_status().registers[8], 42);
}

#[test]
fn halt_is_terminal_for_step_and_run() {
    let mut vm = fresh_vm();
    let p = program(
        vec![],
        vec![
            Statement::Label("main".to_string()),
            Statement::Instruction(Instruction::Li(vec![reg("$v0"), imm(10)])),
            Statement::Instruction(Instruction::Syscall),
            Statement::Instruction(Instruction::Li(vec![reg("$t0"), imm(1)])),
        ],
        "main",
    );
    vm.load(p).unwrap();
    vm.run().unwrap();
    assert_eq!(vm.get_status().io_interruption, Some(IOInterruption::Halt));
    let pc_at_halt = vm.get_status().pc;
    assert_eq!(vm.step(), Ok(()));
    assert_eq!(vm.run(), Ok(()));
    assert_eq!(vm.get_status().pc, pc_at_halt);
    assert_eq!(vm.get_status().registers[8], 0);
    assert_eq!(vm.get_status().io_interruption, Some(IOInterruption::Halt));
}

#[test]
fn print_string_emits_data_variable_text() {
    let mut vm = fresh_vm();
    let p = program(
        vec![asciiz("prompt", "Sum: ")],
        vec![
            Statement::Label("main".to_string()),
            Statement::Instruction(Instruction::La(vec![reg("$a0"), lab("prompt")])),
            Statement::Instruction(Instruction::Li(vec![reg("$v0"), imm(4)])),
            Statement::Instruction(Instruction::Syscall),
        ],
        "main",
    );
    vm.load(p).unwrap();
    vm.run().unwrap();
    assert_eq!(
        vm.get_status().io_interruption,
        Some(IOInterruption::Output("Sum: ".to_string()))
    );
}

#[test]
fn sum_program_reads_adds_prints_and_halts() {
    let mut vm = fresh_vm();
    let p = program(
        vec![],
        vec![
            Statement::Label("main".to_string()),
            Statement::Instruction(Instruction::Li(vec![reg("$v0"), imm(5)])),
            Statement::Instruction(Instruction::Syscall),
            Statement::Instruction(Instruction::Move(vec![reg("$t0"), reg("$v0")])),
            Statement::Instruction(Instruction::Li(vec![reg("$v0"), imm(5)])),
            Statement::Instruction(Instruction::Syscall),
            Statement::Instruction(Instruction::Move(vec![reg("$t1"), reg("$v0")])),
            Statement::Instruction(Instruction::Add(vec![reg("$t2"), reg("$t0"), reg("$t1")])),
            Statement::Instruction(Instruction::Li(vec![reg("$v0"), imm(1)])),
            Statement::Instruction(Instruction::Move(vec![reg("$a0"), reg("$t2")])),
            Statement::Instruction(Instruction::Syscall),
            Statement::Instruction(Instruction::Li(vec![reg("$v0"), imm(10)])),
            Statement::Instruction(Instruction::Syscall),
        ],
        "main",
    );
    vm.load(p).unwrap();
    vm.run().unwrap();
    assert_eq!(
        vm.get_status().io_interruption,
        Some(IOInterruption::Input(InputRequest::Number))
    );
    vm.handle_input("3".to_string()).unwrap();
    vm.run().unwrap();
    vm.handle_input("4".to_string()).unwrap();
    vm.run().unwrap();
    assert_eq!(vm.get_status().io_interruption, Some(IOInterruption::Output("7".to_string())));
    vm.run().unwrap();
    assert_eq!(vm.get_status().io_interruption, Some(IOInterruption::Halt));
}

#[test]
fn string_resumption_writes_bytes_into_memory() {
    let mut vm = fresh_vm();
    let p = program(
        vec![],
        vec![
            Statement::Label("main".to_string()),
            Statement::Instruction(Instruction::Li(vec![reg("$a0"), imm(16)])),
            Statement::Instruction(Instruction::Li(vec![reg("$v0"), imm(8)])),
            Statement::Instruction(Instruction::Syscall),
            Statement::Instruction(Instruction::Li(vec![reg("$v0"), imm(4)])),
            Statement::Instruction(Instruction::Syscall),
        ],
        "main",
    );
    vm.load(p).unwrap();
    vm.run().unwrap();
    assert_eq!(
        vm.get_status().io_interruption,
        Some(IOInterruption::Input(InputRequest::String))
    );
    vm.handle_input("hi".to_string()).unwrap();
    assert_eq!(&vm.memory[16..18], b"hi");
    vm.run().unwrap();
    assert_eq!(vm.get_status().io_interruption, Some(IOInterruption::Output("hi".to_string())));
}

#[test]
fn unknown_syscall_code_fails_recoverably() {
    let mut vm = fresh_vm();
    let p = program(
        vec![],
        vec![
            Statement::Label("main".to_string()),
            Statement::Instruction(Instruction::Li(vec![reg("$v0"), imm(2)])),
            Statement::Instruction(Instruction::Syscall),
            Statement::Instruction(Instruction::Li(vec![reg("$t0"), imm(5)])),
        ],
        "main",
    );
    vm.load(p).unwrap();
    assert_eq!(vm.run(), Err(VMError::UnhandledSyscall(2)));
    assert!(vm.get_status().io_interruption.is_none());
    assert_eq!(vm.step(), Ok(()));
    assert_eq!(vm.get_status().registers[8], 5);
}

#[test]
fn not_implemented_opcode_fails_recoverably() {
    let mut vm = fresh_vm();
    let p = program(
        vec![],
        vec![
            Statement::Label("main".to_string()),
            Statement::Instruction(Instruction::Sub(vec![reg("$t0"), reg("$t1"), reg("$t2")])),
            Statement::Instruction(Instruction::Li(vec![reg("$t3"), imm(9)])),
        ],
        "main",
    );
    vm.load(p).unwrap();
    assert_eq!(vm.run(), Err(VMError::NotImplemented(Opcode::Sub)));
    assert_eq!(vm.step(), Ok(()));
    assert_eq!(vm.get_status().registers[11], 9);
}

#[test]
fn unknown_register_fails() {
    let mut vm = fresh_vm();
    let p = program(
        vec![],
        vec![
            Statement::Label("main".to_string()),
            Statement::Instruction(Instruction::Li(vec![reg("$nope"), imm(1)])),
        ],
        "main",
    );
    vm.load(p).unwrap();
    assert_eq!(vm.run(), Err(VMError::UnknownRegister));
}

#[test]
fn unknown_data_variable_fails() {
    let mut vm = fresh_vm();
    let p = program(
        vec![],
        vec![
            Statement::Label("main".to_string()),
            Statement::Instruction(Instruction::La(vec![reg("$a0"), lab("missing")])),
        ],
        "main",
    );
    vm.load(p).unwrap();
    assert_eq!(vm.run(), Err(VMError::UnknownDataVariable));
}

#[test]
fn malformed_arguments_fail() {
    let mut vm = fresh_vm();
    let p = program(
        vec![],
        vec![
            Statement::Label("main".to_string()),
            Statement::Instruction(Instruction::Li(vec![reg("$t0")])),
        ],
        "main",
    );
    vm.load(p).unwrap();
    assert_eq!(vm.run(), Err(VMError::MalformedInstruction));
}

#[test]
fn resuming_without_pending_input_is_invalid() {
    let mut vm = fresh_vm();
    assert_eq!(vm.handle_input("42".to_string()), Err(VMError::InvalidResumption));
}

#[test]
fn resuming_on_output_or_halt_is_invalid_and_keeps_slot() {
    let mut vm = fresh_vm();
    let p = program(
        vec![],
        vec![
            Statement::Label("main".to_string()),
            Statement::Instruction(Instruction::Li(vec![reg("$a0"), imm(7)])),
            Statement::Instruction(Instruction::Li(vec![reg("$v0"), imm(1)])),
            Statement::Instruction(Instruction::Syscall),
        ],
        "main",
    );
    vm.load(p).unwrap();
    vm.run().unwrap();
    assert_eq!(vm.get_status().io_interruption, Some(IOInterruption::Output("7".to_string())));
    assert_eq!(vm.handle_input("1".to_string()), Err(VMError::InvalidResumption));
    assert_eq!(vm.get_status().io_interruption, Some(IOInterruption::Output("7".to_string())));
}

#[test]
fn step_reports_success_when_raising_an_interruption() {
    let mut vm = fresh_vm();
    let p = program(
        vec![],
        vec![
            Statement::Label("main".to_string()),
            Statement::Instruction(Instruction::Li(vec![reg("$v0"), imm(5)])),
            Statement::Instruction(Instruction::Syscall),
        ],
        "main",
    );
    vm.load(p).unwrap();
    assert_eq!(vm.step(), Ok(()));
    assert_eq!(vm.step(), Ok(()));
    assert_eq!(vm.step(), Ok(()));
    assert_eq!(
        vm.get_status().io_interruption,
        Some(IOInterruption::Input(InputRequest::Number))
    );
}

#[test]
fn eval_loads_and_runs_to_first_suspension() {
    let mut vm = fresh_vm();
    let p = program(
        vec![],
        vec![
            Statement::Label("main".to_string()),
            Statement::Instruction(Instruction::Li(vec![reg("$t0"), imm(3)])),
            Statement::Instruction(Instruction::Li(vec![reg("$v0"), imm(10)])),
            Statement::Instruction(Instruction::Syscall),
        ],
        "main",
    );
    assert_eq!(vm.eval(p), Ok(()));
    assert_eq!(vm.get_status().registers[8], 3);
    assert_eq!(vm.get_status().io_interruption, Some(IOInterruption::Halt));
}

#[test]
fn zero_register_is_not_protected() {
    let mut vm = fresh_vm();
    let p = program(
        vec![],
        vec![
            Statement::Label("main".to_string()),
            Statement::Instruction(Instruction::Li(vec![reg("$zero"), imm(5)])),
        ],
        "main",
    );
    vm.load(p).unwrap();
    vm.run().unwrap();
    assert_eq!(vm.get_status().registers[0], 5);
}

#[test]
fn entry_resolution_takes_the_first_matching_label() {
    let mut vm = fresh_vm();
    let p = program(
        vec![],
        vec![
            Statement::Label("main".to_string()),
            Statement::Instruction(Instruction::Li(vec![reg("$t0"), imm(1)])),
            Statement::Label("main".to_string()),
        ],
        "main",
    );
    assert_eq!(vm.load(p), Ok(()));
    assert_eq!(vm.get_status().pc, 0);
}

#[test]
fn search_entrypoint_scans_in_order() {
    let vm = fresh_vm();
    let statements = vec![
        Statement::Instruction(Instruction::Syscall),
        Statement::Label("a".to_string()),
        Statement::Label("b".to_string()),
    ];
    assert_eq!(vm.search_entrypoint("b", &statements), Ok(2));
    assert_eq!(
        vm.search_entrypoint("c", &statements),
        Err(VMError::LoadError(LoadErrorKind::EntrypointNotFound))
    );
}

#[test]
fn default_capacities_are_one_mebibyte() {
    let args = InitVMArgs::default();
    assert_eq!(args.memory_size, 1048576);
    assert_eq!(args.stack_size, 1048576);
    assert!(args.check_memory_size().is_ok());
}

#[test]
fn later_data_variable_with_same_name_wins() {
    let mut vm = fresh_vm();
    let p = program(
        vec![asciiz("x", "aa"), asciiz("x", "bb")],
        vec![
            Statement::Label("main".to_string()),
            Statement::Instruction(Instruction::La(vec![reg("$t0"), lab("x")])),
        ],
        "main",
    );
    vm.load(p).unwrap();
    vm.run().unwrap();
    assert_eq!(vm.get_status().registers[8], 2);
}
