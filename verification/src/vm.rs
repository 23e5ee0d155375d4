//! The engine's state: the register file, the flat byte memory, the data
//! variable table, the statement sequence, and the single pending
//! interruption slot.
use vstd::prelude::*;

pub mod eval;
pub mod memory_map;
pub mod model;
pub mod register;

verus! {

/// Opcodes of the instruction set, including the ones the engine does not
/// implement yet; dispatching one of those fails with
/// [`VMError::NotImplemented`] so a session survives them.
#[derive(Clone, Copy, Debug, PartialEq, Eq, Structural)]
pub enum Opcode {
    Li,
    La,
    Syscall,
    Move,
    Jal,
    Beq,
    Sub,
    Add,
    Jr,
    Addi,
    Andi,
    J,
}

/// What made a program load fail.
#[derive(Clone, Copy, Debug, PartialEq, Eq, Structural)]
pub enum LoadErrorKind {
    /// The declared entry label is absent from the statement sequence.
    EntrypointNotFound,
    /// The data section does not fit in the configured memory.
    DataSectionTooLarge,
}

/// The engine's error taxonomy.
#[derive(Clone, Copy, Debug, PartialEq, Eq, Structural)]
pub enum VMError {
    /// A configured capacity is not a power of two.
    ConfigurationError,
    /// Loading the program failed; nothing further can run in this session.
    LoadError(LoadErrorKind),
    /// A register name is not in the fixed name table.
    UnknownRegister,
    /// A load-address instruction names a data variable that was never laid
    /// out in memory.
    UnknownDataVariable,
    /// A syscall was made with a trap code the engine does not dispatch.
    UnhandledSyscall(u32),
    /// The opcode is in the instruction enumeration but not implemented.
    NotImplemented(Opcode),
    /// An instruction's arguments do not have the shape its opcode requires.
    MalformedInstruction,
    /// A syscall tried to raise an interruption while one was outstanding.
    InterruptionAlreadyPending,
    /// Input was handed in while no input-kind interruption was pending.
    InvalidResumption,
    /// Input text could not be parsed as an unsigned 32-bit integer.
    InvalidInputFormat,
}

/// The kind of input a suspended program is waiting for.
#[derive(Clone, Copy, Debug, PartialEq, Eq, Structural)]
pub enum InputRequest {
    String,
    Number,
}

/// The single pending interruption: a request for input, an emitted output,
/// or the terminal halt.
#[derive(Debug, PartialEq)]
pub enum IOInterruption {
    Input(InputRequest),
    Output(String),
    Halt,
}

/// Mathematical view of [`IOInterruption`]: emitted output is a character
/// sequence.
#[verifier::ext_equal]
pub enum IOInterruptionView {
    Input(InputRequest),
    Output(Seq<char>),
    Halt,
}

impl DeepView for IOInterruption {
    type V = IOInterruptionView;

    open spec fn deep_view(&self) -> IOInterruptionView {
        match self {
            IOInterruption::Input(r) => IOInterruptionView::Input(*r),
            IOInterruption::Output(s) => IOInterruptionView::Output(s@),
            IOInterruption::Halt => IOInterruptionView::Halt,
        }
    }
}

impl Clone for IOInterruption {
    fn clone(&self) -> (res: Self)
        ensures
            res == *self,
    {
        match self {
            IOInterruption::Input(r) => IOInterruption::Input(*r),
            IOInterruption::Output(s) => IOInterruption::Output(s.clone()),
            IOInterruption::Halt => IOInterruption::Halt,
        }
    }
}

/// The execution engine: a fixed register file, a flat byte memory and a
/// reserved stack buffer, the table of laid-out data variables, the loaded
/// statement sequence with its cursor, and the single pending-interruption
/// slot. One instance serves exactly one program run.
pub struct VM {
    /// The 32 unsigned 32-bit register cells, in fixed index order.
    pub registers: Vec<u32>,
    /// The statement cursor: an index into `statements`, not a byte address.
    pub pc: usize,
    /// The flat byte address space, zero-initialized at construction.
    pub memory: Vec<u8>,
    /// Reserved for future call/return support; no implemented opcode
    /// writes it.
    pub stack: Vec<u8>,
    /// Name-to-offset records of the laid-out data variables, in insertion
    /// order; a re-recorded name resolves to its latest entry.
    pub data_variables: Vec<(String, usize)>,
    /// The loaded text section.
    pub statements: Vec<crate::ast::Statement>,
    /// The single pending-interruption slot.
    pub io_interruption: Option<IOInterruption>,
    /// Diagnostic record of a recent memory change, for external
    /// observability only; the engine never reads it.
    pub memory_patch: Option<Vec<u8>>,
}

/// Construction arguments of the engine: the capacities, in bytes, of the
/// flat memory and of the reserved stack buffer.
#[derive(Clone, Copy, Debug, PartialEq, Eq, Structural)]
pub struct InitVMArgs {
    pub stack_size: usize,
    pub memory_size: usize,
}

/// A capacity is valid when it is a power of two.
pub open spec fn is_power_of_two(n: int) -> bool
    decreases n,
{
    if n <= 0 {
        false
    } else if n == 1 {
        true
    } else {
        n % 2 == 0 && is_power_of_two(n / 2)
    }
}

impl InitVMArgs {
    /// Both capacities must be powers of two; anything else is a
    /// configuration error.
    pub fn check_memory_size(&self) -> (r: Result<(), VMError>)
        ensures
            r == if is_power_of_two(self.memory_size as int) && is_power_of_two(
                self.stack_size as int,
            ) {
                Ok::<(), VMError>(())
            } else {
                Err::<(), VMError>(VMError::ConfigurationError)
            },
    {
        if is_power_of_two_exec(self.memory_size) && is_power_of_two_exec(self.stack_size) {
            Ok(())
        } else {
            Err(VMError::ConfigurationError)
        }
    }
}

impl Default for InitVMArgs {
    /// One mebibyte of memory and one mebibyte of stack.
    fn default() -> (r: Self)
        ensures
            r.stack_size == 1048576,
            r.memory_size == 1048576,
    {
        InitVMArgs { stack_size: 1024 * 1024, memory_size: 1024 * 1024 }
    }
}

/// A buffer of `n` zero bytes.
fn zero_bytes(n: usize) -> (v: Vec<u8>)
    ensures
        v@ == Seq::new(n as nat, |i: int| 0u8),
{
    let mut v: Vec<u8> = Vec::new();
    let mut i: usize = 0;
    while i < n
        invariant
            i <= n,
            v@.len() == i,
            forall|j: int| 0 <= j < i ==> v@[j] == 0u8,
        decreases n - i,
    {
        v.push(0);
        i = i + 1;
    }
    proof {
        assert(v@ =~= Seq::new(n as nat, |i: int| 0u8));
    }
    v
}

/// A register file of `n` zeroed cells.
fn zero_words(n: usize) -> (v: Vec<u32>)
    ensures
        v@ == Seq::new(n as nat, |i: int| 0u32),
{
    let mut v: Vec<u32> = Vec::new();
    let mut i: usize = 0;
    while i < n
        invariant
            i <= n,
            v@.len() == i,
            forall|j: int| 0 <= j < i ==> v@[j] == 0u32,
        decreases n - i,
    {
        v.push(0);
        i = i + 1;
    }
    proof {
        assert(v@ =~= Seq::new(n as nat, |i: int| 0u32));
    }
    v
}

impl VM {
    /// The register file always holds exactly 32 cells.
    pub open spec fn wf(&self) -> bool {
        self.registers@.len() == 32
    }

    /// Constructs an engine with zeroed registers, zero-initialized memory
    /// and stack of the configured capacities, and nothing loaded. Fails
    /// with [`VMError::ConfigurationError`] unless both capacities are
    /// powers of two.
    pub fn new(args: InitVMArgs) -> (r: Result<VM, VMError>)
        ensures
            r matches Ok(vm) ==> {
                &&& vm.wf()
                &&& vm.registers@ == Seq::new(32, |i: int| 0u32)
                &&& vm.pc == 0
                &&& vm.memory@ == Seq::new(args.memory_size as nat, |i: int| 0u8)
                &&& vm.stack@ == Seq::new(args.stack_size as nat, |i: int| 0u8)
                &&& vm.data_variables@ =~= Seq::<(String, usize)>::empty()
                &&& vm.statements@ =~= Seq::<crate::ast::Statement>::empty()
                &&& vm.io_interruption is None
                &&& vm.memory_patch is None
            },
            r is Ok <==> is_power_of_two(args.memory_size as int) && is_power_of_two(
                args.stack_size as int,
            ),
            r matches Err(e) ==> e == VMError::ConfigurationError,
    {
        if let Err(e) = args.check_memory_size() {
            return Err(e);
        }
        Ok(
            VM {
                registers: zero_words(32),
                pc: 0,
                memory: zero_bytes(args.memory_size),
                stack: zero_bytes(args.stack_size),
                data_variables: Vec::new(),
                statements: Vec::new(),
                io_interruption: None,
                memory_patch: None,
            },
        )
    }
}

/// Decides [`is_power_of_two`] by halving until the argument is odd.
fn is_power_of_two_exec(n: usize) -> (b: bool)
    ensures
        b == is_power_of_two(n as int),
{
    if n == 0 {
        return false;
    }
    let mut m: usize = n;
    while m % 2 == 0
        invariant
            m >= 1,
            is_power_of_two(n as int) == is_power_of_two(m as int),
        decreases m,
    {
        m = m / 2;
    }
    m == 1
}

} // verus!
