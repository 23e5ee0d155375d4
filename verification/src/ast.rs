//! The structured program representation the engine consumes: an ordered
//! data section of named, typed variables and an ordered text section of
//! label and instruction statements with a declared entry label. The engine
//! never mutates a program; the external parser produces it.
//!
//! Each node carries a mathematical view (its `DeepView`) over which the
//! engine's contracts are stated: strings become character sequences and
//! vectors become sequences.
use vstd::prelude::*;

verus! {

/// The declared type of a data variable. Only text payloads are supported.
#[derive(Clone, Copy, Debug, PartialEq, Eq, Structural)]
pub enum Type {
    Asciiz,
}

/// The payload of a data variable: text, encoded into memory as its raw
/// character bytes with no implicit terminator.
#[derive(Debug, PartialEq)]
pub enum Value {
    String(String),
}

/// Mathematical view of [`Value`].
#[verifier::ext_equal]
pub enum ValueView {
    String(Seq<char>),
}

/// A named, typed data variable of the program's data section.
#[derive(Debug, PartialEq)]
pub struct Variable {
    pub name: String,
    pub type_: Type,
    pub value: Value,
}

/// Mathematical view of [`Variable`].
#[verifier::ext_equal]
pub struct VariableView {
    pub name: Seq<char>,
    pub type_: Type,
    pub value: ValueView,
}

/// A symbolic register reference, resolved through the fixed name table.
#[derive(Debug, PartialEq)]
pub struct Register {
    pub name: String,
}

/// One operand of an instruction.
#[derive(Debug, PartialEq)]
pub enum InstructionArgument {
    Register(Register),
    Immediate(u32),
    Label(String),
}

/// Mathematical view of [`InstructionArgument`]; a register reference is
/// its name.
#[verifier::ext_equal]
pub enum ArgumentView {
    Register(Seq<char>),
    Immediate(u32),
    Label(Seq<char>),
}

/// One instruction of the text section. The engine implements `li`, `la`,
/// `syscall`, `move` and `add`; the remaining opcodes dispatch to a
/// recoverable not-implemented failure.
#[derive(Debug, PartialEq)]
pub enum Instruction {
    Li(Vec<InstructionArgument>),
    La(Vec<InstructionArgument>),
    Syscall,
    Move(Vec<InstructionArgument>),
    Jal(Vec<InstructionArgument>),
    Beq(Vec<InstructionArgument>),
    Sub(Vec<InstructionArgument>),
    Add(Vec<InstructionArgument>),
    Jr(Vec<InstructionArgument>),
    Addi(Vec<InstructionArgument>),
    Andi(Vec<InstructionArgument>),
    J(Vec<InstructionArgument>),
}

/// Mathematical view of [`Instruction`].
#[verifier::ext_equal]
pub enum InstructionView {
    Li(Seq<ArgumentView>),
    La(Seq<ArgumentView>),
    Syscall,
    Move(Seq<ArgumentView>),
    Jal(Seq<ArgumentView>),
    Beq(Seq<ArgumentView>),
    Sub(Seq<ArgumentView>),
    Add(Seq<ArgumentView>),
    Jr(Seq<ArgumentView>),
    Addi(Seq<ArgumentView>),
    Andi(Seq<ArgumentView>),
    J(Seq<ArgumentView>),
}

/// One statement of the text section: a label marker or an instruction.
#[derive(Debug, PartialEq)]
pub enum Statement {
    Instruction(Instruction),
    Label(String),
}

/// Mathematical view of [`Statement`].
#[verifier::ext_equal]
pub enum StatementView {
    Instruction(InstructionView),
    Label(Seq<char>),
}

/// The program's static named payloads, laid into memory at load time.
#[derive(Debug, PartialEq)]
pub struct DataSection {
    pub variables: Vec<Variable>,
}

/// The program's ordered statements and its declared entry label.
#[derive(Debug, PartialEq)]
pub struct TextSection {
    pub statements: Vec<Statement>,
    pub entrypoint: String,
}

/// A complete parsed program.
#[derive(Debug, PartialEq)]
pub struct Program {
    pub data_section: DataSection,
    pub text_section: TextSection,
}

/// Mathematical view of [`DataSection`].
#[verifier::ext_equal]
pub struct DataSectionView {
    pub variables: Seq<VariableView>,
}

/// Mathematical view of [`TextSection`].
#[verifier::ext_equal]
pub struct TextSectionView {
    pub statements: Seq<StatementView>,
    pub entrypoint: Seq<char>,
}

/// Mathematical view of [`Program`].
#[verifier::ext_equal]
pub struct ProgramView {
    pub data_section: DataSectionView,
    pub text_section: TextSectionView,
}

impl DeepView for DataSection {
    type V = DataSectionView;

    open spec fn deep_view(&self) -> DataSectionView {
        DataSectionView { variables: self.variables.deep_view() }
    }
}

impl DeepView for TextSection {
    type V = TextSectionView;

    open spec fn deep_view(&self) -> TextSectionView {
        TextSectionView {
            statements: self.statements.deep_view(),
            entrypoint: self.entrypoint@,
        }
    }
}

impl DeepView for Program {
    type V = ProgramView;

    open spec fn deep_view(&self) -> ProgramView {
        ProgramView {
            data_section: self.data_section.deep_view(),
            text_section: self.text_section.deep_view(),
        }
    }
}

impl DeepView for Value {
    type V = ValueView;

    open spec fn deep_view(&self) -> ValueView {
        match self {
            Value::String(s) => ValueView::String(s@),
        }
    }
}

impl DeepView for Variable {
    type V = VariableView;

    open spec fn deep_view(&self) -> VariableView {
        VariableView { name: self.name@, type_: self.type_, value: self.value.deep_view() }
    }
}

impl DeepView for Register {
    type V = Seq<char>;

    open spec fn deep_view(&self) -> Seq<char> {
        self.name@
    }
}

impl DeepView for InstructionArgument {
    type V = ArgumentView;

    open spec fn deep_view(&self) -> ArgumentView {
        match self {
            InstructionArgument::Register(r) => ArgumentView::Register(r.name@),
            InstructionArgument::Immediate(i) => ArgumentView::Immediate(*i),
            InstructionArgument::Label(l) => ArgumentView::Label(l@),
        }
    }
}

impl DeepView for Instruction {
    type V = InstructionView;

    open spec fn deep_view(&self) -> InstructionView {
        match self {
            Instruction::Li(args) => InstructionView::Li(args.deep_view()),
            Instruction::La(args) => InstructionView::La(args.deep_view()),
            Instruction::Syscall => InstructionView::Syscall,
            Instruction::Move(args) => InstructionView::Move(args.deep_view()),
            Instruction::Jal(args) => InstructionView::Jal(args.deep_view()),
            Instruction::Beq(args) => InstructionView::Beq(args.deep_view()),
            Instruction::Sub(args) => InstructionView::Sub(args.deep_view()),
            Instruction::Add(args) => InstructionView::Add(args.deep_view()),
            Instruction::Jr(args) => InstructionView::Jr(args.deep_view()),
            Instruction::Addi(args) => InstructionView::Addi(args.deep_view()),
            Instruction::Andi(args) => InstructionView::Andi(args.deep_view()),
            Instruction::J(args) => InstructionView::J(args.deep_view()),
        }
    }
}

impl DeepView for Statement {
    type V = StatementView;

    open spec fn deep_view(&self) -> StatementView {
        match self {
            Statement::Instruction(instruction) => StatementView::Instruction(
                instruction.deep_view(),
            ),
            Statement::Label(label) => StatementView::Label(label@),
        }
    }
}

impl Clone for Register {
    fn clone(&self) -> (res: Self)
        ensures
            res == *self,
    {
        Register { name: self.name.clone() }
    }
}

impl Clone for InstructionArgument {
    fn clone(&self) -> (res: Self)
        ensures
            res == *self,
    {
        match self {
            InstructionArgument::Register(r) => InstructionArgument::Register(r.clone()),
            InstructionArgument::Immediate(i) => InstructionArgument::Immediate(*i),
            InstructionArgument::Label(l) => InstructionArgument::Label(l.clone()),
        }
    }
}

/// Clones an argument list element by element, preserving it exactly.
fn clone_args(args: &Vec<InstructionArgument>) -> (res: Vec<InstructionArgument>)
    ensures
        res@ == args@,
        res.deep_view() == args.deep_view(),
{
    let mut out: Vec<InstructionArgument> = Vec::new();
    let mut i: usize = 0;
    while i < args.len()
        invariant
            i <= args.len(),
            out@ == args@.subrange(0, i as int),
        decreases args.len() - i,
    {
        out.push(args[i].clone());
        i = i + 1;
    }
    proof {
        assert(out@ =~= args@);
        assert(out.deep_view() =~= args.deep_view());
    }
    out
}

impl Clone for Instruction {
    fn clone(&self) -> (res: Self)
        ensures
            res.deep_view() == self.deep_view(),
    {
        match self {
            Instruction::Li(args) => Instruction::Li(clone_args(args)),
            Instruction::La(args) => Instruction::La(clone_args(args)),
            Instruction::Syscall => Instruction::Syscall,
            Instruction::Move(args) => Instruction::Move(clone_args(args)),
            Instruction::Jal(args) => Instruction::Jal(clone_args(args)),
            Instruction::Beq(args) => Instruction::Beq(clone_args(args)),
            Instruction::Sub(args) => Instruction::Sub(clone_args(args)),
            Instruction::Add(args) => Instruction::Add(clone_args(args)),
            Instruction::Jr(args) => Instruction::Jr(clone_args(args)),
            Instruction::Addi(args) => Instruction::Addi(clone_args(args)),
            Instruction::Andi(args) => Instruction::Andi(clone_args(args)),
            Instruction::J(args) => Instruction::J(clone_args(args)),
        }
    }
}

impl Clone for Statement {
    fn clone(&self) -> (res: Self)
        ensures
            res.deep_view() == self.deep_view(),
    {
        match self {
            Statement::Instruction(instruction) => Statement::Instruction(instruction.clone()),
            Statement::Label(label) => Statement::Label(label.clone()),
        }
    }
}

} // verus!
