//! The statements that the parser produces and the code generator consumes.

use vstd::prelude::*;
use crate::mnemonic::Mnemonic;
use crate::opcode::{get_opcode, opcode, SLOT_RELATIVE};
use crate::text::{to_uppercase, uppercase};

verus! {

/// The index register of a memory operand.
#[derive(Debug, PartialEq, Eq, Copy, Clone, Structural)]
pub enum IndexMode {
    IndexedX,
    IndexedY,
    NoIndex,
}

/// A reference to memory: a symbol or a literal address.
#[derive(Debug, PartialEq)]
pub enum MemRef {
    Variable(String),
    Addr(u16),
}

/// A memory reference with its name as a sequence of characters.
pub enum MemRefView {
    Variable(Seq<char>),
    Addr(u16),
}

impl View for MemRef {
    type V = MemRefView;

    open spec fn view(&self) -> MemRefView {
        match self {
            MemRef::Variable(name) => MemRefView::Variable(name@),
            MemRef::Addr(addr) => MemRefView::Addr(*addr),
        }
    }
}

impl Clone for MemRef {
    fn clone(&self) -> (r: MemRef)
        ensures
            r == *self,
    {
        match self {
            MemRef::Variable(name) => MemRef::Variable(name.clone()),
            MemRef::Addr(addr) => MemRef::Addr(*addr),
        }
    }
}

/// The operand of an instruction as it was written.
#[derive(Debug, PartialEq)]
pub enum AddrMode {
    Implied,
    Immediate(u8),
    Memory(IndexMode, MemRef),
}

/// An operand with its names as sequences of characters.
pub enum AddrModeView {
    Implied,
    Immediate(u8),
    Memory(IndexMode, MemRefView),
}

impl View for AddrMode {
    type V = AddrModeView;

    open spec fn view(&self) -> AddrModeView {
        match self {
            AddrMode::Implied => AddrModeView::Implied,
            AddrMode::Immediate(value) => AddrModeView::Immediate(*value),
            AddrMode::Memory(index, mem_ref) => AddrModeView::Memory(*index, mem_ref@),
        }
    }
}

impl Clone for AddrMode {
    fn clone(&self) -> (r: AddrMode)
        ensures
            r == *self,
    {
        match self {
            AddrMode::Implied => AddrMode::Implied,
            AddrMode::Immediate(value) => AddrMode::Immediate(*value),
            AddrMode::Memory(index, mem_ref) => AddrMode::Memory(*index, mem_ref.clone()),
        }
    }
}

/// One instruction: a mnemonic and its operand.
#[derive(Debug, PartialEq)]
pub struct Instruction {
    mnemonic: Mnemonic,
    addr_mode: AddrMode,
}

/// An instruction with its names as sequences of characters.
pub struct InstructionView {
    pub mnemonic: Mnemonic,
    pub addr_mode: AddrModeView,
}

impl View for Instruction {
    type V = InstructionView;

    closed spec fn view(&self) -> InstructionView {
        InstructionView { mnemonic: self.mnemonic, addr_mode: self.addr_mode@ }
    }
}

/// The mnemonic that a name in upper case stands for; `Invalid` where no
/// mnemonic carries the name.
pub open spec fn mnemonic_of(name: Seq<char>) -> Mnemonic {
    match Mnemonic::named(name) {
        Some(m) => m,
        None => Mnemonic::Invalid,
    }
}

/// Whether a mnemonic is a branch: whether it has an opcode under the
/// relative slot.
pub open spec fn is_branch(m: Mnemonic) -> bool {
    opcode(m.spec_index(), SLOT_RELATIVE as int) is Some
}

impl Instruction {
    /// An instruction from a mnemonic's name, in any case of letters, and an
    /// operand. A name that is no mnemonic gives `Mnemonic::Invalid`.
    pub fn new(mnemonic: String, addr_mode: AddrMode) -> (r: Instruction)
        ensures
            r@.mnemonic == mnemonic_of(uppercase(mnemonic@)),
            r@.addr_mode == addr_mode@,
    {
        let upper = to_uppercase(mnemonic.as_str());
        Instruction::with_mnemonic(Instruction::mnemonic_named(upper.as_str()), addr_mode)
    }

    /// The mnemonic that a name in upper case stands for.
    pub fn mnemonic_named(name: &str) -> (m: Mnemonic)
        ensures
            m == mnemonic_of(name@),
    {
        match Mnemonic::from_name(name) {
            Some(m) => m,
            None => Mnemonic::Invalid,
        }
    }

    /// An instruction from a mnemonic and an operand.
    pub fn with_mnemonic(mnemonic: Mnemonic, addr_mode: AddrMode) -> (r: Instruction)
        ensures
            r@.mnemonic == mnemonic,
            r@.addr_mode == addr_mode@,
    {
        Instruction { mnemonic, addr_mode }
    }

    /// The mnemonic.
    pub fn mnemonic(&self) -> (m: Mnemonic)
        ensures
            m == self@.mnemonic,
    {
        self.mnemonic
    }

    /// A copy of the operand.
    pub fn addr_mode(&self) -> (r: AddrMode)
        ensures
            r@ == self@.addr_mode,
    {
        self.addr_mode.clone()
    }

    /// The position of the mnemonic in the instruction table.
    pub fn mnemonic_index(&self) -> (r: usize)
        ensures
            r == self@.mnemonic.spec_index(),
    {
        self.mnemonic.index()
    }

    /// Whether the instruction is a branch relative to the program counter.
    pub fn has_rel_addressing(&self) -> (r: bool)
        ensures
            r == is_branch(self@.mnemonic),
    {
        get_opcode(self.mnemonic_index(), SLOT_RELATIVE).is_some()
    }
}

/// Data placed in a section.
#[derive(Debug, PartialEq)]
pub enum DataPlacement {
    /// A text, stored with a zero byte after it.
    Str(String),
    /// A 16-bit word: a literal address or the address of a symbol.
    Word(MemRef),
}

/// Placed data with its texts as sequences of characters.
pub enum DataView {
    Str(Seq<char>),
    Word(MemRefView),
}

impl View for DataPlacement {
    type V = DataView;

    open spec fn view(&self) -> DataView {
        match self {
            DataPlacement::Str(text) => DataView::Str(text@),
            DataPlacement::Word(mem_ref) => DataView::Word(mem_ref@),
        }
    }
}

/// One statement of a section.
#[derive(Debug, PartialEq)]
pub enum AsmStmt {
    AsmInstruction(Instruction),
    Data(DataPlacement),
    /// Names the current position in the section.
    Label(String),
    /// Binds a name to a fixed address.
    ConstLabel(String, u16),
}

/// A statement with its names as sequences of characters.
pub enum StmtView {
    Instruction(InstructionView),
    Data(DataView),
    Label(Seq<char>),
    ConstLabel(Seq<char>, u16),
}

impl View for AsmStmt {
    type V = StmtView;

    open spec fn view(&self) -> StmtView {
        match self {
            AsmStmt::AsmInstruction(instruction) => StmtView::Instruction(instruction@),
            AsmStmt::Data(data) => StmtView::Data(data@),
            AsmStmt::Label(name) => StmtView::Label(name@),
            AsmStmt::ConstLabel(name, addr) => StmtView::ConstLabel(name@, *addr),
        }
    }
}

impl AsmStmt {
    /// An instruction statement from a mnemonic's name and an operand.
    pub fn new_instr(mnemonic: String, addr_mode: AddrMode) -> (r: AsmStmt)
        ensures
            r@ == StmtView::Instruction(
                InstructionView {
                    mnemonic: mnemonic_of(uppercase(mnemonic@)),
                    addr_mode: addr_mode@,
                },
            ),
    {
        AsmStmt::AsmInstruction(Instruction::new(mnemonic, addr_mode))
    }

    /// A label statement.
    pub fn new_label(name: String) -> (r: AsmStmt)
        ensures
            r@ == StmtView::Label(name@),
    {
        AsmStmt::Label(name)
    }

    /// A statement that binds `name` to the address `addr`.
    pub fn new_const_label(name: String, addr: u16) -> (r: AsmStmt)
        ensures
            r@ == StmtView::ConstLabel(name@, addr),
    {
        AsmStmt::ConstLabel(name, addr)
    }
}

/// The views of a list of statements.
pub open spec fn stmt_views(stmts: Seq<AsmStmt>) -> Seq<StmtView> {
    stmts.map_values(|stmt: AsmStmt| stmt@)
}

} // verus!
