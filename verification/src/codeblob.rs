//! The code buffer of one section: the generated bytes, the labels defined
//! in the section, and the relocations that wait for the global symbol table.

use vstd::prelude::*;
use vstd::string::*;
use vstd::utf8::*;
use crate::diagnostic::{diagnostic_views, Diagnostic, DiagnosticView};
use crate::model::{
    is_branch, AddrMode, AddrModeView, AsmStmt, DataPlacement, DataView, IndexMode, Instruction,
    InstructionView, MemRef, MemRefView, StmtView,
};
use crate::opcode::{
    get_opcode, opcode, SLOT_ABSOLUTE, SLOT_IMMEDIATE, SLOT_IMPLIED, SLOT_ZERO_PAGE,
};
use crate::symtab::SymbolTable;

verus! {

/// The largest number of bytes that a section holds. Every position in a
/// section, the one behind its last byte included, is a 16-bit offset.
pub const MAX_SECTION_SIZE: usize = 0xFFFF;

/// The two kinds of relocation.
#[derive(Debug, PartialEq, Eq, Copy, Clone, Structural)]
pub enum RelocKind {
    /// Two bytes that wait for an absolute address, low byte first.
    Absolute16,
    /// One byte that waits for a signed distance from the byte behind it.
    Relative8,
}

/// A place in a section's bytes that waits for the address of a symbol.
pub struct Relocation {
    name: String,
    offset: u16,
    kind: RelocKind,
}

/// A relocation with its name as a sequence of characters.
pub struct RelocView {
    pub name: Seq<char>,
    pub offset: u16,
    pub kind: RelocKind,
}

impl View for Relocation {
    type V = RelocView;

    closed spec fn view(&self) -> RelocView {
        RelocView { name: self.name@, offset: self.offset, kind: self.kind }
    }
}

/// The code buffer of one section.
pub struct CodeBlob {
    blob: Vec<u8>,
    symbols: SymbolTable,
    relocations: Vec<Relocation>,
}

/// What a code buffer holds.
pub struct BlobView {
    /// The generated code and data.
    pub bytes: Seq<u8>,
    /// The labels of the section, as offsets from its start.
    pub symbols: Map<Seq<char>, u16>,
    /// The pending relocations, in the order in which they were recorded.
    pub relocations: Seq<RelocView>,
}

impl View for CodeBlob {
    type V = BlobView;

    closed spec fn view(&self) -> BlobView {
        BlobView {
            bytes: self.blob@,
            symbols: self.symbols@,
            relocations: self.relocations@.map_values(|r: Relocation| r@),
        }
    }
}

/// The buffer without bytes, labels and relocations.
pub open spec fn empty_blob() -> BlobView {
    BlobView { bytes: Seq::empty(), symbols: Map::empty(), relocations: Seq::empty() }
}

/// The number of bytes that a relocation of a kind fills in.
pub open spec fn reloc_width(kind: RelocKind) -> int {
    match kind {
        RelocKind::Absolute16 => 2,
        RelocKind::Relative8 => 1,
    }
}

/// Whether every relocation lies within the bytes.
pub open spec fn relocations_fit(relocations: Seq<RelocView>, len: int) -> bool {
    forall|i: int|
        0 <= i < relocations.len() ==> (#[trigger] relocations[i]).offset + reloc_width(
            relocations[i].kind,
        ) <= len
}

/// Whether the relocations lie one behind the other, in their order: no
/// two of them on the same byte.
pub open spec fn relocations_apart(relocations: Seq<RelocView>) -> bool {
    forall|i: int, j: int|
        0 <= i < j < relocations.len() ==> (#[trigger] relocations[i]).offset + reloc_width(
            relocations[i].kind,
        ) <= (#[trigger] relocations[j]).offset
}

/// The validity of a buffer: it is no larger than a section may be, every
/// relocation lies within its bytes, and no two relocations lie on the same
/// byte.
pub open spec fn blob_wf(blob: BlobView) -> bool {
    &&& blob.bytes.len() <= MAX_SECTION_SIZE
    &&& relocations_fit(blob.relocations, blob.bytes.len() as int)
    &&& relocations_apart(blob.relocations)
}

/// The low byte of an address.
pub open spec fn lo(addr: u16) -> u8 {
    (addr % 256) as u8
}

/// The high byte of an address.
pub open spec fn hi(addr: u16) -> u8 {
    (addr / 256) as u8
}

/// The address that a memory reference stands for under a symbol table, if
/// it is known.
pub open spec fn resolve_ref(mem_ref: MemRefView, symbols: Map<Seq<char>, u16>) -> Option<u16> {
    match mem_ref {
        MemRefView::Addr(addr) => Some(addr),
        MemRefView::Variable(name) => if symbols.contains_key(name) {
            Some(symbols[name])
        } else {
            None
        },
    }
}

/// The distance of an indexed slot from the slot without index.
pub open spec fn index_shift(index: IndexMode) -> int {
    match index {
        IndexMode::NoIndex => 0,
        IndexMode::IndexedX => 1,
        IndexMode::IndexedY => 2,
    }
}

/// The addressing-mode slot of an operand: by its form and, for a memory
/// operand, by the width of its address. An address that is not known yet
/// takes the wide form.
pub open spec fn addressing_slot(mode: AddrModeView, symbols: Map<Seq<char>, u16>) -> int {
    match mode {
        AddrModeView::Implied => SLOT_IMPLIED as int,
        AddrModeView::Immediate(_) => SLOT_IMMEDIATE as int,
        AddrModeView::Memory(index, mem_ref) => match resolve_ref(mem_ref, symbols) {
            Some(addr) => if addr < 256 {
                SLOT_ZERO_PAGE + index_shift(index)
            } else {
                SLOT_ABSOLUTE + index_shift(index)
            },
            None => SLOT_ABSOLUTE + index_shift(index),
        },
    }
}

/// The relocation that an instruction leaves behind: none where its operand
/// is known, else one for the symbol, relative for a branch and absolute for
/// every other mnemonic.
pub open spec fn pending_kind(instruction: InstructionView, symbols: Map<Seq<char>, u16>) -> Option<
    RelocKind,
> {
    match instruction.addr_mode {
        AddrModeView::Memory(_, mem_ref) => match resolve_ref(mem_ref, symbols) {
            Some(_) => None,
            None => if is_branch(instruction.mnemonic) {
                Some(RelocKind::Relative8)
            } else {
                Some(RelocKind::Absolute16)
            },
        },
        _ => None,
    }
}

/// The bytes of an operand. An address that is not known yet leaves zero
/// bytes as wide as its relocation.
pub open spec fn operand_bytes(instruction: InstructionView, symbols: Map<Seq<char>, u16>) -> Seq<
    u8,
> {
    match instruction.addr_mode {
        AddrModeView::Implied => Seq::empty(),
        AddrModeView::Immediate(value) => seq![value],
        AddrModeView::Memory(_, mem_ref) => match resolve_ref(mem_ref, symbols) {
            Some(addr) => if addr < 256 {
                seq![addr as u8]
            } else {
                seq![lo(addr), hi(addr)]
            },
            None => if is_branch(instruction.mnemonic) {
                seq![0u8]
            } else {
                seq![0u8, 0u8]
            },
        },
    }
}

/// The machine code of an instruction: its opcode and its operand; `None`
/// where the mnemonic has no opcode under the slot of the operand.
pub open spec fn encoding(instruction: InstructionView, symbols: Map<Seq<char>, u16>) -> Option<
    Seq<u8>,
> {
    match opcode(
        instruction.mnemonic.spec_index(),
        addressing_slot(instruction.addr_mode, symbols),
    ) {
        Some(op) => Some(seq![op] + operand_bytes(instruction, symbols)),
        None => None,
    }
}

/// The name of the symbol that a memory operand refers to.
pub open spec fn operand_symbol(mode: AddrModeView) -> Seq<char> {
    match mode {
        AddrModeView::Memory(_, MemRefView::Variable(name)) => name,
        _ => Seq::empty(),
    }
}

/// The buffer after an instruction. The instruction is taken whole or not at
/// all: where it cannot be encoded or does not fit, the buffer stays as it is.
pub open spec fn after_instruction(
    blob: BlobView,
    instruction: InstructionView,
    symbols: Map<Seq<char>, u16>,
) -> BlobView {
    match encoding(instruction, symbols) {
        Some(code) => if blob.bytes.len() + code.len() <= MAX_SECTION_SIZE {
            BlobView {
                bytes: blob.bytes + code,
                symbols: blob.symbols,
                relocations: match pending_kind(instruction, symbols) {
                    Some(kind) => blob.relocations.push(
                        RelocView {
                            name: operand_symbol(instruction.addr_mode),
                            offset: (blob.bytes.len() + 1) as u16,
                            kind,
                        },
                    ),
                    None => blob.relocations,
                },
            }
        } else {
            blob
        },
        None => blob,
    }
}

/// The diagnostic that an instruction gives.
pub open spec fn instruction_diagnostic(
    blob: BlobView,
    instruction: InstructionView,
    symbols: Map<Seq<char>, u16>,
) -> Option<DiagnosticView> {
    match encoding(instruction, symbols) {
        Some(code) => if blob.bytes.len() + code.len() <= MAX_SECTION_SIZE {
            None
        } else {
            Some(DiagnosticView::SectionTooLarge)
        },
        None => Some(
            DiagnosticView::InvalidAddressingMode(
                instruction.mnemonic,
                addressing_slot(instruction.addr_mode, symbols) as usize,
            ),
        ),
    }
}

/// The bytes of placed data: a text in UTF-8 with a zero byte behind it, or
/// a word with its low byte first. The word of a symbol is left as zeros.
pub open spec fn data_bytes(data: DataView) -> Seq<u8> {
    match data {
        DataView::Str(text) => encode_utf8(text).push(0u8),
        DataView::Word(MemRefView::Addr(addr)) => seq![lo(addr), hi(addr)],
        DataView::Word(MemRefView::Variable(_)) => seq![0u8, 0u8],
    }
}

/// The buffer after placed data.
pub open spec fn after_data(blob: BlobView, data: DataView) -> BlobView {
    if blob.bytes.len() + data_bytes(data).len() <= MAX_SECTION_SIZE {
        BlobView {
            bytes: blob.bytes + data_bytes(data),
            symbols: blob.symbols,
            relocations: match data {
                DataView::Word(MemRefView::Variable(name)) => blob.relocations.push(
                    RelocView {
                        name,
                        offset: blob.bytes.len() as u16,
                        kind: RelocKind::Absolute16,
                    },
                ),
                _ => blob.relocations,
            },
        }
    } else {
        blob
    }
}

/// The diagnostic that placed data gives.
pub open spec fn data_diagnostic(blob: BlobView, data: DataView) -> Option<DiagnosticView> {
    if blob.bytes.len() + data_bytes(data).len() <= MAX_SECTION_SIZE {
        None
    } else {
        Some(DiagnosticView::SectionTooLarge)
    }
}

/// The buffer after a label: the name stands for the current end of the
/// bytes.
pub open spec fn after_label(blob: BlobView, name: Seq<char>) -> BlobView {
    BlobView {
        bytes: blob.bytes,
        symbols: blob.symbols.insert(name, blob.bytes.len() as u16),
        relocations: blob.relocations,
    }
}

/// The buffer after a statement. A constant label leaves it as it is.
pub open spec fn after_stmt(blob: BlobView, stmt: StmtView, symbols: Map<Seq<char>, u16>) -> BlobView {
    match stmt {
        StmtView::Instruction(instruction) => after_instruction(blob, instruction, symbols),
        StmtView::Data(data) => after_data(blob, data),
        StmtView::Label(name) => after_label(blob, name),
        StmtView::ConstLabel(_, _) => blob,
    }
}

/// The diagnostic that a statement gives.
pub open spec fn stmt_diagnostic(
    blob: BlobView,
    stmt: StmtView,
    symbols: Map<Seq<char>, u16>,
) -> Option<DiagnosticView> {
    match stmt {
        StmtView::Instruction(instruction) => instruction_diagnostic(blob, instruction, symbols),
        StmtView::Data(data) => data_diagnostic(blob, data),
        StmtView::Label(_) => None,
        StmtView::ConstLabel(_, _) => None,
    }
}

/// Whether a result carries exactly the diagnostic `expected`.
pub open spec fn reports(r: Result<(), Diagnostic>, expected: Option<DiagnosticView>) -> bool {
    match r {
        Ok(_) => expected is None,
        Err(d) => expected == Some(d@),
    }
}

/// The signed distance that a branch at `offset` of a section loaded at
/// `base` needs to reach `addr`: counted from the byte behind the operand.
pub open spec fn branch_delta(addr: u16, base: u16, offset: u16) -> int {
    addr - (base + offset + 1)
}

/// The byte that stands for a distance: the distance modulo 256.
pub open spec fn delta_byte(delta: int) -> u8 {
    (delta % 256) as u8
}

/// The bytes after one relocation. An undefined symbol leaves them as they
/// are; a branch that is too far still gets its truncated distance.
pub open spec fn patched(
    bytes: Seq<u8>,
    r: RelocView,
    base: u16,
    symbols: Map<Seq<char>, u16>,
) -> Seq<u8> {
    if symbols.contains_key(r.name) {
        match r.kind {
            RelocKind::Absolute16 => bytes.update(r.offset as int, lo(symbols[r.name])).update(
                r.offset + 1,
                hi(symbols[r.name]),
            ),
            RelocKind::Relative8 => bytes.update(
                r.offset as int,
                delta_byte(branch_delta(symbols[r.name], base, r.offset)),
            ),
        }
    } else {
        bytes
    }
}

/// The diagnostic that one relocation gives.
pub open spec fn relocation_diagnostic(
    r: RelocView,
    base: u16,
    symbols: Map<Seq<char>, u16>,
) -> Option<DiagnosticView> {
    if !symbols.contains_key(r.name) {
        Some(DiagnosticView::UndefinedSymbol(r.name))
    } else if r.kind == RelocKind::Relative8 && !(-128 <= branch_delta(
        symbols[r.name],
        base,
        r.offset,
    ) <= 127) {
        Some(DiagnosticView::BranchTooFar(r.name))
    } else {
        None
    }
}

/// The bytes after all relocations, applied in their order.
pub open spec fn resolved_bytes(
    bytes: Seq<u8>,
    relocations: Seq<RelocView>,
    base: u16,
    symbols: Map<Seq<char>, u16>,
) -> Seq<u8>
    decreases relocations.len(),
{
    if relocations.len() == 0 {
        bytes
    } else {
        patched(
            resolved_bytes(bytes, relocations.drop_last(), base, symbols),
            relocations.last(),
            base,
            symbols,
        )
    }
}

/// The diagnostics of all relocations, in their order.
pub open spec fn relocation_diagnostics(
    relocations: Seq<RelocView>,
    base: u16,
    symbols: Map<Seq<char>, u16>,
) -> Seq<DiagnosticView>
    decreases relocations.len(),
{
    if relocations.len() == 0 {
        Seq::empty()
    } else {
        let before = relocation_diagnostics(relocations.drop_last(), base, symbols);
        match relocation_diagnostic(relocations.last(), base, symbols) {
            Some(d) => before.push(d),
            None => before,
        }
    }
}

/// The buffer after a list of statements, taken in their order.
pub open spec fn generated(
    blob: BlobView,
    stmts: Seq<StmtView>,
    symbols: Map<Seq<char>, u16>,
) -> BlobView
    decreases stmts.len(),
{
    if stmts.len() == 0 {
        blob
    } else {
        after_stmt(generated(blob, stmts.drop_last(), symbols), stmts.last(), symbols)
    }
}

/// The diagnostics of a list of statements, in their order.
pub open spec fn generation_diagnostics(
    blob: BlobView,
    stmts: Seq<StmtView>,
    symbols: Map<Seq<char>, u16>,
) -> Seq<DiagnosticView>
    decreases stmts.len(),
{
    if stmts.len() == 0 {
        Seq::empty()
    } else {
        let before = generation_diagnostics(blob, stmts.drop_last(), symbols);
        match stmt_diagnostic(
            generated(blob, stmts.drop_last(), symbols),
            stmts.last(),
            symbols,
        ) {
            Some(d) => before.push(d),
            None => before,
        }
    }
}

/// Relocation keeps the number of bytes.
pub proof fn lemma_resolved_len(
    bytes: Seq<u8>,
    relocations: Seq<RelocView>,
    base: u16,
    symbols: Map<Seq<char>, u16>,
)
    requires
        relocations_fit(relocations, bytes.len() as int),
    ensures
        resolved_bytes(bytes, relocations, base, symbols).len() == bytes.len(),
    decreases relocations.len(),
{
    if relocations.len() > 0 {
        assert(relocations.drop_last().len() == relocations.len() - 1);
        assert forall|i: int| 0 <= i < relocations.drop_last().len() implies (
        #[trigger] relocations.drop_last()[i]).offset + reloc_width(relocations.drop_last()[i].kind)
            <= bytes.len() by {
            assert(relocations.drop_last()[i] == relocations[i]);
        }
        lemma_resolved_len(bytes, relocations.drop_last(), base, symbols);
        assert(relocations.last() == relocations[relocations.len() - 1]);
    }
}

fn shift_of(index: IndexMode) -> (r: usize)
    ensures
        r == index_shift(index),
{
    match index {
        IndexMode::NoIndex => 0,
        IndexMode::IndexedX => 1,
        IndexMode::IndexedY => 2,
    }
}

fn low_byte(addr: u16) -> (r: u8)
    ensures
        r == lo(addr),
{
    (addr % 256) as u8
}

fn high_byte(addr: u16) -> (r: u8)
    ensures
        r == hi(addr),
{
    (addr / 256) as u8
}

impl CodeBlob {
    /// The validity of the buffer.
    pub open spec fn wf(&self) -> bool {
        blob_wf(self@)
    }

    /// An empty buffer.
    pub fn new() -> (r: CodeBlob)
        ensures
            r.wf(),
            r@ == empty_blob(),
    {
        let r = CodeBlob { blob: Vec::new(), symbols: SymbolTable::new(), relocations: Vec::new() };
        assert(r@.relocations =~= Seq::empty());
        r
    }

    /// The number of bytes generated so far.
    pub fn size(&self) -> (n: usize)
        ensures
            n == self@.bytes.len(),
    {
        self.blob.len()
    }

    /// The labels of the section, as offsets from its start.
    pub fn symbols(&self) -> (table: &SymbolTable)
        ensures
            table@ == self@.symbols,
    {
        &self.symbols
    }

    /// The bytes generated so far.
    pub fn bytes(&self) -> (bytes: &Vec<u8>)
        ensures
            bytes@ == self@.bytes,
    {
        &self.blob
    }

    /// Moves the bytes to the end of `binary`. The buffer keeps its labels;
    /// its bytes and relocations are gone.
    pub fn dump(&mut self, binary: &mut Vec<u8>)
        ensures
            final(binary)@ == old(binary)@ + old(self)@.bytes,
            final(self)@ == (BlobView {
                bytes: Seq::empty(),
                symbols: old(self)@.symbols,
                relocations: Seq::empty(),
            }),
            final(self).wf(),
    {
        binary.append(&mut self.blob);
        self.relocations.clear();
        assert(self@.relocations =~= Seq::empty());
    }

    /// Generates the code of one statement. Symbols are looked up in
    /// `symbols`: the names that are known before any section is placed.
    pub fn gen_stmt(&mut self, stmt: &AsmStmt, symbols: &SymbolTable) -> (r: Result<(), Diagnostic>)
        requires
            old(self).wf(),
        ensures
            final(self).wf(),
            final(self)@ == after_stmt(old(self)@, stmt@, symbols@),
            reports(r, stmt_diagnostic(old(self)@, stmt@, symbols@)),
    {
        match stmt {
            AsmStmt::AsmInstruction(instruction) => self.gen_instruction(instruction, symbols),
            AsmStmt::Data(data) => self.gen_data(data),
            AsmStmt::Label(name) => {
                self.insert_label(name.as_str());
                Ok(())
            },
            AsmStmt::ConstLabel(_, _) => Ok(()),
        }
    }

    /// Records `name` as a label at the current end of the bytes.
    pub fn insert_label(&mut self, name: &str)
        requires
            old(self).wf(),
        ensures
            final(self).wf(),
            final(self)@ == after_label(old(self)@, name@),
    {
        let at: usize = self.blob.len();
        self.symbols.insert(name, at as u16);
    }

    fn push_relocation(&mut self, name: String, offset: u16, kind: RelocKind)
        ensures
            final(self)@ == (BlobView {
                bytes: old(self)@.bytes,
                symbols: old(self)@.symbols,
                relocations: old(self)@.relocations.push(RelocView { name: name@, offset, kind }),
            }),
    {
        self.relocations.push(Relocation { name, offset, kind });
        assert(self@.relocations =~= old(self)@.relocations.push(
            RelocView { name: name@, offset, kind },
        ));
    }

    fn push_bytes(&mut self, bytes: &[u8])
        ensures
            final(self)@ == (BlobView {
                bytes: old(self)@.bytes + bytes@,
                symbols: old(self)@.symbols,
                relocations: old(self)@.relocations,
            }),
    {
        let mut i: usize = 0;
        while i < bytes.len()
            invariant
                i <= bytes@.len(),
                self@.bytes == old(self)@.bytes + bytes@.take(i as int),
                self@.symbols == old(self)@.symbols,
                self@.relocations == old(self)@.relocations,
            decreases bytes@.len() - i,
        {
            self.blob.push(bytes[i]);
            assert(bytes@.take(i + 1) =~= bytes@.take(i as int).push(bytes@[i as int]));
            assert(self@.bytes =~= old(self)@.bytes + bytes@.take(i + 1));
            i += 1;
        }
        assert(bytes@.take(i as int) =~= bytes@);
    }

    /// Places data at the end of the bytes.
    pub fn gen_data(&mut self, data: &DataPlacement) -> (r: Result<(), Diagnostic>)
        requires
            old(self).wf(),
        ensures
            final(self).wf(),
            final(self)@ == after_data(old(self)@, data@),
            reports(r, data_diagnostic(old(self)@, data@)),
    {
        let room: usize = MAX_SECTION_SIZE - self.blob.len();
        match data {
            DataPlacement::Str(text) => {
                let bytes = text.as_str().as_bytes();
                if bytes.len() >= room {
                    return Err(Diagnostic::SectionTooLarge);
                }
                self.push_bytes(bytes);
                self.blob.push(0u8);
                assert(self@.bytes =~= old(self)@.bytes + data_bytes(data@));
                Ok(())
            },
            DataPlacement::Word(MemRef::Addr(addr)) => {
                if room < 2 {
                    assert(data_bytes(data@).len() == 2);
                    return Err(Diagnostic::SectionTooLarge);
                }
                self.blob.push(low_byte(*addr));
                self.blob.push(high_byte(*addr));
                assert(self@.bytes =~= old(self)@.bytes + data_bytes(data@));
                Ok(())
            },
            DataPlacement::Word(MemRef::Variable(name)) => {
                if room < 2 {
                    assert(data_bytes(data@).len() == 2);
                    return Err(Diagnostic::SectionTooLarge);
                }
                let at: usize = self.blob.len();
                self.blob.push(0u8);
                self.blob.push(0u8);
                assert(self@.bytes =~= old(self)@.bytes + data_bytes(data@));
                self.push_relocation(name.clone(), at as u16, RelocKind::Absolute16);
                Ok(())
            },
        }
    }

    /// Encodes one instruction at the end of the bytes. A memory operand
    /// whose address `symbols` knows is encoded by its width; one whose
    /// address is not known yet takes the wide form and leaves a relocation
    /// at its operand.
    pub fn gen_instruction(&mut self, instruction: &Instruction, symbols: &SymbolTable) -> (r:
        Result<(), Diagnostic>)
        requires
            old(self).wf(),
        ensures
            final(self).wf(),
            final(self)@ == after_instruction(old(self)@, instruction@, symbols@),
            reports(r, instruction_diagnostic(old(self)@, instruction@, symbols@)),
    {
        let mut operand: Vec<u8> = Vec::new();
        let mut pending: Option<(String, RelocKind)> = None;
        let slot: usize = match instruction.addr_mode() {
            AddrMode::Implied => SLOT_IMPLIED,
            AddrMode::Immediate(value) => {
                operand.push(value);
                SLOT_IMMEDIATE
            },
            AddrMode::Memory(index, mem_ref) => {
                let resolved: Option<u16> = match &mem_ref {
                    MemRef::Addr(addr) => Some(*addr),
                    MemRef::Variable(name) => symbols.find(name.as_str()),
                };
                match resolved {
                    Some(addr) => {
                        if addr < 256 {
                            operand.push(addr as u8);
                            SLOT_ZERO_PAGE + shift_of(index)
                        } else {
                            operand.push(low_byte(addr));
                            operand.push(high_byte(addr));
                            SLOT_ABSOLUTE + shift_of(index)
                        }
                    },
                    None => {
                        let kind = if instruction.has_rel_addressing() {
                            operand.push(0u8);
                            RelocKind::Relative8
                        } else {
                            operand.push(0u8);
                            operand.push(0u8);
                            RelocKind::Absolute16
                        };
                        match mem_ref {
                            MemRef::Variable(name) => {
                                pending = Some((name, kind));
                            },
                            MemRef::Addr(_) => {},
                        }
                        SLOT_ABSOLUTE + shift_of(index)
                    },
                }
            },
        };
        assert(slot == addressing_slot(instruction@.addr_mode, symbols@));
        assert(operand@ =~= operand_bytes(instruction@, symbols@));
        assert(match pending {
            Some((name, kind)) => pending_kind(instruction@, symbols@) == Some(kind) && name@
                == operand_symbol(instruction@.addr_mode) && operand@.len() == reloc_width(kind),
            None => pending_kind(instruction@, symbols@) is None,
        });
        match get_opcode(instruction.mnemonic_index(), slot) {
            Some(op) => {
                let at: usize = self.blob.len() + 1;
                if operand.len() + at > MAX_SECTION_SIZE {
                    return Err(Diagnostic::SectionTooLarge);
                }
                self.blob.push(op);
                self.blob.append(&mut operand);
                assert(self@.bytes =~= old(self)@.bytes + (seq![op] + operand_bytes(
                    instruction@,
                    symbols@,
                )));
                match pending {
                    Some((name, kind)) => {
                        self.push_relocation(name, at as u16, kind);
                    },
                    None => {},
                }
                Ok(())
            },
            None => Err(Diagnostic::InvalidAddressingMode(instruction.mnemonic(), slot)),
        }
    }

    /// Fills in the relocations of the section, loaded at `base_addr`, from
    /// the global symbol table. Every relocation is tried; the diagnostics
    /// come back in the order of the relocations.
    pub fn resolve_symbols(&mut self, base_addr: u16, global_symbols: &SymbolTable) -> (r: Vec<
        Diagnostic,
    >)
        requires
            old(self).wf(),
        ensures
            final(self).wf(),
            final(self)@.bytes.len() == old(self)@.bytes.len(),
            final(self)@ == (BlobView {
                bytes: resolved_bytes(
                    old(self)@.bytes,
                    old(self)@.relocations,
                    base_addr,
                    global_symbols@,
                ),
                symbols: old(self)@.symbols,
                relocations: old(self)@.relocations,
            }),
            diagnostic_views(r@) == relocation_diagnostics(
                old(self)@.relocations,
                base_addr,
                global_symbols@,
            ),
    {
        let mut diagnostics: Vec<Diagnostic> = Vec::new();
        let ghost relocations = self@.relocations;
        let mut i: usize = 0;
        assert(relocations.take(0) =~= Seq::empty());
        assert(diagnostic_views(diagnostics@) =~= Seq::empty());
        while i < self.relocations.len()
            invariant
                i <= self.relocations@.len(),
                relocations == old(self)@.relocations,
                self@.relocations == relocations,
                self@.symbols == old(self)@.symbols,
                self@.bytes.len() == old(self)@.bytes.len(),
                old(self).wf(),
                self@.bytes == resolved_bytes(
                    old(self)@.bytes,
                    relocations.take(i as int),
                    base_addr,
                    global_symbols@,
                ),
                diagnostic_views(diagnostics@) == relocation_diagnostics(
                    relocations.take(i as int),
                    base_addr,
                    global_symbols@,
                ),
            decreases self.relocations@.len() - i,
        {
            let ghost before = diagnostics@;
            assert(relocations.take(i + 1).drop_last() =~= relocations.take(i as int));
            assert(relocations.take(i + 1).last() == relocations[i as int]);
            assert(relocations[i as int] == self.relocations@[i as int]@);
            let offset: usize = self.relocations[i].offset as usize;
            match global_symbols.find(self.relocations[i].name.as_str()) {
                Some(addr) => {
                    match self.relocations[i].kind {
                        RelocKind::Absolute16 => {
                            self.blob[offset] = low_byte(addr);
                            self.blob[offset + 1] = high_byte(addr);
                        },
                        RelocKind::Relative8 => {
                            let delta: i32 = addr as i32 - (base_addr as i32 + offset as i32 + 1);
                            self.blob[offset] = ((delta + 0x20000) % 256) as u8;
                            if delta < -128 || delta > 127 {
                                diagnostics.push(
                                    Diagnostic::BranchTooFar(self.relocations[i].name.clone()),
                                );
                            }
                        },
                    }
                },
                None => {
                    diagnostics.push(Diagnostic::UndefinedSymbol(self.relocations[i].name.clone()));
                },
            }
            assert(diagnostic_views(diagnostics@) =~= relocation_diagnostics(
                relocations.take(i + 1),
                base_addr,
                global_symbols@,
            )) by {
                if diagnostics@.len() > before.len() {
                    assert(diagnostics@ =~= before.push(diagnostics@.last()));
                    assert(diagnostic_views(diagnostics@) =~= diagnostic_views(before).push(
                        diagnostics@.last()@,
                    ));
                }
            }
            i += 1;
        }
        assert(relocations.take(i as int) =~= relocations);
        diagnostics
    }
}

} // verus!
