//! Laws of encoding, relocation and layout, proved from the definitions
//! that the contracts of the code generator use.

use vstd::prelude::*;
use crate::codeblob::{
    addressing_slot, after_instruction, after_stmt, blob_wf, branch_delta, delta_byte, empty_blob, encoding,
    generated, hi, index_shift, instruction_diagnostic, lemma_resolved_len, lo, operand_bytes,
    patched, relocation_diagnostic, relocations_apart, relocations_fit, reloc_width,
    resolve_ref, resolved_bytes,
    BlobView, RelocKind, RelocView, MAX_SECTION_SIZE,
};
use crate::codegen::{
    base_of, blob_of, cursor_after, generated_section, generated_sections, image_of,
    image_start, lemma_cursor_same, lemma_relocated_shape, lemma_section_index_found,
    lemma_section_index_names, lemma_with_section, link_outcome, load_address, merged_symbols,
    relocated, stmts_of, with_section,
    relocation_report, section_index, sections_wf, with_constants, with_section_constants, zeros,
    SectionView, ADDRESS_SPACE,
};
use crate::diagnostic::DiagnosticView;
use crate::ldscript::LdView;
use crate::mnemonic::Mnemonic;
use crate::model::{is_branch, AddrModeView, IndexMode, InstructionView, MemRefView, StmtView};
use crate::opcode::{table_cell, SLOT_ABSOLUTE, SLOT_RELATIVE, SLOT_ZERO_PAGE};
use crate::symtab::{offset_addr, register_bank};

verus! {

/// Where the instruction table holds an opcode for a mnemonic under a slot,
/// an instruction of that mnemonic whose operand has the form of the slot is
/// encoded as that opcode, followed by its operand. Where it fits into the
/// section, the opcode is the first byte that it adds; where it does not,
/// it adds nothing and the section is reported as too large.
pub proof fn lemma_encoding_uses_table(
    blob: BlobView,
    instruction: InstructionView,
    symbols: Map<Seq<char>, u16>,
    slot: int,
    op: u8,
)
    requires
        addressing_slot(instruction.addr_mode, symbols) == slot,
        table_cell(instruction.mnemonic, slot) == Some(op),
    ensures
        encoding(instruction, symbols) == Some(seq![op] + operand_bytes(instruction, symbols)),
        blob.bytes.len() + 1 + operand_bytes(instruction, symbols).len() <= MAX_SECTION_SIZE
            ==> after_instruction(blob, instruction, symbols).bytes == blob.bytes + (seq![op]
            + operand_bytes(instruction, symbols)) && after_instruction(
            blob,
            instruction,
            symbols,
        ).bytes[blob.bytes.len() as int] == op,
        blob.bytes.len() + 1 + operand_bytes(instruction, symbols).len() > MAX_SECTION_SIZE
            ==> after_instruction(blob, instruction, symbols) == blob && instruction_diagnostic(
            blob,
            instruction,
            symbols,
        ) == Some(DiagnosticView::SectionTooLarge),
{
}

/// A branch has an opcode under the relative slot only.
pub proof fn lemma_branch_cells(m: Mnemonic, slot: int)
    requires
        is_branch(m),
        slot != SLOT_RELATIVE,
    ensures
        table_cell(m, slot) is None,
{
}

/// A branch with a memory operand is encoded as its opcode under the
/// relative slot, followed by its operand.
pub proof fn lemma_branch_encoding(
    instruction: InstructionView,
    symbols: Map<Seq<char>, u16>,
    op: u8,
)
    requires
        table_cell(instruction.mnemonic, SLOT_RELATIVE as int) == Some(op),
        instruction.addr_mode is Memory,
    ensures
        encoding(instruction, symbols) == Some(seq![op] + operand_bytes(instruction, symbols)),
        encoding(instruction, symbols)->0[0] == op,
{
    lemma_branch_cells(instruction.mnemonic, addressing_slot(instruction.addr_mode, symbols));
}

/// A branch to a symbol that is not known yet is two bytes, its opcode and
/// a zero, and leaves a relative relocation for the symbol at its second
/// byte.
pub proof fn lemma_branch_leaves_relocation(
    blob: BlobView,
    instruction: InstructionView,
    symbols: Map<Seq<char>, u16>,
    index: IndexMode,
    name: Seq<char>,
    op: u8,
)
    requires
        table_cell(instruction.mnemonic, SLOT_RELATIVE as int) == Some(op),
        instruction.addr_mode == AddrModeView::Memory(index, MemRefView::Variable(name)),
        !symbols.contains_key(name),
        blob.bytes.len() + 2 <= MAX_SECTION_SIZE,
    ensures
        after_instruction(blob, instruction, symbols).bytes == blob.bytes + seq![op, 0u8],
        after_instruction(blob, instruction, symbols).relocations == blob.relocations.push(
            RelocView {
                name,
                offset: (blob.bytes.len() + 1) as u16,
                kind: RelocKind::Relative8,
            },
        ),
        instruction_diagnostic(blob, instruction, symbols) is None,
{
    lemma_branch_encoding(instruction, symbols, op);
    assert(seq![op] + seq![0u8] =~= seq![op, 0u8]);
}

/// A memory operand whose address is known and below 256 takes the
/// zero-page slot of its index and one byte; one whose address is known and
/// not below 256 takes the absolute slot of its index and two bytes, low
/// byte first.
pub proof fn lemma_known_operand_width(
    instruction: InstructionView,
    symbols: Map<Seq<char>, u16>,
    index: IndexMode,
    mem_ref: MemRefView,
    addr: u16,
)
    requires
        instruction.addr_mode == AddrModeView::Memory(index, mem_ref),
        resolve_ref(mem_ref, symbols) == Some(addr),
    ensures
        addr < 256 ==> addressing_slot(instruction.addr_mode, symbols) == SLOT_ZERO_PAGE
            + index_shift(index) && operand_bytes(instruction, symbols) == seq![addr as u8],
        addr >= 256 ==> addressing_slot(instruction.addr_mode, symbols) == SLOT_ABSOLUTE
            + index_shift(index) && operand_bytes(instruction, symbols) == seq![
            lo(addr),
            hi(addr),
        ],
{
}

/// A memory operand whose address is not known yet takes the absolute slot
/// of its index; unless the mnemonic is a branch, its operand is two zero
/// bytes.
pub proof fn lemma_unknown_operand_width(
    instruction: InstructionView,
    symbols: Map<Seq<char>, u16>,
    index: IndexMode,
    mem_ref: MemRefView,
)
    requires
        instruction.addr_mode == AddrModeView::Memory(index, mem_ref),
        resolve_ref(mem_ref, symbols) is None,
    ensures
        addressing_slot(instruction.addr_mode, symbols) == SLOT_ABSOLUTE + index_shift(index),
        !is_branch(instruction.mnemonic) ==> operand_bytes(instruction, symbols) == seq![
            0u8,
            0u8,
        ],
        is_branch(instruction.mnemonic) ==> operand_bytes(instruction, symbols) == seq![0u8],
{
}

/// A branch to a label of its own section: wherever the section is loaded,
/// the byte of the branch becomes the distance from the byte behind it to
/// the label, modulo 256, and the branch is reported as too far exactly
/// where that distance is no signed byte.
pub proof fn lemma_branch_within_section(
    bytes: Seq<u8>,
    r: RelocView,
    base: u16,
    symbols: Map<Seq<char>, u16>,
    target: u16,
)
    requires
        r.kind == RelocKind::Relative8,
        r.offset < bytes.len(),
        symbols.contains_key(r.name),
        symbols[r.name] == base + target,
    ensures
        patched(bytes, r, base, symbols) == bytes.update(
            r.offset as int,
            delta_byte(target - (r.offset + 1)),
        ),
        -128 <= target - (r.offset + 1) <= 127 ==> relocation_diagnostic(r, base, symbols)
            is None,
        !(-128 <= target - (r.offset + 1) <= 127) ==> relocation_diagnostic(r, base, symbols)
            == Some(DiagnosticView::BranchTooFar(r.name)),
{
}

/// A relative relocation whose target is further away than a signed byte
/// can tell is reported, and its byte is written all the same.
pub proof fn lemma_branch_too_far(
    bytes: Seq<u8>,
    r: RelocView,
    base: u16,
    symbols: Map<Seq<char>, u16>,
)
    requires
        r.kind == RelocKind::Relative8,
        r.offset < bytes.len(),
        symbols.contains_key(r.name),
        branch_delta(symbols[r.name], base, r.offset) < -128 || branch_delta(
            symbols[r.name],
            base,
            r.offset,
        ) > 127,
    ensures
        relocation_diagnostic(r, base, symbols) == Some(DiagnosticView::BranchTooFar(r.name)),
        patched(bytes, r, base, symbols)[r.offset as int] == delta_byte(
            branch_delta(symbols[r.name], base, r.offset),
        ),
        patched(bytes, r, base, symbols).len() == bytes.len(),
{
}

/// An absolute relocation of a defined symbol writes the address of the
/// symbol, low byte first, and reports nothing.
pub proof fn lemma_absolute_patch(
    bytes: Seq<u8>,
    r: RelocView,
    base: u16,
    symbols: Map<Seq<char>, u16>,
)
    requires
        r.kind == RelocKind::Absolute16,
        r.offset + 2 <= bytes.len(),
        symbols.contains_key(r.name),
    ensures
        patched(bytes, r, base, symbols)[r.offset as int] == lo(symbols[r.name]),
        patched(bytes, r, base, symbols)[r.offset + 1] == hi(symbols[r.name]),
        patched(bytes, r, base, symbols).len() == bytes.len(),
        relocation_diagnostic(r, base, symbols) is None,
{
}

/// The byte that one relocation writes at a position, if it writes there.
pub open spec fn written_by(r: RelocView, p: int, base: u16, symbols: Map<Seq<char>, u16>) -> Option<
    u8,
> {
    if !symbols.contains_key(r.name) {
        None
    } else {
        match r.kind {
            RelocKind::Absolute16 => if p == r.offset {
                Some(lo(symbols[r.name]))
            } else if p == r.offset + 1 {
                Some(hi(symbols[r.name]))
            } else {
                None
            },
            RelocKind::Relative8 => if p == r.offset {
                Some(delta_byte(branch_delta(symbols[r.name], base, r.offset)))
            } else {
                None
            },
        }
    }
}

/// The byte that a list of relocations leaves at a position: that of the
/// last relocation that writes there.
pub open spec fn last_written(
    relocations: Seq<RelocView>,
    p: int,
    base: u16,
    symbols: Map<Seq<char>, u16>,
) -> Option<u8>
    decreases relocations.len(),
{
    if relocations.len() == 0 {
        None
    } else {
        match written_by(relocations.last(), p, base, symbols) {
            Some(b) => Some(b),
            None => last_written(relocations.drop_last(), p, base, symbols),
        }
    }
}

proof fn lemma_fit_drop_last(relocations: Seq<RelocView>, len: int)
    requires
        relocations_fit(relocations, len),
        relocations.len() > 0,
    ensures
        relocations_fit(relocations.drop_last(), len),
        relocations.last().offset + reloc_width(relocations.last().kind) <= len,
{
    assert forall|i: int| 0 <= i < relocations.drop_last().len() implies (
    #[trigger] relocations.drop_last()[i]).offset + reloc_width(relocations.drop_last()[i].kind)
        <= len by {
        assert(relocations.drop_last()[i] == relocations[i]);
    }
    assert(relocations.last() == relocations[relocations.len() - 1]);
}

/// After relocation, a byte is what the last relocation wrote there; where
/// none wrote, it is what it was.
pub proof fn lemma_resolved_byte(
    bytes: Seq<u8>,
    relocations: Seq<RelocView>,
    base: u16,
    symbols: Map<Seq<char>, u16>,
    p: int,
)
    requires
        relocations_fit(relocations, bytes.len() as int),
        0 <= p < bytes.len(),
    ensures
        resolved_bytes(bytes, relocations, base, symbols).len() == bytes.len(),
        resolved_bytes(bytes, relocations, base, symbols)[p] == match last_written(
            relocations,
            p,
            base,
            symbols,
        ) {
            Some(b) => b,
            None => bytes[p],
        },
    decreases relocations.len(),
{
    if relocations.len() > 0 {
        lemma_fit_drop_last(relocations, bytes.len() as int);
        lemma_resolved_byte(bytes, relocations.drop_last(), base, symbols, p);
    }
}

/// Relocation is idempotent: filling in the relocations a second time, for
/// the same load address and from the same symbol table, changes no byte
/// and reports what the first time reported.
pub proof fn lemma_resolve_idempotent(
    bytes: Seq<u8>,
    relocations: Seq<RelocView>,
    base: u16,
    symbols: Map<Seq<char>, u16>,
)
    requires
        relocations_fit(relocations, bytes.len() as int),
    ensures
        resolved_bytes(
            resolved_bytes(bytes, relocations, base, symbols),
            relocations,
            base,
            symbols,
        ) == resolved_bytes(bytes, relocations, base, symbols),
{
    let once = resolved_bytes(bytes, relocations, base, symbols);
    let twice = resolved_bytes(once, relocations, base, symbols);
    lemma_resolved_len(bytes, relocations, base, symbols);
    lemma_resolved_len(once, relocations, base, symbols);
    assert forall|p: int| 0 <= p < once.len() implies twice[p] == once[p] by {
        lemma_resolved_byte(bytes, relocations, base, symbols, p);
        lemma_resolved_byte(once, relocations, base, symbols, p);
    }
    assert(twice =~= once);
}

proof fn lemma_last_written_none(
    relocations: Seq<RelocView>,
    p: int,
    base: u16,
    symbols: Map<Seq<char>, u16>,
)
    requires
        forall|j: int|
            0 <= j < relocations.len() ==> written_by(
                #[trigger] relocations[j],
                p,
                base,
                symbols,
            ) is None,
    ensures
        last_written(relocations, p, base, symbols) is None,
    decreases relocations.len(),
{
    if relocations.len() > 0 {
        let front = relocations.drop_last();
        assert(relocations.last() == relocations[relocations.len() - 1]);
        assert forall|j: int| 0 <= j < front.len() implies written_by(
            #[trigger] front[j],
            p,
            base,
            symbols,
        ) is None by {
            assert(front[j] == relocations[j]);
        }
        lemma_last_written_none(front, p, base, symbols);
    }
}

proof fn lemma_last_written_only(
    relocations: Seq<RelocView>,
    i: int,
    p: int,
    base: u16,
    symbols: Map<Seq<char>, u16>,
)
    requires
        0 <= i < relocations.len(),
        forall|j: int|
            0 <= j < relocations.len() && j != i ==> written_by(
                #[trigger] relocations[j],
                p,
                base,
                symbols,
            ) is None,
    ensures
        last_written(relocations, p, base, symbols) == written_by(
            relocations[i],
            p,
            base,
            symbols,
        ),
    decreases relocations.len(),
{
    let front = relocations.drop_last();
    assert(relocations.last() == relocations[relocations.len() - 1]);
    assert forall|j: int| 0 <= j < front.len() && j != i implies written_by(
        #[trigger] front[j],
        p,
        base,
        symbols,
    ) is None by {
        assert(front[j] == relocations[j]);
    }
    if i == relocations.len() - 1 {
        lemma_last_written_none(front, p, base, symbols);
    } else {
        assert(front[i] == relocations[i]);
        lemma_last_written_only(front, i, p, base, symbols);
    }
}

/// After relocation, the bytes of each relocation hold what that relocation
/// stands for, whatever the other relocations are: the address of its
/// symbol, low byte first, or the distance to its symbol modulo 256; where
/// its symbol is not defined, what they held before.
pub proof fn lemma_resolved_relocation(
    bytes: Seq<u8>,
    relocations: Seq<RelocView>,
    base: u16,
    symbols: Map<Seq<char>, u16>,
    i: int,
)
    requires
        relocations_fit(relocations, bytes.len() as int),
        relocations_apart(relocations),
        0 <= i < relocations.len(),
    ensures
        ({
            let r = relocations[i];
            let resolved = resolved_bytes(bytes, relocations, base, symbols);
            &&& resolved.len() == bytes.len()
            &&& symbols.contains_key(r.name) && r.kind == RelocKind::Absolute16 ==> resolved[r.offset as int]
                == lo(symbols[r.name]) && resolved[r.offset + 1] == hi(symbols[r.name])
            &&& symbols.contains_key(r.name) && r.kind == RelocKind::Relative8 ==> resolved[r.offset as int]
                == delta_byte(branch_delta(symbols[r.name], base, r.offset))
            &&& !symbols.contains_key(r.name) ==> forall|p: int|
                r.offset <= p < r.offset + reloc_width(r.kind) ==> resolved[p] == bytes[p]
        }),
{
    let r = relocations[i];
    let resolved = resolved_bytes(bytes, relocations, base, symbols);
    lemma_resolved_len(bytes, relocations, base, symbols);
    assert forall|p: int| r.offset <= p < r.offset + reloc_width(r.kind) implies resolved[p]
        == match written_by(r, p, base, symbols) {
        Some(b) => b,
        None => bytes[p],
    } by {
        assert forall|j: int| 0 <= j < relocations.len() && j != i implies written_by(
            #[trigger] relocations[j],
            p,
            base,
            symbols,
        ) is None by {
            if j < i {
                assert(relocations[j].offset + reloc_width(relocations[j].kind)
                    <= relocations[i].offset);
            } else {
                assert(relocations[i].offset + reloc_width(relocations[i].kind)
                    <= relocations[j].offset);
            }
        }
        lemma_last_written_only(relocations, i, p, base, symbols);
        lemma_resolved_byte(bytes, relocations, base, symbols, p);
    }
    assert(r.offset + reloc_width(r.kind) <= bytes.len());
    let first = r.offset as int;
    assert(first + reloc_width(r.kind) > first);
    if r.kind == RelocKind::Absolute16 {
        assert(first + reloc_width(r.kind) > first + 1);
    }
}

/// Whether buffer `b` is buffer `a` with more behind it: the bytes and
/// relocations of `a` come first, and every further relocation lies behind
/// the bytes of `a`.
pub open spec fn extends(a: BlobView, b: BlobView) -> bool {
    &&& a.bytes.len() <= b.bytes.len()
    &&& b.bytes.subrange(0, a.bytes.len() as int) == a.bytes
    &&& a.relocations.len() <= b.relocations.len()
    &&& b.relocations.subrange(0, a.relocations.len() as int) == a.relocations
    &&& forall|j: int|
        a.relocations.len() <= j < b.relocations.len() ==> (#[trigger] b.relocations[j]).offset
            >= a.bytes.len()
}

/// A statement leaves a valid buffer valid and only adds to it.
pub proof fn lemma_stmt_extends(blob: BlobView, stmt: StmtView, symbols: Map<Seq<char>, u16>)
    requires
        blob_wf(blob),
    ensures
        blob_wf(after_stmt(blob, stmt, symbols)),
        extends(blob, after_stmt(blob, stmt, symbols)),
{
    let after = after_stmt(blob, stmt, symbols);
    assert(after.bytes.subrange(0, blob.bytes.len() as int) =~= blob.bytes);
    assert(after.relocations.subrange(0, blob.relocations.len() as int) =~= blob.relocations);
}

/// Statements leave a valid buffer valid and only add to it.
pub proof fn lemma_generated_extends(
    blob: BlobView,
    stmts: Seq<StmtView>,
    symbols: Map<Seq<char>, u16>,
)
    requires
        blob_wf(blob),
    ensures
        blob_wf(generated(blob, stmts, symbols)),
        extends(blob, generated(blob, stmts, symbols)),
    decreases stmts.len(),
{
    if stmts.len() == 0 {
        assert(blob.bytes.subrange(0, blob.bytes.len() as int) =~= blob.bytes);
        assert(blob.relocations.subrange(0, blob.relocations.len() as int) =~= blob.relocations);
    } else {
        let before = generated(blob, stmts.drop_last(), symbols);
        let after = generated(blob, stmts, symbols);
        lemma_generated_extends(blob, stmts.drop_last(), symbols);
        lemma_stmt_extends(before, stmts.last(), symbols);
        assert(after.bytes.subrange(0, blob.bytes.len() as int) =~= before.bytes.subrange(
            0,
            blob.bytes.len() as int,
        )) by {
            assert(after.bytes.subrange(0, before.bytes.len() as int) == before.bytes);
        }
        assert(after.relocations.subrange(0, blob.relocations.len() as int)
            =~= before.relocations.subrange(0, blob.relocations.len() as int)) by {
            assert(after.relocations.subrange(0, before.relocations.len() as int)
                == before.relocations);
        }
        assert forall|j: int|
            blob.relocations.len() <= j < after.relocations.len() implies (
        #[trigger] after.relocations[j]).offset >= blob.bytes.len() by {
            if j < before.relocations.len() {
                assert(after.relocations[j] == after.relocations.subrange(
                    0,
                    before.relocations.len() as int,
                )[j]);
            }
        }
    }
}

/// Relocations that lie behind a position write nothing there.
proof fn lemma_last_written_front(
    relocations: Seq<RelocView>,
    n: int,
    p: int,
    base: u16,
    symbols: Map<Seq<char>, u16>,
)
    requires
        0 <= n <= relocations.len(),
        forall|j: int| n <= j < relocations.len() ==> (#[trigger] relocations[j]).offset > p,
    ensures
        last_written(relocations, p, base, symbols) == last_written(
            relocations.subrange(0, n),
            p,
            base,
            symbols,
        ),
    decreases relocations.len(),
{
    if n == relocations.len() {
        assert(relocations.subrange(0, n) =~= relocations);
    } else {
        let front = relocations.drop_last();
        assert(relocations.last() == relocations[relocations.len() - 1]);
        assert forall|j: int| n <= j < front.len() implies (#[trigger] front[j]).offset > p by {
            assert(front[j] == relocations[j]);
        }
        lemma_last_written_front(front, n, p, base, symbols);
        assert(front.subrange(0, n) =~= relocations.subrange(0, n));
    }
}

/// The round trip of a forward branch. A branch to a symbol that is not
/// known yet is generated, then whatever statements follow; the section is
/// loaded at `base`, and the symbol turns out to lie `target` bytes into
/// it. Then the relocations leave behind the opcode of the branch the
/// distance from the byte behind the branch to the symbol, modulo 256.
pub proof fn lemma_forward_branch_round_trip(
    blob: BlobView,
    branch: InstructionView,
    index: IndexMode,
    name: Seq<char>,
    op: u8,
    rest: Seq<StmtView>,
    symbols: Map<Seq<char>, u16>,
    base: u16,
    global: Map<Seq<char>, u16>,
    target: u16,
)
    requires
        blob_wf(blob),
        table_cell(branch.mnemonic, SLOT_RELATIVE as int) == Some(op),
        branch.addr_mode == AddrModeView::Memory(index, MemRefView::Variable(name)),
        !symbols.contains_key(name),
        blob.bytes.len() + 2 <= MAX_SECTION_SIZE,
        global.contains_key(name),
        global[name] == base + target,
    ensures
        ({
            let done = generated(after_instruction(blob, branch, symbols), rest, symbols);
            let resolved = resolved_bytes(done.bytes, done.relocations, base, global);
            &&& resolved.len() == done.bytes.len()
            &&& blob.bytes.len() + 2 <= done.bytes.len()
            &&& done.bytes[blob.bytes.len() as int] == op
            &&& resolved[blob.bytes.len() as int] == op
            &&& resolved[blob.bytes.len() as int + 1] == delta_byte(
                target - (blob.bytes.len() + 2),
            )
        }),
{
    let first = after_instruction(blob, branch, symbols);
    let done = generated(first, rest, symbols);
    let at = blob.bytes.len() as int;
    let r = RelocView { name, offset: (at + 1) as u16, kind: RelocKind::Relative8 };
    lemma_branch_leaves_relocation(blob, branch, symbols, index, name, op);
    lemma_stmt_extends(blob, StmtView::Instruction(branch), symbols);
    lemma_generated_extends(first, rest, symbols);
    assert(first.bytes[at] == op);
    assert(done.bytes[at] == done.bytes.subrange(0, first.bytes.len() as int)[at]);
    let n = first.relocations.len() as int;
    assert(done.relocations.subrange(0, n) == first.relocations);
    assert(first.relocations.last() == r);
    assert(first.relocations.drop_last() =~= blob.relocations);
    lemma_resolved_byte(done.bytes, done.relocations, base, global, at);
    lemma_resolved_byte(done.bytes, done.relocations, base, global, at + 1);
    lemma_last_written_front(done.relocations, n, at, base, global);
    lemma_last_written_front(done.relocations, n, at + 1, base, global);
    lemma_last_written_below(blob.relocations, at, at, base, global);
}

/// The round trip of a reference by address. An instruction that is no
/// branch refers to a symbol that is not known yet; it is generated, then
/// whatever statements follow. Then the relocations leave behind its opcode
/// the address that the global symbol table gives the symbol, low byte
/// first, wherever the section is loaded and whichever section defines the
/// symbol.
pub proof fn lemma_reference_round_trip(
    blob: BlobView,
    instruction: InstructionView,
    index: IndexMode,
    name: Seq<char>,
    op: u8,
    rest: Seq<StmtView>,
    symbols: Map<Seq<char>, u16>,
    base: u16,
    global: Map<Seq<char>, u16>,
)
    requires
        blob_wf(blob),
        !is_branch(instruction.mnemonic),
        table_cell(instruction.mnemonic, SLOT_ABSOLUTE + index_shift(index)) == Some(op),
        instruction.addr_mode == AddrModeView::Memory(index, MemRefView::Variable(name)),
        !symbols.contains_key(name),
        blob.bytes.len() + 3 <= MAX_SECTION_SIZE,
        global.contains_key(name),
    ensures
        ({
            let done = generated(after_instruction(blob, instruction, symbols), rest, symbols);
            let resolved = resolved_bytes(done.bytes, done.relocations, base, global);
            &&& resolved.len() == done.bytes.len()
            &&& blob.bytes.len() + 3 <= done.bytes.len()
            &&& resolved[blob.bytes.len() as int] == op
            &&& resolved[blob.bytes.len() as int + 1] == lo(global[name])
            &&& resolved[blob.bytes.len() as int + 2] == hi(global[name])
        }),
{
    let first = after_instruction(blob, instruction, symbols);
    let done = generated(first, rest, symbols);
    let at = blob.bytes.len() as int;
    let r = RelocView { name, offset: (at + 1) as u16, kind: RelocKind::Absolute16 };
    lemma_stmt_extends(blob, StmtView::Instruction(instruction), symbols);
    lemma_generated_extends(first, rest, symbols);
    assert(first.bytes =~= blob.bytes + seq![op, 0u8, 0u8]);
    assert(first.bytes[at] == op);
    assert(done.bytes[at] == done.bytes.subrange(0, first.bytes.len() as int)[at]);
    let n = first.relocations.len() as int;
    assert(done.relocations.subrange(0, n) == first.relocations);
    assert(first.relocations.last() == r);
    assert(first.relocations.drop_last() =~= blob.relocations);
    lemma_resolved_byte(done.bytes, done.relocations, base, global, at);
    lemma_resolved_byte(done.bytes, done.relocations, base, global, at + 1);
    lemma_resolved_byte(done.bytes, done.relocations, base, global, at + 2);
    lemma_last_written_front(done.relocations, n, at, base, global);
    lemma_last_written_front(done.relocations, n, at + 1, base, global);
    lemma_last_written_front(done.relocations, n, at + 2, base, global);
    lemma_last_written_below(blob.relocations, at, at, base, global);
}

/// Relocations that lie within the first `len` bytes write nothing at or
/// behind `len`.
proof fn lemma_last_written_below(
    relocations: Seq<RelocView>,
    len: int,
    p: int,
    base: u16,
    symbols: Map<Seq<char>, u16>,
)
    requires
        relocations_fit(relocations, len),
        p >= len,
    ensures
        last_written(relocations, p, base, symbols) is None,
    decreases relocations.len(),
{
    if relocations.len() > 0 {
        lemma_fit_drop_last(relocations, len);
        lemma_last_written_below(relocations.drop_last(), len, p, base, symbols);
    }
}

/// The byte that the relocations of a link list leave at position `p` of
/// section `i`: that of the last relocation that writes there.
pub open spec fn last_linked(
    sections: Seq<SectionView>,
    ld: Seq<LdView>,
    symbols: Map<Seq<char>, u16>,
    i: int,
    p: int,
) -> Option<u8>
    decreases ld.len(),
{
    if ld.len() == 0 {
        None
    } else {
        let earlier = last_linked(sections, ld.drop_last(), symbols, i, p);
        if section_index(sections, ld.last().name) == Some(i) {
            match last_written(
                sections[i].blob.relocations,
                p,
                load_address(ld.last(), cursor_after(ld.drop_last(), sections)),
                symbols,
            ) {
                Some(b) => Some(b),
                None => earlier,
            }
        } else {
            earlier
        }
    }
}

/// Whether two lists of sections agree in all but their bytes.
pub open spec fn same_shape(a: Seq<SectionView>, b: Seq<SectionView>) -> bool {
    &&& a.len() == b.len()
    &&& forall|i: int|
        0 <= i < a.len() ==> {
            &&& (#[trigger] a[i]).name == b[i].name
            &&& a[i].stmts == b[i].stmts
            &&& a[i].blob.symbols == b[i].blob.symbols
            &&& a[i].blob.relocations == b[i].blob.relocations
            &&& a[i].blob.bytes.len() == b[i].blob.bytes.len()
        }
}

proof fn lemma_relocated_same_shape(
    sections: Seq<SectionView>,
    ld: Seq<LdView>,
    symbols: Map<Seq<char>, u16>,
)
    requires
        sections_wf(sections),
    ensures
        same_shape(relocated(sections, ld, symbols), sections),
        sections_wf(relocated(sections, ld, symbols)),
{
    lemma_relocated_shape(sections, ld, symbols);
    let r = relocated(sections, ld, symbols);
    assert forall|i: int| 0 <= i < r.len() implies {
        &&& (#[trigger] r[i]).name == sections[i].name
        &&& r[i].stmts == sections[i].stmts
        &&& r[i].blob.symbols == sections[i].blob.symbols
        &&& r[i].blob.relocations == sections[i].blob.relocations
        &&& r[i].blob.bytes.len() == sections[i].blob.bytes.len()
    } by {
        assert(relocated(sections, ld, symbols)[i].name == sections[i].name);
    }
}

proof fn lemma_last_linked_same(
    a: Seq<SectionView>,
    b: Seq<SectionView>,
    ld: Seq<LdView>,
    symbols: Map<Seq<char>, u16>,
    i: int,
    p: int,
)
    requires
        same_shape(a, b),
        0 <= i < a.len(),
    ensures
        last_linked(a, ld, symbols, i, p) == last_linked(b, ld, symbols, i, p),
    decreases ld.len(),
{
    if ld.len() > 0 {
        lemma_last_linked_same(a, b, ld.drop_last(), symbols, i, p);
        lemma_cursor_same(a, b, ld.drop_last());
        lemma_section_index_names(a, b, ld.last().name);
    }
}

/// After the relocations of a link list, a byte of a section is what the
/// last relocation wrote there; where none wrote, it is what it was.
pub proof fn lemma_relocated_byte(
    sections: Seq<SectionView>,
    ld: Seq<LdView>,
    symbols: Map<Seq<char>, u16>,
    i: int,
    p: int,
)
    requires
        sections_wf(sections),
        0 <= i < sections.len(),
        0 <= p < sections[i].blob.bytes.len(),
    ensures
        relocated(sections, ld, symbols)[i].blob.bytes[p] == match last_linked(
            sections,
            ld,
            symbols,
            i,
            p,
        ) {
            Some(b) => b,
            None => sections[i].blob.bytes[p],
        },
    decreases ld.len(),
{
    if ld.len() > 0 {
        let front = ld.drop_last();
        let before = relocated(sections, front, symbols);
        let base = load_address(ld.last(), cursor_after(front, sections));
        lemma_relocated_byte(sections, front, symbols, i, p);
        lemma_relocated_same_shape(sections, front, symbols);
        lemma_section_index_found(sections, ld.last().name);
        match section_index(sections, ld.last().name) {
            Some(k) => {
                if k == i {
                    assert(blob_wf(before[i].blob));
                    lemma_resolved_byte(
                        before[i].blob.bytes,
                        before[i].blob.relocations,
                        base,
                        symbols,
                        p,
                    );
                }
            },
            None => {},
        }
    }
}

proof fn lemma_report_same(
    a: Seq<SectionView>,
    b: Seq<SectionView>,
    ld: Seq<LdView>,
    symbols: Map<Seq<char>, u16>,
)
    requires
        same_shape(a, b),
    ensures
        relocation_report(a, ld, symbols) == relocation_report(b, ld, symbols),
    decreases ld.len(),
{
    if ld.len() > 0 {
        lemma_report_same(a, b, ld.drop_last(), symbols);
        lemma_cursor_same(a, b, ld.drop_last());
        lemma_section_index_names(a, b, ld.last().name);
        lemma_section_index_found(a, ld.last().name);
    }
}

/// Relocation of the linked sections is idempotent: a second pass over the
/// same link list, from the same symbol table, changes no section and
/// reports what the first pass reported.
pub proof fn lemma_relocation_idempotent(
    sections: Seq<SectionView>,
    ld: Seq<LdView>,
    symbols: Map<Seq<char>, u16>,
)
    requires
        sections_wf(sections),
    ensures
        relocated(relocated(sections, ld, symbols), ld, symbols) == relocated(sections, ld, symbols),
        relocation_report(relocated(sections, ld, symbols), ld, symbols) == relocation_report(
            sections,
            ld,
            symbols,
        ),
{
    let once = relocated(sections, ld, symbols);
    let twice = relocated(once, ld, symbols);
    lemma_relocated_same_shape(sections, ld, symbols);
    lemma_relocated_same_shape(once, ld, symbols);
    lemma_report_same(once, sections, ld, symbols);
    assert forall|i: int| 0 <= i < once.len() implies twice[i] == once[i] by {
        assert(twice[i].name == once[i].name);
        assert forall|p: int| 0 <= p < once[i].blob.bytes.len() implies twice[i].blob.bytes[p]
            == once[i].blob.bytes[p] by {
            lemma_relocated_byte(sections, ld, symbols, i, p);
            lemma_relocated_byte(once, ld, symbols, i, p);
            lemma_last_linked_same(once, sections, ld, symbols, i, p);
        }
        assert(twice[i].blob.bytes =~= once[i].blob.bytes);
    }
    assert(twice =~= once);
}

/// The image of two sections with fixed load addresses: the bytes of the
/// first, zeros up to the load address of the second, and the bytes of the
/// second. Its length is the distance from the first load address to the
/// end of the second section.
pub proof fn lemma_image_of_two(
    ld: Seq<LdView>,
    sections: Seq<SectionView>,
    i: int,
    j: int,
    a: u16,
    b: u16,
)
    requires
        ld.len() == 2,
        ld[0].load_addr == Some(a),
        ld[1].load_addr == Some(b),
        section_index(sections, ld[0].name) == Some(i),
        section_index(sections, ld[1].name) == Some(j),
        a + sections[i].blob.bytes.len() <= b,
        b + sections[j].blob.bytes.len() <= 0x10000,
    ensures
        image_of(ld, sections) == Ok::<Seq<u8>, DiagnosticView>(
            sections[i].blob.bytes + zeros(b - a - sections[i].blob.bytes.len())
                + sections[j].blob.bytes,
        ),
        image_of(ld, sections)->Ok_0.len() == b + sections[j].blob.bytes.len() - a,
        forall|p: int|
            sections[i].blob.bytes.len() <= p < b - a ==> image_of(ld, sections)->Ok_0[p] == 0,
{
    let first = ld.drop_last();
    assert(first.len() == 1);
    assert(first.last() == ld[0]);
    assert(first[0] == ld[0]);
    assert(first.drop_last() =~= Seq::<LdView>::empty());
    assert(image_of(first.drop_last(), sections) == Ok::<Seq<u8>, DiagnosticView>(Seq::empty()));
    assert(zeros(0) =~= Seq::<u8>::empty());
    assert(Seq::<u8>::empty() + zeros(0) + sections[i].blob.bytes =~= sections[i].blob.bytes);
    assert(image_of(first, sections) == Ok::<Seq<u8>, DiagnosticView>(sections[i].blob.bytes));
    assert(ld.last() == ld[1]);
}

/// The extent of an image. Where a link list gives an image, its first
/// entry has a load address, the image reaches from there to the end of the
/// last section, within the address space, and the cursor behind the last
/// entry is the address behind the image.
pub proof fn lemma_image_extent(ld: Seq<LdView>, sections: Seq<SectionView>)
    requires
        ld.len() > 0,
        image_of(ld, sections) is Ok,
    ensures
        ld[0].load_addr is Some,
        image_start(ld) + image_of(ld, sections)->Ok_0.len() <= ADDRESS_SPACE,
        cursor_after(ld, sections) == (image_start(ld) + image_of(ld, sections)->Ok_0.len())
            % 0x10000,
    decreases ld.len(),
{
    let front = ld.drop_last();
    lemma_section_index_found(sections, ld.last().name);
    if front.len() == 0 {
        assert(ld.last() == ld[0]);
        assert(zeros(0) =~= Seq::<u8>::empty());
    } else {
        assert(front[0] == ld[0]);
        lemma_image_extent(front, sections);
    }
}

/// The image grows entry by entry: where a link list gives an image, each
/// of its beginnings gives an image too, and that is how the image of the
/// whole list begins.
pub proof fn lemma_image_prefix(ld: Seq<LdView>, sections: Seq<SectionView>, k: int)
    requires
        0 <= k <= ld.len(),
        image_of(ld, sections) is Ok,
    ensures
        image_of(ld.take(k), sections) is Ok,
        image_of(ld.take(k), sections)->Ok_0.len() <= image_of(ld, sections)->Ok_0.len(),
        image_of(ld, sections)->Ok_0.subrange(
            0,
            image_of(ld.take(k), sections)->Ok_0.len() as int,
        ) == image_of(ld.take(k), sections)->Ok_0,
    decreases ld.len(),
{
    let image = image_of(ld, sections)->Ok_0;
    if k == ld.len() {
        assert(ld.take(k) =~= ld);
        assert(image.subrange(0, image.len() as int) =~= image);
    } else {
        let front = ld.drop_last();
        assert(front.take(k) =~= ld.take(k));
        lemma_image_prefix(front, sections, k);
        let before = image_of(front, sections)->Ok_0;
        let part = image_of(ld.take(k), sections)->Ok_0;
        assert(image.subrange(0, before.len() as int) =~= before);
        assert(image.subrange(0, part.len() as int) =~= before.subrange(0, part.len() as int));
    }
}

/// The gaps of an image are filled with zeros. Where a link list gives an
/// image, every byte between the end of the section of one entry and the
/// load address of the next entry is zero.
pub proof fn lemma_image_gap(ld: Seq<LdView>, sections: Seq<SectionView>, k: int, p: int)
    requires
        1 <= k < ld.len(),
        image_of(ld, sections) is Ok,
        ld[k].load_addr is Some,
        image_of(ld.take(k), sections)->Ok_0.len() <= p,
        image_start(ld) + p < ld[k].load_addr->0,
    ensures
        p < image_of(ld, sections)->Ok_0.len(),
        image_of(ld, sections)->Ok_0[p] == 0,
{
    let image = image_of(ld, sections)->Ok_0;
    let upto = ld.take(k + 1);
    lemma_image_prefix(ld, sections, k + 1);
    let part = image_of(upto, sections)->Ok_0;
    assert(upto.drop_last() =~= ld.take(k));
    assert(upto.last() == ld[k]);
    assert(upto[0] == ld[0]);
    lemma_section_index_found(sections, ld[k].name);
    assert(part[p] == 0);
    assert(image[p] == image.subrange(0, part.len() as int)[p]);
}

/// Each section lies in the image at its load address. Where a link list
/// gives an image, the bytes of the section of an entry that holds any are
/// found in the image at the load address of the entry, counted from the
/// address at which the image begins: at the address for which the labels
/// of the section were merged and its relocations filled in.
pub proof fn lemma_image_places_section(ld: Seq<LdView>, sections: Seq<SectionView>, k: int)
    requires
        0 <= k < ld.len(),
        image_of(ld, sections) is Ok,
        blob_of(sections, ld[k].name).bytes.len() > 0,
    ensures
        image_start(ld) <= base_of(ld, sections, k),
        base_of(ld, sections, k) - image_start(ld) + blob_of(sections, ld[k].name).bytes.len()
            <= image_of(ld, sections)->Ok_0.len(),
        image_of(ld, sections)->Ok_0.subrange(
            base_of(ld, sections, k) - image_start(ld),
            base_of(ld, sections, k) - image_start(ld) + blob_of(
                sections,
                ld[k].name,
            ).bytes.len(),
        ) == blob_of(sections, ld[k].name).bytes,
    decreases ld.len(),
{
    let front = ld.drop_last();
    let image = image_of(ld, sections)->Ok_0;
    let bytes = blob_of(sections, ld[k].name).bytes;
    let at = base_of(ld, sections, k) - image_start(ld);
    lemma_section_index_found(sections, ld.last().name);
    if front.len() > 0 {
        assert(front[0] == ld[0]);
        lemma_image_extent(front, sections);
    }
    if k == ld.len() - 1 {
        assert(ld.take(k) =~= front);
        assert(ld.last() == ld[k]);
        if front.len() == 0 {
            assert(zeros(0) =~= Seq::<u8>::empty());
        }
        assert(image.subrange(at, at + bytes.len()) =~= bytes);
    } else {
        assert(front.take(k) =~= ld.take(k));
        assert(front[k] == ld[k]);
        lemma_image_places_section(front, sections, k);
        let before = image_of(front, sections)->Ok_0;
        assert(image.subrange(at, at + bytes.len()) =~= before.subrange(at, at + bytes.len()));
    }
}

/// The section that carries a name, if one does.
pub open spec fn section_of(sections: Seq<SectionView>, name: Seq<char>) -> Option<SectionView> {
    match section_index(sections, name) {
        Some(i) => Some(sections[i]),
        None => None,
    }
}

/// Whether two lists hold the same sections under the same names, in
/// whatever order.
pub open spec fn same_by_name(a: Seq<SectionView>, b: Seq<SectionView>) -> bool {
    forall|n: Seq<char>| #[trigger] section_of(a, n) == section_of(b, n)
}

/// Whether two lists hold the same statements under the same names, in
/// whatever order.
pub open spec fn same_stmts_by_name(a: Seq<SectionView>, b: Seq<SectionView>) -> bool {
    forall|n: Seq<char>|
        #![trigger section_index(a, n)]
        (section_index(a, n) is Some <==> section_index(b, n) is Some) && stmts_of(a, n)
            == stmts_of(b, n)
}

/// Placing, merging, reporting and the image go by the names of the
/// sections, not by their order.
pub proof fn lemma_layout_by_name(
    a: Seq<SectionView>,
    b: Seq<SectionView>,
    ld: Seq<LdView>,
    table: Map<Seq<char>, u16>,
    symbols: Map<Seq<char>, u16>,
)
    requires
        same_by_name(a, b),
    ensures
        cursor_after(ld, a) == cursor_after(ld, b),
        merged_symbols(table, ld, a) == merged_symbols(table, ld, b),
        relocation_report(a, ld, symbols) == relocation_report(b, ld, symbols),
        image_of(ld, a) == image_of(ld, b),
    decreases ld.len(),
{
    if ld.len() > 0 {
        lemma_layout_by_name(a, b, ld.drop_last(), table, symbols);
        assert(section_of(a, ld.last().name) == section_of(b, ld.last().name));
        if ld.len() > 1 {
            assert(ld.drop_last()[0] == ld[0]);
        }
    }
}

proof fn lemma_relocated_index(
    sections: Seq<SectionView>,
    ld: Seq<LdView>,
    symbols: Map<Seq<char>, u16>,
    n: Seq<char>,
)
    requires
        sections_wf(sections),
    ensures
        section_index(relocated(sections, ld, symbols), n) == section_index(sections, n),
        relocated(sections, ld, symbols).len() == sections.len(),
{
    lemma_relocated_same_shape(sections, ld, symbols);
    lemma_section_index_names(relocated(sections, ld, symbols), sections, n);
}

/// Relocation goes by the names of the sections, not by their order.
pub proof fn lemma_relocated_by_name(
    a: Seq<SectionView>,
    b: Seq<SectionView>,
    ld: Seq<LdView>,
    symbols: Map<Seq<char>, u16>,
)
    requires
        same_by_name(a, b),
        sections_wf(a),
        sections_wf(b),
    ensures
        same_by_name(relocated(a, ld, symbols), relocated(b, ld, symbols)),
    decreases ld.len(),
{
    if ld.len() > 0 {
        let front = ld.drop_last();
        let m = ld.last().name;
        let before_a = relocated(a, front, symbols);
        let before_b = relocated(b, front, symbols);
        let after_a = relocated(a, ld, symbols);
        let after_b = relocated(b, ld, symbols);
        lemma_relocated_by_name(a, b, front, symbols);
        lemma_layout_by_name(a, b, front, symbols, symbols);
        lemma_relocated_index(a, front, symbols, m);
        lemma_relocated_index(b, front, symbols, m);
        lemma_section_index_found(a, m);
        lemma_section_index_found(b, m);
        assert(section_of(a, m) == section_of(b, m));
        assert(section_of(before_a, m) == section_of(before_b, m));
        assert forall|n: Seq<char>| #[trigger]
            section_of(after_a, n) == section_of(after_b, n) by {
            lemma_relocated_index(a, front, symbols, n);
            lemma_relocated_index(b, front, symbols, n);
            lemma_relocated_index(a, ld, symbols, n);
            lemma_relocated_index(b, ld, symbols, n);
            lemma_section_index_found(a, n);
            lemma_section_index_found(b, n);
            assert(section_of(a, n) == section_of(b, n));
            assert(section_of(before_a, n) == section_of(before_b, n));
        }
    }
}

/// The code of a section is generated from its statements and the symbol
/// table alone, so generation goes by the names of the sections, not by
/// their order.
pub proof fn lemma_generated_by_name(
    a: Seq<SectionView>,
    b: Seq<SectionView>,
    symbols: Map<Seq<char>, u16>,
)
    requires
        same_stmts_by_name(a, b),
    ensures
        same_by_name(generated_sections(a, symbols), generated_sections(b, symbols)),
        sections_wf(generated_sections(a, symbols)),
        sections_wf(generated_sections(b, symbols)),
{
    let ga = generated_sections(a, symbols);
    let gb = generated_sections(b, symbols);
    assert forall|n: Seq<char>| #[trigger] section_of(ga, n) == section_of(gb, n) by {
        lemma_section_index_names(ga, a, n);
        lemma_section_index_names(gb, b, n);
        lemma_section_index_found(a, n);
        lemma_section_index_found(b, n);
        assert(section_index(a, n) is Some <==> section_index(b, n) is Some);
        assert(stmts_of(a, n) == stmts_of(b, n));
    }
    assert forall|i: int| 0 <= i < ga.len() implies blob_wf((#[trigger] ga[i]).blob) by {
        lemma_generated_extends(empty_blob(), a[i].stmts, symbols);
    }
    assert forall|i: int| 0 <= i < gb.len() implies blob_wf((#[trigger] gb[i]).blob) by {
        lemma_generated_extends(empty_blob(), b[i].stmts, symbols);
    }
}

/// Linking does not depend on the order of the sections. Two generators
/// that hold the same statements under the same names, and whose constants
/// give the same symbol table, give the same global symbol table, the same
/// sections by name, and the same image or the same problem of the layout.
pub proof fn lemma_link_by_name(a: Seq<SectionView>, b: Seq<SectionView>, ld: Seq<LdView>)
    requires
        same_stmts_by_name(a, b),
        with_section_constants(register_bank(), a) == with_section_constants(register_bank(), b),
    ensures
        link_outcome(a, ld).symbols == link_outcome(b, ld).symbols,
        link_outcome(a, ld).image == link_outcome(b, ld).image,
        same_by_name(link_outcome(a, ld).sections, link_outcome(b, ld).sections),
{
    let constants = with_section_constants(register_bank(), a);
    let fresh_a = generated_sections(a, constants);
    let fresh_b = generated_sections(b, constants);
    lemma_generated_by_name(a, b, constants);
    lemma_layout_by_name(fresh_a, fresh_b, ld, constants, constants);
    let symbols = merged_symbols(constants, ld, fresh_a);
    lemma_relocated_by_name(fresh_a, fresh_b, ld, symbols);
    lemma_layout_by_name(
        relocated(fresh_a, ld, symbols),
        relocated(fresh_b, ld, symbols),
        ld,
        constants,
        symbols,
    );
}

/// Sections that are named for the first time in another order hold the
/// same statements under the same names.
pub proof fn lemma_push_order(
    sections: Seq<SectionView>,
    first: Seq<char>,
    first_stmts: Seq<StmtView>,
    second: Seq<char>,
    second_stmts: Seq<StmtView>,
)
    requires
        first != second,
    ensures
        same_stmts_by_name(
            with_section(with_section(sections, first, first_stmts), second, second_stmts),
            with_section(with_section(sections, second, second_stmts), first, first_stmts),
        ),
{
    let one = with_section(sections, first, first_stmts);
    let other = with_section(sections, second, second_stmts);
    let a = with_section(one, second, second_stmts);
    let b = with_section(other, first, first_stmts);
    assert forall|n: Seq<char>|
        #![trigger section_index(a, n)]
        (section_index(a, n) is Some <==> section_index(b, n) is Some) && stmts_of(a, n)
            == stmts_of(b, n) by {
        lemma_with_section(sections, first, first_stmts, n);
        lemma_with_section(sections, second, second_stmts, n);
        lemma_with_section(one, second, second_stmts, n);
        lemma_with_section(other, first, first_stmts, n);
    }
}

/// The address of a label after linking. Where entry `k` of the link list
/// is the last whose section defines the label `name`, the global symbol
/// table binds `name` to the offset of the label in that section, moved by
/// the load address of the entry. This holds whatever the order of the
/// sections in the generator is, and whichever section refers to the label.
pub proof fn lemma_label_address(
    table: Map<Seq<char>, u16>,
    ld: Seq<LdView>,
    sections: Seq<SectionView>,
    k: int,
    name: Seq<char>,
)
    requires
        0 <= k < ld.len(),
        blob_of(sections, ld[k].name).symbols.contains_key(name),
        forall|j: int|
            k < j < ld.len() ==> !blob_of(sections, (#[trigger] ld[j]).name).symbols.contains_key(
                name,
            ),
    ensures
        merged_symbols(table, ld, sections).contains_key(name),
        merged_symbols(table, ld, sections)[name] == offset_addr(
            blob_of(sections, ld[k].name).symbols[name],
            base_of(ld, sections, k),
        ),
        blob_of(sections, ld[k].name).symbols[name] + base_of(ld, sections, k) < 0x10000
            ==> merged_symbols(table, ld, sections)[name] == blob_of(
            sections,
            ld[k].name,
        ).symbols[name] + base_of(ld, sections, k),
    decreases ld.len(),
{
    if k == ld.len() - 1 {
        assert(ld.take(k) =~= ld.drop_last());
        assert(ld.last() == ld[k]);
    } else {
        let front = ld.drop_last();
        assert(front.take(k) =~= ld.take(k));
        assert(front[k] == ld[k]);
        assert forall|j: int| k < j < front.len() implies !blob_of(
            sections,
            (#[trigger] front[j]).name,
        ).symbols.contains_key(name) by {
            assert(front[j] == ld[j]);
        }
        lemma_label_address(table, front, sections, k, name);
        assert(ld.last() == ld[ld.len() - 1]);
    }
}

/// A name that no linked section defines as a label keeps in the global
/// symbol table the address that it had before the sections were placed.
pub proof fn lemma_merge_keeps(
    table: Map<Seq<char>, u16>,
    ld: Seq<LdView>,
    sections: Seq<SectionView>,
    name: Seq<char>,
)
    requires
        forall|j: int|
            0 <= j < ld.len() ==> !blob_of(sections, (#[trigger] ld[j]).name).symbols.contains_key(
                name,
            ),
    ensures
        merged_symbols(table, ld, sections).contains_key(name) == table.contains_key(name),
        table.contains_key(name) ==> merged_symbols(table, ld, sections)[name] == table[name],
    decreases ld.len(),
{
    if ld.len() > 0 {
        let front = ld.drop_last();
        assert forall|j: int| 0 <= j < front.len() implies !blob_of(
            sections,
            (#[trigger] front[j]).name,
        ).symbols.contains_key(name) by {
            assert(front[j] == ld[j]);
        }
        lemma_merge_keeps(table, front, sections, name);
        assert(ld.last() == ld[ld.len() - 1]);
    }
}

/// Whether a statement binds `name` to another address than `addr`, or
/// defines it as a label.
pub open spec fn rebinds(stmt: StmtView, name: Seq<char>, addr: u16) -> bool {
    match stmt {
        StmtView::ConstLabel(n, a) => n == name && a != addr,
        StmtView::Label(n) => n == name,
        _ => false,
    }
}

/// Whether `name` is bound to `addr` by a constant label and by nothing
/// else in any section.
pub open spec fn sole_constant(sections: Seq<SectionView>, name: Seq<char>, addr: u16) -> bool {
    &&& exists|s: int, i: int|
        0 <= s < sections.len() && 0 <= i < sections[s].stmts.len() && #[trigger] sections[s].stmts[i]
            == StmtView::ConstLabel(name, addr)
    &&& forall|s: int, i: int|
        0 <= s < sections.len() && 0 <= i < sections[s].stmts.len() ==> !rebinds(
            #[trigger] sections[s].stmts[i],
            name,
            addr,
        )
}

proof fn lemma_constants_of_stmts(
    table: Map<Seq<char>, u16>,
    stmts: Seq<StmtView>,
    name: Seq<char>,
    addr: u16,
)
    requires
        forall|i: int| 0 <= i < stmts.len() ==> !rebinds(#[trigger] stmts[i], name, addr),
    ensures
        (table.contains_key(name) && table[name] == addr) ==> with_constants(
            table,
            stmts,
        ).contains_key(name) && with_constants(table, stmts)[name] == addr,
        (exists|i: int| 0 <= i < stmts.len() && #[trigger] stmts[i] == StmtView::ConstLabel(name, addr))
            ==> with_constants(table, stmts).contains_key(name) && with_constants(
            table,
            stmts,
        )[name] == addr,
    decreases stmts.len(),
{
    if stmts.len() > 0 {
        let front = stmts.drop_last();
        assert(forall|i: int| 0 <= i < front.len() ==> front[i] == stmts[i]);
        assert(stmts.last() == stmts[stmts.len() - 1]);
        lemma_constants_of_stmts(table, front, name, addr);
        if exists|i: int|
            0 <= i < stmts.len() && #[trigger] stmts[i] == StmtView::ConstLabel(name, addr) {
            let i = choose|i: int|
                0 <= i < stmts.len() && #[trigger] stmts[i] == StmtView::ConstLabel(name, addr);
            if i < front.len() {
                assert(front[i] == StmtView::ConstLabel(name, addr));
            }
        }
    }
}

proof fn lemma_constants_of_sections(
    table: Map<Seq<char>, u16>,
    sections: Seq<SectionView>,
    name: Seq<char>,
    addr: u16,
)
    requires
        forall|s: int, i: int|
            0 <= s < sections.len() && 0 <= i < sections[s].stmts.len() ==> !rebinds(
                #[trigger] sections[s].stmts[i],
                name,
                addr,
            ),
    ensures
        (table.contains_key(name) && table[name] == addr) ==> with_section_constants(
            table,
            sections,
        ).contains_key(name) && with_section_constants(table, sections)[name] == addr,
        (exists|s: int, i: int|
            0 <= s < sections.len() && 0 <= i < sections[s].stmts.len()
                && #[trigger] sections[s].stmts[i] == StmtView::ConstLabel(name, addr))
            ==> with_section_constants(table, sections).contains_key(name)
            && with_section_constants(table, sections)[name] == addr,
    decreases sections.len(),
{
    if sections.len() > 0 {
        let front = sections.drop_last();
        let last = sections.last();
        assert(forall|s: int| 0 <= s < front.len() ==> front[s] == sections[s]);
        assert(last == sections[sections.len() - 1]);
        lemma_constants_of_sections(table, front, name, addr);
        assert forall|i: int| 0 <= i < last.stmts.len() implies !rebinds(
            #[trigger] last.stmts[i],
            name,
            addr,
        ) by {
            assert(last.stmts[i] == sections[sections.len() - 1].stmts[i]);
        }
        lemma_constants_of_stmts(with_section_constants(table, front), last.stmts, name, addr);
        if exists|s: int, i: int|
            0 <= s < sections.len() && 0 <= i < sections[s].stmts.len()
                && #[trigger] sections[s].stmts[i] == StmtView::ConstLabel(name, addr) {
            let (s, i) = choose|s: int, i: int|
                0 <= s < sections.len() && 0 <= i < sections[s].stmts.len()
                    && #[trigger] sections[s].stmts[i] == StmtView::ConstLabel(name, addr);
            if s < front.len() {
                assert(front[s].stmts[i] == StmtView::ConstLabel(name, addr));
            } else {
                assert(last.stmts[i] == StmtView::ConstLabel(name, addr));
            }
        }
    }
}

/// A code buffer has a label only where it had it before or a statement
/// defines it.
proof fn lemma_generated_labels(
    blob: BlobView,
    stmts: Seq<StmtView>,
    symbols: Map<Seq<char>, u16>,
    name: Seq<char>,
)
    requires
        !blob.symbols.contains_key(name),
        forall|i: int| 0 <= i < stmts.len() ==> #[trigger] stmts[i] != StmtView::Label(name),
    ensures
        !generated(blob, stmts, symbols).symbols.contains_key(name),
    decreases stmts.len(),
{
    if stmts.len() > 0 {
        let front = stmts.drop_last();
        assert(forall|i: int| 0 <= i < front.len() ==> front[i] == stmts[i]);
        assert(stmts.last() == stmts[stmts.len() - 1]);
        lemma_generated_labels(blob, front, symbols, name);
    }
}

/// A constant never moves with the layout. Where a constant label binds
/// `name` to `addr`, and no other statement of any section binds `name` to
/// another address or defines it as a label, then after linking, by any
/// link list, the global symbol table binds `name` to `addr`.
pub proof fn lemma_constant_address(
    sections: Seq<SectionView>,
    ld: Seq<LdView>,
    name: Seq<char>,
    addr: u16,
)
    requires
        sole_constant(sections, name, addr),
    ensures
        link_outcome(sections, ld).symbols.contains_key(name),
        link_outcome(sections, ld).symbols[name] == addr,
{
    let constants = with_section_constants(register_bank(), sections);
    let fresh = generated_sections(sections, constants);
    lemma_constants_of_sections(register_bank(), sections, name, addr);
    assert forall|j: int| 0 <= j < ld.len() implies !blob_of(
        fresh,
        (#[trigger] ld[j]).name,
    ).symbols.contains_key(name) by {
        lemma_section_index_found(fresh, ld[j].name);
        match section_index(fresh, ld[j].name) {
            Some(s) => {
                assert(fresh[s] == generated_section(sections[s], constants));
                assert forall|i: int| 0 <= i < sections[s].stmts.len() implies #[trigger]
                    sections[s].stmts[i] != StmtView::Label(name) by {
                    assert(!rebinds(sections[s].stmts[i], name, addr));
                }
                lemma_generated_labels(empty_blob(), sections[s].stmts, constants, name);
            },
            None => {},
        }
    }
    lemma_merge_keeps(constants, ld, fresh, name);
}

} // verus!
