use asm65c02::codeblob::{CodeBlob, MAX_SECTION_SIZE};
use asm65c02::diagnostic::Diagnostic;
use asm65c02::mnemonic::{Mnemonic, MNEMONIC_COUNT};
use asm65c02::model::{AddrMode, AsmStmt, DataPlacement, IndexMode, Instruction, MemRef};
use asm65c02::opcode::lookup_cell;
use asm65c02::symtab::SymbolTable;

fn instr(name: &str, mode: AddrMode) -> Instruction {
    Instruction::new(name.into(), mode)
}

fn mem(index: IndexMode, addr: u16) -> AddrMode {
    AddrMode::Memory(index, MemRef::Addr(addr))
}

fn var(index: IndexMode, name: &str) -> AddrMode {
    AddrMode::Memory(index, MemRef::Variable(name.into()))
}

#[test]
fn empty_blob() {
    let blob = CodeBlob::new();
    assert_eq!(blob.size(), 0);
    assert_eq!(blob.bytes(), &Vec::<u8>::new());
    assert_eq!(blob.symbols().find("anything"), None);
}

#[test]
fn every_table_cell_is_encoded_as_its_opcode() {
    let symbols = SymbolTable::new();
    let forms: Vec<(usize, AddrMode)> = vec![
        (0, AddrMode::Implied),
        (1, AddrMode::Immediate(0x12)),
        (2, mem(IndexMode::NoIndex, 0x34)),
        (3, mem(IndexMode::IndexedX, 0x34)),
        (4, mem(IndexMode::IndexedY, 0x34)),
        (8, mem(IndexMode::NoIndex, 0x1234)),
        (9, mem(IndexMode::IndexedX, 0x1234)),
        (10, mem(IndexMode::IndexedY, 0x1234)),
    ];
    let mut checked = 0;
    for i in 0..MNEMONIC_COUNT {
        let m = Mnemonic::from_index(i).unwrap();
        for (slot, mode) in forms.iter() {
            if let Some(op) = lookup_cell(m, *slot) {
                let mut blob = CodeBlob::new();
                let r = blob.gen_instruction(&Instruction::with_mnemonic(m, mode.clone()), &symbols);
                assert_eq!(r, Ok(()));
                assert_eq!(blob.bytes()[0], op);
                checked += 1;
            }
        }
        if let Some(op) = lookup_cell(m, 13) {
            let mut blob = CodeBlob::new();
            let branch = Instruction::with_mnemonic(m, var(IndexMode::NoIndex, "target"));
            assert_eq!(blob.gen_instruction(&branch, &symbols), Ok(()));
            assert_eq!(blob.bytes(), &vec![op, 0]);
            checked += 1;
        }
    }
    assert_eq!(checked, 170);
}

#[test]
fn operand_width_follows_the_address() {
    let mut symbols = SymbolTable::new();
    symbols.insert("zp", 0x80);
    symbols.insert("top", 0xff);
    symbols.insert("wide", 0x100);
    symbols.insert("far", 0xd000);
    let cases: Vec<(AddrMode, Vec<u8>)> = vec![
        (mem(IndexMode::NoIndex, 0), vec![0xa5, 0x00]),
        (mem(IndexMode::NoIndex, 0xff), vec![0xa5, 0xff]),
        (mem(IndexMode::NoIndex, 0x100), vec![0xad, 0x00, 0x01]),
        (mem(IndexMode::NoIndex, 0x1234), vec![0xad, 0x34, 0x12]),
        (mem(IndexMode::IndexedX, 0x10), vec![0xb5, 0x10]),
        (mem(IndexMode::IndexedX, 0xffff), vec![0xbd, 0xff, 0xff]),
        (mem(IndexMode::IndexedY, 0x1234), vec![0xb9, 0x34, 0x12]),
        (var(IndexMode::NoIndex, "zp"), vec![0xa5, 0x80]),
        (var(IndexMode::NoIndex, "top"), vec![0xa5, 0xff]),
        (var(IndexMode::NoIndex, "wide"), vec![0xad, 0x00, 0x01]),
        (var(IndexMode::IndexedX, "far"), vec![0xbd, 0x00, 0xd0]),
        (var(IndexMode::NoIndex, "unknown"), vec![0xad, 0x00, 0x00]),
        (var(IndexMode::IndexedX, "unknown"), vec![0xbd, 0x00, 0x00]),
        (var(IndexMode::IndexedY, "unknown"), vec![0xb9, 0x00, 0x00]),
    ];
    for (mode, expected) in cases {
        let mut blob = CodeBlob::new();
        assert_eq!(blob.gen_instruction(&instr("lda", mode), &symbols), Ok(()));
        assert_eq!(blob.bytes(), &expected);
    }
}

#[test]
fn implied_and_immediate() {
    let symbols = SymbolTable::new();
    let mut blob = CodeBlob::new();
    assert_eq!(blob.gen_instruction(&instr("brk", AddrMode::Implied), &symbols), Ok(()));
    assert_eq!(blob.gen_instruction(&instr("inc", AddrMode::Implied), &symbols), Ok(()));
    assert_eq!(blob.gen_instruction(&instr("lda", AddrMode::Immediate(32)), &symbols), Ok(()));
    assert_eq!(blob.gen_instruction(&instr("cmp", AddrMode::Immediate(0xf0)), &symbols), Ok(()));
    assert_eq!(blob.bytes(), &vec![0x00, 0x1a, 0xa9, 32, 0xc9, 0xf0]);
    assert_eq!(blob.size(), 6);
}

#[test]
fn invalid_addressing_mode_leaves_the_blob() {
    let symbols = SymbolTable::new();
    let mut blob = CodeBlob::new();
    assert_eq!(blob.gen_instruction(&instr("nop", AddrMode::Implied), &symbols), Ok(()));
    let cases: Vec<(Instruction, Diagnostic)> = vec![
        (
            instr("lda", AddrMode::Implied),
            Diagnostic::InvalidAddressingMode(Mnemonic::LDA, 0),
        ),
        (
            instr("rts", AddrMode::Immediate(1)),
            Diagnostic::InvalidAddressingMode(Mnemonic::RTS, 1),
        ),
        (
            instr("jmp", mem(IndexMode::NoIndex, 0x10)),
            Diagnostic::InvalidAddressingMode(Mnemonic::JMP, 2),
        ),
        (
            instr("jsr", var(IndexMode::IndexedX, "f")),
            Diagnostic::InvalidAddressingMode(Mnemonic::JSR, 9),
        ),
        (
            instr("rmb0", var(IndexMode::NoIndex, "unknown")),
            Diagnostic::InvalidAddressingMode(Mnemonic::RMB0, 8),
        ),
        (
            instr("what", AddrMode::Implied),
            Diagnostic::InvalidAddressingMode(Mnemonic::Invalid, 0),
        ),
    ];
    for (instruction, expected) in cases {
        assert_eq!(blob.gen_instruction(&instruction, &symbols), Err(expected));
        assert_eq!(blob.bytes(), &vec![0xea]);
    }
    assert_eq!(blob.resolve_symbols(0xe000, &symbols), vec![]);
    assert_eq!(
        Diagnostic::InvalidAddressingMode(Mnemonic::LDA, 0).message(),
        "invalid addressing mode for mnemonic LDA"
    );
}

#[test]
fn labels_and_data() {
    let symbols = SymbolTable::new();
    let mut blob = CodeBlob::new();
    blob.insert_label("start");
    assert_eq!(blob.gen_data(&DataPlacement::Str("hi\u{e9}".into())), Ok(()));
    blob.insert_label("after");
    assert_eq!(blob.gen_data(&DataPlacement::Word(MemRef::Addr(0x1234))), Ok(()));
    assert_eq!(blob.gen_data(&DataPlacement::Word(MemRef::Variable("start".into()))), Ok(()));
    assert_eq!(blob.gen_data(&DataPlacement::Str("".into())), Ok(()));
    assert_eq!(
        blob.gen_stmt(&AsmStmt::new_const_label("io".into(), 0xd000), &symbols),
        Ok(())
    );
    assert_eq!(blob.gen_stmt(&AsmStmt::new_label("end".into()), &symbols), Ok(()));
    assert_eq!(
        blob.bytes(),
        &vec![b'h', b'i', 0xc3, 0xa9, 0x00, 0x34, 0x12, 0x00, 0x00, 0x00]
    );
    assert_eq!(blob.symbols().find("start"), Some(0));
    assert_eq!(blob.symbols().find("after"), Some(5));
    assert_eq!(blob.symbols().find("end"), Some(10));
    assert_eq!(blob.symbols().find("io"), None);

    let mut global = SymbolTable::new();
    global.insert_table(blob.symbols(), 0xe000);
    assert_eq!(blob.resolve_symbols(0xe000, &global), vec![]);
    assert_eq!(
        blob.bytes(),
        &vec![b'h', b'i', 0xc3, 0xa9, 0x00, 0x34, 0x12, 0x00, 0xe0, 0x00]
    );
}

#[test]
fn word_of_a_known_symbol_is_still_relocated() {
    let mut symbols = SymbolTable::new();
    symbols.insert("io", 0xd012);
    let mut blob = CodeBlob::new();
    assert_eq!(
        blob.gen_stmt(
            &AsmStmt::Data(DataPlacement::Word(MemRef::Variable("io".into()))),
            &symbols
        ),
        Ok(())
    );
    assert_eq!(blob.bytes(), &vec![0, 0]);
    assert_eq!(blob.resolve_symbols(0, &symbols), vec![]);
    assert_eq!(blob.bytes(), &vec![0x12, 0xd0]);
}

#[test]
fn relocations_are_resolved() {
    let symbols = SymbolTable::new();
    let mut blob = CodeBlob::new();
    let stmts = vec![
        AsmStmt::new_label("top".into()),
        AsmStmt::new_instr("jsr".into(), var(IndexMode::NoIndex, "func")),
        AsmStmt::new_instr("bne".into(), var(IndexMode::NoIndex, "top")),
        AsmStmt::new_instr("beq".into(), var(IndexMode::NoIndex, "func")),
        AsmStmt::new_instr("nop".into(), AddrMode::Implied),
        AsmStmt::new_label("func".into()),
        AsmStmt::new_instr("lda".into(), var(IndexMode::IndexedX, "func")),
        AsmStmt::new_instr("rts".into(), AddrMode::Implied),
    ];
    for stmt in stmts.iter() {
        assert_eq!(blob.gen_stmt(stmt, &symbols), Ok(()));
    }
    assert_eq!(
        blob.bytes(),
        &vec![0x20, 0, 0, 0xd0, 0, 0xf0, 0, 0xea, 0xbd, 0, 0, 0x60]
    );
    let mut global = SymbolTable::new();
    global.insert_table(blob.symbols(), 0xe100);
    assert_eq!(global.find("top"), Some(0xe100));
    assert_eq!(global.find("func"), Some(0xe108));
    assert_eq!(blob.resolve_symbols(0xe100, &global), vec![]);
    let resolved = vec![
        0x20, 0x08, 0xe1, 0xd0, 0xfb, 0xf0, 0x01, 0xea, 0xbd, 0x08, 0xe1, 0x60,
    ];
    assert_eq!(blob.bytes(), &resolved);
    assert_eq!(blob.resolve_symbols(0xe100, &global), vec![]);
    assert_eq!(blob.bytes(), &resolved);
}

#[test]
fn undefined_symbols_are_reported_and_left() {
    let symbols = SymbolTable::new();
    let mut blob = CodeBlob::new();
    assert_eq!(
        blob.gen_instruction(&instr("jmp", var(IndexMode::NoIndex, "a")), &symbols),
        Ok(())
    );
    assert_eq!(
        blob.gen_instruction(&instr("bcc", var(IndexMode::NoIndex, "b")), &symbols),
        Ok(())
    );
    assert_eq!(
        blob.gen_instruction(&instr("sta", var(IndexMode::NoIndex, "c")), &symbols),
        Ok(())
    );
    let mut global = SymbolTable::new();
    global.insert("c", 0x0203);
    let diagnostics = blob.resolve_symbols(0x1000, &global);
    assert_eq!(
        diagnostics,
        vec![
            Diagnostic::UndefinedSymbol("a".into()),
            Diagnostic::UndefinedSymbol("b".into()),
        ]
    );
    assert_eq!(diagnostics[0].message(), "undefined reference to symbol a");
    assert_eq!(blob.bytes(), &vec![0x4c, 0, 0, 0x90, 0, 0x8d, 0x03, 0x02]);
}

#[test]
fn branch_distance_limits() {
    let symbols = SymbolTable::new();
    let cases: Vec<(u16, Option<u8>)> = vec![
        (0x1002, Some(0x00)),
        (0x1003, Some(0x01)),
        (0x1081, Some(0x7f)),
        (0x1082, None),
        (0x1001, Some(0xff)),
        (0x0f82, Some(0x80)),
        (0x0f81, None),
    ];
    for (target, expected) in cases {
        let mut blob = CodeBlob::new();
        assert_eq!(
            blob.gen_instruction(&instr("bra", var(IndexMode::NoIndex, "t")), &symbols),
            Ok(())
        );
        let mut global = SymbolTable::new();
        global.insert("t", target);
        let diagnostics = blob.resolve_symbols(0x1000, &global);
        match expected {
            Some(byte) => {
                assert_eq!(diagnostics, vec![]);
                assert_eq!(blob.bytes(), &vec![0x80, byte]);
            }
            None => {
                assert_eq!(diagnostics, vec![Diagnostic::BranchTooFar("t".into())]);
                assert_eq!(
                    diagnostics[0].message(),
                    "cannot always branch to symbol t, distance too far"
                );
                let delta = target as i32 - 0x1002;
                assert_eq!(blob.bytes(), &vec![0x80, delta as u8]);
            }
        }
    }
}

#[test]
fn section_size_is_limited() {
    let symbols = SymbolTable::new();
    let mut blob = CodeBlob::new();
    let text = "x".repeat(MAX_SECTION_SIZE - 3);
    assert_eq!(blob.gen_data(&DataPlacement::Str(text)), Ok(()));
    assert_eq!(blob.size(), MAX_SECTION_SIZE - 2);
    assert_eq!(
        blob.gen_instruction(&instr("lda", mem(IndexMode::NoIndex, 0x1234)), &symbols),
        Err(Diagnostic::SectionTooLarge)
    );
    assert_eq!(
        blob.gen_data(&DataPlacement::Str("ab".into())),
        Err(Diagnostic::SectionTooLarge)
    );
    assert_eq!(blob.size(), MAX_SECTION_SIZE - 2);
    assert_eq!(
        blob.gen_instruction(&instr("lda", mem(IndexMode::NoIndex, 0x12)), &symbols),
        Ok(())
    );
    assert_eq!(blob.size(), MAX_SECTION_SIZE);
    assert_eq!(
        blob.gen_data(&DataPlacement::Word(MemRef::Addr(1))),
        Err(Diagnostic::SectionTooLarge)
    );
    assert_eq!(
        blob.gen_data(&DataPlacement::Word(MemRef::Variable("a".into()))),
        Err(Diagnostic::SectionTooLarge)
    );
    assert_eq!(
        blob.gen_data(&DataPlacement::Str("".into())),
        Err(Diagnostic::SectionTooLarge)
    );
    assert_eq!(
        blob.gen_instruction(&instr("nop", AddrMode::Implied), &symbols),
        Err(Diagnostic::SectionTooLarge)
    );
    blob.insert_label("end");
    assert_eq!(blob.symbols().find("end"), Some(0xffff));
    assert_eq!(blob.size(), MAX_SECTION_SIZE);
    assert_eq!(
        Diagnostic::SectionTooLarge.message(),
        "section does not fit into 65535 bytes"
    );
}

#[test]
fn dump_moves_the_bytes() {
    let symbols = SymbolTable::new();
    let mut blob = CodeBlob::new();
    blob.insert_label("here");
    assert_eq!(
        blob.gen_instruction(&instr("jmp", var(IndexMode::NoIndex, "here")), &symbols),
        Ok(())
    );
    let mut binary = vec![0xaa];
    blob.dump(&mut binary);
    assert_eq!(binary, vec![0xaa, 0x4c, 0x00, 0x00]);
    assert_eq!(blob.size(), 0);
    assert_eq!(blob.symbols().find("here"), Some(0));
    assert_eq!(blob.resolve_symbols(0, &symbols), vec![]);
}
