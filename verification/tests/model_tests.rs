use asm65c02::mnemonic::{Mnemonic, MNEMONIC_COUNT};
use asm65c02::model::{AddrMode, AsmStmt, IndexMode, Instruction, MemRef};
use asm65c02::opcode::{
    get_opcode, lookup_cell, SLOT_ABSOLUTE, SLOT_IMMEDIATE, SLOT_IMPLIED, SLOT_RELATIVE,
    SLOT_ZERO_PAGE,
};

#[test]
fn mnemonic_index_round_trip() {
    assert_eq!(MNEMONIC_COUNT, 99);
    for i in 0..MNEMONIC_COUNT {
        let m = Mnemonic::from_index(i).unwrap();
        assert_eq!(m.index(), i);
        assert_eq!(Mnemonic::from_name(m.name()), Some(m));
    }
    assert_eq!(Mnemonic::from_index(MNEMONIC_COUNT), None);
    assert_eq!(Mnemonic::BRK.index(), 0);
    assert_eq!(Mnemonic::LDA.index(), 64);
    assert_eq!(Mnemonic::BBS7.index(), 97);
    assert_eq!(Mnemonic::Invalid.index(), 98);
}

#[test]
fn mnemonic_names() {
    assert_eq!(Mnemonic::from_name("BRK"), Some(Mnemonic::BRK));
    assert_eq!(Mnemonic::from_name("RMB7"), Some(Mnemonic::RMB7));
    assert_eq!(Mnemonic::from_name("Invalid"), Some(Mnemonic::Invalid));
    assert_eq!(Mnemonic::from_name("lda"), None);
    assert_eq!(Mnemonic::from_name("LD"), None);
    assert_eq!(Mnemonic::from_name("LDAX"), None);
    assert_eq!(Mnemonic::from_name(""), None);
    assert_eq!(Mnemonic::STA.name(), "STA");
}

#[test]
fn instruction_new_reads_any_case() {
    let lower = Instruction::new("lda".into(), AddrMode::Implied);
    let mixed = Instruction::new("LdA".into(), AddrMode::Immediate(1));
    let upper = Instruction::new("LDA".into(), AddrMode::Implied);
    assert_eq!(lower.mnemonic(), Mnemonic::LDA);
    assert_eq!(mixed.mnemonic(), Mnemonic::LDA);
    assert_eq!(upper.mnemonic(), Mnemonic::LDA);
    assert_eq!(lower.mnemonic_index(), 64);
    assert_eq!(mixed.addr_mode(), AddrMode::Immediate(1));
    assert_eq!(lower, upper);
    assert_eq!(Instruction::mnemonic_named("BNE"), Mnemonic::BNE);
    assert_eq!(Instruction::mnemonic_named("bne"), Mnemonic::Invalid);
}

#[test]
fn instruction_new_unknown_name_is_invalid() {
    let unknown = Instruction::new("no_label".into(), AddrMode::Implied);
    assert_eq!(unknown.mnemonic(), Mnemonic::Invalid);
    assert_eq!(unknown.mnemonic_index(), 98);
    let invalid = Instruction::new("invalid".into(), AddrMode::Implied);
    assert_eq!(invalid.mnemonic(), Mnemonic::Invalid);
    assert_eq!(
        unknown,
        Instruction::with_mnemonic(Mnemonic::Invalid, AddrMode::Implied)
    );
}

#[test]
fn instruction_accessors() {
    let mode = AddrMode::Memory(IndexMode::IndexedX, MemRef::Variable("table".into()));
    let instruction = Instruction::with_mnemonic(Mnemonic::STA, mode.clone());
    assert_eq!(instruction.addr_mode(), mode);
    assert_eq!(instruction.mnemonic(), Mnemonic::STA);
    assert!(!instruction.has_rel_addressing());
    assert!(Instruction::new("bne".into(), AddrMode::Implied).has_rel_addressing());
    assert!(Instruction::new("bra".into(), AddrMode::Implied).has_rel_addressing());
    assert!(!Instruction::new("jmp".into(), AddrMode::Implied).has_rel_addressing());
}

#[test]
fn statement_builders() {
    assert_eq!(
        AsmStmt::new_instr("rts".into(), AddrMode::Implied),
        AsmStmt::AsmInstruction(Instruction::with_mnemonic(Mnemonic::RTS, AddrMode::Implied))
    );
    assert_eq!(AsmStmt::new_label("a".into()), AsmStmt::Label("a".into()));
    assert_eq!(
        AsmStmt::new_const_label("io".into(), 0xd000),
        AsmStmt::ConstLabel("io".into(), 0xd000)
    );
}

#[test]
fn opcode_table_cells() {
    let lda = Mnemonic::LDA;
    assert_eq!(lookup_cell(lda, SLOT_IMPLIED), None);
    assert_eq!(lookup_cell(lda, SLOT_IMMEDIATE), Some(0xa9));
    assert_eq!(lookup_cell(lda, SLOT_ZERO_PAGE), Some(0xa5));
    assert_eq!(lookup_cell(lda, SLOT_ZERO_PAGE + 1), Some(0xb5));
    assert_eq!(lookup_cell(lda, SLOT_ZERO_PAGE + 2), None);
    assert_eq!(lookup_cell(lda, SLOT_ABSOLUTE), Some(0xad));
    assert_eq!(lookup_cell(lda, SLOT_ABSOLUTE + 1), Some(0xbd));
    assert_eq!(lookup_cell(lda, SLOT_ABSOLUTE + 2), Some(0xb9));
    assert_eq!(lookup_cell(lda, SLOT_RELATIVE), None);
    assert_eq!(lookup_cell(Mnemonic::LDX, SLOT_ZERO_PAGE + 2), Some(0xb6));
    assert_eq!(lookup_cell(Mnemonic::STZ, SLOT_ABSOLUTE + 1), Some(0x9e));
    assert_eq!(lookup_cell(Mnemonic::BRK, SLOT_IMPLIED), Some(0x00));
    assert_eq!(lookup_cell(Mnemonic::NOP, SLOT_IMPLIED), Some(0xea));
    assert_eq!(lookup_cell(Mnemonic::JSR, SLOT_ABSOLUTE), Some(0x20));
    assert_eq!(lookup_cell(Mnemonic::JMP, SLOT_ABSOLUTE), Some(0x4c));
    assert_eq!(lookup_cell(Mnemonic::BNE, SLOT_RELATIVE), Some(0xd0));
    assert_eq!(lookup_cell(Mnemonic::BRA, SLOT_RELATIVE), Some(0x80));
    assert_eq!(lookup_cell(Mnemonic::SMB7, SLOT_ZERO_PAGE), Some(0xf7));
    for slot in 0..20 {
        assert_eq!(lookup_cell(Mnemonic::Invalid, slot), None);
        assert_eq!(lookup_cell(Mnemonic::BBR0, slot), None);
    }
    for slot in [5, 6, 7, 11, 12, 14, 15, 100] {
        assert_eq!(lookup_cell(lda, slot), None);
    }
}

#[test]
fn opcode_table_holds_each_opcode_once() {
    let mut seen = vec![false; 256];
    let mut count = 0;
    for i in 0..MNEMONIC_COUNT {
        let m = Mnemonic::from_index(i).unwrap();
        for slot in 0..16 {
            if let Some(op) = lookup_cell(m, slot) {
                assert!(!seen[op as usize]);
                seen[op as usize] = true;
                count += 1;
            }
        }
    }
    assert_eq!(count, 170);
}

#[test]
fn get_opcode_falls_back_to_relative_once() {
    let bne = Mnemonic::BNE.index();
    assert_eq!(get_opcode(bne, SLOT_RELATIVE), Some(0xd0));
    assert_eq!(get_opcode(bne, SLOT_ABSOLUTE), Some(0xd0));
    assert_eq!(get_opcode(bne, SLOT_ZERO_PAGE), Some(0xd0));
    assert_eq!(get_opcode(bne, SLOT_IMPLIED), Some(0xd0));
    let lda = Mnemonic::LDA.index();
    assert_eq!(get_opcode(lda, SLOT_IMMEDIATE), Some(0xa9));
    assert_eq!(get_opcode(lda, SLOT_IMPLIED), None);
    assert_eq!(get_opcode(lda, SLOT_RELATIVE), None);
    assert_eq!(get_opcode(Mnemonic::JMP.index(), SLOT_ZERO_PAGE), None);
    assert_eq!(get_opcode(MNEMONIC_COUNT, SLOT_IMPLIED), None);
    assert_eq!(get_opcode(usize::MAX, SLOT_IMPLIED), None);
}
