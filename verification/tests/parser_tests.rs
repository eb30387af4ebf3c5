use asm65c02::errors::ErrorMessage;
use asm65c02::lexer::AsmToken;
use asm65c02::model::{AddrMode, AsmStmt, DataPlacement, IndexMode, Instruction, MemRef};
use asm65c02::parser::{AsmParseError, AsmParser};
use asm65c02::sink::SectionSink;
use std::collections::HashMap;

struct StmtCollector {
    stmts: HashMap<String, Vec<AsmStmt>>,
}

impl StmtCollector {
    pub fn new() -> StmtCollector {
        StmtCollector {
            stmts: HashMap::new(),
        }
    }

    pub fn statements(&self) -> &Vec<AsmStmt> {
        self.section_statements("text")
    }

    pub fn section_statements(&self, name: &str) -> &Vec<AsmStmt> {
        self.stmts.get(name).unwrap()
    }
}

impl SectionSink for StmtCollector {
    fn push_section(&mut self, name: &str, stmts: Vec<AsmStmt>) {
        let mut stmts = stmts;
        if let Some(section_stmts) = self.stmts.get_mut(name) {
            section_stmts.append(&mut stmts);
        } else {
            self.stmts.insert(name.into(), stmts);
        }
    }
}

#[test]
fn simple_sections() {
    let mut parser = AsmParser::new(
        &r#"
            brk
            clc
            section other_section
            cli
            section text
            sei
        "#,
    );
    let mut stmts = StmtCollector::new();
    parser.parse(&mut stmts);

    assert_eq!(parser.errors().len(), 0);
    assert_eq!(
        *stmts.section_statements("text"),
        vec![
            AsmStmt::new_instr("brk".into(), AddrMode::Implied),
            AsmStmt::new_instr("clc".into(), AddrMode::Implied),
            AsmStmt::new_instr("sei".into(), AddrMode::Implied),
        ]
    );
    assert_eq!(
        *stmts.section_statements("other_section"),
        vec![AsmStmt::new_instr("cli".into(), AddrMode::Implied),]
    );
}

#[test]
fn simple_labels() {
    let mut parser = AsmParser::new(
        &r#"
            brk
            driver_addr = $34;
        my_label:
            no_label
        tw: lda variable
    "#,
    );
    let mut stmts = StmtCollector::new();
    parser.parse(&mut stmts);

    assert_eq!(parser.errors().len(), 0);
    assert_eq!(
        *stmts.statements(),
        vec![
            AsmStmt::new_instr("brk".into(), AddrMode::Implied),
            AsmStmt::new_const_label("driver_addr".into(), 0x34),
            AsmStmt::new_label("my_label".into()),
            AsmStmt::new_instr("no_label".into(), AddrMode::Implied),
            AsmStmt::new_label("tw".into()),
            AsmStmt::new_instr(
                "lda".into(),
                AddrMode::Memory(IndexMode::NoIndex, MemRef::Variable("variable".into()))
            ),
        ]
    );
}

#[test]
fn parse_implied_and_immediate() {
    let mut parser = AsmParser::new(
        &r#"
        brk
        inc ; inx
        dec;
        rts
        lda #32;
        cmp #0xf0 ; rti
    "#,
    );
    let mut stmts = StmtCollector::new();
    parser.parse(&mut stmts);

    assert_eq!(parser.errors().len(), 0);
    assert_eq!(
        *stmts.statements(),
        vec![
            AsmStmt::new_instr("brk".into(), AddrMode::Implied),
            AsmStmt::new_instr("inc".into(), AddrMode::Implied),
            AsmStmt::new_instr("inx".into(), AddrMode::Implied),
            AsmStmt::new_instr("dec".into(), AddrMode::Implied),
            AsmStmt::new_instr("rts".into(), AddrMode::Implied),
            AsmStmt::new_instr("lda".into(), AddrMode::Immediate(32)),
            AsmStmt::new_instr("cmp".into(), AddrMode::Immediate(0xf0)),
            AsmStmt::new_instr("rti".into(), AddrMode::Implied),
        ]
    );
}

#[test]
fn parse_direct_mem_refs() {
    let mut parser = AsmParser::new(
        &r#"
        jsr my_function
        lda $32
        stz 0xff
        ldx 218
        stx 0x8000
    "#,
    );
    let mut stmts = StmtCollector::new();
    parser.parse(&mut stmts);

    assert_eq!(parser.errors().len(), 0);
    assert_eq!(
        *stmts.statements(),
        vec![
            AsmStmt::new_instr(
                "jsr".into(),
                AddrMode::Memory(IndexMode::NoIndex, MemRef::Variable("my_function".into()))
            ),
            AsmStmt::new_instr(
                "lda".into(),
                AddrMode::Memory(IndexMode::NoIndex, MemRef::Addr(0x32))
            ),
            AsmStmt::new_instr(
                "stz".into(),
                AddrMode::Memory(IndexMode::NoIndex, MemRef::Addr(0xff))
            ),
            AsmStmt::new_instr(
                "ldx".into(),
                AddrMode::Memory(IndexMode::NoIndex, MemRef::Addr(218))
            ),
            AsmStmt::new_instr(
                "stx".into(),
                AddrMode::Memory(IndexMode::NoIndex, MemRef::Addr(0x8000))
            ),
        ]
    );
}

#[test]
fn parse_indexed_mem_refs() {
    let mut parser = AsmParser::new("lda $10: X\nsta table:y\nldx 5 : z\nldy 6: 7\n");
    let mut stmts = StmtCollector::new();
    parser.parse(&mut stmts);
    assert_eq!(
        *stmts.statements(),
        vec![
            AsmStmt::new_instr(
                "lda".into(),
                AddrMode::Memory(IndexMode::IndexedX, MemRef::Addr(0x10))
            ),
            AsmStmt::new_instr(
                "sta".into(),
                AddrMode::Memory(IndexMode::IndexedY, MemRef::Variable("table".into()))
            ),
        ]
    );
    let errors = parser.errors();
    assert_eq!(errors.len(), 2);
    assert_eq!(
        *errors[0].error_type(),
        AsmParseError::InvalidIndexRegister("z".into())
    );
    assert_eq!(errors[0].line(), 3);
    assert_eq!(
        errors[0].report(),
        "parse error: line 3: unknown index register 'z', use X or Y"
    );
    assert_eq!(
        *errors[1].error_type(),
        AsmParseError::UnexpectedToken(AsmToken::DecInteger)
    );
    assert_eq!(errors[1].line(), 4);
    assert_eq!(
        parser.error_reports(),
        vec![
            "parse error: line 3: unknown index register 'z', use X or Y".to_string(),
            "parse error: line 4: unexpected token: DecInteger".to_string(),
        ]
    );
}

#[test]
fn parse_comma_is_no_index_separator() {
    let mut parser = AsmParser::new("lda $10, x\nrts");
    let mut stmts = StmtCollector::new();
    parser.parse(&mut stmts);
    assert_eq!(
        *stmts.statements(),
        vec![
            AsmStmt::new_instr(
                "lda".into(),
                AddrMode::Memory(IndexMode::NoIndex, MemRef::Addr(0x10))
            ),
            AsmStmt::new_instr("rts".into(), AddrMode::Implied),
        ]
    );
    assert_eq!(parser.errors().len(), 1);
    assert_eq!(*parser.errors()[0].error_type(), AsmParseError::ExcessTokens(1));
    assert_eq!(parser.errors()[0].line(), 1);
}

#[test]
fn parse_data_placements() {
    let mut parser = AsmParser::new(".str \"hi there\"\n.word $1234\n.word start\n.str 5\n");
    let mut stmts = StmtCollector::new();
    parser.parse(&mut stmts);
    assert_eq!(
        *stmts.statements(),
        vec![
            AsmStmt::Data(DataPlacement::Str("hi there".into())),
            AsmStmt::Data(DataPlacement::Word(MemRef::Addr(0x1234))),
            AsmStmt::Data(DataPlacement::Word(MemRef::Variable("start".into()))),
        ]
    );
    assert_eq!(parser.errors().len(), 1);
    assert_eq!(
        *parser.errors()[0].error_type(),
        AsmParseError::UnexpectedToken(AsmToken::DecInteger)
    );
}

#[test]
fn parse_reports_errors() {
    let mut parser = AsmParser::new(
        "lda #256\nlda $10000\nio = $10000\nio = x\nlda $1 a b c\n)\n!\nsection 5\n",
    );
    let mut stmts = StmtCollector::new();
    parser.parse(&mut stmts);
    assert_eq!(
        *stmts.statements(),
        vec![AsmStmt::new_instr(
            "lda".into(),
            AddrMode::Memory(IndexMode::NoIndex, MemRef::Addr(1))
        )]
    );
    let kinds: Vec<(&AsmParseError, u32)> = parser
        .errors()
        .iter()
        .map(|e| (e.error_type(), e.line()))
        .collect();
    assert_eq!(
        kinds,
        vec![
            (&AsmParseError::ImmediateTooLarge, 1),
            (&AsmParseError::AddressTooLarge, 2),
            (&AsmParseError::AddressTooLarge, 3),
            (&AsmParseError::UnexpectedToken(AsmToken::Identifier), 4),
            (&AsmParseError::ExcessTokens(2), 5),
            (&AsmParseError::UnexpectedToken(AsmToken::ParensClose), 6),
            (&AsmParseError::UnexpectedToken(AsmToken::Error), 7),
            (&AsmParseError::UnexpectedToken(AsmToken::DecInteger), 8),
        ]
    );
}

#[test]
fn parse_error_messages() {
    assert_eq!(
        AsmParseError::UnexpectedToken(AsmToken::Error).error_msg(),
        "unrecognized token"
    );
    assert_eq!(
        AsmParseError::UnexpectedToken(AsmToken::Comma).error_msg(),
        "unexpected token: Comma"
    );
    assert_eq!(
        AsmParseError::ImmediateTooLarge.error_msg(),
        "immediate value does not fit into 8 bits"
    );
    assert_eq!(
        AsmParseError::AddressTooLarge.error_msg(),
        "address does not fit into 8 or 16 bits"
    );
    assert_eq!(
        AsmParseError::InvalidIndexRegister("q".into()).error_msg(),
        "unknown index register 'q', use X or Y"
    );
    assert_eq!(
        AsmParseError::ExcessTokens(120).error_msg(),
        "120 excess tokens after construct"
    );
}

#[test]
fn parse_immediate_without_number_is_dropped() {
    let mut parser = AsmParser::new("lda #x\nrts");
    let mut stmts = StmtCollector::new();
    parser.parse(&mut stmts);
    assert_eq!(parser.errors().len(), 0);
    assert_eq!(
        *stmts.statements(),
        vec![AsmStmt::new_instr("rts".into(), AddrMode::Implied)]
    );
}

#[test]
fn instruction_parse_tests_parse_implied_and_immediate() {
    let mut parser = AsmParser::new(
        &r#"
            brk
            inc ; inx
            dec;
            rts
            lda #32;
            cmp #0xf0 ; rti
        "#,
    );
    let mut stmts = StmtCollector::new();
    parser.parse(&mut stmts);

    assert_eq!(parser.errors().len(), 0);
    assert_eq!(
        *stmts.statements(),
        vec![
            AsmStmt::AsmInstruction(Instruction::new("brk".into(), AddrMode::Implied)),
            AsmStmt::AsmInstruction(Instruction::new("inc".into(), AddrMode::Implied)),
            AsmStmt::AsmInstruction(Instruction::new("inx".into(), AddrMode::Implied)),
            AsmStmt::AsmInstruction(Instruction::new("dec".into(), AddrMode::Implied)),
            AsmStmt::AsmInstruction(Instruction::new("rts".into(), AddrMode::Implied)),
            AsmStmt::AsmInstruction(Instruction::new("lda".into(), AddrMode::Immediate(32))),
            AsmStmt::AsmInstruction(Instruction::new("cmp".into(), AddrMode::Immediate(0xf0))),
            AsmStmt::AsmInstruction(Instruction::new("rti".into(), AddrMode::Implied)),
        ]
    );
}

#[test]
fn instruction_parse_tests_parse_direct_mem_refs() {
    let mut parser = AsmParser::new(
        &r#"
            jsr my_function
            lda $32
            stz 0xff
            ldx 218
            stx 0x8000
        "#,
    );
    let mut stmts = StmtCollector::new();
    parser.parse(&mut stmts);

    assert_eq!(parser.errors().len(), 0);
    assert_eq!(
        *stmts.statements(),
        vec![
            AsmStmt::AsmInstruction(Instruction::new(
                "jsr".into(),
                AddrMode::Memory(IndexMode::NoIndex, MemRef::Variable("my_function".into()))
            )),
            AsmStmt::AsmInstruction(Instruction::new(
                "lda".into(),
                AddrMode::Memory(IndexMode::NoIndex, MemRef::Addr(0x32))
            )),
            AsmStmt::AsmInstruction(Instruction::new(
                "stz".into(),
                AddrMode::Memory(IndexMode::NoIndex, MemRef::Addr(0xff))
            )),
            AsmStmt::AsmInstruction(Instruction::new(
                "ldx".into(),
                AddrMode::Memory(IndexMode::NoIndex, MemRef::Addr(218))
            )),
            AsmStmt::AsmInstruction(Instruction::new(
                "stx".into(),
                AddrMode::Memory(IndexMode::NoIndex, MemRef::Addr(0x8000))
            )),
        ]
    );
}

#[test]
fn parse_sections_returns_what_is_handed_over() {
    let mut parser = AsmParser::new("brk\nsection data\n.word 1\nsection text\nrts");
    let sections = parser.parse_sections();
    let names: Vec<&str> = sections.iter().map(|s| s.name.as_str()).collect();
    assert_eq!(names, vec!["text", "data", "text"]);
    assert_eq!(sections[0].stmts, vec![AsmStmt::new_instr("brk".into(), AddrMode::Implied)]);
    assert_eq!(
        sections[1].stmts,
        vec![AsmStmt::Data(DataPlacement::Word(MemRef::Addr(1)))]
    );
    assert_eq!(sections[2].stmts, vec![AsmStmt::new_instr("rts".into(), AddrMode::Implied)]);

    let mut empty = AsmParser::new("");
    let sections = empty.parse_sections();
    assert_eq!(sections.len(), 1);
    assert_eq!(sections[0].name, "text");
    assert!(sections[0].stmts.is_empty());
}

#[test]
fn parse_instruction_reads_from_the_current_token() {
    let mut parser = AsmParser::new("");
    parser.parse_instruction("rts".into());
    assert_eq!(parser.errors().len(), 1);
    assert_eq!(
        *parser.errors()[0].error_type(),
        AsmParseError::UnexpectedToken(AsmToken::Error)
    );
    let sections = parser.parse_sections();
    assert_eq!(sections.len(), 1);
    assert!(sections[0].stmts.is_empty());
}
