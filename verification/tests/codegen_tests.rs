use asm65c02::codegen::CodeGenerator;
use asm65c02::diagnostic::Diagnostic;
use asm65c02::ldscript::LdSection;
use asm65c02::mnemonic::Mnemonic;
use asm65c02::model::{AddrMode, AsmStmt, DataPlacement, IndexMode, MemRef};
use asm65c02::parser::AsmParser;
use asm65c02::sink::SectionSink;

fn op(name: &str) -> AsmStmt {
    AsmStmt::new_instr(name.into(), AddrMode::Implied)
}

fn refer(name: &str, symbol: &str) -> AsmStmt {
    AsmStmt::new_instr(
        name.into(),
        AddrMode::Memory(IndexMode::NoIndex, MemRef::Variable(symbol.into())),
    )
}

fn label(name: &str) -> AsmStmt {
    AsmStmt::new_label(name.into())
}

fn nops(n: usize) -> Vec<AsmStmt> {
    (0..n).map(|_| op("nop")).collect()
}

#[test]
fn forward_branch_round_trip() {
    let mut codegen = CodeGenerator::new();
    let mut stmts = vec![refer("bne", "target")];
    stmts.extend(nops(8));
    stmts.push(label("target"));
    stmts.push(op("rts"));
    codegen.push_section("text", stmts);
    let image = codegen.link(vec![LdSection::new("text", Some(0xe000))]).unwrap();
    assert_eq!(image.len(), 11);
    assert_eq!(image[0], 0xd0);
    assert_eq!(image[1], 8);
    assert_eq!(image[10], 0x60);
}

#[test]
fn backward_branch() {
    let mut codegen = CodeGenerator::new();
    codegen.push_section(
        "text",
        vec![label("again"), op("dex"), refer("bne", "again"), op("rts")],
    );
    let image = codegen.link(vec![LdSection::new("text", Some(0x8000))]).unwrap();
    assert_eq!(image, vec![0xca, 0xd0, 0xfd, 0x60]);
}

#[test]
fn branch_too_far_is_reported() {
    let mut codegen = CodeGenerator::new();
    let mut stmts = vec![refer("beq", "target")];
    stmts.extend(nops(128));
    stmts.push(label("target"));
    codegen.push_section("text", stmts);
    let errors = codegen
        .link(vec![LdSection::new("text", Some(0xe000))])
        .unwrap_err();
    assert_eq!(errors, vec![Diagnostic::BranchTooFar("target".into())]);
    assert_eq!(
        errors[0].message(),
        "cannot always branch to symbol target, distance too far"
    );

    let mut codegen = CodeGenerator::new();
    let mut stmts = vec![refer("beq", "target")];
    stmts.extend(nops(127));
    stmts.push(label("target"));
    codegen.push_section("text", stmts);
    let image = codegen.link(vec![LdSection::new("text", Some(0xe000))]).unwrap();
    assert_eq!(image[1], 127);
}

#[test]
fn undefined_symbol_is_reported() {
    let mut codegen = CodeGenerator::new();
    codegen.push_section("text", vec![refer("jsr", "nowhere")]);
    let errors = codegen.link(vec![LdSection::new("text", Some(0xe000))]).unwrap_err();
    assert_eq!(errors, vec![Diagnostic::UndefinedSymbol("nowhere".into())]);
    assert_eq!(errors[0].message(), "undefined reference to symbol nowhere");
}

#[test]
fn cross_section_relocation() {
    for order in [["a", "b"], ["b", "a"]] {
        let mut codegen = CodeGenerator::new();
        for name in order {
            if name == "a" {
                codegen.push_section("a", vec![refer("jsr", "func"), op("rts")]);
            } else {
                codegen.push_section("b", vec![op("nop"), op("nop"), label("func"), op("rts")]);
            }
        }
        let image = codegen
            .link(vec![
                LdSection::new("a", Some(0xe000)),
                LdSection::new("b", Some(0xe100)),
            ])
            .unwrap();
        assert_eq!(image.len(), 0x103);
        assert_eq!(&image[0..4], &[0x20, 0x02, 0xe1, 0x60]);
        assert!(image[4..0x100].iter().all(|b| *b == 0));
        assert_eq!(&image[0x100..], &[0xea, 0xea, 0x60]);
        assert_eq!(codegen.symbols().find("func"), Some(0xe102));
    }
}

#[test]
fn layout_padding() {
    let mut codegen = CodeGenerator::new();
    codegen.push_section("text", nops(4));
    codegen.push_section(
        "vectors",
        vec![AsmStmt::Data(DataPlacement::Word(MemRef::Addr(0xe000)))],
    );
    let image = codegen
        .link(vec![
            LdSection::new("text", Some(0xe000)),
            LdSection::new("vectors", Some(0xfffa)),
        ])
        .unwrap();
    assert_eq!(image.len(), 0xfffa + 2 - 0xe000);
    assert_eq!(&image[0..4], &[0xea, 0xea, 0xea, 0xea]);
    assert!(image[4..0xfffa - 0xe000].iter().all(|b| *b == 0));
    assert_eq!(&image[0xfffa - 0xe000..], &[0x00, 0xe0]);
}

#[test]
fn sections_without_address_follow_their_predecessor() {
    let mut codegen = CodeGenerator::new();
    codegen.push_section("data", vec![label("message"), AsmStmt::Data(DataPlacement::Str("ok".into()))]);
    codegen.push_section(
        "text",
        vec![
            AsmStmt::new_instr(
                "lda".into(),
                AddrMode::Memory(IndexMode::IndexedX, MemRef::Variable("message".into())),
            ),
            op("rts"),
        ],
    );
    let image = codegen
        .link(vec![
            LdSection::new("text", Some(0xe000)),
            LdSection::new("data", None),
        ])
        .unwrap();
    assert_eq!(image, vec![0xbd, 0x04, 0xe0, 0x60, b'o', b'k', 0]);
}

#[test]
fn constant_labels_do_not_move() {
    for base in [0x0200u16, 0xe000, 0xff00] {
        let mut codegen = CodeGenerator::new();
        codegen.push_section(
            "text",
            vec![
                refer("sta", "IO_PORT"),
                refer("lda", "ZP"),
                AsmStmt::Data(DataPlacement::Word(MemRef::Variable("IO_PORT".into()))),
            ],
        );
        codegen.push_section(
            "defs",
            vec![
                AsmStmt::new_const_label("IO_PORT".into(), 0xd000),
                AsmStmt::new_const_label("ZP".into(), 0x42),
            ],
        );
        let image = codegen.link(vec![LdSection::new("text", Some(base))]).unwrap();
        assert_eq!(image, vec![0x8d, 0x00, 0xd0, 0xa5, 0x42, 0x00, 0xd0]);
        assert_eq!(codegen.symbols().find("IO_PORT"), Some(0xd000));
        assert_eq!(codegen.symbols().find("ZP"), Some(0x42));
    }
}

#[test]
fn pseudo_registers_are_zero_page() {
    let mut codegen = CodeGenerator::new();
    assert_eq!(codegen.symbols().find("r31"), Some(31));
    assert_eq!(codegen.symbols().find("r32"), None);
    codegen.push_section("text", vec![refer("lda", "r5"), refer("sta", "r31")]);
    let image = codegen.link(vec![LdSection::new("text", Some(0xe000))]).unwrap();
    assert_eq!(image, vec![0xa5, 5, 0x85, 31]);
}

#[test]
fn every_reference_to_a_symbol_is_patched() {
    let mut codegen = CodeGenerator::new();
    codegen.push_section(
        "text",
        vec![
            refer("jsr", "f"),
            refer("jsr", "f"),
            refer("bne", "f"),
            refer("beq", "f"),
            label("f"),
            op("rts"),
        ],
    );
    let image = codegen.link(vec![LdSection::new("text", Some(0x1000))]).unwrap();
    assert_eq!(
        image,
        vec![0x20, 0x0a, 0x10, 0x20, 0x0a, 0x10, 0xd0, 0x02, 0xf0, 0x00, 0x60]
    );
}

#[test]
fn sections_accumulate() {
    let mut codegen = CodeGenerator::new();
    codegen.push_section("text", vec![op("brk")]);
    codegen.push_section("data", vec![AsmStmt::Data(DataPlacement::Str("a".into()))]);
    codegen.push_section("text", vec![op("rts")]);
    let image = codegen
        .link(vec![
            LdSection::new("text", Some(0xe000)),
            LdSection::new("data", None),
        ])
        .unwrap();
    assert_eq!(image, vec![0x00, 0x60, b'a', 0]);
}

#[test]
fn linking_twice_gives_the_same_image() {
    let mut codegen = CodeGenerator::new();
    codegen.push_section(
        "text",
        vec![label("start"), refer("jmp", "start"), refer("lda", "start")],
    );
    let first = codegen.link(vec![LdSection::new("text", Some(0x0010))]);
    let second = codegen.link(vec![LdSection::new("text", Some(0x0010))]);
    assert_eq!(first, Ok(vec![0x4c, 0x10, 0x00, 0xad, 0x10, 0x00]));
    assert_eq!(first, second);
}

#[test]
fn relocation_is_idempotent() {
    let mut codegen = CodeGenerator::new();
    codegen.push_section(
        "text",
        vec![refer("bne", "far"), refer("jsr", "f"), refer("jsr", "missing"), label("f")],
    );
    codegen.push_section("other", vec![label("far")]);
    let ld = vec![
        LdSection::new("text", Some(0x1000)),
        LdSection::new("other", Some(0x2000)),
    ];
    codegen.collect_symbols();
    assert_eq!(codegen.generate_statements(), vec![]);
    let expected = vec![
        Diagnostic::BranchTooFar("far".into()),
        Diagnostic::UndefinedSymbol("missing".into()),
    ];
    assert_eq!(codegen.resolve_all_symbols(&ld), expected);
    let once = codegen.image(&ld).unwrap();
    assert_eq!(
        &once[0..8],
        &[0xd0, 0xfe, 0x20, 0x08, 0x10, 0x20, 0x00, 0x00]
    );
    assert_eq!(codegen.relocate_blobs(&ld), expected);
    assert_eq!(codegen.image(&ld).unwrap(), once);
}

#[test]
fn generation_diagnostics_come_first() {
    let mut codegen = CodeGenerator::new();
    codegen.push_section("text", vec![op("lda"), refer("jsr", "nowhere"), op("what")]);
    codegen.push_section("data", vec![AsmStmt::new_instr("rts".into(), AddrMode::Immediate(1))]);
    let errors = codegen
        .link(vec![
            LdSection::new("data", None),
            LdSection::new("text", Some(0x10)),
        ])
        .unwrap_err();
    assert_eq!(
        errors,
        vec![
            Diagnostic::InvalidAddressingMode(Mnemonic::LDA, 0),
            Diagnostic::InvalidAddressingMode(Mnemonic::Invalid, 0),
            Diagnostic::InvalidAddressingMode(Mnemonic::RTS, 1),
            Diagnostic::UndefinedSymbol("nowhere".into()),
            Diagnostic::MissingLoadAddress("data".into()),
        ]
    );
}

#[test]
fn layout_errors() {
    let mut codegen = CodeGenerator::new();
    codegen.push_section("text", nops(4));
    codegen.push_section("data", nops(2));

    let errors = codegen.link(vec![LdSection::new("text", None)]).unwrap_err();
    assert_eq!(errors, vec![Diagnostic::MissingLoadAddress("text".into())]);
    assert_eq!(errors[0].message(), "no load address for first section text");

    let errors = codegen
        .link(vec![
            LdSection::new("text", Some(0x1000)),
            LdSection::new("bss", None),
        ])
        .unwrap_err();
    assert_eq!(errors, vec![Diagnostic::UnknownSection("bss".into())]);
    assert_eq!(errors[0].message(), "unknown section bss");

    let errors = codegen
        .link(vec![
            LdSection::new("text", Some(0x1000)),
            LdSection::new("data", Some(0x1003)),
        ])
        .unwrap_err();
    assert_eq!(errors, vec![Diagnostic::LayoutConflict("data".into())]);
    assert_eq!(
        errors[0].message(),
        "load address overlaps previous section in section data"
    );

    let image = codegen
        .link(vec![
            LdSection::new("text", Some(0x1000)),
            LdSection::new("data", Some(0x1004)),
        ])
        .unwrap();
    assert_eq!(image.len(), 6);

    let errors = codegen
        .link(vec![
            LdSection::new("text", Some(0xfffc)),
            LdSection::new("data", None),
        ])
        .unwrap_err();
    assert_eq!(errors, vec![Diagnostic::OutOfAddressSpace("data".into())]);
    assert_eq!(errors[0].message(), "address space exceeded by section data");

    let errors = codegen.link(vec![LdSection::new("text", Some(0xfffd))]).unwrap_err();
    assert_eq!(errors, vec![Diagnostic::OutOfAddressSpace("text".into())]);

    let image = codegen
        .link(vec![
            LdSection::new("text", Some(0xfffa)),
            LdSection::new("data", None),
        ])
        .unwrap();
    assert_eq!(image, vec![0xea; 6]);
}

#[test]
fn empty_link_list_gives_an_empty_image() {
    let mut codegen = CodeGenerator::new();
    codegen.push_section("text", nops(4));
    assert_eq!(codegen.link(vec![]), Ok(vec![]));
}

#[test]
fn later_definitions_overwrite_earlier_ones() {
    let mut codegen = CodeGenerator::new();
    codegen.push_section(
        "text",
        vec![
            AsmStmt::new_const_label("x".into(), 0x10),
            AsmStmt::new_const_label("x".into(), 0x20),
            refer("lda", "x"),
            label("twice"),
            op("nop"),
            label("twice"),
            refer("jmp", "twice"),
        ],
    );
    let image = codegen.link(vec![LdSection::new("text", Some(0x4000))]).unwrap();
    assert_eq!(image, vec![0xa5, 0x20, 0xea, 0x4c, 0x03, 0x40]);
}

#[test]
fn parse_and_link() {
    let source = r#"
        io = $d012
        section text
        start:
            lda #0x41
            sta io
            lda message:x
        loop:
            bne loop
            jmp start
        section data
        message: .str "hi"
        .word start
    "#;
    let mut codegen = CodeGenerator::new();
    let mut parser = AsmParser::new(source);
    parser.parse(&mut codegen);
    assert_eq!(parser.errors().len(), 0);
    let image = codegen
        .link(vec![
            LdSection::new("text", Some(0xe000)),
            LdSection::new("data", None),
        ])
        .unwrap();
    assert_eq!(
        image,
        vec![
            0xa9, 0x41, 0x8d, 0x12, 0xd0, 0xbd, 0x0d, 0xe0, 0xd0, 0xfe, 0x4c, 0x00, 0xe0, b'h',
            b'i', 0x00, 0x00, 0xe0
        ]
    );
}

fn text(s: &str) -> AsmStmt {
    AsmStmt::Data(DataPlacement::Str(s.into()))
}

#[test]
fn text_sections_with_a_gap() {
    let mut codegen = CodeGenerator::new();
    codegen.push_section("text", vec![text("abc")]);
    codegen.push_section("vectors", vec![text("a")]);
    let image = codegen
        .link(vec![
            LdSection::new("text", Some(0xe000)),
            LdSection::new("vectors", Some(0xfffa)),
        ])
        .unwrap();
    assert_eq!(image.len(), 8188);
    assert_eq!(&image[0..4], &[0x61, 0x62, 0x63, 0x00]);
    assert!(image[4..8186].iter().all(|b| *b == 0));
    assert_eq!(&image[8186..], &[0x61, 0x00]);
}

#[test]
fn statements_pushed_twice_are_appended() {
    let mut codegen = CodeGenerator::new();
    codegen.push_section("text", vec![text("a")]);
    codegen.push_section("text", vec![text("b")]);
    let image = codegen.link(vec![LdSection::new("text", Some(0xe000))]).unwrap();
    assert_eq!(image, vec![0x61, 0x00, 0x62, 0x00]);
}

#[test]
fn labels_are_not_visible_at_generation() {
    let mut codegen = CodeGenerator::new();
    codegen.push_section("text", vec![label("here"), refer("lda", "here")]);
    let image = codegen.link(vec![LdSection::new("text", Some(0xe000))]).unwrap();
    assert_eq!(image, vec![0xad, 0x00, 0xe0]);
}

#[test]
fn each_section_is_resolved_for_its_own_base() {
    let mut codegen = CodeGenerator::new();
    codegen.push_section("text", vec![text("ab")]);
    codegen.push_section("code", vec![label("top"), op("nop"), refer("bne", "top")]);
    let image = codegen
        .link(vec![
            LdSection::new("text", Some(0xe000)),
            LdSection::new("code", None),
        ])
        .unwrap();
    assert_eq!(image, vec![0x61, 0x62, 0x00, 0xea, 0xd0, 0xfd]);
}

#[test]
fn forward_branch_over_text() {
    let mut codegen = CodeGenerator::new();
    codegen.push_section(
        "text",
        vec![refer("bne", "target"), text("abcdefg"), label("target"), op("brk")],
    );
    let image = codegen.link(vec![LdSection::new("text", Some(0xe000))]).unwrap();
    assert_eq!(
        image,
        vec![0xd0, 0x08, 0x61, 0x62, 0x63, 0x64, 0x65, 0x66, 0x67, 0x00, 0x00]
    );
}

#[test]
fn push_sections_adds_list_by_list() {
    let source = "brk\nsection data\n.str \"a\"\nsection text\nrts\nsection data\n.str \"b\"";
    let mut parser = AsmParser::new(source);
    let sections = parser.parse_sections();
    assert_eq!(parser.errors().len(), 0);
    let mut by_list = CodeGenerator::new();
    by_list.push_sections(sections);
    let mut by_sink = CodeGenerator::new();
    AsmParser::new(source).parse(&mut by_sink);
    let ld = || {
        vec![
            LdSection::new("data", Some(0x1000)),
            LdSection::new("text", None),
        ]
    };
    let image = by_list.link(ld()).unwrap();
    assert_eq!(image, vec![0x61, 0x00, 0x62, 0x00, 0x00, 0x60]);
    assert_eq!(by_sink.link(ld()), Ok(image));
}

#[test]
fn order_of_sections_does_not_change_the_image() {
    let ld = || {
        vec![
            LdSection::new("a", Some(0x2000)),
            LdSection::new("b", None),
        ]
    };
    let mut one = CodeGenerator::new();
    one.push_section("a", vec![refer("jmp", "there")]);
    one.push_section("b", vec![label("there"), op("rts")]);
    let mut other = CodeGenerator::new();
    other.push_section("b", vec![label("there"), op("rts")]);
    other.push_section("a", vec![refer("jmp", "there")]);
    let image = one.link(ld()).unwrap();
    assert_eq!(image, vec![0x4c, 0x03, 0x20, 0x60]);
    assert_eq!(other.link(ld()), Ok(image));
}
