use asm65c02::ldscript::{parse, LdSection};

#[test]
fn linker_script_parser_test() {
    let sections = parse(
        r#"
        .text @0xe000
        .data
        .vectors @0xfffa
    "#
        .into(),
    )
    .unwrap();
    assert_eq!(
        sections,
        vec![
            LdSection::new("text", Some(0xe000)),
            LdSection::new("data", None),
            LdSection::new("vectors", Some(0xfffa)),
        ]
    );
}

#[test]
fn linker_script_error_test() {
    let sections = parse(
        r#"
        @0x0001
        .text
        .data
        .vectors @0xfffa
    "#
        .into(),
    );
    assert_eq!(sections, Err("unexpected token: '@0x0001'".into()));
}

#[test]
fn linker_script_empty_is_empty_list() {
    assert_eq!(parse(""), Ok(vec![]));
    assert_eq!(parse(" \n\t "), Ok(vec![]));
}

#[test]
fn linker_script_names_and_addresses() {
    let sections = parse(".a_b@0x10 .c").unwrap();
    assert_eq!(sections.len(), 2);
    assert_eq!(sections[0].name(), "a_b");
    assert_eq!(sections[0].load_addr(), Some(0x10));
    assert_eq!(sections[1].name(), "c");
    assert_eq!(sections[1].load_addr(), None);
}

#[test]
fn linker_script_address_too_large() {
    assert_eq!(
        parse(".text @0x10000"),
        Err("address too large: '@0x10000'".into())
    );
    assert_eq!(parse(".text @0xFFFF"), Ok(vec![LdSection::new("text", Some(0xffff))]));
}

#[test]
fn linker_script_unexpected_characters() {
    assert_eq!(parse(".text !"), Err("unexpected token: '!'".into()));
    assert_eq!(parse(". text"), Err("unexpected token: '.'".into()));
    assert_eq!(parse(".text \u{e9}"), Err("unexpected token: '\u{e9}'".into()));
    assert_eq!(parse("@0x"), Err("unexpected token: '@'".into()));
}
