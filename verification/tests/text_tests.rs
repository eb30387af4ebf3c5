use asm65c02::scan::{class_holds, parse_number, scan_run, ByteClass};
use asm65c02::symtab::SymbolTable;
use asm65c02::text::{push_decimal, str_eq, substring};

#[test]
fn str_eq_compares_texts() {
    assert!(str_eq("", ""));
    assert!(str_eq("abc", "abc"));
    assert!(!str_eq("abc", "abd"));
    assert!(!str_eq("abc", "ab"));
    assert!(!str_eq("", "a"));
    assert!(str_eq("h\u{e9}", "h\u{e9}"));
    assert!(!str_eq("h\u{e9}", "h\u{e8}"));
}

#[test]
fn substring_between_boundaries() {
    let text = "ab\u{e9}cd";
    assert_eq!(substring(text, 0, 0), "");
    assert_eq!(substring(text, 0, 2), "ab");
    assert_eq!(substring(text, 2, 4), "\u{e9}");
    assert_eq!(substring(text, 4, 6), "cd");
    assert_eq!(substring(text, 0, 6), text);
    assert_eq!(substring(text, 6, 6), "");
}

#[test]
fn push_decimal_writes_digits() {
    for (n, expected) in [
        (0u64, "0"),
        (7, "7"),
        (10, "10"),
        (42, "42"),
        (1900, "1900"),
        (u64::MAX, "18446744073709551615"),
    ] {
        let mut text = String::from("line ");
        push_decimal(&mut text, n);
        assert_eq!(text, format!("line {}", expected));
    }
}

#[test]
fn byte_classes() {
    for b in 0..=255u8 {
        let c = b as char;
        assert_eq!(class_holds(ByteClass::Blank, b), c == ' ' || c == '\t' || b == 0x0c);
        assert_eq!(
            class_holds(ByteClass::Space, b),
            c == ' ' || c == '\t' || b == 0x0c || c == '\n'
        );
        assert_eq!(class_holds(ByteClass::Letter, b), c.is_ascii_alphabetic() || c == '_');
        assert_eq!(
            class_holds(ByteClass::Word, b),
            (b < 128 && c.is_ascii_alphanumeric()) || c == '_'
        );
        assert_eq!(class_holds(ByteClass::Digit, b), c.is_ascii_digit());
        assert_eq!(class_holds(ByteClass::HexDigit, b), b < 128 && c.is_ascii_hexdigit());
        assert_eq!(class_holds(ByteClass::Continuation, b), (0x80..=0xbf).contains(&b));
        assert_eq!(class_holds(ByteClass::Unquoted, b), c != '"');
    }
}

#[test]
fn runs_of_a_class() {
    let bytes = b"  abc_1 23";
    assert_eq!(scan_run(bytes, 0, ByteClass::Blank), 2);
    assert_eq!(scan_run(bytes, 2, ByteClass::Blank), 2);
    assert_eq!(scan_run(bytes, 2, ByteClass::Letter), 6);
    assert_eq!(scan_run(bytes, 2, ByteClass::Word), 7);
    assert_eq!(scan_run(bytes, 8, ByteClass::Digit), 10);
    assert_eq!(scan_run(bytes, 10, ByteClass::Digit), 10);
    assert_eq!(scan_run(bytes, 0, ByteClass::Unquoted), 10);
}

#[test]
fn numbers_in_digits() {
    assert_eq!(parse_number(b"1234", 0, 4, 10), 1234);
    assert_eq!(parse_number(b"1234", 1, 3, 10), 23);
    assert_eq!(parse_number(b"1234", 2, 2, 10), 0);
    assert_eq!(parse_number(b"fFa0", 0, 4, 16), 0xffa0);
    assert_eq!(parse_number(b"0010", 0, 4, 16), 0x10);
    assert_eq!(parse_number(b"18446744073709551615", 0, 20, 10), u64::MAX);
    assert_eq!(parse_number(b"18446744073709551616", 0, 20, 10), u64::MAX);
    assert_eq!(parse_number(b"99999999999999999999999", 0, 23, 10), u64::MAX);
    assert_eq!(parse_number(b"ffffffffffffffff", 0, 16, 16), u64::MAX);
    assert_eq!(parse_number(b"10000000000000000", 0, 17, 16), u64::MAX);
    assert_eq!(parse_number(b"fffffffffffffffe", 0, 16, 16), u64::MAX - 1);
}

#[test]
fn symtab_overwrites_and_wraps() {
    let mut symbols = SymbolTable::new();
    symbols.insert("a", 1);
    symbols.insert("b", 2);
    symbols.insert("a", 3);
    assert_eq!(symbols.find("a"), Some(3));
    assert_eq!(symbols.find("b"), Some(2));
    assert_eq!(symbols.find("c"), None);
    assert_eq!(symbols.find(""), None);

    let mut other = SymbolTable::new();
    other.insert("b", 0xfff0);
    other.insert("top", 0xffff);
    other.insert("zero", 0);
    symbols.insert_table(&other, 0x20);
    assert_eq!(symbols.find("a"), Some(3));
    assert_eq!(symbols.find("b"), Some(0x10));
    assert_eq!(symbols.find("top"), Some(0x1f));
    assert_eq!(symbols.find("zero"), Some(0x20));
}

#[test]
fn symtab_holds_all_registers() {
    let symbols = SymbolTable::new_with_registers();
    for i in 0..32u16 {
        assert_eq!(symbols.find(&format!("r{}", i)), Some(i));
    }
    assert_eq!(symbols.find("r32"), None);
    assert_eq!(symbols.find("r"), None);
    assert_eq!(symbols.find("r00"), None);
    assert_eq!(symbols.find("R0"), None);
}
