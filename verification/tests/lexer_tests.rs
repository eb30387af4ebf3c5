use asm65c02::lexer::{AsmLexer, AsmToken};

#[test]
fn asm_lexer_hex_literals() {
    let mut lex = AsmLexer::new("$32 $fff0 $deadbeef 0x0a3 0xF3");

    let values: Vec<u64> = vec![0x32, 0xfff0, 0xdeadbeef, 0xa3, 0xf3];
    for value in values.iter() {
        assert_eq!(AsmToken::HexInteger, lex.next_token());
        assert_eq!(*value, lex.numeric_value().unwrap());
    }
}

#[test]
fn asm_lexer_dec_literals() {
    let mut lex = AsmLexer::new("284 290 91");

    let values: Vec<u64> = vec![284, 290, 91];
    for value in values.iter() {
        assert_eq!(AsmToken::DecInteger, lex.next_token());
        assert_eq!(*value, lex.numeric_value().unwrap());
    }
}

#[test]
fn asm_lexer_punctuation_and_keywords() {
    let mut lex = AsmLexer::new("( ) , : ; # = section .str .word .byte sections _x1\n");
    let expected = vec![
        AsmToken::ParensOpen,
        AsmToken::ParensClose,
        AsmToken::Comma,
        AsmToken::Colon,
        AsmToken::Semicolon,
        AsmToken::ImmediateModifier,
        AsmToken::AssignmentOperator,
        AsmToken::SectionKeyword,
        AsmToken::StrKeyword,
        AsmToken::WordKeyword,
        AsmToken::ByteKeyword,
        AsmToken::Identifier,
        AsmToken::Identifier,
        AsmToken::Newline,
        AsmToken::End,
        AsmToken::End,
    ];
    for token in expected.iter() {
        assert_eq!(*token, lex.next_token());
        assert_eq!(*token, lex.current_token());
    }
}

#[test]
fn asm_lexer_slices_and_lines() {
    let mut lex = AsmLexer::new("lda  value\n\"h\u{e9}llo\" \u{e9}x");
    assert_eq!(lex.line(), 1);
    assert_eq!(lex.next_token(), AsmToken::Identifier);
    assert_eq!(lex.slice(), "lda");
    assert_eq!(lex.next_token(), AsmToken::Identifier);
    assert_eq!(lex.slice(), "value");
    assert_eq!(lex.next_token(), AsmToken::Newline);
    assert_eq!(lex.line(), 1);
    assert_eq!(lex.next_token(), AsmToken::StringLiteral);
    assert_eq!(lex.line(), 2);
    assert_eq!(lex.slice(), "\"h\u{e9}llo\"");
    assert_eq!(lex.string_body(), "h\u{e9}llo");
    assert_eq!(lex.next_token(), AsmToken::Error);
    assert_eq!(lex.slice(), "\u{e9}");
    assert_eq!(lex.next_token(), AsmToken::Identifier);
    assert_eq!(lex.slice(), "x");
    assert_eq!(lex.next_token(), AsmToken::End);
    assert_eq!(lex.slice(), "");
}

#[test]
fn asm_lexer_errors_and_edges() {
    let mut lex = AsmLexer::new("0 $ 0x \"open .st 012");
    assert_eq!(lex.next_token(), AsmToken::Error);
    assert_eq!(lex.slice(), "0");
    assert_eq!(lex.numeric_value(), None);
    assert_eq!(lex.next_token(), AsmToken::Error);
    assert_eq!(lex.slice(), "$");
    assert_eq!(lex.next_token(), AsmToken::Error);
    assert_eq!(lex.slice(), "0");
    assert_eq!(lex.next_token(), AsmToken::Identifier);
    assert_eq!(lex.slice(), "x");
    assert_eq!(lex.next_token(), AsmToken::Error);
    assert_eq!(lex.slice(), "\"");
    assert_eq!(lex.next_token(), AsmToken::Identifier);
    assert_eq!(lex.slice(), "open");
    assert_eq!(lex.next_token(), AsmToken::Error);
    assert_eq!(lex.slice(), ".");
    assert_eq!(lex.next_token(), AsmToken::Identifier);
    assert_eq!(lex.slice(), "st");
    assert_eq!(lex.next_token(), AsmToken::Error);
    assert_eq!(lex.next_token(), AsmToken::DecInteger);
    assert_eq!(lex.numeric_value(), Some(12));
    assert_eq!(lex.next_token(), AsmToken::End);
}

#[test]
fn asm_lexer_numbers_saturate() {
    let mut lex = AsmLexer::new("$ffffffffffffffff $10000000000000000 18446744073709551616");
    assert_eq!(lex.next_token(), AsmToken::HexInteger);
    assert_eq!(lex.numeric_value(), Some(u64::MAX));
    assert_eq!(lex.next_token(), AsmToken::HexInteger);
    assert_eq!(lex.numeric_value(), Some(u64::MAX));
    assert_eq!(lex.next_token(), AsmToken::DecInteger);
    assert_eq!(lex.numeric_value(), Some(u64::MAX));
}

#[test]
fn asm_token_names() {
    assert_eq!(AsmToken::Colon.name(), "Colon");
    assert_eq!(AsmToken::End.name(), "End");
    assert_eq!(AsmToken::HexInteger.name(), "HexInteger");
}
