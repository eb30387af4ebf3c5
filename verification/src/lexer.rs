//! The lexical scanner of assembler source text.

use vstd::prelude::*;
use vstd::string::*;
use vstd::utf8::*;
use crate::scan::{
    class_holds, in_class, lemma_continuation_boundary, lemma_run_boundary, lemma_run_end, number_value,
    parse_number, run_end, saturated, scan_run, ByteClass,
};
use crate::text::{lemma_boundary_after_ascii, substring};

verus! {

/// The kinds of token.
#[derive(Debug, Clone, Copy, PartialEq, Eq, Structural)]
pub enum AsmToken {
    /// `(`
    ParensOpen,
    /// `)`
    ParensClose,
    /// `,`
    Comma,
    /// `:`
    Colon,
    /// `;`
    Semicolon,
    /// `#`
    ImmediateModifier,
    /// `=`
    AssignmentOperator,
    /// `$` or `0x` and hexadecimal digits.
    HexInteger,
    /// Decimal digits, the first of them not zero.
    DecInteger,
    /// A letter or underscore, then letters, digits and underscores.
    Identifier,
    /// A text between double quotes.
    StringLiteral,
    /// The word `section`.
    SectionKeyword,
    /// `.str`
    StrKeyword,
    /// `.word`
    WordKeyword,
    /// `.byte`
    ByteKeyword,
    /// A line feed.
    Newline,
    /// A character that begins no token.
    Error,
    /// The end of the text.
    End,
}

/// The name of a kind of token.
pub open spec fn token_name(token: AsmToken) -> Seq<char> {
    match token {
        AsmToken::ParensOpen => "ParensOpen"@,
        AsmToken::ParensClose => "ParensClose"@,
        AsmToken::Comma => "Comma"@,
        AsmToken::Colon => "Colon"@,
        AsmToken::Semicolon => "Semicolon"@,
        AsmToken::ImmediateModifier => "ImmediateModifier"@,
        AsmToken::AssignmentOperator => "AssignmentOperator"@,
        AsmToken::HexInteger => "HexInteger"@,
        AsmToken::DecInteger => "DecInteger"@,
        AsmToken::Identifier => "Identifier"@,
        AsmToken::StringLiteral => "StringLiteral"@,
        AsmToken::SectionKeyword => "SectionKeyword"@,
        AsmToken::StrKeyword => "StrKeyword"@,
        AsmToken::WordKeyword => "WordKeyword"@,
        AsmToken::ByteKeyword => "ByteKeyword"@,
        AsmToken::Newline => "Newline"@,
        AsmToken::Error => "Error"@,
        AsmToken::End => "End"@,
    }
}

impl AsmToken {
    /// The name of the kind of token.
    pub fn name(&self) -> (r: &'static str)
        ensures
            r@ == token_name(*self),
    {
        match self {
            AsmToken::ParensOpen => "ParensOpen",
            AsmToken::ParensClose => "ParensClose",
            AsmToken::Comma => "Comma",
            AsmToken::Colon => "Colon",
            AsmToken::Semicolon => "Semicolon",
            AsmToken::ImmediateModifier => "ImmediateModifier",
            AsmToken::AssignmentOperator => "AssignmentOperator",
            AsmToken::HexInteger => "HexInteger",
            AsmToken::DecInteger => "DecInteger",
            AsmToken::Identifier => "Identifier",
            AsmToken::StringLiteral => "StringLiteral",
            AsmToken::SectionKeyword => "SectionKeyword",
            AsmToken::StrKeyword => "StrKeyword",
            AsmToken::WordKeyword => "WordKeyword",
            AsmToken::ByteKeyword => "ByteKeyword",
            AsmToken::Newline => "Newline",
            AsmToken::Error => "Error",
            AsmToken::End => "End",
        }
    }
}

/// A token in the bytes of a text: its kind and where it begins and ends.
pub struct Lexeme {
    pub token: AsmToken,
    pub start: int,
    pub end: int,
}

/// The token that a single byte spells, if it spells one.
pub open spec fn punctuation(b: u8) -> Option<AsmToken> {
    if b == 0x28 {
        Some(AsmToken::ParensOpen)
    } else if b == 0x29 {
        Some(AsmToken::ParensClose)
    } else if b == 0x2C {
        Some(AsmToken::Comma)
    } else if b == 0x3A {
        Some(AsmToken::Colon)
    } else if b == 0x3B {
        Some(AsmToken::Semicolon)
    } else if b == 0x23 {
        Some(AsmToken::ImmediateModifier)
    } else if b == 0x3D {
        Some(AsmToken::AssignmentOperator)
    } else if b == 0x0A {
        Some(AsmToken::Newline)
    } else {
        None
    }
}

/// The bytes of the word `section`.
pub open spec fn section_word() -> Seq<u8> {
    seq![0x73u8, 0x65u8, 0x63u8, 0x74u8, 0x69u8, 0x6Fu8, 0x6Eu8]
}

/// The bytes of `.str`.
pub open spec fn str_word() -> Seq<u8> {
    seq![0x2Eu8, 0x73u8, 0x74u8, 0x72u8]
}

/// The bytes of `.word`.
pub open spec fn word_word() -> Seq<u8> {
    seq![0x2Eu8, 0x77u8, 0x6Fu8, 0x72u8, 0x64u8]
}

/// The bytes of `.byte`.
pub open spec fn byte_word() -> Seq<u8> {
    seq![0x2Eu8, 0x62u8, 0x79u8, 0x74u8, 0x65u8]
}

/// Whether the bytes spell `word` at `pos`.
pub open spec fn spells(bytes: Seq<u8>, pos: int, word: Seq<u8>) -> bool {
    &&& 0 <= pos
    &&& pos + word.len() <= bytes.len()
    &&& bytes.subrange(pos, pos + word.len()) == word
}

/// The token that begins at `start`, a position within the bytes that holds
/// no blank. Of the tokens that begin there the longest is taken; the word
/// `section` is a keyword, not an identifier. A character that begins no
/// token is an error token of its own.
pub open spec fn token_at(bytes: Seq<u8>, start: int) -> Lexeme {
    let b = bytes[start];
    if punctuation(b) is Some {
        Lexeme { token: punctuation(b)->0, start, end: start + 1 }
    } else if b == 0x24 && run_end(bytes, start + 1, ByteClass::HexDigit) > start + 1 {
        Lexeme {
            token: AsmToken::HexInteger,
            start,
            end: run_end(bytes, start + 1, ByteClass::HexDigit),
        }
    } else if b == 0x30 && start + 1 < bytes.len() && bytes[start + 1] == 0x78 && run_end(
        bytes,
        start + 2,
        ByteClass::HexDigit,
    ) > start + 2 {
        Lexeme {
            token: AsmToken::HexInteger,
            start,
            end: run_end(bytes, start + 2, ByteClass::HexDigit),
        }
    } else if 0x31 <= b <= 0x39 {
        Lexeme {
            token: AsmToken::DecInteger,
            start,
            end: run_end(bytes, start + 1, ByteClass::Digit),
        }
    } else if in_class(ByteClass::Letter, b) {
        let end = run_end(bytes, start + 1, ByteClass::Word);
        Lexeme {
            token: if bytes.subrange(start, end) == section_word() {
                AsmToken::SectionKeyword
            } else {
                AsmToken::Identifier
            },
            start,
            end,
        }
    } else if b == 0x22 && run_end(bytes, start + 1, ByteClass::Unquoted) < bytes.len() {
        Lexeme {
            token: AsmToken::StringLiteral,
            start,
            end: run_end(bytes, start + 1, ByteClass::Unquoted) + 1,
        }
    } else if spells(bytes, start, str_word()) {
        Lexeme { token: AsmToken::StrKeyword, start, end: start + 4 }
    } else if spells(bytes, start, word_word()) {
        Lexeme { token: AsmToken::WordKeyword, start, end: start + 5 }
    } else if spells(bytes, start, byte_word()) {
        Lexeme { token: AsmToken::ByteKeyword, start, end: start + 5 }
    } else {
        Lexeme {
            token: AsmToken::Error,
            start,
            end: run_end(bytes, start + 1, ByteClass::Continuation),
        }
    }
}

/// The next token at or behind `pos`: blanks are passed over, and behind
/// the last token the end of the text is a token without bytes.
pub open spec fn lexeme_at(bytes: Seq<u8>, pos: int) -> Lexeme {
    let start = run_end(bytes, pos, ByteClass::Blank);
    if start >= bytes.len() {
        Lexeme { token: AsmToken::End, start, end: start }
    } else {
        token_at(bytes, start)
    }
}

/// A token lies within the bytes, behind the position from which it was
/// looked for, and between character boundaries; all tokens but the end of
/// the text hold at least one byte.
pub proof fn lemma_lexeme(bytes: Seq<u8>, pos: int)
    requires
        valid_utf8(bytes),
        0 <= pos <= bytes.len(),
        is_char_boundary(bytes, pos),
    ensures
        pos <= lexeme_at(bytes, pos).start <= lexeme_at(bytes, pos).end <= bytes.len(),
        lexeme_at(bytes, pos).token != AsmToken::End ==> lexeme_at(bytes, pos).start < lexeme_at(
            bytes,
            pos,
        ).end,
        is_char_boundary(bytes, lexeme_at(bytes, pos).start),
        is_char_boundary(bytes, lexeme_at(bytes, pos).end),
        lexeme_at(bytes, pos).token == AsmToken::StringLiteral ==> {
            &&& lexeme_at(bytes, pos).start + 2 <= lexeme_at(bytes, pos).end
            &&& bytes[lexeme_at(bytes, pos).start] == 0x22
            &&& bytes[lexeme_at(bytes, pos).end - 1] == 0x22
        },
{
    let start = run_end(bytes, pos, ByteClass::Blank);
    lemma_run_end(bytes, pos, ByteClass::Blank);
    lemma_run_boundary(bytes, pos, ByteClass::Blank);
    if start < bytes.len() {
        let lexeme = token_at(bytes, start);
        let b = bytes[start];
        lemma_run_end(bytes, start + 1, ByteClass::HexDigit);
        lemma_run_end(bytes, start + 1, ByteClass::Digit);
        lemma_run_end(bytes, start + 1, ByteClass::Word);
        lemma_run_end(bytes, start + 1, ByteClass::Unquoted);
        lemma_run_end(bytes, start + 1, ByteClass::Continuation);
        lemma_continuation_boundary(bytes, start + 1);
        if lexeme.token == AsmToken::Error {
        } else if lexeme.token == AsmToken::HexInteger && b == 0x30 {
            lemma_run_end(bytes, start + 2, ByteClass::HexDigit);
            assert(in_class(ByteClass::HexDigit, bytes[lexeme.end - 1]));
            lemma_boundary_after_ascii(bytes, lexeme.end - 1);
        } else if lexeme.token == AsmToken::StringLiteral {
            lemma_boundary_after_ascii(bytes, lexeme.end - 1);
        } else if lexeme.token == AsmToken::StrKeyword {
            assert(bytes[start + 3] == bytes.subrange(start, start + 4)[3]);
            lemma_boundary_after_ascii(bytes, start + 3);
        } else if lexeme.token == AsmToken::WordKeyword {
            assert(bytes[start + 4] == bytes.subrange(start, start + 5)[4]);
            lemma_boundary_after_ascii(bytes, start + 4);
        } else if lexeme.token == AsmToken::ByteKeyword {
            assert(bytes[start + 4] == bytes.subrange(start, start + 5)[4]);
            lemma_boundary_after_ascii(bytes, start + 4);
        } else {
            if lexeme.end > start + 1 {
                assert(bytes[lexeme.end - 1] < 0x80);
            }
            lemma_boundary_after_ascii(bytes, lexeme.end - 1);
        }
    }
}

/// The scanner: a text and the token that was read last.
pub struct AsmLexer<'a> {
    source: &'a str,
    current_token: AsmToken,
    start: usize,
    end: usize,
    line: u32,
}

/// What a scanner holds.
pub struct LexerView {
    /// The text in UTF-8.
    pub bytes: Seq<u8>,
    /// The token that was read last.
    pub token: AsmToken,
    /// Where that token begins.
    pub start: int,
    /// Where that token ends: from here the next token is looked for.
    pub end: int,
    /// The number of the line of that token.
    pub line: u32,
}

impl<'a> View for AsmLexer<'a> {
    type V = LexerView;

    closed spec fn view(&self) -> LexerView {
        LexerView {
            bytes: self.source.spec_bytes(),
            token: self.current_token,
            start: self.start as int,
            end: self.end as int,
            line: self.line,
        }
    }
}

/// The validity of a scanner: its token lies within the text and between
/// character boundaries.
pub open spec fn lexer_wf(v: LexerView) -> bool {
    &&& valid_utf8(v.bytes)
    &&& 0 <= v.start <= v.end <= v.bytes.len()
    &&& is_char_boundary(v.bytes, v.start)
    &&& is_char_boundary(v.bytes, v.end)
    &&& v.token == AsmToken::StringLiteral ==> v.start + 2 <= v.end && v.bytes[v.start] == 0x22
        && v.bytes[v.end - 1] == 0x22
}

/// The scanner before the first token of a text: on line one, with an error
/// token without bytes.
pub open spec fn lexer_start(bytes: Seq<u8>) -> LexerView {
    LexerView { bytes, token: AsmToken::Error, start: 0, end: 0, line: 1 }
}

/// The scanner after the next token. The line number grows behind a line
/// feed, up to the largest number of 32 bits.
pub open spec fn advanced(v: LexerView) -> LexerView {
    LexerView {
        bytes: v.bytes,
        token: lexeme_at(v.bytes, v.end).token,
        start: lexeme_at(v.bytes, v.end).start,
        end: lexeme_at(v.bytes, v.end).end,
        line: if v.token == AsmToken::Newline && v.line < u32::MAX {
            (v.line + 1) as u32
        } else {
            v.line
        },
    }
}

/// The text of the token of a scanner.
pub open spec fn token_text(v: LexerView) -> Seq<char> {
    decode_utf8(v.bytes.subrange(v.start, v.end))
}

/// The text between the quotes of a string literal.
pub open spec fn string_body(v: LexerView) -> Seq<char> {
    decode_utf8(v.bytes.subrange(v.start + 1, v.end - 1))
}

/// Where the digits of a hexadecimal token begin: behind `$` or behind
/// `0x`.
pub open spec fn hex_digits_start(v: LexerView) -> int {
    if v.start < v.end && v.bytes[v.start] == 0x24 {
        v.start + 1
    } else if v.start + 2 <= v.end {
        v.start + 2
    } else {
        v.end
    }
}

/// The value of the token of a scanner, where it is a number; a number
/// beyond 64 bits counts as the largest number of 64 bits.
pub open spec fn token_value(v: LexerView) -> Option<u64> {
    match v.token {
        AsmToken::HexInteger => Some(
            saturated(number_value(v.bytes.subrange(hex_digits_start(v), v.end), 16)),
        ),
        AsmToken::DecInteger => Some(saturated(number_value(v.bytes.subrange(v.start, v.end), 10))),
        _ => None,
    }
}

fn punctuation_of(b: u8) -> (r: Option<AsmToken>)
    ensures
        r == punctuation(b),
{
    match b {
        0x28 => Some(AsmToken::ParensOpen),
        0x29 => Some(AsmToken::ParensClose),
        0x2C => Some(AsmToken::Comma),
        0x3A => Some(AsmToken::Colon),
        0x3B => Some(AsmToken::Semicolon),
        0x23 => Some(AsmToken::ImmediateModifier),
        0x3D => Some(AsmToken::AssignmentOperator),
        0x0A => Some(AsmToken::Newline),
        _ => None,
    }
}

/// Tells whether the bytes spell `section` from `start` to `end`.
fn is_section_word(bytes: &[u8], start: usize, end: usize) -> (r: bool)
    requires
        start <= end <= bytes@.len(),
    ensures
        r == (bytes@.subrange(start as int, end as int) == section_word()),
{
    if end - start != 7 {
        assert(section_word().len() == 7);
        return false;
    }
    let r = bytes[start] == 0x73 && bytes[start + 1] == 0x65 && bytes[start + 2] == 0x63
        && bytes[start + 3] == 0x74 && bytes[start + 4] == 0x69 && bytes[start + 5] == 0x6F
        && bytes[start + 6] == 0x6E;
    proof {
        let word = bytes@.subrange(start as int, end as int);
        if r {
            assert(word =~= section_word());
        } else {
            assert(word[0] == bytes@[start as int]);
            assert(word[1] == bytes@[start + 1]);
            assert(word[2] == bytes@[start + 2]);
            assert(word[3] == bytes@[start + 3]);
            assert(word[4] == bytes@[start + 4]);
            assert(word[5] == bytes@[start + 5]);
            assert(word[6] == bytes@[start + 6]);
        }
    }
    r
}

/// Tells which of the keywords that begin with a dot the bytes spell at
/// `start`.
fn dot_keyword(bytes: &[u8], start: usize) -> (r: Option<(AsmToken, usize)>)
    requires
        start < bytes@.len(),
    ensures
        r == (if spells(bytes@, start as int, str_word()) {
            Some((AsmToken::StrKeyword, (start + 4) as usize))
        } else if spells(bytes@, start as int, word_word()) {
            Some((AsmToken::WordKeyword, (start + 5) as usize))
        } else if spells(bytes@, start as int, byte_word()) {
            Some((AsmToken::ByteKeyword, (start + 5) as usize))
        } else {
            None
        }),
{
    let room: usize = bytes.len() - start;
    if bytes[start] != 0x2E {
        proof {
            assert(spells(bytes@, start as int, str_word()) ==> bytes@.subrange(
                start as int,
                start + 4,
            )[0] == 0x2E);
            assert(spells(bytes@, start as int, word_word()) ==> bytes@.subrange(
                start as int,
                start + 5,
            )[0] == 0x2E);
            assert(spells(bytes@, start as int, byte_word()) ==> bytes@.subrange(
                start as int,
                start + 5,
            )[0] == 0x2E);
        }
        return None;
    }
    let is_str = room >= 4 && bytes[start + 1] == 0x73 && bytes[start + 2] == 0x74 && bytes[start
        + 3] == 0x72;
    proof {
        if room >= 4 {
            let word = bytes@.subrange(start as int, start + 4);
            if is_str {
                assert(word =~= str_word());
            } else {
                assert(word[1] == bytes@[start + 1]);
                assert(word[2] == bytes@[start + 2]);
                assert(word[3] == bytes@[start + 3]);
            }
        }
    }
    if is_str {
        return Some((AsmToken::StrKeyword, start + 4));
    }
    let is_word = room >= 5 && bytes[start + 1] == 0x77 && bytes[start + 2] == 0x6F && bytes[start
        + 3] == 0x72 && bytes[start + 4] == 0x64;
    let is_byte = room >= 5 && bytes[start + 1] == 0x62 && bytes[start + 2] == 0x79 && bytes[start
        + 3] == 0x74 && bytes[start + 4] == 0x65;
    proof {
        if room >= 5 {
            let word = bytes@.subrange(start as int, start + 5);
            if is_word {
                assert(word =~= word_word());
            } else if is_byte {
                assert(word =~= byte_word());
            }
            assert(word[1] == bytes@[start + 1]);
            assert(word[2] == bytes@[start + 2]);
            assert(word[3] == bytes@[start + 3]);
            assert(word[4] == bytes@[start + 4]);
        }
    }
    if is_word {
        Some((AsmToken::WordKeyword, start + 5))
    } else if is_byte {
        Some((AsmToken::ByteKeyword, start + 5))
    } else {
        None
    }
}

/// Reads the token that begins at `start`.
fn read_token(bytes: &[u8], start: usize) -> (r: (AsmToken, usize))
    requires
        start < bytes@.len(),
    ensures
        r.0 == token_at(bytes@, start as int).token,
        r.1 == token_at(bytes@, start as int).end,
        start < r.1 <= bytes@.len(),
{
    let b = bytes[start];
    proof {
        lemma_run_end(bytes@, start + 1, ByteClass::Continuation);
    }
    match punctuation_of(b) {
        Some(token) => {
            return (token, start + 1);
        },
        None => {},
    }
    if b == 0x24 {
        let end = scan_run(bytes, start + 1, ByteClass::HexDigit);
        if end > start + 1 {
            return (AsmToken::HexInteger, end);
        }
    } else if b == 0x30 {
        if bytes.len() - start > 1 && bytes[start + 1] == 0x78 {
            let end = scan_run(bytes, start + 2, ByteClass::HexDigit);
            if end > start + 2 {
                return (AsmToken::HexInteger, end);
            }
        }
    } else if 0x31 <= b && b <= 0x39 {
        return (AsmToken::DecInteger, scan_run(bytes, start + 1, ByteClass::Digit));
    } else if class_holds(ByteClass::Letter, b) {
        let end = scan_run(bytes, start + 1, ByteClass::Word);
        if is_section_word(bytes, start, end) {
            return (AsmToken::SectionKeyword, end);
        }
        return (AsmToken::Identifier, end);
    } else if b == 0x22 {
        let quote = scan_run(bytes, start + 1, ByteClass::Unquoted);
        if quote < bytes.len() {
            return (AsmToken::StringLiteral, quote + 1);
        }
    }
    match dot_keyword(bytes, start) {
        Some(found) => found,
        None => (AsmToken::Error, scan_run(bytes, start + 1, ByteClass::Continuation)),
    }
}

impl<'a> AsmLexer<'a> {
    /// The validity of the scanner.
    pub open spec fn wf(&self) -> bool {
        lexer_wf(self@)
    }

    /// A scanner before the first token of `source`.
    pub fn new(source: &'a str) -> (r: AsmLexer<'a>)
        ensures
            r.wf(),
            r@ == lexer_start(encode_utf8(source@)),
    {
        proof {
            encode_utf8_valid_utf8(source@);
            is_char_boundary_start_end_of_seq(source.spec_bytes());
        }
        AsmLexer { source, current_token: AsmToken::Error, start: 0, end: 0, line: 1 }
    }

    /// The value of the token read last, where it is a number.
    pub fn numeric_value(&self) -> (r: Option<u64>)
        requires
            self.wf(),
        ensures
            r == token_value(self@),
    {
        let bytes = self.source.as_bytes();
        match self.current_token {
            AsmToken::HexInteger => {
                let digits: usize = if self.start < self.end && bytes[self.start] == 0x24 {
                    self.start + 1
                } else if self.end - self.start >= 2 {
                    self.start + 2
                } else {
                    self.end
                };
                Some(parse_number(bytes, digits, self.end, 16))
            },
            AsmToken::DecInteger => Some(parse_number(bytes, self.start, self.end, 10)),
            _ => None,
        }
    }

    /// The number of the line of the token read last.
    pub fn line(&self) -> (r: u32)
        ensures
            r == self@.line,
    {
        self.line
    }

    /// The text of the token read last.
    pub fn slice(&self) -> (r: &'a str)
        requires
            self.wf(),
        ensures
            r@ == token_text(self@),
    {
        substring(self.source, self.start, self.end)
    }

    /// The text between the quotes of the string literal read last.
    pub fn string_body(&self) -> (r: &'a str)
        requires
            self.wf(),
            self@.token == AsmToken::StringLiteral,
        ensures
            r@ == string_body(self@),
    {
        proof {
            lemma_boundary_after_ascii(self@.bytes, self@.start);
            lemma_boundary_after_ascii(self@.bytes, self@.end - 1);
        }
        substring(self.source, self.start + 1, self.end - 1)
    }

    /// The token read last.
    pub fn current_token(&self) -> (r: AsmToken)
        ensures
            r == self@.token,
    {
        self.current_token
    }

    /// Reads the next token.
    pub fn next_token(&mut self) -> (r: AsmToken)
        requires
            old(self).wf(),
        ensures
            final(self).wf(),
            final(self)@ == advanced(old(self)@),
            r == final(self)@.token,
    {
        let bytes = self.source.as_bytes();
        proof {
            lemma_lexeme(bytes@, self.end as int);
        }
        let start = scan_run(bytes, self.end, ByteClass::Blank);
        let (token, end) = if start >= bytes.len() {
            (AsmToken::End, start)
        } else {
            read_token(bytes, start)
        };
        if self.current_token == AsmToken::Newline && self.line < u32::MAX {
            self.line += 1;
        }
        self.current_token = token;
        self.start = start;
        self.end = end;
        token
    }
}

} // verus!
