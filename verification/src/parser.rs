//! The parser: from the tokens of a source text to statements, grouped by
//! section.

use vstd::prelude::*;
use vstd::string::*;
use crate::errors::{report_text, CompileError, ErrorMessage};
use crate::lexer::{
    advanced, lemma_lexeme, lexer_start, lexer_wf, string_body, token_name, token_text,
    token_value, AsmLexer, AsmToken, LexerView,
};
use crate::model::{
    mnemonic_of, stmt_views, AddrMode, AddrModeView, AsmStmt, DataPlacement, DataView, IndexMode,
    Instruction, InstructionView, MemRef, MemRefView, StmtView,
};
use crate::sink::{push_views, pushed, ParsedSection, SectionPush, SectionSink};
use crate::text::{decimal, lowercase, push_decimal, str_eq, to_lowercase, uppercase};

verus! {

/// What the parser finds wrong.
#[derive(Debug, PartialEq)]
pub enum AsmParseError {
    /// A token where another was to come.
    UnexpectedToken(AsmToken),
    /// An immediate value beyond 8 bits.
    ImmediateTooLarge,
    /// An address beyond 16 bits.
    AddressTooLarge,
    /// A name behind the colon of an operand that is neither X nor Y.
    InvalidIndexRegister(String),
    /// Tokens between a construct and the end of its statement.
    ExcessTokens(usize),
}

/// A parse error with its name as a sequence of characters.
pub enum ParseErrorView {
    UnexpectedToken(AsmToken),
    ImmediateTooLarge,
    AddressTooLarge,
    InvalidIndexRegister(Seq<char>),
    ExcessTokens(usize),
}

impl View for AsmParseError {
    type V = ParseErrorView;

    open spec fn view(&self) -> ParseErrorView {
        match self {
            AsmParseError::UnexpectedToken(token) => ParseErrorView::UnexpectedToken(*token),
            AsmParseError::ImmediateTooLarge => ParseErrorView::ImmediateTooLarge,
            AsmParseError::AddressTooLarge => ParseErrorView::AddressTooLarge,
            AsmParseError::InvalidIndexRegister(name) => ParseErrorView::InvalidIndexRegister(
                name@,
            ),
            AsmParseError::ExcessTokens(count) => ParseErrorView::ExcessTokens(*count),
        }
    }
}

/// The text of a parse error.
pub open spec fn parse_error_text(e: ParseErrorView) -> Seq<char> {
    match e {
        ParseErrorView::UnexpectedToken(token) => if token == AsmToken::Error {
            "unrecognized token"@
        } else {
            "unexpected token: "@ + token_name(token)
        },
        ParseErrorView::ImmediateTooLarge => "immediate value does not fit into 8 bits"@,
        ParseErrorView::AddressTooLarge => "address does not fit into 8 or 16 bits"@,
        ParseErrorView::InvalidIndexRegister(name) => "unknown index register '"@ + name
            + "', use X or Y"@,
        ParseErrorView::ExcessTokens(count) => decimal(count as nat)
            + " excess tokens after construct"@,
    }
}

impl ErrorMessage for AsmParseError {
    open spec fn message(&self) -> Seq<char> {
        parse_error_text(self@)
    }

    fn error_msg(&self) -> (r: String) {
        match self {
            AsmParseError::UnexpectedToken(token) => {
                if *token == AsmToken::Error {
                    String::from_str("unrecognized token")
                } else {
                    let mut text = String::from_str("unexpected token: ");
                    text.append(token.name());
                    text
                }
            },
            AsmParseError::ImmediateTooLarge => String::from_str(
                "immediate value does not fit into 8 bits",
            ),
            AsmParseError::AddressTooLarge => String::from_str(
                "address does not fit into 8 or 16 bits",
            ),
            AsmParseError::InvalidIndexRegister(name) => {
                let mut text = String::from_str("unknown index register '");
                text.append(name.as_str());
                text.append("', use X or Y");
                text
            },
            AsmParseError::ExcessTokens(count) => {
                let mut text = String::new();
                push_decimal(&mut text, *count as u64);
                text.append(" excess tokens after construct");
                assert(text@ =~= decimal(*count as nat) + " excess tokens after construct"@);
                text
            },
        }
    }
}

/// A parse error and its line.
pub struct ParseIssue {
    pub kind: ParseErrorView,
    pub line: u32,
}

/// What an error of the parser says.
pub open spec fn issue_of(e: CompileError<AsmParseError>) -> ParseIssue {
    ParseIssue { kind: e.spec_error_type()@, line: e.spec_line() }
}

/// What a list of errors of the parser says.
pub open spec fn issues_of(errors: Seq<CompileError<AsmParseError>>) -> Seq<ParseIssue> {
    errors.map_values(|e: CompileError<AsmParseError>| issue_of(e))
}

/// What a parser holds.
pub struct ParserView {
    /// The scanner.
    pub lexer: LexerView,
    /// The errors found so far.
    pub errors: Seq<ParseIssue>,
    /// The name of the section that the statements belong to.
    pub section: Seq<char>,
    /// The statements of that section that were not handed over yet.
    pub statements: Seq<StmtView>,
}

/// What parsing gives: the parser at the end of the text, and what was
/// handed over, in its order.
pub struct ParseOutcome {
    pub parser: ParserView,
    pub pushes: Seq<SectionPush>,
}

/// The parser before the first token of a text: in the section `text`.
pub open spec fn parser_start(bytes: Seq<u8>) -> ParserView {
    ParserView {
        lexer: lexer_start(bytes),
        errors: Seq::empty(),
        section: "text"@,
        statements: Seq::empty(),
    }
}

/// The parser with one more error, found on the line of its token.
pub open spec fn noted(p: ParserView, kind: ParseErrorView) -> ParserView {
    ParserView {
        lexer: p.lexer,
        errors: p.errors.push(ParseIssue { kind, line: p.lexer.line }),
        section: p.section,
        statements: p.statements,
    }
}

/// The parser after the next token.
pub open spec fn stepped(p: ParserView) -> ParserView {
    ParserView {
        lexer: advanced(p.lexer),
        errors: p.errors,
        section: p.section,
        statements: p.statements,
    }
}

/// The parser with one more statement.
pub open spec fn with_statement(p: ParserView, stmt: StmtView) -> ParserView {
    ParserView {
        lexer: p.lexer,
        errors: p.errors,
        section: p.section,
        statements: p.statements.push(stmt),
    }
}

/// The memory reference that the token of the scanner spells: a number up
/// to 16 bits is an address, an identifier is a symbol.
pub open spec fn mem_ref_here(lexer: LexerView) -> Result<MemRefView, ParseErrorView> {
    match lexer.token {
        AsmToken::DecInteger | AsmToken::HexInteger => if token_value(lexer)->0 < 0x10000 {
            Ok(MemRefView::Addr(token_value(lexer)->0 as u16))
        } else {
            Err(ParseErrorView::AddressTooLarge)
        },
        AsmToken::Identifier => Ok(MemRefView::Variable(token_text(lexer))),
        token => Err(ParseErrorView::UnexpectedToken(token)),
    }
}

/// The index register that a name in lower case stands for.
pub open spec fn index_named(name: Seq<char>) -> Option<IndexMode> {
    if name == "x"@ {
        Some(IndexMode::IndexedX)
    } else if name == "y"@ {
        Some(IndexMode::IndexedY)
    } else {
        None
    }
}

/// A memory operand, from its first token on: a memory reference, and
/// behind it, or not, a colon and an index register. The token behind a
/// reference without index is read as well.
pub open spec fn after_mem_operand(p: ParserView) -> (ParserView, Option<AddrModeView>) {
    match mem_ref_here(p.lexer) {
        Err(kind) => (noted(p, kind), None),
        Ok(mem_ref) => if stepped(p).lexer.token == AsmToken::Colon {
            let q = stepped(stepped(p));
            if q.lexer.token == AsmToken::Identifier {
                match index_named(lowercase(token_text(q.lexer))) {
                    Some(index) => (q, Some(AddrModeView::Memory(index, mem_ref))),
                    None => (
                        noted(
                            q,
                            ParseErrorView::InvalidIndexRegister(lowercase(token_text(q.lexer))),
                        ),
                        None,
                    ),
                }
            } else {
                (noted(q, ParseErrorView::UnexpectedToken(q.lexer.token)), None)
            }
        } else {
            (stepped(p), Some(AddrModeView::Memory(IndexMode::NoIndex, mem_ref)))
        },
    }
}

/// An immediate operand, from its `#` on: the number behind it, up to 8
/// bits. What is no number gives no operand and no error.
pub open spec fn after_immediate(p: ParserView) -> (ParserView, Option<AddrModeView>) {
    match token_value(stepped(p).lexer) {
        None => (stepped(p), None),
        Some(value) => if value >= 256 {
            (noted(stepped(p), ParseErrorView::ImmediateTooLarge), None)
        } else {
            (stepped(p), Some(AddrModeView::Immediate(value as u8)))
        },
    }
}

/// Whether a token ends a statement.
pub open spec fn ends_statement(token: AsmToken) -> bool {
    token == AsmToken::Newline || token == AsmToken::Semicolon || token == AsmToken::End
}

/// An operand, from its first token on. The end of the statement in its
/// place is the implied operand.
pub open spec fn after_addr_mode(p: ParserView) -> (ParserView, Option<AddrModeView>) {
    if ends_statement(p.lexer.token) {
        (p, Some(AddrModeView::Implied))
    } else if p.lexer.token == AsmToken::ImmediateModifier {
        after_immediate(p)
    } else {
        after_mem_operand(p)
    }
}

/// The scanner after the tokens up to the end of the statement, from a
/// token on that does not end it.
pub open spec fn skip_rest(lexer: LexerView) -> LexerView
    decreases lexer.bytes.len() - lexer.end,
    when lexer_wf(lexer)
{
    if ends_statement(advanced(lexer).token) {
        advanced(lexer)
    } else {
        proof {
            lemma_lexeme(lexer.bytes, lexer.end);
        }
        skip_rest(advanced(lexer))
    }
}

/// The number of tokens read up to the end of the statement that do not
/// end it, from a token on that does not end it.
pub open spec fn excess_rest(lexer: LexerView) -> nat
    decreases lexer.bytes.len() - lexer.end,
    when lexer_wf(lexer)
{
    if ends_statement(advanced(lexer).token) {
        0
    } else {
        proof {
            lemma_lexeme(lexer.bytes, lexer.end);
        }
        1 + excess_rest(advanced(lexer))
    }
}

/// A count cut off at the largest value of its type.
pub open spec fn capped(n: nat) -> usize {
    if n > usize::MAX {
        usize::MAX
    } else {
        n as usize
    }
}

/// The parser behind a construct: the tokens up to the end of the
/// statement are passed over, and those read on the way that do not end the
/// statement are counted as excess.
pub open spec fn after_construct(p: ParserView) -> ParserView {
    if ends_statement(p.lexer.token) {
        p
    } else {
        let q = ParserView {
            lexer: skip_rest(p.lexer),
            errors: p.errors,
            section: p.section,
            statements: p.statements,
        };
        if excess_rest(p.lexer) > 0 {
            noted(q, ParseErrorView::ExcessTokens(capped(excess_rest(p.lexer))))
        } else {
            q
        }
    }
}

/// An instruction, from the first token of its operand on.
pub open spec fn after_instruction(p: ParserView, mnemonic: Seq<char>) -> ParserView {
    match after_addr_mode(p).1 {
        Some(addr_mode) => with_statement(
            after_construct(after_addr_mode(p).0),
            StmtView::Instruction(
                InstructionView { mnemonic: mnemonic_of(uppercase(mnemonic)), addr_mode },
            ),
        ),
        None => after_construct(after_addr_mode(p).0),
    }
}

/// A constant label, from its `=` on: the number behind it, up to 16 bits.
pub open spec fn after_const_addr(p: ParserView, name: Seq<char>) -> ParserView {
    match token_value(stepped(p).lexer) {
        Some(value) => if value <= 0xFFFF {
            with_statement(stepped(p), StmtView::ConstLabel(name, value as u16))
        } else {
            noted(stepped(p), ParseErrorView::AddressTooLarge)
        },
        None => noted(stepped(p), ParseErrorView::UnexpectedToken(stepped(p).lexer.token)),
    }
}

/// The parser in another section, with no statements.
pub open spec fn entered(p: ParserView, section: Seq<char>) -> ParserView {
    ParserView { lexer: p.lexer, errors: p.errors, section, statements: Seq::empty() }
}

/// The parser after one item, from its first token on.
///
/// An identifier begins a label, where a colon follows; a constant label,
/// where `=` follows; else an instruction. `section` and a name hand the
/// statements over and begin the named section. `.str` places a text,
/// `.word` a word. A line feed or semicolon is passed over. Every other
/// token is unexpected.
pub open spec fn after_item(p: ParserView) -> ParserView {
    match p.lexer.token {
        AsmToken::Identifier => match stepped(p).lexer.token {
            AsmToken::Colon => with_statement(stepped(p), StmtView::Label(token_text(p.lexer))),
            AsmToken::AssignmentOperator => after_const_addr(stepped(p), token_text(p.lexer)),
            _ => after_instruction(stepped(p), token_text(p.lexer)),
        },
        AsmToken::SectionKeyword => if stepped(p).lexer.token == AsmToken::Identifier {
            entered(stepped(p), token_text(stepped(p).lexer))
        } else {
            noted(stepped(p), ParseErrorView::UnexpectedToken(stepped(p).lexer.token))
        },
        AsmToken::StrKeyword => if stepped(p).lexer.token == AsmToken::StringLiteral {
            with_statement(
                stepped(p),
                StmtView::Data(DataView::Str(string_body(stepped(p).lexer))),
            )
        } else {
            noted(stepped(p), ParseErrorView::UnexpectedToken(stepped(p).lexer.token))
        },
        AsmToken::WordKeyword => match mem_ref_here(stepped(p).lexer) {
            Ok(mem_ref) => with_statement(stepped(p), StmtView::Data(DataView::Word(mem_ref))),
            Err(kind) => noted(stepped(p), kind),
        },
        AsmToken::Newline | AsmToken::Semicolon => p,
        token => noted(p, ParseErrorView::UnexpectedToken(token)),
    }
}

/// What an item hands over: the statements of the section that it leaves.
pub open spec fn item_push(p: ParserView) -> Option<SectionPush> {
    if p.lexer.token == AsmToken::SectionKeyword && stepped(p).lexer.token
        == AsmToken::Identifier {
        Some(SectionPush { name: p.section, stmts: p.statements })
    } else {
        None
    }
}

/// What was handed over, with what one more item hands over.
pub open spec fn pushes_with(pushes: Seq<SectionPush>, push: Option<SectionPush>) -> Seq<
    SectionPush,
> {
    match push {
        Some(x) => pushes.push(x),
        None => pushes,
    }
}

/// Whether scanner `b` is scanner `a` at the same or a later token of the
/// same text.
pub open spec fn follows(a: LexerView, b: LexerView) -> bool {
    &&& lexer_wf(b)
    &&& b.bytes == a.bytes
    &&& b.end >= a.end
}

/// What parsing gives from a parser on, on top of what was handed over
/// before. Item by item is read up to the end of the text; there the
/// statements of the last section are handed over.
pub open spec fn parse_rest(p: ParserView, pushes: Seq<SectionPush>) -> ParseOutcome
    decreases p.lexer.bytes.len() - p.lexer.end,
    when lexer_wf(p.lexer)
{
    if stepped(p).lexer.token == AsmToken::End {
        ParseOutcome {
            parser: entered(stepped(p), p.section),
            pushes: pushes.push(SectionPush { name: p.section, stmts: p.statements }),
        }
    } else {
        proof {
            lemma_lexeme(p.lexer.bytes, p.lexer.end);
            lemma_item_follows(stepped(p));
        }
        parse_rest(after_item(stepped(p)), pushes_with(pushes, item_push(stepped(p))))
    }
}

/// What parsing gives.
pub open spec fn parse_outcome(p: ParserView) -> ParseOutcome {
    parse_rest(p, Seq::empty())
}

/// The next token of a valid scanner leaves a valid scanner at a later
/// token.
pub proof fn lemma_advanced_follows(lexer: LexerView)
    requires
        lexer_wf(lexer),
    ensures
        follows(lexer, advanced(lexer)),
        advanced(lexer).token != AsmToken::End ==> advanced(lexer).end > lexer.end,
{
    lemma_lexeme(lexer.bytes, lexer.end);
}

/// Passing over the rest of a statement leaves a valid scanner at a token
/// that ends a statement.
pub proof fn lemma_skip_follows(lexer: LexerView)
    requires
        lexer_wf(lexer),
    ensures
        follows(lexer, skip_rest(lexer)),
        ends_statement(skip_rest(lexer).token),
    decreases lexer.bytes.len() - lexer.end,
{
    lemma_advanced_follows(lexer);
    if !ends_statement(advanced(lexer).token) {
        lemma_skip_follows(advanced(lexer));
    }
}

proof fn lemma_addr_mode_follows(p: ParserView)
    requires
        lexer_wf(p.lexer),
    ensures
        follows(p.lexer, after_addr_mode(p).0.lexer),
        after_addr_mode(p).0.section == p.section,
{
    lemma_advanced_follows(p.lexer);
    lemma_advanced_follows(advanced(p.lexer));
}

proof fn lemma_construct_follows(p: ParserView)
    requires
        lexer_wf(p.lexer),
    ensures
        follows(p.lexer, after_construct(p).lexer),
        after_construct(p).section == p.section,
{
    if !ends_statement(p.lexer.token) {
        lemma_skip_follows(p.lexer);
    }
}

/// An item leaves a valid scanner at the same or a later token.
pub proof fn lemma_item_follows(p: ParserView)
    requires
        lexer_wf(p.lexer),
    ensures
        follows(p.lexer, after_item(p).lexer),
{
    lemma_advanced_follows(p.lexer);
    lemma_advanced_follows(advanced(p.lexer));
    lemma_addr_mode_follows(stepped(p));
    lemma_construct_follows(after_addr_mode(stepped(p)).0);
}

/// Tells which index register a name in lower case stands for.
pub fn index_register(name: &str) -> (r: Option<IndexMode>)
    ensures
        r == index_named(name@),
{
    if str_eq(name, "x") {
        Some(IndexMode::IndexedX)
    } else if str_eq(name, "y") {
        Some(IndexMode::IndexedY)
    } else {
        None
    }
}

/// The parser of one source text.
pub struct AsmParser<'a> {
    lexer: AsmLexer<'a>,
    errors: Vec<CompileError<AsmParseError>>,
    current_section_name: String,
    statements: Vec<AsmStmt>,
}

impl<'a> View for AsmParser<'a> {
    type V = ParserView;

    closed spec fn view(&self) -> ParserView {
        ParserView {
            lexer: self.lexer@,
            errors: issues_of(self.errors@),
            section: self.current_section_name@,
            statements: stmt_views(self.statements@),
        }
    }
}

impl<'a> AsmParser<'a> {
    /// The validity of the parser: that of its scanner.
    pub open spec fn wf(&self) -> bool {
        lexer_wf(self@.lexer)
    }

    /// A parser before the first token of `source`.
    pub fn new(source: &'a str) -> (r: AsmParser<'a>)
        ensures
            r.wf(),
            r@ == parser_start(vstd::utf8::encode_utf8(source@)),
    {
        let r = AsmParser {
            lexer: AsmLexer::new(source),
            errors: Vec::new(),
            current_section_name: String::from_str("text"),
            statements: Vec::new(),
        };
        assert(r@.errors =~= Seq::empty());
        assert(r@.statements =~= Seq::empty());
        r
    }

    /// The errors found so far.
    pub fn errors(&self) -> (r: &Vec<CompileError<AsmParseError>>)
        ensures
            issues_of(r@) == self@.errors,
    {
        &self.errors
    }

    /// The reports of the errors found so far, one text for each.
    pub fn error_reports(&self) -> (r: Vec<String>)
        ensures
            r@.len() == self@.errors.len(),
            forall|i: int|
                0 <= i < r@.len() ==> (#[trigger] r@[i])@ == report_text(
                    self@.errors[i].line,
                    parse_error_text(self@.errors[i].kind),
                ),
    {
        let mut reports: Vec<String> = Vec::new();
        let mut i: usize = 0;
        while i < self.errors.len()
            invariant
                i <= self.errors@.len(),
                reports@.len() == i,
                forall|k: int|
                    0 <= k < i ==> (#[trigger] reports@[k])@ == report_text(
                        self@.errors[k].line,
                        parse_error_text(self@.errors[k].kind),
                    ),
            decreases self.errors@.len() - i,
        {
            reports.push(self.errors[i].report());
            i += 1;
        }
        reports
    }

    fn error(&mut self, error_type: AsmParseError)
        ensures
            final(self)@ == noted(old(self)@, error_type@),
    {
        let e = CompileError::new(error_type, self.lexer.line());
        self.errors.push(e);
        assert(self@.errors =~= old(self)@.errors.push(issue_of(e)));
    }

    fn push_statement(&mut self, stmt: AsmStmt)
        ensures
            final(self)@ == with_statement(old(self)@, stmt@),
    {
        self.statements.push(stmt);
        assert(self@.statements =~= old(self)@.statements.push(stmt@));
    }

    fn step(&mut self) -> (token: AsmToken)
        requires
            old(self).wf(),
        ensures
            final(self).wf(),
            final(self)@ == stepped(old(self)@),
            token == final(self)@.lexer.token,
    {
        self.lexer.next_token()
    }

    fn insert_label(&mut self, name: String, addr: Option<u16>)
        ensures
            final(self)@ == with_statement(
                old(self)@,
                match addr {
                    Some(a) => StmtView::ConstLabel(name@, a),
                    None => StmtView::Label(name@),
                },
            ),
    {
        match addr {
            Some(a) => self.push_statement(AsmStmt::ConstLabel(name, a)),
            None => self.push_statement(AsmStmt::Label(name)),
        }
    }

    fn parse_mem_ref(&mut self) -> (r: Option<MemRef>)
        requires
            old(self).wf(),
        ensures
            final(self).wf(),
            match mem_ref_here(old(self)@.lexer) {
                Ok(mem_ref) => final(self)@ == old(self)@ && r is Some && r->0@ == mem_ref,
                Err(kind) => final(self)@ == noted(old(self)@, kind) && r is None,
            },
    {
        let token = self.lexer.current_token();
        match token {
            AsmToken::DecInteger | AsmToken::HexInteger => {
                match self.parse_integer_literal() {
                    Some(addr) => {
                        if addr < 0x10000 {
                            Some(MemRef::Addr(addr as u16))
                        } else {
                            self.error(AsmParseError::AddressTooLarge);
                            None
                        }
                    },
                    None => None,
                }
            },
            AsmToken::Identifier => Some(MemRef::Variable(self.lexer.slice().to_owned())),
            _ => {
                self.error(AsmParseError::UnexpectedToken(token));
                None
            },
        }
    }

    fn parse_integer_literal(&self) -> (r: Option<u64>)
        requires
            self.wf(),
        ensures
            r == token_value(self@.lexer),
    {
        self.lexer.numeric_value()
    }

    fn parse_index_mode(&mut self, mem_ref: MemRef) -> (r: Option<AddrMode>)
        requires
            old(self).wf(),
        ensures
            final(self).wf(),
            match index_named(lowercase(token_text(old(self)@.lexer))) {
                Some(index) => final(self)@ == old(self)@ && r is Some && r->0@
                    == AddrModeView::Memory(index, mem_ref@),
                None => final(self)@ == noted(
                    old(self)@,
                    ParseErrorView::InvalidIndexRegister(lowercase(token_text(old(self)@.lexer))),
                ) && r is None,
            },
    {
        let id_text = to_lowercase(self.lexer.slice());
        match index_register(id_text.as_str()) {
            Some(index) => Some(AddrMode::Memory(index, mem_ref)),
            None => {
                self.error(AsmParseError::InvalidIndexRegister(id_text));
                None
            },
        }
    }

    fn parse_indexed_mem_ref(&mut self) -> (r: Option<AddrMode>)
        requires
            old(self).wf(),
        ensures
            final(self).wf(),
            final(self)@ == after_mem_operand(old(self)@).0,
            match r {
                Some(m) => after_mem_operand(old(self)@).1 == Some(m@),
                None => after_mem_operand(old(self)@).1 is None,
            },
    {
        let mem_ref = match self.parse_mem_ref() {
            Some(mem_ref) => mem_ref,
            None => {
                return None;
            },
        };
        if self.step() == AsmToken::Colon {
            let id_token = self.step();
            if id_token == AsmToken::Identifier {
                self.parse_index_mode(mem_ref)
            } else {
                self.error(AsmParseError::UnexpectedToken(id_token));
                None
            }
        } else {
            Some(AddrMode::Memory(IndexMode::NoIndex, mem_ref))
        }
    }

    fn parse_mem_addr_mode(&mut self) -> (r: Option<AddrMode>)
        requires
            old(self).wf(),
        ensures
            final(self).wf(),
            final(self)@ == after_mem_operand(old(self)@).0,
            match r {
                Some(m) => after_mem_operand(old(self)@).1 == Some(m@),
                None => after_mem_operand(old(self)@).1 is None,
            },
    {
        self.parse_indexed_mem_ref()
    }

    fn parse_immediate(&mut self) -> (r: Option<AddrMode>)
        requires
            old(self).wf(),
        ensures
            final(self).wf(),
            final(self)@ == after_immediate(old(self)@).0,
            match r {
                Some(m) => after_immediate(old(self)@).1 == Some(m@),
                None => after_immediate(old(self)@).1 is None,
            },
    {
        self.step();
        match self.lexer.numeric_value() {
            Some(value) => {
                if value >= 256 {
                    self.error(AsmParseError::ImmediateTooLarge);
                    None
                } else {
                    Some(AddrMode::Immediate(value as u8))
                }
            },
            None => None,
        }
    }

    /// Passes over the tokens up to the end of the statement and reports
    /// those that are in excess.
    fn parse_until(&mut self)
        requires
            old(self).wf(),
        ensures
            final(self).wf(),
            final(self)@ == after_construct(old(self)@),
    {
        let token = self.lexer.current_token();
        if token == AsmToken::Newline || token == AsmToken::Semicolon || token == AsmToken::End {
            return ;
        }
        let mut excess_tokens: usize = 0;
        let mut done = false;
        let ghost mut counted: nat = 0;
        while !done
            invariant
                self.wf(),
                lexer_wf(old(self)@.lexer),
                self@.errors == old(self)@.errors,
                self@.section == old(self)@.section,
                self@.statements == old(self)@.statements,
                !done ==> !ends_statement(self@.lexer.token),
                !done ==> skip_rest(self@.lexer) == skip_rest(old(self)@.lexer),
                !done ==> counted + excess_rest(self@.lexer) == excess_rest(old(self)@.lexer),
                done ==> self@.lexer == skip_rest(old(self)@.lexer),
                done ==> counted == excess_rest(old(self)@.lexer),
                excess_tokens == capped(counted),
            decreases
                    self@.lexer.bytes.len() - self@.lexer.end + (if done {
                        0int
                    } else {
                        1int
                    }),
        {
            proof {
                lemma_advanced_follows(self@.lexer);
            }
            let token = self.step();
            if token == AsmToken::Newline || token == AsmToken::Semicolon || token
                == AsmToken::End {
                done = true;
            } else {
                if excess_tokens < usize::MAX {
                    excess_tokens += 1;
                }
                proof {
                    counted = counted + 1;
                }
            }
        }
        if excess_tokens > 0 {
            self.error(AsmParseError::ExcessTokens(excess_tokens));
        }
    }

    fn parse_addr_mode(&mut self) -> (r: Option<AddrMode>)
        requires
            old(self).wf(),
        ensures
            final(self).wf(),
            final(self)@ == after_construct(after_addr_mode(old(self)@).0),
            match r {
                Some(m) => after_addr_mode(old(self)@).1 == Some(m@),
                None => after_addr_mode(old(self)@).1 is None,
            },
    {
        let r = match self.lexer.current_token() {
            AsmToken::End | AsmToken::Semicolon | AsmToken::Newline => Some(AddrMode::Implied),
            AsmToken::ImmediateModifier => self.parse_immediate(),
            _ => self.parse_mem_addr_mode(),
        };
        self.parse_until();
        r
    }

    /// Parses an instruction from the first token of its operand on.
    pub fn parse_instruction(&mut self, mnemonic: String)
        requires
            old(self).wf(),
        ensures
            final(self).wf(),
            final(self)@ == after_instruction(old(self)@, mnemonic@),
    {
        match self.parse_addr_mode() {
            Some(addr_mode) => {
                self.push_statement(AsmStmt::AsmInstruction(Instruction::new(mnemonic, addr_mode)));
            },
            None => {},
        }
    }

    fn parse_const_addr(&mut self, name: String)
        requires
            old(self).wf(),
        ensures
            final(self).wf(),
            final(self)@ == after_const_addr(old(self)@, name@),
    {
        let token = self.step();
        match self.lexer.numeric_value() {
            Some(addr) => {
                if addr <= 0xFFFF {
                    self.insert_label(name, Some(addr as u16));
                } else {
                    self.error(AsmParseError::AddressTooLarge);
                }
            },
            None => {
                self.error(AsmParseError::UnexpectedToken(token));
            },
        }
    }

    /// Hands the statements of the current section over.
    fn flush(&mut self, sections: &mut Vec<ParsedSection>)
        ensures
            final(self)@ == entered(old(self)@, old(self)@.section),
            push_views(final(sections)@) == push_views(old(sections)@).push(
                SectionPush { name: old(self)@.section, stmts: old(self)@.statements },
            ),
    {
        let mut stmts: Vec<AsmStmt> = Vec::new();
        std::mem::swap(&mut self.statements, &mut stmts);
        assert(self@.statements =~= Seq::empty());
        let section = ParsedSection { name: self.current_section_name.clone(), stmts };
        sections.push(section);
        assert(push_views(sections@) =~= push_views(old(sections)@).push(section@));
    }

    /// Parses the text to its end. The statements of a section are handed
    /// over when another section begins, and at the end of the text; what
    /// was handed over comes back in its order.
    pub fn parse_sections(&mut self) -> (r: Vec<ParsedSection>)
        requires
            old(self).wf(),
        ensures
            final(self).wf(),
            final(self)@ == parse_outcome(old(self)@).parser,
            push_views(r@) == parse_outcome(old(self)@).pushes,
    {
        let mut sections: Vec<ParsedSection> = Vec::new();
        assert(push_views(sections@) =~= Seq::empty());
        loop
            invariant
                self.wf(),
                parse_rest(self@, push_views(sections@)) == parse_outcome(old(self)@),
            decreases self@.lexer.bytes.len() - self@.lexer.end,
        {
            let ghost before = self@;
            let ghost held = push_views(sections@);
            proof {
                lemma_advanced_follows(before.lexer);
                lemma_item_follows(stepped(before));
            }
            match self.step() {
                AsmToken::Identifier => {
                    let identifier: String = self.lexer.slice().to_owned();
                    match self.step() {
                        AsmToken::Colon => self.insert_label(identifier, None),
                        AsmToken::AssignmentOperator => self.parse_const_addr(identifier),
                        _ => self.parse_instruction(identifier),
                    }
                },
                AsmToken::SectionKeyword => {
                    let token = self.step();
                    if token == AsmToken::Identifier {
                        self.flush(&mut sections);
                        self.current_section_name = self.lexer.slice().to_owned();
                    } else {
                        self.error(AsmParseError::UnexpectedToken(token));
                    }
                },
                AsmToken::StrKeyword => {
                    let token = self.step();
                    if token == AsmToken::StringLiteral {
                        let text = self.lexer.string_body().to_owned();
                        self.push_statement(AsmStmt::Data(DataPlacement::Str(text)));
                    } else {
                        self.error(AsmParseError::UnexpectedToken(token));
                    }
                },
                AsmToken::WordKeyword => {
                    self.step();
                    match self.parse_mem_ref() {
                        Some(mem_ref) => {
                            self.push_statement(AsmStmt::Data(DataPlacement::Word(mem_ref)));
                        },
                        None => {},
                    }
                },
                AsmToken::End => {
                    self.flush(&mut sections);
                    return sections;
                },
                AsmToken::Newline | AsmToken::Semicolon => {},
                token => {
                    self.error(AsmParseError::UnexpectedToken(token));
                },
            }
            assert(self@ == after_item(stepped(before)));
            assert(push_views(sections@) == pushes_with(held, item_push(stepped(before))));
        }
    }

    /// Parses the text to its end and hands the statements of each section
    /// to `sink`, in the order in which the text leaves the sections. Under
    /// each name the receiver then holds, behind what it held, the
    /// statements that the text places in the section of that name.
    pub fn parse<T: SectionSink>(&mut self, sink: &mut T)
        requires
            old(self).wf(),
        ensures
            final(self).wf(),
            final(self)@ == parse_outcome(old(self)@).parser,
            forall|n: Seq<char>| #[trigger]
                final(sink).section_stmts(n) == old(sink).section_stmts(n) + pushed(
                    parse_outcome(old(self)@).pushes,
                    n,
                ),
    {
        let mut sections = self.parse_sections();
        let ghost pushes = push_views(sections@);
        let mut i: usize = 0;
        proof {
            assert(pushes.take(0) =~= Seq::<SectionPush>::empty());
            assert forall|n: Seq<char>| #[trigger]
                sink.section_stmts(n) == old(sink).section_stmts(n) + pushed(pushes.take(0), n) by {
                assert(old(sink).section_stmts(n) + Seq::<StmtView>::empty() =~= old(
                    sink,
                ).section_stmts(n));
            }
        }
        while i < sections.len()
            invariant
                i <= sections@.len(),
                sections@.len() == pushes.len(),
                forall|k: int| i <= k < sections@.len() ==> (#[trigger] sections@[k])@ == pushes[k],
                forall|n: Seq<char>| #[trigger]
                    sink.section_stmts(n) == old(sink).section_stmts(n) + pushed(
                        pushes.take(i as int),
                        n,
                    ),
            decreases sections@.len() - i,
        {
            let ghost held = sections@;
            let ghost prior = *sink;
            assert(held[i as int]@ == pushes[i as int]);
            let mut stmts: Vec<AsmStmt> = Vec::new();
            std::mem::swap(&mut sections[i].stmts, &mut stmts);
            assert(sections@ =~= held.update(i as int, sections@[i as int]));
            sink.push_section(sections[i].name.as_str(), stmts);
            proof {
                assert(pushes.take(i + 1).drop_last() =~= pushes.take(i as int));
                assert(pushes.take(i + 1).last() == pushes[i as int]);
                assert forall|n: Seq<char>| #[trigger]
                    sink.section_stmts(n) == old(sink).section_stmts(n) + pushed(
                        pushes.take(i + 1),
                        n,
                    ) by {
                    assert(prior.section_stmts(n) == old(sink).section_stmts(n) + pushed(
                        pushes.take(i as int),
                        n,
                    ));
                    if n == pushes[i as int].name {
                        assert(old(sink).section_stmts(n) + pushed(pushes.take(i as int), n)
                            + pushes[i as int].stmts =~= old(sink).section_stmts(n) + (pushed(
                            pushes.take(i as int),
                            n,
                        ) + pushes[i as int].stmts));
                    }
                }
            }
            i += 1;
        }
        assert(pushes.take(i as int) =~= pushes);
    }
}

} // verus!
