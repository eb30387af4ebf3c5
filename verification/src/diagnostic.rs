//! The diagnostics of code generation and linking.
//!
//! No stage aborts on an error: each returns its diagnostics to the caller,
//! who decides whether an image is written.

use vstd::prelude::*;
use vstd::string::*;
use crate::mnemonic::Mnemonic;

verus! {

/// One problem found while generating code or linking.
#[derive(Debug, PartialEq)]
pub enum Diagnostic {
    /// The mnemonic has no opcode under the addressing-mode slot.
    InvalidAddressingMode(Mnemonic, usize),
    /// A statement would grow its section beyond the largest section size.
    SectionTooLarge,
    /// A relocation names a symbol that no section and no constant defines.
    UndefinedSymbol(String),
    /// The target of a branch is further away than a signed byte can tell.
    BranchTooFar(String),
    /// The first section of the link list has no load address.
    MissingLoadAddress(String),
    /// The link list names a section that no source declared.
    UnknownSection(String),
    /// The load address of a section lies before the end of its predecessor.
    LayoutConflict(String),
    /// A section reaches beyond the end of the 16-bit address space.
    OutOfAddressSpace(String),
}

/// A diagnostic with its names as sequences of characters.
pub enum DiagnosticView {
    InvalidAddressingMode(Mnemonic, usize),
    SectionTooLarge,
    UndefinedSymbol(Seq<char>),
    BranchTooFar(Seq<char>),
    MissingLoadAddress(Seq<char>),
    UnknownSection(Seq<char>),
    LayoutConflict(Seq<char>),
    OutOfAddressSpace(Seq<char>),
}

impl View for Diagnostic {
    type V = DiagnosticView;

    open spec fn view(&self) -> DiagnosticView {
        match self {
            Diagnostic::InvalidAddressingMode(m, slot) => DiagnosticView::InvalidAddressingMode(
                *m,
                *slot,
            ),
            Diagnostic::SectionTooLarge => DiagnosticView::SectionTooLarge,
            Diagnostic::UndefinedSymbol(name) => DiagnosticView::UndefinedSymbol(name@),
            Diagnostic::BranchTooFar(name) => DiagnosticView::BranchTooFar(name@),
            Diagnostic::MissingLoadAddress(name) => DiagnosticView::MissingLoadAddress(name@),
            Diagnostic::UnknownSection(name) => DiagnosticView::UnknownSection(name@),
            Diagnostic::LayoutConflict(name) => DiagnosticView::LayoutConflict(name@),
            Diagnostic::OutOfAddressSpace(name) => DiagnosticView::OutOfAddressSpace(name@),
        }
    }
}

/// The views of a list of diagnostics.
pub open spec fn diagnostic_views(diagnostics: Seq<Diagnostic>) -> Seq<DiagnosticView> {
    diagnostics.map_values(|d: Diagnostic| d@)
}

/// The text of a diagnostic.
pub open spec fn message_text(d: DiagnosticView) -> Seq<char> {
    match d {
        DiagnosticView::InvalidAddressingMode(m, _) => "invalid addressing mode for mnemonic "@
            + m.spec_name(),
        DiagnosticView::SectionTooLarge => "section does not fit into 65535 bytes"@,
        DiagnosticView::UndefinedSymbol(name) => "undefined reference to symbol "@ + name,
        DiagnosticView::BranchTooFar(name) => "cannot always branch to symbol "@ + name
            + ", distance too far"@,
        DiagnosticView::MissingLoadAddress(name) => "no load address for first section "@ + name,
        DiagnosticView::UnknownSection(name) => "unknown section "@ + name,
        DiagnosticView::LayoutConflict(name) => "load address overlaps previous section in section "@
            + name,
        DiagnosticView::OutOfAddressSpace(name) => "address space exceeded by section "@ + name,
    }
}

fn prefixed(prefix: &str, name: &str) -> (r: String)
    ensures
        r@ == prefix@ + name@,
{
    let mut text = String::from_str(prefix);
    text.append(name);
    text
}

impl Diagnostic {
    /// The text of the diagnostic, for the user to read.
    pub fn message(&self) -> (r: String)
        ensures
            r@ == message_text(self@),
    {
        match self {
            Diagnostic::InvalidAddressingMode(m, _) => prefixed(
                "invalid addressing mode for mnemonic ",
                m.name(),
            ),
            Diagnostic::SectionTooLarge => String::from_str("section does not fit into 65535 bytes"),
            Diagnostic::UndefinedSymbol(name) => prefixed(
                "undefined reference to symbol ",
                name.as_str(),
            ),
            Diagnostic::BranchTooFar(name) => {
                let mut text = prefixed("cannot always branch to symbol ", name.as_str());
                text.append(", distance too far");
                text
            },
            Diagnostic::MissingLoadAddress(name) => prefixed(
                "no load address for first section ",
                name.as_str(),
            ),
            Diagnostic::UnknownSection(name) => prefixed("unknown section ", name.as_str()),
            Diagnostic::LayoutConflict(name) => prefixed(
                "load address overlaps previous section in section ",
                name.as_str(),
            ),
            Diagnostic::OutOfAddressSpace(name) => prefixed(
                "address space exceeded by section ",
                name.as_str(),
            ),
        }
    }
}

} // verus!
