//! The code generator and linker.
//!
//! Linking runs in stages, each over all sections before the next begins:
//! the constants are collected, the code of each section is generated, the
//! sections are placed and their labels merged into the global symbol table,
//! the relocations are filled in, and the image is put together.

use vstd::prelude::*;
use vstd::string::*;
use crate::codeblob::{
    blob_wf, empty_blob, generated, generation_diagnostics, lemma_resolved_len,
    relocation_diagnostics, resolved_bytes, BlobView, CodeBlob,
};
use crate::diagnostic::{diagnostic_views, Diagnostic, DiagnosticView};
use crate::ldscript::{ld_views, LdSection, LdView};
use crate::model::{stmt_views, AsmStmt, StmtView};
use crate::sink::{push_views, pushed, ParsedSection, SectionPush, SectionSink};
use crate::symtab::{merged, register_bank, SymbolTable};
use crate::text::str_eq;

verus! {

/// A section: its name, its statements in the order in which they came, and
/// its code buffer.
pub struct Section {
    name: String,
    stmts: Vec<AsmStmt>,
    blob: CodeBlob,
}

/// What a section holds.
pub struct SectionView {
    pub name: Seq<char>,
    pub stmts: Seq<StmtView>,
    pub blob: BlobView,
}

impl View for Section {
    type V = SectionView;

    closed spec fn view(&self) -> SectionView {
        SectionView { name: self.name@, stmts: stmt_views(self.stmts@), blob: self.blob@ }
    }
}

/// The code generator: the sections in the order in which they were first
/// named, and the global symbol table.
pub struct CodeGenerator {
    sections: Vec<Section>,
    symbols: SymbolTable,
}

/// What a code generator holds.
pub struct GeneratorView {
    pub sections: Seq<SectionView>,
    pub symbols: Map<Seq<char>, u16>,
}

impl View for CodeGenerator {
    type V = GeneratorView;

    closed spec fn view(&self) -> GeneratorView {
        GeneratorView {
            sections: self.sections@.map_values(|s: Section| s@),
            symbols: self.symbols@,
        }
    }
}

/// The size of the address space.
pub const ADDRESS_SPACE: usize = 0x10000;

/// The position of the first section that carries a name.
pub open spec fn section_index(sections: Seq<SectionView>, name: Seq<char>) -> Option<int>
    decreases sections.len(),
{
    if sections.len() == 0 {
        None
    } else {
        match section_index(sections.drop_last(), name) {
            Some(i) => Some(i),
            None => if sections.last().name == name {
                Some(sections.len() - 1)
            } else {
                None
            },
        }
    }
}

/// The sections after statements were added under a name: behind the
/// statements of the first section that carries the name or, where none
/// carries it, as a section of its own behind all others, with an empty
/// code buffer.
pub open spec fn with_section(
    sections: Seq<SectionView>,
    name: Seq<char>,
    stmts: Seq<StmtView>,
) -> Seq<SectionView> {
    match section_index(sections, name) {
        Some(i) => sections.update(
            i,
            SectionView {
                name: sections[i].name,
                stmts: sections[i].stmts + stmts,
                blob: sections[i].blob,
            },
        ),
        None => sections.push(SectionView { name, stmts, blob: empty_blob() }),
    }
}

/// The sections after lists of statements were added under their names,
/// one list after the other.
pub open spec fn with_sections(
    sections: Seq<SectionView>,
    pushes: Seq<SectionPush>,
) -> Seq<SectionView>
    decreases pushes.len(),
{
    if pushes.len() == 0 {
        sections
    } else {
        with_section(
            with_sections(sections, pushes.drop_last()),
            pushes.last().name,
            pushes.last().stmts,
        )
    }
}

/// The statements of the section that carries a name; none where no section
/// carries it.
pub open spec fn stmts_of(sections: Seq<SectionView>, name: Seq<char>) -> Seq<StmtView> {
    match section_index(sections, name) {
        Some(i) => sections[i].stmts,
        None => Seq::empty(),
    }
}

/// The code buffer of the section that carries a name; an empty buffer
/// where no section carries it.
pub open spec fn blob_of(sections: Seq<SectionView>, name: Seq<char>) -> BlobView {
    match section_index(sections, name) {
        Some(i) => sections[i].blob,
        None => empty_blob(),
    }
}

/// Whether every section has a valid code buffer.
pub open spec fn sections_wf(sections: Seq<SectionView>) -> bool {
    forall|i: int| 0 <= i < sections.len() ==> blob_wf((#[trigger] sections[i]).blob)
}

/// A symbol table after the constants of a list of statements: each
/// constant label binds its name, a later one over an earlier one.
pub open spec fn with_constants(table: Map<Seq<char>, u16>, stmts: Seq<StmtView>) -> Map<
    Seq<char>,
    u16,
>
    decreases stmts.len(),
{
    if stmts.len() == 0 {
        table
    } else {
        let before = with_constants(table, stmts.drop_last());
        match stmts.last() {
            StmtView::ConstLabel(name, addr) => before.insert(name, addr),
            _ => before,
        }
    }
}

/// A symbol table after the constants of all sections, taken in their
/// order.
pub open spec fn with_section_constants(
    table: Map<Seq<char>, u16>,
    sections: Seq<SectionView>,
) -> Map<Seq<char>, u16>
    decreases sections.len(),
{
    if sections.len() == 0 {
        table
    } else {
        with_constants(with_section_constants(table, sections.drop_last()), sections.last().stmts)
    }
}

/// A section with its code generated anew from its statements.
pub open spec fn generated_section(section: SectionView, symbols: Map<Seq<char>, u16>) -> SectionView {
    SectionView {
        name: section.name,
        stmts: section.stmts,
        blob: generated(empty_blob(), section.stmts, symbols),
    }
}

/// The sections with their code generated anew, each on its own.
pub open spec fn generated_sections(
    sections: Seq<SectionView>,
    symbols: Map<Seq<char>, u16>,
) -> Seq<SectionView> {
    sections.map_values(|s: SectionView| generated_section(s, symbols))
}

/// The diagnostics of generating all sections, in the order of the sections.
pub open spec fn all_generation_diagnostics(
    sections: Seq<SectionView>,
    symbols: Map<Seq<char>, u16>,
) -> Seq<DiagnosticView>
    decreases sections.len(),
{
    if sections.len() == 0 {
        Seq::empty()
    } else {
        all_generation_diagnostics(sections.drop_last(), symbols) + generation_diagnostics(
            empty_blob(),
            sections.last().stmts,
            symbols,
        )
    }
}

/// The load address of an entry of the link list: its fixed address, or the
/// cursor where it has none.
pub open spec fn load_address(entry: LdView, cursor: u16) -> u16 {
    match entry.load_addr {
        Some(addr) => addr,
        None => cursor,
    }
}

/// The address behind a section of `size` bytes loaded at `load`, in the
/// 16-bit address space.
pub open spec fn end_address(load: u16, size: nat) -> u16 {
    ((load + size) % 0x10000) as u16
}

/// The cursor after the entries of a link list: the address behind the
/// last of them. Before the first entry the cursor is zero.
pub open spec fn cursor_after(ld: Seq<LdView>, sections: Seq<SectionView>) -> u16
    decreases ld.len(),
{
    if ld.len() == 0 {
        0
    } else {
        end_address(
            load_address(ld.last(), cursor_after(ld.drop_last(), sections)),
            blob_of(sections, ld.last().name).bytes.len(),
        )
    }
}

/// The address at which entry `k` of the link list is loaded.
pub open spec fn base_of(ld: Seq<LdView>, sections: Seq<SectionView>, k: int) -> u16 {
    load_address(ld[k], cursor_after(ld.take(k), sections))
}

/// The global symbol table after the link list: for each entry in turn, the
/// labels of its section are added, moved by the load address of the entry.
pub open spec fn merged_symbols(
    table: Map<Seq<char>, u16>,
    ld: Seq<LdView>,
    sections: Seq<SectionView>,
) -> Map<Seq<char>, u16>
    decreases ld.len(),
{
    if ld.len() == 0 {
        table
    } else {
        merged(
            merged_symbols(table, ld.drop_last(), sections),
            blob_of(sections, ld.last().name).symbols,
            load_address(ld.last(), cursor_after(ld.drop_last(), sections)),
        )
    }
}

/// A section with its relocations filled in for a load address.
pub open spec fn resolved_section(
    section: SectionView,
    base: u16,
    symbols: Map<Seq<char>, u16>,
) -> SectionView {
    SectionView {
        name: section.name,
        stmts: section.stmts,
        blob: BlobView {
            bytes: resolved_bytes(section.blob.bytes, section.blob.relocations, base, symbols),
            symbols: section.blob.symbols,
            relocations: section.blob.relocations,
        },
    }
}

/// The sections after the relocations of the link list: for each entry in
/// turn, the relocations of its section are filled in for the load address
/// of the entry.
pub open spec fn relocated(
    sections: Seq<SectionView>,
    ld: Seq<LdView>,
    symbols: Map<Seq<char>, u16>,
) -> Seq<SectionView>
    decreases ld.len(),
{
    if ld.len() == 0 {
        sections
    } else {
        let before = relocated(sections, ld.drop_last(), symbols);
        let base = load_address(ld.last(), cursor_after(ld.drop_last(), sections));
        match section_index(sections, ld.last().name) {
            Some(i) => before.update(i, resolved_section(before[i], base, symbols)),
            None => before,
        }
    }
}

/// The diagnostics of the relocations of the link list, entry by entry.
pub open spec fn relocation_report(
    sections: Seq<SectionView>,
    ld: Seq<LdView>,
    symbols: Map<Seq<char>, u16>,
) -> Seq<DiagnosticView>
    decreases ld.len(),
{
    if ld.len() == 0 {
        Seq::empty()
    } else {
        relocation_report(sections, ld.drop_last(), symbols) + relocation_diagnostics(
            blob_of(sections, ld.last().name).relocations,
            load_address(ld.last(), cursor_after(ld.drop_last(), sections)),
            symbols,
        )
    }
}

/// `n` zero bytes.
pub open spec fn zeros(n: int) -> Seq<u8> {
    Seq::new(n as nat, |i: int| 0u8)
}

/// The address at which the image begins: the load address of the first
/// entry of the link list.
pub open spec fn image_start(ld: Seq<LdView>) -> int {
    match ld[0].load_addr {
        Some(addr) => addr as int,
        None => 0,
    }
}

/// The image after one more entry of the link list, where `cursor` is the
/// address behind the image so far. The entry must name a section. The
/// first entry must have a load address. A load address must not lie before
/// the cursor; the gap up to it is filled with zeros. The section must end
/// within the address space.
pub open spec fn extended_image(
    before: Seq<u8>,
    cursor: int,
    first: bool,
    entry: LdView,
    sections: Seq<SectionView>,
) -> Result<Seq<u8>, DiagnosticView> {
    match section_index(sections, entry.name) {
        None => Err(DiagnosticView::UnknownSection(entry.name)),
        Some(i) => match entry.load_addr {
            None => if first {
                Err(DiagnosticView::MissingLoadAddress(entry.name))
            } else if cursor + sections[i].blob.bytes.len() > ADDRESS_SPACE {
                Err(DiagnosticView::OutOfAddressSpace(entry.name))
            } else {
                Ok(before + sections[i].blob.bytes)
            },
            Some(addr) => if addr < cursor {
                Err(DiagnosticView::LayoutConflict(entry.name))
            } else if addr + sections[i].blob.bytes.len() > ADDRESS_SPACE {
                Err(DiagnosticView::OutOfAddressSpace(entry.name))
            } else {
                Ok(before + zeros(addr - cursor) + sections[i].blob.bytes)
            },
        },
    }
}

/// The image of a link list: the bytes of its sections in the order of the
/// list, from the load address of the first, or the first problem of the
/// layout.
pub open spec fn image_of(ld: Seq<LdView>, sections: Seq<SectionView>) -> Result<
    Seq<u8>,
    DiagnosticView,
>
    decreases ld.len(),
{
    if ld.len() == 0 {
        Ok(Seq::empty())
    } else {
        match image_of(ld.drop_last(), sections) {
            Err(d) => Err(d),
            Ok(before) => extended_image(
                before,
                image_start(ld) + before.len(),
                ld.len() == 1,
                ld.last(),
                sections,
            ),
        }
    }
}

/// What linking gives: the image and the diagnostics of all stages.
pub struct LinkOutcome {
    /// The sections after generation and relocation.
    pub sections: Seq<SectionView>,
    /// The global symbol table.
    pub symbols: Map<Seq<char>, u16>,
    /// The image, or the first problem of the layout.
    pub image: Result<Seq<u8>, DiagnosticView>,
    /// The diagnostics: those of generation, then those of relocation, then
    /// that of the layout.
    pub diagnostics: Seq<DiagnosticView>,
}

/// Links sections by a link list.
///
/// The global symbol table starts from the pseudo-registers and takes the
/// constants of all sections. Each section is generated against that table.
/// The labels of the linked sections are merged in, the relocations are
/// filled in from the complete table, and the image is put together.
pub open spec fn link_outcome(sections: Seq<SectionView>, ld: Seq<LdView>) -> LinkOutcome {
    let constants = with_section_constants(register_bank(), sections);
    let fresh = generated_sections(sections, constants);
    let symbols = merged_symbols(constants, ld, fresh);
    let done = relocated(fresh, ld, symbols);
    let image = image_of(ld, done);
    LinkOutcome {
        sections: done,
        symbols,
        image,
        diagnostics: all_generation_diagnostics(sections, constants) + relocation_report(
            fresh,
            ld,
            symbols,
        ) + match image {
            Ok(_) => Seq::empty(),
            Err(d) => seq![d],
        },
    }
}

/// Sections with the same names have the same positions by name.
pub proof fn lemma_section_index_names(
    a: Seq<SectionView>,
    b: Seq<SectionView>,
    name: Seq<char>,
)
    requires
        a.len() == b.len(),
        forall|i: int| 0 <= i < a.len() ==> a[i].name == b[i].name,
    ensures
        section_index(a, name) == section_index(b, name),
    decreases a.len(),
{
    if a.len() > 0 {
        lemma_section_index_names(a.drop_last(), b.drop_last(), name);
    }
}

/// What adding statements under a name changes, section by section: the
/// named section holds the statements behind those that it held, and is
/// there from now on; every other name finds what it found before.
pub proof fn lemma_with_section(
    sections: Seq<SectionView>,
    name: Seq<char>,
    stmts: Seq<StmtView>,
    n: Seq<char>,
)
    ensures
        section_index(with_section(sections, name, stmts), n) is Some <==> (section_index(
            sections,
            n,
        ) is Some || n == name),
        stmts_of(with_section(sections, name, stmts), n) == if n == name {
            stmts_of(sections, n) + stmts
        } else {
            stmts_of(sections, n)
        },
        blob_of(with_section(sections, name, stmts), n) == blob_of(sections, n),
{
    let after = with_section(sections, name, stmts);
    lemma_section_index_found(sections, name);
    lemma_section_index_found(sections, n);
    match section_index(sections, name) {
        Some(i) => {
            lemma_section_index_names(after, sections, n);
        },
        None => {
            assert(after.drop_last() =~= sections);
            assert(after.last().name == name);
            if n == name {
                assert(Seq::<StmtView>::empty() + stmts =~= stmts);
            }
        },
    }
}

/// After lists of statements were added, a name finds behind the
/// statements that it found before those that were added under it.
pub proof fn lemma_with_sections(
    sections: Seq<SectionView>,
    pushes: Seq<SectionPush>,
    n: Seq<char>,
)
    ensures
        stmts_of(with_sections(sections, pushes), n) == stmts_of(sections, n) + pushed(pushes, n),
        blob_of(with_sections(sections, pushes), n) == blob_of(sections, n),
    decreases pushes.len(),
{
    if pushes.len() == 0 {
        assert(stmts_of(sections, n) + Seq::<StmtView>::empty() =~= stmts_of(sections, n));
    } else {
        let before = with_sections(sections, pushes.drop_last());
        lemma_with_sections(sections, pushes.drop_last(), n);
        lemma_with_section(before, pushes.last().name, pushes.last().stmts, n);
        if n == pushes.last().name {
            assert(stmts_of(sections, n) + pushed(pushes.drop_last(), n) + pushes.last().stmts
                =~= stmts_of(sections, n) + (pushed(pushes.drop_last(), n)
                + pushes.last().stmts));
        }
    }
}

/// The position by name lies within the sections, carries the name, and no
/// section before it carries the name.
pub proof fn lemma_section_index_found(sections: Seq<SectionView>, name: Seq<char>)
    ensures
        match section_index(sections, name) {
            Some(i) => {
                &&& 0 <= i < sections.len()
                &&& sections[i].name == name
                &&& forall|j: int| 0 <= j < i ==> sections[j].name != name
            },
            None => forall|j: int| 0 <= j < sections.len() ==> sections[j].name != name,
        },
    decreases sections.len(),
{
    if sections.len() > 0 {
        let front = sections.drop_last();
        lemma_section_index_found(front, name);
        assert(forall|j: int| 0 <= j < front.len() ==> front[j] == sections[j]);
        match section_index(front, name) {
            Some(i) => {
                assert(section_index(sections, name) == Some(i));
            },
            None => {
                assert(sections.last() == sections[sections.len() - 1]);
            },
        }
    }
}

/// A section that carries a name, behind sections that do not, is the
/// position of that name.
pub proof fn lemma_section_index_first(sections: Seq<SectionView>, i: int, name: Seq<char>)
    requires
        0 <= i < sections.len(),
        sections[i].name == name,
        forall|j: int| 0 <= j < i ==> sections[j].name != name,
    ensures
        section_index(sections, name) == Some(i),
{
    lemma_section_index_found(sections, name);
}

/// A name that no section carries has no position.
pub proof fn lemma_section_index_none(sections: Seq<SectionView>, name: Seq<char>)
    requires
        forall|j: int| 0 <= j < sections.len() ==> sections[j].name != name,
    ensures
        section_index(sections, name) is None,
{
    lemma_section_index_found(sections, name);
}

/// A name found among the first sections is found there among all.
proof fn lemma_section_index_prefix(sections: Seq<SectionView>, k: int, name: Seq<char>)
    requires
        0 <= k <= sections.len(),
        section_index(sections.take(k), name) is Some,
    ensures
        section_index(sections, name) == section_index(sections.take(k), name),
    decreases sections.len(),
{
    if k == sections.len() {
        assert(sections.take(k) =~= sections);
    } else {
        assert(sections.drop_last().take(k) =~= sections.take(k));
        lemma_section_index_prefix(sections.drop_last(), k, name);
    }
}

/// The cursor depends on the names and sizes of the sections only.
pub proof fn lemma_cursor_same(a: Seq<SectionView>, b: Seq<SectionView>, ld: Seq<LdView>)
    requires
        a.len() == b.len(),
        forall|i: int|
            0 <= i < a.len() ==> a[i].name == b[i].name && a[i].blob.bytes.len()
                == b[i].blob.bytes.len(),
    ensures
        cursor_after(ld, a) == cursor_after(ld, b),
    decreases ld.len(),
{
    if ld.len() > 0 {
        lemma_cursor_same(a, b, ld.drop_last());
        lemma_section_index_names(a, b, ld.last().name);
        lemma_section_index_found(a, ld.last().name);
    }
}

/// Relocation keeps the names, statements, labels, relocations and sizes of
/// the sections.
pub proof fn lemma_relocated_shape(
    sections: Seq<SectionView>,
    ld: Seq<LdView>,
    symbols: Map<Seq<char>, u16>,
)
    requires
        sections_wf(sections),
    ensures
        relocated(sections, ld, symbols).len() == sections.len(),
        sections_wf(relocated(sections, ld, symbols)),
        forall|i: int|
            0 <= i < sections.len() ==> {
                let r = #[trigger] relocated(sections, ld, symbols)[i];
                &&& r.name == sections[i].name
                &&& r.stmts == sections[i].stmts
                &&& r.blob.symbols == sections[i].blob.symbols
                &&& r.blob.relocations == sections[i].blob.relocations
                &&& r.blob.bytes.len() == sections[i].blob.bytes.len()
            },
    decreases ld.len(),
{
    if ld.len() > 0 {
        lemma_relocated_shape(sections, ld.drop_last(), symbols);
        lemma_section_index_found(sections, ld.last().name);
        let before = relocated(sections, ld.drop_last(), symbols);
        let base = load_address(ld.last(), cursor_after(ld.drop_last(), sections));
        match section_index(sections, ld.last().name) {
            Some(i) => {
                lemma_resolved_len(
                    before[i].blob.bytes,
                    before[i].blob.relocations,
                    base,
                    symbols,
                );
            },
            None => {},
        }
    }
}

impl CodeGenerator {
    /// The validity of the generator: every section has a valid code buffer.
    pub open spec fn wf(&self) -> bool {
        sections_wf(self@.sections)
    }

    /// A generator without sections. Its symbol table holds the
    /// pseudo-registers.
    pub fn new() -> (r: CodeGenerator)
        ensures
            r.wf(),
            r@.sections == Seq::<SectionView>::empty(),
            r@.symbols == register_bank(),
    {
        let r = CodeGenerator { sections: Vec::new(), symbols: SymbolTable::new_with_registers() };
        assert(r@.sections =~= Seq::empty());
        r
    }

    /// The global symbol table.
    pub fn symbols(&self) -> (table: &SymbolTable)
        ensures
            table@ == self@.symbols,
    {
        &self.symbols
    }

    /// Adds what a parser handed over, list by list: each as
    /// `push_section` adds it.
    pub fn push_sections(&mut self, sections: Vec<ParsedSection>)
        ensures
            final(self)@.sections == with_sections(old(self)@.sections, push_views(sections@)),
            final(self)@.symbols == old(self)@.symbols,
            old(self).wf() ==> final(self).wf(),
    {
        let mut sections = sections;
        let ghost pushes = push_views(sections@);
        let mut i: usize = 0;
        assert(pushes.take(0) =~= Seq::<SectionPush>::empty());
        while i < sections.len()
            invariant
                i <= sections@.len(),
                sections@.len() == pushes.len(),
                forall|k: int| i <= k < sections@.len() ==> (#[trigger] sections@[k])@ == pushes[k],
                self@.sections == with_sections(old(self)@.sections, pushes.take(i as int)),
                self@.symbols == old(self)@.symbols,
                old(self).wf() ==> self.wf(),
            decreases sections@.len() - i,
        {
            let ghost held = sections@;
            assert(held[i as int]@ == pushes[i as int]);
            let mut stmts: Vec<AsmStmt> = Vec::new();
            std::mem::swap(&mut sections[i].stmts, &mut stmts);
            assert(sections@ =~= held.update(i as int, sections@[i as int]));
            self.push_section(sections[i].name.as_str(), stmts);
            assert(pushes.take(i + 1).drop_last() =~= pushes.take(i as int));
            assert(pushes.take(i + 1).last() == pushes[i as int]);
            i += 1;
        }
        assert(pushes.take(i as int) =~= pushes);
    }

    /// The position of the first section that carries `name`.
    fn find_section(&self, name: &str) -> (r: Option<usize>)
        ensures
            match r {
                Some(i) => section_index(self@.sections, name@) == Some(i as int) && i
                    < self.sections@.len(),
                None => section_index(self@.sections, name@) is None,
            },
    {
        let mut i: usize = 0;
        assert(self@.sections.take(0) =~= Seq::empty());
        while i < self.sections.len()
            invariant
                i <= self.sections@.len(),
                section_index(self@.sections.take(i as int), name@) is None,
            decreases self.sections@.len() - i,
        {
            assert(self@.sections.take(i + 1).drop_last() =~= self@.sections.take(i as int));
            if str_eq(self.sections[i].name.as_str(), name) {
                proof {
                    lemma_section_index_prefix(self@.sections, i + 1, name@);
                }
                return Some(i);
            }
            i += 1;
        }
        assert(self@.sections.take(i as int) =~= self@.sections);
        None
    }

    /// Stage one: the symbol table is set to the pseudo-registers and the
    /// constants of all sections.
    pub fn collect_symbols(&mut self)
        ensures
            final(self)@.sections == old(self)@.sections,
            final(self)@.symbols == with_section_constants(register_bank(), old(self)@.sections),
    {
        self.symbols = SymbolTable::new_with_registers();
        let ghost sections = self@.sections;
        let mut i: usize = 0;
        assert(sections.take(0) =~= Seq::empty());
        while i < self.sections.len()
            invariant
                i <= self.sections@.len(),
                self@.sections == sections,
                self@.symbols == with_section_constants(register_bank(), sections.take(i as int)),
            decreases self.sections@.len() - i,
        {
            let ghost table = self@.symbols;
            let ghost stmts = sections[i as int].stmts;
            let mut j: usize = 0;
            assert(stmts.take(0) =~= Seq::empty());
            while j < self.sections[i].stmts.len()
                invariant
                    i < self.sections@.len(),
                    j <= self.sections@[i as int].stmts@.len(),
                    self@.sections == sections,
                    stmts == sections[i as int].stmts,
                    stmts == stmt_views(self.sections@[i as int].stmts@),
                    self@.symbols == with_constants(table, stmts.take(j as int)),
                decreases self.sections@[i as int].stmts@.len() - j,
            {
                assert(stmts.take(j + 1).drop_last() =~= stmts.take(j as int));
                match &self.sections[i].stmts[j] {
                    AsmStmt::ConstLabel(name, addr) => {
                        self.symbols.insert(name.as_str(), *addr);
                    },
                    _ => {},
                }
                j += 1;
            }
            assert(stmts.take(j as int) =~= stmts);
            assert(sections.take(i + 1).drop_last() =~= sections.take(i as int));
            i += 1;
        }
        assert(sections.take(i as int) =~= sections);
    }

    /// Generates the code of a list of statements into a fresh code buffer.
    fn generate_blob(
        stmts: &Vec<AsmStmt>,
        symbols: &SymbolTable,
        diagnostics: &mut Vec<Diagnostic>,
    ) -> (blob: CodeBlob)
        ensures
            blob.wf(),
            blob@ == generated(empty_blob(), stmt_views(stmts@), symbols@),
            diagnostic_views(final(diagnostics)@) == diagnostic_views(old(diagnostics)@)
                + generation_diagnostics(empty_blob(), stmt_views(stmts@), symbols@),
    {
        let mut blob = CodeBlob::new();
        let ghost views = stmt_views(stmts@);
        let mut j: usize = 0;
        assert(views.take(0) =~= Seq::empty());
        assert(diagnostic_views(diagnostics@) =~= diagnostic_views(old(diagnostics)@)
            + Seq::<DiagnosticView>::empty());
        while j < stmts.len()
            invariant
                j <= stmts@.len(),
                views == stmt_views(stmts@),
                blob.wf(),
                blob@ == generated(empty_blob(), views.take(j as int), symbols@),
                diagnostic_views(diagnostics@) == diagnostic_views(old(diagnostics)@)
                    + generation_diagnostics(empty_blob(), views.take(j as int), symbols@),
            decreases stmts@.len() - j,
        {
            assert(views.take(j + 1).drop_last() =~= views.take(j as int));
            let ghost before = diagnostics@;
            match blob.gen_stmt(&stmts[j], symbols) {
                Ok(_) => {},
                Err(d) => {
                    diagnostics.push(d);
                    assert(diagnostic_views(diagnostics@) =~= diagnostic_views(before).push(d@));
                },
            }
            assert(diagnostic_views(diagnostics@) =~= diagnostic_views(old(diagnostics)@)
                + generation_diagnostics(empty_blob(), views.take(j + 1), symbols@));
            j += 1;
        }
        assert(views.take(j as int) =~= views);
        blob
    }

    /// Stage two: the code of every section is generated anew from its
    /// statements, against the symbol table as it stands. The diagnostics
    /// come back in the order of the sections and their statements.
    pub fn generate_statements(&mut self) -> (r: Vec<Diagnostic>)
        ensures
            final(self).wf(),
            final(self)@.symbols == old(self)@.symbols,
            final(self)@.sections == generated_sections(old(self)@.sections, old(self)@.symbols),
            diagnostic_views(r@) == all_generation_diagnostics(
                old(self)@.sections,
                old(self)@.symbols,
            ),
    {
        let mut diagnostics: Vec<Diagnostic> = Vec::new();
        let ghost sections = self@.sections;
        let ghost symbols = self@.symbols;
        let mut i: usize = 0;
        assert(sections.take(0) =~= Seq::empty());
        assert(diagnostic_views(diagnostics@) =~= Seq::empty());
        while i < self.sections.len()
            invariant
                i <= self.sections@.len(),
                sections == old(self)@.sections,
                symbols == old(self)@.symbols,
                self@.symbols == symbols,
                self@.sections.len() == sections.len(),
                forall|k: int|
                    0 <= k < i ==> #[trigger] self@.sections[k] == generated_section(
                        sections[k],
                        symbols,
                    ),
                forall|k: int| 0 <= k < i ==> blob_wf((#[trigger] self@.sections[k]).blob),
                forall|k: int| i <= k < sections.len() ==> #[trigger] self@.sections[k] == sections[k],
                diagnostic_views(diagnostics@) == all_generation_diagnostics(
                    sections.take(i as int),
                    symbols,
                ),
            decreases self.sections@.len() - i,
        {
            let ghost held = self.sections@;
            assert(self@.sections[i as int] == held[i as int]@);
            let blob = Self::generate_blob(&self.sections[i].stmts, &self.symbols, &mut diagnostics);
            self.sections[i].blob = blob;
            assert(sections.take(i + 1).drop_last() =~= sections.take(i as int));
            assert(self.sections@ =~= held.update(i as int, self.sections@[i as int]));
            assert(self@.sections =~= held.map_values(|s: Section| s@).update(
                i as int,
                generated_section(sections[i as int], symbols),
            ));
            i += 1;
        }
        assert(sections.take(i as int) =~= sections);
        assert(self@.sections =~= generated_sections(sections, symbols));
        diagnostics
    }

    /// Stage three and four: the linked sections are placed in the order of
    /// the link list, their labels are merged into the symbol table, and
    /// then the relocations are filled in.
    pub fn resolve_all_symbols(&mut self, link_sections: &Vec<LdSection>) -> (r: Vec<Diagnostic>)
        requires
            old(self).wf(),
        ensures
            final(self).wf(),
            final(self)@.symbols == merged_symbols(
                old(self)@.symbols,
                ld_views(link_sections@),
                old(self)@.sections,
            ),
            final(self)@.sections == relocated(
                old(self)@.sections,
                ld_views(link_sections@),
                final(self)@.symbols,
            ),
            diagnostic_views(r@) == relocation_report(
                old(self)@.sections,
                ld_views(link_sections@),
                final(self)@.symbols,
            ),
    {
        let ghost ld = ld_views(link_sections@);
        let ghost sections = self@.sections;
        let mut cursor: u16 = 0;
        let mut i: usize = 0;
        assert(ld.take(0) =~= Seq::empty());
        while i < link_sections.len()
            invariant
                i <= link_sections@.len(),
                ld == ld_views(link_sections@),
                sections == old(self)@.sections,
                self@.sections == sections,
                self.wf(),
                cursor == cursor_after(ld.take(i as int), sections),
                self@.symbols == merged_symbols(old(self)@.symbols, ld.take(i as int), sections),
            decreases link_sections@.len() - i,
        {
            assert(ld.take(i + 1).drop_last() =~= ld.take(i as int));
            assert(ld[i as int] == link_sections@[i as int]@);
            let load: u16 = match link_sections[i].load_addr() {
                Some(addr) => addr,
                None => cursor,
            };
            let mut size: usize = 0;
            match self.find_section(link_sections[i].name()) {
                Some(k) => {
                    assert(self@.sections[k as int] == self.sections@[k as int]@);
                    assert(blob_wf(self@.sections[k as int].blob));
                    self.symbols.insert_table(self.sections[k].blob.symbols(), load);
                    size = self.sections[k].blob.size();
                },
                None => {
                    assert(self@.symbols =~= merged(self@.symbols, empty_blob().symbols, load));
                },
            }
            cursor = ((load as usize + size) % ADDRESS_SPACE) as u16;
            i += 1;
        }
        assert(ld.take(i as int) =~= ld);
        self.relocate_blobs(link_sections)
    }

    /// Stage four: the relocations of the linked sections are filled in
    /// from the symbol table, each section for its load address. The
    /// diagnostics come back in the order of the link list.
    pub fn relocate_blobs(&mut self, link_sections: &Vec<LdSection>) -> (r: Vec<Diagnostic>)
        requires
            old(self).wf(),
        ensures
            final(self).wf(),
            final(self)@.symbols == old(self)@.symbols,
            final(self)@.sections == relocated(
                old(self)@.sections,
                ld_views(link_sections@),
                old(self)@.symbols,
            ),
            diagnostic_views(r@) == relocation_report(
                old(self)@.sections,
                ld_views(link_sections@),
                old(self)@.symbols,
            ),
    {
        let mut diagnostics: Vec<Diagnostic> = Vec::new();
        let ghost ld = ld_views(link_sections@);
        let ghost sections = self@.sections;
        let ghost symbols = self@.symbols;
        let mut cursor: u16 = 0;
        let mut i: usize = 0;
        assert(ld.take(0) =~= Seq::empty());
        assert(diagnostic_views(diagnostics@) =~= Seq::empty());
        while i < link_sections.len()
            invariant
                i <= link_sections@.len(),
                ld == ld_views(link_sections@),
                sections == old(self)@.sections,
                symbols == old(self)@.symbols,
                sections_wf(sections),
                self@.symbols == symbols,
                self@.sections == relocated(sections, ld.take(i as int), symbols),
                cursor == cursor_after(ld.take(i as int), sections),
                diagnostic_views(diagnostics@) == relocation_report(
                    sections,
                    ld.take(i as int),
                    symbols,
                ),
            decreases link_sections@.len() - i,
        {
            assert(ld.take(i + 1).drop_last() =~= ld.take(i as int));
            assert(ld[i as int] == link_sections@[i as int]@);
            proof {
                lemma_relocated_shape(sections, ld.take(i as int), symbols);
                lemma_section_index_names(self@.sections, sections, ld[i as int].name);
                lemma_section_index_found(sections, ld[i as int].name);
            }
            let load: u16 = match link_sections[i].load_addr() {
                Some(addr) => addr,
                None => cursor,
            };
            let mut size: usize = 0;
            let ghost before = diagnostics@;
            match self.find_section(link_sections[i].name()) {
                Some(k) => {
                    let ghost current = self@.sections;
                    let ghost held = self.sections@;
                    assert(current[k as int] == held[k as int]@);
                    assert(blob_wf(current[k as int].blob));
                    assert(current[k as int].blob.bytes.len() == sections[k as int].blob.bytes.len());
                    assert(current[k as int].blob.relocations
                        == sections[k as int].blob.relocations);
                    let mut found = self.sections[k].blob.resolve_symbols(load, &self.symbols);
                    size = self.sections[k].blob.size();
                    assert(self.sections@ =~= held.update(k as int, self.sections@[k as int]));
                    assert(self@.sections =~= current.update(
                        k as int,
                        resolved_section(current[k as int], load, symbols),
                    ));
                    diagnostics.append(&mut found);
                    assert(diagnostic_views(diagnostics@) =~= diagnostic_views(before)
                        + relocation_diagnostics(
                        sections[k as int].blob.relocations,
                        load,
                        symbols,
                    ));
                },
                None => {
                    assert(diagnostic_views(diagnostics@) =~= diagnostic_views(before)
                        + relocation_diagnostics(empty_blob().relocations, load, symbols));
                },
            }
            cursor = ((load as usize + size) % ADDRESS_SPACE) as u16;
            i += 1;
        }
        assert(ld.take(i as int) =~= ld);
        proof {
            lemma_relocated_shape(sections, ld, symbols);
        }
        diagnostics
    }

    /// Stage five: the image is put together from the bytes of the linked
    /// sections as they stand. The first problem of the layout ends it.
    pub fn image(&self, link_sections: &Vec<LdSection>) -> (r: Result<Vec<u8>, Diagnostic>)
        requires
            self.wf(),
        ensures
            match r {
                Ok(binary) => image_of(ld_views(link_sections@), self@.sections) == Ok::<
                    Seq<u8>,
                    DiagnosticView,
                >(binary@),
                Err(d) => image_of(ld_views(link_sections@), self@.sections) == Err::<
                    Seq<u8>,
                    DiagnosticView,
                >(d@),
            },
    {
        let mut binary: Vec<u8> = Vec::new();
        let ghost ld = ld_views(link_sections@);
        let mut start: usize = 0;
        let mut i: usize = 0;
        assert(ld.take(0) =~= Seq::empty());
        while i < link_sections.len()
            invariant
                i <= link_sections@.len(),
                ld == ld_views(link_sections@),
                self.wf(),
                image_of(ld.take(i as int), self@.sections) == Ok::<Seq<u8>, DiagnosticView>(
                    binary@,
                ),
                i > 0 ==> start == image_start(ld),
                i > 0 ==> start + binary@.len() <= ADDRESS_SPACE,
                i == 0 ==> binary@.len() == 0,
            decreases link_sections@.len() - i,
        {
            assert(ld.take(i + 1).drop_last() =~= ld.take(i as int));
            assert(ld[i as int] == link_sections@[i as int]@);
            assert(ld.take(i + 1)[0] == ld[0]);
            let ghost before = binary@;
            let name = link_sections[i].name();
            let k = match self.find_section(name) {
                Some(k) => k,
                None => {
                    proof {
                        lemma_image_failed(ld, self@.sections, i + 1);
                    }
                    return Err(Diagnostic::UnknownSection(name.to_owned()));
                },
            };
            let size: usize = self.sections[k].blob.size();
            match link_sections[i].load_addr() {
                None => {
                    if i == 0 {
                        proof {
                            lemma_image_failed(ld, self@.sections, i + 1);
                        }
                        return Err(Diagnostic::MissingLoadAddress(name.to_owned()));
                    }
                    if start + binary.len() + size > ADDRESS_SPACE {
                        proof {
                            lemma_image_failed(ld, self@.sections, i + 1);
                        }
                        return Err(Diagnostic::OutOfAddressSpace(name.to_owned()));
                    }
                },
                Some(addr) => {
                    if i == 0 {
                        start = addr as usize;
                    }
                    let cursor: usize = start + binary.len();
                    if (addr as usize) < cursor {
                        proof {
                            lemma_image_failed(ld, self@.sections, i + 1);
                        }
                        return Err(Diagnostic::LayoutConflict(name.to_owned()));
                    }
                    if addr as usize + size > ADDRESS_SPACE {
                        proof {
                            lemma_image_failed(ld, self@.sections, i + 1);
                        }
                        return Err(Diagnostic::OutOfAddressSpace(name.to_owned()));
                    }
                    let mut gap: usize = addr as usize - cursor;
                    while gap > 0
                        invariant
                            gap <= addr - cursor,
                            binary@ == before + zeros(addr - cursor - gap),
                        decreases gap,
                    {
                        binary.push(0u8);
                        gap -= 1;
                        assert(binary@ =~= before + zeros(addr - cursor - gap));
                    }
                },
            }
            let bytes = self.sections[k].blob.bytes();
            let mut j: usize = 0;
            let ghost padded = binary@;
            while j < bytes.len()
                invariant
                    j <= bytes@.len(),
                    binary@ == padded + bytes@.take(j as int),
                decreases bytes@.len() - j,
            {
                binary.push(bytes[j]);
                assert(bytes@.take(j + 1) =~= bytes@.take(j as int).push(bytes@[j as int]));
                assert(binary@ =~= padded + bytes@.take(j + 1));
                j += 1;
            }
            assert(bytes@.take(j as int) =~= bytes@);
            i += 1;
        }
        assert(ld.take(i as int) =~= ld);
        Ok(binary)
    }

    /// Links the sections by a link list into one image.
    ///
    /// All stages run, whatever the earlier ones reported. The image comes
    /// back where no stage reported anything; else all diagnostics do, those
    /// of generation first, then those of relocation, then that of the
    /// layout.
    pub fn link(&mut self, sections_to_link: Vec<LdSection>) -> (r: Result<Vec<u8>, Vec<Diagnostic>>)
        ensures
            final(self).wf(),
            final(self)@.sections == link_outcome(
                old(self)@.sections,
                ld_views(sections_to_link@),
            ).sections,
            final(self)@.symbols == link_outcome(
                old(self)@.sections,
                ld_views(sections_to_link@),
            ).symbols,
            match r {
                Ok(binary) => {
                    let outcome = link_outcome(old(self)@.sections, ld_views(sections_to_link@));
                    &&& outcome.diagnostics.len() == 0
                    &&& outcome.image == Ok::<Seq<u8>, DiagnosticView>(binary@)
                },
                Err(diagnostics) => {
                    let outcome = link_outcome(old(self)@.sections, ld_views(sections_to_link@));
                    &&& outcome.diagnostics.len() > 0
                    &&& diagnostic_views(diagnostics@) == outcome.diagnostics
                },
            },
    {
        self.collect_symbols();
        let mut diagnostics = self.generate_statements();
        let ghost generation = diagnostic_views(diagnostics@);
        let mut relocation = self.resolve_all_symbols(&sections_to_link);
        let ghost report = diagnostic_views(relocation@);
        diagnostics.append(&mut relocation);
        assert(diagnostic_views(diagnostics@) =~= generation + report);
        match self.image(&sections_to_link) {
            Ok(binary) => {
                if diagnostics.len() == 0 {
                    Ok(binary)
                } else {
                    assert(diagnostic_views(diagnostics@) =~= generation + report + Seq::<
                        DiagnosticView,
                    >::empty());
                    Err(diagnostics)
                }
            },
            Err(d) => {
                diagnostics.push(d);
                assert(diagnostic_views(diagnostics@) =~= generation + report + seq![d@]);
                Err(diagnostics)
            },
        }
    }
}

/// Once the layout has a problem, the problem stays whatever follows.
proof fn lemma_image_failed(ld: Seq<LdView>, sections: Seq<SectionView>, k: int)
    requires
        0 <= k <= ld.len(),
        image_of(ld.take(k), sections) is Err,
    ensures
        image_of(ld, sections) == image_of(ld.take(k), sections),
    decreases ld.len(),
{
    if k == ld.len() {
        assert(ld.take(k) =~= ld);
    } else {
        assert(ld.drop_last().take(k) =~= ld.take(k));
        lemma_image_failed(ld.drop_last(), sections, k);
    }
}

impl SectionSink for CodeGenerator {
    open spec fn section_stmts(&self, name: Seq<char>) -> Seq<StmtView> {
        stmts_of(self@.sections, name)
    }

    /// Adds statements to the section `name`, behind those that it holds.
    /// A section that is named for the first time comes behind all others,
    /// with an empty code buffer. Nothing else changes.
    fn push_section(&mut self, name: &str, stmts: Vec<AsmStmt>)
        ensures
            final(self)@.sections == with_section(
                old(self)@.sections,
                name@,
                stmt_views(stmts@),
            ),
            final(self)@.symbols == old(self)@.symbols,
            old(self).wf() ==> final(self).wf(),
    {
        let mut stmts = stmts;
        let ghost added = stmt_views(stmts@);
        let ghost sections = self@.sections;
        proof {
            lemma_section_index_found(sections, name@);
            assert forall|n: Seq<char>| #[trigger]
                stmts_of(with_section(sections, name@, added), n) == if n == name@ {
                    stmts_of(sections, n) + added
                } else {
                    stmts_of(sections, n)
                } by {
                lemma_with_section(sections, name@, added, n);
            }
        }
        match self.find_section(name) {
            Some(i) => {
                let ghost held = self.sections@[i as int].stmts@;
                let ghost all = self.sections@;
                assert(sections[i as int] == all[i as int]@);
                self.sections[i].stmts.append(&mut stmts);
                assert(stmt_views(self.sections@[i as int].stmts@) =~= stmt_views(held) + added);
                assert(self.sections@ =~= all.update(i as int, self.sections@[i as int]));
                assert(self@.sections =~= with_section(sections, name@, added));
            },
            None => {
                self.sections.push(Section { name: name.to_owned(), stmts, blob: CodeBlob::new() });
                assert(self@.sections =~= with_section(sections, name@, added));
            },
        }
    }
}

} // verus!
