//! Where the parser hands its sections.

use vstd::prelude::*;
use crate::model::{stmt_views, AsmStmt, StmtView};

verus! {

/// The statements of one section, as they are handed over.
pub struct SectionPush {
    pub name: Seq<char>,
    pub stmts: Seq<StmtView>,
}

/// The statements of one section, as the parser hands them over.
pub struct ParsedSection {
    pub name: String,
    pub stmts: Vec<AsmStmt>,
}

impl View for ParsedSection {
    type V = SectionPush;

    open spec fn view(&self) -> SectionPush {
        SectionPush { name: self.name@, stmts: stmt_views(self.stmts@) }
    }
}

/// The views of what was handed over.
pub open spec fn push_views(sections: Seq<ParsedSection>) -> Seq<SectionPush> {
    sections.map_values(|s: ParsedSection| s@)
}

/// The statements handed over under a name, in their order.
pub open spec fn pushed(pushes: Seq<SectionPush>, name: Seq<char>) -> Seq<StmtView>
    decreases pushes.len(),
{
    if pushes.len() == 0 {
        Seq::empty()
    } else if pushes.last().name == name {
        pushed(pushes.drop_last(), name) + pushes.last().stmts
    } else {
        pushed(pushes.drop_last(), name)
    }
}

/// A receiver of sections. The parser hands it the statements of a section
/// whenever the source leaves the section, so one name may come more than
/// once. Sections accumulate: statements handed over under a name come
/// behind those that the receiver holds under that name.
pub trait SectionSink {
    /// The statements held under a name, in the order in which they came;
    /// none under a name that never came. Of a receiver that gives no
    /// account of what it holds, only this is taken: that what it holds
    /// depends on the receiver and the name.
    open spec fn section_stmts(&self, name: Seq<char>) -> Seq<StmtView> {
        arbitrary::<spec_fn(&Self, Seq<char>) -> Seq<StmtView>>()(self, name)
    }

    /// Takes statements of the section `name`.
    fn push_section(&mut self, name: &str, stmts: Vec<AsmStmt>)
        ensures
            forall|n: Seq<char>| #[trigger]
                final(self).section_stmts(n) == if n == name@ {
                    old(self).section_stmts(n) + stmt_views(stmts@)
                } else {
                    old(self).section_stmts(n)
                },
    ;
}

} // verus!
