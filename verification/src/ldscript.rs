//! The link list: which sections make up the image, in which order, and
//! where they are loaded.

use vstd::prelude::*;
use vstd::string::*;
use vstd::utf8::*;
use crate::scan::{
    lemma_continuation_boundary, lemma_run_boundary, lemma_run_end, lemma_run_forward,
    number_value, parse_number, saturated,
    run_end, scan_run, ByteClass,
};
use crate::text::{lemma_boundary_after_ascii, substring};

verus! {

/// One entry of the link list: a section and, where it is fixed, the
/// address at which the section is loaded.
#[derive(Debug, PartialEq)]
pub struct LdSection {
    name: String,
    load_addr: Option<u16>,
}

/// An entry of the link list with its name as a sequence of characters.
pub struct LdView {
    pub name: Seq<char>,
    pub load_addr: Option<u16>,
}

impl View for LdSection {
    type V = LdView;

    closed spec fn view(&self) -> LdView {
        LdView { name: self.name@, load_addr: self.load_addr }
    }
}

/// The views of a link list.
pub open spec fn ld_views(sections: Seq<LdSection>) -> Seq<LdView> {
    sections.map_values(|s: LdSection| s@)
}

impl LdSection {
    /// An entry for the section `name`.
    pub fn new(name: &str, load_addr: Option<u16>) -> (r: LdSection)
        ensures
            r@ == (LdView { name: name@, load_addr }),
    {
        LdSection { name: name.to_owned(), load_addr }
    }

    /// The name of the section.
    pub fn name(&self) -> (r: &str)
        ensures
            r@ == self@.name,
    {
        self.name.as_str()
    }

    /// The fixed load address of the section, if it has one.
    pub fn load_addr(&self) -> (r: Option<u16>)
        ensures
            r == self@.load_addr,
    {
        self.load_addr
    }
}

/// Whether a section token begins at `pos`: a dot and at least one letter
/// or underscore.
pub open spec fn section_at(bytes: Seq<u8>, pos: int) -> bool {
    &&& 0 <= pos < bytes.len()
    &&& bytes[pos] == 0x2E
    &&& run_end(bytes, pos + 1, ByteClass::Letter) > pos + 1
}

/// Whether an address token begins at `pos`: `@0x` and at least one
/// hexadecimal digit.
pub open spec fn address_at(bytes: Seq<u8>, pos: int) -> bool {
    &&& 0 <= pos
    &&& pos + 3 < bytes.len()
    &&& bytes[pos] == 0x40
    &&& bytes[pos + 1] == 0x30
    &&& bytes[pos + 2] == 0x78
    &&& run_end(bytes, pos + 3, ByteClass::HexDigit) > pos + 3
}

/// The end of the token that begins at `pos`. What is neither a section
/// nor an address is a token of one character.
pub open spec fn token_end(bytes: Seq<u8>, pos: int) -> int {
    if section_at(bytes, pos) {
        run_end(bytes, pos + 1, ByteClass::Letter)
    } else if address_at(bytes, pos) {
        run_end(bytes, pos + 3, ByteClass::HexDigit)
    } else {
        run_end(bytes, pos + 1, ByteClass::Continuation)
    }
}

/// The text between two positions of the bytes of a text.
pub open spec fn text_between(bytes: Seq<u8>, start: int, end: int) -> Seq<char> {
    decode_utf8(bytes.subrange(start, end))
}

/// The complaint about a token that is out of place.
pub open spec fn unexpected_token(token: Seq<char>) -> Seq<char> {
    "unexpected token: '"@ + token + "'"@
}

/// The complaint about an address beyond 16 bits.
pub open spec fn address_too_large(token: Seq<char>) -> Seq<char> {
    "address too large: '"@ + token + "'"@
}

/// A parse with one more entry in front.
pub open spec fn entry_then(entry: LdView, rest: Result<Seq<LdView>, Seq<char>>) -> Result<
    Seq<LdView>,
    Seq<char>,
> {
    match rest {
        Ok(entries) => Ok(seq![entry] + entries),
        Err(message) => Err(message),
    }
}

/// The link list that a script spells from `pos` on, or the complaint about
/// the first token that is out of place.
///
/// A script is a list of sections, each a dot and a name, and each followed
/// or not by its load address, `@0x` and hexadecimal digits. Blanks and
/// line feeds separate the tokens.
pub open spec fn parsed_from(bytes: Seq<u8>, pos: int) -> Result<Seq<LdView>, Seq<char>>
    decreases bytes.len() - pos,
{
    let start = run_end(bytes, pos, ByteClass::Space);
    if pos < 0 || start >= bytes.len() {
        Ok(Seq::empty())
    } else if section_at(bytes, start) {
        let name_end = run_end(bytes, start + 1, ByteClass::Letter);
        let name = text_between(bytes, start + 1, name_end);
        let next = run_end(bytes, name_end, ByteClass::Space);
        if address_at(bytes, next) {
            let addr_end = run_end(bytes, next + 3, ByteClass::HexDigit);
            let addr = number_value(bytes.subrange(next + 3, addr_end), 16);
            if addr > 0xFFFF {
                Err(address_too_large(text_between(bytes, next, addr_end)))
            } else {
                proof {
                    lemma_run_forward(bytes, pos, ByteClass::Space);
                    lemma_run_forward(bytes, name_end, ByteClass::Space);
                    lemma_run_end(bytes, next + 3, ByteClass::HexDigit);
                }
                entry_then(
                    LdView { name, load_addr: Some(addr as u16) },
                    parsed_from(bytes, addr_end),
                )
            }
        } else {
            proof {
                lemma_run_forward(bytes, pos, ByteClass::Space);
                lemma_run_end(bytes, start + 1, ByteClass::Letter);
            }
            entry_then(LdView { name, load_addr: None }, parsed_from(bytes, name_end))
        }
    } else {
        Err(unexpected_token(text_between(bytes, start, token_end(bytes, start))))
    }
}

/// The link list that a script spells.
pub open spec fn parsed(source: Seq<char>) -> Result<Seq<LdView>, Seq<char>> {
    parsed_from(encode_utf8(source), 0)
}

fn quoted(prefix: &str, token: &str) -> (r: String)
    ensures
        r@ == prefix@ + token@ + "'"@,
{
    let mut text = String::from_str(prefix);
    text.append(token);
    text.append("'");
    text
}

/// Reads the address token at `pos`, if there is one: its end and its
/// value, cut off at 64 bits.
pub fn check_for_addr(bytes: &[u8], pos: usize) -> (r: Option<(usize, u64)>)
    requires
        pos <= bytes@.len(),
    ensures
        r is Some == address_at(bytes@, pos as int),
        r matches Some((end, value)) ==> {
            &&& end == run_end(bytes@, pos + 3, ByteClass::HexDigit)
            &&& pos + 3 < end <= bytes@.len()
            &&& value == saturated(number_value(bytes@.subrange(pos + 3, end as int), 16))
        },
{
    if bytes.len() - pos > 3 && bytes[pos] == 0x40 && bytes[pos + 1] == 0x30 && bytes[pos + 2]
        == 0x78 {
        let end = scan_run(bytes, pos + 3, ByteClass::HexDigit);
        if end > pos + 3 {
            return Some((end, parse_number(bytes, pos + 3, end, 16)));
        }
    }
    None
}

/// Reads a link script.
pub fn parse(source: &str) -> (r: Result<Vec<LdSection>, String>)
    ensures
        match r {
            Ok(sections) => parsed(source@) == Ok::<Seq<LdView>, Seq<char>>(ld_views(sections@)),
            Err(message) => parsed(source@) == Err::<Seq<LdView>, Seq<char>>(message@),
        },
{
    let bytes = source.as_bytes();
    let mut sections: Vec<LdSection> = Vec::new();
    let mut pos: usize = 0;
    proof {
        encode_utf8_valid_utf8(source@);
        is_char_boundary_start_end_of_seq(bytes@);
        assert(ld_views(sections@) =~= Seq::empty());
    }
    loop
        invariant
            bytes@ == encode_utf8(source@),
            bytes@ == source.spec_bytes(),
            valid_utf8(bytes@),
            pos <= bytes@.len(),
            is_char_boundary(bytes@, pos as int),
            parsed(source@) == match parsed_from(bytes@, pos as int) {
                Ok(rest) => Ok::<Seq<LdView>, Seq<char>>(ld_views(sections@) + rest),
                Err(message) => Err::<Seq<LdView>, Seq<char>>(message),
            },
        decreases bytes@.len() - pos,
    {
        let start = scan_run(bytes, pos, ByteClass::Space);
        proof {
            lemma_run_boundary(bytes@, pos as int, ByteClass::Space);
        }
        if start >= bytes.len() {
            assert(ld_views(sections@) + Seq::<LdView>::empty() =~= ld_views(sections@));
            return Ok(sections);
        }
        let name_end = if bytes[start] == 0x2E {
            scan_run(bytes, start + 1, ByteClass::Letter)
        } else {
            start
        };
        if name_end > start + 1 {
            proof {
                lemma_boundary_after_ascii(bytes@, start as int);
                lemma_run_boundary(bytes@, start + 1, ByteClass::Letter);
                lemma_run_boundary(bytes@, name_end as int, ByteClass::Space);
            }
            let name = substring(source, start + 1, name_end);
            let next = scan_run(bytes, name_end, ByteClass::Space);
            let ghost held = ld_views(sections@);
            match check_for_addr(bytes, next) {
                Some((addr_end, addr)) => {
                    proof {
                        lemma_boundary_after_ascii(bytes@, next as int);
                        lemma_boundary_after_ascii(bytes@, next + 2);
                        lemma_run_boundary(bytes@, next + 3, ByteClass::HexDigit);
                    }
                    if addr > 0xFFFF {
                        return Err(
                            quoted("address too large: '", substring(source, next, addr_end)),
                        );
                    }
                    let section = LdSection::new(name, Some(addr as u16));
                    sections.push(section);
                    pos = addr_end;
                    proof {
                        let rest = parsed_from(bytes@, pos as int);
                        assert(ld_views(sections@) =~= held.push(section@));
                        if let Ok(entries) = rest {
                            assert(held + (seq![section@] + entries) =~= ld_views(sections@)
                                + entries);
                        }
                    }
                },
                None => {
                    let section = LdSection::new(name, None);
                    sections.push(section);
                    pos = name_end;
                    proof {
                        let rest = parsed_from(bytes@, pos as int);
                        assert(ld_views(sections@) =~= held.push(section@));
                        if let Ok(entries) = rest {
                            assert(held + (seq![section@] + entries) =~= ld_views(sections@)
                                + entries);
                        }
                    }
                },
            }
        } else {
            let end = match check_for_addr(bytes, start) {
                Some((addr_end, _)) => {
                    proof {
                        lemma_boundary_after_ascii(bytes@, start + 2);
                        lemma_run_boundary(bytes@, start + 3, ByteClass::HexDigit);
                    }
                    addr_end
                },
                None => {
                    proof {
                        lemma_continuation_boundary(bytes@, start + 1);
                    }
                    scan_run(bytes, start + 1, ByteClass::Continuation)
                },
            };
            return Err(quoted("unexpected token: '", substring(source, start, end)));
        }
    }
}

} // verus!
