//! The instruction encoder: the table of opcodes by mnemonic and
//! addressing-mode slot.

use vstd::prelude::*;
use crate::mnemonic::Mnemonic;

verus! {

/// The slot of an instruction without an operand.
pub const SLOT_IMPLIED: usize = 0;

/// The slot of an instruction with an immediate byte.
pub const SLOT_IMMEDIATE: usize = 1;

/// The slot of a zero-page operand; indexed by X and by Y follow it.
pub const SLOT_ZERO_PAGE: usize = 2;

/// The slot of an absolute operand; indexed by X and by Y follow it.
pub const SLOT_ABSOLUTE: usize = 8;

/// The slot of a branch relative to the program counter.
pub const SLOT_RELATIVE: usize = 13;

/// Picks from the cells of one mnemonic the cell of a slot. Slots that the
/// table does not carry hold no opcode.
pub open spec fn spec_pick(
    slot: int,
    implied: Option<u8>,
    immediate: Option<u8>,
    zero_page: Option<u8>,
    zero_page_x: Option<u8>,
    zero_page_y: Option<u8>,
    absolute: Option<u8>,
    absolute_x: Option<u8>,
    absolute_y: Option<u8>,
    relative: Option<u8>,
) -> Option<u8> {
    if slot == 0 {
        implied
    } else if slot == 1 {
        immediate
    } else if slot == 2 {
        zero_page
    } else if slot == 3 {
        zero_page_x
    } else if slot == 4 {
        zero_page_y
    } else if slot == 8 {
        absolute
    } else if slot == 9 {
        absolute_x
    } else if slot == 10 {
        absolute_y
    } else if slot == 13 {
        relative
    } else {
        None
    }
}

/// The cell of the instruction table for a mnemonic and a slot: the opcode,
/// or `None` where the mnemonic has no such addressing mode.
pub open spec fn table_cell(m: Mnemonic, slot: int) -> Option<u8> {
    match m {
        Mnemonic::BRK => spec_pick(slot, Some(0x00), None, None, None, None, None, None, None, None),
        Mnemonic::ORA => spec_pick(slot, None, Some(0x09), Some(0x05), Some(0x15), None, Some(0x0D), Some(0x1D), Some(0x19), None),
        Mnemonic::NOP => spec_pick(slot, Some(0xEA), None, None, None, None, None, None, None, None),
        Mnemonic::TSB => spec_pick(slot, None, None, Some(0x04), None, None, Some(0x0C), None, None, None),
        Mnemonic::ASL => spec_pick(slot, Some(0x0A), None, Some(0x06), Some(0x16), None, Some(0x0E), Some(0x1E), None, None),
        Mnemonic::RMB0 => spec_pick(slot, None, None, Some(0x07), None, None, None, None, None, None),
        Mnemonic::PHP => spec_pick(slot, Some(0x08), None, None, None, None, None, None, None, None),
        Mnemonic::BBR0 => spec_pick(slot, None, None, None, None, None, None, None, None, None),
        Mnemonic::BPL => spec_pick(slot, None, None, None, None, None, None, None, None, Some(0x10)),
        Mnemonic::TRB => spec_pick(slot, None, None, Some(0x14), None, None, Some(0x1C), None, None, None),
        Mnemonic::RMB1 => spec_pick(slot, None, None, Some(0x17), None, None, None, None, None, None),
        Mnemonic::CLC => spec_pick(slot, Some(0x18), None, None, None, None, None, None, None, None),
        Mnemonic::INC => spec_pick(slot, Some(0x1A), None, Some(0xE6), Some(0xF6), None, Some(0xEE), Some(0xFE), None, None),
        Mnemonic::BBR1 => spec_pick(slot, None, None, None, None, None, None, None, None, None),
        Mnemonic::JSR => spec_pick(slot, None, None, None, None, None, Some(0x20), None, None, None),
        Mnemonic::AND => spec_pick(slot, None, Some(0x29), Some(0x25), Some(0x35), None, Some(0x2D), Some(0x3D), Some(0x39), None),
        Mnemonic::BIT => spec_pick(slot, None, Some(0x89), Some(0x24), Some(0x34), None, Some(0x2C), Some(0x3C), None, None),
        Mnemonic::ROL => spec_pick(slot, Some(0x2A), None, Some(0x26), Some(0x36), None, Some(0x2E), Some(0x3E), None, None),
        Mnemonic::RMB2 => spec_pick(slot, None, None, Some(0x27), None, None, None, None, None, None),
        Mnemonic::PLP => spec_pick(slot, Some(0x28), None, None, None, None, None, None, None, None),
        Mnemonic::BBR2 => spec_pick(slot, None, None, None, None, None, None, None, None, None),
        Mnemonic::BMI => spec_pick(slot, None, None, None, None, None, None, None, None, Some(0x30)),
        Mnemonic::RMB3 => spec_pick(slot, None, None, Some(0x37), None, None, None, None, None, None),
        Mnemonic::SEC => spec_pick(slot, Some(0x38), None, None, None, None, None, None, None, None),
        Mnemonic::DEC => spec_pick(slot, Some(0x3A), None, Some(0xC6), Some(0xD6), None, Some(0xCE), Some(0xDE), None, None),
        Mnemonic::BBR3 => spec_pick(slot, None, None, None, None, None, None, None, None, None),
        Mnemonic::RTI => spec_pick(slot, Some(0x40), None, None, None, None, None, None, None, None),
        Mnemonic::EOR => spec_pick(slot, None, Some(0x49), Some(0x45), Some(0x55), None, Some(0x4D), Some(0x5D), Some(0x59), None),
        Mnemonic::LSR => spec_pick(slot, Some(0x4A), None, Some(0x46), Some(0x56), None, Some(0x4E), Some(0x5E), None, None),
        Mnemonic::RMB4 => spec_pick(slot, None, None, Some(0x47), None, None, None, None, None, None),
        Mnemonic::PHA => spec_pick(slot, Some(0x48), None, None, None, None, None, None, None, None),
        Mnemonic::JMP => spec_pick(slot, None, None, None, None, None, Some(0x4C), None, None, None),
        Mnemonic::BBR4 => spec_pick(slot, None, None, None, None, None, None, None, None, None),
        Mnemonic::BVC => spec_pick(slot, None, None, None, None, None, None, None, None, Some(0x50)),
        Mnemonic::RMB5 => spec_pick(slot, None, None, Some(0x57), None, None, None, None, None, None),
        Mnemonic::CLI => spec_pick(slot, Some(0x58), None, None, None, None, None, None, None, None),
        Mnemonic::PHY => spec_pick(slot, Some(0x5A), None, None, None, None, None, None, None, None),
        Mnemonic::BBR5 => spec_pick(slot, None, None, None, None, None, None, None, None, None),
        Mnemonic::RTS => spec_pick(slot, Some(0x60), None, None, None, None, None, None, None, None),
        Mnemonic::ADC => spec_pick(slot, None, Some(0x69), Some(0x65), Some(0x75), None, Some(0x6D), Some(0x7D), Some(0x79), None),
        Mnemonic::STZ => spec_pick(slot, None, None, Some(0x64), Some(0x74), None, Some(0x9C), Some(0x9E), None, None),
        Mnemonic::ROR => spec_pick(slot, Some(0x6A), None, Some(0x66), Some(0x76), None, Some(0x6E), Some(0x7E), None, None),
        Mnemonic::RMB6 => spec_pick(slot, None, None, Some(0x67), None, None, None, None, None, None),
        Mnemonic::PLA => spec_pick(slot, Some(0x68), None, None, None, None, None, None, None, None),
        Mnemonic::BBR6 => spec_pick(slot, None, None, None, None, None, None, None, None, None),
        Mnemonic::BVS => spec_pick(slot, None, None, None, None, None, None, None, None, Some(0x70)),
        Mnemonic::RMB7 => spec_pick(slot, None, None, Some(0x77), None, None, None, None, None, None),
        Mnemonic::SEI => spec_pick(slot, Some(0x78), None, None, None, None, None, None, None, None),
        Mnemonic::PLY => spec_pick(slot, Some(0x7A), None, None, None, None, None, None, None, None),
        Mnemonic::BBR7 => spec_pick(slot, None, None, None, None, None, None, None, None, None),
        Mnemonic::BRA => spec_pick(slot, None, None, None, None, None, None, None, None, Some(0x80)),
        Mnemonic::STA => spec_pick(slot, None, None, Some(0x85), Some(0x95), None, Some(0x8D), Some(0x9D), Some(0x99), None),
        Mnemonic::STY => spec_pick(slot, None, None, Some(0x84), Some(0x94), None, Some(0x8C), None, None, None),
        Mnemonic::STX => spec_pick(slot, None, None, Some(0x86), None, Some(0x96), Some(0x8E), None, None, None),
        Mnemonic::SMB0 => spec_pick(slot, None, None, Some(0x87), None, None, None, None, None, None),
        Mnemonic::DEY => spec_pick(slot, Some(0x88), None, None, None, None, None, None, None, None),
        Mnemonic::TXA => spec_pick(slot, Some(0x8A), None, None, None, None, None, None, None, None),
        Mnemonic::BBS0 => spec_pick(slot, None, None, None, None, None, None, None, None, None),
        Mnemonic::BCC => spec_pick(slot, None, None, None, None, None, None, None, None, Some(0x90)),
        Mnemonic::SMB1 => spec_pick(slot, None, None, Some(0x97), None, None, None, None, None, None),
        Mnemonic::TYA => spec_pick(slot, Some(0x98), None, None, None, None, None, None, None, None),
        Mnemonic::TXS => spec_pick(slot, Some(0x9A), None, None, None, None, None, None, None, None),
        Mnemonic::BBS1 => spec_pick(slot, None, None, None, None, None, None, None, None, None),
        Mnemonic::LDY => spec_pick(slot, None, Some(0xA0), Some(0xA4), Some(0xB4), None, Some(0xAC), Some(0xBC), None, None),
        Mnemonic::LDA => spec_pick(slot, None, Some(0xA9), Some(0xA5), Some(0xB5), None, Some(0xAD), Some(0xBD), Some(0xB9), None),
        Mnemonic::LDX => spec_pick(slot, None, Some(0xA2), Some(0xA6), None, Some(0xB6), Some(0xAE), None, Some(0xBE), None),
        Mnemonic::SMB2 => spec_pick(slot, None, None, Some(0xA7), None, None, None, None, None, None),
        Mnemonic::TAY => spec_pick(slot, Some(0xA8), None, None, None, None, None, None, None, None),
        Mnemonic::TAX => spec_pick(slot, Some(0xAA), None, None, None, None, None, None, None, None),
        Mnemonic::BBS2 => spec_pick(slot, None, None, None, None, None, None, None, None, None),
        Mnemonic::BCS => spec_pick(slot, None, None, None, None, None, None, None, None, Some(0xB0)),
        Mnemonic::SMB3 => spec_pick(slot, None, None, Some(0xB7), None, None, None, None, None, None),
        Mnemonic::CLV => spec_pick(slot, Some(0xB8), None, None, None, None, None, None, None, None),
        Mnemonic::TSX => spec_pick(slot, Some(0xBA), None, None, None, None, None, None, None, None),
        Mnemonic::BBS3 => spec_pick(slot, None, None, None, None, None, None, None, None, None),
        Mnemonic::CPY => spec_pick(slot, None, Some(0xC0), Some(0xC4), None, None, Some(0xCC), None, None, None),
        Mnemonic::CMP => spec_pick(slot, None, Some(0xC9), Some(0xC5), Some(0xD5), None, Some(0xCD), Some(0xDD), Some(0xD9), None),
        Mnemonic::SMB4 => spec_pick(slot, None, None, Some(0xC7), None, None, None, None, None, None),
        Mnemonic::INY => spec_pick(slot, Some(0xC8), None, None, None, None, None, None, None, None),
        Mnemonic::DEX => spec_pick(slot, Some(0xCA), None, None, None, None, None, None, None, None),
        Mnemonic::WAI => spec_pick(slot, Some(0xCB), None, None, None, None, None, None, None, None),
        Mnemonic::BBS4 => spec_pick(slot, None, None, None, None, None, None, None, None, None),
        Mnemonic::BNE => spec_pick(slot, None, None, None, None, None, None, None, None, Some(0xD0)),
        Mnemonic::SMB5 => spec_pick(slot, None, None, Some(0xD7), None, None, None, None, None, None),
        Mnemonic::CLD => spec_pick(slot, Some(0xD8), None, None, None, None, None, None, None, None),
        Mnemonic::PHX => spec_pick(slot, Some(0xDA), None, None, None, None, None, None, None, None),
        Mnemonic::STP => spec_pick(slot, Some(0xDB), None, None, None, None, None, None, None, None),
        Mnemonic::BBS5 => spec_pick(slot, None, None, None, None, None, None, None, None, None),
        Mnemonic::CPX => spec_pick(slot, None, Some(0xE0), Some(0xE4), None, None, Some(0xEC), None, None, None),
        Mnemonic::SBC => spec_pick(slot, None, Some(0xE9), Some(0xE5), Some(0xF5), None, Some(0xED), Some(0xFD), Some(0xF9), None),
        Mnemonic::SMB6 => spec_pick(slot, None, None, Some(0xE7), None, None, None, None, None, None),
        Mnemonic::INX => spec_pick(slot, Some(0xE8), None, None, None, None, None, None, None, None),
        Mnemonic::BBS6 => spec_pick(slot, None, None, None, None, None, None, None, None, None),
        Mnemonic::BEQ => spec_pick(slot, None, None, None, None, None, None, None, None, Some(0xF0)),
        Mnemonic::SMB7 => spec_pick(slot, None, None, Some(0xF7), None, None, None, None, None, None),
        Mnemonic::SED => spec_pick(slot, Some(0xF8), None, None, None, None, None, None, None, None),
        Mnemonic::PLX => spec_pick(slot, Some(0xFA), None, None, None, None, None, None, None, None),
        Mnemonic::BBS7 => spec_pick(slot, None, None, None, None, None, None, None, None, None),
        Mnemonic::Invalid => spec_pick(slot, None, None, None, None, None, None, None, None, None),
    }
}

/// The opcode for a position of the instruction table and a slot: the cell
/// itself where it holds an opcode, else the cell of the same mnemonic under
/// the relative slot.
pub open spec fn opcode(mnemonic: int, slot: int) -> Option<u8> {
    match Mnemonic::at(mnemonic) {
        Some(m) => match table_cell(m, slot) {
            Some(op) => Some(op),
            None => table_cell(m, SLOT_RELATIVE as int),
        },
        None => None,
    }
}

fn pick(
    slot: usize,
    implied: Option<u8>,
    immediate: Option<u8>,
    zero_page: Option<u8>,
    zero_page_x: Option<u8>,
    zero_page_y: Option<u8>,
    absolute: Option<u8>,
    absolute_x: Option<u8>,
    absolute_y: Option<u8>,
    relative: Option<u8>,
) -> (r: Option<u8>)
    ensures
        r == spec_pick(
            slot as int,
            implied,
            immediate,
            zero_page,
            zero_page_x,
            zero_page_y,
            absolute,
            absolute_x,
            absolute_y,
            relative,
        ),
{
    match slot {
        0 => implied,
        1 => immediate,
        2 => zero_page,
        3 => zero_page_x,
        4 => zero_page_y,
        8 => absolute,
        9 => absolute_x,
        10 => absolute_y,
        13 => relative,
        _ => None,
    }
}

/// Reads one cell of the instruction table.
pub fn lookup_cell(m: Mnemonic, slot: usize) -> (r: Option<u8>)
    ensures
        r == table_cell(m, slot as int),
{
    match m {
        Mnemonic::BRK => pick(slot, Some(0x00), None, None, None, None, None, None, None, None),
        Mnemonic::ORA => pick(slot, None, Some(0x09), Some(0x05), Some(0x15), None, Some(0x0D), Some(0x1D), Some(0x19), None),
        Mnemonic::NOP => pick(slot, Some(0xEA), None, None, None, None, None, None, None, None),
        Mnemonic::TSB => pick(slot, None, None, Some(0x04), None, None, Some(0x0C), None, None, None),
        Mnemonic::ASL => pick(slot, Some(0x0A), None, Some(0x06), Some(0x16), None, Some(0x0E), Some(0x1E), None, None),
        Mnemonic::RMB0 => pick(slot, None, None, Some(0x07), None, None, None, None, None, None),
        Mnemonic::PHP => pick(slot, Some(0x08), None, None, None, None, None, None, None, None),
        Mnemonic::BBR0 => pick(slot, None, None, None, None, None, None, None, None, None),
        Mnemonic::BPL => pick(slot, None, None, None, None, None, None, None, None, Some(0x10)),
        Mnemonic::TRB => pick(slot, None, None, Some(0x14), None, None, Some(0x1C), None, None, None),
        Mnemonic::RMB1 => pick(slot, None, None, Some(0x17), None, None, None, None, None, None),
        Mnemonic::CLC => pick(slot, Some(0x18), None, None, None, None, None, None, None, None),
        Mnemonic::INC => pick(slot, Some(0x1A), None, Some(0xE6), Some(0xF6), None, Some(0xEE), Some(0xFE), None, None),
        Mnemonic::BBR1 => pick(slot, None, None, None, None, None, None, None, None, None),
        Mnemonic::JSR => pick(slot, None, None, None, None, None, Some(0x20), None, None, None),
        Mnemonic::AND => pick(slot, None, Some(0x29), Some(0x25), Some(0x35), None, Some(0x2D), Some(0x3D), Some(0x39), None),
        Mnemonic::BIT => pick(slot, None, Some(0x89), Some(0x24), Some(0x34), None, Some(0x2C), Some(0x3C), None, None),
        Mnemonic::ROL => pick(slot, Some(0x2A), None, Some(0x26), Some(0x36), None, Some(0x2E), Some(0x3E), None, None),
        Mnemonic::RMB2 => pick(slot, None, None, Some(0x27), None, None, None, None, None, None),
        Mnemonic::PLP => pick(slot, Some(0x28), None, None, None, None, None, None, None, None),
        Mnemonic::BBR2 => pick(slot, None, None, None, None, None, None, None, None, None),
        Mnemonic::BMI => pick(slot, None, None, None, None, None, None, None, None, Some(0x30)),
        Mnemonic::RMB3 => pick(slot, None, None, Some(0x37), None, None, None, None, None, None),
        Mnemonic::SEC => pick(slot, Some(0x38), None, None, None, None, None, None, None, None),
        Mnemonic::DEC => pick(slot, Some(0x3A), None, Some(0xC6), Some(0xD6), None, Some(0xCE), Some(0xDE), None, None),
        Mnemonic::BBR3 => pick(slot, None, None, None, None, None, None, None, None, None),
        Mnemonic::RTI => pick(slot, Some(0x40), None, None, None, None, None, None, None, None),
        Mnemonic::EOR => pick(slot, None, Some(0x49), Some(0x45), Some(0x55), None, Some(0x4D), Some(0x5D), Some(0x59), None),
        Mnemonic::LSR => pick(slot, Some(0x4A), None, Some(0x46), Some(0x56), None, Some(0x4E), Some(0x5E), None, None),
        Mnemonic::RMB4 => pick(slot, None, None, Some(0x47), None, None, None, None, None, None),
        Mnemonic::PHA => pick(slot, Some(0x48), None, None, None, None, None, None, None, None),
        Mnemonic::JMP => pick(slot, None, None, None, None, None, Some(0x4C), None, None, None),
        Mnemonic::BBR4 => pick(slot, None, None, None, None, None, None, None, None, None),
        Mnemonic::BVC => pick(slot, None, None, None, None, None, None, None, None, Some(0x50)),
        Mnemonic::RMB5 => pick(slot, None, None, Some(0x57), None, None, None, None, None, None),
        Mnemonic::CLI => pick(slot, Some(0x58), None, None, None, None, None, None, None, None),
        Mnemonic::PHY => pick(slot, Some(0x5A), None, None, None, None, None, None, None, None),
        Mnemonic::BBR5 => pick(slot, None, None, None, None, None, None, None, None, None),
        Mnemonic::RTS => pick(slot, Some(0x60), None, None, None, None, None, None, None, None),
        Mnemonic::ADC => pick(slot, None, Some(0x69), Some(0x65), Some(0x75), None, Some(0x6D), Some(0x7D), Some(0x79), None),
        Mnemonic::STZ => pick(slot, None, None, Some(0x64), Some(0x74), None, Some(0x9C), Some(0x9E), None, None),
        Mnemonic::ROR => pick(slot, Some(0x6A), None, Some(0x66), Some(0x76), None, Some(0x6E), Some(0x7E), None, None),
        Mnemonic::RMB6 => pick(slot, None, None, Some(0x67), None, None, None, None, None, None),
        Mnemonic::PLA => pick(slot, Some(0x68), None, None, None, None, None, None, None, None),
        Mnemonic::BBR6 => pick(slot, None, None, None, None, None, None, None, None, None),
        Mnemonic::BVS => pick(slot, None, None, None, None, None, None, None, None, Some(0x70)),
        Mnemonic::RMB7 => pick(slot, None, None, Some(0x77), None, None, None, None, None, None),
        Mnemonic::SEI => pick(slot, Some(0x78), None, None, None, None, None, None, None, None),
        Mnemonic::PLY => pick(slot, Some(0x7A), None, None, None, None, None, None, None, None),
        Mnemonic::BBR7 => pick(slot, None, None, None, None, None, None, None, None, None),
        Mnemonic::BRA => pick(slot, None, None, None, None, None, None, None, None, Some(0x80)),
        Mnemonic::STA => pick(slot, None, None, Some(0x85), Some(0x95), None, Some(0x8D), Some(0x9D), Some(0x99), None),
        Mnemonic::STY => pick(slot, None, None, Some(0x84), Some(0x94), None, Some(0x8C), None, None, None),
        Mnemonic::STX => pick(slot, None, None, Some(0x86), None, Some(0x96), Some(0x8E), None, None, None),
        Mnemonic::SMB0 => pick(slot, None, None, Some(0x87), None, None, None, None, None, None),
        Mnemonic::DEY => pick(slot, Some(0x88), None, None, None, None, None, None, None, None),
        Mnemonic::TXA => pick(slot, Some(0x8A), None, None, None, None, None, None, None, None),
        Mnemonic::BBS0 => pick(slot, None, None, None, None, None, None, None, None, None),
        Mnemonic::BCC => pick(slot, None, None, None, None, None, None, None, None, Some(0x90)),
        Mnemonic::SMB1 => pick(slot, None, None, Some(0x97), None, None, None, None, None, None),
        Mnemonic::TYA => pick(slot, Some(0x98), None, None, None, None, None, None, None, None),
        Mnemonic::TXS => pick(slot, Some(0x9A), None, None, None, None, None, None, None, None),
        Mnemonic::BBS1 => pick(slot, None, None, None, None, None, None, None, None, None),
        Mnemonic::LDY => pick(slot, None, Some(0xA0), Some(0xA4), Some(0xB4), None, Some(0xAC), Some(0xBC), None, None),
        Mnemonic::LDA => pick(slot, None, Some(0xA9), Some(0xA5), Some(0xB5), None, Some(0xAD), Some(0xBD), Some(0xB9), None),
        Mnemonic::LDX => pick(slot, None, Some(0xA2), Some(0xA6), None, Some(0xB6), Some(0xAE), None, Some(0xBE), None),
        Mnemonic::SMB2 => pick(slot, None, None, Some(0xA7), None, None, None, None, None, None),
        Mnemonic::TAY => pick(slot, Some(0xA8), None, None, None, None, None, None, None, None),
        Mnemonic::TAX => pick(slot, Some(0xAA), None, None, None, None, None, None, None, None),
        Mnemonic::BBS2 => pick(slot, None, None, None, None, None, None, None, None, None),
        Mnemonic::BCS => pick(slot, None, None, None, None, None, None, None, None, Some(0xB0)),
        Mnemonic::SMB3 => pick(slot, None, None, Some(0xB7), None, None, None, None, None, None),
        Mnemonic::CLV => pick(slot, Some(0xB8), None, None, None, None, None, None, None, None),
        Mnemonic::TSX => pick(slot, Some(0xBA), None, None, None, None, None, None, None, None),
        Mnemonic::BBS3 => pick(slot, None, None, None, None, None, None, None, None, None),
        Mnemonic::CPY => pick(slot, None, Some(0xC0), Some(0xC4), None, None, Some(0xCC), None, None, None),
        Mnemonic::CMP => pick(slot, None, Some(0xC9), Some(0xC5), Some(0xD5), None, Some(0xCD), Some(0xDD), Some(0xD9), None),
        Mnemonic::SMB4 => pick(slot, None, None, Some(0xC7), None, None, None, None, None, None),
        Mnemonic::INY => pick(slot, Some(0xC8), None, None, None, None, None, None, None, None),
        Mnemonic::DEX => pick(slot, Some(0xCA), None, None, None, None, None, None, None, None),
        Mnemonic::WAI => pick(slot, Some(0xCB), None, None, None, None, None, None, None, None),
        Mnemonic::BBS4 => pick(slot, None, None, None, None, None, None, None, None, None),
        Mnemonic::BNE => pick(slot, None, None, None, None, None, None, None, None, Some(0xD0)),
        Mnemonic::SMB5 => pick(slot, None, None, Some(0xD7), None, None, None, None, None, None),
        Mnemonic::CLD => pick(slot, Some(0xD8), None, None, None, None, None, None, None, None),
        Mnemonic::PHX => pick(slot, Some(0xDA), None, None, None, None, None, None, None, None),
        Mnemonic::STP => pick(slot, Some(0xDB), None, None, None, None, None, None, None, None),
        Mnemonic::BBS5 => pick(slot, None, None, None, None, None, None, None, None, None),
        Mnemonic::CPX => pick(slot, None, Some(0xE0), Some(0xE4), None, None, Some(0xEC), None, None, None),
        Mnemonic::SBC => pick(slot, None, Some(0xE9), Some(0xE5), Some(0xF5), None, Some(0xED), Some(0xFD), Some(0xF9), None),
        Mnemonic::SMB6 => pick(slot, None, None, Some(0xE7), None, None, None, None, None, None),
        Mnemonic::INX => pick(slot, Some(0xE8), None, None, None, None, None, None, None, None),
        Mnemonic::BBS6 => pick(slot, None, None, None, None, None, None, None, None, None),
        Mnemonic::BEQ => pick(slot, None, None, None, None, None, None, None, None, Some(0xF0)),
        Mnemonic::SMB7 => pick(slot, None, None, Some(0xF7), None, None, None, None, None, None),
        Mnemonic::SED => pick(slot, Some(0xF8), None, None, None, None, None, None, None, None),
        Mnemonic::PLX => pick(slot, Some(0xFA), None, None, None, None, None, None, None, None),
        Mnemonic::BBS7 => pick(slot, None, None, None, None, None, None, None, None, None),
        Mnemonic::Invalid => pick(slot, None, None, None, None, None, None, None, None, None),
    }
}

/// Encodes a mnemonic, given by its position in the instruction table, under
/// an addressing-mode slot. Where the mnemonic has no opcode under the slot,
/// the relative slot is tried once in its place.
pub fn get_opcode(mnemonic: usize, slot: usize) -> (r: Option<u8>)
    ensures
        r == opcode(mnemonic as int, slot as int),
{
    match Mnemonic::from_index(mnemonic) {
        Some(m) => match lookup_cell(m, slot) {
            Some(op) => Some(op),
            None => lookup_cell(m, SLOT_RELATIVE),
        },
        None => None,
    }
}

} // verus!
