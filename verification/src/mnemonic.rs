//! The mnemonics of the 65C02 instruction set.

use vstd::prelude::*;
use crate::text::str_eq;

verus! {

/// A mnemonic of the instruction set, in the order of the first opcode that
/// carries it. `Invalid` stands for a name that is no mnemonic.
#[derive(Debug, PartialEq, Eq, Copy, Clone, Structural)]
pub enum Mnemonic {
    BRK,
    ORA,
    NOP,
    TSB,
    ASL,
    RMB0,
    PHP,
    BBR0,
    BPL,
    TRB,
    RMB1,
    CLC,
    INC,
    BBR1,
    JSR,
    AND,
    BIT,
    ROL,
    RMB2,
    PLP,
    BBR2,
    BMI,
    RMB3,
    SEC,
    DEC,
    BBR3,
    RTI,
    EOR,
    LSR,
    RMB4,
    PHA,
    JMP,
    BBR4,
    BVC,
    RMB5,
    CLI,
    PHY,
    BBR5,
    RTS,
    ADC,
    STZ,
    ROR,
    RMB6,
    PLA,
    BBR6,
    BVS,
    RMB7,
    SEI,
    PLY,
    BBR7,
    BRA,
    STA,
    STY,
    STX,
    SMB0,
    DEY,
    TXA,
    BBS0,
    BCC,
    SMB1,
    TYA,
    TXS,
    BBS1,
    LDY,
    LDA,
    LDX,
    SMB2,
    TAY,
    TAX,
    BBS2,
    BCS,
    SMB3,
    CLV,
    TSX,
    BBS3,
    CPY,
    CMP,
    SMB4,
    INY,
    DEX,
    WAI,
    BBS4,
    BNE,
    SMB5,
    CLD,
    PHX,
    STP,
    BBS5,
    CPX,
    SBC,
    SMB6,
    INX,
    BBS6,
    BEQ,
    SMB7,
    SED,
    PLX,
    BBS7,
    Invalid,
}

/// The number of mnemonics, `Invalid` included.
pub const MNEMONIC_COUNT: usize = 99;

impl Mnemonic {
    /// The position of the mnemonic in the instruction table.
    pub open spec fn spec_index(self) -> int {
        match self {
            Mnemonic::BRK => 0,
            Mnemonic::ORA => 1,
            Mnemonic::NOP => 2,
            Mnemonic::TSB => 3,
            Mnemonic::ASL => 4,
            Mnemonic::RMB0 => 5,
            Mnemonic::PHP => 6,
            Mnemonic::BBR0 => 7,
            Mnemonic::BPL => 8,
            Mnemonic::TRB => 9,
            Mnemonic::RMB1 => 10,
            Mnemonic::CLC => 11,
            Mnemonic::INC => 12,
            Mnemonic::BBR1 => 13,
            Mnemonic::JSR => 14,
            Mnemonic::AND => 15,
            Mnemonic::BIT => 16,
            Mnemonic::ROL => 17,
            Mnemonic::RMB2 => 18,
            Mnemonic::PLP => 19,
            Mnemonic::BBR2 => 20,
            Mnemonic::BMI => 21,
            Mnemonic::RMB3 => 22,
            Mnemonic::SEC => 23,
            Mnemonic::DEC => 24,
            Mnemonic::BBR3 => 25,
            Mnemonic::RTI => 26,
            Mnemonic::EOR => 27,
            Mnemonic::LSR => 28,
            Mnemonic::RMB4 => 29,
            Mnemonic::PHA => 30,
            Mnemonic::JMP => 31,
            Mnemonic::BBR4 => 32,
            Mnemonic::BVC => 33,
            Mnemonic::RMB5 => 34,
            Mnemonic::CLI => 35,
            Mnemonic::PHY => 36,
            Mnemonic::BBR5 => 37,
            Mnemonic::RTS => 38,
            Mnemonic::ADC => 39,
            Mnemonic::STZ => 40,
            Mnemonic::ROR => 41,
            Mnemonic::RMB6 => 42,
            Mnemonic::PLA => 43,
            Mnemonic::BBR6 => 44,
            Mnemonic::BVS => 45,
            Mnemonic::RMB7 => 46,
            Mnemonic::SEI => 47,
            Mnemonic::PLY => 48,
            Mnemonic::BBR7 => 49,
            Mnemonic::BRA => 50,
            Mnemonic::STA => 51,
            Mnemonic::STY => 52,
            Mnemonic::STX => 53,
            Mnemonic::SMB0 => 54,
            Mnemonic::DEY => 55,
            Mnemonic::TXA => 56,
            Mnemonic::BBS0 => 57,
            Mnemonic::BCC => 58,
            Mnemonic::SMB1 => 59,
            Mnemonic::TYA => 60,
            Mnemonic::TXS => 61,
            Mnemonic::BBS1 => 62,
            Mnemonic::LDY => 63,
            Mnemonic::LDA => 64,
            Mnemonic::LDX => 65,
            Mnemonic::SMB2 => 66,
            Mnemonic::TAY => 67,
            Mnemonic::TAX => 68,
            Mnemonic::BBS2 => 69,
            Mnemonic::BCS => 70,
            Mnemonic::SMB3 => 71,
            Mnemonic::CLV => 72,
            Mnemonic::TSX => 73,
            Mnemonic::BBS3 => 74,
            Mnemonic::CPY => 75,
            Mnemonic::CMP => 76,
            Mnemonic::SMB4 => 77,
            Mnemonic::INY => 78,
            Mnemonic::DEX => 79,
            Mnemonic::WAI => 80,
            Mnemonic::BBS4 => 81,
            Mnemonic::BNE => 82,
            Mnemonic::SMB5 => 83,
            Mnemonic::CLD => 84,
            Mnemonic::PHX => 85,
            Mnemonic::STP => 86,
            Mnemonic::BBS5 => 87,
            Mnemonic::CPX => 88,
            Mnemonic::SBC => 89,
            Mnemonic::SMB6 => 90,
            Mnemonic::INX => 91,
            Mnemonic::BBS6 => 92,
            Mnemonic::BEQ => 93,
            Mnemonic::SMB7 => 94,
            Mnemonic::SED => 95,
            Mnemonic::PLX => 96,
            Mnemonic::BBS7 => 97,
            Mnemonic::Invalid => 98,
        }
    }

    /// The mnemonic at a position of the instruction table.
    pub open spec fn at(index: int) -> Option<Mnemonic> {
        if index == 0 {
            Some(Mnemonic::BRK)
        } else if index == 1 {
            Some(Mnemonic::ORA)
        } else if index == 2 {
            Some(Mnemonic::NOP)
        } else if index == 3 {
            Some(Mnemonic::TSB)
        } else if index == 4 {
            Some(Mnemonic::ASL)
        } else if index == 5 {
            Some(Mnemonic::RMB0)
        } else if index == 6 {
            Some(Mnemonic::PHP)
        } else if index == 7 {
            Some(Mnemonic::BBR0)
        } else if index == 8 {
            Some(Mnemonic::BPL)
        } else if index == 9 {
            Some(Mnemonic::TRB)
        } else if index == 10 {
            Some(Mnemonic::RMB1)
        } else if index == 11 {
            Some(Mnemonic::CLC)
        } else if index == 12 {
            Some(Mnemonic::INC)
        } else if index == 13 {
            Some(Mnemonic::BBR1)
        } else if index == 14 {
            Some(Mnemonic::JSR)
        } else if index == 15 {
            Some(Mnemonic::AND)
        } else if index == 16 {
            Some(Mnemonic::BIT)
        } else if index == 17 {
            Some(Mnemonic::ROL)
        } else if index == 18 {
            Some(Mnemonic::RMB2)
        } else if index == 19 {
            Some(Mnemonic::PLP)
        } else if index == 20 {
            Some(Mnemonic::BBR2)
        } else if index == 21 {
            Some(Mnemonic::BMI)
        } else if index == 22 {
            Some(Mnemonic::RMB3)
        } else if index == 23 {
            Some(Mnemonic::SEC)
        } else if index == 24 {
            Some(Mnemonic::DEC)
        } else if index == 25 {
            Some(Mnemonic::BBR3)
        } else if index == 26 {
            Some(Mnemonic::RTI)
        } else if index == 27 {
            Some(Mnemonic::EOR)
        } else if index == 28 {
            Some(Mnemonic::LSR)
        } else if index == 29 {
            Some(Mnemonic::RMB4)
        } else if index == 30 {
            Some(Mnemonic::PHA)
        } else if index == 31 {
            Some(Mnemonic::JMP)
        } else if index == 32 {
            Some(Mnemonic::BBR4)
        } else if index == 33 {
            Some(Mnemonic::BVC)
        } else if index == 34 {
            Some(Mnemonic::RMB5)
        } else if index == 35 {
            Some(Mnemonic::CLI)
        } else if index == 36 {
            Some(Mnemonic::PHY)
        } else if index == 37 {
            Some(Mnemonic::BBR5)
        } else if index == 38 {
            Some(Mnemonic::RTS)
        } else if index == 39 {
            Some(Mnemonic::ADC)
        } else if index == 40 {
            Some(Mnemonic::STZ)
        } else if index == 41 {
            Some(Mnemonic::ROR)
        } else if index == 42 {
            Some(Mnemonic::RMB6)
        } else if index == 43 {
            Some(Mnemonic::PLA)
        } else if index == 44 {
            Some(Mnemonic::BBR6)
        } else if index == 45 {
            Some(Mnemonic::BVS)
        } else if index == 46 {
            Some(Mnemonic::RMB7)
        } else if index == 47 {
            Some(Mnemonic::SEI)
        } else if index == 48 {
            Some(Mnemonic::PLY)
        } else if index == 49 {
            Some(Mnemonic::BBR7)
        } else if index == 50 {
            Some(Mnemonic::BRA)
        } else if index == 51 {
            Some(Mnemonic::STA)
        } else if index == 52 {
            Some(Mnemonic::STY)
        } else if index == 53 {
            Some(Mnemonic::STX)
        } else if index == 54 {
            Some(Mnemonic::SMB0)
        } else if index == 55 {
            Some(Mnemonic::DEY)
        } else if index == 56 {
            Some(Mnemonic::TXA)
        } else if index == 57 {
            Some(Mnemonic::BBS0)
        } else if index == 58 {
            Some(Mnemonic::BCC)
        } else if index == 59 {
            Some(Mnemonic::SMB1)
        } else if index == 60 {
            Some(Mnemonic::TYA)
        } else if index == 61 {
            Some(Mnemonic::TXS)
        } else if index == 62 {
            Some(Mnemonic::BBS1)
        } else if index == 63 {
            Some(Mnemonic::LDY)
        } else if index == 64 {
            Some(Mnemonic::LDA)
        } else if index == 65 {
            Some(Mnemonic::LDX)
        } else if index == 66 {
            Some(Mnemonic::SMB2)
        } else if index == 67 {
            Some(Mnemonic::TAY)
        } else if index == 68 {
            Some(Mnemonic::TAX)
        } else if index == 69 {
            Some(Mnemonic::BBS2)
        } else if index == 70 {
            Some(Mnemonic::BCS)
        } else if index == 71 {
            Some(Mnemonic::SMB3)
        } else if index == 72 {
            Some(Mnemonic::CLV)
        } else if index == 73 {
            Some(Mnemonic::TSX)
        } else if index == 74 {
            Some(Mnemonic::BBS3)
        } else if index == 75 {
            Some(Mnemonic::CPY)
        } else if index == 76 {
            Some(Mnemonic::CMP)
        } else if index == 77 {
            Some(Mnemonic::SMB4)
        } else if index == 78 {
            Some(Mnemonic::INY)
        } else if index == 79 {
            Some(Mnemonic::DEX)
        } else if index == 80 {
            Some(Mnemonic::WAI)
        } else if index == 81 {
            Some(Mnemonic::BBS4)
        } else if index == 82 {
            Some(Mnemonic::BNE)
        } else if index == 83 {
            Some(Mnemonic::SMB5)
        } else if index == 84 {
            Some(Mnemonic::CLD)
        } else if index == 85 {
            Some(Mnemonic::PHX)
        } else if index == 86 {
            Some(Mnemonic::STP)
        } else if index == 87 {
            Some(Mnemonic::BBS5)
        } else if index == 88 {
            Some(Mnemonic::CPX)
        } else if index == 89 {
            Some(Mnemonic::SBC)
        } else if index == 90 {
            Some(Mnemonic::SMB6)
        } else if index == 91 {
            Some(Mnemonic::INX)
        } else if index == 92 {
            Some(Mnemonic::BBS6)
        } else if index == 93 {
            Some(Mnemonic::BEQ)
        } else if index == 94 {
            Some(Mnemonic::SMB7)
        } else if index == 95 {
            Some(Mnemonic::SED)
        } else if index == 96 {
            Some(Mnemonic::PLX)
        } else if index == 97 {
            Some(Mnemonic::BBS7)
        } else if index == 98 {
            Some(Mnemonic::Invalid)
        } else {
            None
        }
    }

    /// The name of the mnemonic as it is written in upper case.
    pub open spec fn spec_name(self) -> Seq<char> {
        match self {
            Mnemonic::BRK => "BRK"@,
            Mnemonic::ORA => "ORA"@,
            Mnemonic::NOP => "NOP"@,
            Mnemonic::TSB => "TSB"@,
            Mnemonic::ASL => "ASL"@,
            Mnemonic::RMB0 => "RMB0"@,
            Mnemonic::PHP => "PHP"@,
            Mnemonic::BBR0 => "BBR0"@,
            Mnemonic::BPL => "BPL"@,
            Mnemonic::TRB => "TRB"@,
            Mnemonic::RMB1 => "RMB1"@,
            Mnemonic::CLC => "CLC"@,
            Mnemonic::INC => "INC"@,
            Mnemonic::BBR1 => "BBR1"@,
            Mnemonic::JSR => "JSR"@,
            Mnemonic::AND => "AND"@,
            Mnemonic::BIT => "BIT"@,
            Mnemonic::ROL => "ROL"@,
            Mnemonic::RMB2 => "RMB2"@,
            Mnemonic::PLP => "PLP"@,
            Mnemonic::BBR2 => "BBR2"@,
            Mnemonic::BMI => "BMI"@,
            Mnemonic::RMB3 => "RMB3"@,
            Mnemonic::SEC => "SEC"@,
            Mnemonic::DEC => "DEC"@,
            Mnemonic::BBR3 => "BBR3"@,
            Mnemonic::RTI => "RTI"@,
            Mnemonic::EOR => "EOR"@,
            Mnemonic::LSR => "LSR"@,
            Mnemonic::RMB4 => "RMB4"@,
            Mnemonic::PHA => "PHA"@,
            Mnemonic::JMP => "JMP"@,
            Mnemonic::BBR4 => "BBR4"@,
            Mnemonic::BVC => "BVC"@,
            Mnemonic::RMB5 => "RMB5"@,
            Mnemonic::CLI => "CLI"@,
            Mnemonic::PHY => "PHY"@,
            Mnemonic::BBR5 => "BBR5"@,
            Mnemonic::RTS => "RTS"@,
            Mnemonic::ADC => "ADC"@,
            Mnemonic::STZ => "STZ"@,
            Mnemonic::ROR => "ROR"@,
            Mnemonic::RMB6 => "RMB6"@,
            Mnemonic::PLA => "PLA"@,
            Mnemonic::BBR6 => "BBR6"@,
            Mnemonic::BVS => "BVS"@,
            Mnemonic::RMB7 => "RMB7"@,
            Mnemonic::SEI => "SEI"@,
            Mnemonic::PLY => "PLY"@,
            Mnemonic::BBR7 => "BBR7"@,
            Mnemonic::BRA => "BRA"@,
            Mnemonic::STA => "STA"@,
            Mnemonic::STY => "STY"@,
            Mnemonic::STX => "STX"@,
            Mnemonic::SMB0 => "SMB0"@,
            Mnemonic::DEY => "DEY"@,
            Mnemonic::TXA => "TXA"@,
            Mnemonic::BBS0 => "BBS0"@,
            Mnemonic::BCC => "BCC"@,
            Mnemonic::SMB1 => "SMB1"@,
            Mnemonic::TYA => "TYA"@,
            Mnemonic::TXS => "TXS"@,
            Mnemonic::BBS1 => "BBS1"@,
            Mnemonic::LDY => "LDY"@,
            Mnemonic::LDA => "LDA"@,
            Mnemonic::LDX => "LDX"@,
            Mnemonic::SMB2 => "SMB2"@,
            Mnemonic::TAY => "TAY"@,
            Mnemonic::TAX => "TAX"@,
            Mnemonic::BBS2 => "BBS2"@,
            Mnemonic::BCS => "BCS"@,
            Mnemonic::SMB3 => "SMB3"@,
            Mnemonic::CLV => "CLV"@,
            Mnemonic::TSX => "TSX"@,
            Mnemonic::BBS3 => "BBS3"@,
            Mnemonic::CPY => "CPY"@,
            Mnemonic::CMP => "CMP"@,
            Mnemonic::SMB4 => "SMB4"@,
            Mnemonic::INY => "INY"@,
            Mnemonic::DEX => "DEX"@,
            Mnemonic::WAI => "WAI"@,
            Mnemonic::BBS4 => "BBS4"@,
            Mnemonic::BNE => "BNE"@,
            Mnemonic::SMB5 => "SMB5"@,
            Mnemonic::CLD => "CLD"@,
            Mnemonic::PHX => "PHX"@,
            Mnemonic::STP => "STP"@,
            Mnemonic::BBS5 => "BBS5"@,
            Mnemonic::CPX => "CPX"@,
            Mnemonic::SBC => "SBC"@,
            Mnemonic::SMB6 => "SMB6"@,
            Mnemonic::INX => "INX"@,
            Mnemonic::BBS6 => "BBS6"@,
            Mnemonic::BEQ => "BEQ"@,
            Mnemonic::SMB7 => "SMB7"@,
            Mnemonic::SED => "SED"@,
            Mnemonic::PLX => "PLX"@,
            Mnemonic::BBS7 => "BBS7"@,
            Mnemonic::Invalid => "Invalid"@,
        }
    }

    /// The mnemonic that carries the name `name`, if there is one.
    pub open spec fn named(name: Seq<char>) -> Option<Mnemonic> {
        if exists|m: Mnemonic| m.spec_name() == name {
            Some(choose|m: Mnemonic| m.spec_name() == name)
        } else {
            None
        }
    }

    /// The position of the mnemonic in the instruction table.
    pub fn index(self) -> (r: usize)
        ensures
            r == self.spec_index(),
            r < MNEMONIC_COUNT,
            Mnemonic::at(r as int) == Some(self),
    {
        match self {
            Mnemonic::BRK => 0,
            Mnemonic::ORA => 1,
            Mnemonic::NOP => 2,
            Mnemonic::TSB => 3,
            Mnemonic::ASL => 4,
            Mnemonic::RMB0 => 5,
            Mnemonic::PHP => 6,
            Mnemonic::BBR0 => 7,
            Mnemonic::BPL => 8,
            Mnemonic::TRB => 9,
            Mnemonic::RMB1 => 10,
            Mnemonic::CLC => 11,
            Mnemonic::INC => 12,
            Mnemonic::BBR1 => 13,
            Mnemonic::JSR => 14,
            Mnemonic::AND => 15,
            Mnemonic::BIT => 16,
            Mnemonic::ROL => 17,
            Mnemonic::RMB2 => 18,
            Mnemonic::PLP => 19,
            Mnemonic::BBR2 => 20,
            Mnemonic::BMI => 21,
            Mnemonic::RMB3 => 22,
            Mnemonic::SEC => 23,
            Mnemonic::DEC => 24,
            Mnemonic::BBR3 => 25,
            Mnemonic::RTI => 26,
            Mnemonic::EOR => 27,
            Mnemonic::LSR => 28,
            Mnemonic::RMB4 => 29,
            Mnemonic::PHA => 30,
            Mnemonic::JMP => 31,
            Mnemonic::BBR4 => 32,
            Mnemonic::BVC => 33,
            Mnemonic::RMB5 => 34,
            Mnemonic::CLI => 35,
            Mnemonic::PHY => 36,
            Mnemonic::BBR5 => 37,
            Mnemonic::RTS => 38,
            Mnemonic::ADC => 39,
            Mnemonic::STZ => 40,
            Mnemonic::ROR => 41,
            Mnemonic::RMB6 => 42,
            Mnemonic::PLA => 43,
            Mnemonic::BBR6 => 44,
            Mnemonic::BVS => 45,
            Mnemonic::RMB7 => 46,
            Mnemonic::SEI => 47,
            Mnemonic::PLY => 48,
            Mnemonic::BBR7 => 49,
            Mnemonic::BRA => 50,
            Mnemonic::STA => 51,
            Mnemonic::STY => 52,
            Mnemonic::STX => 53,
            Mnemonic::SMB0 => 54,
            Mnemonic::DEY => 55,
            Mnemonic::TXA => 56,
            Mnemonic::BBS0 => 57,
            Mnemonic::BCC => 58,
            Mnemonic::SMB1 => 59,
            Mnemonic::TYA => 60,
            Mnemonic::TXS => 61,
            Mnemonic::BBS1 => 62,
            Mnemonic::LDY => 63,
            Mnemonic::LDA => 64,
            Mnemonic::LDX => 65,
            Mnemonic::SMB2 => 66,
            Mnemonic::TAY => 67,
            Mnemonic::TAX => 68,
            Mnemonic::BBS2 => 69,
            Mnemonic::BCS => 70,
            Mnemonic::SMB3 => 71,
            Mnemonic::CLV => 72,
            Mnemonic::TSX => 73,
            Mnemonic::BBS3 => 74,
            Mnemonic::CPY => 75,
            Mnemonic::CMP => 76,
            Mnemonic::SMB4 => 77,
            Mnemonic::INY => 78,
            Mnemonic::DEX => 79,
            Mnemonic::WAI => 80,
            Mnemonic::BBS4 => 81,
            Mnemonic::BNE => 82,
            Mnemonic::SMB5 => 83,
            Mnemonic::CLD => 84,
            Mnemonic::PHX => 85,
            Mnemonic::STP => 86,
            Mnemonic::BBS5 => 87,
            Mnemonic::CPX => 88,
            Mnemonic::SBC => 89,
            Mnemonic::SMB6 => 90,
            Mnemonic::INX => 91,
            Mnemonic::BBS6 => 92,
            Mnemonic::BEQ => 93,
            Mnemonic::SMB7 => 94,
            Mnemonic::SED => 95,
            Mnemonic::PLX => 96,
            Mnemonic::BBS7 => 97,
            Mnemonic::Invalid => 98,
        }
    }

    /// The mnemonic at a position of the instruction table.
    pub fn from_index(index: usize) -> (r: Option<Mnemonic>)
        ensures
            r == Mnemonic::at(index as int),
            r is Some <==> index < MNEMONIC_COUNT,
            r matches Some(m) ==> m.spec_index() == index,
    {
        match index {
            0 => Some(Mnemonic::BRK),
            1 => Some(Mnemonic::ORA),
            2 => Some(Mnemonic::NOP),
            3 => Some(Mnemonic::TSB),
            4 => Some(Mnemonic::ASL),
            5 => Some(Mnemonic::RMB0),
            6 => Some(Mnemonic::PHP),
            7 => Some(Mnemonic::BBR0),
            8 => Some(Mnemonic::BPL),
            9 => Some(Mnemonic::TRB),
            10 => Some(Mnemonic::RMB1),
            11 => Some(Mnemonic::CLC),
            12 => Some(Mnemonic::INC),
            13 => Some(Mnemonic::BBR1),
            14 => Some(Mnemonic::JSR),
            15 => Some(Mnemonic::AND),
            16 => Some(Mnemonic::BIT),
            17 => Some(Mnemonic::ROL),
            18 => Some(Mnemonic::RMB2),
            19 => Some(Mnemonic::PLP),
            20 => Some(Mnemonic::BBR2),
            21 => Some(Mnemonic::BMI),
            22 => Some(Mnemonic::RMB3),
            23 => Some(Mnemonic::SEC),
            24 => Some(Mnemonic::DEC),
            25 => Some(Mnemonic::BBR3),
            26 => Some(Mnemonic::RTI),
            27 => Some(Mnemonic::EOR),
            28 => Some(Mnemonic::LSR),
            29 => Some(Mnemonic::RMB4),
            30 => Some(Mnemonic::PHA),
            31 => Some(Mnemonic::JMP),
            32 => Some(Mnemonic::BBR4),
            33 => Some(Mnemonic::BVC),
            34 => Some(Mnemonic::RMB5),
            35 => Some(Mnemonic::CLI),
            36 => Some(Mnemonic::PHY),
            37 => Some(Mnemonic::BBR5),
            38 => Some(Mnemonic::RTS),
            39 => Some(Mnemonic::ADC),
            40 => Some(Mnemonic::STZ),
            41 => Some(Mnemonic::ROR),
            42 => Some(Mnemonic::RMB6),
            43 => Some(Mnemonic::PLA),
            44 => Some(Mnemonic::BBR6),
            45 => Some(Mnemonic::BVS),
            46 => Some(Mnemonic::RMB7),
            47 => Some(Mnemonic::SEI),
            48 => Some(Mnemonic::PLY),
            49 => Some(Mnemonic::BBR7),
            50 => Some(Mnemonic::BRA),
            51 => Some(Mnemonic::STA),
            52 => Some(Mnemonic::STY),
            53 => Some(Mnemonic::STX),
            54 => Some(Mnemonic::SMB0),
            55 => Some(Mnemonic::DEY),
            56 => Some(Mnemonic::TXA),
            57 => Some(Mnemonic::BBS0),
            58 => Some(Mnemonic::BCC),
            59 => Some(Mnemonic::SMB1),
            60 => Some(Mnemonic::TYA),
            61 => Some(Mnemonic::TXS),
            62 => Some(Mnemonic::BBS1),
            63 => Some(Mnemonic::LDY),
            64 => Some(Mnemonic::LDA),
            65 => Some(Mnemonic::LDX),
            66 => Some(Mnemonic::SMB2),
            67 => Some(Mnemonic::TAY),
            68 => Some(Mnemonic::TAX),
            69 => Some(Mnemonic::BBS2),
            70 => Some(Mnemonic::BCS),
            71 => Some(Mnemonic::SMB3),
            72 => Some(Mnemonic::CLV),
            73 => Some(Mnemonic::TSX),
            74 => Some(Mnemonic::BBS3),
            75 => Some(Mnemonic::CPY),
            76 => Some(Mnemonic::CMP),
            77 => Some(Mnemonic::SMB4),
            78 => Some(Mnemonic::INY),
            79 => Some(Mnemonic::DEX),
            80 => Some(Mnemonic::WAI),
            81 => Some(Mnemonic::BBS4),
            82 => Some(Mnemonic::BNE),
            83 => Some(Mnemonic::SMB5),
            84 => Some(Mnemonic::CLD),
            85 => Some(Mnemonic::PHX),
            86 => Some(Mnemonic::STP),
            87 => Some(Mnemonic::BBS5),
            88 => Some(Mnemonic::CPX),
            89 => Some(Mnemonic::SBC),
            90 => Some(Mnemonic::SMB6),
            91 => Some(Mnemonic::INX),
            92 => Some(Mnemonic::BBS6),
            93 => Some(Mnemonic::BEQ),
            94 => Some(Mnemonic::SMB7),
            95 => Some(Mnemonic::SED),
            96 => Some(Mnemonic::PLX),
            97 => Some(Mnemonic::BBS7),
            98 => Some(Mnemonic::Invalid),
            _ => None,
        }
    }

    /// The name of the mnemonic as it is written in upper case.
    pub fn name(self) -> (r: &'static str)
        ensures
            r@ == self.spec_name(),
    {
        match self {
            Mnemonic::BRK => "BRK",
            Mnemonic::ORA => "ORA",
            Mnemonic::NOP => "NOP",
            Mnemonic::TSB => "TSB",
            Mnemonic::ASL => "ASL",
            Mnemonic::RMB0 => "RMB0",
            Mnemonic::PHP => "PHP",
            Mnemonic::BBR0 => "BBR0",
            Mnemonic::BPL => "BPL",
            Mnemonic::TRB => "TRB",
            Mnemonic::RMB1 => "RMB1",
            Mnemonic::CLC => "CLC",
            Mnemonic::INC => "INC",
            Mnemonic::BBR1 => "BBR1",
            Mnemonic::JSR => "JSR",
            Mnemonic::AND => "AND",
            Mnemonic::BIT => "BIT",
            Mnemonic::ROL => "ROL",
            Mnemonic::RMB2 => "RMB2",
            Mnemonic::PLP => "PLP",
            Mnemonic::BBR2 => "BBR2",
            Mnemonic::BMI => "BMI",
            Mnemonic::RMB3 => "RMB3",
            Mnemonic::SEC => "SEC",
            Mnemonic::DEC => "DEC",
            Mnemonic::BBR3 => "BBR3",
            Mnemonic::RTI => "RTI",
            Mnemonic::EOR => "EOR",
            Mnemonic::LSR => "LSR",
            Mnemonic::RMB4 => "RMB4",
            Mnemonic::PHA => "PHA",
            Mnemonic::JMP => "JMP",
            Mnemonic::BBR4 => "BBR4",
            Mnemonic::BVC => "BVC",
            Mnemonic::RMB5 => "RMB5",
            Mnemonic::CLI => "CLI",
            Mnemonic::PHY => "PHY",
            Mnemonic::BBR5 => "BBR5",
            Mnemonic::RTS => "RTS",
            Mnemonic::ADC => "ADC",
            Mnemonic::STZ => "STZ",
            Mnemonic::ROR => "ROR",
            Mnemonic::RMB6 => "RMB6",
            Mnemonic::PLA => "PLA",
            Mnemonic::BBR6 => "BBR6",
            Mnemonic::BVS => "BVS",
            Mnemonic::RMB7 => "RMB7",
            Mnemonic::SEI => "SEI",
            Mnemonic::PLY => "PLY",
            Mnemonic::BBR7 => "BBR7",
            Mnemonic::BRA => "BRA",
            Mnemonic::STA => "STA",
            Mnemonic::STY => "STY",
            Mnemonic::STX => "STX",
            Mnemonic::SMB0 => "SMB0",
            Mnemonic::DEY => "DEY",
            Mnemonic::TXA => "TXA",
            Mnemonic::BBS0 => "BBS0",
            Mnemonic::BCC => "BCC",
            Mnemonic::SMB1 => "SMB1",
            Mnemonic::TYA => "TYA",
            Mnemonic::TXS => "TXS",
            Mnemonic::BBS1 => "BBS1",
            Mnemonic::LDY => "LDY",
            Mnemonic::LDA => "LDA",
            Mnemonic::LDX => "LDX",
            Mnemonic::SMB2 => "SMB2",
            Mnemonic::TAY => "TAY",
            Mnemonic::TAX => "TAX",
            Mnemonic::BBS2 => "BBS2",
            Mnemonic::BCS => "BCS",
            Mnemonic::SMB3 => "SMB3",
            Mnemonic::CLV => "CLV",
            Mnemonic::TSX => "TSX",
            Mnemonic::BBS3 => "BBS3",
            Mnemonic::CPY => "CPY",
            Mnemonic::CMP => "CMP",
            Mnemonic::SMB4 => "SMB4",
            Mnemonic::INY => "INY",
            Mnemonic::DEX => "DEX",
            Mnemonic::WAI => "WAI",
            Mnemonic::BBS4 => "BBS4",
            Mnemonic::BNE => "BNE",
            Mnemonic::SMB5 => "SMB5",
            Mnemonic::CLD => "CLD",
            Mnemonic::PHX => "PHX",
            Mnemonic::STP => "STP",
            Mnemonic::BBS5 => "BBS5",
            Mnemonic::CPX => "CPX",
            Mnemonic::SBC => "SBC",
            Mnemonic::SMB6 => "SMB6",
            Mnemonic::INX => "INX",
            Mnemonic::BBS6 => "BBS6",
            Mnemonic::BEQ => "BEQ",
            Mnemonic::SMB7 => "SMB7",
            Mnemonic::SED => "SED",
            Mnemonic::PLX => "PLX",
            Mnemonic::BBS7 => "BBS7",
            Mnemonic::Invalid => "Invalid",
        }
    }

    /// Finds the mnemonic that carries the name `name`; the letters' case counts.
    pub fn from_name(name: &str) -> (r: Option<Mnemonic>)
        ensures
            r == Mnemonic::named(name@),
    {
        let mut i: usize = 0;
        while i < MNEMONIC_COUNT
            invariant
                i <= MNEMONIC_COUNT,
                forall|m: Mnemonic| m.spec_index() < i ==> m.spec_name() != name@,
            decreases MNEMONIC_COUNT - i,
        {
            match Mnemonic::from_index(i) {
                Some(m) => {
                    if str_eq(m.name(), name) {
                        proof {
                            lemma_names_differ();
                        }
                        return Some(m);
                    }
                },
                None => {},
            }
            i += 1;
        }
        None
    }
}

/// A number that tells the names of the mnemonics apart: the first four
/// characters of a name, read as digits to the base 256.
spec fn name_key(name: Seq<char>) -> int {
    let c0: int = if name.len() > 0 { name[0] as int } else { 0 };
    let c1: int = if name.len() > 1 { name[1] as int } else { 0 };
    let c2: int = if name.len() > 2 { name[2] as int } else { 0 };
    let c3: int = if name.len() > 3 { name[3] as int } else { 0 };
    ((c0 * 256 + c1) * 256 + c2) * 256 + c3
}

spec fn mnemonic_key(m: Mnemonic) -> int {
    match m {
        Mnemonic::BRK => 1112689408,
        Mnemonic::ORA => 1330790656,
        Mnemonic::NOP => 1313820672,
        Mnemonic::TSB => 1414742528,
        Mnemonic::ASL => 1095977984,
        Mnemonic::RMB0 => 1380794928,
        Mnemonic::PHP => 1346916352,
        Mnemonic::BBR0 => 1111642672,
        Mnemonic::BPL => 1112558592,
        Mnemonic::TRB => 1414676992,
        Mnemonic::RMB1 => 1380794929,
        Mnemonic::CLC => 1129071360,
        Mnemonic::INC => 1229865728,
        Mnemonic::BBR1 => 1111642673,
        Mnemonic::JSR => 1246974464,
        Mnemonic::AND => 1095648256,
        Mnemonic::BIT => 1112101888,
        Mnemonic::ROL => 1380928512,
        Mnemonic::RMB2 => 1380794930,
        Mnemonic::PLP => 1347178496,
        Mnemonic::BBR2 => 1111642674,
        Mnemonic::BMI => 1112361216,
        Mnemonic::RMB3 => 1380794931,
        Mnemonic::SEC => 1397048064,
        Mnemonic::DEC => 1145389824,
        Mnemonic::BBR3 => 1111642675,
        Mnemonic::RTI => 1381255424,
        Mnemonic::EOR => 1162826240,
        Mnemonic::LSR => 1280528896,
        Mnemonic::RMB4 => 1380794932,
        Mnemonic::PHA => 1346912512,
        Mnemonic::JMP => 1246580736,
        Mnemonic::BBR4 => 1111642676,
        Mnemonic::BVC => 1112949504,
        Mnemonic::RMB5 => 1380794933,
        Mnemonic::CLI => 1129072896,
        Mnemonic::PHY => 1346918656,
        Mnemonic::BBR5 => 1111642677,
        Mnemonic::RTS => 1381257984,
        Mnemonic::ADC => 1094992640,
        Mnemonic::STZ => 1398036992,
        Mnemonic::ROR => 1380930048,
        Mnemonic::RMB6 => 1380794934,
        Mnemonic::PLA => 1347174656,
        Mnemonic::BBR6 => 1111642678,
        Mnemonic::BVS => 1112953600,
        Mnemonic::RMB7 => 1380794935,
        Mnemonic::SEI => 1397049600,
        Mnemonic::PLY => 1347180800,
        Mnemonic::BBR7 => 1111642679,
        Mnemonic::BRA => 1112686848,
        Mnemonic::STA => 1398030592,
        Mnemonic::STY => 1398036736,
        Mnemonic::STX => 1398036480,
        Mnemonic::SMB0 => 1397572144,
        Mnemonic::DEY => 1145395456,
        Mnemonic::TXA => 1415069952,
        Mnemonic::BBS0 => 1111642928,
        Mnemonic::BCC => 1111704320,
        Mnemonic::SMB1 => 1397572145,
        Mnemonic::TYA => 1415135488,
        Mnemonic::TXS => 1415074560,
        Mnemonic::BBS1 => 1111642929,
        Mnemonic::LDY => 1279547648,
        Mnemonic::LDA => 1279541504,
        Mnemonic::LDX => 1279547392,
        Mnemonic::SMB2 => 1397572146,
        Mnemonic::TAY => 1413568768,
        Mnemonic::TAX => 1413568512,
        Mnemonic::BBS2 => 1111642930,
        Mnemonic::BCS => 1111708416,
        Mnemonic::SMB3 => 1397572147,
        Mnemonic::CLV => 1129076224,
        Mnemonic::TSX => 1414748160,
        Mnemonic::BBS3 => 1111642931,
        Mnemonic::CPY => 1129339136,
        Mnemonic::CMP => 1129140224,
        Mnemonic::SMB4 => 1397572148,
        Mnemonic::INY => 1229871360,
        Mnemonic::DEX => 1145395200,
        Mnemonic::WAI => 1463896320,
        Mnemonic::BBS4 => 1111642932,
        Mnemonic::BNE => 1112425728,
        Mnemonic::SMB5 => 1397572149,
        Mnemonic::CLD => 1129071616,
        Mnemonic::PHX => 1346918400,
        Mnemonic::STP => 1398034432,
        Mnemonic::BBS5 => 1111642933,
        Mnemonic::CPX => 1129338880,
        Mnemonic::SBC => 1396851456,
        Mnemonic::SMB6 => 1397572150,
        Mnemonic::INX => 1229871104,
        Mnemonic::BBS6 => 1111642934,
        Mnemonic::BEQ => 1111838976,
        Mnemonic::SMB7 => 1397572151,
        Mnemonic::SED => 1397048320,
        Mnemonic::PLX => 1347180544,
        Mnemonic::BBS7 => 1111642935,
        Mnemonic::Invalid => 1231976033,
    }
}

proof fn lemma_name_keys_0(m: Mnemonic)
    requires
        0 <= m.spec_index() < 20,
    ensures
        name_key(m.spec_name()) == mnemonic_key(m),
{
    reveal_strlit("BRK");
    reveal_strlit("ORA");
    reveal_strlit("NOP");
    reveal_strlit("TSB");
    reveal_strlit("ASL");
    reveal_strlit("RMB0");
    reveal_strlit("PHP");
    reveal_strlit("BBR0");
    reveal_strlit("BPL");
    reveal_strlit("TRB");
    reveal_strlit("RMB1");
    reveal_strlit("CLC");
    reveal_strlit("INC");
    reveal_strlit("BBR1");
    reveal_strlit("JSR");
    reveal_strlit("AND");
    reveal_strlit("BIT");
    reveal_strlit("ROL");
    reveal_strlit("RMB2");
    reveal_strlit("PLP");
}

proof fn lemma_name_keys_1(m: Mnemonic)
    requires
        20 <= m.spec_index() < 40,
    ensures
        name_key(m.spec_name()) == mnemonic_key(m),
{
    reveal_strlit("BBR2");
    reveal_strlit("BMI");
    reveal_strlit("RMB3");
    reveal_strlit("SEC");
    reveal_strlit("DEC");
    reveal_strlit("BBR3");
    reveal_strlit("RTI");
    reveal_strlit("EOR");
    reveal_strlit("LSR");
    reveal_strlit("RMB4");
    reveal_strlit("PHA");
    reveal_strlit("JMP");
    reveal_strlit("BBR4");
    reveal_strlit("BVC");
    reveal_strlit("RMB5");
    reveal_strlit("CLI");
    reveal_strlit("PHY");
    reveal_strlit("BBR5");
    reveal_strlit("RTS");
    reveal_strlit("ADC");
}

proof fn lemma_name_keys_2(m: Mnemonic)
    requires
        40 <= m.spec_index() < 60,
    ensures
        name_key(m.spec_name()) == mnemonic_key(m),
{
    reveal_strlit("STZ");
    reveal_strlit("ROR");
    reveal_strlit("RMB6");
    reveal_strlit("PLA");
    reveal_strlit("BBR6");
    reveal_strlit("BVS");
    reveal_strlit("RMB7");
    reveal_strlit("SEI");
    reveal_strlit("PLY");
    reveal_strlit("BBR7");
    reveal_strlit("BRA");
    reveal_strlit("STA");
    reveal_strlit("STY");
    reveal_strlit("STX");
    reveal_strlit("SMB0");
    reveal_strlit("DEY");
    reveal_strlit("TXA");
    reveal_strlit("BBS0");
    reveal_strlit("BCC");
    reveal_strlit("SMB1");
}

proof fn lemma_name_keys_3(m: Mnemonic)
    requires
        60 <= m.spec_index() < 80,
    ensures
        name_key(m.spec_name()) == mnemonic_key(m),
{
    reveal_strlit("TYA");
    reveal_strlit("TXS");
    reveal_strlit("BBS1");
    reveal_strlit("LDY");
    reveal_strlit("LDA");
    reveal_strlit("LDX");
    reveal_strlit("SMB2");
    reveal_strlit("TAY");
    reveal_strlit("TAX");
    reveal_strlit("BBS2");
    reveal_strlit("BCS");
    reveal_strlit("SMB3");
    reveal_strlit("CLV");
    reveal_strlit("TSX");
    reveal_strlit("BBS3");
    reveal_strlit("CPY");
    reveal_strlit("CMP");
    reveal_strlit("SMB4");
    reveal_strlit("INY");
    reveal_strlit("DEX");
}

proof fn lemma_name_keys_4(m: Mnemonic)
    requires
        80 <= m.spec_index() < 99,
    ensures
        name_key(m.spec_name()) == mnemonic_key(m),
{
    reveal_strlit("WAI");
    reveal_strlit("BBS4");
    reveal_strlit("BNE");
    reveal_strlit("SMB5");
    reveal_strlit("CLD");
    reveal_strlit("PHX");
    reveal_strlit("STP");
    reveal_strlit("BBS5");
    reveal_strlit("CPX");
    reveal_strlit("SBC");
    reveal_strlit("SMB6");
    reveal_strlit("INX");
    reveal_strlit("BBS6");
    reveal_strlit("BEQ");
    reveal_strlit("SMB7");
    reveal_strlit("SED");
    reveal_strlit("PLX");
    reveal_strlit("BBS7");
    reveal_strlit("Invalid");
}

/// No two mnemonics carry the same name.
pub proof fn lemma_names_differ()
    ensures
        forall|a: Mnemonic, b: Mnemonic| a.spec_name() == b.spec_name() ==> a == b,
{
    assert forall|a: Mnemonic, b: Mnemonic| a.spec_name() == b.spec_name() implies a == b by {
        lemma_name_key(a);
        lemma_name_key(b);
    }
}

proof fn lemma_name_key(m: Mnemonic)
    ensures
        name_key(m.spec_name()) == mnemonic_key(m),
{
    if m.spec_index() < 20 {
        lemma_name_keys_0(m);
    } else if m.spec_index() < 40 {
        lemma_name_keys_1(m);
    } else if m.spec_index() < 60 {
        lemma_name_keys_2(m);
    } else if m.spec_index() < 80 {
        lemma_name_keys_3(m);
    } else if m.spec_index() < 99 {
        lemma_name_keys_4(m);
    }
}

} // verus!
