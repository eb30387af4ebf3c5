//! Scanning of bytes: runs of a class of bytes, and numbers in digits.

use vstd::prelude::*;
use vstd::utf8::*;
use crate::text::lemma_boundary_after_ascii;

verus! {

/// A class of bytes.
#[derive(Debug, PartialEq, Eq, Copy, Clone, Structural)]
pub enum ByteClass {
    /// A space, a tabulator or a form feed.
    Blank,
    /// A blank or a line feed.
    Space,
    /// A letter or an underscore.
    Letter,
    /// A letter, a digit or an underscore.
    Word,
    /// A decimal digit.
    Digit,
    /// A hexadecimal digit, in either case.
    HexDigit,
    /// A byte that continues a character of more than one byte.
    Continuation,
    /// Any byte but a double quote.
    Unquoted,
}

/// Whether a byte is a letter of either case.
pub open spec fn is_alpha(b: u8) -> bool {
    (0x41 <= b <= 0x5A) || (0x61 <= b <= 0x7A)
}

/// Whether a byte is a decimal digit.
pub open spec fn is_digit(b: u8) -> bool {
    0x30 <= b <= 0x39
}

/// Whether a byte is a hexadecimal digit.
pub open spec fn is_hex_digit(b: u8) -> bool {
    is_digit(b) || (0x41 <= b <= 0x46) || (0x61 <= b <= 0x66)
}

/// Whether a byte belongs to a class.
pub open spec fn in_class(class: ByteClass, b: u8) -> bool {
    match class {
        ByteClass::Blank => b == 0x20 || b == 0x09 || b == 0x0C,
        ByteClass::Space => b == 0x20 || b == 0x09 || b == 0x0C || b == 0x0A,
        ByteClass::Letter => is_alpha(b) || b == 0x5F,
        ByteClass::Word => is_alpha(b) || is_digit(b) || b == 0x5F,
        ByteClass::Digit => is_digit(b),
        ByteClass::HexDigit => is_hex_digit(b),
        ByteClass::Continuation => 0x80 <= b <= 0xBF,
        ByteClass::Unquoted => b != 0x22,
    }
}

/// The end of the longest run of bytes of a class that begins at `pos`.
pub open spec fn run_end(bytes: Seq<u8>, pos: int, class: ByteClass) -> int
    decreases bytes.len() - pos,
{
    if 0 <= pos < bytes.len() && in_class(class, bytes[pos]) {
        run_end(bytes, pos + 1, class)
    } else {
        pos
    }
}

/// A run does not end before its start.
pub proof fn lemma_run_forward(bytes: Seq<u8>, pos: int, class: ByteClass)
    ensures
        pos <= run_end(bytes, pos, class),
    decreases bytes.len() - pos,
{
    if 0 <= pos < bytes.len() && in_class(class, bytes[pos]) {
        lemma_run_forward(bytes, pos + 1, class);
    }
}

/// The run ends at or behind its start and within the bytes; every byte of
/// it belongs to the class, and the byte behind it, if there is one, does
/// not.
pub proof fn lemma_run_end(bytes: Seq<u8>, pos: int, class: ByteClass)
    requires
        0 <= pos <= bytes.len(),
    ensures
        pos <= run_end(bytes, pos, class) <= bytes.len(),
        forall|i: int| pos <= i < run_end(bytes, pos, class) ==> in_class(class, #[trigger] bytes[i]),
        run_end(bytes, pos, class) < bytes.len() ==> !in_class(
            class,
            bytes[run_end(bytes, pos, class)],
        ),
    decreases bytes.len() - pos,
{
    if pos < bytes.len() && in_class(class, bytes[pos]) {
        lemma_run_end(bytes, pos + 1, class);
    }
}

/// The end of a run of ASCII bytes that begins at a character boundary is
/// a character boundary.
pub proof fn lemma_run_boundary(bytes: Seq<u8>, pos: int, class: ByteClass)
    requires
        valid_utf8(bytes),
        0 <= pos <= bytes.len(),
        is_char_boundary(bytes, pos),
        class != ByteClass::Continuation,
        class != ByteClass::Unquoted,
    ensures
        is_char_boundary(bytes, run_end(bytes, pos, class)),
{
    lemma_run_end(bytes, pos, class);
    let end = run_end(bytes, pos, class);
    if end > pos {
        assert(in_class(class, bytes[end - 1]));
        lemma_boundary_after_ascii(bytes, end - 1);
    }
}

/// The end of a run of continuation bytes is a character boundary.
pub proof fn lemma_continuation_boundary(bytes: Seq<u8>, pos: int)
    requires
        valid_utf8(bytes),
        0 <= pos <= bytes.len(),
    ensures
        is_char_boundary(bytes, run_end(bytes, pos, ByteClass::Continuation)),
{
    lemma_run_end(bytes, pos, ByteClass::Continuation);
    let end = run_end(bytes, pos, ByteClass::Continuation);
    if end == bytes.len() {
        is_char_boundary_start_end_of_seq(bytes);
    } else {
        is_char_boundary_iff_not_is_continuation_byte(bytes, end);
    }
}

/// Tells whether a byte belongs to a class.
pub fn class_holds(class: ByteClass, b: u8) -> (r: bool)
    ensures
        r == in_class(class, b),
{
    let alpha = (0x41 <= b && b <= 0x5A) || (0x61 <= b && b <= 0x7A);
    let digit = 0x30 <= b && b <= 0x39;
    match class {
        ByteClass::Blank => b == 0x20 || b == 0x09 || b == 0x0C,
        ByteClass::Space => b == 0x20 || b == 0x09 || b == 0x0C || b == 0x0A,
        ByteClass::Letter => alpha || b == 0x5F,
        ByteClass::Word => alpha || digit || b == 0x5F,
        ByteClass::Digit => digit,
        ByteClass::HexDigit => digit || (0x41 <= b && b <= 0x46) || (0x61 <= b && b <= 0x66),
        ByteClass::Continuation => 0x80 <= b && b <= 0xBF,
        ByteClass::Unquoted => b != 0x22,
    }
}

/// Finds the end of the longest run of bytes of a class that begins at
/// `pos`.
pub fn scan_run(bytes: &[u8], pos: usize, class: ByteClass) -> (end: usize)
    requires
        pos <= bytes@.len(),
    ensures
        end == run_end(bytes@, pos as int, class),
        pos <= end <= bytes@.len(),
{
    let mut i: usize = pos;
    while i < bytes.len() && class_holds(class, bytes[i])
        invariant
            pos <= i <= bytes@.len(),
            run_end(bytes@, i as int, class) == run_end(bytes@, pos as int, class),
        decreases bytes@.len() - i,
    {
        i += 1;
    }
    i
}

/// The value of a digit to a base of up to sixteen; zero for a byte that is
/// no digit.
pub open spec fn digit_value(b: u8) -> nat {
    if is_digit(b) {
        (b - 0x30) as nat
    } else if 0x41 <= b <= 0x46 {
        (b - 0x41 + 10) as nat
    } else if 0x61 <= b <= 0x66 {
        (b - 0x61 + 10) as nat
    } else {
        0
    }
}

/// The value of a number written in digits to the base `radix`.
pub open spec fn number_value(digits: Seq<u8>, radix: nat) -> nat
    decreases digits.len(),
{
    if digits.len() == 0 {
        0
    } else {
        number_value(digits.drop_last(), radix) * radix + digit_value(digits.last())
    }
}

/// A number cut off at the largest value of 64 bits.
pub open spec fn saturated(value: nat) -> u64 {
    if value > u64::MAX {
        u64::MAX
    } else {
        value as u64
    }
}

fn digit_of(b: u8) -> (r: u64)
    ensures
        r == digit_value(b),
        r < 16,
{
    if 0x30 <= b && b <= 0x39 {
        (b - 0x30) as u64
    } else if 0x41 <= b && b <= 0x46 {
        (b - 0x41 + 10) as u64
    } else if 0x61 <= b && b <= 0x66 {
        (b - 0x61 + 10) as u64
    } else {
        0
    }
}

/// Reads the number that the bytes from `start` to `end` spell in digits to
/// the base ten or sixteen. A number beyond 64 bits gives the largest value
/// of 64 bits.
pub fn parse_number(bytes: &[u8], start: usize, end: usize, radix: u64) -> (r: u64)
    requires
        start <= end <= bytes@.len(),
        radix == 10 || radix == 16,
    ensures
        r == saturated(number_value(bytes@.subrange(start as int, end as int), radix as nat)),
{
    let mut value: u64 = 0;
    let mut i: usize = start;
    assert(bytes@.subrange(start as int, start as int) =~= Seq::<u8>::empty());
    while i < end
        invariant
            start <= i <= end <= bytes@.len(),
            radix == 10 || radix == 16,
            value == saturated(
                number_value(bytes@.subrange(start as int, i as int), radix as nat),
            ),
        decreases end - i,
    {
        let d = digit_of(bytes[i]);
        proof {
            let before = bytes@.subrange(start as int, i as int);
            let after = bytes@.subrange(start as int, i + 1);
            assert(after.drop_last() =~= before);
            assert(after.last() == bytes@[i as int]);
        }
        if value > (u64::MAX - d) / radix {
            value = u64::MAX;
        } else {
            value = value * radix + d;
        }
        i += 1;
    }
    value
}

} // verus!
