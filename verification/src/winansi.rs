//! The WinAnsi (Windows-1252) character set.
//!
//! Text that is drawn or measured is narrowed to this set: a character
//! outside it has no byte, takes no width and is not drawn.

use vstd::prelude::*;

verus! {

/// The character that a WinAnsi byte stands for. Bytes `0x80` to `0x9f` are
/// remapped where the set assigns them; every other byte stands for the code
/// point of the same number.
pub open spec fn winansi_char(byte: u8) -> char {
    if byte == 0x80 {
        '\u{20AC}'
    } else if byte == 0x82 {
        '\u{201A}'
    } else if byte == 0x83 {
        '\u{0192}'
    } else if byte == 0x84 {
        '\u{201E}'
    } else if byte == 0x85 {
        '\u{2026}'
    } else if byte == 0x86 {
        '\u{2020}'
    } else if byte == 0x87 {
        '\u{2021}'
    } else if byte == 0x88 {
        '\u{02C6}'
    } else if byte == 0x89 {
        '\u{2030}'
    } else if byte == 0x8A {
        '\u{0160}'
    } else if byte == 0x8B {
        '\u{2039}'
    } else if byte == 0x8C {
        '\u{0152}'
    } else if byte == 0x8E {
        '\u{017D}'
    } else if byte == 0x91 {
        '\u{2018}'
    } else if byte == 0x92 {
        '\u{2019}'
    } else if byte == 0x93 {
        '\u{201C}'
    } else if byte == 0x94 {
        '\u{201D}'
    } else if byte == 0x95 {
        '\u{2022}'
    } else if byte == 0x96 {
        '\u{2013}'
    } else if byte == 0x97 {
        '\u{2014}'
    } else if byte == 0x98 {
        '\u{02DC}'
    } else if byte == 0x99 {
        '\u{2122}'
    } else if byte == 0x9A {
        '\u{0161}'
    } else if byte == 0x9B {
        '\u{203A}'
    } else if byte == 0x9C {
        '\u{0153}'
    } else if byte == 0x9E {
        '\u{017E}'
    } else if byte == 0x9F {
        '\u{0178}'
    } else {
        byte as char
    }
}

/// The WinAnsi byte of a character, if the set has the character.
pub open spec fn winansi_byte(c: char) -> Option<u8> {
    let n = c as u32;
    if n <= 0x7f {
        Some(n as u8)
    } else if 0xa0 <= n <= 0xff {
        Some(n as u8)
    } else if n == 0x20AC {
        Some(0x80u8)
    } else if n == 0x201A {
        Some(0x82u8)
    } else if n == 0x0192 {
        Some(0x83u8)
    } else if n == 0x201E {
        Some(0x84u8)
    } else if n == 0x2026 {
        Some(0x85u8)
    } else if n == 0x2020 {
        Some(0x86u8)
    } else if n == 0x2021 {
        Some(0x87u8)
    } else if n == 0x02C6 {
        Some(0x88u8)
    } else if n == 0x2030 {
        Some(0x89u8)
    } else if n == 0x0160 {
        Some(0x8Au8)
    } else if n == 0x2039 {
        Some(0x8Bu8)
    } else if n == 0x0152 {
        Some(0x8Cu8)
    } else if n == 0x017D {
        Some(0x8Eu8)
    } else if n == 0x2018 {
        Some(0x91u8)
    } else if n == 0x2019 {
        Some(0x92u8)
    } else if n == 0x201C {
        Some(0x93u8)
    } else if n == 0x201D {
        Some(0x94u8)
    } else if n == 0x2022 {
        Some(0x95u8)
    } else if n == 0x2013 {
        Some(0x96u8)
    } else if n == 0x2014 {
        Some(0x97u8)
    } else if n == 0x02DC {
        Some(0x98u8)
    } else if n == 0x2122 {
        Some(0x99u8)
    } else if n == 0x0161 {
        Some(0x9Au8)
    } else if n == 0x203A {
        Some(0x9Bu8)
    } else if n == 0x0153 {
        Some(0x9Cu8)
    } else if n == 0x017E {
        Some(0x9Eu8)
    } else if n == 0x0178 {
        Some(0x9Fu8)
    } else {
        None
    }
}

/// The byte under which a character is shown: its WinAnsi byte, if the set
/// has the character and the byte is 32 or more. Control characters are not
/// shown.
pub open spec fn shown_byte(c: char) -> Option<u8> {
    match winansi_byte(c) {
        Some(b) => if b >= 32 {
            Some(b)
        } else {
            None
        },
        None => None,
    }
}

/// The bytes under which a text is shown: the byte of each character that
/// is shown, in order.
pub open spec fn winansi_encode(s: Seq<char>) -> Seq<u8>
    decreases s.len(),
{
    if s.len() == 0 {
        Seq::empty()
    } else {
        match shown_byte(s.last()) {
            Some(b) => winansi_encode(s.drop_last()).push(b),
            None => winansi_encode(s.drop_last()),
        }
    }
}

/// No byte under which a text is shown is below 32, and a text is shown
/// under no more bytes than it has characters.
pub proof fn lemma_encoded_bytes(s: Seq<char>)
    ensures
        winansi_encode(s).len() <= s.len(),
        forall|i: int| 0 <= i < winansi_encode(s).len() ==> #[trigger] winansi_encode(s)[i] >= 32,
    decreases s.len(),
{
    if s.len() > 0 {
        lemma_encoded_bytes(s.drop_last());
    }
}

/// The five bytes in `0x80..=0x9f` that WinAnsi leaves unassigned.
pub open spec fn winansi_unassigned(byte: u8) -> bool {
    byte == 0x81 || byte == 0x8d || byte == 0x8f || byte == 0x90 || byte == 0x9d
}

/// Decoding a byte and encoding the character again gives the byte back,
/// unless the set leaves the byte unassigned.
pub proof fn lemma_winansi_round_trip(byte: u8)
    ensures
        winansi_unassigned(byte) ==> winansi_byte(winansi_char(byte)) is None,
        !winansi_unassigned(byte) ==> winansi_byte(winansi_char(byte)) == Some(byte),
{
}

/// Encoding a character and decoding the byte again gives the character back.
pub proof fn lemma_winansi_char_of_byte(c: char)
    ensures
        winansi_byte(c) matches Some(b) ==> winansi_char(b) == c,
{
}

pub fn winansi_to_char(byte: u8) -> (c: char)
    ensures
        c == winansi_char(byte),
{
    match byte {
        0x80 => '\u{20AC}',
        0x82 => '\u{201A}',
        0x83 => '\u{0192}',
        0x84 => '\u{201E}',
        0x85 => '\u{2026}',
        0x86 => '\u{2020}',
        0x87 => '\u{2021}',
        0x88 => '\u{02C6}',
        0x89 => '\u{2030}',
        0x8A => '\u{0160}',
        0x8B => '\u{2039}',
        0x8C => '\u{0152}',
        0x8E => '\u{017D}',
        0x91 => '\u{2018}',
        0x92 => '\u{2019}',
        0x93 => '\u{201C}',
        0x94 => '\u{201D}',
        0x95 => '\u{2022}',
        0x96 => '\u{2013}',
        0x97 => '\u{2014}',
        0x98 => '\u{02DC}',
        0x99 => '\u{2122}',
        0x9A => '\u{0161}',
        0x9B => '\u{203A}',
        0x9C => '\u{0153}',
        0x9E => '\u{017E}',
        0x9F => '\u{0178}',
        _ => byte as char,
    }
}

/// The WinAnsi byte of one character.
pub fn char_to_winansi(c: char) -> (b: Option<u8>)
    ensures
        b == winansi_byte(c),
{
    let n: u32 = c as u32;
    if n <= 0x7f || (0xa0 <= n && n <= 0xff) {
        Some(n as u8)
    } else {
        match n {
            0x20AC => Some(0x80),
            0x201A => Some(0x82),
            0x0192 => Some(0x83),
            0x201E => Some(0x84),
            0x2026 => Some(0x85),
            0x2020 => Some(0x86),
            0x2021 => Some(0x87),
            0x02C6 => Some(0x88),
            0x2030 => Some(0x89),
            0x0160 => Some(0x8A),
            0x2039 => Some(0x8B),
            0x0152 => Some(0x8C),
            0x017D => Some(0x8E),
            0x2018 => Some(0x91),
            0x2019 => Some(0x92),
            0x201C => Some(0x93),
            0x201D => Some(0x94),
            0x2022 => Some(0x95),
            0x2013 => Some(0x96),
            0x2014 => Some(0x97),
            0x02DC => Some(0x98),
            0x2122 => Some(0x99),
            0x0161 => Some(0x9A),
            0x203A => Some(0x9B),
            0x0153 => Some(0x9C),
            0x017E => Some(0x9E),
            0x0178 => Some(0x9F),
            _ => None,
        }
    }
}

/// Converts a text to the bytes under which it is shown, leaving out what
/// the set lacks and what lies below 32.
pub fn to_winansi_bytes(s: &str) -> (bytes: Vec<u8>)
    ensures
        bytes@ == winansi_encode(s@),
        forall|i: int| 0 <= i < bytes@.len() ==> #[trigger] bytes@[i] >= 32,
{
    proof {
        lemma_encoded_bytes(s@);
    }
    let mut bytes: Vec<u8> = Vec::new();
    for c in it: s.chars()
        invariant
            it.seq() == s@,
            bytes@ == winansi_encode(it.seq().take(it.index())),
    {
        proof {
            let done = it.seq().take(it.index());
            let next = it.seq().take(it.index() + 1);
            assert(next.drop_last() =~= done);
        }
        match char_to_winansi(c) {
            Some(b) => {
                if b >= 32 {
                    bytes.push(b);
                }
            },
            None => {},
        }
    }
    assert(s@.take(s@.len() as int) =~= s@);
    bytes
}

} // verus!
