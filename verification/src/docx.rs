//! Small decoders for what a word-processing package states in text and
//! bytes: colours, alignments, font references, the keys of obfuscated fonts
//! and the size of a JPEG image.

use crate::model::Alignment;
use crate::text::{chars_of, str_equal};
use vstd::prelude::*;
use vstd::string::StringExecFns;

verus! {

/// The value of a hexadecimal digit.
pub open spec fn hex_digit(c: char) -> Option<int> {
    if '0' <= c <= '9' {
        Some(c as int - '0' as int)
    } else if 'a' <= c <= 'f' {
        Some(c as int - 'a' as int + 10)
    } else if 'A' <= c <= 'F' {
        Some(c as int - 'A' as int + 10)
    } else {
        None
    }
}

pub fn hex_value(c: char) -> (v: Option<u8>)
    ensures
        match v {
            Some(d) => hex_digit(c) == Some(d as int) && d < 16,
            None => hex_digit(c) is None,
        },
{
    let n: u32 = c as u32;
    if 0x30 <= n && n <= 0x39 {
        Some((n - 0x30) as u8)
    } else if 0x61 <= n && n <= 0x66 {
        Some((n - 0x61 + 10) as u8)
    } else if 0x41 <= n && n <= 0x46 {
        Some((n - 0x41 + 10) as u8)
    } else {
        None
    }
}

/// The byte that two hexadecimal digits spell.
pub open spec fn hex_pair(hi: char, lo: char) -> Option<u8> {
    match (hex_digit(hi), hex_digit(lo)) {
        (Some(h), Some(l)) => Some((h * 16 + l) as u8),
        _ => None,
    }
}

pub fn hex_byte(hi: char, lo: char) -> (b: Option<u8>)
    ensures
        b == hex_pair(hi, lo),
{
    match hex_value(hi) {
        Some(h) => match hex_value(lo) {
            Some(l) => Some(h * 16 + l),
            None => None,
        },
        None => None,
    }
}

/// The byte that a pair of characters spells in a colour: two hexadecimal
/// digits, or a plus sign and one hexadecimal digit.
pub open spec fn color_pair(hi: char, lo: char) -> Option<u8> {
    if hi == '+' {
        match hex_digit(lo) {
            Some(l) => Some(l as u8),
            None => None,
        }
    } else {
        hex_pair(hi, lo)
    }
}

pub fn color_byte(hi: char, lo: char) -> (b: Option<u8>)
    ensures
        b == color_pair(hi, lo),
{
    if hi == '+' {
        hex_value(lo)
    } else {
        hex_byte(hi, lo)
    }
}

/// The colour that three pairs of characters spell, red first. Any other
/// text, `auto` among them, spells none.
pub open spec fn hex_color(s: Seq<char>) -> Option<[u8; 3]> {
    if s.len() != 6 {
        None
    } else {
        match (color_pair(s[0], s[1]), color_pair(s[2], s[3]), color_pair(s[4], s[5])) {
            (Some(r), Some(g), Some(b)) => Some([r, g, b]),
            _ => None,
        }
    }
}

pub fn parse_hex_color(val: &str) -> (color: Option<[u8; 3]>)
    ensures
        color == hex_color(val@),
{
    let c = chars_of(val);
    if c.len() != 6 {
        return None;
    }
    let r = color_byte(c[0], c[1]);
    let g = color_byte(c[2], c[3]);
    let b = color_byte(c[4], c[5]);
    match (r, g, b) {
        (Some(r), Some(g), Some(b)) => Some([r, g, b]),
        _ => None,
    }
}

/// The alignment that a justification value names: `center`; `right` or
/// `end`; `both` for justified text; anything else is left.
pub open spec fn alignment_of(s: Seq<char>) -> Alignment {
    if s == seq!['c', 'e', 'n', 't', 'e', 'r'] {
        Alignment::Center
    } else if s == seq!['r', 'i', 'g', 'h', 't'] || s == seq!['e', 'n', 'd'] {
        Alignment::Right
    } else if s == seq!['b', 'o', 't', 'h'] {
        Alignment::Justify
    } else {
        Alignment::Left
    }
}

pub fn parse_alignment(val: &str) -> (a: Alignment)
    ensures
        a == alignment_of(val@),
{
    proof {
        reveal_strlit("center");
        reveal_strlit("right");
        reveal_strlit("end");
        reveal_strlit("both");
        assert("center"@ =~= seq!['c', 'e', 'n', 't', 'e', 'r']);
        assert("right"@ =~= seq!['r', 'i', 'g', 'h', 't']);
        assert("end"@ =~= seq!['e', 'n', 'd']);
        assert("both"@ =~= seq!['b', 'o', 't', 'h']);
    }
    if str_equal(val, "center") {
        Alignment::Center
    } else if str_equal(val, "right") || str_equal(val, "end") {
        Alignment::Right
    } else if str_equal(val, "both") {
        Alignment::Justify
    } else {
        Alignment::Left
    }
}

/// The heading and body fonts of a document's theme.
#[derive(Debug)]
pub struct ThemeFonts {
    pub major: String,
    pub minor: String,
}

/// The family that a font reference names: the explicit family if there is
/// one; else the theme's heading font for `majorHAnsi` and its body font for
/// `minorHAnsi`; else the default.
pub open spec fn resolved_font(
    ascii: Option<Seq<char>>,
    ascii_theme: Option<Seq<char>>,
    major: Seq<char>,
    minor: Seq<char>,
    default_font: Seq<char>,
) -> Seq<char> {
    match ascii {
        Some(f) => f,
        None => match ascii_theme {
            Some(t) => if t == seq!['m', 'a', 'j', 'o', 'r', 'H', 'A', 'n', 's', 'i'] {
                major
            } else if t == seq!['m', 'i', 'n', 'o', 'r', 'H', 'A', 'n', 's', 'i'] {
                minor
            } else {
                default_font
            },
            None => default_font,
        },
    }
}

pub open spec fn opt_text(s: Option<&str>) -> Option<Seq<char>> {
    match s {
        Some(t) => Some(t@),
        None => None,
    }
}

pub fn resolve_font(
    ascii: Option<&str>,
    ascii_theme: Option<&str>,
    theme: &ThemeFonts,
    default_font: &str,
) -> (family: String)
    ensures
        family@ == resolved_font(
            opt_text(ascii),
            opt_text(ascii_theme),
            theme.major@,
            theme.minor@,
            default_font@,
        ),
{
    proof {
        reveal_strlit("majorHAnsi");
        reveal_strlit("minorHAnsi");
        assert("majorHAnsi"@ =~= seq!['m', 'a', 'j', 'o', 'r', 'H', 'A', 'n', 's', 'i']);
        assert("minorHAnsi"@ =~= seq!['m', 'i', 'n', 'o', 'r', 'H', 'A', 'n', 's', 'i']);
    }
    match ascii {
        Some(f) => String::from_str(f),
        None => match ascii_theme {
            Some(t) => {
                if str_equal(t, "majorHAnsi") {
                    theme.major.clone()
                } else if str_equal(t, "minorHAnsi") {
                    theme.minor.clone()
                } else {
                    String::from_str(default_font)
                }
            },
            None => String::from_str(default_font),
        },
    }
}

/// The values of the hexadecimal digits of a text, other characters left out.
pub open spec fn hex_digits(s: Seq<char>) -> Seq<int>
    decreases s.len(),
{
    if s.len() == 0 {
        Seq::empty()
    } else {
        match hex_digit(s.last()) {
            Some(d) => hex_digits(s.drop_last()).push(d),
            None => hex_digits(s.drop_last()),
        }
    }
}

/// Where the `k`-th byte of a key stands among the sixteen bytes that a GUID
/// spells. The first three fields of a GUID are stored low byte first, the
/// rest as spelled; the key is that layout backwards.
pub open spec fn key_source(k: int) -> int {
    let j = 15 - k;
    if j < 4 {
        3 - j
    } else if j < 6 {
        9 - j
    } else if j < 8 {
        13 - j
    } else {
        j
    }
}

/// The key that a GUID spells, if it holds exactly 32 hexadecimal digits.
pub open spec fn guid_key(s: Seq<char>) -> Option<Seq<u8>> {
    let d = hex_digits(s);
    if d.len() != 32 {
        None
    } else {
        Some(
            Seq::new(
                16,
                |k: int| (d[2 * key_source(k)] * 16 + d[2 * key_source(k) + 1]) as u8,
            ),
        )
    }
}

/// Reads the key of an obfuscated font from its GUID, such as
/// `{302EE813-EB4A-4642-A93A-89EF99B2457E}`.
pub fn parse_guid_to_bytes(guid: &str) -> (key: Option<[u8; 16]>)
    ensures
        match key {
            Some(k) => guid_key(guid@) == Some(k@),
            None => guid_key(guid@) is None,
        },
{
    let c = chars_of(guid);
    let mut digits: Vec<u8> = Vec::new();
    let mut i: usize = 0;
    while i < c.len()
        invariant
            i <= c.len(),
            digits@.len() <= i,
            digits@.len() == hex_digits(c@.take(i as int)).len(),
            forall|k: int| 0 <= k < digits@.len() ==> digits@[k] as int == hex_digits(
                c@.take(i as int),
            )[k] && digits@[k] < 16,
        decreases c.len() - i,
    {
        proof {
            assert(c@.take(i as int + 1).drop_last() =~= c@.take(i as int));
        }
        match hex_value(c[i]) {
            Some(d) => digits.push(d),
            None => {},
        }
        i += 1;
    }
    proof {
        assert(c@.take(c.len() as int) =~= c@);
    }
    if digits.len() != 32 {
        return None;
    }
    let mut key: [u8; 16] = [0u8; 16];
    let mut k: usize = 0;
    while k < 16
        invariant
            k <= 16,
            digits@.len() == 32,
            forall|n: int| 0 <= n < 32 ==> digits@[n] as int == hex_digits(guid@)[n] && digits@[n]
                < 16,
            hex_digits(guid@).len() == 32,
            forall|n: int|
                0 <= n < k ==> key@[n] == guid_key(guid@).unwrap()[n],
        decreases 16 - k,
    {
        let j: usize = 15 - k;
        let src: usize = if j < 4 {
            3 - j
        } else if j < 6 {
            9 - j
        } else if j < 8 {
            13 - j
        } else {
            j
        };
        let b: u8 = digits[2 * src] * 16 + digits[2 * src + 1];
        key[k] = b;
        k += 1;
    }
    Some(key)
}

/// The bytes of a font after its first 32 bytes are combined with the key,
/// byte by byte, the key used twice over.
pub open spec fn deobfuscated(data: Seq<u8>, key: Seq<u8>) -> Seq<u8> {
    Seq::new(
        data.len(),
        |i: int|
            if i < 32 {
                data[i] ^ key[i % 16]
            } else {
                data[i]
            },
    )
}

/// Restores an obfuscated font in place.
pub fn deobfuscate_font(data: &mut Vec<u8>, key: &[u8; 16])
    ensures
        final(data)@ == deobfuscated(old(data)@, key@),
{
    let n: usize = if data.len() < 32 {
        data.len()
    } else {
        32
    };
    let mut i: usize = 0;
    while i < n
        invariant
            i <= n <= 32,
            n <= data@.len(),
            data@.len() == old(data)@.len(),
            forall|k: int| 0 <= k < i ==> data@[k] == old(data)@[k] ^ key@[k % 16],
            forall|k: int| i <= k < data@.len() ==> data@[k] == old(data)@[k],
        decreases n - i,
    {
        let b: u8 = data[i] ^ key[i % 16];
        data.set(i, b);
        i += 1;
    }
}

/// Obfuscation is its own inverse.
pub proof fn lemma_deobfuscate_twice(data: Seq<u8>, key: Seq<u8>)
    ensures
        deobfuscated(deobfuscated(data, key), key) == data,
{
    let once = deobfuscated(data, key);
    let twice = deobfuscated(once, key);
    assert forall|i: int| 0 <= i < data.len() implies twice[i] == data[i] by {
        if i < 32 {
            let a = data[i];
            let k = key[i % 16];
            assert((a ^ k) ^ k == a) by (bit_vector);
        }
    }
}

/// A 16-bit number, high byte first.
pub open spec fn be16(hi: u8, lo: u8) -> int {
    hi as int * 256 + lo as int
}

/// Whether a marker starts a frame header that states the image's size.
pub open spec fn is_frame_marker(m: u8) -> bool {
    m == 0xC0 || m == 0xC1 || m == 0xC2
}

/// Walks the segments of a JPEG file from offset `i`, each as long as it
/// says: the first baseline, extended or progressive frame header gives width
/// and height; the end-of-image marker, a byte that is no marker, or the end
/// of the data give none.
pub open spec fn jpeg_scan(d: Seq<u8>, i: int) -> Option<(u32, u32)>
    decreases d.len() - i,
{
    if 0 <= i && i + 4 < d.len() {
        if d[i] != 0xFF {
            None
        } else if d[i + 1] == 0xD9 {
            None
        } else if is_frame_marker(d[i + 1]) && i + 9 < d.len() {
            Some((be16(d[i + 7], d[i + 8]) as u32, be16(d[i + 5], d[i + 6]) as u32))
        } else {
            let next = i + 2 + be16(d[i + 2], d[i + 3]);
            if next <= d.len() {
                jpeg_scan(d, next)
            } else {
                None
            }
        }
    } else {
        None
    }
}

/// The width and height that a JPEG file states.
pub open spec fn jpeg_size(d: Seq<u8>) -> Option<(u32, u32)> {
    if d.len() < 2 || d[0] != 0xFF || d[1] != 0xD8 {
        None
    } else {
        jpeg_scan(d, 2)
    }
}

pub fn jpeg_dimensions(data: &Vec<u8>) -> (size: Option<(u32, u32)>)
    ensures
        size == jpeg_size(data@),
{
    let n = data.len();
    if n < 2 || data[0] != 0xFF || data[1] != 0xD8 {
        return None;
    }
    let mut i: usize = 2;
    while n - i > 4
        invariant
            n == data@.len(),
            2 <= i <= n,
            jpeg_size(data@) == jpeg_scan(data@, i as int),
        decreases n - i,
    {
        if data[i] != 0xFF {
            return None;
        }
        let marker = data[i + 1];
        if marker == 0xD9 {
            return None;
        }
        let len: usize = (data[i + 2] as usize) * 256 + (data[i + 3] as usize);
        if (marker == 0xC0 || marker == 0xC1 || marker == 0xC2) && n - i > 9 {
            let height: u32 = (data[i + 5] as u32) * 256 + (data[i + 6] as u32);
            let width: u32 = (data[i + 7] as u32) * 256 + (data[i + 8] as u32);
            return Some((width, height));
        }
        if len + 2 >= n - i {
            assert(jpeg_scan(data@, n as int) is None);
            return None;
        }
        i = i + 2 + len;
    }
    None
}

} // verus!
