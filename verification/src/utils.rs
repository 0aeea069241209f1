//! Text encoding of the textual header: detection and conversion to ASCII.

use vstd::prelude::*;

verus! {

/// Encoding of the textual header.
#[derive(Debug, Clone, Copy, PartialEq, Eq, Structural)]
pub enum TextEncoding {
    /// EBCDIC: the standard.
    Ebcdic,
    /// ASCII.
    Ascii,
}

impl Default for TextEncoding {
    fn default() -> (encoding: TextEncoding)
        ensures
            encoding == TextEncoding::Ebcdic,
    {
        TextEncoding::Ebcdic
    }
}

/// EBCDIC 'C', the first byte of a card image in an EBCDIC header.
pub const EBCDIC_C: u8 = 0xC3;

/// ASCII 'C', the first byte of a card image in an ASCII header.
pub const ASCII_C: u8 = 0x43;

/// EBCDIC space.
pub const EBCDIC_SPACE: u8 = 0x40;

/// ASCII space.
pub const ASCII_SPACE: u8 = 0x20;

/// For each EBCDIC code, the code of the same character in ASCII-based
/// 8-bit encoding.
pub const EBCDIC_TO_ASCII_TABLE: [u8; 256] = [
    0x00, 0x01, 0x02, 0x03, 0x9C, 0x09, 0x86, 0x7F,
    0x97, 0x8D, 0x8E, 0x0B, 0x0C, 0x0D, 0x0E, 0x0F,
    0x10, 0x11, 0x12, 0x13, 0x9D, 0x85, 0x08, 0x87,
    0x18, 0x19, 0x92, 0x8F, 0x1C, 0x1D, 0x1E, 0x1F,
    0x80, 0x81, 0x82, 0x83, 0x84, 0x0A, 0x17, 0x1B,
    0x88, 0x89, 0x8A, 0x8B, 0x8C, 0x05, 0x06, 0x07,
    0x90, 0x91, 0x16, 0x93, 0x94, 0x95, 0x96, 0x04,
    0x98, 0x99, 0x9A, 0x9B, 0x14, 0x15, 0x9E, 0x1A,
    0x20, 0xA0, 0xE2, 0xE4, 0xE0, 0xE1, 0xE3, 0xE5,
    0xE7, 0xF1, 0xA2, 0x2E, 0x3C, 0x28, 0x2B, 0x7C,
    0x26, 0xE9, 0xEA, 0xEB, 0xE8, 0xED, 0xEE, 0xEF,
    0xEC, 0xDF, 0x21, 0x24, 0x2A, 0x29, 0x3B, 0x5E,
    0x2D, 0x2F, 0xC2, 0xC4, 0xC0, 0xC1, 0xC3, 0xC5,
    0xC7, 0xD1, 0xA6, 0x2C, 0x25, 0x5F, 0x3E, 0x3F,
    0xF8, 0xC9, 0xCA, 0xCB, 0xC8, 0xCD, 0xCE, 0xCF,
    0xCC, 0x60, 0x3A, 0x23, 0x40, 0x27, 0x3D, 0x22,
    0xD8, 0x61, 0x62, 0x63, 0x64, 0x65, 0x66, 0x67,
    0x68, 0x69, 0xAB, 0xBB, 0xF0, 0xFD, 0xFE, 0xB1,
    0xB0, 0x6A, 0x6B, 0x6C, 0x6D, 0x6E, 0x6F, 0x70,
    0x71, 0x72, 0xAA, 0xBA, 0xE6, 0xB8, 0xC6, 0xA4,
    0xB5, 0x7E, 0x73, 0x74, 0x75, 0x76, 0x77, 0x78,
    0x79, 0x7A, 0xA1, 0xBF, 0xD0, 0x5B, 0xDE, 0xAE,
    0xAC, 0xA3, 0xA5, 0xB7, 0xA9, 0xA7, 0xB6, 0xBC,
    0xBD, 0xBE, 0xDD, 0xA8, 0xAF, 0x5D, 0xB4, 0xD7,
    0x7B, 0x41, 0x42, 0x43, 0x44, 0x45, 0x46, 0x47,
    0x48, 0x49, 0xAD, 0xF4, 0xF6, 0xF2, 0xF3, 0xF5,
    0x7D, 0x4A, 0x4B, 0x4C, 0x4D, 0x4E, 0x4F, 0x50,
    0x51, 0x52, 0xB9, 0xFB, 0xFC, 0xF9, 0xFA, 0xFF,
    0x5C, 0xF7, 0x53, 0x54, 0x55, 0x56, 0x57, 0x58,
    0x59, 0x5A, 0xB2, 0xD4, 0xD6, 0xD2, 0xD3, 0xD5,
    0x30, 0x31, 0x32, 0x33, 0x34, 0x35, 0x36, 0x37,
    0x38, 0x39, 0xB3, 0xDB, 0xDC, 0xD9, 0xDA, 0x9F,
];

/// `String::push` of std: the character is appended to the string.
pub assume_specification[ String::push ](text: &mut String, ch: char)
    ensures
        final(text)@ == old(text)@.push(ch),
;

/// How often `byte` occurs in `data`.
pub open spec fn occurrences(data: Seq<u8>, byte: u8) -> nat
    decreases data.len(),
{
    if data.len() == 0 {
        0
    } else {
        occurrences(data.drop_last(), byte) + if data.last() == byte {
            1nat
        } else {
            0nat
        }
    }
}

/// How many of the first `cards` card images of `data` start with `byte`. A
/// card image starts every 80 bytes; one that lies beyond the data does not
/// count.
pub open spec fn card_starts(data: Seq<u8>, byte: u8, cards: nat) -> nat
    decreases cards,
{
    if cards == 0 {
        0
    } else {
        let at = (cards - 1) * 80;
        card_starts(data, byte, (cards - 1) as nat) + if at < data.len() && data[at] == byte {
            1nat
        } else {
            0nat
        }
    }
}

/// Whether one kind of space decides against the other: it occurs, and at
/// least twice as often as the other.
pub open spec fn outnumbers(spaces: nat, others: nat) -> bool {
    spaces > 0 && spaces >= 2 * others
}

/// The encoding that a header is taken to be written in. More than 10 card
/// images that start with an EBCDIC 'C' make it EBCDIC; failing that, more
/// than 10 that start with an ASCII 'C' make it ASCII; failing that, the
/// kind of space that occurs at least twice as often as the other decides,
/// EBCDIC first, and EBCDIC is the default.
pub open spec fn detected_encoding(data: Seq<u8>) -> TextEncoding {
    if data.len() == 0 {
        TextEncoding::Ebcdic
    } else if card_starts(data, EBCDIC_C, 40) > 10 {
        TextEncoding::Ebcdic
    } else if card_starts(data, ASCII_C, 40) > 10 {
        TextEncoding::Ascii
    } else if outnumbers(occurrences(data, EBCDIC_SPACE), occurrences(data, ASCII_SPACE)) {
        TextEncoding::Ebcdic
    } else if outnumbers(occurrences(data, ASCII_SPACE), occurrences(data, EBCDIC_SPACE)) {
        TextEncoding::Ascii
    } else {
        TextEncoding::Ebcdic
    }
}

/// A byte as text: itself if it is a newline or printable ASCII (0x20 to
/// 0x7E), a space otherwise.
pub open spec fn printable(byte: u8) -> char {
    if byte == 0x0A || (0x20 <= byte && byte <= 0x7E) {
        byte as char
    } else {
        ' '
    }
}

/// An EBCDIC byte as text.
pub open spec fn ebcdic_char(byte: u8) -> char {
    printable(EBCDIC_TO_ASCII_TABLE[byte as int])
}

/// EBCDIC bytes as text, byte by byte.
pub open spec fn ebcdic_text(data: Seq<u8>) -> Seq<char> {
    Seq::new(data.len(), |i: int| ebcdic_char(data[i]))
}

/// ASCII bytes as text, byte by byte.
pub open spec fn ascii_text(data: Seq<u8>) -> Seq<char> {
    Seq::new(data.len(), |i: int| printable(data[i]))
}

/// Bytes as text in a given encoding.
pub open spec fn encoded_text(data: Seq<u8>, encoding: TextEncoding) -> Seq<char> {
    match encoding {
        TextEncoding::Ascii => ascii_text(data),
        TextEncoding::Ebcdic => ebcdic_text(data),
    }
}

/// Bytes as text, in the encoding detected in these same bytes.
pub open spec fn decoded_text(data: Seq<u8>) -> Seq<char> {
    encoded_text(data, detected_encoding(data))
}

/// Counts the occurrences of `byte` in `data`.
fn count_byte(data: &[u8], byte: u8) -> (count: usize)
    ensures
        count == occurrences(data@, byte),
{
    let mut count: usize = 0;
    let mut i: usize = 0;
    while i < data.len()
        invariant
            i <= data@.len(),
            count <= i,
            count == occurrences(data@.take(i as int), byte),
        decreases data@.len() - i,
    {
        assert(data@.take(i as int + 1).drop_last() == data@.take(i as int));
        if data[i] == byte {
            count += 1;
        }
        i += 1;
    }
    assert(data@.take(i as int) == data@);
    count
}

/// Counts the card images among the first 40 that start with `byte`.
fn count_card_starts(data: &[u8], byte: u8) -> (count: usize)
    ensures
        count == card_starts(data@, byte, 40),
{
    let mut count: usize = 0;
    let mut card: usize = 0;
    while card < 40
        invariant
            card <= 40,
            count <= card,
            count == card_starts(data@, byte, card as nat),
        decreases 40 - card,
    {
        let idx = card * 80;
        if idx < data.len() && data[idx] == byte {
            count += 1;
        }
        card += 1;
    }
    count
}

/// Detects whether a textual header is EBCDIC or ASCII.
pub fn detect_text_encoding(data: &[u8]) -> (encoding: TextEncoding)
    ensures
        encoding == detected_encoding(data@),
{
    if data.len() == 0 {
        return TextEncoding::Ebcdic;
    }
    let ebcdic_space_count = count_byte(data, EBCDIC_SPACE);
    let ascii_space_count = count_byte(data, ASCII_SPACE);
    let ebcdic_c_count = count_card_starts(data, EBCDIC_C);
    let ascii_c_count = count_card_starts(data, ASCII_C);

    if ebcdic_c_count > 10 {
        return TextEncoding::Ebcdic;
    }
    if ascii_c_count > 10 {
        return TextEncoding::Ascii;
    }
    if ebcdic_space_count > 0 && ebcdic_space_count as u128 >= ascii_space_count as u128 * 2 {
        TextEncoding::Ebcdic
    } else if ascii_space_count > 0 && ascii_space_count as u128 >= ebcdic_space_count as u128
        * 2 {
        TextEncoding::Ascii
    } else {
        TextEncoding::Ebcdic
    }
}

/// A byte as a character of the output text.
fn printable_char(byte: u8) -> (ch: char)
    ensures
        ch == printable(byte),
{
    if byte == 0x0A || (0x20 <= byte && byte <= 0x7E) {
        byte as char
    } else {
        ' '
    }
}

/// Converts EBCDIC bytes to text. What is not printable ASCII or a newline
/// after conversion becomes a space.
pub fn ebcdic_to_ascii(ebcdic: &[u8]) -> (text: String)
    ensures
        text@ == ebcdic_text(ebcdic@),
{
    let mut text = String::new();
    let mut i: usize = 0;
    while i < ebcdic.len()
        invariant
            i <= ebcdic@.len(),
            text@ == ebcdic_text(ebcdic@.take(i as int)),
        decreases ebcdic@.len() - i,
    {
        let ascii = EBCDIC_TO_ASCII_TABLE[ebcdic[i] as usize];
        text.push(printable_char(ascii));
        i += 1;
        assert(text@ == ebcdic_text(ebcdic@.take(i as int)));
    }
    assert(ebcdic@.take(i as int) == ebcdic@);
    text
}

/// Converts ASCII bytes to text. What is not printable or a newline becomes
/// a space.
pub fn ascii_to_text(data: &[u8]) -> (text: String)
    ensures
        text@ == ascii_text(data@),
{
    let mut text = String::new();
    let mut i: usize = 0;
    while i < data.len()
        invariant
            i <= data@.len(),
            text@ == ascii_text(data@.take(i as int)),
        decreases data@.len() - i,
    {
        text.push(printable_char(data[i]));
        i += 1;
        assert(text@ == ascii_text(data@.take(i as int)));
    }
    assert(data@.take(i as int) == data@);
    text
}

/// Converts text bytes to a string, in the encoding detected in them.
pub fn text_to_ascii(data: &[u8]) -> (text: String)
    ensures
        text@ == decoded_text(data@),
{
    match detect_text_encoding(data) {
        TextEncoding::Ascii => ascii_to_text(data),
        TextEncoding::Ebcdic => ebcdic_to_ascii(data),
    }
}

/// A header in which at least 11 of the 40 card images start with an EBCDIC
/// 'C' is detected as EBCDIC. One in which at least 11 start with an ASCII
/// 'C' is detected as ASCII, unless more than 10 start with an EBCDIC 'C',
/// which is looked at first.
pub proof fn lemma_card_starts_decide(data: Seq<u8>)
    ensures
        card_starts(data, EBCDIC_C, 40) >= 11 ==> detected_encoding(data) == TextEncoding::Ebcdic,
        card_starts(data, ASCII_C, 40) >= 11 && card_starts(data, EBCDIC_C, 40) <= 10
            ==> detected_encoding(data) == TextEncoding::Ascii,
{
    if data.len() == 0 {
        lemma_no_card_starts_in_nothing(data, EBCDIC_C, 40);
        lemma_no_card_starts_in_nothing(data, ASCII_C, 40);
    }
}

/// No card image starts in an empty buffer.
proof fn lemma_no_card_starts_in_nothing(data: Seq<u8>, byte: u8, cards: nat)
    requires
        data.len() == 0,
    ensures
        card_starts(data, byte, cards) == 0,
    decreases cards,
{
    if cards > 0 {
        lemma_no_card_starts_in_nothing(data, byte, (cards - 1) as nat);
    }
}

} // verus!
