//! The 3200-byte textual header: 40 card images of 80 bytes each, in EBCDIC
//! or ASCII.

use crate::error::AppError;
use crate::utils::{
    ascii_to_text, detect_text_encoding, detected_encoding, ebcdic_to_ascii, encoded_text,
    TextEncoding,
};
use vstd::prelude::*;
use vstd::slice::{slice_subrange, slice_to_vec};
use vstd::string::StringExecFns;

verus! {

/// Size of the textual header in bytes.
pub const TEXTUAL_HEADER_SIZE: usize = 3200;

/// The text of the 40 card images of a header, each decoded in the encoding
/// detected in the header as a whole.
pub open spec fn card_texts(data: Seq<u8>) -> Seq<Seq<char>> {
    Seq::new(
        40,
        |card: int|
            encoded_text(data.subrange(card * 80, card * 80 + 80), detected_encoding(data)),
    )
}

/// The text of a list of lines.
pub open spec fn line_texts(lines: Seq<String>) -> Seq<Seq<char>> {
    Seq::new(lines.len(), |i: int| lines[i]@)
}

/// A textual header: the raw bytes, the encoding detected in them, and the
/// card images as lines of text.
#[derive(Debug)]
pub struct TextualHeader {
    /// The raw bytes, EBCDIC or ASCII as they were given.
    pub raw_data: Vec<u8>,
    /// The encoding detected in the raw bytes.
    pub encoding: TextEncoding,
    /// The card images as text, followed by the lines of any extended
    /// textual headers.
    pub lines: Vec<String>,
}

impl TextualHeader {
    /// Size of the textual header in bytes.
    pub const SIZE: usize = 3200;

    /// Number of card images.
    pub const CARD_COUNT: usize = 40;

    /// Bytes per card image.
    pub const CARD_SIZE: usize = 80;

    /// The lines of the header as text.
    pub open spec fn text(self) -> Seq<Seq<char>> {
        line_texts(self.lines@)
    }

    /// Builds a header from exactly 3200 bytes: detects the encoding of the
    /// header and converts each card image to a line of text by it. Any
    /// other length is an error.
    pub fn new(data: Vec<u8>) -> (parsed: Result<TextualHeader, String>)
        ensures
            parsed is Ok <==> data@.len() == 3200,
            parsed matches Ok(header) ==> {
                &&& header.raw_data@ == data@
                &&& header.encoding == detected_encoding(data@)
                &&& header.text() == card_texts(data@)
            },
    {
        if data.len() != 3200 {
            return Err(
                String::from_str("Textual header must be exactly 3200 bytes, got ").concat(
                    data.len().to_string().as_str(),
                ),
            );
        }
        let encoding = detect_text_encoding(data.as_slice());
        let mut lines: Vec<String> = Vec::new();
        let mut card: usize = 0;
        while card < 40
            invariant
                card <= 40,
                data@.len() == 3200,
                lines@.len() == card,
                encoding == detected_encoding(data@),
                forall|i: int|
                    0 <= i < card ==> (#[trigger] lines@[i])@ == encoded_text(
                        data@.subrange(i * 80, i * 80 + 80),
                        encoding,
                    ),
            decreases 40 - card,
        {
            let start = card * 80;
            let card_bytes = slice_subrange(data.as_slice(), start, start + 80);
            let line = match encoding {
                TextEncoding::Ascii => ascii_to_text(card_bytes),
                TextEncoding::Ebcdic => ebcdic_to_ascii(card_bytes),
            };
            lines.push(line);
            card += 1;
        }
        let header = TextualHeader { raw_data: data, encoding, lines };
        assert(header.text() =~= card_texts(data@));
        Ok(header)
    }

    /// Reads a header from the first 3200 bytes of `reader`. Fewer bytes are
    /// a `SegyError`.
    pub fn from_reader(reader: &[u8]) -> (parsed: Result<TextualHeader, AppError>)
        ensures
            parsed is Ok <==> reader@.len() >= 3200,
            parsed matches Ok(header) ==> {
                &&& header.raw_data@ == reader@.subrange(0, 3200)
                &&& header.encoding == detected_encoding(reader@.subrange(0, 3200))
                &&& header.text() == card_texts(reader@.subrange(0, 3200))
            },
            parsed matches Err(error) ==> error is SegyError,
    {
        if reader.len() < 3200 {
            return Err(
                AppError::SegyError {
                    message: String::from_str("Textual header is shorter than 3200 bytes"),
                },
            );
        }
        let buffer = slice_to_vec(slice_subrange(reader, 0, 3200));
        match TextualHeader::new(buffer) {
            Ok(header) => Ok(header),
            Err(message) => Err(AppError::SegyError { message }),
        }
    }

    /// The raw bytes, EBCDIC or ASCII as they were given.
    pub fn raw_data(&self) -> (data: &[u8])
        ensures
            data@ == self.raw_data@,
    {
        self.raw_data.as_slice()
    }

    /// The detected encoding.
    pub fn encoding(&self) -> (encoding: TextEncoding)
        ensures
            encoding == self.encoding,
    {
        self.encoding
    }

    /// Appends the lines of an extended textual header.
    pub fn append_lines(&mut self, lines: Vec<String>)
        ensures
            final(self).raw_data@ == old(self).raw_data@,
            final(self).encoding == old(self).encoding,
            final(self).lines@ == old(self).lines@ + lines@,
    {
        let mut lines = lines;
        self.lines.append(&mut lines);
    }

    /// A copy of the header.
    pub fn clone(&self) -> (copy: TextualHeader)
        ensures
            copy.raw_data@ == self.raw_data@,
            copy.encoding == self.encoding,
            copy.lines@ == self.lines@,
    {
        let mut lines: Vec<String> = Vec::new();
        let mut i: usize = 0;
        while i < self.lines.len()
            invariant
                i <= self.lines@.len(),
                lines@ == self.lines@.take(i as int),
            decreases self.lines@.len() - i,
        {
            lines.push(self.lines[i].clone());
            i += 1;
        }
        TextualHeader { raw_data: self.raw_data.clone(), encoding: self.encoding, lines }
    }
}

impl Default for TextualHeader {
    /// A blank header: 3200 EBCDIC spaces and 40 empty lines.
    fn default() -> (header: TextualHeader)
        ensures
            header.raw_data@ == Seq::new(3200, |i: int| 0x40u8),
            header.encoding == TextEncoding::Ebcdic,
            header.text() == Seq::new(40, |i: int| Seq::<char>::empty()),
    {
        let raw_data = vec![0x40u8; 3200];
        let mut lines: Vec<String> = Vec::new();
        let mut card: usize = 0;
        while card < 40
            invariant
                card <= 40,
                lines@.len() == card,
                forall|i: int| 0 <= i < card ==> (#[trigger] lines@[i])@ == Seq::<char>::empty(),
            decreases 40 - card,
        {
            lines.push(String::new());
            card += 1;
        }
        let header = TextualHeader { raw_data, encoding: TextEncoding::Ebcdic, lines };
        assert(header.text() =~= Seq::new(40, |i: int| Seq::<char>::empty()));
        assert(header.raw_data@ =~= Seq::new(3200, |i: int| 0x40u8));
        header
    }
}

} // verus!
