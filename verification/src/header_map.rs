//! The fields of a trace header read by a field table: each field's bytes
//! decoded by its type tag.

use crate::binary_header::ByteOrder;
use crate::error::AppError;
use crate::header_spec::HeaderFieldSpec;
use crate::wire::{i16_at, i32_at, read_i16, read_i32, read_u16, read_u32, read_u64, u16_at, u32_at, u64_at};
use vstd::prelude::*;
use vstd::slice::slice_subrange;
use vstd::string::StringExecFns;

verus! {

/// The value of a header field.
#[derive(Debug, PartialEq)]
pub enum FieldValue {
    /// A signed integer.
    Signed(i64),
    /// An unsigned integer.
    Unsigned(u64),
    /// A 64-bit IEEE 754 number, as its bit pattern.
    Float64(u64),
    /// Text.
    Text(String),
}

/// How the bytes of a field are read.
#[derive(Debug, Clone, Copy, PartialEq, Eq, Structural)]
pub enum FieldKind {
    /// Signed, 2 bytes.
    Int16,
    /// Signed, 4 bytes.
    Int32,
    /// Unsigned, 2 bytes.
    Uint16,
    /// Unsigned, 4 bytes.
    Uint32,
    /// Unsigned, 8 bytes.
    Uint64,
    /// IEEE 754 double precision, 8 bytes.
    Float64,
    /// Text of any length.
    Text,
}

/// What `str::to_lowercase` gives for a text.
pub uninterp spec fn lowercase_of(text: Seq<char>) -> Seq<char>;

/// What `String::from_utf8_lossy` gives for a run of bytes.
pub uninterp spec fn utf8_lossy(bytes: Seq<u8>) -> Seq<char>;

/// `str::to_lowercase` of std: the lowercase equivalent of the text, a
/// function of the text alone.
#[verifier::external_body]
fn to_lowercase(text: &str) -> (lowered: String)
    ensures
        lowered@ == lowercase_of(text@),
{
    text.to_lowercase()
}

/// `String::from_utf8_lossy` of std: the bytes as UTF-8 text, with the
/// replacement character for what is not UTF-8; a function of the bytes
/// alone.
#[verifier::external_body]
fn from_utf8_lossy(bytes: &[u8]) -> (text: String)
    ensures
        text@ == utf8_lossy(bytes@),
{
    String::from_utf8_lossy(bytes).into_owned()
}

/// Whether a byte is padding of a text field: NUL or a space.
pub open spec fn is_padding(byte: u8) -> bool {
    byte == 0 || byte == 0x20
}

/// Number of padding bytes at the start of a run of bytes.
pub open spec fn leading_padding(bytes: Seq<u8>) -> nat
    decreases bytes.len(),
{
    if bytes.len() > 0 && is_padding(bytes[0]) {
        1 + leading_padding(bytes.drop_first())
    } else {
        0
    }
}

/// Number of padding bytes at the end of a run of bytes.
pub open spec fn trailing_padding(bytes: Seq<u8>) -> nat
    decreases bytes.len(),
{
    if bytes.len() > 0 && is_padding(bytes.last()) {
        1 + trailing_padding(bytes.drop_last())
    } else {
        0
    }
}

/// A run of bytes without the padding at its start and at its end.
pub open spec fn trimmed(bytes: Seq<u8>) -> Seq<u8> {
    let start = leading_padding(bytes) as int;
    if start == bytes.len() {
        Seq::empty()
    } else {
        bytes.subrange(start, bytes.len() - trailing_padding(bytes))
    }
}

/// How a field of a type tag is read, given the tag in lowercase. Any tag
/// that names no number is text.
pub open spec fn kind_of(lowered: Seq<char>) -> FieldKind {
    if lowered == "int16"@ {
        FieldKind::Int16
    } else if lowered == "int32"@ {
        FieldKind::Int32
    } else if lowered == "uint16"@ {
        FieldKind::Uint16
    } else if lowered == "uint32"@ {
        FieldKind::Uint32
    } else if lowered == "uint64"@ {
        FieldKind::Uint64
    } else if lowered == "float64"@ {
        FieldKind::Float64
    } else {
        FieldKind::Text
    }
}

/// The bytes that a field of a kind needs.
pub open spec fn width_of(kind: FieldKind) -> int {
    match kind {
        FieldKind::Int16 => 2,
        FieldKind::Int32 => 4,
        FieldKind::Uint16 => 2,
        FieldKind::Uint32 => 4,
        FieldKind::Uint64 => 8,
        FieldKind::Float64 => 8,
        FieldKind::Text => 0,
    }
}

impl FieldValue {
    /// Whether this is what the bytes of a field hold, read as a kind: a
    /// number from the first bytes in the given byte order, or the bytes
    /// without padding as text.
    pub open spec fn holds(self, bytes: Seq<u8>, kind: FieldKind, order: ByteOrder) -> bool {
        match kind {
            FieldKind::Int16 => self == FieldValue::Signed(i16_at(bytes, 0, order) as i64),
            FieldKind::Int32 => self == FieldValue::Signed(i32_at(bytes, 0, order) as i64),
            FieldKind::Uint16 => self == FieldValue::Unsigned(u16_at(bytes, 0, order) as u64),
            FieldKind::Uint32 => self == FieldValue::Unsigned(u32_at(bytes, 0, order) as u64),
            FieldKind::Uint64 => self == FieldValue::Unsigned(u64_at(bytes, 0, order) as u64),
            FieldKind::Float64 => self == FieldValue::Float64(u64_at(bytes, 0, order) as u64),
            FieldKind::Text => self matches FieldValue::Text(text) && text@ == utf8_lossy(
                trimmed(bytes),
            ),
        }
    }
}

/// Finds how a field is read from its type tag in lowercase. Any tag that
/// names no number is text.
pub fn kind_of_tag(lowered: &str) -> (kind: FieldKind)
    ensures
        kind == kind_of(lowered@),
{
    let tag = String::from_str(lowered);
    if tag == String::from_str("int16") {
        FieldKind::Int16
    } else if tag == String::from_str("int32") {
        FieldKind::Int32
    } else if tag == String::from_str("uint16") {
        FieldKind::Uint16
    } else if tag == String::from_str("uint32") {
        FieldKind::Uint32
    } else if tag == String::from_str("uint64") {
        FieldKind::Uint64
    } else if tag == String::from_str("float64") {
        FieldKind::Float64
    } else {
        FieldKind::Text
    }
}

/// Finds how a field of a type tag is read. Case does not matter.
pub fn field_kind(data_type: &str) -> (kind: FieldKind)
    ensures
        kind == kind_of(lowercase_of(data_type@)),
{
    let lowered = to_lowercase(data_type);
    kind_of_tag(lowered.as_str())
}

/// Cuts the padding off both ends of a run of bytes.
pub fn trim_padding(bytes: &[u8]) -> (kept: &[u8])
    ensures
        kept@ == trimmed(bytes@),
{
    let mut start: usize = 0;
    assert(bytes@.subrange(0, bytes@.len() as int) == bytes@);
    while start < bytes.len() && (bytes[start] == 0 || bytes[start] == 0x20)
        invariant
            start <= bytes@.len(),
            leading_padding(bytes@) == start + leading_padding(
                bytes@.subrange(start as int, bytes@.len() as int),
            ),
        decreases bytes@.len() - start,
    {
        proof {
            let rest = bytes@.subrange(start as int, bytes@.len() as int);
            assert(rest.drop_first() == bytes@.subrange(start + 1, bytes@.len() as int));
        }
        start += 1;
    }
    if start == bytes.len() {
        assert(bytes@.subrange(start as int, bytes@.len() as int).len() == 0);
        return slice_subrange(bytes, 0, 0);
    }
    assert(leading_padding(bytes@) == start) by {
        let rest = bytes@.subrange(start as int, bytes@.len() as int);
        assert(rest[0] == bytes@[start as int]);
    }
    let mut end: usize = bytes.len();
    while end > start + 1 && (bytes[end - 1] == 0 || bytes[end - 1] == 0x20)
        invariant
            start < end <= bytes@.len(),
            !is_padding(bytes@[start as int]),
            trailing_padding(bytes@) == bytes@.len() - end + trailing_padding(
                bytes@.subrange(0, end as int),
            ),
        decreases end,
    {
        proof {
            let front = bytes@.subrange(0, end as int);
            assert(front.drop_last() == bytes@.subrange(0, end - 1));
            assert(front.last() == bytes@[end - 1]);
        }
        end -= 1;
    }
    assert(trailing_padding(bytes@.subrange(0, end as int)) == 0) by {
        let front = bytes@.subrange(0, end as int);
        assert(front.last() == bytes@[end - 1]);
    }
    slice_subrange(bytes, start, end)
}

/// Reads the value of a field from its bytes, as a kind.
///
/// A number needs as many bytes as its kind is wide; fewer are a
/// `SegyError`. Text needs none.
pub fn decode_field(bytes: &[u8], kind: FieldKind, byte_order: ByteOrder) -> (parsed: Result<
    FieldValue,
    AppError,
>)
    ensures
        parsed is Ok <==> bytes@.len() >= width_of(kind),
        parsed matches Ok(value) ==> value.holds(bytes@, kind, byte_order),
        parsed matches Err(error) ==> error is SegyError,
{
    let width: usize = match kind {
        FieldKind::Int16 => 2,
        FieldKind::Int32 => 4,
        FieldKind::Uint16 => 2,
        FieldKind::Uint32 => 4,
        FieldKind::Uint64 => 8,
        FieldKind::Float64 => 8,
        FieldKind::Text => 0,
    };
    if bytes.len() < width {
        return Err(short_field_error());
    }
    Ok(
        match kind {
            FieldKind::Int16 => FieldValue::Signed(read_i16(bytes, 0, byte_order) as i64),
            FieldKind::Int32 => FieldValue::Signed(read_i32(bytes, 0, byte_order) as i64),
            FieldKind::Uint16 => FieldValue::Unsigned(read_u16(bytes, 0, byte_order) as u64),
            FieldKind::Uint32 => FieldValue::Unsigned(read_u32(bytes, 0, byte_order) as u64),
            FieldKind::Uint64 => FieldValue::Unsigned(read_u64(bytes, 0, byte_order)),
            FieldKind::Float64 => FieldValue::Float64(read_u64(bytes, 0, byte_order)),
            FieldKind::Text => FieldValue::Text(from_utf8_lossy(trim_padding(bytes))),
        },
    )
}

/// Reads the value of a field from its bytes, by its type tag.
///
/// A number needs as many bytes as its type is wide; fewer are a
/// `SegyError`. Text needs none.
pub fn parse_field_value(bytes: &[u8], data_type: &str, byte_order: ByteOrder) -> (parsed: Result<
    FieldValue,
    AppError,
>)
    ensures
        parsed is Ok <==> bytes@.len() >= width_of(kind_of(lowercase_of(data_type@))),
        parsed matches Ok(value) ==> value.holds(
            bytes@,
            kind_of(lowercase_of(data_type@)),
            byte_order,
        ),
        parsed matches Err(error) ==> error is SegyError,
{
    decode_field(bytes, field_kind(data_type), byte_order)
}

/// The error of a field that is shorter than its type.
fn short_field_error() -> (error: AppError)
    ensures
        error matches AppError::SegyError { message } && message@
            == "Header parse failed: failed to fill whole buffer"@,
{
    AppError::SegyError {
        message: String::from_str("Header parse failed: failed to fill whole buffer"),
    }
}

/// The bytes of a field in a header: from the byte before `byte_start`,
/// counted from 1, up to `byte_end`, if that range lies in the header.
pub open spec fn field_bytes(header: Seq<u8>, field: HeaderFieldSpec) -> Option<Seq<u8>> {
    let start = if field.byte_start == 0 {
        0
    } else {
        field.byte_start - 1
    };
    if start <= field.byte_end <= header.len() {
        Some(header.subrange(start, field.byte_end as int))
    } else {
        None
    }
}

/// Whether a field of a table can be read from a header.
pub open spec fn field_readable(header: Seq<u8>, field: HeaderFieldSpec) -> bool {
    field_bytes(header, field) matches Some(bytes) && bytes.len() >= width_of(
        kind_of(lowercase_of(field.data_type@)),
    )
}

/// Whether an entry is a field's key with the field's value read from a
/// header.
pub open spec fn is_entry(
    entry: (String, FieldValue),
    header: Seq<u8>,
    field: HeaderFieldSpec,
    order: ByteOrder,
) -> bool {
    &&& entry.0@ == field.field_key@
    &&& entry.1.holds(
        field_bytes(header, field)->Some_0,
        kind_of(lowercase_of(field.data_type@)),
        order,
    )
}

/// Index of the last of the first `count` fields of a table that has the
/// key, or -1 if none has it.
pub open spec fn last_with_key(fields: Seq<HeaderFieldSpec>, count: int, key: Seq<char>) -> int
    decreases count,
{
    if count <= 0 {
        -1
    } else if fields[count - 1].field_key@ == key {
        count - 1
    } else {
        last_with_key(fields, count - 1, key)
    }
}

/// The keys of the first `count` fields of a table, each once, in the order
/// in which they first occur.
pub open spec fn distinct_keys(fields: Seq<HeaderFieldSpec>, count: int) -> Seq<Seq<char>>
    decreases count,
{
    if count <= 0 {
        Seq::empty()
    } else {
        let earlier = distinct_keys(fields, count - 1);
        if earlier.contains(fields[count - 1].field_key@) {
            earlier
        } else {
            earlier.push(fields[count - 1].field_key@)
        }
    }
}

/// The keys of a list of entries.
pub open spec fn entry_keys(values: Seq<(String, FieldValue)>) -> Seq<Seq<char>> {
    Seq::new(values.len(), |j: int| values[j].0@)
}

/// Whether a list of entries is a header read by the first `count` fields
/// of a table: one entry for each key, in the order in which the keys first
/// occur, with the value of the last field of that key.
pub open spec fn is_header_map(
    values: Seq<(String, FieldValue)>,
    header: Seq<u8>,
    fields: Seq<HeaderFieldSpec>,
    count: int,
    order: ByteOrder,
) -> bool {
    &&& entry_keys(values) == distinct_keys(fields, count)
    &&& forall|j: int, k: int|
        0 <= j < k < values.len() ==> (#[trigger] values[j]).0@ != (#[trigger] values[k]).0@
    &&& forall|j: int|
        0 <= j < values.len() ==> {
            let last = last_with_key(fields, count, (#[trigger] values[j]).0@);
            0 <= last < count && is_entry(values[j], header, fields[last], order)
        }
}

/// Finds the entry of a key.
fn find_entry(values: &Vec<(String, FieldValue)>, key: &String) -> (found: Option<usize>)
    ensures
        match found {
            Some(at) => at < values@.len() && values@[at as int].0@ == key@,
            None => forall|j: int| 0 <= j < values@.len() ==> (#[trigger] values@[j]).0@ != key@,
        },
{
    let mut at: usize = 0;
    while at < values.len()
        invariant
            at <= values@.len(),
            forall|j: int| 0 <= j < at ==> (#[trigger] values@[j]).0@ != key@,
        decreases values@.len() - at,
    {
        if values[at].0 == *key {
            return Some(at);
        }
        at += 1;
    }
    None
}

/// Reads the fields of a trace header by a field table: for each key of
/// the table, in the order in which the keys first occur, the key and the
/// value of its field. Where several fields have one key, the last of them
/// gives the value.
///
/// Fewer than 240 header bytes, a field that lies outside them, and a
/// number that is shorter than its type are a `SegyError`.
pub fn parse_trace_header_map(
    header_bytes: &[u8],
    fields: &Vec<HeaderFieldSpec>,
    byte_order: ByteOrder,
) -> (parsed: Result<Vec<(String, FieldValue)>, AppError>)
    ensures
        parsed is Ok <==> header_bytes@.len() >= 240 && forall|i: int|
            0 <= i < fields@.len() ==> field_readable(header_bytes@, #[trigger] fields@[i]),
        parsed matches Ok(values) ==> is_header_map(
            values@,
            header_bytes@,
            fields@,
            fields@.len() as int,
            byte_order,
        ),
        parsed matches Err(error) ==> error is SegyError,
{
    if header_bytes.len() < 240 {
        return Err(
            AppError::SegyError {
                message: String::from_str("Trace header bytes are incomplete"),
            },
        );
    }
    let mut values: Vec<(String, FieldValue)> = Vec::new();
    let mut i: usize = 0;
    assert(entry_keys(values@) =~= distinct_keys(fields@, 0));
    while i < fields.len()
        invariant
            i <= fields@.len(),
            header_bytes@.len() >= 240,
            forall|k: int| 0 <= k < i ==> field_readable(header_bytes@, #[trigger] fields@[k]),
            is_header_map(values@, header_bytes@, fields@, i as int, byte_order),
        decreases fields@.len() - i,
    {
        let field = &fields[i];
        let start = if field.byte_start == 0 {
            0
        } else {
            (field.byte_start - 1) as usize
        };
        let end = field.byte_end as usize;
        if start > end || end > header_bytes.len() {
            assert(!field_readable(header_bytes@, fields@[i as int]));
            return Err(
                AppError::SegyError {
                    message: String::from_str("Trace header slice out of bounds for ").concat(
                        field.field_key.as_str(),
                    ),
                },
            );
        }
        let slice = slice_subrange(header_bytes, start, end);
        let value = match parse_field_value(slice, field.data_type.as_str(), byte_order) {
            Ok(value) => value,
            Err(error) => {
                assert(!field_readable(header_bytes@, fields@[i as int]));
                return Err(error);
            },
        };
        let entry = (field.field_key.clone(), value);
        let ghost key = field.field_key@;
        let ghost before = values@;
        assert(is_entry(entry, header_bytes@, fields@[i as int], byte_order));
        match find_entry(&values, &field.field_key) {
            Some(at) => {
                values[at] = entry;
                proof {
                    assert(entry_keys(before)[at as int] == key);
                    assert(entry_keys(values@) =~= entry_keys(before));
                }
            },
            None => {
                values.push(entry);
                proof {
                    assert(!entry_keys(before).contains(key)) by {
                        if entry_keys(before).contains(key) {
                            let j = choose|j: int|
                                0 <= j < entry_keys(before).len() && entry_keys(before)[j] == key;
                            assert(before[j].0@ == key);
                        }
                    }
                    assert(entry_keys(values@) =~= entry_keys(before).push(key));
                }
            },
        }
        proof {
            assert forall|j: int| 0 <= j < values@.len() implies {
                let last = last_with_key(fields@, i + 1, (#[trigger] values@[j]).0@);
                0 <= last < i + 1 && is_entry(values@[j], header_bytes@, fields@[last], byte_order)
            } by {
                if values@[j].0@ != key {
                    assert(values@[j] == before[j]);
                }
            }
        }
        i += 1;
    }
    Ok(values)
}

} // verus!
