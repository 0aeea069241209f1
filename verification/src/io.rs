//! Reading the file headers, and slicing and decoding trace blocks, from the
//! bytes of a file.

use crate::binary_header::{detected_byte_order, BinaryHeader, ByteOrder, DataSampleFormat};
use crate::error::AppError;
use crate::model::SegyFileConfig;
use crate::textual_header::{card_texts, TextualHeader};
use crate::trace::TraceBlock;
use crate::trace_data::TraceData;
use crate::utils::detected_encoding;
use crate::wire::i16_at;
use vstd::prelude::*;
use vstd::slice::slice_subrange;
use vstd::string::StringExecFns;

verus! {

/// Smallest size of a SEG-Y file: the textual and the binary header.
pub const MIN_SEGY_SIZE: u64 = 3600;

/// The headers of a file and its sizes.
#[derive(Debug)]
pub struct HeaderBundle {
    /// Textual header, with the lines of all extended textual headers.
    pub textual_header: TextualHeader,
    /// Binary header.
    pub binary_header: BinaryHeader,
    /// Size of all headers before the first trace.
    pub file_header_size: usize,
    /// File size in bytes.
    pub file_size: u64,
}

/// The number of extended textual headers that the binary header of a file
/// declares.
pub open spec fn declared_extensions(data: Seq<u8>) -> int {
    i16_at(data.subrange(3200, 3600), 304, detected_byte_order(data.subrange(3200, 3600)))
}

/// The lines of the first `count` extended textual headers of a file, which
/// follow the binary header as blocks of 3200 bytes.
pub open spec fn extension_texts(data: Seq<u8>, count: nat) -> Seq<Seq<char>>
    decreases count,
{
    if count == 0 {
        Seq::empty()
    } else {
        extension_texts(data, (count - 1) as nat) + card_texts(
            data.subrange(3600 + 3200 * (count - 1), 3600 + 3200 * count as int),
        )
    }
}

/// Whether the headers of a file can be read: the file holds a textual and
/// a decodable binary header, the declared number of extended textual
/// headers is not negative, and the file holds them all.
pub open spec fn headers_readable(data: Seq<u8>) -> bool {
    &&& data.len() >= 3600
    &&& BinaryHeader::decodable(data.subrange(3200, 3600))
    &&& declared_extensions(data) >= 0
    &&& data.len() >= 3600 + 3200 * declared_extensions(data)
}

/// Reads the textual header, the binary header and the extended textual
/// headers of a file, and checks the file's size against them.
///
/// A file shorter than its headers, or with a binary header that cannot be
/// decoded, is a `SegyError`; a negative number of extended textual headers
/// is a `ValidationError`.
pub fn read_headers(data: &[u8]) -> (read: Result<HeaderBundle, AppError>)
    ensures
        read is Ok <==> headers_readable(data@),
        read matches Ok(bundle) ==> {
            &&& bundle.file_size == data@.len()
            &&& bundle.file_header_size == 3600 + 3200 * declared_extensions(data@)
            &&& bundle.binary_header.holds(
                data@.subrange(3200, 3600),
                detected_byte_order(data@.subrange(3200, 3600)),
            )
            &&& bundle.textual_header.raw_data@ == data@.subrange(0, 3200)
            &&& bundle.textual_header.encoding == detected_encoding(data@.subrange(0, 3200))
            &&& bundle.textual_header.text() == card_texts(data@.subrange(0, 3200))
                + extension_texts(data@, declared_extensions(data@) as nat)
        },
        read matches Err(error) ==> if data@.len() >= 3600 && BinaryHeader::decodable(
            data@.subrange(3200, 3600),
        ) && declared_extensions(data@) < 0 {
            error is ValidationError
        } else {
            error is SegyError
        },
{
    let file_size = data.len() as u64;
    match ensure_min_file_size(file_size) {
        Ok(()) => {},
        Err(error) => {
            return Err(error);
        },
    }
    let mut textual_header = match TextualHeader::from_reader(slice_subrange(data, 0, 3200)) {
        Ok(header) => header,
        Err(error) => {
            return Err(
                AppError::SegyError {
                    message: String::from_str("Failed to read textual header: ").concat(
                        error.message().as_str(),
                    ),
                },
            );
        },
    };
    assert(data@.subrange(0, 3200).subrange(0, 3200) == data@.subrange(0, 3200));
    let binary_header = match BinaryHeader::from_reader(slice_subrange(data, 3200, 3600)) {
        Ok(header) => header,
        Err(error) => {
            return Err(
                AppError::SegyError {
                    message: String::from_str("Failed to parse binary header: ").concat(
                        error.message().as_str(),
                    ),
                },
            );
        },
    };
    assert(data@.subrange(3200, 3600).subrange(0, 400) == data@.subrange(3200, 3600));

    let extended_header_count = match extended_textual_header_count(&binary_header) {
        Ok(count) => count,
        Err(error) => {
            return Err(error);
        },
    };
    let file_header_size = match resolve_file_header_size(&binary_header) {
        Ok(size) => size,
        Err(error) => {
            return Err(error);
        },
    };
    if file_size < file_header_size as u64 {
        return Err(
            AppError::SegyError {
                message: String::from_str("File too small for declared headers"),
            },
        );
    }
    let mut read: usize = 0;
    while read < extended_header_count
        invariant
            read <= extended_header_count <= 32767,
            file_header_size == 3600 + 3200 * extended_header_count,
            file_header_size <= data@.len(),
            textual_header.raw_data@ == data@.subrange(0, 3200),
            textual_header.encoding == detected_encoding(data@.subrange(0, 3200)),
            textual_header.text() == card_texts(data@.subrange(0, 3200)) + extension_texts(
                data@,
                read as nat,
            ),
        decreases extended_header_count - read,
    {
        let start = 3600 + 3200 * read;
        let extended_header = match TextualHeader::from_reader(
            slice_subrange(data, start, start + 3200),
        ) {
            Ok(header) => header,
            Err(error) => {
                return Err(error);
            },
        };
        assert(data@.subrange(start as int, start + 3200).subrange(0, 3200) == data@.subrange(
            start as int,
            start + 3200,
        ));
        let ghost before = textual_header.text();
        textual_header.append_lines(extended_header.lines);
        assert(textual_header.text() =~= before + extended_header.text());
        read += 1;
    }

    Ok(HeaderBundle { textual_header, binary_header, file_header_size, file_size })
}

/// The number of traces in a file: the bytes after the headers divided by
/// the block size, rounded down. There is none to tell when the block size
/// is zero or larger than the file, or when the number does not fit the
/// machine's address range.
pub open spec fn total_traces(file_size: int, trace_block_size: int, file_header_size: int) -> Option<
    int,
> {
    let data_size = if file_size >= file_header_size {
        file_size - file_header_size
    } else {
        0
    };
    if trace_block_size <= 0 || trace_block_size > file_size || data_size / trace_block_size
        > usize::MAX {
        None
    } else {
        Some(data_size / trace_block_size)
    }
}

/// Computes the number of traces in a file from its size, the size of a
/// trace block and the size of the file headers.
pub fn compute_total_traces(file_size: u64, trace_block_size: usize, file_header_size: usize) -> (count:
    Option<usize>)
    ensures
        match total_traces(file_size as int, trace_block_size as int, file_header_size as int) {
            Some(total) => count == Some(total as usize),
            None => count is None,
        },
{
    if trace_block_size == 0 || trace_block_size as u64 > file_size {
        return None;
    }
    let data_size = if file_size >= file_header_size as u64 {
        file_size - file_header_size as u64
    } else {
        0
    };
    let count = data_size / trace_block_size as u64;
    if count > usize::MAX as u64 {
        None
    } else {
        Some(count as usize)
    }
}

/// Decodes a trace block, header and samples, from the bytes of the block.
///
/// More than 32767 samples per trace is a `ValidationError`; a block that
/// cannot be decoded is a `SegyError`.
pub fn parse_trace_block(
    trace_bytes: &[u8],
    format: DataSampleFormat,
    samples_per_trace: u16,
    byte_order: ByteOrder,
) -> (parsed: Result<TraceBlock, AppError>)
    ensures
        parsed is Ok <==> samples_per_trace <= 32767 && TraceBlock::decodable(
            trace_bytes@,
            format,
            Some(samples_per_trace as i16),
            byte_order,
        ),
        parsed matches Ok(block) ==> {
            &&& block.header.holds(trace_bytes@, byte_order)
            &&& block.data.format() == format
            &&& block.data.holds(
                trace_bytes@.subrange(240, trace_bytes@.len() as int),
                samples_per_trace as int,
            )
        },
        parsed matches Err(error) ==> if samples_per_trace > 32767 {
            error is ValidationError
        } else {
            error is SegyError
        },
{
    if samples_per_trace > 32767 {
        return Err(
            AppError::ValidationError {
                message: String::from_str("Samples per trace exceeds supported range: ").concat(
                    samples_per_trace.to_string().as_str(),
                ),
            },
        );
    }
    let samples = samples_per_trace as i16;
    match TraceBlock::from_reader(trace_bytes, format, Some(samples), byte_order) {
        Ok(block) => Ok(block),
        Err(error) => Err(
            AppError::SegyError {
                message: String::from_str("Trace parse failed: ").concat(error.message().as_str()),
            },
        ),
    }
}

/// Decodes the samples of a trace block, skipping its header.
///
/// A block that does not hold all the samples is a `SegyError`.
pub fn parse_trace_data(trace_bytes: &[u8], format: DataSampleFormat, samples_per_trace: u16) -> (parsed:
    Result<TraceData, AppError>)
    ensures
        parsed is Ok <==> 240 + samples_per_trace * format.width() <= trace_bytes@.len(),
        parsed matches Ok(samples) ==> {
            &&& samples.format() == format
            &&& samples.holds(
                trace_bytes@.subrange(240, 240 + samples_per_trace * format.width()),
                samples_per_trace as int,
            )
        },
        parsed matches Err(error) ==> error is SegyError,
{
    let samples = samples_per_trace as usize;
    let width = format.bytes_per_sample();
    assert(samples * width <= 65535 * 4) by (nonlinear_arith)
        requires
            samples <= 65535,
            width <= 4,
    ;
    let data_size = match samples.checked_mul(width) {
        Some(size) => size,
        None => {
            return Err(
                AppError::ValidationError { message: String::from_str("Trace data size overflow") },
            );
        },
    };
    let end = match 240usize.checked_add(data_size) {
        Some(end) => end,
        None => {
            return Err(
                AppError::ValidationError { message: String::from_str("Trace data end overflow") },
            );
        },
    };
    if end > trace_bytes.len() {
        return Err(
            AppError::SegyError { message: String::from_str("Trace data slice out of bounds") },
        );
    }
    let data_bytes = slice_subrange(trace_bytes, 240, end);
    match TraceData::from_reader(data_bytes, format, samples) {
        Ok(data) => Ok(data),
        Err(error) => Err(
            AppError::SegyError {
                message: String::from_str("Trace data parse failed: ").concat(
                    error.message().as_str(),
                ),
            },
        ),
    }
}

/// Checks that a file path is not empty. An empty path is a
/// `ValidationError`.
pub fn validate_file_path(file_path: &str) -> (checked: Result<(), AppError>)
    ensures
        checked is Ok <==> file_path@.len() > 0,
        checked matches Err(error) ==> error is ValidationError,
{
    if file_path.is_empty() {
        return Err(
            AppError::ValidationError { message: String::from_str("File path cannot be empty") },
        );
    }
    Ok(())
}

/// Checks that a file is large enough to hold the textual and the binary
/// header. A smaller file is a `SegyError`.
pub fn ensure_min_file_size(file_size: u64) -> (checked: Result<(), AppError>)
    ensures
        checked is Ok <==> file_size >= 3600,
        checked matches Err(error) ==> error is SegyError,
{
    if file_size < MIN_SEGY_SIZE {
        return Err(
            AppError::SegyError {
                message: String::from_str("File too small to be valid SEG-Y (").concat(
                    file_size.to_string().as_str(),
                ).concat(" bytes, minimum 3600 bytes)"),
            },
        );
    }
    Ok(())
}

/// Size of all headers before the first trace: 3600 bytes and 3200 more for
/// each extended textual header. A negative number of extended textual
/// headers is a `ValidationError`.
pub fn resolve_file_header_size(header: &BinaryHeader) -> (resolved: Result<usize, AppError>)
    ensures
        resolved is Ok <==> header.extended_textual_headers >= 0,
        resolved matches Ok(size) ==> size == 3600 + 3200 * header.extended_textual_headers,
        resolved matches Err(error) ==> error is ValidationError,
{
    let extended_count = match extended_textual_header_count(header) {
        Ok(count) => count,
        Err(error) => {
            return Err(error);
        },
    };
    let extended_size = match 3200usize.checked_mul(extended_count) {
        Some(size) => size,
        None => {
            return Err(
                AppError::ValidationError {
                    message: String::from_str("Extended textual header size overflow"),
                },
            );
        },
    };
    match 3600usize.checked_add(extended_size) {
        Some(size) => Ok(size),
        None => Err(
            AppError::ValidationError { message: String::from_str("File header size overflow") },
        ),
    }
}

/// The number of extended textual headers that a binary header declares. A
/// negative number is a `ValidationError`.
pub fn extended_textual_header_count(header: &BinaryHeader) -> (declared: Result<usize, AppError>)
    ensures
        declared is Ok <==> header.extended_textual_headers >= 0,
        declared matches Ok(count) ==> count == header.extended_textual_headers,
        declared matches Err(error) ==> error is ValidationError,
{
    let extended_textual_headers = header.extended_textual_headers;
    if extended_textual_headers < 0 {
        return Err(
            AppError::ValidationError {
                message: String::from_str("Invalid extended textual header count: ").concat(
                    extended_textual_headers.to_string().as_str(),
                ),
            },
        );
    }
    Ok(extended_textual_headers as usize)
}

/// Whether a request for `count` traces from `start_index` on is in order:
/// a request for none always is; any other must lie within a known total
/// and needs a configuration with a block size.
pub open spec fn range_valid(
    config: SegyFileConfig,
    start_index: int,
    count: int,
    total_traces: Option<usize>,
) -> bool {
    count == 0 || {
        &&& total_traces matches Some(total) ==> start_index + count <= usize::MAX && start_index
            < total && start_index + count <= total
        &&& config.block_size() is Some
    }
}

/// Checks a request for a range of traces against the total number of
/// traces, where it is known, and against the configuration. A request that
/// is not in order is a `ValidationError`.
pub fn validate_trace_range(
    config: &SegyFileConfig,
    start_index: usize,
    count: usize,
    total_traces: Option<usize>,
) -> (checked: Result<(), AppError>)
    ensures
        checked is Ok <==> range_valid(*config, start_index as int, count as int, total_traces),
        checked matches Err(error) ==> error is ValidationError,
{
    if count == 0 {
        return Ok(());
    }
    if let Some(total) = total_traces {
        let end_index = match start_index.checked_add(count) {
            Some(end) => end,
            None => {
                return Err(
                    AppError::ValidationError {
                        message: String::from_str("Trace range end overflow"),
                    },
                );
            },
        };
        if start_index >= total || end_index > total {
            return Err(
                AppError::ValidationError {
                    message: String::from_str("Trace range exceeds total traces ").concat(
                        total.to_string().as_str(),
                    ),
                },
            );
        }
    }
    match config.trace_block_size() {
        Ok(_) => Ok(()),
        Err(error) => Err(error),
    }
}

/// A request that reaches beyond a known total of traces is refused, and a
/// request for no traces is always in order, wherever it starts.
pub proof fn lemma_range_validation(
    config: SegyFileConfig,
    start_index: int,
    count: int,
    total: usize,
)
    requires
        0 <= start_index,
        0 <= count,
    ensures
        start_index + count > total && count > 0 ==> !range_valid(
            config,
            start_index,
            count,
            Some(total),
        ),
        range_valid(config, start_index, 0, Some(total)),
        range_valid(config, start_index, 0, None),
{
}

} // verus!
