//! What is known of an open file, and the small configuration from which
//! trace sizes and offsets are computed.

use crate::binary_header::{BinaryHeader, ByteOrder, DataSampleFormat};
use crate::error::AppError;
use crate::textual_header::TextualHeader;
use crate::utils::TextEncoding;
use crate::wire::signed16;
use vstd::prelude::*;
use vstd::string::StringExecFns;

verus! {

/// Combined size of the textual and the binary header.
pub const FILE_HEADER_SIZE: usize = 3600;

/// The headers of a file and what was derived from them; no traces.
#[derive(Debug)]
pub struct SegyData {
    /// Textual file header.
    pub textual_header: TextualHeader,
    /// Binary file header.
    pub binary_header: BinaryHeader,
    /// Number of traces in the file, if it can be told.
    pub total_traces: Option<usize>,
    /// File size in bytes.
    pub file_size: u64,
    /// Encoding detected in the textual header.
    pub text_encoding: TextEncoding,
    /// Byte order detected in the binary header.
    pub byte_order: ByteOrder,
}

/// What is needed of the binary header to find and decode a trace.
#[derive(Debug, Clone, Copy)]
pub struct SegyFileConfig {
    /// Samples per trace.
    pub samples_per_trace: u16,
    /// Raw sample format code.
    pub data_sample_format: u16,
    /// Byte order of the file.
    pub byte_order: ByteOrder,
}

/// A 16-bit code read as a signed number.
fn code_as_i16(code: u16) -> (value: i16)
    ensures
        value == signed16(code as int),
{
    if code >= 0x8000 {
        (code as i32 - 0x1_0000) as i16
    } else {
        code as i16
    }
}

impl SegyFileConfig {
    /// The sample format that the configuration's code stands for, if any.
    pub open spec fn format(self) -> Option<DataSampleFormat> {
        DataSampleFormat::of_code(signed16(self.data_sample_format as int))
    }

    /// Size in bytes of one trace block, header and samples, for a
    /// configuration with at least one sample per trace and a known format.
    pub open spec fn block_size(self) -> Option<int> {
        if self.samples_per_trace == 0 {
            None
        } else {
            match self.format() {
                Some(format) => Some(240 + self.samples_per_trace * format.width()),
                None => None,
            }
        }
    }

    /// Byte offset of a trace in a file without extended textual headers.
    pub open spec fn position(self, trace_index: int) -> Option<int> {
        match self.block_size() {
            Some(size) => if 3600 + trace_index * size <= usize::MAX {
                Some(3600 + trace_index * size)
            } else {
                None
            },
            None => None,
        }
    }

    /// Derives the configuration from a binary header. A negative number of
    /// samples per trace is a `ValidationError`.
    pub fn from_binary_header(header: &BinaryHeader) -> (derived: Result<SegyFileConfig, AppError>)
        ensures
            derived is Ok <==> header.samples_per_trace >= 0,
            derived matches Ok(config) ==> {
                &&& config.samples_per_trace == header.samples_per_trace
                &&& config.data_sample_format == header.data_sample_format.code_of()
                &&& config.byte_order == header.byte_order
            },
            derived matches Err(error) ==> error is ValidationError,
    {
        if header.samples_per_trace < 0 {
            return Err(
                AppError::ValidationError {
                    message: String::from_str("Invalid samples per trace: ").concat(
                        header.samples_per_trace.to_string().as_str(),
                    ),
                },
            );
        }
        Ok(
            SegyFileConfig {
                samples_per_trace: header.samples_per_trace as u16,
                data_sample_format: header.data_sample_format.code() as u16,
                byte_order: header.byte_order,
            },
        )
    }

    /// Samples per trace as a signed 16-bit number. More than 32767 is a
    /// `ValidationError`.
    pub fn samples_per_trace_i16(&self) -> (converted: Result<i16, AppError>)
        ensures
            converted is Ok <==> self.samples_per_trace <= 32767,
            converted matches Ok(samples) ==> samples == self.samples_per_trace,
            converted matches Err(error) ==> error is ValidationError,
    {
        if self.samples_per_trace > 32767 {
            return Err(
                AppError::ValidationError {
                    message: String::from_str("Samples per trace exceeds supported range: ").concat(
                        self.samples_per_trace.to_string().as_str(),
                    ),
                },
            );
        }
        Ok(self.samples_per_trace as i16)
    }

    /// Size in bytes of one trace block: 240 bytes of header and the
    /// samples. No samples per trace, or an unknown format code, is a
    /// `ValidationError`.
    pub fn trace_block_size(&self) -> (computed: Result<usize, AppError>)
        ensures
            match self.block_size() {
                Some(size) => computed == Ok::<usize, AppError>(size as usize),
                None => computed matches Err(error) && error is ValidationError,
            },
    {
        if self.samples_per_trace == 0 {
            return Err(
                AppError::ValidationError {
                    message: String::from_str("Samples per trace must be greater than 0"),
                },
            );
        }
        let format = match self.data_sample_format_parsed() {
            Ok(format) => format,
            Err(error) => {
                return Err(error);
            },
        };
        let sample_size = format.bytes_per_sample();
        assert(self.samples_per_trace * sample_size <= 65535 * 4) by (nonlinear_arith)
            requires
                self.samples_per_trace <= 65535,
                sample_size <= 4,
        ;
        let trace_data_size = match (self.samples_per_trace as usize).checked_mul(sample_size) {
            Some(size) => size,
            None => {
                return Err(
                    AppError::ValidationError {
                        message: String::from_str("Trace data size overflow"),
                    },
                );
            },
        };
        match 240usize.checked_add(trace_data_size) {
            Some(size) => Ok(size),
            None => Err(
                AppError::ValidationError {
                    message: String::from_str("Trace block size overflow"),
                },
            ),
        }
    }

    /// Byte offset of a trace in a file without extended textual headers:
    /// 3600 plus the trace index times the block size. An offset beyond the
    /// machine's address range is a `ValidationError`, as is a
    /// configuration without a block size.
    pub fn calculate_trace_position(&self, trace_index: usize) -> (computed: Result<
        usize,
        AppError,
    >)
        ensures
            match self.position(trace_index as int) {
                Some(position) => computed == Ok::<usize, AppError>(position as usize),
                None => computed matches Err(error) && error is ValidationError,
            },
    {
        let block_size = match self.trace_block_size() {
            Ok(size) => size,
            Err(error) => {
                return Err(error);
            },
        };
        let offset = match trace_index.checked_mul(block_size) {
            Some(offset) => offset,
            None => {
                assert(trace_index * block_size > usize::MAX);
                return Err(
                    AppError::ValidationError {
                        message: String::from_str("Trace offset overflow"),
                    },
                );
            },
        };
        match 3600usize.checked_add(offset) {
            Some(position) => Ok(position),
            None => Err(
                AppError::ValidationError {
                    message: String::from_str("Trace position overflow"),
                },
            ),
        }
    }

    /// The sample format that the raw code stands for. An unknown code is a
    /// `ValidationError`.
    pub fn data_sample_format_parsed(&self) -> (parsed: Result<DataSampleFormat, AppError>)
        ensures
            match self.format() {
                Some(format) => parsed == Ok::<DataSampleFormat, AppError>(format),
                None => parsed matches Err(error) && error is ValidationError,
            },
    {
        match DataSampleFormat::from_code(code_as_i16(self.data_sample_format)) {
            Ok(format) => Ok(format),
            Err(reason) => Err(
                AppError::ValidationError {
                    message: String::from_str("Invalid data sample format: ").concat(
                        reason.as_str(),
                    ),
                },
            ),
        }
    }
}

} // verus!
