//! Random access to the traces of an open file.
//!
//! A reader is made once from the bytes of a file and keeps the decoded
//! headers. Each read takes the bytes of the file again, as the mapping of
//! the file hands them out, and checks every range against them.

use crate::binary_header::{detected_byte_order, BinaryHeader};
use crate::error::AppError;
use crate::io::{
    compute_total_traces, declared_extensions, extension_texts, headers_readable,
    parse_trace_block, parse_trace_data, range_valid, read_headers, total_traces,
    validate_file_path, validate_trace_range,
};
use crate::model::{SegyData, SegyFileConfig};
use crate::textual_header::{card_texts, TextualHeader};
use crate::trace::{truncated_to_i16, TraceBlock, TraceHeader};
use crate::trace_data::TraceData;
use crate::utils::detected_encoding;
use crate::wire::i16_at;
use vstd::prelude::*;
use vstd::slice::slice_subrange;
use vstd::string::StringExecFns;

verus! {

/// Byte offset of the trace `index` in a file whose headers take
/// `header_size` bytes and whose trace blocks take `block_size` bytes each.
pub open spec fn trace_offset(header_size: int, index: int, block_size: int) -> int {
    header_size + index * block_size
}

/// Whether `limited` is `full` under a sample limit: brought down to at most
/// `limit` samples, with the header's sample count set to the new count, if
/// the limit is given and not 0; else `full` itself.
pub open spec fn block_limited(limited: TraceBlock, full: TraceBlock, max_samples: Option<usize>) -> bool {
    match max_samples {
        Some(limit) => if limit == 0 {
            limited == full
        } else {
            &&& limited.data.is_downsampled(full.data, limit as int)
            &&& limited.header == (TraceHeader {
                num_samples: truncated_to_i16(limited.data.count() as int) as i16,
                ..full.header
            })
        },
        None => limited == full,
    }
}

/// Whether `limited` is `full` under a sample limit: brought down to at most
/// `limit` samples if the limit is given and not 0; else the same samples.
pub open spec fn data_limited(limited: TraceData, full: TraceData, max_samples: Option<usize>) -> bool {
    match max_samples {
        Some(limit) => if limit == 0 {
            limited.same_as(full)
        } else {
            limited.is_downsampled(full, limit as int)
        },
        None => limited.same_as(full),
    }
}

/// The decoded headers of a file and what is needed to find its traces.
#[derive(Debug)]
pub struct SegyReader {
    /// Path of the file.
    pub file_path: String,
    /// Size of the file in bytes.
    pub file_size: u64,
    /// Textual header, with the lines of all extended textual headers.
    pub textual_header: TextualHeader,
    /// Binary header.
    pub binary_header: BinaryHeader,
    /// Number of traces in the file, if it can be told.
    pub total_traces: Option<usize>,
    /// Configuration derived from the binary header.
    pub config: SegyFileConfig,
    /// Size of all headers before the first trace.
    pub file_header_size: usize,
}

impl SegyReader {
    /// Whether the reader's derived values follow from its headers: the
    /// configuration from the binary header, the header size from the
    /// number of extended textual headers, and the number of traces from
    /// the sizes.
    pub open spec fn wf(self) -> bool {
        &&& self.binary_header.samples_per_trace >= 0
        &&& self.binary_header.extended_textual_headers >= 0
        &&& self.config.samples_per_trace == self.binary_header.samples_per_trace
        &&& self.config.data_sample_format == self.binary_header.data_sample_format.code_of()
        &&& self.config.byte_order == self.binary_header.byte_order
        &&& self.file_header_size == 3600 + 3200 * self.binary_header.extended_textual_headers
        &&& self.file_size >= self.file_header_size
        &&& match self.config.block_size() {
            Some(size) => match total_traces(
                self.file_size as int,
                size,
                self.file_header_size as int,
            ) {
                Some(total) => self.total_traces == Some(total as usize),
                None => self.total_traces is None,
            },
            None => self.total_traces is None,
        }
    }

    /// Whether a file can be opened: its path is not empty, its headers can
    /// be read, and its number of samples per trace is not negative.
    pub open spec fn openable(file_path: Seq<char>, data: Seq<u8>) -> bool {
        &&& file_path.len() > 0
        &&& headers_readable(data)
        &&& i16_at(data.subrange(3200, 3600), 20, detected_byte_order(data.subrange(3200, 3600)))
            >= 0
    }

    /// Whether this is the reader that opening a file gives: its path and
    /// size, the binary header decoded from the file in the detected byte
    /// order, the textual header with the lines of all extended textual
    /// headers, and the values derived from them.
    pub open spec fn opened_from(self, file_path: Seq<char>, data: Seq<u8>) -> bool {
        &&& self.wf()
        &&& self.file_path@ == file_path
        &&& self.file_size == data.len()
        &&& self.file_header_size == 3600 + 3200 * declared_extensions(data)
        &&& self.binary_header.holds(
            data.subrange(3200, 3600),
            detected_byte_order(data.subrange(3200, 3600)),
        )
        &&& self.textual_header.raw_data@ == data.subrange(0, 3200)
        &&& self.textual_header.encoding == detected_encoding(data.subrange(0, 3200))
        &&& self.textual_header.text() == card_texts(data.subrange(0, 3200)) + extension_texts(
            data,
            declared_extensions(data) as nat,
        )
    }

    /// Whether a file that cannot be opened is refused for what was asked
    /// rather than for its structure: the path is empty, or the headers
    /// declare a negative number of extended textual headers or of samples
    /// per trace.
    pub open spec fn request_at_fault(file_path: Seq<char>, data: Seq<u8>) -> bool {
        file_path.len() == 0 || headers_readable(data) || (data.len() >= 3600
            && BinaryHeader::decodable(data.subrange(3200, 3600)) && declared_extensions(data)
            < 0)
    }

    /// Opens a file from its bytes: reads the headers, derives the
    /// configuration and counts the traces.
    ///
    /// An empty path or a negative number of samples per trace or of
    /// extended textual headers is a `ValidationError`; headers that cannot
    /// be read are a `SegyError`.
    pub fn open(file_path: &str, data: &[u8]) -> (opened: Result<SegyReader, AppError>)
        ensures
            opened is Ok <==> SegyReader::openable(file_path@, data@),
            opened matches Ok(reader) ==> reader.opened_from(file_path@, data@),
            opened matches Err(error) ==> if SegyReader::request_at_fault(file_path@, data@) {
                error is ValidationError
            } else {
                error is SegyError
            },
    {
        match validate_file_path(file_path) {
            Ok(()) => {},
            Err(error) => {
                return Err(error);
            },
        }
        let header_bundle = match read_headers(data) {
            Ok(bundle) => bundle,
            Err(error) => {
                return Err(error);
            },
        };
        let config = match SegyFileConfig::from_binary_header(&header_bundle.binary_header) {
            Ok(config) => config,
            Err(error) => {
                return Err(error);
            },
        };
        let total_traces = match config.trace_block_size() {
            Ok(size) => compute_total_traces(
                header_bundle.file_size,
                size,
                header_bundle.file_header_size,
            ),
            Err(_) => None,
        };
        Ok(
            SegyReader {
                file_path: String::from_str(file_path),
                file_size: header_bundle.file_size,
                textual_header: header_bundle.textual_header,
                binary_header: header_bundle.binary_header,
                total_traces,
                config,
                file_header_size: header_bundle.file_header_size,
            },
        )
    }

    /// The headers and what was derived from them.
    pub fn data(&self) -> (summary: SegyData)
        ensures
            summary.textual_header.raw_data@ == self.textual_header.raw_data@,
            summary.textual_header.encoding == self.textual_header.encoding,
            summary.textual_header.lines@ == self.textual_header.lines@,
            summary.binary_header.same_as(self.binary_header),
            summary.total_traces == self.total_traces,
            summary.file_size == self.file_size,
            summary.text_encoding == self.textual_header.encoding,
            summary.byte_order == self.binary_header.byte_order,
    {
        SegyData {
            textual_header: self.textual_header.clone(),
            binary_header: self.binary_header.clone(),
            total_traces: self.total_traces,
            file_size: self.file_size,
            text_encoding: self.textual_header.encoding(),
            byte_order: self.binary_header.byte_order,
        }
    }

    /// The path of the file.
    pub fn file_path(&self) -> (path: &str)
        ensures
            path@ == self.file_path@,
    {
        self.file_path.as_str()
    }

    /// The configuration used to find and decode traces.
    pub fn config(&self) -> (config: &SegyFileConfig)
        ensures
            *config == self.config,
    {
        &self.config
    }

    /// Whether a request for `count` traces from `start_index` on is in
    /// order whatever the file holds: the range is valid, and the byte
    /// offsets of all its traces fit the machine's address range.
    pub open spec fn request_valid(self, start_index: int, count: int) -> bool {
        &&& range_valid(self.config, start_index, count, self.total_traces)
        &&& self.config.block_size() matches Some(size) ==> trace_offset(
            self.file_header_size as int,
            start_index + count,
            size,
        ) <= usize::MAX
    }

    /// Whether the trace `trace_index` can be asked for whatever the file
    /// holds: it lies below a known total, the configuration has a block
    /// size, and the end of the trace fits the machine's address range.
    pub open spec fn index_valid(self, trace_index: int) -> bool {
        &&& self.total_traces matches Some(total) ==> trace_index < total
        &&& self.config.block_size() is Some
        &&& trace_offset(
            self.file_header_size as int,
            trace_index + 1,
            self.config.block_size()->Some_0,
        ) <= usize::MAX
    }

    /// The bytes of the trace block `trace_index` in a file.
    pub open spec fn block_bytes(self, data: Seq<u8>, trace_index: int) -> Seq<u8> {
        let size = self.config.block_size()->Some_0;
        data.subrange(
            trace_offset(self.file_header_size as int, trace_index, size),
            trace_offset(self.file_header_size as int, trace_index + 1, size),
        )
    }

    /// Whether `block` is what the trace block `trace_index` of a file
    /// decodes to, before any sample limit.
    pub open spec fn block_decoded(self, data: Seq<u8>, trace_index: int, block: TraceBlock) -> bool {
        let bytes = self.block_bytes(data, trace_index);
        &&& block.header.holds(bytes, self.config.byte_order)
        &&& Some(block.data.format()) == self.config.format()
        &&& block.data.holds(
            bytes.subrange(240, bytes.len() as int),
            self.config.samples_per_trace as int,
        )
    }

    /// Whether `samples` is what the samples of the trace block
    /// `trace_index` of a file decode to, before any sample limit.
    pub open spec fn samples_decoded(self, data: Seq<u8>, trace_index: int, samples: TraceData) -> bool {
        let bytes = self.block_bytes(data, trace_index);
        &&& Some(samples.format()) == self.config.format()
        &&& samples.holds(
            bytes.subrange(240, bytes.len() as int),
            self.config.samples_per_trace as int,
        )
    }

    /// Whether `block` is the trace `trace_index` of a file under a sample
    /// limit: what the trace block decodes to, with the limit applied.
    pub open spec fn is_trace(
        self,
        data: Seq<u8>,
        trace_index: int,
        max_samples: Option<usize>,
        block: TraceBlock,
    ) -> bool {
        exists|full: TraceBlock| #[trigger]
            self.block_decoded(data, trace_index, full) && block_limited(block, full, max_samples)
    }

    /// Whether `samples` are the samples of the trace `trace_index` of a
    /// file under a sample limit: what they decode to, with the limit
    /// applied.
    pub open spec fn is_samples(
        self,
        data: Seq<u8>,
        trace_index: int,
        max_samples: Option<usize>,
        samples: TraceData,
    ) -> bool {
        exists|full: TraceData| #[trigger]
            self.samples_decoded(data, trace_index, full) && data_limited(
                samples,
                full,
                max_samples,
            )
    }

    /// Whether the trace block `trace_index` of a file decodes: the file
    /// holds it, and its header does.
    pub open spec fn block_decodable(self, data: Seq<u8>, trace_index: int) -> bool {
        &&& self.config.samples_per_trace <= 32767
        &&& TraceHeader::decodable(self.block_bytes(data, trace_index), self.config.byte_order)
    }

    /// The bytes of one trace block of the file.
    ///
    /// An index at or beyond a known total of traces, a configuration
    /// without a block size, and an offset beyond the machine's address
    /// range are a `ValidationError`; a block that ends beyond the file is
    /// a `SegyError`.
    pub fn trace_slice<'a>(&self, data: &'a [u8], trace_index: usize) -> (sliced: Result<
        &'a [u8],
        AppError,
    >)
        ensures
            sliced is Ok <==> self.index_valid(trace_index as int) && trace_offset(
                self.file_header_size as int,
                trace_index + 1,
                self.config.block_size()->Some_0,
            ) <= data@.len(),
            sliced matches Ok(bytes) ==> bytes@ == self.block_bytes(data@, trace_index as int),
            sliced matches Err(error) ==> if self.index_valid(trace_index as int) {
                error is SegyError
            } else {
                error is ValidationError
            },
    {
        if let Some(total_traces) = self.total_traces {
            if trace_index >= total_traces {
                return Err(
                    AppError::ValidationError {
                        message: String::from_str("Trace index out of range: ").concat(
                            trace_index.to_string().as_str(),
                        ),
                    },
                );
            }
        }
        let trace_block_size = match self.config.trace_block_size() {
            Ok(size) => size,
            Err(error) => {
                return Err(error);
            },
        };
        let ghost size = trace_block_size as int;
        let ghost header = self.file_header_size as int;
        assert(trace_offset(header, trace_index + 1, size) == trace_offset(
            header,
            trace_index as int,
            size,
        ) + size) by (nonlinear_arith);
        assert(trace_index * size >= 0) by (nonlinear_arith)
            requires
                trace_index >= 0,
                size >= 0,
        ;
        let offset = match trace_index.checked_mul(trace_block_size) {
            Some(offset) => offset,
            None => {
                return Err(
                    AppError::ValidationError {
                        message: String::from_str("Trace offset overflow"),
                    },
                );
            },
        };
        let start = match self.file_header_size.checked_add(offset) {
            Some(start) => start,
            None => {
                return Err(
                    AppError::ValidationError {
                        message: String::from_str("Trace position overflow"),
                    },
                );
            },
        };
        let end = match start.checked_add(trace_block_size) {
            Some(end) => end,
            None => {
                return Err(
                    AppError::ValidationError {
                        message: String::from_str("Trace slice end overflow"),
                    },
                );
            },
        };
        if end > data.len() {
            return Err(
                AppError::SegyError {
                    message: String::from_str("Trace exceeds file size: ").concat(
                        trace_index.to_string().as_str(),
                    ),
                },
            );
        }
        Ok(slice_subrange(data, start, end))
    }

    /// Decodes one trace, header and samples, and applies the sample limit.
    ///
    /// Fails with `ValidationError` when the trace cannot be asked for, and
    /// with `SegyError` when the file does not hold it or it cannot be
    /// decoded.
    pub fn load_single_trace(&self, data: &[u8], trace_index: usize, max_samples: Option<usize>) -> (loaded:
        Result<TraceBlock, AppError>)
        ensures
            loaded is Ok <==> {
                &&& self.index_valid(trace_index as int)
                &&& trace_offset(
                    self.file_header_size as int,
                    trace_index + 1,
                    self.config.block_size()->Some_0,
                ) <= data@.len()
                &&& self.block_decodable(data@, trace_index as int)
            },
            loaded matches Ok(block) ==> self.is_trace(
                data@,
                trace_index as int,
                max_samples,
                block,
            ),
            loaded matches Err(error) ==> if self.index_valid(trace_index as int) {
                error is SegyError
            } else {
                error is ValidationError
            },
    {
        let trace_bytes = match self.trace_slice(data, trace_index) {
            Ok(bytes) => bytes,
            Err(error) => {
                return Err(error);
            },
        };
        let format = match self.config.data_sample_format_parsed() {
            Ok(format) => format,
            Err(error) => {
                return Err(error);
            },
        };
        proof {
            let size = self.config.block_size()->Some_0;
            assert(trace_offset(self.file_header_size as int, trace_index + 1, size)
                == trace_offset(self.file_header_size as int, trace_index as int, size) + size)
                by (nonlinear_arith);
            assert(trace_offset(self.file_header_size as int, trace_index as int, size)
                >= 0) by (nonlinear_arith)
                requires
                    size >= 0,
            ;
            assert(trace_bytes@.len() == size);
            assert(size == 240 + self.config.samples_per_trace * format.width());
        }
        let trace = match parse_trace_block(
            trace_bytes,
            format,
            self.config.samples_per_trace,
            self.config.byte_order,
        ) {
            Ok(trace) => trace,
            Err(error) => {
                return Err(
                    AppError::SegyError {
                        message: String::from_str("Failed to parse trace: ").concat(
                            error.message().as_str(),
                        ),
                    },
                );
            },
        };
        let ghost full = trace;
        assert(self.block_decoded(data@, trace_index as int, full));
        Ok(apply_trace_limit(trace, max_samples))
    }
}

impl SegyReader {
    /// Decodes `count` adjoining traces, headers and samples, from
    /// `start_index` on, and applies the sample limit to each.
    ///
    /// A request for no traces gives none, wherever it starts. Any other
    /// fails with `ValidationError` when the request is not in order, and
    /// with `SegyError` when the file does not hold all the traces or one of
    /// them cannot be decoded.
    pub fn load_trace_range(
        &self,
        data: &[u8],
        start_index: usize,
        count: usize,
        max_samples: Option<usize>,
    ) -> (loaded: Result<Vec<TraceBlock>, AppError>)
        ensures
            loaded is Ok <==> count == 0 || {
                &&& self.request_valid(start_index as int, count as int)
                &&& trace_offset(
                    self.file_header_size as int,
                    start_index + count,
                    self.config.block_size()->Some_0,
                ) <= data@.len()
                &&& forall|i: int|
                    0 <= i < count ==> #[trigger] self.block_decodable(data@, start_index + i)
            },
            loaded matches Ok(traces) ==> traces@.len() == count && forall|i: int|
                0 <= i < count ==> self.is_trace(
                    data@,
                    start_index + i,
                    max_samples,
                    #[trigger] traces@[i],
                ),
            loaded matches Err(error) ==> if self.request_valid(
                start_index as int,
                count as int,
            ) {
                error is SegyError
            } else {
                error is ValidationError
            },
    {
        match validate_trace_range(&self.config, start_index, count, self.total_traces) {
            Ok(()) => {},
            Err(error) => {
                return Err(error);
            },
        }
        if count == 0 {
            return Ok(Vec::new());
        }
        let format = match self.config.data_sample_format_parsed() {
            Ok(format) => format,
            Err(error) => {
                return Err(error);
            },
        };
        let (trace_block_size, start_position) = match self.range_span(
            data.len(),
            start_index,
            count,
        ) {
            Ok(span) => span,
            Err(error) => {
                return Err(error);
            },
        };
        let ghost size = trace_block_size as int;
        let ghost header = self.file_header_size as int;

        let mut traces: Vec<TraceBlock> = Vec::new();
        let mut i: usize = 0;
        while i < count
            invariant
                i <= count,
                self.request_valid(start_index as int, count as int),
                self.config.block_size() == Some(size),
                self.config.format() == Some(format),
                size == trace_block_size,
                header == self.file_header_size,
                start_position == trace_offset(header, start_index as int, size),
                trace_offset(header, start_index + count, size) <= data@.len() <= usize::MAX,
                traces@.len() == i,
                forall|k: int| 0 <= k < i ==> #[trigger] self.block_decodable(data@, start_index + k),
                forall|k: int|
                    0 <= k < i ==> self.is_trace(
                        data@,
                        start_index + k,
                        max_samples,
                        #[trigger] traces@[k],
                    ),
            decreases count - i,
        {
            proof {
                lemma_offsets(header, start_index as int, i as int, count as int, size);
            }
            let offset = start_position + i * trace_block_size;
            let trace_bytes = slice_subrange(data, offset, offset + trace_block_size);
            assert(trace_bytes@ == self.block_bytes(data@, start_index + i));
            let trace = match parse_trace_block(
                trace_bytes,
                format,
                self.config.samples_per_trace,
                self.config.byte_order,
            ) {
                Ok(trace) => trace,
                Err(error) => {
                    assert(!self.block_decodable(data@, start_index + i));
                    return Err(
                        AppError::SegyError {
                            message: String::from_str("Failed to parse trace: ").concat(
                                error.message().as_str(),
                            ),
                        },
                    );
                },
            };
            let ghost full = trace;
            let ghost before = traces@;
            assert(self.block_decoded(data@, start_index + i, full));
            let limited = apply_trace_limit(trace, max_samples);
            traces.push(limited);
            proof {
                assert forall|k: int| 0 <= k < i + 1 implies self.is_trace(
                    data@,
                    start_index + k,
                    max_samples,
                    #[trigger] traces@[k],
                ) by {
                    if k < i {
                        assert(traces@[k] == before[k]);
                    } else {
                        assert(self.block_decoded(data@, start_index + k, full) && block_limited(
                            traces@[k],
                            full,
                            max_samples,
                        ));
                    }
                }
            }
            i += 1;
        }
        Ok(traces)
    }

    /// Decodes the samples of `count` adjoining traces from `start_index`
    /// on, skipping their headers, and applies the sample limit to each.
    ///
    /// A request for no traces gives none, wherever it starts. Any other
    /// fails with `ValidationError` when the request is not in order, and
    /// with `SegyError` when the file does not hold all the traces.
    pub fn load_trace_data_range(
        &self,
        data: &[u8],
        start_index: usize,
        count: usize,
        max_samples: Option<usize>,
    ) -> (loaded: Result<Vec<TraceData>, AppError>)
        ensures
            loaded is Ok <==> count == 0 || {
                &&& self.request_valid(start_index as int, count as int)
                &&& trace_offset(
                    self.file_header_size as int,
                    start_index + count,
                    self.config.block_size()->Some_0,
                ) <= data@.len()
            },
            loaded matches Ok(traces) ==> traces@.len() == count && forall|i: int|
                0 <= i < count ==> self.is_samples(
                    data@,
                    start_index + i,
                    max_samples,
                    #[trigger] traces@[i],
                ),
            loaded matches Err(error) ==> if self.request_valid(
                start_index as int,
                count as int,
            ) {
                error is SegyError
            } else {
                error is ValidationError
            },
    {
        match validate_trace_range(&self.config, start_index, count, self.total_traces) {
            Ok(()) => {},
            Err(error) => {
                return Err(error);
            },
        }
        if count == 0 {
            return Ok(Vec::new());
        }
        let format = match self.config.data_sample_format_parsed() {
            Ok(format) => format,
            Err(error) => {
                return Err(error);
            },
        };
        let (trace_block_size, start_position) = match self.range_span(
            data.len(),
            start_index,
            count,
        ) {
            Ok(span) => span,
            Err(error) => {
                return Err(error);
            },
        };
        let ghost size = trace_block_size as int;
        let ghost header = self.file_header_size as int;

        let mut traces: Vec<TraceData> = Vec::new();
        let mut i: usize = 0;
        while i < count
            invariant
                i <= count,
                self.request_valid(start_index as int, count as int),
                self.config.block_size() == Some(size),
                self.config.format() == Some(format),
                size == trace_block_size,
                header == self.file_header_size,
                start_position == trace_offset(header, start_index as int, size),
                trace_offset(header, start_index + count, size) <= data@.len() <= usize::MAX,
                traces@.len() == i,
                forall|k: int|
                    0 <= k < i ==> self.is_samples(
                        data@,
                        start_index + k,
                        max_samples,
                        #[trigger] traces@[k],
                    ),
            decreases count - i,
        {
            proof {
                lemma_offsets(header, start_index as int, i as int, count as int, size);
            }
            let offset = start_position + i * trace_block_size;
            let trace_bytes = slice_subrange(data, offset, offset + trace_block_size);
            assert(trace_bytes@ == self.block_bytes(data@, start_index + i));
            assert(trace_bytes@.len() == 240 + self.config.samples_per_trace * format.width());
            let samples = match parse_trace_data(
                trace_bytes,
                format,
                self.config.samples_per_trace,
            ) {
                Ok(samples) => samples,
                Err(error) => {
                    return Err(
                        AppError::SegyError {
                            message: String::from_str("Failed to parse trace data: ").concat(
                                error.message().as_str(),
                            ),
                        },
                    );
                },
            };
            let ghost full = samples;
            let ghost before = traces@;
            assert(self.samples_decoded(data@, start_index + i, full));
            let limited = apply_data_limit(samples, max_samples);
            traces.push(limited);
            proof {
                assert forall|k: int| 0 <= k < i + 1 implies self.is_samples(
                    data@,
                    start_index + k,
                    max_samples,
                    #[trigger] traces@[k],
                ) by {
                    if k < i {
                        assert(traces@[k] == before[k]);
                    } else {
                        assert(self.samples_decoded(data@, start_index + k, full) && data_limited(
                            traces@[k],
                            full,
                            max_samples,
                        ));
                    }
                }
            }
            i += 1;
        }
        Ok(traces)
    }

    /// The block size and the byte offset of the first trace of a valid
    /// range, once the whole range is known to lie in the file.
    fn range_span(&self, data_len: usize, start_index: usize, count: usize) -> (span: Result<
        (usize, usize),
        AppError,
    >)
        requires
            count > 0,
            range_valid(self.config, start_index as int, count as int, self.total_traces),
        ensures
            span is Ok <==> self.request_valid(start_index as int, count as int) && trace_offset(
                self.file_header_size as int,
                start_index + count,
                self.config.block_size()->Some_0,
            ) <= data_len,
            span matches Ok((size, start)) ==> {
                &&& self.config.block_size() == Some(size as int)
                &&& start == trace_offset(
                    self.file_header_size as int,
                    start_index as int,
                    size as int,
                )
            },
            span matches Err(error) ==> if self.request_valid(
                start_index as int,
                count as int,
            ) {
                error is SegyError
            } else {
                error is ValidationError
            },
    {
        let trace_block_size = match self.config.trace_block_size() {
            Ok(size) => size,
            Err(error) => {
                return Err(error);
            },
        };
        proof {
            lemma_offsets(
                self.file_header_size as int,
                start_index as int,
                0,
                count as int,
                trace_block_size as int,
            );
            lemma_span(
                self.file_header_size as int,
                start_index as int,
                count as int,
                trace_block_size as int,
            );
        }
        let offset = match start_index.checked_mul(trace_block_size) {
            Some(offset) => offset,
            None => {
                return Err(
                    AppError::ValidationError {
                        message: String::from_str("Trace offset overflow"),
                    },
                );
            },
        };
        let start_position = match self.file_header_size.checked_add(offset) {
            Some(position) => position,
            None => {
                return Err(
                    AppError::ValidationError {
                        message: String::from_str("Trace position overflow"),
                    },
                );
            },
        };
        let span = match trace_block_size.checked_mul(count) {
            Some(span) => span,
            None => {
                return Err(
                    AppError::ValidationError {
                        message: String::from_str("Requested trace range is too large"),
                    },
                );
            },
        };
        let end_position = match start_position.checked_add(span) {
            Some(end) => end,
            None => {
                return Err(
                    AppError::ValidationError {
                        message: String::from_str(
                            "Requested trace range exceeds addressable space",
                        ),
                    },
                );
            },
        };
        if end_position > data_len {
            return Err(
                AppError::SegyError {
                    message: String::from_str("Requested traces exceed file size"),
                },
            );
        }
        Ok((trace_block_size, start_position))
    }
}

/// The end of a range of traces is its start plus the blocks between, and
/// no part of the sum is negative.
proof fn lemma_span(header: int, start: int, count: int, size: int)
    by (nonlinear_arith)
    requires
        header >= 0,
        start >= 0,
        count >= 0,
        size >= 0,
    ensures
        trace_offset(header, start + count, size) == header + start * size + size * count,
        start * size >= 0,
        size * count >= 0,
{
}

/// Within a range of `count` traces from `start` on, the trace `i` starts
/// `i` blocks after the first and ends no later than the range.
proof fn lemma_offsets(header: int, start: int, i: int, count: int, size: int)
    by (nonlinear_arith)
    requires
        header >= 0,
        start >= 0,
        0 <= i < count,
        size >= 0,
    ensures
        trace_offset(header, start + i, size) == trace_offset(header, start, size) + i * size,
        trace_offset(header, start + i + 1, size) == trace_offset(header, start + i, size) + size,
        trace_offset(header, start + i + 1, size) <= trace_offset(header, start + count, size),
        trace_offset(header, start, size) >= 0,
        i * size >= 0,
{
}

/// A file that holds whole trace blocks after its headers, and at least
/// one, counts them all.
pub proof fn lemma_whole_blocks_are_counted(reader: SegyReader, blocks: int)
    requires
        reader.wf(),
        reader.config.block_size() is Some,
        1 <= blocks <= usize::MAX,
        reader.file_size == reader.file_header_size + blocks * reader.config.block_size()->Some_0,
    ensures
        reader.total_traces == Some(blocks as usize),
{
    let size = reader.config.block_size()->Some_0;
    assert((blocks * size) / size == blocks && blocks * size >= size) by (nonlinear_arith)
        requires
            size > 0,
            blocks >= 1,
    ;
}

/// In a file opened from bytes that hold whole trace blocks after the
/// headers, and at least one, every block is counted, and any range of
/// blocks among them can be asked for and lies in the bytes.
pub proof fn lemma_ranges_of_whole_blocks(
    reader: SegyReader,
    file_path: Seq<char>,
    data: Seq<u8>,
    blocks: int,
    start_index: int,
    count: int,
)
    requires
        reader.opened_from(file_path, data),
        reader.config.block_size() is Some,
        1 <= blocks,
        data.len() == reader.file_header_size + blocks * reader.config.block_size()->Some_0,
        data.len() <= usize::MAX,
        0 <= start_index,
        1 <= count,
        start_index + count <= blocks,
    ensures
        reader.total_traces == Some(blocks as usize),
        reader.request_valid(start_index, count),
        trace_offset(
            reader.file_header_size as int,
            start_index + count,
            reader.config.block_size()->Some_0,
        ) <= data.len(),
{
    let size = reader.config.block_size()->Some_0;
    assert(blocks <= blocks * size && (start_index + count) * size <= blocks * size)
        by (nonlinear_arith)
        requires
            size >= 1,
            blocks >= 1,
            0 <= start_index + count <= blocks,
    ;
    lemma_whole_blocks_are_counted(reader, blocks);
}

/// A trace read without a sample limit is the decoded block itself: it has
/// the format of the configuration and as many samples as the configuration
/// says.
pub proof fn lemma_unlimited_trace_is_whole(
    reader: SegyReader,
    data: Seq<u8>,
    trace_index: int,
    block: TraceBlock,
)
    requires
        reader.is_trace(data, trace_index, None, block),
    ensures
        reader.block_decoded(data, trace_index, block),
        block.data.count() == reader.config.samples_per_trace,
        Some(block.data.format()) == reader.config.format(),
{
}

/// A cache of one open reader, keyed by the path of its file.
#[derive(Debug)]
pub struct SegyReaderState {
    /// The reader opened last, if any.
    pub reader: Option<SegyReader>,
}

impl SegyReaderState {
    /// Whether the cache holds the reader of a file.
    pub open spec fn holds(self, file_path: Seq<char>) -> bool {
        self.reader matches Some(reader) && reader.file_path@ == file_path
    }

    /// An empty cache.
    pub fn new() -> (state: SegyReaderState)
        ensures
            state.reader is None,
    {
        SegyReaderState { reader: None }
    }

    /// Whether the cached reader is that of `file_path`, so that the file
    /// need not be opened again. An empty path is a `ValidationError`.
    pub fn is_cached(&self, file_path: &str) -> (cached: Result<bool, AppError>)
        ensures
            cached is Ok <==> file_path@.len() > 0,
            cached matches Ok(hit) ==> hit == self.holds(file_path@),
            cached matches Err(error) ==> error is ValidationError,
    {
        if file_path.is_empty() {
            return Err(
                AppError::ValidationError {
                    message: String::from_str("File path cannot be empty"),
                },
            );
        }
        match &self.reader {
            Some(reader) => Ok(reader.file_path == String::from_str(file_path)),
            None => Ok(false),
        }
    }

    /// Opens a file from its bytes and caches its reader in place of any
    /// earlier one. When the file cannot be opened the cache stays as it
    /// is.
    pub fn open(&mut self, file_path: &str, data: &[u8]) -> (opened: Result<(), AppError>)
        ensures
            opened is Ok <==> SegyReader::openable(file_path@, data@),
            opened is Ok ==> final(self).reader is Some && final(self).reader->Some_0.opened_from(
                file_path@,
                data@,
            ),
            opened is Err ==> *final(self) == *old(self),
            opened matches Err(error) ==> if SegyReader::request_at_fault(file_path@, data@) {
                error is ValidationError
            } else {
                error is SegyError
            },
    {
        match SegyReader::open(file_path, data) {
            Ok(reader) => {
                self.reader = Some(reader);
                Ok(())
            },
            Err(error) => Err(error),
        }
    }

    /// Serves a file from the cache: if the cached reader is that of
    /// `file_path` the cache stays as it is and `data` is not looked at;
    /// else the file is opened from `data` and its reader takes the place
    /// of the cached one. An empty path is a `ValidationError`.
    pub fn get_or_open(&mut self, file_path: &str, data: &[u8]) -> (served: Result<(), AppError>)
        ensures
            served is Ok <==> file_path@.len() > 0 && (old(self).holds(file_path@)
                || SegyReader::openable(file_path@, data@)),
            served is Ok ==> final(self).holds(file_path@),
            old(self).holds(file_path@) || served is Err ==> *final(self) == *old(self),
            served is Ok && !old(self).holds(file_path@) ==> final(self).reader->Some_0.opened_from(
                file_path@,
                data@,
            ),
            served matches Err(error) ==> if SegyReader::request_at_fault(file_path@, data@) {
                error is ValidationError
            } else {
                error is SegyError
            },
    {
        match self.is_cached(file_path) {
            Ok(true) => Ok(()),
            Ok(false) => self.open(file_path, data),
            Err(error) => Err(error),
        }
    }
}

impl Default for SegyReaderState {
    fn default() -> (state: SegyReaderState)
        ensures
            state.reader is None,
    {
        SegyReaderState::new()
    }
}

/// Applies a sample limit to a trace block.
pub fn apply_trace_limit(trace: TraceBlock, max_samples: Option<usize>) -> (limited: TraceBlock)
    ensures
        block_limited(limited, trace, max_samples),
{
    match max_samples {
        Some(limit) => trace.downsample(limit),
        None => trace,
    }
}

/// Applies a sample limit to the samples of a trace.
pub fn apply_data_limit(data: TraceData, max_samples: Option<usize>) -> (limited: TraceData)
    ensures
        data_limited(limited, data, max_samples),
{
    match max_samples {
        Some(limit) => data.downsample(limit),
        None => data,
    }
}

} // verus!
