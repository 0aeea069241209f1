//! The 400-byte binary header that follows the textual header.
//!
//! Standard files are big-endian; some are written little-endian. The byte
//! order is guessed from two fields that have a plausible range, and all
//! fields are then decoded in that order.

use crate::error::AppError;
use crate::wire::{i16_at, i32_at, read_i16, read_i32, read_u16, u16_at};
use vstd::prelude::*;
use vstd::slice::{slice_subrange, slice_to_vec};
use vstd::string::StringExecFns;

verus! {

/// Size of the binary header in bytes.
pub const BINARY_HEADER_SIZE: usize = 400;

/// How a trace sample is encoded.
#[derive(Debug, Clone, Copy, PartialEq, Eq, Structural)]
pub enum DataSampleFormat {
    /// 32-bit IBM floating point (code 1).
    IbmFloat32,
    /// 32-bit two's complement integer (code 2).
    Int32,
    /// 16-bit two's complement integer (code 3).
    Int16,
    /// 32-bit fixed point with gain (code 4).
    FixedPointWithGain,
    /// 32-bit IEEE floating point (code 5).
    IeeeFloat32,
    /// 8-bit two's complement integer (code 8).
    Int8,
}

impl DataSampleFormat {
    /// The format that a code stands for, if any.
    pub open spec fn of_code(code: int) -> Option<DataSampleFormat> {
        if code == 1 {
            Some(DataSampleFormat::IbmFloat32)
        } else if code == 2 {
            Some(DataSampleFormat::Int32)
        } else if code == 3 {
            Some(DataSampleFormat::Int16)
        } else if code == 4 {
            Some(DataSampleFormat::FixedPointWithGain)
        } else if code == 5 {
            Some(DataSampleFormat::IeeeFloat32)
        } else if code == 8 {
            Some(DataSampleFormat::Int8)
        } else {
            None
        }
    }

    /// The code that stands for a format.
    pub open spec fn code_of(self) -> int {
        match self {
            DataSampleFormat::IbmFloat32 => 1,
            DataSampleFormat::Int32 => 2,
            DataSampleFormat::Int16 => 3,
            DataSampleFormat::FixedPointWithGain => 4,
            DataSampleFormat::IeeeFloat32 => 5,
            DataSampleFormat::Int8 => 8,
        }
    }

    /// Bytes that one sample of a format occupies.
    pub open spec fn width(self) -> int {
        match self {
            DataSampleFormat::IbmFloat32 => 4,
            DataSampleFormat::Int32 => 4,
            DataSampleFormat::Int16 => 2,
            DataSampleFormat::FixedPointWithGain => 4,
            DataSampleFormat::IeeeFloat32 => 4,
            DataSampleFormat::Int8 => 1,
        }
    }

    /// Size in bytes of one sample.
    pub fn bytes_per_sample(self) -> (size: usize)
        ensures
            size == self.width(),
    {
        match self {
            DataSampleFormat::IbmFloat32 => 4,
            DataSampleFormat::Int32 => 4,
            DataSampleFormat::Int16 => 2,
            DataSampleFormat::FixedPointWithGain => 4,
            DataSampleFormat::IeeeFloat32 => 4,
            DataSampleFormat::Int8 => 1,
        }
    }

    /// The raw code of the format.
    pub fn code(self) -> (code: i16)
        ensures
            code == self.code_of(),
    {
        match self {
            DataSampleFormat::IbmFloat32 => 1,
            DataSampleFormat::Int32 => 2,
            DataSampleFormat::Int16 => 3,
            DataSampleFormat::FixedPointWithGain => 4,
            DataSampleFormat::IeeeFloat32 => 5,
            DataSampleFormat::Int8 => 8,
        }
    }

    /// Parses a raw format code; any code but 1, 2, 3, 4, 5 and 8 is an error.
    pub fn from_code(code: i16) -> (parsed: Result<DataSampleFormat, String>)
        ensures
            match DataSampleFormat::of_code(code as int) {
                Some(format) => parsed == Ok::<DataSampleFormat, String>(format),
                None => parsed is Err,
            },
    {
        match code {
            1 => Ok(DataSampleFormat::IbmFloat32),
            2 => Ok(DataSampleFormat::Int32),
            3 => Ok(DataSampleFormat::Int16),
            4 => Ok(DataSampleFormat::FixedPointWithGain),
            5 => Ok(DataSampleFormat::IeeeFloat32),
            8 => Ok(DataSampleFormat::Int8),
            _ => Err(
                String::from_str("Invalid data sample format code: ").concat(
                    code.to_string().as_str(),
                ),
            ),
        }
    }

    /// The sample width of every code: 4, 4, 2, 4, 4 and 1 bytes for the codes
    /// 1, 2, 3, 4, 5 and 8, and no format for any other code.
    pub proof fn lemma_width_of_code(code: int)
        ensures
            code == 1 || code == 2 || code == 4 || code == 5 ==> DataSampleFormat::of_code(
                code,
            ) is Some && DataSampleFormat::of_code(code)->Some_0.width() == 4,
            code == 3 ==> DataSampleFormat::of_code(code) is Some && DataSampleFormat::of_code(
                code,
            )->Some_0.width() == 2,
            code == 8 ==> DataSampleFormat::of_code(code) is Some && DataSampleFormat::of_code(
                code,
            )->Some_0.width() == 1,
            !(code == 1 || code == 2 || code == 3 || code == 4 || code == 5 || code == 8)
                ==> DataSampleFormat::of_code(code) is None,
    {
    }

    /// A format's code stands for that format.
    pub proof fn lemma_code_round_trip(self)
        ensures
            DataSampleFormat::of_code(self.code_of()) == Some(self),
    {
    }
}

/// How the traces of a file are sorted.
#[derive(Debug, Clone, Copy, PartialEq, Eq, Structural)]
pub enum TraceSortingCode {
    /// Unknown or not specified (code 0).
    Unknown,
    /// As recorded (code 1).
    AsRecorded,
    /// CDP ensemble (code 2).
    CdpEnsemble,
    /// Single fold continuous profile (code 3).
    SingleFold,
    /// Horizontally stacked (code 4).
    HorizontallyStacked,
}

impl TraceSortingCode {
    /// The sorting that a code stands for, if any.
    pub open spec fn of_code(code: int) -> Option<TraceSortingCode> {
        if code == 0 {
            Some(TraceSortingCode::Unknown)
        } else if code == 1 {
            Some(TraceSortingCode::AsRecorded)
        } else if code == 2 {
            Some(TraceSortingCode::CdpEnsemble)
        } else if code == 3 {
            Some(TraceSortingCode::SingleFold)
        } else if code == 4 {
            Some(TraceSortingCode::HorizontallyStacked)
        } else {
            None
        }
    }

    /// Parses a raw sorting code; any code outside 0 to 4 is an error.
    pub fn from_code(code: i16) -> (parsed: Result<TraceSortingCode, String>)
        ensures
            match TraceSortingCode::of_code(code as int) {
                Some(sorting) => parsed == Ok::<TraceSortingCode, String>(sorting),
                None => parsed is Err,
            },
    {
        match code {
            0 => Ok(TraceSortingCode::Unknown),
            1 => Ok(TraceSortingCode::AsRecorded),
            2 => Ok(TraceSortingCode::CdpEnsemble),
            3 => Ok(TraceSortingCode::SingleFold),
            4 => Ok(TraceSortingCode::HorizontallyStacked),
            _ => Err(
                String::from_str("Invalid trace sorting code: ").concat(code.to_string().as_str()),
            ),
        }
    }
}

/// The measurement system of the survey.
#[derive(Debug, Clone, Copy, PartialEq, Eq, Structural)]
pub enum MeasurementSystem {
    /// Unknown or not specified (code 0).
    Unknown,
    /// Meters (code 1).
    Meters,
    /// Feet (code 2).
    Feet,
}

impl MeasurementSystem {
    /// The measurement system that a code stands for, if any.
    pub open spec fn of_code(code: int) -> Option<MeasurementSystem> {
        if code == 0 {
            Some(MeasurementSystem::Unknown)
        } else if code == 1 {
            Some(MeasurementSystem::Meters)
        } else if code == 2 {
            Some(MeasurementSystem::Feet)
        } else {
            None
        }
    }

    /// Parses a raw measurement system code; any code outside 0 to 2 is an
    /// error.
    pub fn from_code(code: i16) -> (parsed: Result<MeasurementSystem, String>)
        ensures
            match MeasurementSystem::of_code(code as int) {
                Some(system) => parsed == Ok::<MeasurementSystem, String>(system),
                None => parsed is Err,
            },
    {
        match code {
            0 => Ok(MeasurementSystem::Unknown),
            1 => Ok(MeasurementSystem::Meters),
            2 => Ok(MeasurementSystem::Feet),
            _ => Err(
                String::from_str("Invalid measurement system code: ").concat(
                    code.to_string().as_str(),
                ),
            ),
        }
    }
}

/// Byte order of the binary data in a file.
#[derive(Debug, Clone, Copy, PartialEq, Eq, Structural)]
pub enum ByteOrder {
    /// Most significant byte first: the standard.
    BigEndian,
    /// Least significant byte first.
    LittleEndian,
}

impl Default for ByteOrder {
    fn default() -> (order: ByteOrder)
        ensures
            order == ByteOrder::BigEndian,
    {
        ByteOrder::BigEndian
    }
}

/// Whether the samples-per-trace and sample-interval fields are both
/// strictly between 0 and 32000 when read in `order`.
pub open spec fn plausible_in(data: Seq<u8>, order: ByteOrder) -> bool {
    &&& 0 < i16_at(data, 20, order) < 32000
    &&& 0 < i16_at(data, 16, order) < 32000
}

/// The byte order that a binary header is taken to be written in: the one
/// order in which it is plausible, and big-endian when both or neither are,
/// or when the buffer is too short to tell.
pub open spec fn detected_byte_order(data: Seq<u8>) -> ByteOrder {
    if data.len() >= 22 && plausible_in(data, ByteOrder::LittleEndian) && !plausible_in(
        data,
        ByteOrder::BigEndian,
    ) {
        ByteOrder::LittleEndian
    } else {
        ByteOrder::BigEndian
    }
}

/// Guesses the byte order of a binary header from its samples-per-trace and
/// sample-interval fields.
pub fn detect_endianness(data: &[u8]) -> (order: ByteOrder)
    ensures
        order == detected_byte_order(data@),
{
    if data.len() < 22 {
        return ByteOrder::BigEndian;
    }
    let samples_be = read_i16(data, 20, ByteOrder::BigEndian);
    let samples_le = read_i16(data, 20, ByteOrder::LittleEndian);
    let interval_be = read_i16(data, 16, ByteOrder::BigEndian);
    let interval_le = read_i16(data, 16, ByteOrder::LittleEndian);

    let be_valid = samples_be > 0 && samples_be < 32_000 && interval_be > 0 && interval_be
        < 32_000;
    let le_valid = samples_le > 0 && samples_le < 32_000 && interval_le > 0 && interval_le
        < 32_000;

    if le_valid && !be_valid {
        ByteOrder::LittleEndian
    } else {
        ByteOrder::BigEndian
    }
}

/// Detection picks the one plausible order and falls back to big-endian: a
/// header plausible as big-endian is big-endian, one plausible only as
/// little-endian is little-endian, and one plausible as neither is
/// big-endian.
pub proof fn lemma_detection_cases(data: Seq<u8>)
    requires
        data.len() >= 22,
    ensures
        plausible_in(data, ByteOrder::BigEndian) ==> detected_byte_order(data)
            == ByteOrder::BigEndian,
        plausible_in(data, ByteOrder::LittleEndian) && !plausible_in(data, ByteOrder::BigEndian)
            ==> detected_byte_order(data) == ByteOrder::LittleEndian,
        !plausible_in(data, ByteOrder::LittleEndian) ==> detected_byte_order(data)
            == ByteOrder::BigEndian,
{
}

/// File-level metadata decoded from the binary header.
#[derive(Debug)]
pub struct BinaryHeader {
    /// Byte order the header was decoded in.
    pub byte_order: ByteOrder,
    /// Job identification number (file bytes 3201-3204).
    pub job_id: i32,
    /// Line number (file bytes 3205-3208).
    pub line_number: i32,
    /// Reel number (file bytes 3209-3212).
    pub reel_number: i32,
    /// Data traces per record (file bytes 3213-3214).
    pub traces_per_record: i16,
    /// Auxiliary traces per record (file bytes 3215-3216).
    pub aux_traces_per_record: i16,
    /// Sample interval in microseconds (file bytes 3217-3218).
    pub sample_interval_us: i16,
    /// Sample interval of the field recording (file bytes 3219-3220).
    pub original_sample_interval_us: i16,
    /// Samples per data trace (file bytes 3221-3222).
    pub samples_per_trace: i16,
    /// Samples per trace of the field recording (file bytes 3223-3224).
    pub original_samples_per_trace: i16,
    /// Data sample format (file bytes 3225-3226).
    pub data_sample_format: DataSampleFormat,
    /// Expected traces per CDP ensemble (file bytes 3227-3228).
    pub cdp_fold: i16,
    /// Trace sorting (file bytes 3229-3230).
    pub trace_sorting: TraceSortingCode,
    /// Vertical sum code (file bytes 3231-3232).
    pub vertical_sum_code: i16,
    /// Sweep frequency at start, Hz (file bytes 3233-3234).
    pub sweep_freq_start: i16,
    /// Sweep frequency at end, Hz (file bytes 3235-3236).
    pub sweep_freq_end: i16,
    /// Sweep length, ms (file bytes 3237-3238).
    pub sweep_length_ms: i16,
    /// Sweep type code (file bytes 3239-3240).
    pub sweep_type: i16,
    /// Trace number of the sweep channel (file bytes 3241-3242).
    pub sweep_channel: i16,
    /// Sweep taper length at start, ms (file bytes 3243-3244).
    pub sweep_taper_start_ms: i16,
    /// Sweep taper length at end, ms (file bytes 3245-3246).
    pub sweep_taper_end_ms: i16,
    /// Taper type (file bytes 3247-3248).
    pub taper_type: i16,
    /// Correlated data traces: 1 no, 2 yes (file bytes 3249-3250).
    pub correlated: i16,
    /// Binary gain recovered: 1 yes, 2 no (file bytes 3251-3252).
    pub binary_gain_recovered: i16,
    /// Amplitude recovery method (file bytes 3253-3254).
    pub amplitude_recovery_method: i16,
    /// Measurement system (file bytes 3255-3256).
    pub measurement_system: MeasurementSystem,
    /// Impulse signal polarity (file bytes 3257-3258).
    pub impulse_polarity: i16,
    /// Vibratory polarity code (file bytes 3259-3260).
    pub vibratory_polarity: i16,
    /// SEG-Y revision code (file bytes 3501-3502).
    pub segy_revision: u16,
    /// Fixed length trace flag (file bytes 3503-3504).
    pub fixed_length_trace_flag: i16,
    /// Number of extended textual headers (file bytes 3505-3506).
    pub extended_textual_headers: i16,
    /// The two reserved ranges, kept as they are: header bytes 60 to 299
    /// followed by header bytes 306 to 399.
    pub unassigned: Vec<u8>,
}

impl BinaryHeader {
    /// Size of the binary header in bytes.
    pub const SIZE: usize = 400;

    /// Whether the three coded fields of a header hold codes of their
    /// enumerations when read in `order`.
    pub open spec fn codes_known(data: Seq<u8>, order: ByteOrder) -> bool {
        &&& DataSampleFormat::of_code(i16_at(data, 24, order)) is Some
        &&& TraceSortingCode::of_code(i16_at(data, 28, order)) is Some
        &&& MeasurementSystem::of_code(i16_at(data, 54, order)) is Some
    }

    /// Whether `data` starts with a binary header that can be decoded: 400
    /// bytes whose coded fields are known in the detected byte order.
    pub open spec fn decodable(data: Seq<u8>) -> bool {
        &&& data.len() >= 400
        &&& BinaryHeader::codes_known(data, detected_byte_order(data.subrange(0, 400)))
    }

    /// Whether this header is what the first 400 bytes of `data` hold, field
    /// by field, in the byte order `order`.
    pub open spec fn holds(self, data: Seq<u8>, order: ByteOrder) -> bool {
        &&& self.byte_order == order
        &&& self.job_id == i32_at(data, 0, order)
        &&& self.line_number == i32_at(data, 4, order)
        &&& self.reel_number == i32_at(data, 8, order)
        &&& self.traces_per_record == i16_at(data, 12, order)
        &&& self.aux_traces_per_record == i16_at(data, 14, order)
        &&& self.sample_interval_us == i16_at(data, 16, order)
        &&& self.original_sample_interval_us == i16_at(data, 18, order)
        &&& self.samples_per_trace == i16_at(data, 20, order)
        &&& self.original_samples_per_trace == i16_at(data, 22, order)
        &&& DataSampleFormat::of_code(i16_at(data, 24, order)) == Some(self.data_sample_format)
        &&& self.cdp_fold == i16_at(data, 26, order)
        &&& TraceSortingCode::of_code(i16_at(data, 28, order)) == Some(self.trace_sorting)
        &&& self.vertical_sum_code == i16_at(data, 30, order)
        &&& self.sweep_freq_start == i16_at(data, 32, order)
        &&& self.sweep_freq_end == i16_at(data, 34, order)
        &&& self.sweep_length_ms == i16_at(data, 36, order)
        &&& self.sweep_type == i16_at(data, 38, order)
        &&& self.sweep_channel == i16_at(data, 40, order)
        &&& self.sweep_taper_start_ms == i16_at(data, 42, order)
        &&& self.sweep_taper_end_ms == i16_at(data, 44, order)
        &&& self.taper_type == i16_at(data, 46, order)
        &&& self.correlated == i16_at(data, 48, order)
        &&& self.binary_gain_recovered == i16_at(data, 50, order)
        &&& self.amplitude_recovery_method == i16_at(data, 52, order)
        &&& MeasurementSystem::of_code(i16_at(data, 54, order)) == Some(self.measurement_system)
        &&& self.impulse_polarity == i16_at(data, 56, order)
        &&& self.vibratory_polarity == i16_at(data, 58, order)
        &&& self.segy_revision == u16_at(data, 300, order)
        &&& self.fixed_length_trace_flag == i16_at(data, 302, order)
        &&& self.extended_textual_headers == i16_at(data, 304, order)
        &&& self.unassigned@ == data.subrange(60, 300) + data.subrange(306, 400)
    }

    /// Whether two headers hold the same values.
    pub open spec fn same_as(self, other: BinaryHeader) -> bool {
        &&& self.unassigned@ == other.unassigned@
        &&& self == (BinaryHeader { unassigned: self.unassigned, ..other })
    }

    /// Decodes a binary header from the first 400 bytes of `reader`, in the
    /// byte order that `detect_endianness` finds there.
    ///
    /// Fails with `SegyError` when fewer than 400 bytes are given or when the
    /// sample format, trace sorting or measurement system code is not one of
    /// its enumeration.
    pub fn from_reader(reader: &[u8]) -> (parsed: Result<BinaryHeader, AppError>)
        ensures
            parsed is Ok <==> BinaryHeader::decodable(reader@),
            parsed matches Ok(header) ==> header.holds(
                reader@,
                detected_byte_order(reader@.subrange(0, 400)),
            ),
            parsed matches Err(error) ==> error is SegyError,
    {
        if reader.len() < 400 {
            return Err(
                AppError::SegyError {
                    message: String::from_str("Binary header is shorter than 400 bytes"),
                },
            );
        }
        let buffer = slice_subrange(reader, 0, 400);
        let byte_order = detect_endianness(buffer);
        BinaryHeader::from_reader_with_endianness(reader, byte_order)
    }

    /// Decodes the first 400 bytes of `reader` in a given byte order.
    fn from_reader_with_endianness(reader: &[u8], byte_order: ByteOrder) -> (parsed: Result<
        BinaryHeader,
        AppError,
    >)
        requires
            reader@.len() >= 400,
        ensures
            parsed is Ok <==> BinaryHeader::codes_known(reader@, byte_order),
            parsed matches Ok(header) ==> header.holds(reader@, byte_order),
            parsed matches Err(error) ==> error is SegyError,
    {
        let job_id = read_i32(reader, 0, byte_order);
        let line_number = read_i32(reader, 4, byte_order);
        let reel_number = read_i32(reader, 8, byte_order);
        let traces_per_record = read_i16(reader, 12, byte_order);
        let aux_traces_per_record = read_i16(reader, 14, byte_order);
        let sample_interval_us = read_i16(reader, 16, byte_order);
        let original_sample_interval_us = read_i16(reader, 18, byte_order);
        let samples_per_trace = read_i16(reader, 20, byte_order);
        let original_samples_per_trace = read_i16(reader, 22, byte_order);
        let data_sample_format = match DataSampleFormat::from_code(read_i16(reader, 24, byte_order)) {
            Ok(code) => code,
            Err(message) => {
                return Err(AppError::SegyError { message });
            },
        };
        let cdp_fold = read_i16(reader, 26, byte_order);
        let trace_sorting = match TraceSortingCode::from_code(read_i16(reader, 28, byte_order)) {
            Ok(code) => code,
            Err(message) => {
                return Err(AppError::SegyError { message });
            },
        };
        let vertical_sum_code = read_i16(reader, 30, byte_order);
        let sweep_freq_start = read_i16(reader, 32, byte_order);
        let sweep_freq_end = read_i16(reader, 34, byte_order);
        let sweep_length_ms = read_i16(reader, 36, byte_order);
        let sweep_type = read_i16(reader, 38, byte_order);
        let sweep_channel = read_i16(reader, 40, byte_order);
        let sweep_taper_start_ms = read_i16(reader, 42, byte_order);
        let sweep_taper_end_ms = read_i16(reader, 44, byte_order);
        let taper_type = read_i16(reader, 46, byte_order);
        let correlated = read_i16(reader, 48, byte_order);
        let binary_gain_recovered = read_i16(reader, 50, byte_order);
        let amplitude_recovery_method = read_i16(reader, 52, byte_order);
        let measurement_system = match MeasurementSystem::from_code(read_i16(reader, 54, byte_order)) {
            Ok(code) => code,
            Err(message) => {
                return Err(AppError::SegyError { message });
            },
        };
        let impulse_polarity = read_i16(reader, 56, byte_order);
        let vibratory_polarity = read_i16(reader, 58, byte_order);
        let segy_revision = read_u16(reader, 300, byte_order);
        let fixed_length_trace_flag = read_i16(reader, 302, byte_order);
        let extended_textual_headers = read_i16(reader, 304, byte_order);
        let mut unassigned = slice_to_vec(slice_subrange(reader, 60, 300));
        let mut unassigned_post_revision = slice_to_vec(slice_subrange(reader, 306, 400));
        unassigned.append(&mut unassigned_post_revision);

        Ok(
            BinaryHeader {
                byte_order,
            job_id,
            line_number,
            reel_number,
            traces_per_record,
            aux_traces_per_record,
            sample_interval_us,
            original_sample_interval_us,
            samples_per_trace,
            original_samples_per_trace,
            data_sample_format,
            cdp_fold,
            trace_sorting,
            vertical_sum_code,
            sweep_freq_start,
            sweep_freq_end,
            sweep_length_ms,
            sweep_type,
            sweep_channel,
            sweep_taper_start_ms,
            sweep_taper_end_ms,
            taper_type,
            correlated,
            binary_gain_recovered,
            amplitude_recovery_method,
            measurement_system,
            impulse_polarity,
            vibratory_polarity,
            segy_revision,
            fixed_length_trace_flag,
            extended_textual_headers,
                unassigned,
            },
        )
    }

    /// Bytes per sample of the header's data format.
    pub fn bytes_per_sample(&self) -> (size: usize)
        ensures
            size == self.data_sample_format.width(),
    {
        self.data_sample_format.bytes_per_sample()
    }

    /// Size in bytes of one trace block: the 240-byte trace header and the
    /// samples.
    pub fn trace_block_size(&self) -> (size: usize)
        requires
            self.samples_per_trace >= 0,
        ensures
            size == 240 + self.samples_per_trace * self.data_sample_format.width(),
    {
        240 + (self.samples_per_trace as usize) * self.bytes_per_sample()
    }

    /// A copy of the header.
    pub fn clone(&self) -> (copy: BinaryHeader)
        ensures
            copy.same_as(*self),
    {
        BinaryHeader { unassigned: self.unassigned.clone(), ..*self }
    }
}

impl Default for BinaryHeader {
    /// A big-endian header with no traces: IBM floats, a sample interval of
    /// 1000 microseconds, traces as recorded, meters, not correlated, no
    /// gain recovered, and zeroed reserved bytes.
    fn default() -> (header: BinaryHeader)
        ensures
            header == (BinaryHeader {
                byte_order: ByteOrder::BigEndian,
                job_id: 0,
                line_number: 0,
                reel_number: 0,
                traces_per_record: 0,
                aux_traces_per_record: 0,
                sample_interval_us: 1000,
                original_sample_interval_us: 1000,
                samples_per_trace: 0,
                original_samples_per_trace: 0,
                data_sample_format: DataSampleFormat::IbmFloat32,
                cdp_fold: 0,
                trace_sorting: TraceSortingCode::AsRecorded,
                vertical_sum_code: 1,
                sweep_freq_start: 0,
                sweep_freq_end: 0,
                sweep_length_ms: 0,
                sweep_type: 0,
                sweep_channel: 0,
                sweep_taper_start_ms: 0,
                sweep_taper_end_ms: 0,
                taper_type: 0,
                correlated: 1,
                binary_gain_recovered: 2,
                amplitude_recovery_method: 0,
                measurement_system: MeasurementSystem::Meters,
                impulse_polarity: 0,
                vibratory_polarity: 0,
                segy_revision: 0,
                fixed_length_trace_flag: 0,
                extended_textual_headers: 0,
                unassigned: header.unassigned,
            }),
            header.unassigned@ == Seq::new(334, |i: int| 0u8),
    {
        BinaryHeader {
            byte_order: ByteOrder::BigEndian,
            job_id: 0,
            line_number: 0,
            reel_number: 0,
            traces_per_record: 0,
            aux_traces_per_record: 0,
            sample_interval_us: 1000,
            original_sample_interval_us: 1000,
            samples_per_trace: 0,
            original_samples_per_trace: 0,
            data_sample_format: DataSampleFormat::IbmFloat32,
            cdp_fold: 0,
            trace_sorting: TraceSortingCode::AsRecorded,
            vertical_sum_code: 1,
            sweep_freq_start: 0,
            sweep_freq_end: 0,
            sweep_length_ms: 0,
            sweep_type: 0,
            sweep_channel: 0,
            sweep_taper_start_ms: 0,
            sweep_taper_end_ms: 0,
            taper_type: 0,
            correlated: 1,
            binary_gain_recovered: 2,
            amplitude_recovery_method: 0,
            measurement_system: MeasurementSystem::Meters,
            impulse_polarity: 0,
            vibratory_polarity: 0,
            segy_revision: 0,
            fixed_length_trace_flag: 0,
            extended_textual_headers: 0,
            unassigned: vec![0u8; 334],
        }
    }
}

} // verus!
