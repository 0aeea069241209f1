//! Trace samples in the six encodings of SEG-Y.
//!
//! Floating-point samples are held as IEEE 754 single-precision bit
//! patterns: an IEEE sample as it lies in the file, an IBM sample after
//! conversion. Samples are big-endian in the file.

use crate::binary_header::{ByteOrder, DataSampleFormat};
use crate::error::AppError;
use crate::wire::{i16_at, i32_at, read_i16, read_i32, read_u32, signed8, u32_at};
use vstd::prelude::*;
use vstd::string::StringExecFns;

verus! {

/// Sample format of decoded trace data.
#[derive(Debug, Clone, Copy, PartialEq, Eq, Structural)]
pub enum SampleFormat {
    /// 32-bit IBM floating point.
    IbmFloat32,
    /// 32-bit two's complement integer.
    Int32,
    /// 16-bit two's complement integer.
    Int16,
    /// 32-bit fixed point with gain.
    FixedPointWithGain,
    /// 32-bit IEEE floating point.
    IeeeFloat32,
    /// 8-bit two's complement integer.
    Int8,
}

/// The sample format of decoded data that a format of the file gives: the
/// format of the same name.
pub open spec fn sample_format_of(format: DataSampleFormat) -> SampleFormat {
    match format {
        DataSampleFormat::IbmFloat32 => SampleFormat::IbmFloat32,
        DataSampleFormat::Int32 => SampleFormat::Int32,
        DataSampleFormat::Int16 => SampleFormat::Int16,
        DataSampleFormat::FixedPointWithGain => SampleFormat::FixedPointWithGain,
        DataSampleFormat::IeeeFloat32 => SampleFormat::IeeeFloat32,
        DataSampleFormat::Int8 => SampleFormat::Int8,
    }
}

impl From<DataSampleFormat> for SampleFormat {
    fn from(format: DataSampleFormat) -> (converted: SampleFormat)
        ensures
            converted == sample_format_of(format),
    {
        match format {
            DataSampleFormat::IbmFloat32 => SampleFormat::IbmFloat32,
            DataSampleFormat::Int32 => SampleFormat::Int32,
            DataSampleFormat::Int16 => SampleFormat::Int16,
            DataSampleFormat::FixedPointWithGain => SampleFormat::FixedPointWithGain,
            DataSampleFormat::IeeeFloat32 => SampleFormat::IeeeFloat32,
            DataSampleFormat::Int8 => SampleFormat::Int8,
        }
    }
}

impl vstd::std_specs::convert::FromSpecImpl<DataSampleFormat> for SampleFormat {
    open spec fn obeys_from_spec() -> bool {
        true
    }

    open spec fn from_spec(format: DataSampleFormat) -> SampleFormat {
        sample_format_of(format)
    }
}

/// A 24-bit mantissa and its binary exponent after the mantissa has been
/// doubled until its top bit (bit 23) is set, the exponent going down by
/// one for each doubling. A mantissa of zero is left alone.
pub open spec fn normalized(mantissa: int, exponent: int) -> (int, int)
    decreases 0x100_0000 - mantissa,
{
    if 0 < mantissa < 0x80_0000 {
        normalized(2 * mantissa, exponent - 1)
    } else {
        (mantissa, exponent)
    }
}

/// The IEEE 754 single-precision bit pattern that an IBM floating-point
/// word is converted to.
///
/// The IBM word is a sign bit, a 7-bit base-16 exponent in excess 64 and a
/// 24-bit mantissa. The binary exponent starts at `(e - 64) * 4 + 127`; the
/// mantissa is normalized and loses its leading bit. The word zero is zero;
/// an exponent of 0 or less gives a signed zero, one of 255 or more a
/// signed infinity.
pub open spec fn ibm_to_ieee_bits(ibm: u32) -> u32 {
    if ibm == 0 {
        0
    } else {
        let sign = ibm as int / 0x8000_0000;
        let exponent = (ibm as int / 0x100_0000) % 0x80;
        let mantissa = ibm as int % 0x100_0000;
        let (top, exp) = normalized(mantissa, (exponent - 64) * 4 + 127);
        let fraction = if mantissa == 0 {
            0
        } else {
            top - 0x80_0000
        };
        if exp <= 0 {
            (sign * 0x8000_0000) as u32
        } else if exp >= 255 {
            (sign * 0x8000_0000 + 0x7F80_0000) as u32
        } else {
            (sign * 0x8000_0000 + exp * 0x80_0000 + fraction) as u32
        }
    }
}

/// Whether an IEEE 754 single-precision bit pattern is a NaN: all exponent
/// bits set and a fraction that is not zero.
pub open spec fn is_nan_bits(bits: u32) -> bool {
    (bits as int / 0x80_0000) % 0x100 == 0xFF && bits as int % 0x80_0000 != 0
}

/// Normalizing a mantissa below 2^24 leaves it below 2^24, sets bit 23
/// unless the mantissa is zero, and never raises the exponent.
pub proof fn lemma_normalized_range(mantissa: int, exponent: int)
    requires
        0 <= mantissa < 0x100_0000,
    ensures
        mantissa > 0 ==> 0x80_0000 <= normalized(mantissa, exponent).0 < 0x100_0000,
        mantissa == 0 ==> normalized(mantissa, exponent) == (0int, exponent),
        normalized(mantissa, exponent).1 <= exponent,
    decreases 0x100_0000 - mantissa,
{
    if 0 < mantissa < 0x80_0000 {
        lemma_normalized_range(2 * mantissa, exponent - 1);
    }
}

/// Converting an IBM word never gives a NaN, and the word zero gives +0.0.
pub proof fn lemma_ibm_conversion_is_a_number(ibm: u32)
    ensures
        !is_nan_bits(ibm_to_ieee_bits(ibm)),
        ibm == 0 ==> ibm_to_ieee_bits(ibm) == 0,
{
    if ibm != 0 {
        let sign = ibm as int / 0x8000_0000;
        let exponent = (ibm as int / 0x100_0000) % 0x80;
        let mantissa = ibm as int % 0x100_0000;
        lemma_normalized_range(mantissa, (exponent - 64) * 4 + 127);
        let (top, exp) = normalized(mantissa, (exponent - 64) * 4 + 127);
        assert(sign == 0 || sign == 1);
    }
}

/// The samples of one trace.
#[derive(Debug)]
pub enum TraceData {
    /// IBM floating-point samples, converted to IEEE 754 bit patterns.
    IbmFloat32(Vec<u32>),
    /// 32-bit integer samples.
    Int32(Vec<i32>),
    /// 16-bit integer samples.
    Int16(Vec<i16>),
    /// Fixed-point samples as (gain code, value) pairs; the gain is not
    /// applied.
    FixedPointWithGain(Vec<(u8, i16)>),
    /// IEEE floating-point samples as IEEE 754 bit patterns.
    IeeeFloat32(Vec<u32>),
    /// 8-bit integer samples.
    Int8(Vec<i8>),
}

/// The stride that brings `len` samples down to at most `max_samples`.
pub open spec fn stride_for(len: int, max_samples: int) -> int {
    (len + max_samples - 1) / max_samples
}

/// A sequence brought down to at most `max_samples` elements: unchanged if
/// it fits, else every `stride`-th element from index 0 on.
pub open spec fn downsampled<T>(samples: Seq<T>, max_samples: int) -> Seq<T> {
    if samples.len() <= max_samples {
        samples
    } else {
        let stride = stride_for(samples.len() as int, max_samples);
        Seq::new(
            ((samples.len() + stride - 1) / stride) as nat,
            |i: int| samples[strided_index(i, stride)],
        )
    }
}

impl TraceData {
    /// Number of samples.
    pub open spec fn count(self) -> nat {
        match self {
            TraceData::IbmFloat32(v) => v@.len(),
            TraceData::Int32(v) => v@.len(),
            TraceData::Int16(v) => v@.len(),
            TraceData::FixedPointWithGain(v) => v@.len(),
            TraceData::IeeeFloat32(v) => v@.len(),
            TraceData::Int8(v) => v@.len(),
        }
    }

    /// The sample format of the data.
    pub open spec fn format(self) -> DataSampleFormat {
        match self {
            TraceData::IbmFloat32(_) => DataSampleFormat::IbmFloat32,
            TraceData::Int32(_) => DataSampleFormat::Int32,
            TraceData::Int16(_) => DataSampleFormat::Int16,
            TraceData::FixedPointWithGain(_) => DataSampleFormat::FixedPointWithGain,
            TraceData::IeeeFloat32(_) => DataSampleFormat::IeeeFloat32,
            TraceData::Int8(_) => DataSampleFormat::Int8,
        }
    }

    /// Whether this is what `count` samples at the start of `data` decode
    /// to, sample by sample.
    pub open spec fn holds(self, data: Seq<u8>, count: int) -> bool {
        &&& self.count() == count
        &&& match self {
            TraceData::IbmFloat32(v) => forall|i: int|
                0 <= i < count ==> #[trigger] v@[i] == ibm_to_ieee_bits(
                    u32_at(data, 4 * i, ByteOrder::BigEndian) as u32,
                ),
            TraceData::Int32(v) => forall|i: int|
                0 <= i < count ==> #[trigger] v@[i] == i32_at(data, 4 * i, ByteOrder::BigEndian),
            TraceData::Int16(v) => forall|i: int|
                0 <= i < count ==> #[trigger] v@[i] == i16_at(data, 2 * i, ByteOrder::BigEndian),
            TraceData::FixedPointWithGain(v) => forall|i: int|
                0 <= i < count ==> (#[trigger] v@[i]).0 == data[4 * i + 1] && v@[i].1 == i16_at(
                    data,
                    4 * i + 2,
                    ByteOrder::BigEndian,
                ),
            TraceData::IeeeFloat32(v) => forall|i: int|
                0 <= i < count ==> #[trigger] v@[i] == u32_at(data, 4 * i, ByteOrder::BigEndian),
            TraceData::Int8(v) => forall|i: int|
                0 <= i < count ==> #[trigger] v@[i] == signed8(data[i] as int),
        }
    }

    /// Whether two values hold the same samples in the same format.
    pub open spec fn same_as(self, other: TraceData) -> bool {
        match (self, other) {
            (TraceData::IbmFloat32(a), TraceData::IbmFloat32(b)) => a@ == b@,
            (TraceData::Int32(a), TraceData::Int32(b)) => a@ == b@,
            (TraceData::Int16(a), TraceData::Int16(b)) => a@ == b@,
            (TraceData::FixedPointWithGain(a), TraceData::FixedPointWithGain(b)) => a@ == b@,
            (TraceData::IeeeFloat32(a), TraceData::IeeeFloat32(b)) => a@ == b@,
            (TraceData::Int8(a), TraceData::Int8(b)) => a@ == b@,
            _ => false,
        }
    }

    /// Whether this is `other` brought down to at most `max_samples`
    /// samples.
    pub open spec fn is_downsampled(self, other: TraceData, max_samples: int) -> bool {
        match (self, other) {
            (TraceData::IbmFloat32(a), TraceData::IbmFloat32(b)) => a@ == downsampled(
                b@,
                max_samples,
            ),
            (TraceData::Int32(a), TraceData::Int32(b)) => a@ == downsampled(b@, max_samples),
            (TraceData::Int16(a), TraceData::Int16(b)) => a@ == downsampled(b@, max_samples),
            (TraceData::FixedPointWithGain(a), TraceData::FixedPointWithGain(b)) => a@
                == downsampled(b@, max_samples),
            (TraceData::IeeeFloat32(a), TraceData::IeeeFloat32(b)) => a@ == downsampled(
                b@,
                max_samples,
            ),
            (TraceData::Int8(a), TraceData::Int8(b)) => a@ == downsampled(b@, max_samples),
            _ => false,
        }
    }

    /// Decodes `num_samples` samples of the given format from the start of
    /// `reader`.
    ///
    /// Fails with `ValidationError` when the size of the samples in bytes
    /// does not fit the machine's address range, and with `SegyError` when
    /// `reader` holds fewer bytes than that size.
    pub fn from_reader(reader: &[u8], format: DataSampleFormat, num_samples: usize) -> (parsed:
        Result<TraceData, AppError>)
        ensures
            parsed is Ok <==> num_samples * format.width() <= reader@.len(),
            parsed matches Ok(samples) ==> samples.format() == format && samples.holds(
                reader@,
                num_samples as int,
            ),
            parsed matches Err(error) ==> if num_samples * format.width() > usize::MAX {
                error is ValidationError
            } else {
                error is SegyError
            },
    {
        assert(reader@.len() == reader.len());
        let byte_count = match num_samples.checked_mul(format.bytes_per_sample()) {
            Some(byte_count) => byte_count,
            None => {
                return Err(
                    AppError::ValidationError {
                        message: String::from_str("Trace data size overflow"),
                    },
                );
            },
        };
        if reader.len() < byte_count {
            return Err(
                AppError::SegyError {
                    message: String::from_str("Trace data is shorter than its samples"),
                },
            );
        }
        Ok(
            match format {
                DataSampleFormat::IbmFloat32 => TraceData::IbmFloat32(
                    TraceData::read_ibm_float32(reader, num_samples),
                ),
                DataSampleFormat::Int32 => TraceData::Int32(
                    TraceData::read_int32(reader, num_samples),
                ),
                DataSampleFormat::Int16 => TraceData::Int16(
                    TraceData::read_int16(reader, num_samples),
                ),
                DataSampleFormat::FixedPointWithGain => TraceData::FixedPointWithGain(
                    TraceData::read_fixed_point_with_gain(reader, num_samples),
                ),
                DataSampleFormat::IeeeFloat32 => TraceData::IeeeFloat32(
                    TraceData::read_ieee_float32(reader, num_samples),
                ),
                DataSampleFormat::Int8 => TraceData::Int8(
                    TraceData::read_int8(reader, num_samples),
                ),
            },
        )
    }

    /// Decodes IBM floating-point samples and converts each to IEEE 754.
    fn read_ibm_float32(reader: &[u8], count: usize) -> (samples: Vec<u32>)
        requires
            count * 4 <= reader@.len(),
        ensures
            TraceData::IbmFloat32(samples).holds(reader@, count as int),
    {
        assert(reader@.len() == reader.len());
        let mut samples: Vec<u32> = Vec::new();
        let mut i: usize = 0;
        while i < count
            invariant
                i <= count,
                count * 4 <= reader@.len() <= usize::MAX,
                samples@.len() == i,
                forall|k: int|
                    0 <= k < i ==> #[trigger] samples@[k] == ibm_to_ieee_bits(
                        u32_at(reader@, 4 * k, ByteOrder::BigEndian) as u32,
                    ),
            decreases count - i,
        {
            let raw = read_u32(reader, i * 4, ByteOrder::BigEndian);
            samples.push(TraceData::ibm_to_ieee_fast(raw));
            i += 1;
        }
        samples
    }

    /// Converts an IBM floating-point word to an IEEE 754 bit pattern.
    pub fn ibm_to_ieee_fast(ibm: u32) -> (bits: u32)
        ensures
            bits == ibm_to_ieee_bits(ibm),
    {
        if ibm == 0 {
            return 0;
        }
        let sign: u32 = (ibm >> 31) & 0x1;
        let exponent: i32 = ((ibm >> 24) & 0x7F) as i32;
        let mantissa: u32 = ibm & 0x00FF_FFFF;
        assert(sign == ibm / 0x8000_0000 && sign <= 1) by (bit_vector)
            requires
                sign == (ibm >> 31) & 0x1,
        ;
        assert(((ibm >> 24) & 0x7F) == (ibm / 0x100_0000) % 0x80) by (bit_vector);
        assert(mantissa == ibm % 0x100_0000 && mantissa < 0x100_0000) by (bit_vector)
            requires
                mantissa == ibm & 0x00FF_FFFF,
        ;

        let ieee_exponent: i32 = ((exponent - 64) * 4) + 127;
        let mut ieee_mantissa: u32 = mantissa;
        let mut ieee_exp: i32 = ieee_exponent;

        if ieee_mantissa != 0 {
            while (ieee_mantissa & 0x0080_0000) == 0
                invariant
                    0 < ieee_mantissa < 0x100_0000,
                    0 < mantissa < 0x100_0000,
                    -129 <= ieee_exponent <= 379,
                    ieee_exp <= ieee_exponent,
                    ieee_exp + ieee_mantissa >= ieee_exponent + mantissa,
                    normalized(ieee_mantissa as int, ieee_exp as int) == normalized(
                        mantissa as int,
                        ieee_exponent as int,
                    ),
                decreases 0x100_0000 - ieee_mantissa,
            {
                let before = ieee_mantissa;
                assert(before < 0x80_0000 && (before << 1) == 2 * before) by (bit_vector)
                    requires
                        (before & 0x0080_0000) == 0,
                        before < 0x100_0000,
                ;
                ieee_mantissa <<= 1;
                ieee_exp -= 1;
            }
            let top = ieee_mantissa;
            assert(top >= 0x80_0000 && (top & 0x007F_FFFF) == top - 0x80_0000) by (bit_vector)
                requires
                    (top & 0x0080_0000) != 0,
                    top < 0x100_0000,
            ;
            ieee_mantissa &= 0x007F_FFFF;
        }
        if ieee_exp <= 0 {
            assert((sign << 31) == sign * 0x8000_0000) by (bit_vector)
                requires
                    sign <= 1,
            ;
            return sign << 31;
        }
        if ieee_exp >= 255 {
            assert(((sign << 31) | 0x7F80_0000) == sign * 0x8000_0000 + 0x7F80_0000)
                by (bit_vector)
                requires
                    sign <= 1,
            ;
            return (sign << 31) | 0x7F80_0000;
        }
        let exp_bits: u32 = ieee_exp as u32;
        let fraction: u32 = ieee_mantissa;
        assert(((sign << 31) | (exp_bits << 23) | fraction) == sign * 0x8000_0000 + exp_bits
            * 0x80_0000 + fraction) by (bit_vector)
            requires
                sign <= 1,
                exp_bits < 255,
                fraction < 0x80_0000,
        ;
        (sign << 31) | (exp_bits << 23) | fraction
    }

    /// Converts an IBM floating-point word to an IEEE 754 bit pattern.
    pub fn ibm_to_ieee(ibm: u32) -> (bits: u32)
        ensures
            bits == ibm_to_ieee_bits(ibm),
    {
        TraceData::ibm_to_ieee_fast(ibm)
    }

    /// Decodes 32-bit integer samples.
    fn read_int32(reader: &[u8], count: usize) -> (samples: Vec<i32>)
        requires
            count * 4 <= reader@.len(),
        ensures
            TraceData::Int32(samples).holds(reader@, count as int),
    {
        assert(reader@.len() == reader.len());
        let mut samples: Vec<i32> = Vec::new();
        let mut i: usize = 0;
        while i < count
            invariant
                i <= count,
                count * 4 <= reader@.len() <= usize::MAX,
                samples@.len() == i,
                forall|k: int|
                    0 <= k < i ==> #[trigger] samples@[k] == i32_at(
                        reader@,
                        4 * k,
                        ByteOrder::BigEndian,
                    ),
            decreases count - i,
        {
            samples.push(read_i32(reader, i * 4, ByteOrder::BigEndian));
            i += 1;
        }
        samples
    }

    /// Decodes 16-bit integer samples.
    fn read_int16(reader: &[u8], count: usize) -> (samples: Vec<i16>)
        requires
            count * 2 <= reader@.len(),
        ensures
            TraceData::Int16(samples).holds(reader@, count as int),
    {
        assert(reader@.len() == reader.len());
        let mut samples: Vec<i16> = Vec::new();
        let mut i: usize = 0;
        while i < count
            invariant
                i <= count,
                count * 2 <= reader@.len() <= usize::MAX,
                samples@.len() == i,
                forall|k: int|
                    0 <= k < i ==> #[trigger] samples@[k] == i16_at(
                        reader@,
                        2 * k,
                        ByteOrder::BigEndian,
                    ),
            decreases count - i,
        {
            samples.push(read_i16(reader, i * 2, ByteOrder::BigEndian));
            i += 1;
        }
        samples
    }

    /// Decodes IEEE floating-point samples, keeping their bit patterns.
    fn read_ieee_float32(reader: &[u8], count: usize) -> (samples: Vec<u32>)
        requires
            count * 4 <= reader@.len(),
        ensures
            TraceData::IeeeFloat32(samples).holds(reader@, count as int),
    {
        assert(reader@.len() == reader.len());
        let mut samples: Vec<u32> = Vec::new();
        let mut i: usize = 0;
        while i < count
            invariant
                i <= count,
                count * 4 <= reader@.len() <= usize::MAX,
                samples@.len() == i,
                forall|k: int|
                    0 <= k < i ==> #[trigger] samples@[k] == u32_at(
                        reader@,
                        4 * k,
                        ByteOrder::BigEndian,
                    ),
            decreases count - i,
        {
            samples.push(read_u32(reader, i * 4, ByteOrder::BigEndian));
            i += 1;
        }
        samples
    }

    /// Decodes 8-bit integer samples.
    fn read_int8(reader: &[u8], count: usize) -> (samples: Vec<i8>)
        requires
            count <= reader@.len(),
        ensures
            TraceData::Int8(samples).holds(reader@, count as int),
    {
        let mut samples: Vec<i8> = Vec::new();
        let mut i: usize = 0;
        while i < count
            invariant
                i <= count,
                count <= reader@.len(),
                samples@.len() == i,
                forall|k: int|
                    0 <= k < i ==> #[trigger] samples@[k] == signed8(reader@[k] as int),
            decreases count - i,
        {
            let byte = reader[i];
            let sample: i8 = if byte >= 0x80 {
                (byte as i16 - 0x100) as i8
            } else {
                byte as i8
            };
            samples.push(sample);
            i += 1;
        }
        samples
    }

    /// Decodes fixed-point samples: of each four bytes the first is
    /// ignored, the second is the gain code and the last two are the value.
    fn read_fixed_point_with_gain(reader: &[u8], count: usize) -> (samples: Vec<(u8, i16)>)
        requires
            count * 4 <= reader@.len(),
        ensures
            TraceData::FixedPointWithGain(samples).holds(reader@, count as int),
    {
        assert(reader@.len() == reader.len());
        let mut samples: Vec<(u8, i16)> = Vec::new();
        let mut i: usize = 0;
        while i < count
            invariant
                i <= count,
                count * 4 <= reader@.len() <= usize::MAX,
                samples@.len() == i,
                forall|k: int|
                    0 <= k < i ==> (#[trigger] samples@[k]).0 == reader@[4 * k + 1]
                        && samples@[k].1 == i16_at(reader@, 4 * k + 2, ByteOrder::BigEndian),
            decreases count - i,
        {
            let gain = reader[i * 4 + 1];
            let value = read_i16(reader, i * 4 + 2, ByteOrder::BigEndian);
            samples.push((gain, value));
            i += 1;
        }
        samples
    }

    /// Number of samples in the trace.
    pub fn len(&self) -> (count: usize)
        ensures
            count == self.count(),
    {
        match self {
            TraceData::IbmFloat32(v) => v.len(),
            TraceData::Int32(v) => v.len(),
            TraceData::Int16(v) => v.len(),
            TraceData::FixedPointWithGain(v) => v.len(),
            TraceData::IeeeFloat32(v) => v.len(),
            TraceData::Int8(v) => v.len(),
        }
    }

    /// Whether the trace has no samples.
    pub fn is_empty(&self) -> (empty: bool)
        ensures
            empty == (self.count() == 0),
    {
        self.len() == 0
    }

    /// Brings the trace down to at most `max_samples` samples, keeping
    /// every `stride`-th one. A limit of 0 leaves the trace as it is.
    pub fn downsample(self, max_samples: usize) -> (reduced: TraceData)
        ensures
            max_samples == 0 ==> reduced.same_as(self),
            max_samples > 0 ==> reduced.is_downsampled(self, max_samples as int),
    {
        if max_samples == 0 {
            return self;
        }
        match self {
            TraceData::IbmFloat32(samples) => TraceData::IbmFloat32(
                downsample_vec(samples, max_samples),
            ),
            TraceData::Int32(samples) => TraceData::Int32(downsample_vec(samples, max_samples)),
            TraceData::Int16(samples) => TraceData::Int16(downsample_vec(samples, max_samples)),
            TraceData::FixedPointWithGain(samples) => TraceData::FixedPointWithGain(
                downsample_vec(samples, max_samples),
            ),
            TraceData::IeeeFloat32(samples) => TraceData::IeeeFloat32(
                downsample_vec(samples, max_samples),
            ),
            TraceData::Int8(samples) => TraceData::Int8(downsample_vec(samples, max_samples)),
        }
    }
}

/// Brings a vector down to at most `max_samples` elements with a fixed
/// stride: unchanged if it fits, else every `stride`-th element from index
/// 0 on, where `stride` is `len / max_samples` rounded up.
pub fn downsample_vec<T: Copy>(samples: Vec<T>, max_samples: usize) -> (reduced: Vec<T>)
    requires
        max_samples > 0 || samples@.len() == 0,
    ensures
        reduced@ == downsampled(samples@, max_samples as int),
{
    let len = samples.len();
    if len <= max_samples {
        return samples;
    }
    let stride = (len - 1) / max_samples + 1;
    assert(strided_index(0, stride as int) == 0);
    assert(stride == stride_for(len as int, max_samples as int)) by (nonlinear_arith)
        requires
            stride == (len - 1) / (max_samples as int) + 1,
            max_samples > 0,
            len > 0,
    ;
    let mut reduced: Vec<T> = Vec::new();
    let mut idx: usize = 0;
    while idx < len
        invariant
            stride > 0,
            stride == stride_for(len as int, max_samples as int),
            len == samples@.len(),
            len > max_samples,
            idx < len,
            idx == strided_index(reduced@.len() as int, stride as int),
            forall|k: int|
                0 <= k < reduced@.len() ==> #[trigger] reduced@[k] == samples@[strided_index(
                    k,
                    stride as int,
                )],
        decreases len - idx,
    {
        let ghost taken = reduced@.len() as int;
        reduced.push(samples[idx]);
        assert(strided_index(taken + 1, stride as int) == idx + stride) by (nonlinear_arith)
            requires
                idx == strided_index(taken, stride as int),
        ;
        if len - idx <= stride {
            proof {
                lemma_stride_count(len as int, stride as int, taken + 1);
            }
            assert(reduced@ =~= downsampled(samples@, max_samples as int));
            return reduced;
        }
        idx += stride;
    }
    reduced
}

/// Index of the `k`-th element that a stride keeps.
pub open spec fn strided_index(k: int, stride: int) -> int {
    k * stride
}

/// A downsampled sequence has at most `max_samples` elements, starts with
/// the first element, and holds `len / stride` elements, rounded up, where
/// it was reduced.
pub proof fn lemma_downsampled_fits<T>(samples: Seq<T>, max_samples: int)
    requires
        max_samples > 0,
    ensures
        downsampled(samples, max_samples).len() <= max_samples,
        downsampled(samples, max_samples).len() <= samples.len(),
        samples.len() > 0 ==> downsampled(samples, max_samples).len() > 0 && downsampled(
            samples,
            max_samples,
        )[0] == samples[0],
        samples.len() > max_samples ==> downsampled(samples, max_samples).len() == (samples.len()
            + stride_for(samples.len() as int, max_samples) - 1) / stride_for(
            samples.len() as int,
            max_samples,
        ),
{
    if samples.len() > max_samples {
        let len = samples.len() as int;
        let stride = stride_for(len, max_samples);
        lemma_stride_bounds(len, max_samples, stride, (len + stride - 1) / stride);
        assert(strided_index(0, stride) == 0);
    }
}

/// The stride for `len` elements and a limit below `len` is at least 1, and
/// the elements it keeps are at least one, no more than the limit and no
/// more than `len`.
proof fn lemma_stride_bounds(len: int, max_samples: int, stride: int, kept: int)
    by (nonlinear_arith)
    requires
        0 < max_samples < len,
        stride == (len + max_samples - 1) / max_samples,
        kept == (len + stride - 1) / stride,
    ensures
        stride >= 1,
        1 <= kept <= max_samples,
        kept <= len,
{
}

/// `count` strides cover `len` exactly when `count` is `len / stride`
/// rounded up.
proof fn lemma_stride_count(len: int, stride: int, count: int)
    by (nonlinear_arith)
    requires
        stride > 0,
        count >= 1,
        strided_index(count - 1, stride) < len,
        len <= strided_index(count, stride),
    ensures
        (len + stride - 1) / stride == count,
{
}

} // verus!
