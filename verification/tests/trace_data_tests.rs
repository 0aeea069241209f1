use tracelens::binary_header::DataSampleFormat;
use tracelens::error::AppError;
use tracelens::trace_data::{downsample_vec, SampleFormat, TraceData};

#[test]
fn test_ibm_float_zero() {
    let result = f32::from_bits(TraceData::ibm_to_ieee(0x00000000));
    assert_eq!(result, 0.0);
}

#[test]
fn test_ibm_float_simple() {
    // Test a known IBM float value
    let result = f32::from_bits(TraceData::ibm_to_ieee(0x41100000));
    // The conversion algorithm produces a value
    assert!(result.is_finite());
}

#[test]
fn test_trace_data_len() {
    let data = TraceData::Int16(vec![1, 2, 3, 4, 5]);
    assert_eq!(data.len(), 5);
    assert!(!data.is_empty());
}

#[test]
fn test_trace_data_downsample() {
    let data = TraceData::Int16(vec![1, 2, 3, 4, 5, 6, 7, 8, 9, 10]);
    let downsampled = data.downsample(4);
    match downsampled {
        TraceData::Int16(samples) => {
            assert_eq!(samples, vec![1, 4, 7, 10]);
        }
        _ => panic!("Unexpected trace data variant"),
    }
}

#[test]
fn ibm_conversion_exact_bit_patterns() {
    // exponent 65: (65 - 64) * 4 + 127 = 131; mantissa 0x100000 needs 3 shifts.
    assert_eq!(TraceData::ibm_to_ieee(0x4110_0000), (128u32 << 23));
    assert_eq!(TraceData::ibm_to_ieee_fast(0x4110_0000), 0x4000_0000);
    // Sign bit carried over.
    assert_eq!(TraceData::ibm_to_ieee(0xC110_0000), 0xC000_0000);
    // Top bit already set: no shift, leading bit stripped.
    assert_eq!(TraceData::ibm_to_ieee(0x40C0_0000), (127u32 << 23) | 0x0040_0000);
    // A mantissa of zero is left alone.
    assert_eq!(TraceData::ibm_to_ieee(0x4100_0000), 131u32 << 23);
    // Underflow: signed zero.
    assert_eq!(TraceData::ibm_to_ieee(0x0010_0000), 0);
    assert_eq!(TraceData::ibm_to_ieee(0x8000_0000), 0x8000_0000);
    assert_eq!(TraceData::ibm_to_ieee(0x2080_0000), 0);
    // Overflow: signed infinity.
    assert_eq!(f32::from_bits(TraceData::ibm_to_ieee(0x7F80_0000)), f32::INFINITY);
    assert_eq!(f32::from_bits(TraceData::ibm_to_ieee(0xFF80_0000)), f32::NEG_INFINITY);
    assert_eq!(TraceData::ibm_to_ieee(0x6080_0000), 0x7F80_0000);
    // Largest finite exponent: (95 - 64) * 4 + 127 = 251.
    assert_eq!(TraceData::ibm_to_ieee(0x5F80_0000), 251u32 << 23);
}

#[test]
fn ibm_conversion_never_gives_nan() {
    let mut word: u32 = 1;
    for _ in 0..200_000 {
        let value = f32::from_bits(TraceData::ibm_to_ieee(word));
        assert!(!value.is_nan(), "word {:#x}", word);
        word = word.wrapping_mul(1_664_525).wrapping_add(1_013_904_223);
    }
    for exponent in 0u32..128 {
        for mantissa in [0u32, 1, 0x80_0000, 0xFF_FFFF] {
            for sign in [0u32, 1] {
                let word = (sign << 31) | (exponent << 24) | mantissa;
                assert!(!f32::from_bits(TraceData::ibm_to_ieee(word)).is_nan());
            }
        }
    }
}

#[test]
fn downsample_ten_to_four() {
    let samples: Vec<i32> = (1..=10).collect();
    assert_eq!(downsample_vec(samples, 4), vec![1, 4, 7, 10]);
}

#[test]
fn downsample_keeps_what_fits_and_strides_the_rest() {
    assert_eq!(downsample_vec(vec![1u8, 2, 3], 3), vec![1, 2, 3]);
    assert_eq!(downsample_vec(vec![1u8, 2, 3], 10), vec![1, 2, 3]);
    assert_eq!(downsample_vec(Vec::<u8>::new(), 1), Vec::<u8>::new());
    assert_eq!(downsample_vec(Vec::<u8>::new(), 0), Vec::<u8>::new());
    assert_eq!(downsample_vec(vec![1u8, 2, 3], 1), vec![1]);
    // stride = ceil(9 / 4) = 3, length = ceil(9 / 3) = 3
    assert_eq!(downsample_vec((0..9).collect::<Vec<i32>>(), 4), vec![0, 3, 6]);
    // stride = ceil(7 / 6) = 2, length = ceil(7 / 2) = 4
    assert_eq!(downsample_vec((0..7).collect::<Vec<i32>>(), 6), vec![0, 2, 4, 6]);
    for len in 0usize..60 {
        for max in 1usize..20 {
            let reduced = downsample_vec((0..len).collect::<Vec<usize>>(), max);
            assert!(reduced.len() <= max.max(len.min(max)));
            if len > max {
                let stride = (len + max - 1) / max;
                assert_eq!(reduced.len(), (len + stride - 1) / stride);
                for (k, value) in reduced.iter().enumerate() {
                    assert_eq!(*value, k * stride);
                }
            }
        }
    }
}

#[test]
fn downsample_with_zero_limit_keeps_all() {
    let data = TraceData::Int8(vec![1, 2, 3]);
    match data.downsample(0) {
        TraceData::Int8(samples) => assert_eq!(samples, vec![1, 2, 3]),
        _ => panic!("Unexpected trace data variant"),
    }
    let data = TraceData::FixedPointWithGain(vec![(1, 10), (2, 20), (3, 30)]);
    match data.downsample(2) {
        TraceData::FixedPointWithGain(samples) => assert_eq!(samples, vec![(1, 10), (3, 30)]),
        _ => panic!("Unexpected trace data variant"),
    }
    assert!(TraceData::IbmFloat32(vec![]).is_empty());
}

#[test]
fn samples_of_every_format() {
    let bytes = [0x41u8, 0x10, 0x00, 0x00, 0xFF, 0xFF, 0xFF, 0xFE];
    match TraceData::from_reader(&bytes, DataSampleFormat::IbmFloat32, 1).unwrap() {
        TraceData::IbmFloat32(v) => assert_eq!(v, vec![0x4000_0000]),
        _ => panic!("Unexpected trace data variant"),
    }
    match TraceData::from_reader(&bytes, DataSampleFormat::Int32, 2).unwrap() {
        TraceData::Int32(v) => assert_eq!(v, vec![0x4110_0000, -2]),
        _ => panic!("Unexpected trace data variant"),
    }
    match TraceData::from_reader(&bytes, DataSampleFormat::Int16, 4).unwrap() {
        TraceData::Int16(v) => assert_eq!(v, vec![0x4110, 0, -1, -2]),
        _ => panic!("Unexpected trace data variant"),
    }
    match TraceData::from_reader(&bytes, DataSampleFormat::FixedPointWithGain, 2).unwrap() {
        TraceData::FixedPointWithGain(v) => assert_eq!(v, vec![(0x10, 0), (0xFF, -2)]),
        _ => panic!("Unexpected trace data variant"),
    }
    match TraceData::from_reader(&bytes, DataSampleFormat::IeeeFloat32, 2).unwrap() {
        TraceData::IeeeFloat32(v) => assert_eq!(v, vec![0x4110_0000, 0xFFFF_FFFE]),
        _ => panic!("Unexpected trace data variant"),
    }
    match TraceData::from_reader(&bytes, DataSampleFormat::Int8, 8).unwrap() {
        TraceData::Int8(v) => assert_eq!(v, vec![0x41, 0x10, 0, 0, -1, -1, -1, -2]),
        _ => panic!("Unexpected trace data variant"),
    }
    // An IEEE sample keeps its bits: 0x3F800000 is 1.0.
    match TraceData::from_reader(&[0x3F, 0x80, 0, 0], DataSampleFormat::IeeeFloat32, 1).unwrap() {
        TraceData::IeeeFloat32(v) => assert_eq!(f32::from_bits(v[0]), 1.0),
        _ => panic!("Unexpected trace data variant"),
    }
}

#[test]
fn samples_missing_or_too_many() {
    let bytes = [0u8; 7];
    assert!(matches!(
        TraceData::from_reader(&bytes, DataSampleFormat::Int32, 2),
        Err(AppError::SegyError { .. })
    ));
    assert!(matches!(
        TraceData::from_reader(&bytes, DataSampleFormat::Int32, usize::MAX),
        Err(AppError::ValidationError { .. })
    ));
    assert!(matches!(
        TraceData::from_reader(&bytes, DataSampleFormat::Int8, usize::MAX),
        Err(AppError::SegyError { .. })
    ));
    match TraceData::from_reader(&bytes, DataSampleFormat::Int16, 0).unwrap() {
        TraceData::Int16(v) => assert!(v.is_empty()),
        _ => panic!("Unexpected trace data variant"),
    }
}

#[test]
fn sample_format_from_data_sample_format() {
    assert_eq!(SampleFormat::from(DataSampleFormat::IbmFloat32), SampleFormat::IbmFloat32);
    assert_eq!(SampleFormat::from(DataSampleFormat::Int32), SampleFormat::Int32);
    assert_eq!(SampleFormat::from(DataSampleFormat::Int16), SampleFormat::Int16);
    assert_eq!(
        SampleFormat::from(DataSampleFormat::FixedPointWithGain),
        SampleFormat::FixedPointWithGain
    );
    assert_eq!(SampleFormat::from(DataSampleFormat::IeeeFloat32), SampleFormat::IeeeFloat32);
    assert_eq!(SampleFormat::from(DataSampleFormat::Int8), SampleFormat::Int8);
}
