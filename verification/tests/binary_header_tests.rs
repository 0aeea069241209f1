use tracelens::binary_header::{
    detect_endianness, BinaryHeader, ByteOrder, DataSampleFormat, MeasurementSystem,
    TraceSortingCode,
};
use tracelens::error::AppError;

fn put_be16(buf: &mut [u8], at: usize, value: u16) {
    buf[at] = (value >> 8) as u8;
    buf[at + 1] = (value & 0xFF) as u8;
}

fn put_le16(buf: &mut [u8], at: usize, value: u16) {
    buf[at] = (value & 0xFF) as u8;
    buf[at + 1] = (value >> 8) as u8;
}

fn big_endian_header() -> Vec<u8> {
    let mut buf = vec![0u8; 400];
    buf[0..4].copy_from_slice(&[0x00, 0x01, 0x02, 0x03]);
    buf[4..8].copy_from_slice(&[0xFF, 0xFF, 0xFF, 0xFE]);
    put_be16(&mut buf, 12, 24);
    put_be16(&mut buf, 16, 1000);
    put_be16(&mut buf, 20, 2000);
    put_be16(&mut buf, 24, 5);
    put_be16(&mut buf, 26, 0xFFFF);
    put_be16(&mut buf, 28, 2);
    put_be16(&mut buf, 54, 1);
    buf[60] = 0xAA;
    buf[299] = 0xBB;
    put_be16(&mut buf, 300, 0x0201);
    put_be16(&mut buf, 302, 1);
    put_be16(&mut buf, 304, 3);
    buf[306] = 0xCC;
    buf[399] = 0xDD;
    buf
}

#[test]
fn test_data_sample_format_bytes() {
    assert_eq!(DataSampleFormat::IbmFloat32.bytes_per_sample(), 4);
    assert_eq!(DataSampleFormat::Int32.bytes_per_sample(), 4);
    assert_eq!(DataSampleFormat::Int16.bytes_per_sample(), 2);
    assert_eq!(DataSampleFormat::FixedPointWithGain.bytes_per_sample(), 4);
}

#[test]
fn test_trace_block_size() {
    let header = BinaryHeader {
        samples_per_trace: 1000,
        data_sample_format: DataSampleFormat::IbmFloat32,
        ..Default::default()
    };

    assert_eq!(header.trace_block_size(), 240 + 1000 * 4);
}

#[test]
fn bytes_per_sample_of_every_code() {
    let expected = [(1i16, 4usize), (2, 4), (3, 2), (4, 4), (5, 4), (8, 1)];
    for (code, width) in expected {
        let format = DataSampleFormat::from_code(code).unwrap();
        assert_eq!(format.bytes_per_sample(), width);
        assert_eq!(format.code(), code);
    }
    for code in [0i16, 6, 7, 9, -1, 100, i16::MIN, i16::MAX] {
        assert!(DataSampleFormat::from_code(code).is_err());
    }
    assert_eq!(
        DataSampleFormat::from_code(7).unwrap_err(),
        "Invalid data sample format code: 7"
    );
}

#[test]
fn sorting_and_measurement_codes() {
    assert_eq!(TraceSortingCode::from_code(0), Ok(TraceSortingCode::Unknown));
    assert_eq!(TraceSortingCode::from_code(1), Ok(TraceSortingCode::AsRecorded));
    assert_eq!(TraceSortingCode::from_code(2), Ok(TraceSortingCode::CdpEnsemble));
    assert_eq!(TraceSortingCode::from_code(3), Ok(TraceSortingCode::SingleFold));
    assert_eq!(TraceSortingCode::from_code(4), Ok(TraceSortingCode::HorizontallyStacked));
    assert_eq!(
        TraceSortingCode::from_code(5),
        Err("Invalid trace sorting code: 5".to_string())
    );
    assert!(TraceSortingCode::from_code(-1).is_err());
    assert_eq!(MeasurementSystem::from_code(0), Ok(MeasurementSystem::Unknown));
    assert_eq!(MeasurementSystem::from_code(1), Ok(MeasurementSystem::Meters));
    assert_eq!(MeasurementSystem::from_code(2), Ok(MeasurementSystem::Feet));
    assert_eq!(
        MeasurementSystem::from_code(3),
        Err("Invalid measurement system code: 3".to_string())
    );
}

#[test]
fn endianness_big_when_plausible_as_big() {
    let mut buf = vec![0u8; 400];
    put_be16(&mut buf, 16, 1000);
    put_be16(&mut buf, 20, 2000);
    assert_eq!(detect_endianness(&buf), ByteOrder::BigEndian);
}

#[test]
fn endianness_little_when_plausible_only_as_little() {
    let mut buf = vec![0u8; 400];
    // 0x0080 little-endian is 128; big-endian it is 0x8000, a negative number.
    put_le16(&mut buf, 16, 128);
    put_le16(&mut buf, 20, 128);
    assert_eq!(detect_endianness(&buf), ByteOrder::LittleEndian);
}

#[test]
fn endianness_defaults_to_big() {
    let buf = vec![0u8; 400];
    assert_eq!(detect_endianness(&buf), ByteOrder::BigEndian);
    // Plausible in both orders: 0x0101 is 257 either way.
    let mut both = vec![0u8; 400];
    put_be16(&mut both, 16, 0x0101);
    put_be16(&mut both, 20, 0x0101);
    assert_eq!(detect_endianness(&both), ByteOrder::BigEndian);
    // Too short to tell.
    assert_eq!(detect_endianness(&[0u8; 21]), ByteOrder::BigEndian);
    // The bounds are strict: 32000 is not plausible.
    let mut edge = vec![0u8; 400];
    put_le16(&mut edge, 16, 32000);
    put_le16(&mut edge, 20, 100);
    assert_eq!(detect_endianness(&edge), ByteOrder::BigEndian);
}

#[test]
fn binary_header_fields_big_endian() {
    let buf = big_endian_header();
    let header = BinaryHeader::from_reader(&buf).unwrap();
    assert_eq!(header.byte_order, ByteOrder::BigEndian);
    assert_eq!(header.job_id, 0x00010203);
    assert_eq!(header.line_number, -2);
    assert_eq!(header.traces_per_record, 24);
    assert_eq!(header.sample_interval_us, 1000);
    assert_eq!(header.samples_per_trace, 2000);
    assert_eq!(header.data_sample_format, DataSampleFormat::IeeeFloat32);
    assert_eq!(header.cdp_fold, -1);
    assert_eq!(header.trace_sorting, TraceSortingCode::CdpEnsemble);
    assert_eq!(header.measurement_system, MeasurementSystem::Meters);
    assert_eq!(header.segy_revision, 0x0201);
    assert_eq!(header.fixed_length_trace_flag, 1);
    assert_eq!(header.extended_textual_headers, 3);
    assert_eq!(header.unassigned.len(), 334);
    assert_eq!(header.unassigned[0], 0xAA);
    assert_eq!(header.unassigned[239], 0xBB);
    assert_eq!(header.unassigned[240], 0xCC);
    assert_eq!(header.unassigned[333], 0xDD);
    assert_eq!(header.bytes_per_sample(), 4);
    assert_eq!(header.trace_block_size(), 240 + 2000 * 4);
}

#[test]
fn binary_header_fields_little_endian() {
    let mut buf = vec![0u8; 400];
    buf[0..4].copy_from_slice(&[0x03, 0x02, 0x01, 0x00]);
    put_le16(&mut buf, 16, 128);
    put_le16(&mut buf, 20, 128);
    put_le16(&mut buf, 24, 3);
    put_le16(&mut buf, 28, 4);
    put_le16(&mut buf, 54, 2);
    put_le16(&mut buf, 300, 0x0100);
    put_le16(&mut buf, 304, 0xFFFF);
    let header = BinaryHeader::from_reader(&buf).unwrap();
    assert_eq!(header.byte_order, ByteOrder::LittleEndian);
    assert_eq!(header.job_id, 0x00010203);
    assert_eq!(header.samples_per_trace, 128);
    assert_eq!(header.data_sample_format, DataSampleFormat::Int16);
    assert_eq!(header.trace_sorting, TraceSortingCode::HorizontallyStacked);
    assert_eq!(header.measurement_system, MeasurementSystem::Feet);
    assert_eq!(header.segy_revision, 0x0100);
    assert_eq!(header.extended_textual_headers, -1);
}

#[test]
fn binary_header_rejects_unknown_codes_and_short_input() {
    let mut bad_format = big_endian_header();
    put_be16(&mut bad_format, 24, 6);
    assert!(matches!(
        BinaryHeader::from_reader(&bad_format),
        Err(AppError::SegyError { .. })
    ));
    let mut bad_sorting = big_endian_header();
    put_be16(&mut bad_sorting, 28, 5);
    assert!(matches!(
        BinaryHeader::from_reader(&bad_sorting),
        Err(AppError::SegyError { .. })
    ));
    let mut bad_measure = big_endian_header();
    put_be16(&mut bad_measure, 54, 3);
    assert!(matches!(
        BinaryHeader::from_reader(&bad_measure),
        Err(AppError::SegyError { .. })
    ));
    let short = vec![0u8; 399];
    assert!(matches!(
        BinaryHeader::from_reader(&short),
        Err(AppError::SegyError { .. })
    ));
}

#[test]
fn binary_header_default_and_clone() {
    let header = BinaryHeader::default();
    assert_eq!(header.byte_order, ByteOrder::BigEndian);
    assert_eq!(header.sample_interval_us, 1000);
    assert_eq!(header.original_sample_interval_us, 1000);
    assert_eq!(header.correlated, 1);
    assert_eq!(header.measurement_system, MeasurementSystem::Meters);
    assert_eq!(
        (header.job_id, header.line_number, header.reel_number, header.samples_per_trace),
        (0, 0, 0, 0)
    );
    assert_eq!(
        (header.segy_revision, header.fixed_length_trace_flag, header.extended_textual_headers),
        (0, 0, 0)
    );
    assert_eq!(header.data_sample_format, DataSampleFormat::IbmFloat32);
    assert_eq!(header.trace_sorting, TraceSortingCode::AsRecorded);
    assert_eq!(header.vertical_sum_code, 1);
    assert_eq!(header.binary_gain_recovered, 2);
    assert_eq!(header.unassigned, vec![0u8; 334]);
    assert_eq!(header.trace_block_size(), 240);
    let copy = big_endian_header();
    let parsed = BinaryHeader::from_reader(&copy).unwrap();
    let cloned = parsed.clone();
    assert_eq!(cloned.job_id, parsed.job_id);
    assert_eq!(cloned.unassigned, parsed.unassigned);
    assert_eq!(ByteOrder::default(), ByteOrder::BigEndian);
}
