use tracelens::binary_header::{ByteOrder, DataSampleFormat};
use tracelens::error::AppError;
use tracelens::trace::{CoordinateUnits, TraceBlock, TraceHeader, TraceIdentificationCode};
use tracelens::trace_data::TraceData;

fn trace_header_bytes() -> Vec<u8> {
    let mut buf = vec![0u8; 240];
    buf[0..4].copy_from_slice(&[0, 0, 0, 7]);
    buf[24..28].copy_from_slice(&[0xFF, 0xFF, 0xFF, 0xFF]);
    buf[28..30].copy_from_slice(&[0, 2]);
    buf[36..40].copy_from_slice(&[0, 0, 1, 0]);
    buf[68..70].copy_from_slice(&[0xFF, 0x9C]);
    buf[72..76].copy_from_slice(&[0x00, 0x0F, 0x42, 0x40]);
    buf[88..90].copy_from_slice(&[0, 1]);
    buf[114..116].copy_from_slice(&[0, 4]);
    buf[116..118].copy_from_slice(&[0x0F, 0xA0]);
    buf[156..158].copy_from_slice(&[0x07, 0xE8]);
    buf[178..180].copy_from_slice(&[0, 2]);
    buf[180] = 0x11;
    buf[239] = 0x22;
    buf
}

#[test]
fn trace_identification_codes() {
    assert_eq!(TraceIdentificationCode::from_code(1), TraceIdentificationCode::SeismicData);
    assert_eq!(TraceIdentificationCode::from_code(2), TraceIdentificationCode::Dead);
    assert_eq!(TraceIdentificationCode::from_code(3), TraceIdentificationCode::Dummy);
    assert_eq!(TraceIdentificationCode::from_code(4), TraceIdentificationCode::TimeBreak);
    assert_eq!(TraceIdentificationCode::from_code(5), TraceIdentificationCode::Uphole);
    assert_eq!(TraceIdentificationCode::from_code(6), TraceIdentificationCode::Sweep);
    assert_eq!(TraceIdentificationCode::from_code(7), TraceIdentificationCode::Timing);
    assert_eq!(TraceIdentificationCode::from_code(8), TraceIdentificationCode::WaterBreak);
    assert_eq!(TraceIdentificationCode::from_code(9), TraceIdentificationCode::Optional(9));
    assert_eq!(
        TraceIdentificationCode::from_code(32767),
        TraceIdentificationCode::Optional(32767)
    );
    assert_eq!(TraceIdentificationCode::from_code(0), TraceIdentificationCode::SeismicData);
    assert_eq!(TraceIdentificationCode::from_code(-5), TraceIdentificationCode::SeismicData);
}

#[test]
fn coordinate_unit_codes() {
    assert_eq!(CoordinateUnits::from_code(0), Ok(CoordinateUnits::Unknown));
    assert_eq!(CoordinateUnits::from_code(1), Ok(CoordinateUnits::Length));
    assert_eq!(CoordinateUnits::from_code(2), Ok(CoordinateUnits::SecondsOfArc));
    assert_eq!(
        CoordinateUnits::from_code(3),
        Err("Invalid coordinate units code: 3".to_string())
    );
    assert!(CoordinateUnits::from_code(-1).is_err());
}

#[test]
fn trace_header_fields_big_endian() {
    let buf = trace_header_bytes();
    let header = TraceHeader::from_reader(&buf, ByteOrder::BigEndian).unwrap();
    assert_eq!(header.trace_seq_line, 7);
    assert_eq!(header.trace_number_in_ensemble, -1);
    assert_eq!(header.trace_id_code, TraceIdentificationCode::Dead);
    assert_eq!(header.source_to_group_distance, 256);
    assert_eq!(header.elevation_scaler, -100);
    assert_eq!(header.source_x, 1_000_000);
    assert_eq!(header.coordinate_units, CoordinateUnits::Length);
    assert_eq!(header.num_samples, 4);
    assert_eq!(header.sample_interval_us, 4000);
    assert_eq!(header.year, 2024);
    assert_eq!(header.overtravel, 2);
    assert_eq!(header.unassigned.len(), 60);
    assert_eq!(header.unassigned[0], 0x11);
    assert_eq!(header.unassigned[59], 0x22);
}

#[test]
fn trace_header_fields_little_endian() {
    let mut buf = vec![0u8; 240];
    buf[0..4].copy_from_slice(&[7, 0, 0, 0]);
    buf[28..30].copy_from_slice(&[0x10, 0x00]);
    buf[88..90].copy_from_slice(&[2, 0]);
    buf[114..116].copy_from_slice(&[0xFE, 0xFF]);
    let header = TraceHeader::from_reader(&buf, ByteOrder::LittleEndian).unwrap();
    assert_eq!(header.trace_seq_line, 7);
    assert_eq!(header.trace_id_code, TraceIdentificationCode::Optional(16));
    assert_eq!(header.coordinate_units, CoordinateUnits::SecondsOfArc);
    assert_eq!(header.num_samples, -2);
}

#[test]
fn trace_header_rejects_short_input_and_unknown_units() {
    let buf = trace_header_bytes();
    assert!(matches!(
        TraceHeader::from_reader(&buf[..239], ByteOrder::BigEndian),
        Err(AppError::SegyError { .. })
    ));
    let mut bad = trace_header_bytes();
    bad[89] = 3;
    assert!(matches!(
        TraceHeader::from_reader(&bad, ByteOrder::BigEndian),
        Err(AppError::SegyError { .. })
    ));
}

#[test]
fn trace_block_with_the_header_count_or_the_callers() {
    let mut buf = trace_header_bytes();
    buf.extend_from_slice(&[0, 1, 0, 2, 0, 3, 0xFF, 0xFF]);
    let block =
        TraceBlock::from_reader(&buf, DataSampleFormat::Int16, None, ByteOrder::BigEndian).unwrap();
    assert_eq!(block.header.num_samples, 4);
    match &block.data {
        TraceData::Int16(samples) => assert_eq!(samples, &vec![1, 2, 3, -1]),
        _ => panic!("Unexpected trace data variant"),
    }
    let block =
        TraceBlock::from_reader(&buf, DataSampleFormat::Int16, Some(2), ByteOrder::BigEndian)
            .unwrap();
    assert_eq!(block.data.len(), 2);
    assert!(matches!(
        TraceBlock::from_reader(&buf, DataSampleFormat::Int16, Some(5), ByteOrder::BigEndian),
        Err(AppError::SegyError { .. })
    ));
    assert!(matches!(
        TraceBlock::from_reader(&buf, DataSampleFormat::Int16, Some(-1), ByteOrder::BigEndian),
        Err(AppError::ValidationError { .. })
    ));
    assert!(matches!(
        TraceBlock::from_reader(&buf[..100], DataSampleFormat::Int16, Some(0), ByteOrder::BigEndian),
        Err(AppError::SegyError { .. })
    ));
}

#[test]
fn trace_block_downsample_updates_the_header() {
    let header = TraceHeader::from_reader(&trace_header_bytes(), ByteOrder::BigEndian).unwrap();
    let block = TraceBlock::new(header, TraceData::Int32((1..=10).collect()));
    let reduced = block.downsample(4);
    assert_eq!(reduced.header.num_samples, 4);
    assert_eq!(reduced.header.trace_seq_line, 7);
    match &reduced.data {
        TraceData::Int32(samples) => assert_eq!(samples, &vec![1, 4, 7, 10]),
        _ => panic!("Unexpected trace data variant"),
    }
    let untouched = reduced.downsample(0);
    assert_eq!(untouched.header.num_samples, 4);
    assert_eq!(untouched.data.len(), 4);
    // The count is cut to 16 bits: 40000 samples read as -25536.
    let header = TraceHeader::from_reader(&trace_header_bytes(), ByteOrder::BigEndian).unwrap();
    let long = TraceBlock::new(header, TraceData::Int8(vec![0; 40000]));
    assert_eq!(long.downsample(50000).header.num_samples, -25536);
}
