//! A trace: a 240-byte header followed by the samples.

use crate::binary_header::{ByteOrder, DataSampleFormat};
use crate::error::AppError;
use crate::trace_data::TraceData;
use crate::wire::{i16_at, i32_at, read_i16, read_i32, signed16};
use vstd::prelude::*;
use vstd::slice::{slice_subrange, slice_to_vec};
use vstd::string::StringExecFns;

verus! {

/// Size of the trace header in bytes.
pub const TRACE_HEADER_SIZE: usize = 240;

/// What kind of trace this is.
#[derive(Debug, Clone, Copy, PartialEq, Eq, Structural)]
pub enum TraceIdentificationCode {
    /// Seismic data (code 1).
    SeismicData,
    /// Dead trace (code 2).
    Dead,
    /// Dummy trace (code 3).
    Dummy,
    /// Time break (code 4).
    TimeBreak,
    /// Uphole (code 5).
    Uphole,
    /// Sweep (code 6).
    Sweep,
    /// Timing (code 7).
    Timing,
    /// Water break (code 8).
    WaterBreak,
    /// Optional use, with its code (9 to 32767).
    Optional(i16),
}

impl TraceIdentificationCode {
    /// The kind of trace that a code stands for: codes 1 to 8 name a kind,
    /// codes from 9 on are optional use, and any other code counts as
    /// seismic data.
    pub open spec fn of_code(code: int) -> TraceIdentificationCode {
        if code == 2 {
            TraceIdentificationCode::Dead
        } else if code == 3 {
            TraceIdentificationCode::Dummy
        } else if code == 4 {
            TraceIdentificationCode::TimeBreak
        } else if code == 5 {
            TraceIdentificationCode::Uphole
        } else if code == 6 {
            TraceIdentificationCode::Sweep
        } else if code == 7 {
            TraceIdentificationCode::Timing
        } else if code == 8 {
            TraceIdentificationCode::WaterBreak
        } else if 9 <= code <= 32767 {
            TraceIdentificationCode::Optional(code as i16)
        } else {
            TraceIdentificationCode::SeismicData
        }
    }

    /// Reads a raw trace identification code. No code is an error.
    pub fn from_code(code: i16) -> (kind: TraceIdentificationCode)
        ensures
            kind == TraceIdentificationCode::of_code(code as int),
    {
        match code {
            1 => TraceIdentificationCode::SeismicData,
            2 => TraceIdentificationCode::Dead,
            3 => TraceIdentificationCode::Dummy,
            4 => TraceIdentificationCode::TimeBreak,
            5 => TraceIdentificationCode::Uphole,
            6 => TraceIdentificationCode::Sweep,
            7 => TraceIdentificationCode::Timing,
            8 => TraceIdentificationCode::WaterBreak,
            _ => if code >= 9 {
                TraceIdentificationCode::Optional(code)
            } else {
                TraceIdentificationCode::SeismicData
            },
        }
    }
}

/// Units of the coordinates in a trace header.
#[derive(Debug, Clone, Copy, PartialEq, Eq, Structural)]
pub enum CoordinateUnits {
    /// Unknown or not specified (code 0).
    Unknown,
    /// Length: meters or feet (code 1).
    Length,
    /// Seconds of arc (code 2).
    SecondsOfArc,
}

impl CoordinateUnits {
    /// The units that a code stands for, if any.
    pub open spec fn of_code(code: int) -> Option<CoordinateUnits> {
        if code == 0 {
            Some(CoordinateUnits::Unknown)
        } else if code == 1 {
            Some(CoordinateUnits::Length)
        } else if code == 2 {
            Some(CoordinateUnits::SecondsOfArc)
        } else {
            None
        }
    }

    /// Parses a raw coordinate units code; any code outside 0 to 2 is an
    /// error.
    pub fn from_code(code: i16) -> (parsed: Result<CoordinateUnits, String>)
        ensures
            match CoordinateUnits::of_code(code as int) {
                Some(units) => parsed == Ok::<CoordinateUnits, String>(units),
                None => parsed is Err,
            },
    {
        match code {
            0 => Ok(CoordinateUnits::Unknown),
            1 => Ok(CoordinateUnits::Length),
            2 => Ok(CoordinateUnits::SecondsOfArc),
            _ => Err(
                String::from_str("Invalid coordinate units code: ").concat(
                    code.to_string().as_str(),
                ),
            ),
        }
    }
}

/// Metadata of one trace, decoded from its 240-byte header. Byte ranges are
/// 1-based within the header.
#[derive(Debug)]
pub struct TraceHeader {
    /// Trace sequence number within the line (bytes 1-4).
    pub trace_seq_line: i32,
    /// Trace sequence number within the reel (bytes 5-8).
    pub trace_seq_reel: i32,
    /// Original field record number (bytes 9-12).
    pub field_record_number: i32,
    /// Trace number within the field record (bytes 13-16).
    pub trace_number: i32,
    /// Energy source point number (bytes 17-20).
    pub source_point_number: i32,
    /// CDP ensemble number (bytes 21-24).
    pub cdp_ensemble_number: i32,
    /// Trace number within the CDP ensemble (bytes 25-28).
    pub trace_number_in_ensemble: i32,
    /// Trace identification code (bytes 29-30).
    pub trace_id_code: TraceIdentificationCode,
    /// Number of vertically summed traces (bytes 31-32).
    pub num_vert_summed: i16,
    /// Number of horizontally stacked traces (bytes 33-34).
    pub num_horz_stacked: i16,
    /// Data use: 1 production, 2 test (bytes 35-36).
    pub data_use: i16,
    /// Distance from source to receiver group (bytes 37-40).
    pub source_to_group_distance: i32,
    /// Receiver group elevation (bytes 41-44).
    pub receiver_elevation: i32,
    /// Surface elevation at the source (bytes 45-48).
    pub surface_elevation_at_source: i32,
    /// Source depth below the surface (bytes 49-52).
    pub source_depth: i32,
    /// Datum elevation at the receiver group (bytes 53-56).
    pub datum_elevation_at_receiver: i32,
    /// Datum elevation at the source (bytes 57-60).
    pub datum_elevation_at_source: i32,
    /// Water depth at the source (bytes 61-64).
    pub water_depth_at_source: i32,
    /// Water depth at the receiver group (bytes 65-68).
    pub water_depth_at_receiver: i32,
    /// Scaler for elevations and depths (bytes 69-70).
    pub elevation_scaler: i16,
    /// Scaler for coordinates (bytes 71-72).
    pub coordinate_scaler: i16,
    /// Source coordinate X (bytes 73-76).
    pub source_x: i32,
    /// Source coordinate Y (bytes 77-80).
    pub source_y: i32,
    /// Group coordinate X (bytes 81-84).
    pub group_x: i32,
    /// Group coordinate Y (bytes 85-88).
    pub group_y: i32,
    /// Coordinate units (bytes 89-90).
    pub coordinate_units: CoordinateUnits,
    /// Weathering velocity (bytes 91-92).
    pub weathering_velocity: i16,
    /// Subweathering velocity (bytes 93-94).
    pub subweathering_velocity: i16,
    /// Uphole time at the source, ms (bytes 95-96).
    pub uphole_time_at_source: i16,
    /// Uphole time at the group, ms (bytes 97-98).
    pub uphole_time_at_group: i16,
    /// Source static correction, ms (bytes 99-100).
    pub source_static_correction: i16,
    /// Group static correction, ms (bytes 101-102).
    pub group_static_correction: i16,
    /// Total static applied, ms (bytes 103-104).
    pub total_static: i16,
    /// Lag time A, ms (bytes 105-106).
    pub lag_time_a: i16,
    /// Lag time B, ms (bytes 107-108).
    pub lag_time_b: i16,
    /// Delay recording time, ms (bytes 109-110).
    pub delay_recording_time: i16,
    /// Mute time start, ms (bytes 111-112).
    pub mute_time_start: i16,
    /// Mute time end, ms (bytes 113-114).
    pub mute_time_end: i16,
    /// Number of samples in this trace (bytes 115-116).
    pub num_samples: i16,
    /// Sample interval of this trace, microseconds (bytes 117-118).
    pub sample_interval_us: i16,
    /// Gain type of the field instruments (bytes 119-120).
    pub gain_type: i16,
    /// Instrument gain constant (bytes 121-122).
    pub instrument_gain_constant: i16,
    /// Instrument initial gain, dB (bytes 123-124).
    pub instrument_initial_gain: i16,
    /// Correlated: 1 no, 2 yes (bytes 125-126).
    pub correlated: i16,
    /// Sweep frequency at start, Hz (bytes 127-128).
    pub sweep_freq_start: i16,
    /// Sweep frequency at end, Hz (bytes 129-130).
    pub sweep_freq_end: i16,
    /// Sweep length, ms (bytes 131-132).
    pub sweep_length_ms: i16,
    /// Sweep type (bytes 133-134).
    pub sweep_type: i16,
    /// Sweep taper length at start, ms (bytes 135-136).
    pub sweep_taper_start_ms: i16,
    /// Sweep taper length at end, ms (bytes 137-138).
    pub sweep_taper_end_ms: i16,
    /// Taper type (bytes 139-140).
    pub taper_type: i16,
    /// Alias filter frequency, Hz (bytes 141-142).
    pub alias_filter_freq: i16,
    /// Alias filter slope, dB/octave (bytes 143-144).
    pub alias_filter_slope: i16,
    /// Notch filter frequency, Hz (bytes 145-146).
    pub notch_filter_freq: i16,
    /// Notch filter slope, dB/octave (bytes 147-148).
    pub notch_filter_slope: i16,
    /// Low cut frequency, Hz (bytes 149-150).
    pub low_cut_freq: i16,
    /// High cut frequency, Hz (bytes 151-152).
    pub high_cut_freq: i16,
    /// Low cut slope, dB/octave (bytes 153-154).
    pub low_cut_slope: i16,
    /// High cut slope, dB/octave (bytes 155-156).
    pub high_cut_slope: i16,
    /// Year the data was recorded (bytes 157-158).
    pub year: i16,
    /// Day of the year (bytes 159-160).
    pub day_of_year: i16,
    /// Hour of the day (bytes 161-162).
    pub hour: i16,
    /// Minute of the hour (bytes 163-164).
    pub minute: i16,
    /// Second of the minute (bytes 165-166).
    pub second: i16,
    /// Time basis: 1 local, 2 GMT, 3 other (bytes 167-168).
    pub time_basis_code: i16,
    /// Trace weighting factor (bytes 169-170).
    pub trace_weighting_factor: i16,
    /// Geophone group number of roll switch position one (bytes 171-172).
    pub geophone_group_num_roll_pos1: i16,
    /// Geophone group number of the first trace (bytes 173-174).
    pub geophone_group_num_first_trace: i16,
    /// Geophone group number of the last trace (bytes 175-176).
    pub geophone_group_num_last_trace: i16,
    /// Gap size (bytes 177-178).
    pub gap_size: i16,
    /// Overtravel: 1 down or behind, 2 up or ahead (bytes 179-180).
    pub overtravel: i16,
    /// The unassigned tail, kept as it is (bytes 181-240).
    pub unassigned: Vec<u8>,
}

impl TraceHeader {
    /// Size of the trace header in bytes.
    pub const SIZE: usize = 240;

    /// Whether `data` starts with a trace header that can be decoded in
    /// `order`: 240 bytes with a known coordinate units code.
    pub open spec fn decodable(data: Seq<u8>, order: ByteOrder) -> bool {
        &&& data.len() >= 240
        &&& CoordinateUnits::of_code(i16_at(data, 88, order)) is Some
    }

    /// Whether this header is what the first 240 bytes of `data` hold, field
    /// by field, in the byte order `order`.
    pub open spec fn holds(self, data: Seq<u8>, order: ByteOrder) -> bool {
        &&& self.trace_seq_line == i32_at(data, 0, order)
        &&& self.trace_seq_reel == i32_at(data, 4, order)
        &&& self.field_record_number == i32_at(data, 8, order)
        &&& self.trace_number == i32_at(data, 12, order)
        &&& self.source_point_number == i32_at(data, 16, order)
        &&& self.cdp_ensemble_number == i32_at(data, 20, order)
        &&& self.trace_number_in_ensemble == i32_at(data, 24, order)
        &&& self.trace_id_code == TraceIdentificationCode::of_code(i16_at(data, 28, order))
        &&& self.num_vert_summed == i16_at(data, 30, order)
        &&& self.num_horz_stacked == i16_at(data, 32, order)
        &&& self.data_use == i16_at(data, 34, order)
        &&& self.source_to_group_distance == i32_at(data, 36, order)
        &&& self.receiver_elevation == i32_at(data, 40, order)
        &&& self.surface_elevation_at_source == i32_at(data, 44, order)
        &&& self.source_depth == i32_at(data, 48, order)
        &&& self.datum_elevation_at_receiver == i32_at(data, 52, order)
        &&& self.datum_elevation_at_source == i32_at(data, 56, order)
        &&& self.water_depth_at_source == i32_at(data, 60, order)
        &&& self.water_depth_at_receiver == i32_at(data, 64, order)
        &&& self.elevation_scaler == i16_at(data, 68, order)
        &&& self.coordinate_scaler == i16_at(data, 70, order)
        &&& self.source_x == i32_at(data, 72, order)
        &&& self.source_y == i32_at(data, 76, order)
        &&& self.group_x == i32_at(data, 80, order)
        &&& self.group_y == i32_at(data, 84, order)
        &&& CoordinateUnits::of_code(i16_at(data, 88, order)) == Some(self.coordinate_units)
        &&& self.weathering_velocity == i16_at(data, 90, order)
        &&& self.subweathering_velocity == i16_at(data, 92, order)
        &&& self.uphole_time_at_source == i16_at(data, 94, order)
        &&& self.uphole_time_at_group == i16_at(data, 96, order)
        &&& self.source_static_correction == i16_at(data, 98, order)
        &&& self.group_static_correction == i16_at(data, 100, order)
        &&& self.total_static == i16_at(data, 102, order)
        &&& self.lag_time_a == i16_at(data, 104, order)
        &&& self.lag_time_b == i16_at(data, 106, order)
        &&& self.delay_recording_time == i16_at(data, 108, order)
        &&& self.mute_time_start == i16_at(data, 110, order)
        &&& self.mute_time_end == i16_at(data, 112, order)
        &&& self.num_samples == i16_at(data, 114, order)
        &&& self.sample_interval_us == i16_at(data, 116, order)
        &&& self.gain_type == i16_at(data, 118, order)
        &&& self.instrument_gain_constant == i16_at(data, 120, order)
        &&& self.instrument_initial_gain == i16_at(data, 122, order)
        &&& self.correlated == i16_at(data, 124, order)
        &&& self.sweep_freq_start == i16_at(data, 126, order)
        &&& self.sweep_freq_end == i16_at(data, 128, order)
        &&& self.sweep_length_ms == i16_at(data, 130, order)
        &&& self.sweep_type == i16_at(data, 132, order)
        &&& self.sweep_taper_start_ms == i16_at(data, 134, order)
        &&& self.sweep_taper_end_ms == i16_at(data, 136, order)
        &&& self.taper_type == i16_at(data, 138, order)
        &&& self.alias_filter_freq == i16_at(data, 140, order)
        &&& self.alias_filter_slope == i16_at(data, 142, order)
        &&& self.notch_filter_freq == i16_at(data, 144, order)
        &&& self.notch_filter_slope == i16_at(data, 146, order)
        &&& self.low_cut_freq == i16_at(data, 148, order)
        &&& self.high_cut_freq == i16_at(data, 150, order)
        &&& self.low_cut_slope == i16_at(data, 152, order)
        &&& self.high_cut_slope == i16_at(data, 154, order)
        &&& self.year == i16_at(data, 156, order)
        &&& self.day_of_year == i16_at(data, 158, order)
        &&& self.hour == i16_at(data, 160, order)
        &&& self.minute == i16_at(data, 162, order)
        &&& self.second == i16_at(data, 164, order)
        &&& self.time_basis_code == i16_at(data, 166, order)
        &&& self.trace_weighting_factor == i16_at(data, 168, order)
        &&& self.geophone_group_num_roll_pos1 == i16_at(data, 170, order)
        &&& self.geophone_group_num_first_trace == i16_at(data, 172, order)
        &&& self.geophone_group_num_last_trace == i16_at(data, 174, order)
        &&& self.gap_size == i16_at(data, 176, order)
        &&& self.overtravel == i16_at(data, 178, order)
        &&& self.unassigned@ == data.subrange(180, 240)
    }

    /// Decodes a trace header from the first 240 bytes of `reader`.
    ///
    /// Fails with `SegyError` when fewer than 240 bytes are given or the
    /// coordinate units code is not 0, 1 or 2.
    pub fn from_reader(reader: &[u8], byte_order: ByteOrder) -> (parsed: Result<
        TraceHeader,
        AppError,
    >)
        ensures
            parsed is Ok <==> TraceHeader::decodable(reader@, byte_order),
            parsed matches Ok(header) ==> header.holds(reader@, byte_order),
            parsed matches Err(error) ==> error is SegyError,
    {
        if reader.len() < 240 {
            return Err(
                AppError::SegyError {
                    message: String::from_str("Trace header is shorter than 240 bytes"),
                },
            );
        }
        TraceHeader::from_reader_with_order(reader, byte_order)
    }

    /// Decodes the fields of a trace header one after the other.
    fn from_reader_with_order(reader: &[u8], byte_order: ByteOrder) -> (parsed: Result<
        TraceHeader,
        AppError,
    >)
        requires
            reader@.len() >= 240,
        ensures
            parsed is Ok <==> TraceHeader::decodable(reader@, byte_order),
            parsed matches Ok(header) ==> header.holds(reader@, byte_order),
            parsed matches Err(error) ==> error is SegyError,
    {
        let trace_seq_line = read_i32(reader, 0, byte_order);
        let trace_seq_reel = read_i32(reader, 4, byte_order);
        let field_record_number = read_i32(reader, 8, byte_order);
        let trace_number = read_i32(reader, 12, byte_order);
        let source_point_number = read_i32(reader, 16, byte_order);
        let cdp_ensemble_number = read_i32(reader, 20, byte_order);
        let trace_number_in_ensemble = read_i32(reader, 24, byte_order);
        let trace_id_code = TraceIdentificationCode::from_code(read_i16(reader, 28, byte_order));
        let num_vert_summed = read_i16(reader, 30, byte_order);
        let num_horz_stacked = read_i16(reader, 32, byte_order);
        let data_use = read_i16(reader, 34, byte_order);
        let source_to_group_distance = read_i32(reader, 36, byte_order);
        let receiver_elevation = read_i32(reader, 40, byte_order);
        let surface_elevation_at_source = read_i32(reader, 44, byte_order);
        let source_depth = read_i32(reader, 48, byte_order);
        let datum_elevation_at_receiver = read_i32(reader, 52, byte_order);
        let datum_elevation_at_source = read_i32(reader, 56, byte_order);
        let water_depth_at_source = read_i32(reader, 60, byte_order);
        let water_depth_at_receiver = read_i32(reader, 64, byte_order);
        let elevation_scaler = read_i16(reader, 68, byte_order);
        let coordinate_scaler = read_i16(reader, 70, byte_order);
        let source_x = read_i32(reader, 72, byte_order);
        let source_y = read_i32(reader, 76, byte_order);
        let group_x = read_i32(reader, 80, byte_order);
        let group_y = read_i32(reader, 84, byte_order);
        let coordinate_units = match CoordinateUnits::from_code(read_i16(reader, 88, byte_order)) {
            Ok(units) => units,
            Err(message) => {
                return Err(AppError::SegyError { message });
            },
        };
        let weathering_velocity = read_i16(reader, 90, byte_order);
        let subweathering_velocity = read_i16(reader, 92, byte_order);
        let uphole_time_at_source = read_i16(reader, 94, byte_order);
        let uphole_time_at_group = read_i16(reader, 96, byte_order);
        let source_static_correction = read_i16(reader, 98, byte_order);
        let group_static_correction = read_i16(reader, 100, byte_order);
        let total_static = read_i16(reader, 102, byte_order);
        let lag_time_a = read_i16(reader, 104, byte_order);
        let lag_time_b = read_i16(reader, 106, byte_order);
        let delay_recording_time = read_i16(reader, 108, byte_order);
        let mute_time_start = read_i16(reader, 110, byte_order);
        let mute_time_end = read_i16(reader, 112, byte_order);
        let num_samples = read_i16(reader, 114, byte_order);
        let sample_interval_us = read_i16(reader, 116, byte_order);
        let gain_type = read_i16(reader, 118, byte_order);
        let instrument_gain_constant = read_i16(reader, 120, byte_order);
        let instrument_initial_gain = read_i16(reader, 122, byte_order);
        let correlated = read_i16(reader, 124, byte_order);
        let sweep_freq_start = read_i16(reader, 126, byte_order);
        let sweep_freq_end = read_i16(reader, 128, byte_order);
        let sweep_length_ms = read_i16(reader, 130, byte_order);
        let sweep_type = read_i16(reader, 132, byte_order);
        let sweep_taper_start_ms = read_i16(reader, 134, byte_order);
        let sweep_taper_end_ms = read_i16(reader, 136, byte_order);
        let taper_type = read_i16(reader, 138, byte_order);
        let alias_filter_freq = read_i16(reader, 140, byte_order);
        let alias_filter_slope = read_i16(reader, 142, byte_order);
        let notch_filter_freq = read_i16(reader, 144, byte_order);
        let notch_filter_slope = read_i16(reader, 146, byte_order);
        let low_cut_freq = read_i16(reader, 148, byte_order);
        let high_cut_freq = read_i16(reader, 150, byte_order);
        let low_cut_slope = read_i16(reader, 152, byte_order);
        let high_cut_slope = read_i16(reader, 154, byte_order);
        let year = read_i16(reader, 156, byte_order);
        let day_of_year = read_i16(reader, 158, byte_order);
        let hour = read_i16(reader, 160, byte_order);
        let minute = read_i16(reader, 162, byte_order);
        let second = read_i16(reader, 164, byte_order);
        let time_basis_code = read_i16(reader, 166, byte_order);
        let trace_weighting_factor = read_i16(reader, 168, byte_order);
        let geophone_group_num_roll_pos1 = read_i16(reader, 170, byte_order);
        let geophone_group_num_first_trace = read_i16(reader, 172, byte_order);
        let geophone_group_num_last_trace = read_i16(reader, 174, byte_order);
        let gap_size = read_i16(reader, 176, byte_order);
        let overtravel = read_i16(reader, 178, byte_order);
        let unassigned = slice_to_vec(slice_subrange(reader, 180, 240));

        Ok(
            TraceHeader {
                trace_seq_line,
                trace_seq_reel,
                field_record_number,
                trace_number,
                source_point_number,
                cdp_ensemble_number,
                trace_number_in_ensemble,
                trace_id_code,
                num_vert_summed,
                num_horz_stacked,
                data_use,
                source_to_group_distance,
                receiver_elevation,
                surface_elevation_at_source,
                source_depth,
                datum_elevation_at_receiver,
                datum_elevation_at_source,
                water_depth_at_source,
                water_depth_at_receiver,
                elevation_scaler,
                coordinate_scaler,
                source_x,
                source_y,
                group_x,
                group_y,
                coordinate_units,
                weathering_velocity,
                subweathering_velocity,
                uphole_time_at_source,
                uphole_time_at_group,
                source_static_correction,
                group_static_correction,
                total_static,
                lag_time_a,
                lag_time_b,
                delay_recording_time,
                mute_time_start,
                mute_time_end,
                num_samples,
                sample_interval_us,
                gain_type,
                instrument_gain_constant,
                instrument_initial_gain,
                correlated,
                sweep_freq_start,
                sweep_freq_end,
                sweep_length_ms,
                sweep_type,
                sweep_taper_start_ms,
                sweep_taper_end_ms,
                taper_type,
                alias_filter_freq,
                alias_filter_slope,
                notch_filter_freq,
                notch_filter_slope,
                low_cut_freq,
                high_cut_freq,
                low_cut_slope,
                high_cut_slope,
                year,
                day_of_year,
                hour,
                minute,
                second,
                time_basis_code,
                trace_weighting_factor,
                geophone_group_num_roll_pos1,
                geophone_group_num_first_trace,
                geophone_group_num_last_trace,
                gap_size,
                overtravel,
                unassigned,
            },
        )
    }
}

/// The 16-bit two's complement number that a length is cut down to.
pub open spec fn truncated_to_i16(len: int) -> int {
    signed16(len % 0x1_0000)
}

/// Cuts a length down to its low 16 bits, read as two's complement.
fn len_as_i16(len: usize) -> (value: i16)
    ensures
        value == truncated_to_i16(len as int),
{
    let low = len % 0x1_0000;
    if low >= 0x8000 {
        (low as i32 - 0x1_0000) as i16
    } else {
        low as i16
    }
}

/// A trace: header and samples.
#[derive(Debug)]
pub struct TraceBlock {
    /// Trace header.
    pub header: TraceHeader,
    /// Trace samples.
    pub data: TraceData,
}

impl TraceBlock {
    /// The number of samples that a trace block is decoded with: the
    /// caller's count if given, else the count in the trace header.
    pub open spec fn sample_count(data: Seq<u8>, num_samples: Option<i16>, order: ByteOrder) -> int {
        match num_samples {
            Some(count) => count as int,
            None => i16_at(data, 114, order),
        }
    }

    /// Whether `data` starts with a trace block that can be decoded: a
    /// decodable header, a sample count that is not negative, and all the
    /// samples.
    pub open spec fn decodable(
        data: Seq<u8>,
        format: DataSampleFormat,
        num_samples: Option<i16>,
        order: ByteOrder,
    ) -> bool {
        &&& TraceHeader::decodable(data, order)
        &&& TraceBlock::sample_count(data, num_samples, order) >= 0
        &&& 240 + TraceBlock::sample_count(data, num_samples, order) * format.width() <= data.len()
    }

    /// Puts a header and its samples together.
    pub fn new(header: TraceHeader, data: TraceData) -> (block: TraceBlock)
        ensures
            block.header == header,
            block.data == data,
    {
        TraceBlock { header, data }
    }

    /// Decodes a trace block from the start of `reader`: the header, then
    /// `num_samples` samples, or as many as the header says if `num_samples`
    /// is `None`.
    ///
    /// Fails with `SegyError` when the header cannot be decoded or the
    /// samples are not all there, and with `ValidationError` when the sample
    /// count is negative.
    pub fn from_reader(
        reader: &[u8],
        sample_format: DataSampleFormat,
        num_samples: Option<i16>,
        byte_order: ByteOrder,
    ) -> (parsed: Result<TraceBlock, AppError>)
        ensures
            parsed is Ok <==> TraceBlock::decodable(reader@, sample_format, num_samples, byte_order),
            parsed matches Ok(block) ==> {
                &&& block.header.holds(reader@, byte_order)
                &&& block.data.format() == sample_format
                &&& block.data.holds(
                    reader@.subrange(240, reader@.len() as int),
                    TraceBlock::sample_count(reader@, num_samples, byte_order),
                )
            },
            parsed matches Err(error) ==> if TraceHeader::decodable(reader@, byte_order)
                && TraceBlock::sample_count(reader@, num_samples, byte_order) < 0 {
                error is ValidationError
            } else {
                error is SegyError
            },
    {
        let header = match TraceHeader::from_reader(reader, byte_order) {
            Ok(header) => header,
            Err(error) => {
                return Err(error);
            },
        };
        let samples = match num_samples {
            Some(count) => count,
            None => header.num_samples,
        };
        if samples < 0 {
            return Err(
                AppError::ValidationError {
                    message: String::from_str("Sample count is negative: ").concat(
                        samples.to_string().as_str(),
                    ),
                },
            );
        }
        let rest = slice_subrange(reader, 240, reader.len());
        match TraceData::from_reader(rest, sample_format, samples as usize) {
            Ok(data) => Ok(TraceBlock { header, data }),
            Err(error) => Err(error),
        }
    }

    /// Brings the samples down to at most `max_samples` and writes the new
    /// count, cut to 16 bits, into the header. A limit of 0 leaves the block
    /// as it is.
    pub fn downsample(self, max_samples: usize) -> (reduced: TraceBlock)
        ensures
            max_samples == 0 ==> reduced == self,
            max_samples > 0 ==> {
                &&& reduced.data.is_downsampled(self.data, max_samples as int)
                &&& reduced.header == (TraceHeader {
                    num_samples: truncated_to_i16(reduced.data.count() as int) as i16,
                    ..self.header
                })
            },
    {
        if max_samples == 0 {
            return self;
        }
        let mut block = self;
        let data = block.data.downsample(max_samples);
        block.header.num_samples = len_as_i16(data.len());
        block.data = data;
        block
    }
}

} // verus!
