//! Decoding of SEG-Y seismic files and the integer side of trace rendering.
//!
//! A SEG-Y file is a 3200-byte textual header, a 400-byte binary header,
//! optional extended textual headers, and a run of fixed-size trace blocks.
//! Every decoder here is a function on bytes whose contract states the
//! decoded value. The reader keeps the decoded headers of a file and serves
//! random-access trace reads from the bytes of the file, as a memory map
//! hands them out. Rendering paints decoded and colored samples onto a
//! raster and encodes it as PNG.
//!
//! Floating-point samples are carried as IEEE 754 bit patterns; arithmetic
//! on them is left to the caller.

pub mod binary_header;
pub mod error;
pub mod header_map;
pub mod header_spec;
pub mod io;
pub mod model;
pub mod reader;
pub mod rendering;
pub mod textual_header;
pub mod trace;
pub mod trace_data;
pub mod utils;
pub mod wire;
