//! Matroska and WebM: a demuxer and a muxer.

pub mod arith;
pub mod codec_id;
pub mod date;
pub mod demux;
pub mod ebml;
pub mod error;
pub mod ids;
pub mod laws;
pub mod mux;
pub mod round_trip;
pub mod schema;
pub mod sort;
pub mod stream;
pub mod text;
pub mod views;
pub mod write;
