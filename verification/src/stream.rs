//! Streams and packets.

use vstd::prelude::*;
use crate::ebml::Float;
use crate::views::opt_view;

verus! {

/// The length of a tick, as a fraction of a second.
#[derive(Clone, Copy, Debug, PartialEq, Eq, Structural)]
pub struct TimeBase {
    pub num: i64,
    pub den: i64,
}

/// What a stream is.
#[derive(Clone, Copy, Debug, PartialEq, Eq, Structural)]
pub enum MediaType {
    Video,
    Audio,
    Subtitle,
    Data,
}

/// How audio samples are stored. A name that ends in `P` is for one plane per channel.
#[derive(Clone, Copy, Debug, PartialEq, Eq, Structural)]
pub enum SampleFormat {
    U8,
    S8,
    S16,
    S24,
    S32,
    F32,
    F64,
    U8P,
    S16P,
    S32P,
    F32P,
    F64P,
}

impl SampleFormat {
    /// The size of one sample of one channel.
    pub open spec fn sample_len(self) -> int {
        match self {
            SampleFormat::U8 | SampleFormat::S8 | SampleFormat::U8P => 1,
            SampleFormat::S16 | SampleFormat::S16P => 2,
            SampleFormat::S24 => 3,
            SampleFormat::S32 | SampleFormat::F32 | SampleFormat::S32P | SampleFormat::F32P => 4,
            SampleFormat::F64 | SampleFormat::F64P => 8,
        }
    }
}

/// Calls `oxideav_core::SampleFormat::bytes_per_sample` on the format of the same name.
/// Claimed of it: one byte for 8-bit samples, two for 16-bit, three for packed 24-bit,
/// four for 32-bit and eight for 64-bit ones.
#[verifier::external_body]
pub(crate) fn bytes_per_sample(f: SampleFormat) -> (r: usize)
    ensures
        r == f.sample_len(),
{
    match f {
        SampleFormat::U8 => oxideav_core::SampleFormat::U8.bytes_per_sample(),
        SampleFormat::S8 => oxideav_core::SampleFormat::S8.bytes_per_sample(),
        SampleFormat::S16 => oxideav_core::SampleFormat::S16.bytes_per_sample(),
        SampleFormat::S24 => oxideav_core::SampleFormat::S24.bytes_per_sample(),
        SampleFormat::S32 => oxideav_core::SampleFormat::S32.bytes_per_sample(),
        SampleFormat::F32 => oxideav_core::SampleFormat::F32.bytes_per_sample(),
        SampleFormat::F64 => oxideav_core::SampleFormat::F64.bytes_per_sample(),
        SampleFormat::U8P => oxideav_core::SampleFormat::U8P.bytes_per_sample(),
        SampleFormat::S16P => oxideav_core::SampleFormat::S16P.bytes_per_sample(),
        SampleFormat::S32P => oxideav_core::SampleFormat::S32P.bytes_per_sample(),
        SampleFormat::F32P => oxideav_core::SampleFormat::F32P.bytes_per_sample(),
        SampleFormat::F64P => oxideav_core::SampleFormat::F64P.bytes_per_sample(),
    }
}

/// A stream of a document.
#[derive(Clone, Debug, PartialEq)]
pub struct StreamInfo {
    /// The number of the stream, from 0.
    pub index: u32,
    /// The length of the ticks in which the stream's times are given.
    pub time_base: TimeBase,
    /// The duration in ticks, where it is more than nothing.
    pub duration: Option<Float>,
    pub codec_id: String,
    pub media_type: MediaType,
    /// The codec's setup bytes.
    pub extradata: Vec<u8>,
    /// The sampling frequency of audio, before rounding.
    pub sample_rate: Option<Float>,
    pub channels: Option<u16>,
    pub sample_format: Option<SampleFormat>,
    pub width: Option<u32>,
    pub height: Option<u32>,
    pub language: Option<String>,
}

/// The view of a [`StreamInfo`].
#[verifier::ext_equal]
pub struct StreamInfoView {
    pub index: u32,
    pub time_base: TimeBase,
    pub duration: Option<Float>,
    pub codec_id: Seq<char>,
    pub media_type: MediaType,
    pub extradata: Seq<u8>,
    pub sample_rate: Option<Float>,
    pub channels: Option<u16>,
    pub sample_format: Option<SampleFormat>,
    pub width: Option<u32>,
    pub height: Option<u32>,
    pub language: Option<Seq<char>>,
}

impl View for StreamInfo {
    type V = StreamInfoView;

    open spec fn view(&self) -> StreamInfoView {
        StreamInfoView {
            index: self.index,
            time_base: self.time_base,
            duration: self.duration,
            codec_id: self.codec_id@,
            media_type: self.media_type,
            extradata: self.extradata@,
            sample_rate: self.sample_rate,
            channels: self.channels,
            sample_format: self.sample_format,
            width: self.width,
            height: self.height,
            language: opt_view(self.language),
        }
    }
}

/// A piece of a stream.
#[derive(Clone, Debug, PartialEq, Eq)]
pub struct Packet {
    /// The number of the stream.
    pub stream_index: u32,
    /// The length of the ticks in which the packet's times are given.
    pub time_base: TimeBase,
    pub pts: Option<i64>,
    pub dts: Option<i64>,
    pub duration: Option<i64>,
    pub keyframe: bool,
    pub data: Vec<u8>,
}

/// The view of a [`Packet`].
#[verifier::ext_equal]
pub struct PacketView {
    pub stream_index: u32,
    pub time_base: TimeBase,
    pub pts: Option<i64>,
    pub dts: Option<i64>,
    pub duration: Option<i64>,
    pub keyframe: bool,
    pub data: Seq<u8>,
}

impl View for Packet {
    type V = PacketView;

    open spec fn view(&self) -> PacketView {
        PacketView {
            stream_index: self.stream_index,
            time_base: self.time_base,
            pts: self.pts,
            dts: self.dts,
            duration: self.duration,
            keyframe: self.keyframe,
            data: self.data@,
        }
    }
}

} // verus!
