//! The streams that tracks become.

use vstd::prelude::*;
use super::encodings::{
    compute_header_strip_prefix, header_strip_prefix, ContentEncodingView, ContentEncodings,
};
use super::operation::{operation_of, resolve_operation, TrackOperation, TrackOperationView};
use super::tracks::{
    BlockAdditionMapping, BlockAdditionMappingView, TrackEntry, TrackEntryView, VideoParts,
    VideoPartsView,
};
use super::video::{
    AlphaMode, DisplayUnit, FlagInterlaced, Projection, ProjectionView, StereoMode,
    UncompressedFourCC, VideoColour, VideoGeometry, VideoInterlacing,
};
use crate::codec_id::{codec_of, from_matroska, inner_private, strip_bitmapinfoheader, vfw_fourcc};
use crate::ebml::Float;
use crate::ids;
use crate::sort::reversed;
use crate::stream::{MediaType, SampleFormat, StreamInfo, StreamInfoView, TimeBase};
use crate::text::text_is;
use crate::views::{group_views, opt_view, views};
use std::collections::HashMap;
use vstd::slice::{slice_subrange, slice_to_vec};

verus! {

broadcast use {group_views, vstd::std_specs::hash::group_hash_axioms};

// ---------------------------------------------------------------------------
// Which codec a track holds.

/// What a registry of codecs is asked about a track.
#[derive(Clone, Debug, PartialEq)]
pub struct CodecQuery {
    /// The name of the codec in Matroska.
    pub codec_id: String,
    /// The codec's setup bytes, where there are any.
    pub header: Option<Vec<u8>>,
    pub bits: Option<u16>,
    pub channels: Option<u16>,
    /// The sampling frequency, before rounding.
    pub sample_rate: Float,
    pub width: Option<u32>,
    pub height: Option<u32>,
    /// The four characters to ask about if the name is not known.
    pub fourcc: Option<Vec<u8>>,
}

/// The view of a [`CodecQuery`].
#[verifier::ext_equal]
pub struct CodecQueryView {
    pub codec_id: Seq<char>,
    pub header: Option<Seq<u8>>,
    pub bits: Option<u16>,
    pub channels: Option<u16>,
    pub sample_rate: Float,
    pub width: Option<u32>,
    pub height: Option<u32>,
    pub fourcc: Option<Seq<u8>>,
}

impl View for CodecQuery {
    type V = CodecQueryView;

    open spec fn view(&self) -> CodecQueryView {
        CodecQueryView {
            codec_id: self.codec_id@,
            header: opt_view(self.header),
            bits: self.bits,
            channels: self.channels,
            sample_rate: self.sample_rate,
            width: self.width,
            height: self.height,
            fourcc: opt_view(self.fourcc),
        }
    }
}

/// A 16-bit hint, where there is one.
pub open spec fn hint16(v: u64) -> Option<u16> {
    if v > 0 {
        Some(v as u16)
    } else {
        None
    }
}

/// A 32-bit hint, where there is one.
pub open spec fn hint32(v: u64) -> Option<u32> {
    if v > 0 {
        Some(v as u32)
    } else {
        None
    }
}

/// What a registry of codecs is asked about the track `t`.
pub open spec fn query_of(t: TrackEntryView) -> CodecQueryView {
    CodecQueryView {
        codec_id: t.codec_id_string,
        header: if t.codec_private.len() > 0 {
            Some(t.codec_private)
        } else {
            None
        },
        bits: hint16(t.audio.bit_depth),
        channels: hint16(t.audio.channels),
        sample_rate: t.audio.sample_rate,
        width: hint32(t.video.width),
        height: hint32(t.video.height),
        fourcc: if t.codec_id_string == vfw_fourcc() && t.codec_private.len() >= 20 {
            Some(t.codec_private.subrange(16, 20))
        } else {
            None
        },
    }
}

fn make_hint16(v: u64) -> (r: Option<u16>)
    ensures
        r == hint16(v),
{
    if v > 0 {
        Some(v as u16)
    } else {
        None
    }
}

fn make_hint32(v: u64) -> (r: Option<u32>)
    ensures
        r == hint32(v),
{
    if v > 0 {
        Some(v as u32)
    } else {
        None
    }
}

/// What a registry of codecs is asked about the track `t`.
pub fn codec_query(t: &TrackEntry) -> (r: CodecQuery)
    ensures
        r@ == query_of(t@),
{
    let header: Option<Vec<u8>> = if t.codec_private.len() > 0 {
        Some(slice_to_vec(t.codec_private.as_slice()))
    } else {
        None
    };
    let fourcc: Option<Vec<u8>> = if text_is(&t.codec_id_string, "V_MS/VFW/FOURCC")
        && t.codec_private.len() >= 20 {
        Some(slice_to_vec(slice_subrange(t.codec_private.as_slice(), 16, 20)))
    } else {
        None
    };
    CodecQuery {
        codec_id: t.codec_id_string.clone(),
        header,
        bits: make_hint16(t.audio.bit_depth),
        channels: make_hint16(t.audio.channels),
        sample_rate: t.audio.sample_rate,
        width: make_hint32(t.video.width),
        height: make_hint32(t.video.height),
        fourcc,
    }
}

/// The codec of the track `t`: what a registry answered, or else what the name tells.
pub open spec fn track_codec(t: TrackEntryView, answer: Option<Seq<char>>) -> Seq<char> {
    match answer {
        Some(c) => c,
        None => codec_of(t.codec_id_string, t.codec_private),
    }
}

// ---------------------------------------------------------------------------
// One stream.

/// What a track of the given type is.
pub open spec fn media_type_of(track_type: u64) -> MediaType {
    if track_type == ids::TRACK_TYPE_VIDEO {
        MediaType::Video
    } else if track_type == ids::TRACK_TYPE_AUDIO {
        MediaType::Audio
    } else if track_type == ids::TRACK_TYPE_SUBTITLE {
        MediaType::Subtitle
    } else {
        MediaType::Data
    }
}

/// The bytes `fLaC`.
pub open spec fn flac_magic() -> Seq<u8> {
    seq![0x66u8, 0x4C, 0x61, 0x43]
}

/// The setup bytes of a stream: those of the codec alone, without the magic of FLAC.
pub open spec fn extradata_of(t: TrackEntryView, codec: Seq<char>) -> Seq<u8> {
    let inner = inner_private(t.codec_id_string, t.codec_private);
    if codec == "flac"@ && flac_magic().is_prefix_of(inner) {
        inner.skip(4)
    } else {
        inner
    }
}

/// How samples are stored, for codecs that leave no doubt.
pub open spec fn sample_format_of(codec: Seq<char>, bit_depth: u64) -> Option<SampleFormat> {
    if codec == "pcm_s16le"@ || codec == "pcm_s16be"@ {
        Some(SampleFormat::S16)
    } else if codec == "pcm_f32le"@ {
        Some(SampleFormat::F32)
    } else if codec == "flac"@ {
        if bit_depth == 8 {
            Some(SampleFormat::U8)
        } else if bit_depth == 16 {
            Some(SampleFormat::S16)
        } else if bit_depth == 24 {
            Some(SampleFormat::S24)
        } else if bit_depth == 32 {
            Some(SampleFormat::S32)
        } else {
            None
        }
    } else {
        None
    }
}

/// The stream that a track becomes.
pub open spec fn stream_of(
    index: u32,
    t: TrackEntryView,
    answer: Option<Seq<char>>,
    time_base: TimeBase,
    duration: Option<Float>,
) -> StreamInfoView {
    let codec = track_codec(t, answer);
    let audio = t.track_type == ids::TRACK_TYPE_AUDIO;
    let video = t.track_type == ids::TRACK_TYPE_VIDEO;
    StreamInfoView {
        index,
        time_base,
        duration,
        codec_id: codec,
        media_type: media_type_of(t.track_type),
        extradata: extradata_of(t, codec),
        sample_rate: if audio {
            Some(t.audio.sample_rate)
        } else {
            None
        },
        channels: if audio {
            Some(t.audio.channels as u16)
        } else {
            None
        },
        sample_format: if audio {
            sample_format_of(codec, t.audio.bit_depth)
        } else {
            None
        },
        width: if video {
            Some(t.video.width as u32)
        } else {
            None
        },
        height: if video {
            Some(t.video.height as u32)
        } else {
            None
        },
        language: t.language,
    }
}

fn make_extradata(t: &TrackEntry, codec: &String) -> (r: Vec<u8>)
    ensures
        r@ == extradata_of(t@, codec@),
{
    let inner: Vec<u8> = strip_bitmapinfoheader(
        t.codec_id_string.as_str(),
        t.codec_private.as_slice(),
    );
    if text_is(codec, "flac") && inner.len() >= 4 && inner[0] == 0x66 && inner[1] == 0x4C
        && inner[2] == 0x61 && inner[3] == 0x43 {
        assert(flac_magic() =~= inner@.subrange(0, 4));
        let r: Vec<u8> = slice_to_vec(slice_subrange(inner.as_slice(), 4, inner.len()));
        assert(r@ =~= inner@.skip(4));
        r
    } else {
        assert(codec@ == "flac"@ ==> !flac_magic().is_prefix_of(inner@)) by {
            if flac_magic().is_prefix_of(inner@) {
                let p = inner@.subrange(0, 4);
                assert(p == flac_magic());
                assert(p[0] == 0x66 && p[1] == 0x4C && p[2] == 0x61 && p[3] == 0x43);
            }
        }
        inner
    }
}

fn make_sample_format(codec: &String, bit_depth: u64) -> (r: Option<SampleFormat>)
    ensures
        r == sample_format_of(codec@, bit_depth),
{
    if text_is(codec, "pcm_s16le") || text_is(codec, "pcm_s16be") {
        Some(SampleFormat::S16)
    } else if text_is(codec, "pcm_f32le") {
        Some(SampleFormat::F32)
    } else if text_is(codec, "flac") {
        if bit_depth == 8 {
            Some(SampleFormat::U8)
        } else if bit_depth == 16 {
            Some(SampleFormat::S16)
        } else if bit_depth == 24 {
            Some(SampleFormat::S24)
        } else if bit_depth == 32 {
            Some(SampleFormat::S32)
        } else {
            None
        }
    } else {
        None
    }
}

/// Makes a track into a stream.
fn make_stream(
    index: u32,
    t: &TrackEntry,
    answer: &Option<String>,
    time_base: TimeBase,
    duration: Option<Float>,
) -> (r: StreamInfo)
    ensures
        r@ == stream_of(index, t@, opt_view(*answer), time_base, duration),
{
    let codec_id: String = match answer {
        Some(c) => c.clone(),
        None => from_matroska(t.codec_id_string.as_str(), t.codec_private.as_slice()),
    };
    let audio: bool = t.track_type == ids::TRACK_TYPE_AUDIO;
    let video: bool = t.track_type == ids::TRACK_TYPE_VIDEO;
    let media_type: MediaType = if video {
        MediaType::Video
    } else if audio {
        MediaType::Audio
    } else if t.track_type == ids::TRACK_TYPE_SUBTITLE {
        MediaType::Subtitle
    } else {
        MediaType::Data
    };
    let extradata: Vec<u8> = make_extradata(t, &codec_id);
    let sample_format: Option<SampleFormat> = if audio {
        make_sample_format(&codec_id, t.audio.bit_depth)
    } else {
        None
    };
    let language: Option<String> = match &t.language {
        Some(l) => Some(l.clone()),
        None => None,
    };
    StreamInfo {
        index,
        time_base,
        duration,
        codec_id,
        media_type,
        extradata,
        sample_rate: if audio {
            Some(t.audio.sample_rate)
        } else {
            None
        },
        channels: if audio {
            Some(t.audio.channels as u16)
        } else {
            None
        },
        sample_format,
        width: if video {
            Some(t.video.width as u32)
        } else {
            None
        },
        height: if video {
            Some(t.video.height as u32)
        } else {
            None
        },
        language,
    }
}

// ---------------------------------------------------------------------------
// What else is known of each stream.

/// What is left of `size` once `a` and `b` are cropped off, where that much is there.
pub open spec fn cropped(size: u64, a: u64, b: u64) -> Option<u64> {
    if size >= a + b {
        Some((size - a - b) as u64)
    } else {
        None
    }
}

/// A display size: the one given, or else, in pixels, what cropping leaves.
pub open spec fn display_size(given: u64, unit: u64, size: u64, a: u64, b: u64) -> Option<u64> {
    if given != 0 {
        Some(given)
    } else if unit == ids::DISPLAY_UNIT_PIXELS {
        cropped(size, a, b)
    } else {
        None
    }
}

/// The geometry of a track's video.
pub open spec fn geometry_of(v: VideoPartsView) -> VideoGeometry {
    VideoGeometry {
        pixel_crop_top: v.crop_top,
        pixel_crop_bottom: v.crop_bottom,
        pixel_crop_left: v.crop_left,
        pixel_crop_right: v.crop_right,
        display_width: display_size(
            v.display_width,
            v.display_unit,
            v.width,
            v.crop_left,
            v.crop_right,
        ),
        display_height: display_size(
            v.display_height,
            v.display_unit,
            v.height,
            v.crop_top,
            v.crop_bottom,
        ),
        display_unit: DisplayUnit::of_raw(v.display_unit),
    }
}

fn make_display_size(given: u64, unit: u64, size: u64, a: u64, b: u64) -> (r: Option<u64>)
    ensures
        r == display_size(given, unit, size, a, b),
{
    if given != 0 {
        Some(given)
    } else if unit == ids::DISPLAY_UNIT_PIXELS {
        if size >= a && size - a >= b {
            Some(size - a - b)
        } else {
            None
        }
    } else {
        None
    }
}

fn make_geometry(v: &VideoParts) -> (r: VideoGeometry)
    ensures
        r == geometry_of(v@),
{
    VideoGeometry {
        pixel_crop_top: v.crop_top,
        pixel_crop_bottom: v.crop_bottom,
        pixel_crop_left: v.crop_left,
        pixel_crop_right: v.crop_right,
        display_width: make_display_size(
            v.display_width,
            v.display_unit,
            v.width,
            v.crop_left,
            v.crop_right,
        ),
        display_height: make_display_size(
            v.display_height,
            v.display_unit,
            v.height,
            v.crop_top,
            v.crop_bottom,
        ),
        display_unit: DisplayUnit::from_raw(v.display_unit),
    }
}

/// The bytes to put in front of the frames of a track.
pub open spec fn prefix_of_track(t: TrackEntryView) -> Seq<u8> {
    match t.content_encodings {
        Some(e) => match header_strip_prefix(e) {
            Some(p) => p,
            None => Seq::empty(),
        },
        None => Seq::empty(),
    }
}

/// What is known of each stream beside its description, by stream index.
pub struct TrackTables {
    pub track_operations: Vec<Option<TrackOperation>>,
    pub content_encodings: Vec<Option<ContentEncodings>>,
    pub header_strip_prefixes: Vec<Vec<u8>>,
    pub block_addition_mappings: Vec<Vec<BlockAdditionMapping>>,
    pub video_interlacings: Vec<Option<VideoInterlacing>>,
    pub video_geometries: Vec<Option<VideoGeometry>>,
    pub video_colours: Vec<Option<VideoColour>>,
    pub video_stereo_modes: Vec<Option<StereoMode>>,
    pub video_projections: Vec<Option<Projection>>,
    pub video_alpha_modes: Vec<Option<AlphaMode>>,
    pub video_aspect_ratio_types: Vec<Option<u64>>,
    pub video_uncompressed_fourccs: Vec<Option<UncompressedFourCC>>,
}

/// What is known of one stream beside its description.
#[verifier::ext_equal]
pub struct TrackFacts {
    pub track_operation: Option<TrackOperationView>,
    pub content_encodings: Option<Seq<ContentEncodingView>>,
    pub header_strip_prefix: Seq<u8>,
    pub block_addition_mappings: Seq<BlockAdditionMappingView>,
    pub video_interlacing: Option<VideoInterlacing>,
    pub video_geometry: Option<VideoGeometry>,
    pub video_colour: Option<VideoColour>,
    pub video_stereo_mode: Option<StereoMode>,
    pub video_projection: Option<ProjectionView>,
    pub video_alpha_mode: Option<AlphaMode>,
    pub video_aspect_ratio_type: Option<u64>,
    pub video_uncompressed_fourcc: Option<Seq<u8>>,
}

/// What is known of the stream that the track `t` becomes.
pub open spec fn facts_of(t: TrackEntryView, uids: Map<u64, u32>) -> TrackFacts {
    TrackFacts {
        track_operation: match t.track_operation {
            Some(o) => Some(operation_of(o, uids)),
            None => None,
        },
        content_encodings: t.content_encodings,
        header_strip_prefix: prefix_of_track(t),
        block_addition_mappings: t.block_addition_mappings,
        video_interlacing: if t.has_video {
            Some(
                VideoInterlacing {
                    flag: FlagInterlaced::of_raw(t.video.flag_interlaced),
                    field_order_raw: t.video.field_order,
                },
            )
        } else {
            None
        },
        video_geometry: if t.has_video {
            Some(geometry_of(t.video))
        } else {
            None
        },
        video_colour: t.video.colour,
        video_stereo_mode: if t.has_video {
            Some(StereoMode::of_raw(t.video.stereo_mode))
        } else {
            None
        },
        video_projection: t.video.projection,
        video_alpha_mode: if t.has_video {
            Some(AlphaMode::of_raw(t.video.alpha_mode))
        } else {
            None
        },
        video_aspect_ratio_type: t.video.aspect_ratio_type,
        video_uncompressed_fourcc: t.video.uncompressed_fourcc,
    }
}

/// What is known of each stream.
pub open spec fn all_facts(tracks: Seq<TrackEntryView>, uids: Map<u64, u32>) -> Seq<TrackFacts> {
    Seq::new(tracks.len(), |i: int| facts_of(tracks[i], uids))
}

/// The bytes to put in front of the frames of each stream.
pub open spec fn prefixes_of(facts: Seq<TrackFacts>) -> Seq<Seq<u8>> {
    Seq::new(facts.len(), |i: int| facts[i].header_strip_prefix)
}

impl TrackTables {
    /// Copies the bytes to put in front of the frames of each stream.
    pub fn copy_prefixes(&self) -> (r: Vec<Vec<u8>>)
        requires
            self.all_len(self@.len()),
        ensures
            views(r@) == prefixes_of(self@),
    {
        let v: &Vec<Vec<u8>> = &self.header_strip_prefixes;
        let mut r: Vec<Vec<u8>> = Vec::new();
        let mut i: usize = 0;
        while i < v.len()
            invariant
                i <= v@.len(),
                r@.len() == i,
                forall|k: int| 0 <= k < i ==> (#[trigger] r@[k])@ == v@[k]@,
            decreases v@.len() - i,
        {
            r.push(slice_to_vec(v[i].as_slice()));
            i = i + 1;
        }
        assert(views(r@) =~= prefixes_of(self@));
        r
    }

    /// Whether every table has `n` entries.
    pub open spec fn all_len(self, n: nat) -> bool {
        &&& self.track_operations@.len() == n
        &&& self.content_encodings@.len() == n
        &&& self.header_strip_prefixes@.len() == n
        &&& self.block_addition_mappings@.len() == n
        &&& self.video_interlacings@.len() == n
        &&& self.video_geometries@.len() == n
        &&& self.video_colours@.len() == n
        &&& self.video_stereo_modes@.len() == n
        &&& self.video_projections@.len() == n
        &&& self.video_alpha_modes@.len() == n
        &&& self.video_aspect_ratio_types@.len() == n
        &&& self.video_uncompressed_fourccs@.len() == n
    }

    /// The entries of stream `i`.
    pub open spec fn facts(self, i: int) -> TrackFacts {
        TrackFacts {
            track_operation: opt_view(self.track_operations@[i]),
            content_encodings: opt_view(self.content_encodings@[i]),
            header_strip_prefix: self.header_strip_prefixes@[i]@,
            block_addition_mappings: views(self.block_addition_mappings@[i]@),
            video_interlacing: self.video_interlacings@[i],
            video_geometry: self.video_geometries@[i],
            video_colour: self.video_colours@[i],
            video_stereo_mode: self.video_stereo_modes@[i],
            video_projection: opt_view(self.video_projections@[i]),
            video_alpha_mode: self.video_alpha_modes@[i],
            video_aspect_ratio_type: self.video_aspect_ratio_types@[i],
            video_uncompressed_fourcc: opt_view(self.video_uncompressed_fourccs@[i]),
        }
    }
}

impl View for TrackTables {
    type V = Seq<TrackFacts>;

    open spec fn view(&self) -> Seq<TrackFacts> {
        Seq::new(self.track_operations@.len(), |i: int| self.facts(i))
    }
}

fn empty_tables() -> (r: TrackTables)
    ensures
        r.all_len(0),
{
    TrackTables {
        track_operations: Vec::new(),
        content_encodings: Vec::new(),
        header_strip_prefixes: Vec::new(),
        block_addition_mappings: Vec::new(),
        video_interlacings: Vec::new(),
        video_geometries: Vec::new(),
        video_colours: Vec::new(),
        video_stereo_modes: Vec::new(),
        video_projections: Vec::new(),
        video_alpha_modes: Vec::new(),
        video_aspect_ratio_types: Vec::new(),
        video_uncompressed_fourccs: Vec::new(),
    }
}

/// Appends the entries of one more stream.
fn push_facts(tables: &mut TrackTables, t: TrackEntry, uids: &HashMap<u64, u32>)
    requires
        old(tables).all_len(old(tables)@.len()),
    ensures
        final(tables).all_len(old(tables)@.len() + 1),
        forall|i: int|
            0 <= i < old(tables)@.len() ==> #[trigger] final(tables).facts(i) == old(tables).facts(
                i,
            ),
        final(tables).facts(old(tables)@.len() as int) == facts_of(t@, uids@),
{
    let prefix: Vec<u8> = match &t.content_encodings {
        Some(e) => match compute_header_strip_prefix(e) {
            Some(p) => p,
            None => Vec::new(),
        },
        None => Vec::new(),
    };
    let operation: Option<TrackOperation> = match &t.track_operation {
        Some(o) => Some(resolve_operation(o, uids)),
        None => None,
    };
    let interlacing: Option<VideoInterlacing> = if t.has_video {
        Some(
            VideoInterlacing {
                flag: FlagInterlaced::from_raw(t.video.flag_interlaced),
                field_order_raw: t.video.field_order,
            },
        )
    } else {
        None
    };
    let geometry: Option<VideoGeometry> = if t.has_video {
        Some(make_geometry(&t.video))
    } else {
        None
    };
    let stereo_mode: Option<StereoMode> = if t.has_video {
        Some(StereoMode::from_raw(t.video.stereo_mode))
    } else {
        None
    };
    let alpha_mode: Option<AlphaMode> = if t.has_video {
        Some(AlphaMode::from_raw(t.video.alpha_mode))
    } else {
        None
    };
    let fourcc: Option<UncompressedFourCC> = match t.video.uncompressed_fourcc {
        Some(bytes) => Some(UncompressedFourCC { bytes }),
        None => None,
    };
    tables.track_operations.push(operation);
    tables.content_encodings.push(t.content_encodings);
    tables.header_strip_prefixes.push(prefix);
    tables.block_addition_mappings.push(t.block_addition_mappings);
    tables.video_interlacings.push(interlacing);
    tables.video_geometries.push(geometry);
    tables.video_colours.push(t.video.colour);
    tables.video_stereo_modes.push(stereo_mode);
    tables.video_projections.push(t.video.projection);
    tables.video_alpha_modes.push(alpha_mode);
    tables.video_aspect_ratio_types.push(t.video.aspect_ratio_type);
    tables.video_uncompressed_fourccs.push(fourcc);
}

// ---------------------------------------------------------------------------
// All streams.

/// Which stream the track with a given number is; of several the last.
pub open spec fn index_by_number(tracks: Seq<TrackEntryView>) -> Map<u64, u32>
    decreases tracks.len(),
{
    if tracks.len() == 0 {
        Map::empty()
    } else {
        index_by_number(tracks.drop_last()).insert(
            tracks.last().number,
            (tracks.len() - 1) as u32,
        )
    }
}

/// Which stream the track with a given UID is; of several the last.
pub open spec fn index_by_uid(tracks: Seq<TrackEntryView>) -> Map<u64, u32>
    decreases tracks.len(),
{
    if tracks.len() == 0 {
        Map::empty()
    } else if tracks.last().uid != 0 {
        index_by_uid(tracks.drop_last()).insert(tracks.last().uid, (tracks.len() - 1) as u32)
    } else {
        index_by_uid(tracks.drop_last())
    }
}

/// The track number of each stream; 0 for one whose number a later track has too.
pub open spec fn numbers_by_index(tracks: Seq<TrackEntryView>) -> Seq<u64> {
    Seq::new(
        tracks.len(),
        |i: int|
            if index_by_number(tracks)[tracks[i].number] == i as u32 {
                tracks[i].number
            } else {
                0
            },
    )
}

/// The streams that the tracks become.
pub open spec fn streams_of(
    tracks: Seq<TrackEntryView>,
    answers: Seq<Option<Seq<char>>>,
    time_base: TimeBase,
    duration: Option<Float>,
) -> Seq<StreamInfoView> {
    Seq::new(
        tracks.len(),
        |i: int|
            stream_of(
                i as u32,
                tracks[i],
                if i < answers.len() {
                    answers[i]
                } else {
                    None
                },
                time_base,
                duration,
            ),
    )
}

/// The answers of a registry of codecs, by their views.
pub open spec fn answer_views(answers: Seq<Option<String>>) -> Seq<Option<Seq<char>>> {
    Seq::new(answers.len(), |i: int| opt_view(answers[i]))
}

proof fn lemma_index_has(tracks: Seq<TrackEntryView>, i: int)
    requires
        0 <= i < tracks.len(),
    ensures
        index_by_number(tracks).contains_key(tracks[i].number),
    decreases tracks.len(),
{
    if i < tracks.len() - 1 {
        lemma_index_has(tracks.drop_last(), i);
    }
}

/// Maps the numbers and the UIDs of tracks to stream indices.
pub fn index_tracks(tracks: &Vec<TrackEntry>) -> (r: (HashMap<u64, u32>, HashMap<u64, u32>))
    ensures
        r.0@ == index_by_number(views(tracks@)),
        r.1@ == index_by_uid(views(tracks@)),
{
    let ghost all = views(tracks@);
    let mut by_number: HashMap<u64, u32> = HashMap::new();
    let mut by_uid: HashMap<u64, u32> = HashMap::new();
    let mut i: usize = 0;
    assert(all.take(0) =~= Seq::<TrackEntryView>::empty());
    assert(by_number@ =~= index_by_number(all.take(0)));
    assert(by_uid@ =~= index_by_uid(all.take(0)));
    while i < tracks.len()
        invariant
            i <= tracks@.len(),
            all == views(tracks@),
            by_number@ == index_by_number(all.take(i as int)),
            by_uid@ == index_by_uid(all.take(i as int)),
        decreases tracks@.len() - i,
    {
        let ghost after = all.take(i + 1);
        assert(after.drop_last() =~= all.take(i as int));
        assert(after.last() == tracks@[i as int]@);
        by_number.insert(tracks[i].number, i as u32);
        if tracks[i].uid != 0 {
            by_uid.insert(tracks[i].uid, i as u32);
        }
        i = i + 1;
    }
    assert(all.take(i as int) =~= all);
    (by_number, by_uid)
}

/// The track number of each stream.
pub fn number_streams(tracks: &Vec<TrackEntry>, by_number: &HashMap<u64, u32>) -> (r: Vec<u64>)
    requires
        by_number@ == index_by_number(views(tracks@)),
    ensures
        r@ == numbers_by_index(views(tracks@)),
{
    let ghost all = views(tracks@);
    let mut r: Vec<u64> = Vec::new();
    let mut i: usize = 0;
    while i < tracks.len()
        invariant
            i <= tracks@.len(),
            all == views(tracks@),
            by_number@ == index_by_number(all),
            r@.len() == i,
            forall|k: int| 0 <= k < i ==> #[trigger] r@[k] == numbers_by_index(all)[k],
        decreases tracks@.len() - i,
    {
        proof {
            lemma_index_has(all, i as int);
            assert(all[i as int] == tracks@[i as int]@);
        }
        let number: u64 = tracks[i].number;
        let own: bool = match by_number.get(&number) {
            Some(k) => *k == i as u32,
            None => false,
        };
        r.push(
            if own {
                number
            } else {
                0
            },
        );
        i = i + 1;
    }
    assert(r@ =~= numbers_by_index(all));
    r
}

/// Makes tracks into streams.
pub fn build_streams(
    tracks: Vec<TrackEntry>,
    answers: &Vec<Option<String>>,
    uids: &HashMap<u64, u32>,
    time_base: TimeBase,
    duration: Option<Float>,
) -> (r: (Vec<StreamInfo>, TrackTables))
    ensures
        views(r.0@) == streams_of(
            views(tracks@),
            answer_views(answers@),
            time_base,
            duration,
        ),
        r.1.all_len(tracks@.len()),
        r.1@ == all_facts(views(tracks@), uids@),
{
    let ghost all = views(tracks@);
    let ghost n = tracks@.len();
    let mut rest: Vec<TrackEntry> = reversed(tracks);
    assert forall|k: int| 0 <= k < rest@.len() implies (#[trigger] rest@[k])@ == all[n - 1 - k] by {
        assert(rest@[k] == tracks@[n - 1 - k]);
    }
    let mut streams: Vec<StreamInfo> = Vec::new();
    let mut tables: TrackTables = empty_tables();
    while rest.len() > 0
        invariant
            n == all.len(),
            streams@.len() + rest@.len() == n,
            forall|k: int| 0 <= k < rest@.len() ==> (#[trigger] rest@[k])@ == all[n - 1 - k],
            forall|k: int|
                0 <= k < streams@.len() ==> (#[trigger] streams@[k])@ == streams_of(
                    all,
                    answer_views(answers@),
                    time_base,
                    duration,
                )[k],
            tables.all_len(streams@.len()),
            forall|k: int|
                0 <= k < streams@.len() ==> #[trigger] tables.facts(k) == facts_of(all[k], uids@),
        decreases rest@.len(),
    {
        let i: usize = streams.len();
        let ghost held = rest@;
        if let Some(t) = rest.pop() {
            assert(held[held.len() - 1]@ == all[i as int]);
            let s: StreamInfo = if i < answers.len() {
                make_stream(i as u32, &t, &answers[i], time_base, duration)
            } else {
                make_stream(i as u32, &t, &None, time_base, duration)
            };
            streams.push(s);
            push_facts(&mut tables, t, uids);
        }
    }
    assert(views(streams@) =~= streams_of(all, answer_views(answers@), time_base, duration));
    assert(tables@ =~= all_facts(all, uids@));
    (streams, tables)
}

} // verus!
