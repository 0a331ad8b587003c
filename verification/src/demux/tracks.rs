//! Tracks: what the document says of each of its tracks.

use vstd::prelude::*;
use crate::ebml::{
    end_of, left_of, on_bytes, on_float, on_master, on_string, on_uint, passed, read_bytes,
    read_element_header, read_float, read_string, read_uint, skip, walk, ElementHeader, Float,
};
use crate::error::MkvError;
use crate::ids;
use super::encodings::{
    parse_content_encodings, read_encodings, ContentEncodingView, ContentEncodings,
};
use super::video::{
    ChromaSitingHorz, ChromaSitingVert, ColourRange, MasteringMetadata, MatrixCoefficients,
    Primaries, Projection, ProjectionType, ProjectionView, TransferCharacteristics, VideoColour,
};
use crate::views::{group_views, opt_view, read_plain, read_view, read_views, views};

verus! {

broadcast use group_views;

/// What extends the Blocks of a track.
#[derive(Clone, Debug, PartialEq, Eq)]
pub struct BlockAdditionMapping {
    pub value: Option<u64>,
    pub name: Option<String>,
    pub addid_type: u64,
    pub extra_data: Option<Vec<u8>>,
}

/// The view of a [`BlockAdditionMapping`].
#[verifier::ext_equal]
pub struct BlockAdditionMappingView {
    pub value: Option<u64>,
    pub name: Option<Seq<char>>,
    pub addid_type: u64,
    pub extra_data: Option<Seq<u8>>,
}

impl View for BlockAdditionMapping {
    type V = BlockAdditionMappingView;

    open spec fn view(&self) -> BlockAdditionMappingView {
        BlockAdditionMappingView {
            value: self.value,
            name: opt_view(self.name),
            addid_type: self.addid_type,
            extra_data: opt_view(self.extra_data),
        }
    }
}

impl BlockAdditionMapping {
    /// Whether the codec says what the additions mean.
    pub fn is_codec_defined(&self) -> (r: bool)
        ensures
            r == (self@.addid_type == 0),
    {
        self.addid_type == 0
    }
}

/// A BlockAdditionMapping without children.
pub open spec fn empty_mapping() -> BlockAdditionMappingView {
    BlockAdditionMappingView { value: None, name: None, addid_type: 0, extra_data: None }
}

/// The children of an Audio element.
#[derive(Clone, Copy, Debug, PartialEq, Eq, Structural)]
pub struct AudioParts {
    pub sample_rate: Float,
    pub channels: u64,
    pub bit_depth: u64,
}

/// The children of a TrackPlane.
#[derive(Clone, Copy, Debug, PartialEq, Eq, Structural)]
pub struct PlaneParts {
    pub uid: Option<u64>,
    pub plane_type: u64,
}

/// A TrackPlane without children.
pub open spec fn empty_plane() -> PlaneParts {
    PlaneParts { uid: None, plane_type: ids::TRACK_PLANE_TYPE_LEFT_EYE }
}

/// A MasteringMetadata element without children.
pub open spec fn empty_mastering() -> MasteringMetadata {
    MasteringMetadata {
        primary_r_chromaticity_x: None,
        primary_r_chromaticity_y: None,
        primary_g_chromaticity_x: None,
        primary_g_chromaticity_y: None,
        primary_b_chromaticity_x: None,
        primary_b_chromaticity_y: None,
        white_point_chromaticity_x: None,
        white_point_chromaticity_y: None,
        luminance_max: None,
        luminance_min: None,
    }
}

/// A Colour element without children.
pub open spec fn default_colour() -> VideoColour {
    VideoColour {
        matrix_coefficients: MatrixCoefficients::Unspecified,
        bits_per_channel: 0,
        chroma_subsampling_horz: None,
        chroma_subsampling_vert: None,
        cb_subsampling_horz: None,
        cb_subsampling_vert: None,
        chroma_siting_horz: ChromaSitingHorz::Unspecified,
        chroma_siting_vert: ChromaSitingVert::Unspecified,
        range: ColourRange::Unspecified,
        transfer_characteristics: TransferCharacteristics::Unspecified,
        primaries: Primaries::Unspecified,
        max_cll: None,
        max_fall: None,
        mastering_metadata: None,
    }
}

/// A Projection element without children.
pub open spec fn default_projection() -> ProjectionView {
    ProjectionView {
        projection_type: ProjectionType::Rectangular,
        private: None,
        pose_yaw: Float::Double(0),
        pose_pitch: Float::Double(0),
        pose_roll: Float::Double(0),
    }
}

/// The children of a Video element. A display size of 0 is none.
pub struct VideoParts {
    pub width: u64,
    pub height: u64,
    pub flag_interlaced: u64,
    pub field_order: u64,
    pub stereo_mode: u64,
    pub alpha_mode: u64,
    pub aspect_ratio_type: Option<u64>,
    pub uncompressed_fourcc: Option<Vec<u8>>,
    pub crop_top: u64,
    pub crop_bottom: u64,
    pub crop_left: u64,
    pub crop_right: u64,
    pub display_width: u64,
    pub display_height: u64,
    pub display_unit: u64,
    pub colour: Option<VideoColour>,
    pub projection: Option<Projection>,
}

/// The view of [`VideoParts`].
#[verifier::ext_equal]
pub struct VideoPartsView {
    pub width: u64,
    pub height: u64,
    pub flag_interlaced: u64,
    pub field_order: u64,
    pub stereo_mode: u64,
    pub alpha_mode: u64,
    pub aspect_ratio_type: Option<u64>,
    pub uncompressed_fourcc: Option<Seq<u8>>,
    pub crop_top: u64,
    pub crop_bottom: u64,
    pub crop_left: u64,
    pub crop_right: u64,
    pub display_width: u64,
    pub display_height: u64,
    pub display_unit: u64,
    pub colour: Option<VideoColour>,
    pub projection: Option<ProjectionView>,
}

impl View for VideoParts {
    type V = VideoPartsView;

    open spec fn view(&self) -> VideoPartsView {
        VideoPartsView {
            width: self.width,
            height: self.height,
            flag_interlaced: self.flag_interlaced,
            field_order: self.field_order,
            stereo_mode: self.stereo_mode,
            alpha_mode: self.alpha_mode,
            aspect_ratio_type: self.aspect_ratio_type,
            uncompressed_fourcc: opt_view(self.uncompressed_fourcc),
            crop_top: self.crop_top,
            crop_bottom: self.crop_bottom,
            crop_left: self.crop_left,
            crop_right: self.crop_right,
            display_width: self.display_width,
            display_height: self.display_height,
            display_unit: self.display_unit,
            colour: self.colour,
            projection: opt_view(self.projection),
        }
    }
}

/// What a track starts a Video element with: the defaults of what an element sets
/// anew, and the rest as an earlier element left it.
pub open spec fn video_defaults(v: VideoPartsView) -> VideoPartsView {
    VideoPartsView {
        flag_interlaced: ids::FLAG_INTERLACED_UNDETERMINED,
        field_order: ids::FIELD_ORDER_UNDETERMINED,
        stereo_mode: ids::STEREO_MODE_MONO,
        alpha_mode: ids::ALPHA_MODE_NONE,
        crop_top: 0,
        crop_bottom: 0,
        crop_left: 0,
        crop_right: 0,
        display_width: 0,
        display_height: 0,
        display_unit: ids::DISPLAY_UNIT_PIXELS,
        ..v
    }
}

fn reset_video(v: VideoParts) -> (r: VideoParts)
    ensures
        r@ == video_defaults(v@),
{
    VideoParts {
        width: v.width,
        height: v.height,
        flag_interlaced: ids::FLAG_INTERLACED_UNDETERMINED,
        field_order: ids::FIELD_ORDER_UNDETERMINED,
        stereo_mode: ids::STEREO_MODE_MONO,
        alpha_mode: ids::ALPHA_MODE_NONE,
        aspect_ratio_type: v.aspect_ratio_type,
        uncompressed_fourcc: v.uncompressed_fourcc,
        crop_top: 0,
        crop_bottom: 0,
        crop_left: 0,
        crop_right: 0,
        display_width: 0,
        display_height: 0,
        display_unit: ids::DISPLAY_UNIT_PIXELS,
        colour: v.colour,
        projection: v.projection,
    }
}

/// A TrackOperation before its references are resolved.
pub struct RawTrackOperation {
    /// UIDs and types of planes.
    pub planes: Vec<(u64, u64)>,
    /// UIDs of tracks to join.
    pub join_uids: Vec<u64>,
}

/// The view of a [`RawTrackOperation`].
#[verifier::ext_equal]
pub struct RawOperationView {
    pub planes: Seq<(u64, u64)>,
    pub join_uids: Seq<u64>,
}

impl View for RawTrackOperation {
    type V = RawOperationView;

    open spec fn view(&self) -> RawOperationView {
        RawOperationView { planes: self.planes@, join_uids: self.join_uids@ }
    }
}

/// A TrackOperation without children.
pub open spec fn empty_operation() -> RawOperationView {
    RawOperationView { planes: Seq::empty(), join_uids: Seq::empty() }
}

/// A TrackEntry.
pub struct TrackEntry {
    pub number: u64,
    pub uid: u64,
    pub track_type: u64,
    pub codec_id_string: String,
    pub codec_private: Vec<u8>,
    pub language: Option<String>,
    pub audio: AudioParts,
    /// Whether there is a Video element.
    pub has_video: bool,
    pub video: VideoParts,
    pub track_operation: Option<RawTrackOperation>,
    pub content_encodings: Option<ContentEncodings>,
    pub block_addition_mappings: Vec<BlockAdditionMapping>,
}

/// The view of a [`TrackEntry`].
#[verifier::ext_equal]
pub struct TrackEntryView {
    pub number: u64,
    pub uid: u64,
    pub track_type: u64,
    pub codec_id_string: Seq<char>,
    pub codec_private: Seq<u8>,
    pub language: Option<Seq<char>>,
    pub audio: AudioParts,
    pub has_video: bool,
    pub video: VideoPartsView,
    pub track_operation: Option<RawOperationView>,
    pub content_encodings: Option<Seq<ContentEncodingView>>,
    pub block_addition_mappings: Seq<BlockAdditionMappingView>,
}

impl View for TrackEntry {
    type V = TrackEntryView;

    open spec fn view(&self) -> TrackEntryView {
        TrackEntryView {
            number: self.number,
            uid: self.uid,
            track_type: self.track_type,
            codec_id_string: self.codec_id_string@,
            codec_private: self.codec_private@,
            language: opt_view(self.language),
            audio: self.audio,
            has_video: self.has_video,
            video: self.video@,
            track_operation: opt_view(self.track_operation),
            content_encodings: opt_view(self.content_encodings),
            block_addition_mappings: views(self.block_addition_mappings@),
        }
    }
}

/// What a TrackEntry knows of its video before any Video element.
pub open spec fn no_video() -> VideoPartsView {
    VideoPartsView {
        width: 0,
        height: 0,
        flag_interlaced: 0,
        field_order: 0,
        stereo_mode: 0,
        alpha_mode: 0,
        aspect_ratio_type: None,
        uncompressed_fourcc: None,
        crop_top: 0,
        crop_bottom: 0,
        crop_left: 0,
        crop_right: 0,
        display_width: 0,
        display_height: 0,
        display_unit: 0,
        colour: None,
        projection: None,
    }
}

/// A TrackEntry without children.
pub open spec fn empty_track() -> TrackEntryView {
    TrackEntryView {
        number: 0,
        uid: 0,
        track_type: 0,
        codec_id_string: Seq::empty(),
        codec_private: Seq::empty(),
        language: None,
        audio: AudioParts { sample_rate: Float::Double(0), channels: 0, bit_depth: 0 },
        has_video: false,
        video: no_video(),
        track_operation: None,
        content_encodings: None,
        block_addition_mappings: Seq::empty(),
    }
}

fn new_track() -> (t: TrackEntry)
    ensures
        t@ == empty_track(),
{
    let t = TrackEntry {
        number: 0,
        uid: 0,
        track_type: 0,
        codec_id_string: String::new(),
        codec_private: Vec::new(),
        language: None,
        audio: AudioParts { sample_rate: Float::Double(0), channels: 0, bit_depth: 0 },
        has_video: false,
        video: VideoParts {
            width: 0,
            height: 0,
            flag_interlaced: 0,
            field_order: 0,
            stereo_mode: 0,
            alpha_mode: 0,
            aspect_ratio_type: None,
            uncompressed_fourcc: None,
            crop_top: 0,
            crop_bottom: 0,
            crop_left: 0,
            crop_right: 0,
            display_width: 0,
            display_height: 0,
            display_unit: 0,
            colour: None,
            projection: None,
        },
        track_operation: None,
        content_encodings: None,
        block_addition_mappings: Vec::new(),
    };
    assert(t@ =~= empty_track());
    t
}

impl View for AudioParts {
    type V = AudioParts;

    open spec fn view(&self) -> AudioParts {
        *self
    }
}

impl View for PlaneParts {
    type V = PlaneParts;

    open spec fn view(&self) -> PlaneParts {
        *self
    }
}

/// What each child of a MasteringMetadata element adds.
pub open spec fn mastering_step(
    d: Seq<u8>,
) -> spec_fn(MasteringMetadata, ElementHeader, int) -> Result<
    (MasteringMetadata, int),
    MkvError,
> {
    |s: MasteringMetadata, h: ElementHeader, b: int|
        if h.id == ids::PRIMARY_R_CHROMATICITY_X {
            on_float(
                d,
                h,
                b,
                |v: Float| MasteringMetadata { primary_r_chromaticity_x: Some(v), ..s },
            )
        } else if h.id == ids::PRIMARY_R_CHROMATICITY_Y {
            on_float(
                d,
                h,
                b,
                |v: Float| MasteringMetadata { primary_r_chromaticity_y: Some(v), ..s },
            )
        } else if h.id == ids::PRIMARY_G_CHROMATICITY_X {
            on_float(
                d,
                h,
                b,
                |v: Float| MasteringMetadata { primary_g_chromaticity_x: Some(v), ..s },
            )
        } else if h.id == ids::PRIMARY_G_CHROMATICITY_Y {
            on_float(
                d,
                h,
                b,
                |v: Float| MasteringMetadata { primary_g_chromaticity_y: Some(v), ..s },
            )
        } else if h.id == ids::PRIMARY_B_CHROMATICITY_X {
            on_float(
                d,
                h,
                b,
                |v: Float| MasteringMetadata { primary_b_chromaticity_x: Some(v), ..s },
            )
        } else if h.id == ids::PRIMARY_B_CHROMATICITY_Y {
            on_float(
                d,
                h,
                b,
                |v: Float| MasteringMetadata { primary_b_chromaticity_y: Some(v), ..s },
            )
        } else if h.id == ids::WHITE_POINT_CHROMATICITY_X {
            on_float(
                d,
                h,
                b,
                |v: Float| MasteringMetadata { white_point_chromaticity_x: Some(v), ..s },
            )
        } else if h.id == ids::WHITE_POINT_CHROMATICITY_Y {
            on_float(
                d,
                h,
                b,
                |v: Float| MasteringMetadata { white_point_chromaticity_y: Some(v), ..s },
            )
        } else if h.id == ids::LUMINANCE_MAX {
            on_float(d, h, b, |v: Float| MasteringMetadata { luminance_max: Some(v), ..s })
        } else if h.id == ids::LUMINANCE_MIN {
            on_float(d, h, b, |v: Float| MasteringMetadata { luminance_min: Some(v), ..s })
        } else {
            passed(s, b, h.size)
        }
}

/// Reads the children of a MasteringMetadata element.
pub fn parse_mastering_metadata(
    d: &[u8],
    start: u64,
    end: u64,
) -> (r: Result<(MasteringMetadata, u64), MkvError>)
    ensures
        read_plain(r) == walk(d@, start as int, end as int, empty_mastering(), mastering_step(d@)),
        r matches Ok((_, next)) ==> next >= start,
{
    let mut s: MasteringMetadata = MasteringMetadata {
        primary_r_chromaticity_x: None,
        primary_r_chromaticity_y: None,
        primary_g_chromaticity_x: None,
        primary_g_chromaticity_y: None,
        primary_b_chromaticity_x: None,
        primary_b_chromaticity_y: None,
        white_point_chromaticity_x: None,
        white_point_chromaticity_y: None,
        luminance_max: None,
        luminance_min: None,
    };
    assert(s =~= empty_mastering());
    let mut pos: u64 = start;
    let ghost step = mastering_step(d@);
    while pos < end
        invariant
            step == mastering_step(d@),
            walk(d@, start as int, end as int, empty_mastering(), step) == walk(
                d@,
                pos as int,
                end as int,
                s,
                step,
            ),
            pos >= start,
        decreases left_of(d@, pos as int),
    {
        let h: ElementHeader = read_element_header(d, pos)?;
        let body: u64 = pos + h.header_len;
        if h.id == ids::PRIMARY_R_CHROMATICITY_X {
            s.primary_r_chromaticity_x = Some(read_float(d, body, h.size)?);
            pos = body + h.size;
        } else if h.id == ids::PRIMARY_R_CHROMATICITY_Y {
            s.primary_r_chromaticity_y = Some(read_float(d, body, h.size)?);
            pos = body + h.size;
        } else if h.id == ids::PRIMARY_G_CHROMATICITY_X {
            s.primary_g_chromaticity_x = Some(read_float(d, body, h.size)?);
            pos = body + h.size;
        } else if h.id == ids::PRIMARY_G_CHROMATICITY_Y {
            s.primary_g_chromaticity_y = Some(read_float(d, body, h.size)?);
            pos = body + h.size;
        } else if h.id == ids::PRIMARY_B_CHROMATICITY_X {
            s.primary_b_chromaticity_x = Some(read_float(d, body, h.size)?);
            pos = body + h.size;
        } else if h.id == ids::PRIMARY_B_CHROMATICITY_Y {
            s.primary_b_chromaticity_y = Some(read_float(d, body, h.size)?);
            pos = body + h.size;
        } else if h.id == ids::WHITE_POINT_CHROMATICITY_X {
            s.white_point_chromaticity_x = Some(read_float(d, body, h.size)?);
            pos = body + h.size;
        } else if h.id == ids::WHITE_POINT_CHROMATICITY_Y {
            s.white_point_chromaticity_y = Some(read_float(d, body, h.size)?);
            pos = body + h.size;
        } else if h.id == ids::LUMINANCE_MAX {
            s.luminance_max = Some(read_float(d, body, h.size)?);
            pos = body + h.size;
        } else if h.id == ids::LUMINANCE_MIN {
            s.luminance_min = Some(read_float(d, body, h.size)?);
            pos = body + h.size;
        } else {
            pos = skip(body, h.size)?;
        }
    }
    Ok((s, pos))
}

/// What each child of a Colour element adds.
pub open spec fn colour_step(d: Seq<u8>) -> spec_fn(VideoColour, ElementHeader, int) -> Result<
    (VideoColour, int),
    MkvError,
> {
    |s: VideoColour, h: ElementHeader, b: int|
        if h.id == ids::MATRIX_COEFFICIENTS {
            on_uint(
                d,
                h,
                b,
                |v: u64| VideoColour { matrix_coefficients: MatrixCoefficients::of_raw(v), ..s },
            )
        } else if h.id == ids::BITS_PER_CHANNEL {
            on_uint(d, h, b, |v: u64| VideoColour { bits_per_channel: v, ..s })
        } else if h.id == ids::CHROMA_SUBSAMPLING_HORZ {
            on_uint(d, h, b, |v: u64| VideoColour { chroma_subsampling_horz: Some(v), ..s })
        } else if h.id == ids::CHROMA_SUBSAMPLING_VERT {
            on_uint(d, h, b, |v: u64| VideoColour { chroma_subsampling_vert: Some(v), ..s })
        } else if h.id == ids::CB_SUBSAMPLING_HORZ {
            on_uint(d, h, b, |v: u64| VideoColour { cb_subsampling_horz: Some(v), ..s })
        } else if h.id == ids::CB_SUBSAMPLING_VERT {
            on_uint(d, h, b, |v: u64| VideoColour { cb_subsampling_vert: Some(v), ..s })
        } else if h.id == ids::CHROMA_SITING_HORZ {
            on_uint(
                d,
                h,
                b,
                |v: u64| VideoColour { chroma_siting_horz: ChromaSitingHorz::of_raw(v), ..s },
            )
        } else if h.id == ids::CHROMA_SITING_VERT {
            on_uint(
                d,
                h,
                b,
                |v: u64| VideoColour { chroma_siting_vert: ChromaSitingVert::of_raw(v), ..s },
            )
        } else if h.id == ids::COLOUR_RANGE {
            on_uint(d, h, b, |v: u64| VideoColour { range: ColourRange::of_raw(v), ..s })
        } else if h.id == ids::TRANSFER_CHARACTERISTICS {
            on_uint(
                d,
                h,
                b,
                |v: u64| VideoColour {
                    transfer_characteristics: TransferCharacteristics::of_raw(v),
                    ..s
                },
            )
        } else if h.id == ids::PRIMARIES {
            on_uint(d, h, b, |v: u64| VideoColour { primaries: Primaries::of_raw(v), ..s })
        } else if h.id == ids::MAX_CLL {
            on_uint(d, h, b, |v: u64| VideoColour { max_cll: Some(v), ..s })
        } else if h.id == ids::MAX_FALL {
            on_uint(d, h, b, |v: u64| VideoColour { max_fall: Some(v), ..s })
        } else if h.id == ids::MASTERING_METADATA {
            on_master(
                walk(d, b, end_of(b, h.size), empty_mastering(), mastering_step(d)),
                |m: MasteringMetadata| VideoColour { mastering_metadata: Some(m), ..s },
            )
        } else {
            passed(s, b, h.size)
        }
}

/// Reads the children of a Colour element.
pub fn parse_colour(d: &[u8], start: u64, end: u64) -> (r: Result<(VideoColour, u64), MkvError>)
    ensures
        read_plain(r) == walk(d@, start as int, end as int, default_colour(), colour_step(d@)),
        r matches Ok((_, next)) ==> next >= start,
{
    let mut s: VideoColour = VideoColour {
        matrix_coefficients: MatrixCoefficients::Unspecified,
        bits_per_channel: 0,
        chroma_subsampling_horz: None,
        chroma_subsampling_vert: None,
        cb_subsampling_horz: None,
        cb_subsampling_vert: None,
        chroma_siting_horz: ChromaSitingHorz::Unspecified,
        chroma_siting_vert: ChromaSitingVert::Unspecified,
        range: ColourRange::Unspecified,
        transfer_characteristics: TransferCharacteristics::Unspecified,
        primaries: Primaries::Unspecified,
        max_cll: None,
        max_fall: None,
        mastering_metadata: None,
    };
    assert(s =~= default_colour());
    let mut pos: u64 = start;
    let ghost step = colour_step(d@);
    while pos < end
        invariant
            step == colour_step(d@),
            walk(d@, start as int, end as int, default_colour(), step) == walk(
                d@,
                pos as int,
                end as int,
                s,
                step,
            ),
            pos >= start,
        decreases left_of(d@, pos as int),
    {
        let h: ElementHeader = read_element_header(d, pos)?;
        let body: u64 = pos + h.header_len;
        if h.id == ids::MATRIX_COEFFICIENTS {
            let v: u64 = read_uint(d, body, h.size)?;
            s.matrix_coefficients = MatrixCoefficients::from_raw(v);
            pos = body + h.size;
        } else if h.id == ids::BITS_PER_CHANNEL {
            s.bits_per_channel = read_uint(d, body, h.size)?;
            pos = body + h.size;
        } else if h.id == ids::CHROMA_SUBSAMPLING_HORZ {
            s.chroma_subsampling_horz = Some(read_uint(d, body, h.size)?);
            pos = body + h.size;
        } else if h.id == ids::CHROMA_SUBSAMPLING_VERT {
            s.chroma_subsampling_vert = Some(read_uint(d, body, h.size)?);
            pos = body + h.size;
        } else if h.id == ids::CB_SUBSAMPLING_HORZ {
            s.cb_subsampling_horz = Some(read_uint(d, body, h.size)?);
            pos = body + h.size;
        } else if h.id == ids::CB_SUBSAMPLING_VERT {
            s.cb_subsampling_vert = Some(read_uint(d, body, h.size)?);
            pos = body + h.size;
        } else if h.id == ids::CHROMA_SITING_HORZ {
            let v: u64 = read_uint(d, body, h.size)?;
            s.chroma_siting_horz = ChromaSitingHorz::from_raw(v);
            pos = body + h.size;
        } else if h.id == ids::CHROMA_SITING_VERT {
            let v: u64 = read_uint(d, body, h.size)?;
            s.chroma_siting_vert = ChromaSitingVert::from_raw(v);
            pos = body + h.size;
        } else if h.id == ids::COLOUR_RANGE {
            let v: u64 = read_uint(d, body, h.size)?;
            s.range = ColourRange::from_raw(v);
            pos = body + h.size;
        } else if h.id == ids::TRANSFER_CHARACTERISTICS {
            let v: u64 = read_uint(d, body, h.size)?;
            s.transfer_characteristics = TransferCharacteristics::from_raw(v);
            pos = body + h.size;
        } else if h.id == ids::PRIMARIES {
            let v: u64 = read_uint(d, body, h.size)?;
            s.primaries = Primaries::from_raw(v);
            pos = body + h.size;
        } else if h.id == ids::MAX_CLL {
            s.max_cll = Some(read_uint(d, body, h.size)?);
            pos = body + h.size;
        } else if h.id == ids::MAX_FALL {
            s.max_fall = Some(read_uint(d, body, h.size)?);
            pos = body + h.size;
        } else if h.id == ids::MASTERING_METADATA {
            let (m, next) = parse_mastering_metadata(d, body, body.saturating_add(h.size))?;
            s.mastering_metadata = Some(m);
            pos = next;
        } else {
            pos = skip(body, h.size)?;
        }
    }
    Ok((s, pos))
}

/// What each child of a Projection element adds.
pub open spec fn projection_step(
    d: Seq<u8>,
) -> spec_fn(ProjectionView, ElementHeader, int) -> Result<
    (ProjectionView, int),
    MkvError,
> {
    |s: ProjectionView, h: ElementHeader, b: int|
        if h.id == ids::PROJECTION_TYPE {
            on_uint(
                d,
                h,
                b,
                |v: u64| ProjectionView { projection_type: ProjectionType::of_raw(v), ..s },
            )
        } else if h.id == ids::PROJECTION_PRIVATE {
            on_bytes(d, h, b, |v: Seq<u8>| ProjectionView { private: Some(v), ..s })
        } else if h.id == ids::PROJECTION_POSE_YAW {
            on_float(d, h, b, |v: Float| ProjectionView { pose_yaw: v, ..s })
        } else if h.id == ids::PROJECTION_POSE_PITCH {
            on_float(d, h, b, |v: Float| ProjectionView { pose_pitch: v, ..s })
        } else if h.id == ids::PROJECTION_POSE_ROLL {
            on_float(d, h, b, |v: Float| ProjectionView { pose_roll: v, ..s })
        } else {
            passed(s, b, h.size)
        }
}

/// Reads the children of a Projection element.
pub fn parse_projection(d: &[u8], start: u64, end: u64) -> (r: Result<(Projection, u64), MkvError>)
    ensures
        read_view(r) == walk(
            d@,
            start as int,
            end as int,
            default_projection(),
            projection_step(d@),
        ),
        r matches Ok((_, next)) ==> next >= start,
{
    let mut s: Projection = Projection {
        projection_type: ProjectionType::Rectangular,
        private: None,
        pose_yaw: Float::Double(0),
        pose_pitch: Float::Double(0),
        pose_roll: Float::Double(0),
    };
    assert(s@ =~= default_projection());
    let mut pos: u64 = start;
    let ghost step = projection_step(d@);
    while pos < end
        invariant
            step == projection_step(d@),
            walk(d@, start as int, end as int, default_projection(), step) == walk(
                d@,
                pos as int,
                end as int,
                s@,
                step,
            ),
            pos >= start,
        decreases left_of(d@, pos as int),
    {
        let h: ElementHeader = read_element_header(d, pos)?;
        let body: u64 = pos + h.header_len;
        if h.id == ids::PROJECTION_TYPE {
            let v: u64 = read_uint(d, body, h.size)?;
            s.projection_type = ProjectionType::from_raw(v);
            pos = body + h.size;
        } else if h.id == ids::PROJECTION_PRIVATE {
            s.private = Some(read_bytes(d, body, h.size)?);
            pos = body + h.size;
        } else if h.id == ids::PROJECTION_POSE_YAW {
            s.pose_yaw = read_float(d, body, h.size)?;
            pos = body + h.size;
        } else if h.id == ids::PROJECTION_POSE_PITCH {
            s.pose_pitch = read_float(d, body, h.size)?;
            pos = body + h.size;
        } else if h.id == ids::PROJECTION_POSE_ROLL {
            s.pose_roll = read_float(d, body, h.size)?;
            pos = body + h.size;
        } else {
            pos = skip(body, h.size)?;
        }
    }
    Ok((s, pos))
}

/// What each child of a Video element adds.
pub open spec fn video_step(d: Seq<u8>) -> spec_fn(VideoPartsView, ElementHeader, int) -> Result<
    (VideoPartsView, int),
    MkvError,
> {
    |s: VideoPartsView, h: ElementHeader, b: int|
        if h.id == ids::PIXEL_WIDTH {
            on_uint(d, h, b, |v: u64| VideoPartsView { width: v, ..s })
        } else if h.id == ids::PIXEL_HEIGHT {
            on_uint(d, h, b, |v: u64| VideoPartsView { height: v, ..s })
        } else if h.id == ids::FLAG_INTERLACED {
            on_uint(d, h, b, |v: u64| VideoPartsView { flag_interlaced: v, ..s })
        } else if h.id == ids::FIELD_ORDER {
            on_uint(d, h, b, |v: u64| VideoPartsView { field_order: v, ..s })
        } else if h.id == ids::STEREO_MODE {
            on_uint(d, h, b, |v: u64| VideoPartsView { stereo_mode: v, ..s })
        } else if h.id == ids::ALPHA_MODE {
            on_uint(d, h, b, |v: u64| VideoPartsView { alpha_mode: v, ..s })
        } else if h.id == ids::ASPECT_RATIO_TYPE {
            on_uint(d, h, b, |v: u64| VideoPartsView { aspect_ratio_type: Some(v), ..s })
        } else if h.id == ids::UNCOMPRESSED_FOURCC {
            on_bytes(d, h, b, |v: Seq<u8>| VideoPartsView { uncompressed_fourcc: Some(v), ..s })
        } else if h.id == ids::PIXEL_CROP_TOP {
            on_uint(d, h, b, |v: u64| VideoPartsView { crop_top: v, ..s })
        } else if h.id == ids::PIXEL_CROP_BOTTOM {
            on_uint(d, h, b, |v: u64| VideoPartsView { crop_bottom: v, ..s })
        } else if h.id == ids::PIXEL_CROP_LEFT {
            on_uint(d, h, b, |v: u64| VideoPartsView { crop_left: v, ..s })
        } else if h.id == ids::PIXEL_CROP_RIGHT {
            on_uint(d, h, b, |v: u64| VideoPartsView { crop_right: v, ..s })
        } else if h.id == ids::DISPLAY_WIDTH {
            on_uint(d, h, b, |v: u64| VideoPartsView { display_width: v, ..s })
        } else if h.id == ids::DISPLAY_HEIGHT {
            on_uint(d, h, b, |v: u64| VideoPartsView { display_height: v, ..s })
        } else if h.id == ids::DISPLAY_UNIT {
            on_uint(d, h, b, |v: u64| VideoPartsView { display_unit: v, ..s })
        } else if h.id == ids::COLOUR {
            on_master(
                walk(d, b, end_of(b, h.size), default_colour(), colour_step(d)),
                |c: VideoColour| VideoPartsView { colour: Some(c), ..s },
            )
        } else if h.id == ids::PROJECTION {
            on_master(
                walk(d, b, end_of(b, h.size), default_projection(), projection_step(d)),
                |p: ProjectionView| VideoPartsView { projection: Some(p), ..s },
            )
        } else {
            passed(s, b, h.size)
        }
}

/// Reads the children of a Video element into `parts`.
pub fn parse_video(
    d: &[u8],
    start: u64,
    end: u64,
    parts: VideoParts,
) -> (r: Result<(VideoParts, u64), MkvError>)
    ensures
        read_view(r) == walk(d@, start as int, end as int, parts@, video_step(d@)),
        r matches Ok((_, next)) ==> next >= start,
{
    let mut s: VideoParts = parts;
    let mut pos: u64 = start;
    let ghost step = video_step(d@);
    while pos < end
        invariant
            step == video_step(d@),
            walk(d@, start as int, end as int, parts@, step) == walk(
                d@,
                pos as int,
                end as int,
                s@,
                step,
            ),
            pos >= start,
        decreases left_of(d@, pos as int),
    {
        let h: ElementHeader = read_element_header(d, pos)?;
        let body: u64 = pos + h.header_len;
        if h.id == ids::PIXEL_WIDTH {
            s.width = read_uint(d, body, h.size)?;
            pos = body + h.size;
        } else if h.id == ids::PIXEL_HEIGHT {
            s.height = read_uint(d, body, h.size)?;
            pos = body + h.size;
        } else if h.id == ids::FLAG_INTERLACED {
            s.flag_interlaced = read_uint(d, body, h.size)?;
            pos = body + h.size;
        } else if h.id == ids::FIELD_ORDER {
            s.field_order = read_uint(d, body, h.size)?;
            pos = body + h.size;
        } else if h.id == ids::STEREO_MODE {
            s.stereo_mode = read_uint(d, body, h.size)?;
            pos = body + h.size;
        } else if h.id == ids::ALPHA_MODE {
            s.alpha_mode = read_uint(d, body, h.size)?;
            pos = body + h.size;
        } else if h.id == ids::ASPECT_RATIO_TYPE {
            s.aspect_ratio_type = Some(read_uint(d, body, h.size)?);
            pos = body + h.size;
        } else if h.id == ids::UNCOMPRESSED_FOURCC {
            s.uncompressed_fourcc = Some(read_bytes(d, body, h.size)?);
            pos = body + h.size;
        } else if h.id == ids::PIXEL_CROP_TOP {
            s.crop_top = read_uint(d, body, h.size)?;
            pos = body + h.size;
        } else if h.id == ids::PIXEL_CROP_BOTTOM {
            s.crop_bottom = read_uint(d, body, h.size)?;
            pos = body + h.size;
        } else if h.id == ids::PIXEL_CROP_LEFT {
            s.crop_left = read_uint(d, body, h.size)?;
            pos = body + h.size;
        } else if h.id == ids::PIXEL_CROP_RIGHT {
            s.crop_right = read_uint(d, body, h.size)?;
            pos = body + h.size;
        } else if h.id == ids::DISPLAY_WIDTH {
            s.display_width = read_uint(d, body, h.size)?;
            pos = body + h.size;
        } else if h.id == ids::DISPLAY_HEIGHT {
            s.display_height = read_uint(d, body, h.size)?;
            pos = body + h.size;
        } else if h.id == ids::DISPLAY_UNIT {
            s.display_unit = read_uint(d, body, h.size)?;
            pos = body + h.size;
        } else if h.id == ids::COLOUR {
            let (c, next) = parse_colour(d, body, body.saturating_add(h.size))?;
            s.colour = Some(c);
            pos = next;
        } else if h.id == ids::PROJECTION {
            let (p, next) = parse_projection(d, body, body.saturating_add(h.size))?;
            s.projection = Some(p);
            pos = next;
        } else {
            pos = skip(body, h.size)?;
        }
    }
    Ok((s, pos))
}

/// What each child of an Audio element adds.
pub open spec fn audio_step(d: Seq<u8>) -> spec_fn(AudioParts, ElementHeader, int) -> Result<
    (AudioParts, int),
    MkvError,
> {
    |s: AudioParts, h: ElementHeader, b: int|
        if h.id == ids::SAMPLING_FREQUENCY {
            on_float(d, h, b, |v: Float| AudioParts { sample_rate: v, ..s })
        } else if h.id == ids::CHANNELS {
            on_uint(d, h, b, |v: u64| AudioParts { channels: v, ..s })
        } else if h.id == ids::BIT_DEPTH {
            on_uint(d, h, b, |v: u64| AudioParts { bit_depth: v, ..s })
        } else {
            passed(s, b, h.size)
        }
}

/// Reads the children of an Audio element into `parts`.
pub fn parse_audio(
    d: &[u8],
    start: u64,
    end: u64,
    parts: AudioParts,
) -> (r: Result<(AudioParts, u64), MkvError>)
    ensures
        read_plain(r) == walk(d@, start as int, end as int, parts, audio_step(d@)),
        r matches Ok((_, next)) ==> next >= start,
{
    let mut s: AudioParts = parts;
    let mut pos: u64 = start;
    let ghost step = audio_step(d@);
    while pos < end
        invariant
            step == audio_step(d@),
            walk(d@, start as int, end as int, parts, step) == walk(
                d@,
                pos as int,
                end as int,
                s,
                step,
            ),
            pos >= start,
        decreases left_of(d@, pos as int),
    {
        let h: ElementHeader = read_element_header(d, pos)?;
        let body: u64 = pos + h.header_len;
        if h.id == ids::SAMPLING_FREQUENCY {
            s.sample_rate = read_float(d, body, h.size)?;
            pos = body + h.size;
        } else if h.id == ids::CHANNELS {
            s.channels = read_uint(d, body, h.size)?;
            pos = body + h.size;
        } else if h.id == ids::BIT_DEPTH {
            s.bit_depth = read_uint(d, body, h.size)?;
            pos = body + h.size;
        } else {
            pos = skip(body, h.size)?;
        }
    }
    Ok((s, pos))
}

/// What each child of a TrackPlane adds.
pub open spec fn plane_step(d: Seq<u8>) -> spec_fn(PlaneParts, ElementHeader, int) -> Result<
    (PlaneParts, int),
    MkvError,
> {
    |s: PlaneParts, h: ElementHeader, b: int|
        if h.id == ids::TRACK_PLANE_UID {
            on_uint(d, h, b, |v: u64| PlaneParts { uid: Some(v), ..s })
        } else if h.id == ids::TRACK_PLANE_TYPE {
            on_uint(d, h, b, |v: u64| PlaneParts { plane_type: v, ..s })
        } else {
            passed(s, b, h.size)
        }
}

/// Reads the children of a TrackPlane.
fn parse_plane(d: &[u8], start: u64, end: u64) -> (r: Result<(PlaneParts, u64), MkvError>)
    ensures
        read_plain(r) == walk(d@, start as int, end as int, empty_plane(), plane_step(d@)),
        r matches Ok((_, next)) ==> next >= start,
{
    let mut s: PlaneParts = PlaneParts { uid: None, plane_type: ids::TRACK_PLANE_TYPE_LEFT_EYE };
    assert(s =~= empty_plane());
    let mut pos: u64 = start;
    let ghost step = plane_step(d@);
    while pos < end
        invariant
            step == plane_step(d@),
            walk(d@, start as int, end as int, empty_plane(), step) == walk(
                d@,
                pos as int,
                end as int,
                s,
                step,
            ),
            pos >= start,
        decreases left_of(d@, pos as int),
    {
        let h: ElementHeader = read_element_header(d, pos)?;
        let body: u64 = pos + h.header_len;
        if h.id == ids::TRACK_PLANE_UID {
            s.uid = Some(read_uint(d, body, h.size)?);
            pos = body + h.size;
        } else if h.id == ids::TRACK_PLANE_TYPE {
            s.plane_type = read_uint(d, body, h.size)?;
            pos = body + h.size;
        } else {
            pos = skip(body, h.size)?;
        }
    }
    Ok((s, pos))
}

/// What each child of a TrackCombinePlanes element adds. A plane without a UID adds nothing.
pub open spec fn combine_planes_step(
    d: Seq<u8>,
) -> spec_fn(Seq<(u64, u64)>, ElementHeader, int) -> Result<
    (Seq<(u64, u64)>, int),
    MkvError,
> {
    |s: Seq<(u64, u64)>, h: ElementHeader, b: int|
        if h.id == ids::TRACK_PLANE {
            on_master(
                walk(d, b, end_of(b, h.size), empty_plane(), plane_step(d)),
                |p: PlaneParts| match p.uid {
                    Some(u) => if u != 0 { s.push((u, p.plane_type)) } else { s },
                    None => s,
                },
            )
        } else {
            passed(s, b, h.size)
        }
}

/// Reads the children of a TrackCombinePlanes element behind those in `planes`.
pub fn parse_combine_planes(
    d: &[u8],
    start: u64,
    end: u64,
    planes: Vec<(u64, u64)>,
) -> (r: Result<(Vec<(u64, u64)>, u64), MkvError>)
    ensures
        read_view(r) == walk(d@, start as int, end as int, planes@, combine_planes_step(d@)),
        r matches Ok((_, next)) ==> next >= start,
{
    let mut s: Vec<(u64, u64)> = planes;
    let mut pos: u64 = start;
    let ghost step = combine_planes_step(d@);
    while pos < end
        invariant
            step == combine_planes_step(d@),
            walk(d@, start as int, end as int, planes@, step) == walk(
                d@,
                pos as int,
                end as int,
                s@,
                step,
            ),
            pos >= start,
        decreases left_of(d@, pos as int),
    {
        let h: ElementHeader = read_element_header(d, pos)?;
        let body: u64 = pos + h.header_len;
        if h.id == ids::TRACK_PLANE {
            let (p, next) = parse_plane(d, body, body.saturating_add(h.size))?;
            if let Some(u) = p.uid {
                if u != 0 {
                    s.push((u, p.plane_type));
                }
            }
            pos = next;
        } else {
            pos = skip(body, h.size)?;
        }
    }
    Ok((s, pos))
}

/// What each child of a TrackJoinBlocks element adds. A zero adds nothing.
pub open spec fn join_blocks_step(d: Seq<u8>) -> spec_fn(Seq<u64>, ElementHeader, int) -> Result<
    (Seq<u64>, int),
    MkvError,
> {
    |s: Seq<u64>, h: ElementHeader, b: int|
        if h.id == ids::TRACK_JOIN_UID {
            on_uint(d, h, b, |v: u64| if v != 0 { s.push(v) } else { s })
        } else {
            passed(s, b, h.size)
        }
}

/// Reads the children of a TrackJoinBlocks element behind those in `uids`.
pub fn parse_join_blocks(
    d: &[u8],
    start: u64,
    end: u64,
    uids: Vec<u64>,
) -> (r: Result<(Vec<u64>, u64), MkvError>)
    ensures
        read_view(r) == walk(d@, start as int, end as int, uids@, join_blocks_step(d@)),
        r matches Ok((_, next)) ==> next >= start,
{
    let mut s: Vec<u64> = uids;
    let mut pos: u64 = start;
    let ghost step = join_blocks_step(d@);
    while pos < end
        invariant
            step == join_blocks_step(d@),
            walk(d@, start as int, end as int, uids@, step) == walk(
                d@,
                pos as int,
                end as int,
                s@,
                step,
            ),
            pos >= start,
        decreases left_of(d@, pos as int),
    {
        let h: ElementHeader = read_element_header(d, pos)?;
        let body: u64 = pos + h.header_len;
        if h.id == ids::TRACK_JOIN_UID {
            let v: u64 = read_uint(d, body, h.size)?;
            if v != 0 {
                s.push(v);
            }
            pos = body + h.size;
        } else {
            pos = skip(body, h.size)?;
        }
    }
    Ok((s, pos))
}

/// What each child of a TrackOperation adds.
pub open spec fn operation_step(
    d: Seq<u8>,
) -> spec_fn(RawOperationView, ElementHeader, int) -> Result<
    (RawOperationView, int),
    MkvError,
> {
    |s: RawOperationView, h: ElementHeader, b: int|
        if h.id == ids::TRACK_COMBINE_PLANES {
            on_master(
                walk(d, b, end_of(b, h.size), s.planes, combine_planes_step(d)),
                |p: Seq<(u64, u64)>| RawOperationView { planes: p, ..s },
            )
        } else if h.id == ids::TRACK_JOIN_BLOCKS {
            on_master(
                walk(d, b, end_of(b, h.size), s.join_uids, join_blocks_step(d)),
                |j: Seq<u64>| RawOperationView { join_uids: j, ..s },
            )
        } else {
            passed(s, b, h.size)
        }
}

/// Reads the children of a TrackOperation.
pub fn parse_track_operation(
    d: &[u8],
    start: u64,
    end: u64,
) -> (r: Result<(RawTrackOperation, u64), MkvError>)
    ensures
        read_view(r) == walk(d@, start as int, end as int, empty_operation(), operation_step(d@)),
        r matches Ok((_, next)) ==> next >= start,
{
    let mut s: RawTrackOperation = RawTrackOperation { planes: Vec::new(), join_uids: Vec::new() };
    assert(s@ =~= empty_operation());
    let mut pos: u64 = start;
    let ghost step = operation_step(d@);
    while pos < end
        invariant
            step == operation_step(d@),
            walk(d@, start as int, end as int, empty_operation(), step) == walk(
                d@,
                pos as int,
                end as int,
                s@,
                step,
            ),
            pos >= start,
        decreases left_of(d@, pos as int),
    {
        let h: ElementHeader = read_element_header(d, pos)?;
        let body: u64 = pos + h.header_len;
        if h.id == ids::TRACK_COMBINE_PLANES {
            let (p, next) = parse_combine_planes(d, body, body.saturating_add(h.size), s.planes)?;
            s = RawTrackOperation { planes: p, join_uids: s.join_uids };
            pos = next;
        } else if h.id == ids::TRACK_JOIN_BLOCKS {
            let (j, next) = parse_join_blocks(d, body, body.saturating_add(h.size), s.join_uids)?;
            s = RawTrackOperation { planes: s.planes, join_uids: j };
            pos = next;
        } else {
            pos = skip(body, h.size)?;
        }
    }
    Ok((s, pos))
}

/// What each child of a BlockAdditionMapping adds.
pub open spec fn mapping_step(
    d: Seq<u8>,
) -> spec_fn(BlockAdditionMappingView, ElementHeader, int) -> Result<
    (BlockAdditionMappingView, int),
    MkvError,
> {
    |s: BlockAdditionMappingView, h: ElementHeader, b: int|
        if h.id == ids::BLOCK_ADD_ID_VALUE {
            on_uint(d, h, b, |v: u64| BlockAdditionMappingView { value: Some(v), ..s })
        } else if h.id == ids::BLOCK_ADD_ID_NAME {
            on_string(d, h, b, |v: Seq<char>| BlockAdditionMappingView { name: Some(v), ..s })
        } else if h.id == ids::BLOCK_ADD_ID_TYPE {
            on_uint(d, h, b, |v: u64| BlockAdditionMappingView { addid_type: v, ..s })
        } else if h.id == ids::BLOCK_ADD_ID_EXTRA_DATA {
            on_bytes(d, h, b, |v: Seq<u8>| BlockAdditionMappingView { extra_data: Some(v), ..s })
        } else {
            passed(s, b, h.size)
        }
}

/// Reads the children of a BlockAdditionMapping.
pub fn parse_block_addition_mapping(
    d: &[u8],
    start: u64,
    end: u64,
) -> (r: Result<(BlockAdditionMapping, u64), MkvError>)
    ensures
        read_view(r) == walk(d@, start as int, end as int, empty_mapping(), mapping_step(d@)),
        r matches Ok((_, next)) ==> next >= start,
{
    let mut s: BlockAdditionMapping = BlockAdditionMapping {
        value: None,
        name: None,
        addid_type: 0,
        extra_data: None,
    };
    assert(s@ =~= empty_mapping());
    let mut pos: u64 = start;
    let ghost step = mapping_step(d@);
    while pos < end
        invariant
            step == mapping_step(d@),
            walk(d@, start as int, end as int, empty_mapping(), step) == walk(
                d@,
                pos as int,
                end as int,
                s@,
                step,
            ),
            pos >= start,
        decreases left_of(d@, pos as int),
    {
        let h: ElementHeader = read_element_header(d, pos)?;
        let body: u64 = pos + h.header_len;
        if h.id == ids::BLOCK_ADD_ID_VALUE {
            s.value = Some(read_uint(d, body, h.size)?);
            pos = body + h.size;
        } else if h.id == ids::BLOCK_ADD_ID_NAME {
            s.name = Some(read_string(d, body, h.size)?);
            pos = body + h.size;
        } else if h.id == ids::BLOCK_ADD_ID_TYPE {
            s.addid_type = read_uint(d, body, h.size)?;
            pos = body + h.size;
        } else if h.id == ids::BLOCK_ADD_ID_EXTRA_DATA {
            s.extra_data = Some(read_bytes(d, body, h.size)?);
            pos = body + h.size;
        } else {
            pos = skip(body, h.size)?;
        }
    }
    Ok((s, pos))
}

/// What each child of a TrackEntry adds.
#[verifier::opaque]
pub open spec fn track_entry_step(
    d: Seq<u8>,
) -> spec_fn(TrackEntryView, ElementHeader, int) -> Result<
    (TrackEntryView, int),
    MkvError,
> {
    |s: TrackEntryView, h: ElementHeader, b: int|
        if h.id == ids::TRACK_NUMBER {
            on_uint(d, h, b, |v: u64| TrackEntryView { number: v, ..s })
        } else if h.id == ids::TRACK_UID {
            on_uint(d, h, b, |v: u64| TrackEntryView { uid: v, ..s })
        } else if h.id == ids::TRACK_TYPE {
            on_uint(d, h, b, |v: u64| TrackEntryView { track_type: v, ..s })
        } else if h.id == ids::CODEC_ID {
            on_string(d, h, b, |v: Seq<char>| TrackEntryView { codec_id_string: v, ..s })
        } else if h.id == ids::CODEC_PRIVATE {
            on_bytes(d, h, b, |v: Seq<u8>| TrackEntryView { codec_private: v, ..s })
        } else if h.id == ids::LANGUAGE {
            on_string(d, h, b, |v: Seq<char>| TrackEntryView { language: Some(v), ..s })
        } else if h.id == ids::AUDIO {
            on_master(
                walk(d, b, end_of(b, h.size), s.audio, audio_step(d)),
                |a: AudioParts| TrackEntryView { audio: a, ..s },
            )
        } else if h.id == ids::VIDEO {
            on_master(
                walk(d, b, end_of(b, h.size), video_defaults(s.video), video_step(d)),
                |v: VideoPartsView| TrackEntryView { video: v, has_video: true, ..s },
            )
        } else if h.id == ids::TRACK_OPERATION {
            on_master(
                walk(d, b, end_of(b, h.size), empty_operation(), operation_step(d)),
                |o: RawOperationView| TrackEntryView { track_operation: Some(o), ..s },
            )
        } else if h.id == ids::CONTENT_ENCODINGS {
            on_master(
                read_encodings(d, b, end_of(b, h.size)),
                |e: Seq<ContentEncodingView>| TrackEntryView { content_encodings: Some(e), ..s },
            )
        } else if h.id == ids::BLOCK_ADDITION_MAPPING {
            on_master(
                walk(d, b, end_of(b, h.size), empty_mapping(), mapping_step(d)),
                |m: BlockAdditionMappingView| TrackEntryView {
                    block_addition_mappings: s.block_addition_mappings.push(m),
                    ..s
                },
            )
        } else {
            passed(s, b, h.size)
        }
}

/// Reads the children of a TrackEntry.
pub fn parse_track_entry(d: &[u8], start: u64, end: u64) -> (r: Result<(TrackEntry, u64), MkvError>)
    ensures
        read_view(r) == walk(d@, start as int, end as int, empty_track(), track_entry_step(d@)),
        r matches Ok((_, next)) ==> next >= start,
{
    let mut s: TrackEntry = new_track();
    assert(s@ =~= empty_track());
    let mut pos: u64 = start;
    let ghost step = track_entry_step(d@);
    while pos < end
        invariant
            step == track_entry_step(d@),
            walk(d@, start as int, end as int, empty_track(), step) == walk(
                d@,
                pos as int,
                end as int,
                s@,
                step,
            ),
            pos >= start,
        decreases left_of(d@, pos as int),
    {
        proof {
            reveal(track_entry_step);
        }
        let h: ElementHeader = read_element_header(d, pos)?;
        let body: u64 = pos + h.header_len;
        if h.id == ids::TRACK_NUMBER {
            s.number = read_uint(d, body, h.size)?;
            pos = body + h.size;
        } else if h.id == ids::TRACK_UID {
            s.uid = read_uint(d, body, h.size)?;
            pos = body + h.size;
        } else if h.id == ids::TRACK_TYPE {
            s.track_type = read_uint(d, body, h.size)?;
            pos = body + h.size;
        } else if h.id == ids::CODEC_ID {
            s.codec_id_string = read_string(d, body, h.size)?;
            pos = body + h.size;
        } else if h.id == ids::CODEC_PRIVATE {
            s.codec_private = read_bytes(d, body, h.size)?;
            pos = body + h.size;
        } else if h.id == ids::LANGUAGE {
            s.language = Some(read_string(d, body, h.size)?);
            pos = body + h.size;
        } else if h.id == ids::AUDIO {
            let (a, next) = parse_audio(d, body, body.saturating_add(h.size), s.audio)?;
            s.audio = a;
            pos = next;
        } else if h.id == ids::VIDEO {
            let (v, next) = parse_video(
                d,
                body,
                body.saturating_add(h.size),
                reset_video(s.video),
            )?;
            s.video = v;
            s.has_video = true;
            pos = next;
        } else if h.id == ids::TRACK_OPERATION {
            let (o, next) = parse_track_operation(d, body, body.saturating_add(h.size))?;
            s.track_operation = Some(o);
            pos = next;
        } else if h.id == ids::CONTENT_ENCODINGS {
            let (e, next) = parse_content_encodings(d, body, body.saturating_add(h.size))?;
            s.content_encodings = Some(e);
            pos = next;
        } else if h.id == ids::BLOCK_ADDITION_MAPPING {
            let (m, next) = parse_block_addition_mapping(d, body, body.saturating_add(h.size))?;
            s.block_addition_mappings.push(m);
            pos = next;
        } else {
            pos = skip(body, h.size)?;
        }
    }
    Ok((s, pos))
}

/// What each child of a Tracks element adds.
pub open spec fn tracks_step(
    d: Seq<u8>,
) -> spec_fn(Seq<TrackEntryView>, ElementHeader, int) -> Result<
    (Seq<TrackEntryView>, int),
    MkvError,
> {
    |s: Seq<TrackEntryView>, h: ElementHeader, b: int|
        if h.id == ids::TRACK_ENTRY {
            on_master(
                walk(d, b, end_of(b, h.size), empty_track(), track_entry_step(d)),
                |t: TrackEntryView| s.push(t),
            )
        } else {
            passed(s, b, h.size)
        }
}

/// Reads the children of a Tracks element behind those in `tracks`.
pub fn parse_tracks(
    d: &[u8],
    start: u64,
    end: u64,
    tracks: Vec<TrackEntry>,
) -> (r: Result<(Vec<TrackEntry>, u64), MkvError>)
    ensures
        read_views(r) == walk(d@, start as int, end as int, views(tracks@), tracks_step(d@)),
        r matches Ok((_, next)) ==> next >= start,
{
    let mut s: Vec<TrackEntry> = tracks;
    let mut pos: u64 = start;
    let ghost step = tracks_step(d@);
    while pos < end
        invariant
            step == tracks_step(d@),
            walk(d@, start as int, end as int, views(tracks@), step) == walk(
                d@,
                pos as int,
                end as int,
                views(s@),
                step,
            ),
            pos >= start,
        decreases left_of(d@, pos as int),
    {
        let h: ElementHeader = read_element_header(d, pos)?;
        let body: u64 = pos + h.header_len;
        if h.id == ids::TRACK_ENTRY {
            let (t, next) = parse_track_entry(d, body, body.saturating_add(h.size))?;
            s.push(t);
            pos = next;
        } else {
            pos = skip(body, h.size)?;
        }
    }
    Ok((s, pos))
}

} // verus!
