//! What the Video of a track says.

use vstd::prelude::*;
use super::pieces::{all_plain, leads, lemma_pieces_read, pieces, there, Piece};
use crate::demux::tracks::{
    colour_step, default_colour, default_projection, empty_mastering, mastering_step,
    projection_step, video_step, VideoPartsView,
};
use crate::demux::video::{
    lemma_chroma_siting_horz_round_trip, lemma_chroma_siting_vert_round_trip,
    lemma_colour_range_round_trip, lemma_matrix_coefficients_round_trip, lemma_primaries_round_trip,
    lemma_projection_type_round_trip, lemma_transfer_characteristics_round_trip, ChromaSitingHorz,
    ChromaSitingVert, ColourRange, MasteringMetadata, MatrixCoefficients, Primaries, ProjectionType,
    ProjectionView, TransferCharacteristics, VideoColour,
};
use crate::ebml::{walk, Float};
use crate::error::MkvError;
use crate::ids;
use crate::round_trip::elements::{holds, MAX_LEN};

verus! {

/// The display that a video was mastered on, in the bits of 64-bit floats.
pub struct MasteringFacts {
    pub red_x: u64,
    pub red_y: u64,
    pub green_x: u64,
    pub green_y: u64,
    pub blue_x: u64,
    pub blue_y: u64,
    pub white_x: u64,
    pub white_y: u64,
    pub brightest: u64,
    pub darkest: u64,
}

impl MasteringFacts {
    pub open spec fn pieces(self) -> Seq<Piece> {
        seq![
            Piece::Real(ids::PRIMARY_R_CHROMATICITY_X, self.red_x),
            Piece::Real(ids::PRIMARY_R_CHROMATICITY_Y, self.red_y),
            Piece::Real(ids::PRIMARY_G_CHROMATICITY_X, self.green_x),
            Piece::Real(ids::PRIMARY_G_CHROMATICITY_Y, self.green_y),
            Piece::Real(ids::PRIMARY_B_CHROMATICITY_X, self.blue_x),
            Piece::Real(ids::PRIMARY_B_CHROMATICITY_Y, self.blue_y),
            Piece::Real(ids::WHITE_POINT_CHROMATICITY_X, self.white_x),
            Piece::Real(ids::WHITE_POINT_CHROMATICITY_Y, self.white_y),
            Piece::Real(ids::LUMINANCE_MAX, self.brightest),
            Piece::Real(ids::LUMINANCE_MIN, self.darkest),
        ]
    }
}

/// How such a MasteringMetadata is read.
pub open spec fn mastering_of(f: MasteringFacts) -> MasteringMetadata {
    MasteringMetadata {
        primary_r_chromaticity_x: Some(Float::Double(f.red_x)),
        primary_r_chromaticity_y: Some(Float::Double(f.red_y)),
        primary_g_chromaticity_x: Some(Float::Double(f.green_x)),
        primary_g_chromaticity_y: Some(Float::Double(f.green_y)),
        primary_b_chromaticity_x: Some(Float::Double(f.blue_x)),
        primary_b_chromaticity_y: Some(Float::Double(f.blue_y)),
        white_point_chromaticity_x: Some(Float::Double(f.white_x)),
        white_point_chromaticity_y: Some(Float::Double(f.white_y)),
        luminance_max: Some(Float::Double(f.brightest)),
        luminance_min: Some(Float::Double(f.darkest)),
    }
}

/// The same behind the first `k` children.
spec fn mastering_so_far(f: MasteringFacts, k: int) -> MasteringMetadata {
    let n = empty_mastering();
    let t = mastering_of(f);
    MasteringMetadata {
        primary_r_chromaticity_x: if k > 0 {
            t.primary_r_chromaticity_x
        } else {
            n.primary_r_chromaticity_x
        },
        primary_r_chromaticity_y: if k > 1 {
            t.primary_r_chromaticity_y
        } else {
            n.primary_r_chromaticity_y
        },
        primary_g_chromaticity_x: if k > 2 {
            t.primary_g_chromaticity_x
        } else {
            n.primary_g_chromaticity_x
        },
        primary_g_chromaticity_y: if k > 3 {
            t.primary_g_chromaticity_y
        } else {
            n.primary_g_chromaticity_y
        },
        primary_b_chromaticity_x: if k > 4 {
            t.primary_b_chromaticity_x
        } else {
            n.primary_b_chromaticity_x
        },
        primary_b_chromaticity_y: if k > 5 {
            t.primary_b_chromaticity_y
        } else {
            n.primary_b_chromaticity_y
        },
        white_point_chromaticity_x: if k > 6 {
            t.white_point_chromaticity_x
        } else {
            n.white_point_chromaticity_x
        },
        white_point_chromaticity_y: if k > 7 {
            t.white_point_chromaticity_y
        } else {
            n.white_point_chromaticity_y
        },
        luminance_max: if k > 8 { t.luminance_max } else { n.luminance_max },
        luminance_min: if k > 9 { t.luminance_min } else { n.luminance_min },
    }
}

#[verifier::rlimit(60)]
proof fn lemma_mastering_says_piece(d: Seq<u8>, f: MasteringFacts, i: int, b: int)
    requires
        0 <= i < 10,
        there(d, f.pieces()[i], b),
    ensures
        mastering_step(d)(mastering_so_far(f, i), f.pieces()[i].header(), b) == Ok::<
            (MasteringMetadata, int),
            MkvError,
        >(
            (mastering_so_far(f, i + 1), b + f.pieces()[i].header().size),
        ),
{
}

#[verifier::rlimit(40)]
proof fn lemma_mastering_says(d: Seq<u8>, pos: int, f: MasteringFacts)
    requires
        holds(d, pos, pieces(f.pieces())),
        d.len() <= MAX_LEN,
    ensures
        walk(d, pos, pos + pieces(f.pieces()).len(), empty_mastering(), mastering_step(d)) == Ok::<
            (MasteringMetadata, int),
            MkvError,
        >((mastering_of(f), pos + pieces(f.pieces()).len())),
{
    let ps = f.pieces();
    let states = Seq::new(11, |k: int| mastering_so_far(f, k));
    let step = mastering_step(d);
    assert(all_plain(ps));
    assert(leads(d, ps, 0, states, step)) by {
        assert forall|i: int, b: int|
            0 <= i < ps.len() && #[trigger] there(d, ps[i], b) implies step(
            states[i],
            ps[i].header(),
            b,
        ) == Ok::<(MasteringMetadata, int), MkvError>((states[i + 1], b + ps[i].header().size)) by {
            lemma_mastering_says_piece(d, f, i, b);
        }
    }
    lemma_pieces_read(d, pos, ps, states, step);
    assert(states[0] == empty_mastering());
    assert(states[10] == mastering_of(f));
}

/// The colours of a video, in the numbers that stand for them.
pub struct ColourFacts {
    pub matrix: u64,
    pub bits: u64,
    pub chroma_across: u64,
    pub chroma_down: u64,
    pub blue_across: u64,
    pub blue_down: u64,
    pub siting_across: u64,
    pub siting_down: u64,
    pub range: u64,
    pub transfer: u64,
    pub primaries: u64,
    pub brightest_pixel: u64,
    pub brightest_frame: u64,
    pub mastering: MasteringFacts,
}

impl ColourFacts {
    pub open spec fn pieces(self) -> Seq<Piece> {
        seq![
            Piece::Number(ids::MATRIX_COEFFICIENTS, self.matrix),
            Piece::Number(ids::BITS_PER_CHANNEL, self.bits),
            Piece::Number(ids::CHROMA_SUBSAMPLING_HORZ, self.chroma_across),
            Piece::Number(ids::CHROMA_SUBSAMPLING_VERT, self.chroma_down),
            Piece::Number(ids::CB_SUBSAMPLING_HORZ, self.blue_across),
            Piece::Number(ids::CB_SUBSAMPLING_VERT, self.blue_down),
            Piece::Number(ids::CHROMA_SITING_HORZ, self.siting_across),
            Piece::Number(ids::CHROMA_SITING_VERT, self.siting_down),
            Piece::Number(ids::COLOUR_RANGE, self.range),
            Piece::Number(ids::TRANSFER_CHARACTERISTICS, self.transfer),
            Piece::Number(ids::PRIMARIES, self.primaries),
            Piece::Number(ids::MAX_CLL, self.brightest_pixel),
            Piece::Number(ids::MAX_FALL, self.brightest_frame),
            Piece::Bytes(ids::MASTERING_METADATA, pieces(self.mastering.pieces())),
        ]
    }
}

/// How such a Colour is read.
pub open spec fn colour_of(f: ColourFacts) -> VideoColour {
    VideoColour {
        matrix_coefficients: MatrixCoefficients::of_raw(f.matrix),
        bits_per_channel: f.bits,
        chroma_subsampling_horz: Some(f.chroma_across),
        chroma_subsampling_vert: Some(f.chroma_down),
        cb_subsampling_horz: Some(f.blue_across),
        cb_subsampling_vert: Some(f.blue_down),
        chroma_siting_horz: ChromaSitingHorz::of_raw(f.siting_across),
        chroma_siting_vert: ChromaSitingVert::of_raw(f.siting_down),
        range: ColourRange::of_raw(f.range),
        transfer_characteristics: TransferCharacteristics::of_raw(f.transfer),
        primaries: Primaries::of_raw(f.primaries),
        max_cll: Some(f.brightest_pixel),
        max_fall: Some(f.brightest_frame),
        mastering_metadata: Some(mastering_of(f.mastering)),
    }
}

/// The same behind the first `k` children.
spec fn colour_so_far(f: ColourFacts, k: int) -> VideoColour {
    let n = default_colour();
    let t = colour_of(f);
    VideoColour {
        matrix_coefficients: if k > 0 { t.matrix_coefficients } else { n.matrix_coefficients },
        bits_per_channel: if k > 1 { t.bits_per_channel } else { n.bits_per_channel },
        chroma_subsampling_horz: if k > 2 {
            t.chroma_subsampling_horz
        } else {
            n.chroma_subsampling_horz
        },
        chroma_subsampling_vert: if k > 3 {
            t.chroma_subsampling_vert
        } else {
            n.chroma_subsampling_vert
        },
        cb_subsampling_horz: if k > 4 { t.cb_subsampling_horz } else { n.cb_subsampling_horz },
        cb_subsampling_vert: if k > 5 { t.cb_subsampling_vert } else { n.cb_subsampling_vert },
        chroma_siting_horz: if k > 6 { t.chroma_siting_horz } else { n.chroma_siting_horz },
        chroma_siting_vert: if k > 7 { t.chroma_siting_vert } else { n.chroma_siting_vert },
        range: if k > 8 { t.range } else { n.range },
        transfer_characteristics: if k > 9 {
            t.transfer_characteristics
        } else {
            n.transfer_characteristics
        },
        primaries: if k > 10 { t.primaries } else { n.primaries },
        max_cll: if k > 11 { t.max_cll } else { n.max_cll },
        max_fall: if k > 12 { t.max_fall } else { n.max_fall },
        mastering_metadata: if k > 13 { t.mastering_metadata } else { n.mastering_metadata },
    }
}

#[verifier::rlimit(60)]
proof fn lemma_colour_says_piece(d: Seq<u8>, f: ColourFacts, i: int, b: int)
    requires
        0 <= i < 14,
        there(d, f.pieces()[i], b),
    ensures
        colour_step(d)(colour_so_far(f, i), f.pieces()[i].header(), b) == Ok::<
            (VideoColour, int),
            MkvError,
        >(
            (colour_so_far(f, i + 1), b + f.pieces()[i].header().size),
        ),
{
    if i == 13 {
        lemma_mastering_says(d, b, f.mastering);
    }
}

#[verifier::rlimit(40)]
proof fn lemma_colour_says(d: Seq<u8>, pos: int, f: ColourFacts)
    requires
        holds(d, pos, pieces(f.pieces())),
        d.len() <= MAX_LEN,
    ensures
        walk(d, pos, pos + pieces(f.pieces()).len(), default_colour(), colour_step(d)) == Ok::<
            (VideoColour, int),
            MkvError,
        >((colour_of(f), pos + pieces(f.pieces()).len())),
{
    let ps = f.pieces();
    let states = Seq::new(15, |k: int| colour_so_far(f, k));
    let step = colour_step(d);
    assert(all_plain(ps));
    assert(leads(d, ps, 0, states, step)) by {
        assert forall|i: int, b: int|
            0 <= i < ps.len() && #[trigger] there(d, ps[i], b) implies step(
            states[i],
            ps[i].header(),
            b,
        ) == Ok::<(VideoColour, int), MkvError>((states[i + 1], b + ps[i].header().size)) by {
            lemma_colour_says_piece(d, f, i, b);
        }
    }
    lemma_pieces_read(d, pos, ps, states, step);
    assert(states[0] == default_colour());
    assert(states[14] == colour_of(f));
}

/// A projection, with its angles in the bits of 64-bit floats.
pub struct ProjectionFacts {
    pub kind: u64,
    pub private: Seq<u8>,
    pub yaw: u64,
    pub pitch: u64,
    pub roll: u64,
}

impl ProjectionFacts {
    pub open spec fn pieces(self) -> Seq<Piece> {
        seq![
            Piece::Number(ids::PROJECTION_TYPE, self.kind),
            Piece::Bytes(ids::PROJECTION_PRIVATE, self.private),
            Piece::Real(ids::PROJECTION_POSE_YAW, self.yaw),
            Piece::Real(ids::PROJECTION_POSE_PITCH, self.pitch),
            Piece::Real(ids::PROJECTION_POSE_ROLL, self.roll),
        ]
    }
}

/// How such a Projection is read.
pub open spec fn projection_of(f: ProjectionFacts) -> ProjectionView {
    ProjectionView {
        projection_type: ProjectionType::of_raw(f.kind),
        private: Some(f.private),
        pose_yaw: Float::Double(f.yaw),
        pose_pitch: Float::Double(f.pitch),
        pose_roll: Float::Double(f.roll),
    }
}

/// The same behind the first `k` children.
spec fn projection_so_far(f: ProjectionFacts, k: int) -> ProjectionView {
    let n = default_projection();
    let t = projection_of(f);
    ProjectionView {
        projection_type: if k > 0 { t.projection_type } else { n.projection_type },
        private: if k > 1 { t.private } else { n.private },
        pose_yaw: if k > 2 { t.pose_yaw } else { n.pose_yaw },
        pose_pitch: if k > 3 { t.pose_pitch } else { n.pose_pitch },
        pose_roll: if k > 4 { t.pose_roll } else { n.pose_roll },
    }
}

#[verifier::rlimit(60)]
proof fn lemma_projection_says_piece(d: Seq<u8>, f: ProjectionFacts, i: int, b: int)
    requires
        0 <= i < 5,
        there(d, f.pieces()[i], b),
    ensures
        projection_step(d)(projection_so_far(f, i), f.pieces()[i].header(), b) == Ok::<
            (ProjectionView, int),
            MkvError,
        >(
            (projection_so_far(f, i + 1), b + f.pieces()[i].header().size),
        ),
{
}

proof fn lemma_projection_says(d: Seq<u8>, pos: int, f: ProjectionFacts)
    requires
        holds(d, pos, pieces(f.pieces())),
        d.len() <= MAX_LEN,
    ensures
        walk(
            d,
            pos,
            pos + pieces(f.pieces()).len(),
            default_projection(),
            projection_step(d),
        ) == Ok::<
            (ProjectionView, int),
            MkvError,
        >((projection_of(f), pos + pieces(f.pieces()).len())),
{
    let ps = f.pieces();
    let states = Seq::new(6, |k: int| projection_so_far(f, k));
    let step = projection_step(d);
    assert(all_plain(ps));
    assert(leads(d, ps, 0, states, step)) by {
        assert forall|i: int, b: int|
            0 <= i < ps.len() && #[trigger] there(d, ps[i], b) implies step(
            states[i],
            ps[i].header(),
            b,
        ) == Ok::<(ProjectionView, int), MkvError>((states[i + 1], b + ps[i].header().size)) by {
            lemma_projection_says_piece(d, f, i, b);
        }
    }
    lemma_pieces_read(d, pos, ps, states, step);
    assert(states[0] == default_projection());
    assert(states[5] == projection_of(f));
}

/// A video: its size, how it is shown, and how its pictures are stored.
pub struct VideoFacts {
    pub width: u64,
    pub height: u64,
    pub interlaced: u64,
    pub field_order: u64,
    pub stereo: u64,
    pub alpha: u64,
    pub aspect: u64,
    pub fourcc: Seq<u8>,
    pub crop_top: u64,
    pub crop_bottom: u64,
    pub crop_left: u64,
    pub crop_right: u64,
    pub display_width: u64,
    pub display_height: u64,
    pub display_unit: u64,
    pub colour: ColourFacts,
    pub projection: ProjectionFacts,
}

impl VideoFacts {
    pub open spec fn pieces(self) -> Seq<Piece> {
        seq![
            Piece::Number(ids::PIXEL_WIDTH, self.width),
            Piece::Number(ids::PIXEL_HEIGHT, self.height),
            Piece::Number(ids::FLAG_INTERLACED, self.interlaced),
            Piece::Number(ids::FIELD_ORDER, self.field_order),
            Piece::Number(ids::STEREO_MODE, self.stereo),
            Piece::Number(ids::ALPHA_MODE, self.alpha),
            Piece::Number(ids::ASPECT_RATIO_TYPE, self.aspect),
            Piece::Bytes(ids::UNCOMPRESSED_FOURCC, self.fourcc),
            Piece::Number(ids::PIXEL_CROP_TOP, self.crop_top),
            Piece::Number(ids::PIXEL_CROP_BOTTOM, self.crop_bottom),
            Piece::Number(ids::PIXEL_CROP_LEFT, self.crop_left),
            Piece::Number(ids::PIXEL_CROP_RIGHT, self.crop_right),
            Piece::Number(ids::DISPLAY_WIDTH, self.display_width),
            Piece::Number(ids::DISPLAY_HEIGHT, self.display_height),
            Piece::Number(ids::DISPLAY_UNIT, self.display_unit),
            Piece::Bytes(ids::COLOUR, pieces(self.colour.pieces())),
            Piece::Bytes(ids::PROJECTION, pieces(self.projection.pieces())),
        ]
    }
}

/// How such a Video is read.
pub open spec fn video_of(f: VideoFacts) -> VideoPartsView {
    VideoPartsView {
        width: f.width,
        height: f.height,
        flag_interlaced: f.interlaced,
        field_order: f.field_order,
        stereo_mode: f.stereo,
        alpha_mode: f.alpha,
        aspect_ratio_type: Some(f.aspect),
        uncompressed_fourcc: Some(f.fourcc),
        crop_top: f.crop_top,
        crop_bottom: f.crop_bottom,
        crop_left: f.crop_left,
        crop_right: f.crop_right,
        display_width: f.display_width,
        display_height: f.display_height,
        display_unit: f.display_unit,
        colour: Some(colour_of(f.colour)),
        projection: Some(projection_of(f.projection)),
    }
}

/// The same behind the first `k` children.
spec fn video_so_far(f: VideoFacts, v: VideoPartsView, k: int) -> VideoPartsView {
    let n = v;
    let t = video_of(f);
    VideoPartsView {
        width: if k > 0 { t.width } else { n.width },
        height: if k > 1 { t.height } else { n.height },
        flag_interlaced: if k > 2 { t.flag_interlaced } else { n.flag_interlaced },
        field_order: if k > 3 { t.field_order } else { n.field_order },
        stereo_mode: if k > 4 { t.stereo_mode } else { n.stereo_mode },
        alpha_mode: if k > 5 { t.alpha_mode } else { n.alpha_mode },
        aspect_ratio_type: if k > 6 { t.aspect_ratio_type } else { n.aspect_ratio_type },
        uncompressed_fourcc: if k > 7 { t.uncompressed_fourcc } else { n.uncompressed_fourcc },
        crop_top: if k > 8 { t.crop_top } else { n.crop_top },
        crop_bottom: if k > 9 { t.crop_bottom } else { n.crop_bottom },
        crop_left: if k > 10 { t.crop_left } else { n.crop_left },
        crop_right: if k > 11 { t.crop_right } else { n.crop_right },
        display_width: if k > 12 { t.display_width } else { n.display_width },
        display_height: if k > 13 { t.display_height } else { n.display_height },
        display_unit: if k > 14 { t.display_unit } else { n.display_unit },
        colour: if k > 15 { t.colour } else { n.colour },
        projection: if k > 16 { t.projection } else { n.projection },
    }
}

#[verifier::rlimit(60)]
proof fn lemma_video_says_piece(d: Seq<u8>, f: VideoFacts, v: VideoPartsView, i: int, b: int)
    requires
        0 <= i < 17,
        there(d, f.pieces()[i], b),
    ensures
        video_step(d)(video_so_far(f, v, i), f.pieces()[i].header(), b) == Ok::<
            (VideoPartsView, int),
            MkvError,
        >(
            (video_so_far(f, v, i + 1), b + f.pieces()[i].header().size),
        ),
{
    if i == 15 {
        lemma_colour_says(d, b, f.colour);
    } else if i == 16 {
        lemma_projection_says(d, b, f.projection);
    }
}

/// A Video is read as it was meant, whatever stood there before.
#[verifier::rlimit(40)]
pub proof fn lemma_video_says(d: Seq<u8>, pos: int, f: VideoFacts, v: VideoPartsView)
    requires
        holds(d, pos, pieces(f.pieces())),
        d.len() <= MAX_LEN,
    ensures
        walk(d, pos, pos + pieces(f.pieces()).len(), v, video_step(d)) == Ok::<
            (VideoPartsView, int),
            MkvError,
        >((video_of(f), pos + pieces(f.pieces()).len())),
{
    let ps = f.pieces();
    let states = Seq::new(18, |k: int| video_so_far(f, v, k));
    let step = video_step(d);
    assert(all_plain(ps));
    assert(leads(d, ps, 0, states, step)) by {
        assert forall|i: int, b: int|
            0 <= i < ps.len() && #[trigger] there(d, ps[i], b) implies step(
            states[i],
            ps[i].header(),
            b,
        ) == Ok::<(VideoPartsView, int), MkvError>((states[i + 1], b + ps[i].header().size)) by {
            lemma_video_says_piece(d, f, v, i, b);
        }
    }
    lemma_pieces_read(d, pos, ps, states, step);
    assert(states[0] == v);
    assert(states[17] == video_of(f));
}

impl MasteringFacts {
    /// Whether what was read says the same.
    pub open spec fn is_read_as(self, m: MasteringMetadata) -> bool {
        &&& m.primary_r_chromaticity_x == Some(Float::Double(self.red_x))
        &&& m.primary_r_chromaticity_y == Some(Float::Double(self.red_y))
        &&& m.primary_g_chromaticity_x == Some(Float::Double(self.green_x))
        &&& m.primary_g_chromaticity_y == Some(Float::Double(self.green_y))
        &&& m.primary_b_chromaticity_x == Some(Float::Double(self.blue_x))
        &&& m.primary_b_chromaticity_y == Some(Float::Double(self.blue_y))
        &&& m.white_point_chromaticity_x == Some(Float::Double(self.white_x))
        &&& m.white_point_chromaticity_y == Some(Float::Double(self.white_y))
        &&& m.luminance_max == Some(Float::Double(self.brightest))
        &&& m.luminance_min == Some(Float::Double(self.darkest))
    }
}

impl ColourFacts {
    /// Whether what was read says the same.
    pub open spec fn is_read_as(self, c: VideoColour) -> bool {
        &&& c.matrix_coefficients.raw() == self.matrix
        &&& c.bits_per_channel == self.bits
        &&& c.chroma_subsampling_horz == Some(self.chroma_across)
        &&& c.chroma_subsampling_vert == Some(self.chroma_down)
        &&& c.cb_subsampling_horz == Some(self.blue_across)
        &&& c.cb_subsampling_vert == Some(self.blue_down)
        &&& c.chroma_siting_horz.raw() == self.siting_across
        &&& c.chroma_siting_vert.raw() == self.siting_down
        &&& c.range.raw() == self.range
        &&& c.transfer_characteristics.raw() == self.transfer
        &&& c.primaries.raw() == self.primaries
        &&& c.max_cll == Some(self.brightest_pixel)
        &&& c.max_fall == Some(self.brightest_frame)
        &&& c.mastering_metadata is Some
        &&& self.mastering.is_read_as(c.mastering_metadata->0)
    }
}

impl ProjectionFacts {
    /// Whether what was read says the same.
    pub open spec fn is_read_as(self, p: ProjectionView) -> bool {
        &&& p.projection_type.raw() == self.kind
        &&& p.private == Some(self.private)
        &&& p.pose_yaw == Float::Double(self.yaw)
        &&& p.pose_pitch == Float::Double(self.pitch)
        &&& p.pose_roll == Float::Double(self.roll)
    }
}

/// A Colour and a Projection are read as they were meant.
pub proof fn lemma_video_parts(c: ColourFacts, p: ProjectionFacts)
    ensures
        c.is_read_as(colour_of(c)),
        p.is_read_as(projection_of(p)),
{
    lemma_matrix_coefficients_round_trip(c.matrix, MatrixCoefficients::of_raw(c.matrix));
    lemma_chroma_siting_horz_round_trip(
        c.siting_across,
        ChromaSitingHorz::of_raw(c.siting_across),
    );
    lemma_chroma_siting_vert_round_trip(c.siting_down, ChromaSitingVert::of_raw(c.siting_down));
    lemma_colour_range_round_trip(c.range, ColourRange::of_raw(c.range));
    lemma_transfer_characteristics_round_trip(
        c.transfer,
        TransferCharacteristics::of_raw(c.transfer),
    );
    lemma_primaries_round_trip(c.primaries, Primaries::of_raw(c.primaries));
    lemma_projection_type_round_trip(p.kind, ProjectionType::of_raw(p.kind));
}

} // verus!
