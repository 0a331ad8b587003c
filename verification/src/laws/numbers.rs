//! Which number in a document stands for what.

use vstd::prelude::*;
use crate::demux::encodings::{AesCipherMode, ContentCompAlgo, ContentEncAlgo};
use crate::demux::operation::TrackPlaneType;
use crate::demux::target_level::TargetLevel;
use crate::demux::video::{
    AlphaMode, ChromaSitingHorz, ChromaSitingVert, ColourRange, DisplayUnit, FieldOrder,
    FlagInterlaced, MatrixCoefficients, Primaries, ProjectionType, StereoMode,
    TransferCharacteristics,
};

verus! {

/// The numbers for whether a video is interlaced, and no others, have names.
pub proof fn lemma_flag_interlaced_numbers(v: u64)
    ensures
        (FlagInterlaced::of_raw(v) is Undetermined) == (v == 0),
        (FlagInterlaced::of_raw(v) is Interlaced) == (v == 1),
        (FlagInterlaced::of_raw(v) is Progressive) == (v == 2),
        (FlagInterlaced::of_raw(v) is Other) == (v > 2),
        FlagInterlaced::of_raw(v).raw() == v,
{
}

/// The numbers for the order of fields, and no others, have names.
pub proof fn lemma_field_order_numbers(v: u64)
    ensures
        (FieldOrder::of_raw(v) is Progressive) == (v == 0),
        (FieldOrder::of_raw(v) is Tff) == (v == 1),
        (FieldOrder::of_raw(v) is Undetermined) == (v == 2),
        (FieldOrder::of_raw(v) is Bff) == (v == 6),
        (FieldOrder::of_raw(v) is TffInterleaved) == (v == 9),
        (FieldOrder::of_raw(v) is BffInterleaved) == (v == 14),
        (FieldOrder::of_raw(v) is Other) == (v > 2 && v != 6 && v != 9 && v != 14),
        FieldOrder::of_raw(v).raw() == v,
{
}

/// The numbers for how both eyes share a frame, and no others, have names.
pub proof fn lemma_stereo_mode_numbers(v: u64)
    ensures
        (StereoMode::of_raw(v) is Mono) == (v == 0),
        (StereoMode::of_raw(v) is SideBySideLeftFirst) == (v == 1),
        (StereoMode::of_raw(v) is TopBottomRightFirst) == (v == 2),
        (StereoMode::of_raw(v) is TopBottomLeftFirst) == (v == 3),
        (StereoMode::of_raw(v) is CheckboardRightFirst) == (v == 4),
        (StereoMode::of_raw(v) is CheckboardLeftFirst) == (v == 5),
        (StereoMode::of_raw(v) is RowInterleavedRightFirst) == (v == 6),
        (StereoMode::of_raw(v) is RowInterleavedLeftFirst) == (v == 7),
        (StereoMode::of_raw(v) is ColumnInterleavedRightFirst) == (v == 8),
        (StereoMode::of_raw(v) is ColumnInterleavedLeftFirst) == (v == 9),
        (StereoMode::of_raw(v) is AnaglyphCyanRed) == (v == 10),
        (StereoMode::of_raw(v) is SideBySideRightFirst) == (v == 11),
        (StereoMode::of_raw(v) is AnaglyphGreenMagenta) == (v == 12),
        (StereoMode::of_raw(v) is BothEyesLacedLeftFirst) == (v == 13),
        (StereoMode::of_raw(v) is BothEyesLacedRightFirst) == (v == 14),
        (StereoMode::of_raw(v) is Other) == (v > 14),
        StereoMode::of_raw(v).raw() == v,
{
}

/// The numbers for what a frame is projected on, and no others, have names.
pub proof fn lemma_projection_type_numbers(v: u64)
    ensures
        (ProjectionType::of_raw(v) is Rectangular) == (v == 0),
        (ProjectionType::of_raw(v) is Equirectangular) == (v == 1),
        (ProjectionType::of_raw(v) is Cubemap) == (v == 2),
        (ProjectionType::of_raw(v) is Mesh) == (v == 3),
        (ProjectionType::of_raw(v) is Other) == (v > 3),
        ProjectionType::of_raw(v).raw() == v,
{
}

/// The numbers for whether there is an alpha channel, and no others, have names.
pub proof fn lemma_alpha_mode_numbers(v: u64)
    ensures
        (AlphaMode::of_raw(v) is Absent) == (v == 0),
        (AlphaMode::of_raw(v) is Present) == (v == 1),
        (AlphaMode::of_raw(v) is Other) == (v != 0 && v != 1),
        AlphaMode::of_raw(v).raw() == v,
{
}

/// The numbers for the unit of a display size, and no others, have names.
pub proof fn lemma_display_unit_numbers(v: u64)
    ensures
        (DisplayUnit::of_raw(v) is Pixels) == (v == 0),
        (DisplayUnit::of_raw(v) is Centimeters) == (v == 1),
        (DisplayUnit::of_raw(v) is Inches) == (v == 2),
        (DisplayUnit::of_raw(v) is DisplayAspectRatio) == (v == 3),
        (DisplayUnit::of_raw(v) is Unknown) == (v == 4),
        (DisplayUnit::of_raw(v) is Other) == (v > 4),
        DisplayUnit::of_raw(v).raw() == v,
{
}

/// The numbers for the matrix of a colour space, and no others, have names.
pub proof fn lemma_matrix_coefficients_numbers(v: u64)
    ensures
        (MatrixCoefficients::of_raw(v) is Identity) == (v == 0),
        (MatrixCoefficients::of_raw(v) is BT709) == (v == 1),
        (MatrixCoefficients::of_raw(v) is Unspecified) == (v == 2),
        (MatrixCoefficients::of_raw(v) is Reserved) == (v == 3),
        (MatrixCoefficients::of_raw(v) is UsFcc73682) == (v == 4),
        (MatrixCoefficients::of_raw(v) is BT470Bg) == (v == 5),
        (MatrixCoefficients::of_raw(v) is Smpte170M) == (v == 6),
        (MatrixCoefficients::of_raw(v) is Smpte240M) == (v == 7),
        (MatrixCoefficients::of_raw(v) is YCoCg) == (v == 8),
        (MatrixCoefficients::of_raw(v) is BT2020NonConstantLuminance) == (v == 9),
        (MatrixCoefficients::of_raw(v) is BT2020ConstantLuminance) == (v == 10),
        (MatrixCoefficients::of_raw(v) is SmpteSt2085) == (v == 11),
        (MatrixCoefficients::of_raw(v) is ChromaDerivedNonConstantLuminance) == (v == 12),
        (MatrixCoefficients::of_raw(v) is ChromaDerivedConstantLuminance) == (v == 13),
        (MatrixCoefficients::of_raw(v) is BT2100) == (v == 14),
        (MatrixCoefficients::of_raw(v) is Other) == (v > 14),
        MatrixCoefficients::of_raw(v).raw() == v,
{
}

/// The numbers for where chroma samples are from left to right, and no others, have names.
pub proof fn lemma_chroma_siting_horz_numbers(v: u64)
    ensures
        (ChromaSitingHorz::of_raw(v) is Unspecified) == (v == 0),
        (ChromaSitingHorz::of_raw(v) is LeftCollocated) == (v == 1),
        (ChromaSitingHorz::of_raw(v) is Half) == (v == 2),
        (ChromaSitingHorz::of_raw(v) is Other) == (v > 2),
        ChromaSitingHorz::of_raw(v).raw() == v,
{
}

/// The numbers for where chroma samples are from top to bottom, and no others, have names.
pub proof fn lemma_chroma_siting_vert_numbers(v: u64)
    ensures
        (ChromaSitingVert::of_raw(v) is Unspecified) == (v == 0),
        (ChromaSitingVert::of_raw(v) is TopCollocated) == (v == 1),
        (ChromaSitingVert::of_raw(v) is Half) == (v == 2),
        (ChromaSitingVert::of_raw(v) is Other) == (v > 2),
        ChromaSitingVert::of_raw(v).raw() == v,
{
}

/// The numbers for the range of colours, and no others, have names.
pub proof fn lemma_colour_range_numbers(v: u64)
    ensures
        (ColourRange::of_raw(v) is Unspecified) == (v == 0),
        (ColourRange::of_raw(v) is Broadcast) == (v == 1),
        (ColourRange::of_raw(v) is Full) == (v == 2),
        (ColourRange::of_raw(v) is DefinedByMatrixAndTransfer) == (v == 3),
        (ColourRange::of_raw(v) is Other) == (v > 3),
        ColourRange::of_raw(v).raw() == v,
{
}

/// The numbers for the transfer function, and no others, have names.
pub proof fn lemma_transfer_characteristics_numbers(v: u64)
    ensures
        (TransferCharacteristics::of_raw(v) is Reserved0) == (v == 0),
        (TransferCharacteristics::of_raw(v) is BT709) == (v == 1),
        (TransferCharacteristics::of_raw(v) is Unspecified) == (v == 2),
        (TransferCharacteristics::of_raw(v) is Reserved3) == (v == 3),
        (TransferCharacteristics::of_raw(v) is Gamma22BT470M) == (v == 4),
        (TransferCharacteristics::of_raw(v) is Gamma28BT470Bg) == (v == 5),
        (TransferCharacteristics::of_raw(v) is Smpte170M) == (v == 6),
        (TransferCharacteristics::of_raw(v) is Smpte240M) == (v == 7),
        (TransferCharacteristics::of_raw(v) is Linear) == (v == 8),
        (TransferCharacteristics::of_raw(v) is Log) == (v == 9),
        (TransferCharacteristics::of_raw(v) is LogSqrt) == (v == 10),
        (TransferCharacteristics::of_raw(v) is Iec61966_2_4) == (v == 11),
        (TransferCharacteristics::of_raw(v) is BT1361ExtendedColourGamut) == (v == 12),
        (TransferCharacteristics::of_raw(v) is Iec61966_2_1) == (v == 13),
        (TransferCharacteristics::of_raw(v) is BT2020TenBit) == (v == 14),
        (TransferCharacteristics::of_raw(v) is BT2020TwelveBit) == (v == 15),
        (TransferCharacteristics::of_raw(v) is BT2100Pq) == (v == 16),
        (TransferCharacteristics::of_raw(v) is SmpteSt428_1) == (v == 17),
        (TransferCharacteristics::of_raw(v) is AribStdB67Hlg) == (v == 18),
        (TransferCharacteristics::of_raw(v) is Other) == (v > 18),
        TransferCharacteristics::of_raw(v).raw() == v,
{
}

/// The numbers for the primary colours, and no others, have names.
pub proof fn lemma_primaries_numbers(v: u64)
    ensures
        (Primaries::of_raw(v) is Reserved0) == (v == 0),
        (Primaries::of_raw(v) is BT709) == (v == 1),
        (Primaries::of_raw(v) is Unspecified) == (v == 2),
        (Primaries::of_raw(v) is Reserved3) == (v == 3),
        (Primaries::of_raw(v) is BT470M) == (v == 4),
        (Primaries::of_raw(v) is BT470Bg) == (v == 5),
        (Primaries::of_raw(v) is BT601_525Smpte170M) == (v == 6),
        (Primaries::of_raw(v) is Smpte240M) == (v == 7),
        (Primaries::of_raw(v) is Film) == (v == 8),
        (Primaries::of_raw(v) is BT2020) == (v == 9),
        (Primaries::of_raw(v) is SmpteSt428_1) == (v == 10),
        (Primaries::of_raw(v) is SmpteRp432_2) == (v == 11),
        (Primaries::of_raw(v) is SmpteEg432_2) == (v == 12),
        (Primaries::of_raw(v) is EbuTech3213EJedecP22Phosphors) == (v == 22),
        (Primaries::of_raw(v) is Other) == (v > 12 && v != 22),
        Primaries::of_raw(v).raw() == v,
{
}

/// The numbers for how frames are compressed, and no others, have names.
pub proof fn lemma_content_comp_algo_numbers(v: u64)
    ensures
        (ContentCompAlgo::of_raw(v) is Zlib) == (v == 0),
        (ContentCompAlgo::of_raw(v) is Bzlib) == (v == 1),
        (ContentCompAlgo::of_raw(v) is Lzo1x) == (v == 2),
        (ContentCompAlgo::of_raw(v) is HeaderStripping) == (v == 3),
        (ContentCompAlgo::of_raw(v) is Other) == (v > 3),
        ContentCompAlgo::of_raw(v).raw() == v,
{
}

/// The numbers for how frames are encrypted, and no others, have names.
pub proof fn lemma_content_enc_algo_numbers(v: u64)
    ensures
        (ContentEncAlgo::of_raw(v) is NotEncrypted) == (v == 0),
        (ContentEncAlgo::of_raw(v) is Des) == (v == 1),
        (ContentEncAlgo::of_raw(v) is TripleDes) == (v == 2),
        (ContentEncAlgo::of_raw(v) is Twofish) == (v == 3),
        (ContentEncAlgo::of_raw(v) is Blowfish) == (v == 4),
        (ContentEncAlgo::of_raw(v) is Aes) == (v == 5),
        (ContentEncAlgo::of_raw(v) is Other) == (v > 5),
        ContentEncAlgo::of_raw(v).raw() == v,
{
}

/// The numbers for the mode of AES, and no others, have names.
pub proof fn lemma_aes_cipher_mode_numbers(v: u64)
    ensures
        (AesCipherMode::of_raw(v) is Ctr) == (v == 1),
        (AesCipherMode::of_raw(v) is Cbc) == (v == 2),
        (AesCipherMode::of_raw(v) is Other) == (v != 1 && v != 2),
        AesCipherMode::of_raw(v).raw() == v,
{
}

/// The numbers for which plane a track is, and no others, have names.
pub proof fn lemma_track_plane_type_numbers(v: u64)
    ensures
        (TrackPlaneType::of_raw(v) is LeftEye) == (v == 0),
        (TrackPlaneType::of_raw(v) is RightEye) == (v == 1),
        (TrackPlaneType::of_raw(v) is Background) == (v == 2),
        (TrackPlaneType::of_raw(v) is Other) == (v > 2),
        TrackPlaneType::of_raw(v).raw() == v,
{
}

/// The numbers for the level of a tag, and no others, have names.
pub proof fn lemma_target_level_numbers(v: u64)
    ensures
        (TargetLevel::of_raw(v) is Shot) == (v == 10),
        (TargetLevel::of_raw(v) is Subtrack) == (v == 20),
        (TargetLevel::of_raw(v) is Track) == (v == 30),
        (TargetLevel::of_raw(v) is Part) == (v == 40),
        (TargetLevel::of_raw(v) is Album) == (v == 50),
        (TargetLevel::of_raw(v) is Edition) == (v == 60),
        (TargetLevel::of_raw(v) is Collection) == (v == 70),
        (TargetLevel::of_raw(v) is Other) == (v != 10 && v != 20 && v != 30
            && v != 40 && v != 50 && v != 60 && v != 70),
        TargetLevel::of_raw(v).raw() == v,
{
}

/// The names of the levels of a tag go with their numbers.
pub proof fn lemma_target_level_labels(v: u64)
    ensures
        v == 70 ==> TargetLevel::of_raw(v).label() == Some("COLLECTION"@),
        v == 60 ==> TargetLevel::of_raw(v).label() == Some("EDITION"@),
        v == 50 ==> TargetLevel::of_raw(v).label() == Some("ALBUM"@),
        v == 40 ==> TargetLevel::of_raw(v).label() == Some("PART"@),
        v == 30 ==> TargetLevel::of_raw(v).label() == Some("TRACK"@),
        v == 20 ==> TargetLevel::of_raw(v).label() == Some("SUBTRACK"@),
        v == 10 ==> TargetLevel::of_raw(v).label() == Some("SHOT"@),
        v % 10 != 0 || v == 0 || v > 70 ==> TargetLevel::of_raw(v).label() is None,
{
}

} // verus!
