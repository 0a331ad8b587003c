//! Which element is which.

use vstd::prelude::*;
use crate::ids;
use crate::schema::element_row;

verus! {

/// Whether `id` is the ID of the element that the schema calls `name`.
pub open spec fn is_called(id: u32, name: &'static str) -> bool {
    element_row(id) matches Some(e) && e.id == id && e.name@ == name@
}

/// The IDs at the top of a document are those of the schema.
pub proof fn lemma_head_ids()
    ensures
        is_called(ids::EBML_HEADER, "EBML"),
        is_called(ids::EBML_VERSION, "EBMLVersion"),
        is_called(ids::EBML_READ_VERSION, "EBMLReadVersion"),
        is_called(ids::EBML_MAX_ID_LENGTH, "EBMLMaxIDLength"),
        is_called(ids::EBML_MAX_SIZE_LENGTH, "EBMLMaxSizeLength"),
        is_called(ids::EBML_DOC_TYPE, "DocType"),
        is_called(ids::EBML_DOC_TYPE_VERSION, "DocTypeVersion"),
        is_called(ids::EBML_DOC_TYPE_READ_VERSION, "DocTypeReadVersion"),
        is_called(ids::SEGMENT, "Segment"),
        is_called(ids::VOID, "Void"),
        is_called(ids::CRC32, "CRC-32"),
{
}

/// The IDs of the SeekHead and of the Info are those of the schema.
pub proof fn lemma_info_ids()
    ensures
        is_called(ids::SEEK_HEAD, "SeekHead"),
        is_called(ids::SEEK, "Seek"),
        is_called(ids::SEEK_ID, "SeekID"),
        is_called(ids::SEEK_POSITION, "SeekPosition"),
        is_called(ids::INFO, "Info"),
        is_called(ids::TIMECODE_SCALE, "TimestampScale"),
        is_called(ids::DURATION, "Duration"),
        is_called(ids::SEGMENT_UID, "SegmentUUID"),
        is_called(ids::MUXING_APP, "MuxingApp"),
        is_called(ids::WRITING_APP, "WritingApp"),
        is_called(ids::TITLE, "Title"),
        is_called(ids::DATE_UTC, "DateUTC"),
{
}

/// The IDs of some elements of a track are those of the schema.
pub proof fn lemma_track_ids_1()
    ensures
        is_called(ids::TRACKS, "Tracks"),
        is_called(ids::TRACK_ENTRY, "TrackEntry"),
        is_called(ids::TRACK_NUMBER, "TrackNumber"),
        is_called(ids::TRACK_UID, "TrackUID"),
        is_called(ids::TRACK_TYPE, "TrackType"),
        is_called(ids::FLAG_ENABLED, "FlagEnabled"),
        is_called(ids::FLAG_DEFAULT, "FlagDefault"),
        is_called(ids::FLAG_LACING, "FlagLacing"),
        is_called(ids::NAME, "Name"),
        is_called(ids::LANGUAGE, "Language"),
        is_called(ids::CODEC_ID, "CodecID"),
        is_called(ids::CODEC_PRIVATE, "CodecPrivate"),
        is_called(ids::CODEC_NAME, "CodecName"),
        is_called(ids::CODEC_DELAY, "CodecDelay"),
{
}

/// The IDs of some elements of a track are those of the schema.
pub proof fn lemma_track_ids_2()
    ensures
        is_called(ids::SEEK_PRE_ROLL, "SeekPreRoll"),
        is_called(ids::AUDIO, "Audio"),
        is_called(ids::TRACK_OPERATION, "TrackOperation"),
        is_called(ids::TRACK_COMBINE_PLANES, "TrackCombinePlanes"),
        is_called(ids::TRACK_PLANE, "TrackPlane"),
        is_called(ids::TRACK_PLANE_UID, "TrackPlaneUID"),
        is_called(ids::TRACK_PLANE_TYPE, "TrackPlaneType"),
        is_called(ids::TRACK_JOIN_BLOCKS, "TrackJoinBlocks"),
        is_called(ids::TRACK_JOIN_UID, "TrackJoinUID"),
        is_called(ids::SAMPLING_FREQUENCY, "SamplingFrequency"),
        is_called(ids::OUTPUT_SAMPLING_FREQUENCY, "OutputSamplingFrequency"),
        is_called(ids::CHANNELS, "Channels"),
        is_called(ids::BIT_DEPTH, "BitDepth"),
        is_called(ids::BLOCK_ADDITION_MAPPING, "BlockAdditionMapping"),
{
}

/// The IDs of some elements of a track are those of the schema.
pub proof fn lemma_track_ids_3()
    ensures
        is_called(ids::BLOCK_ADD_ID_VALUE, "BlockAddIDValue"),
        is_called(ids::BLOCK_ADD_ID_NAME, "BlockAddIDName"),
        is_called(ids::BLOCK_ADD_ID_TYPE, "BlockAddIDType"),
        is_called(ids::BLOCK_ADD_ID_EXTRA_DATA, "BlockAddIDExtraData"),
{
}

/// The IDs of a Cluster are those of the schema.
pub proof fn lemma_cluster_ids()
    ensures
        is_called(ids::CLUSTER, "Cluster"),
        is_called(ids::TIMECODE, "Timestamp"),
        is_called(ids::SIMPLE_BLOCK, "SimpleBlock"),
        is_called(ids::BLOCK_GROUP, "BlockGroup"),
        is_called(ids::BLOCK, "Block"),
        is_called(ids::BLOCK_DURATION, "BlockDuration"),
        is_called(ids::REFERENCE_BLOCK, "ReferenceBlock"),
{
}

/// The IDs of the Cues are those of the schema.
pub proof fn lemma_cues_ids()
    ensures
        is_called(ids::CUES, "Cues"),
        is_called(ids::CUE_POINT, "CuePoint"),
        is_called(ids::CUE_TIME, "CueTime"),
        is_called(ids::CUE_TRACK_POSITIONS, "CueTrackPositions"),
        is_called(ids::CUE_TRACK, "CueTrack"),
        is_called(ids::CUE_CLUSTER_POSITION, "CueClusterPosition"),
        is_called(ids::CUE_RELATIVE_POSITION, "CueRelativePosition"),
        is_called(ids::CUE_DURATION, "CueDuration"),
        is_called(ids::CUE_BLOCK_NUMBER, "CueBlockNumber"),
{
}

/// The IDs of the Attachments are those of the schema.
pub proof fn lemma_attachments_ids()
    ensures
        is_called(ids::ATTACHMENTS, "Attachments"),
        is_called(ids::ATTACHED_FILE, "AttachedFile"),
        is_called(ids::FILE_DESCRIPTION, "FileDescription"),
        is_called(ids::FILE_NAME, "FileName"),
        is_called(ids::FILE_MIME_TYPE, "FileMediaType"),
        is_called(ids::FILE_DATA, "FileData"),
        is_called(ids::FILE_UID, "FileUID"),
{
}

/// The IDs of some elements of the Chapters are those of the schema.
pub proof fn lemma_chapters_ids_1()
    ensures
        is_called(ids::CHAPTERS, "Chapters"),
        is_called(ids::EDITION_ENTRY, "EditionEntry"),
        is_called(ids::EDITION_UID, "EditionUID"),
        is_called(ids::EDITION_FLAG_DEFAULT, "EditionFlagDefault"),
        is_called(ids::EDITION_FLAG_ORDERED, "EditionFlagOrdered"),
        is_called(ids::CHAPTER_ATOM, "ChapterAtom"),
        is_called(ids::CHAPTER_UID, "ChapterUID"),
        is_called(ids::CHAPTER_STRING_UID, "ChapterStringUID"),
        is_called(ids::CHAPTER_TIME_START, "ChapterTimeStart"),
        is_called(ids::CHAPTER_TIME_END, "ChapterTimeEnd"),
        is_called(ids::CHAPTER_FLAG_HIDDEN, "ChapterFlagHidden"),
        is_called(ids::CHAPTER_FLAG_ENABLED, "ChapterFlagEnabled"),
        is_called(ids::CHAPTER_SEGMENT_UUID, "ChapterSegmentUUID"),
        is_called(ids::CHAPTER_SEGMENT_EDITION_UID, "ChapterSegmentEditionUID"),
{
}

/// The IDs of some elements of the Chapters are those of the schema.
pub proof fn lemma_chapters_ids_2()
    ensures
        is_called(ids::CHAPTER_PHYSICAL_EQUIV, "ChapterPhysicalEquiv"),
        is_called(ids::CHAPTER_DISPLAY, "ChapterDisplay"),
        is_called(ids::CHAP_STRING, "ChapString"),
        is_called(ids::CHAP_LANGUAGE, "ChapLanguage"),
        is_called(ids::CHAP_LANGUAGE_BCP47, "ChapLanguageBCP47"),
        is_called(ids::CHAP_COUNTRY, "ChapCountry"),
        is_called(ids::CHAP_PROCESS, "ChapProcess"),
        is_called(ids::CHAP_PROCESS_CODEC_ID, "ChapProcessCodecID"),
        is_called(ids::CHAP_PROCESS_PRIVATE, "ChapProcessPrivate"),
        is_called(ids::CHAP_PROCESS_COMMAND, "ChapProcessCommand"),
        is_called(ids::CHAP_PROCESS_TIME, "ChapProcessTime"),
        is_called(ids::CHAP_PROCESS_DATA, "ChapProcessData"),
{
}

/// The IDs of some elements of the Tags are those of the schema.
pub proof fn lemma_tags_ids_1()
    ensures
        is_called(ids::TAGS, "Tags"),
        is_called(ids::TAG, "Tag"),
        is_called(ids::TARGETS, "Targets"),
        is_called(ids::TARGET_TYPE_VALUE, "TargetTypeValue"),
        is_called(ids::TARGET_TYPE, "TargetType"),
        is_called(ids::TAG_TRACK_UID, "TagTrackUID"),
        is_called(ids::TAG_EDITION_UID, "TagEditionUID"),
        is_called(ids::TAG_CHAPTER_UID, "TagChapterUID"),
        is_called(ids::TAG_ATTACHMENT_UID, "TagAttachmentUID"),
        is_called(ids::SIMPLE_TAG, "SimpleTag"),
        is_called(ids::TAG_NAME, "TagName"),
        is_called(ids::TAG_STRING, "TagString"),
        is_called(ids::TAG_LANGUAGE, "TagLanguage"),
        is_called(ids::TAG_LANGUAGE_BCP47, "TagLanguageBCP47"),
{
}

/// The IDs of some elements of the Tags are those of the schema.
pub proof fn lemma_tags_ids_2()
    ensures
        is_called(ids::TAG_DEFAULT, "TagDefault"),
        is_called(ids::TAG_BINARY, "TagBinary"),
{
}

/// The IDs of some elements of a Video are those of the schema.
pub proof fn lemma_video_ids_1()
    ensures
        is_called(ids::VIDEO, "Video"),
        is_called(ids::PIXEL_WIDTH, "PixelWidth"),
        is_called(ids::PIXEL_HEIGHT, "PixelHeight"),
        is_called(ids::PIXEL_CROP_BOTTOM, "PixelCropBottom"),
        is_called(ids::PIXEL_CROP_TOP, "PixelCropTop"),
        is_called(ids::PIXEL_CROP_LEFT, "PixelCropLeft"),
        is_called(ids::PIXEL_CROP_RIGHT, "PixelCropRight"),
        is_called(ids::DISPLAY_WIDTH, "DisplayWidth"),
        is_called(ids::DISPLAY_HEIGHT, "DisplayHeight"),
        is_called(ids::DISPLAY_UNIT, "DisplayUnit"),
        is_called(ids::FLAG_INTERLACED, "FlagInterlaced"),
        is_called(ids::FIELD_ORDER, "FieldOrder"),
        is_called(ids::STEREO_MODE, "StereoMode"),
        is_called(ids::PROJECTION, "Projection"),
{
}

/// The IDs of some elements of a Video are those of the schema.
pub proof fn lemma_video_ids_2()
    ensures
        is_called(ids::PROJECTION_TYPE, "ProjectionType"),
        is_called(ids::PROJECTION_PRIVATE, "ProjectionPrivate"),
        is_called(ids::PROJECTION_POSE_YAW, "ProjectionPoseYaw"),
        is_called(ids::PROJECTION_POSE_PITCH, "ProjectionPosePitch"),
        is_called(ids::PROJECTION_POSE_ROLL, "ProjectionPoseRoll"),
        is_called(ids::ALPHA_MODE, "AlphaMode"),
        is_called(ids::ASPECT_RATIO_TYPE, "AspectRatioType"),
        is_called(ids::UNCOMPRESSED_FOURCC, "UncompressedFourCC"),
{
}

/// The IDs of the encodings of a track are those of the schema.
pub proof fn lemma_encoding_ids()
    ensures
        is_called(ids::CONTENT_ENCODINGS, "ContentEncodings"),
        is_called(ids::CONTENT_ENCODING, "ContentEncoding"),
        is_called(ids::CONTENT_ENCODING_ORDER, "ContentEncodingOrder"),
        is_called(ids::CONTENT_ENCODING_SCOPE, "ContentEncodingScope"),
        is_called(ids::CONTENT_ENCODING_TYPE, "ContentEncodingType"),
        is_called(ids::CONTENT_COMPRESSION, "ContentCompression"),
        is_called(ids::CONTENT_COMP_ALGO, "ContentCompAlgo"),
        is_called(ids::CONTENT_COMP_SETTINGS, "ContentCompSettings"),
        is_called(ids::CONTENT_ENCRYPTION, "ContentEncryption"),
        is_called(ids::CONTENT_ENC_ALGO, "ContentEncAlgo"),
        is_called(ids::CONTENT_ENC_KEY_ID, "ContentEncKeyID"),
        is_called(ids::CONTENT_ENC_AES_SETTINGS, "ContentEncAESSettings"),
        is_called(ids::AES_SETTINGS_CIPHER_MODE, "AESSettingsCipherMode"),
{
}

/// The IDs of some elements of a Colour are those of the schema.
pub proof fn lemma_colour_ids_1()
    ensures
        is_called(ids::COLOUR, "Colour"),
        is_called(ids::MATRIX_COEFFICIENTS, "MatrixCoefficients"),
        is_called(ids::BITS_PER_CHANNEL, "BitsPerChannel"),
        is_called(ids::CHROMA_SUBSAMPLING_HORZ, "ChromaSubsamplingHorz"),
        is_called(ids::CHROMA_SUBSAMPLING_VERT, "ChromaSubsamplingVert"),
        is_called(ids::CB_SUBSAMPLING_HORZ, "CbSubsamplingHorz"),
        is_called(ids::CB_SUBSAMPLING_VERT, "CbSubsamplingVert"),
        is_called(ids::CHROMA_SITING_HORZ, "ChromaSitingHorz"),
        is_called(ids::CHROMA_SITING_VERT, "ChromaSitingVert"),
        is_called(ids::COLOUR_RANGE, "Range"),
        is_called(ids::TRANSFER_CHARACTERISTICS, "TransferCharacteristics"),
        is_called(ids::PRIMARIES, "Primaries"),
        is_called(ids::MAX_CLL, "MaxCLL"),
        is_called(ids::MAX_FALL, "MaxFALL"),
{
}

/// The IDs of some elements of a Colour are those of the schema.
pub proof fn lemma_colour_ids_2()
    ensures
        is_called(ids::MASTERING_METADATA, "MasteringMetadata"),
        is_called(ids::PRIMARY_R_CHROMATICITY_X, "PrimaryRChromaticityX"),
        is_called(ids::PRIMARY_R_CHROMATICITY_Y, "PrimaryRChromaticityY"),
        is_called(ids::PRIMARY_G_CHROMATICITY_X, "PrimaryGChromaticityX"),
        is_called(ids::PRIMARY_G_CHROMATICITY_Y, "PrimaryGChromaticityY"),
        is_called(ids::PRIMARY_B_CHROMATICITY_X, "PrimaryBChromaticityX"),
        is_called(ids::PRIMARY_B_CHROMATICITY_Y, "PrimaryBChromaticityY"),
        is_called(ids::WHITE_POINT_CHROMATICITY_X, "WhitePointChromaticityX"),
        is_called(ids::WHITE_POINT_CHROMATICITY_Y, "WhitePointChromaticityY"),
        is_called(ids::LUMINANCE_MAX, "LuminanceMax"),
        is_called(ids::LUMINANCE_MIN, "LuminanceMin"),
{
}

} // verus!
