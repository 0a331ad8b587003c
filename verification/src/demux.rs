//! Reading Matroska and WebM documents.
//!
//! [`open_typed`] reads a document up to its first Cluster. The [`MkvDemuxer`] that it
//! gives then hands out packets and everything that the document says about its streams.

pub mod attachments;
pub mod chapter_types;
pub mod chapters;
pub mod crc;
pub mod cues;
pub mod demuxer;
pub mod encodings;
pub mod info;
pub mod lacing;
pub mod operation;
pub mod reader;
pub mod segment;
pub mod streams;
pub mod tags;
pub mod target_level;
pub mod tracks;
pub mod video;

pub use self::attachments::Attachment;
pub use self::chapter_types::{
    ChapProcess, ChapProcessCommand, Chapter, ChapterDisplay, Edition,
};
pub use self::crc::CrcStatus;
pub use self::demuxer::{open_typed, MkvDemuxer, Opening};
pub use self::encodings::{
    AesCipherMode, ContentCompAlgo, ContentEncAlgo, ContentEncoding, ContentEncodingScope,
    ContentEncodingTransform, ContentEncodings,
};
pub use self::operation::{TrackOperation, TrackPlane, TrackPlaneType, TrackRef};
pub use self::streams::CodecQuery;
pub use self::tags::{SimpleTag, SimpleTagValue, Tag, TargetUid, Targets};
pub use self::target_level::TargetLevel;
pub use self::tracks::BlockAdditionMapping;
pub use self::video::{
    AlphaMode, ChromaSitingHorz, ChromaSitingVert, ColourRange, DisplayUnit, FieldOrder,
    FlagInterlaced, MasteringMetadata, MatrixCoefficients, Primaries, Projection, ProjectionType,
    StereoMode, TransferCharacteristics, UncompressedFourCC, VideoColour, VideoGeometry,
    VideoInterlacing,
};
