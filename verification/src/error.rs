//! What can go wrong while reading or writing a Matroska document.

use vstd::prelude::*;

verus! {

/// Why an operation was refused.
#[derive(Clone, Copy, Debug, PartialEq, Eq, Structural)]
pub enum MkvError {
    /// The stream holds no further packet.
    Eof,
    /// The input ends inside an element.
    UnexpectedEof,
    /// A variable-length integer starts with a zero byte.
    InvalidVint,
    /// An element ID is longer than four bytes.
    InvalidElementId,
    /// An unsigned integer element is longer than eight bytes.
    InvalidUintSize,
    /// A float element is neither empty nor four nor eight bytes long.
    InvalidFloatSize,
    /// An element to be skipped has no known size, or ends past the largest position.
    InvalidSkip,
    /// The document starts with another element than the EBML header.
    NotEbml { id: u32 },
    /// The EBML header names a document type other than `matroska` and `webm`.
    UnsupportedDocType,
    /// The EBML header is followed by another element than the Segment.
    NotSegment { id: u32 },
    /// A top-level element other than a Cluster has an unknown size.
    UnknownSizeElement,
    /// The Segment lists no tracks.
    NoTracks,
    /// The Segment holds no Cluster.
    NoClusters,
    /// ChapterAtoms are nested too deeply.
    ChapterNesting,
    /// The frame sizes of a laced Block do not fit its payload.
    InvalidLacing,
    /// The stream index of a request names no stream.
    StreamIndexOutOfRange,
    /// The attachment index of a request names no attachment.
    AttachmentIndexOutOfRange,
    /// The input ends inside an attachment.
    AttachmentTruncated,
    /// A seek was asked of a document without a usable index.
    SeekUnsupported,
    /// A muxer was opened without streams.
    NoStreams,
    /// The codec of a stream has no place in the container.
    UnsupportedCodec,
    /// The operation comes too late: the header has been written already.
    HeaderAlreadyWritten,
    /// The operation comes too early: the header has not been written yet.
    HeaderNotWritten,
    /// A packet comes too early for the Cluster that it opens.
    TimecodeOutOfRange,
    /// A chapter ends before it starts.
    ChapterEndsBeforeStart,
}

} // verus!
