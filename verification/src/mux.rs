//! Writing Matroska and WebM documents.
//!
//! The [`MkvMuxer`] gives the bytes to be written: the header, for each packet a block and
//! now and then the start of a Cluster, and at the end the seek index. Segment and
//! Clusters have no size of their own, so that nothing has to be written twice but the
//! place of the index.

pub mod chapters;
pub mod cues;
pub mod header;
pub mod muxer;
pub mod packets;
pub mod seek_head;

pub use self::chapters::{ChapterDisplay, MkvChapter};
pub use self::header::{DocType, MuxStream};
pub use self::muxer::{MkvMuxer, Trailer};
