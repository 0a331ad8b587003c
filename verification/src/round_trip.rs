//! What was written is read back.

pub mod chapters;
pub mod cues;
pub mod document;
pub mod elements;
pub mod header;
pub mod packets;
pub mod seeking;
pub mod tracks;
