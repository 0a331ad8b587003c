//! What the library promises of all documents, whoever wrote them.

pub mod attachments;
pub mod blocks;
pub mod calendar;
pub mod chapters;
pub mod checksum;
pub mod codecs;
pub mod delay;
pub mod document;
pub mod elements;
pub mod info;
pub mod lacing;
pub mod muxing;
pub mod numbers;
pub mod numerals;
pub mod opening;
pub mod pieces;
pub mod seeking;
pub mod streams;
pub mod tags;
pub mod times;
pub mod tracks;
pub mod values;
pub mod video;
