//! The elements of Matroska, by ID.

use vstd::prelude::*;
use super::{def, in_order, row, ElementDef, ElementType, NO_MAX_VER};

verus! {

/// The elements from `0x80` to `0xA5`.
pub open spec fn rows_1(id: u32) -> Option<ElementDef> {
    if id == 0x80 {
        Some(row(0x80, "ChapterDisplay",
            "\\Segment\\Chapters\\EditionEntry\\+ChapterAtom\\ChapterDisplay", Some(0xB6),
            ElementType::Master, (0, None), (None, None, None),
            (1, NO_MAX_VER), (false, false, false, true)))
    } else if id == 0x83 {
        Some(row(0x83, "TrackType",
            "\\Segment\\Tracks\\TrackEntry\\TrackType", Some(0xAE),
            ElementType::Uinteger, (1, Some(1)), (Some("not 0"), None, None),
            (1, NO_MAX_VER), (false, false, false, true)))
    } else if id == 0x85 {
        Some(row(0x85, "ChapString",
            "\\Segment\\Chapters\\EditionEntry\\+ChapterAtom\\ChapterDisplay\\ChapString", Some(0x80),
            ElementType::Utf8, (1, Some(1)), (None, None, None),
            (1, NO_MAX_VER), (false, false, false, true)))
    } else if id == 0x86 {
        Some(row(0x86, "CodecID",
            "\\Segment\\Tracks\\TrackEntry\\CodecID", Some(0xAE),
            ElementType::AsciiString, (1, Some(1)), (None, None, None),
            (1, NO_MAX_VER), (false, false, false, true)))
    } else if id == 0x88 {
        Some(row(0x88, "FlagDefault",
            "\\Segment\\Tracks\\TrackEntry\\FlagDefault", Some(0xAE),
            ElementType::Uinteger, (1, Some(1)), (Some("0-1"), None, Some("1")),
            (1, NO_MAX_VER), (false, false, false, true)))
    } else if id == 0x89 {
        Some(row(0x89, "ChapterTrackUID",
            "\\Segment\\Chapters\\EditionEntry\\+ChapterAtom\\ChapterTrack\\ChapterTrackUID", Some(0x8F),
            ElementType::Uinteger, (1, None), (Some("not 0"), None, None),
            (1, NO_MAX_VER), (false, false, false, false)))
    } else if id == 0x8E {
        Some(row(0x8E, "Slices",
            "\\Segment\\Cluster\\BlockGroup\\Slices", Some(0xA0),
            ElementType::Master, (0, Some(1)), (None, None, None),
            (0, 0), (false, false, false, false)))
    } else if id == 0x8F {
        Some(row(0x8F, "ChapterTrack",
            "\\Segment\\Chapters\\EditionEntry\\+ChapterAtom\\ChapterTrack", Some(0xB6),
            ElementType::Master, (0, Some(1)), (None, None, None),
            (1, NO_MAX_VER), (false, false, false, false)))
    } else if id == 0x91 {
        Some(row(0x91, "ChapterTimeStart",
            "\\Segment\\Chapters\\EditionEntry\\+ChapterAtom\\ChapterTimeStart", Some(0xB6),
            ElementType::Uinteger, (1, Some(1)), (None, None, None),
            (1, NO_MAX_VER), (false, false, false, true)))
    } else if id == 0x92 {
        Some(row(0x92, "ChapterTimeEnd",
            "\\Segment\\Chapters\\EditionEntry\\+ChapterAtom\\ChapterTimeEnd", Some(0xB6),
            ElementType::Uinteger, (0, Some(1)), (None, None, None),
            (1, NO_MAX_VER), (false, false, false, true)))
    } else if id == 0x96 {
        Some(row(0x96, "CueRefTime",
            "\\Segment\\Cues\\CuePoint\\CueTrackPositions\\CueReference\\CueRefTime", Some(0xDB),
            ElementType::Uinteger, (1, Some(1)), (None, None, None),
            (2, NO_MAX_VER), (false, false, false, false)))
    } else if id == 0x97 {
        Some(row(0x97, "CueRefCluster",
            "\\Segment\\Cues\\CuePoint\\CueTrackPositions\\CueReference\\CueRefCluster", Some(0xDB),
            ElementType::Uinteger, (1, Some(1)), (None, None, None),
            (0, 0), (false, false, false, false)))
    } else if id == 0x98 {
        Some(row(0x98, "ChapterFlagHidden",
            "\\Segment\\Chapters\\EditionEntry\\+ChapterAtom\\ChapterFlagHidden", Some(0xB6),
            ElementType::Uinteger, (1, Some(1)), (Some("0-1"), None, Some("0")),
            (1, NO_MAX_VER), (false, false, false, false)))
    } else if id == 0x9A {
        Some(row(0x9A, "FlagInterlaced",
            "\\Segment\\Tracks\\TrackEntry\\Video\\FlagInterlaced", Some(0xE0),
            ElementType::Uinteger, (1, Some(1)), (None, None, Some("0")),
            (2, NO_MAX_VER), (false, false, false, true)))
    } else if id == 0x9B {
        Some(row(0x9B, "BlockDuration",
            "\\Segment\\Cluster\\BlockGroup\\BlockDuration", Some(0xA0),
            ElementType::Uinteger, (0, Some(1)), (None, None, None),
            (1, NO_MAX_VER), (false, false, false, true)))
    } else if id == 0x9C {
        Some(row(0x9C, "FlagLacing",
            "\\Segment\\Tracks\\TrackEntry\\FlagLacing", Some(0xAE),
            ElementType::Uinteger, (1, Some(1)), (Some("0-1"), None, Some("1")),
            (1, NO_MAX_VER), (false, false, false, true)))
    } else if id == 0x9D {
        Some(row(0x9D, "FieldOrder",
            "\\Segment\\Tracks\\TrackEntry\\Video\\FieldOrder", Some(0xE0),
            ElementType::Uinteger, (1, Some(1)), (None, None, Some("2")),
            (4, NO_MAX_VER), (false, false, false, false)))
    } else if id == 0x9F {
        Some(row(0x9F, "Channels",
            "\\Segment\\Tracks\\TrackEntry\\Audio\\Channels", Some(0xE1),
            ElementType::Uinteger, (1, Some(1)), (Some("not 0"), None, Some("1")),
            (1, NO_MAX_VER), (false, false, false, true)))
    } else if id == 0xA0 {
        Some(row(0xA0, "BlockGroup",
            "\\Segment\\Cluster\\BlockGroup", Some(0x1F43B675),
            ElementType::Master, (0, None), (None, None, None),
            (1, NO_MAX_VER), (false, false, false, true)))
    } else if id == 0xA1 {
        Some(row(0xA1, "Block",
            "\\Segment\\Cluster\\BlockGroup\\Block", Some(0xA0),
            ElementType::Binary, (1, Some(1)), (None, None, None),
            (1, NO_MAX_VER), (false, false, false, true)))
    } else if id == 0xA2 {
        Some(row(0xA2, "BlockVirtual",
            "\\Segment\\Cluster\\BlockGroup\\BlockVirtual", Some(0xA0),
            ElementType::Binary, (0, Some(1)), (None, None, None),
            (0, 0), (false, false, false, false)))
    } else if id == 0xA3 {
        Some(row(0xA3, "SimpleBlock",
            "\\Segment\\Cluster\\SimpleBlock", Some(0x1F43B675),
            ElementType::Binary, (0, None), (None, None, None),
            (2, NO_MAX_VER), (false, false, false, true)))
    } else if id == 0xA4 {
        Some(row(0xA4, "CodecState",
            "\\Segment\\Cluster\\BlockGroup\\CodecState", Some(0xA0),
            ElementType::Binary, (0, Some(1)), (None, None, None),
            (2, NO_MAX_VER), (false, false, false, false)))
    } else if id == 0xA5 {
        Some(row(0xA5, "BlockAdditional",
            "\\Segment\\Cluster\\BlockGroup\\BlockAdditions\\BlockMore\\BlockAdditional", Some(0xA6),
            ElementType::Binary, (1, Some(1)), (None, None, None),
            (1, NO_MAX_VER), (false, false, false, true)))
    } else {
        None
    }
}

pub(crate) fn find_1(id: u32) -> (r: Option<ElementDef>)
    ensures
        r == rows_1(id),
{
    if id == 0x80 {
        Some(def(0x80, "ChapterDisplay",
            "\\Segment\\Chapters\\EditionEntry\\+ChapterAtom\\ChapterDisplay", Some(0xB6),
            ElementType::Master, (0, None), (None, None, None),
            (1, NO_MAX_VER), (false, false, false, true)))
    } else if id == 0x83 {
        Some(def(0x83, "TrackType",
            "\\Segment\\Tracks\\TrackEntry\\TrackType", Some(0xAE),
            ElementType::Uinteger, (1, Some(1)), (Some("not 0"), None, None),
            (1, NO_MAX_VER), (false, false, false, true)))
    } else if id == 0x85 {
        Some(def(0x85, "ChapString",
            "\\Segment\\Chapters\\EditionEntry\\+ChapterAtom\\ChapterDisplay\\ChapString", Some(0x80),
            ElementType::Utf8, (1, Some(1)), (None, None, None),
            (1, NO_MAX_VER), (false, false, false, true)))
    } else if id == 0x86 {
        Some(def(0x86, "CodecID",
            "\\Segment\\Tracks\\TrackEntry\\CodecID", Some(0xAE),
            ElementType::AsciiString, (1, Some(1)), (None, None, None),
            (1, NO_MAX_VER), (false, false, false, true)))
    } else if id == 0x88 {
        Some(def(0x88, "FlagDefault",
            "\\Segment\\Tracks\\TrackEntry\\FlagDefault", Some(0xAE),
            ElementType::Uinteger, (1, Some(1)), (Some("0-1"), None, Some("1")),
            (1, NO_MAX_VER), (false, false, false, true)))
    } else if id == 0x89 {
        Some(def(0x89, "ChapterTrackUID",
            "\\Segment\\Chapters\\EditionEntry\\+ChapterAtom\\ChapterTrack\\ChapterTrackUID", Some(0x8F),
            ElementType::Uinteger, (1, None), (Some("not 0"), None, None),
            (1, NO_MAX_VER), (false, false, false, false)))
    } else if id == 0x8E {
        Some(def(0x8E, "Slices",
            "\\Segment\\Cluster\\BlockGroup\\Slices", Some(0xA0),
            ElementType::Master, (0, Some(1)), (None, None, None),
            (0, 0), (false, false, false, false)))
    } else if id == 0x8F {
        Some(def(0x8F, "ChapterTrack",
            "\\Segment\\Chapters\\EditionEntry\\+ChapterAtom\\ChapterTrack", Some(0xB6),
            ElementType::Master, (0, Some(1)), (None, None, None),
            (1, NO_MAX_VER), (false, false, false, false)))
    } else if id == 0x91 {
        Some(def(0x91, "ChapterTimeStart",
            "\\Segment\\Chapters\\EditionEntry\\+ChapterAtom\\ChapterTimeStart", Some(0xB6),
            ElementType::Uinteger, (1, Some(1)), (None, None, None),
            (1, NO_MAX_VER), (false, false, false, true)))
    } else if id == 0x92 {
        Some(def(0x92, "ChapterTimeEnd",
            "\\Segment\\Chapters\\EditionEntry\\+ChapterAtom\\ChapterTimeEnd", Some(0xB6),
            ElementType::Uinteger, (0, Some(1)), (None, None, None),
            (1, NO_MAX_VER), (false, false, false, true)))
    } else if id == 0x96 {
        Some(def(0x96, "CueRefTime",
            "\\Segment\\Cues\\CuePoint\\CueTrackPositions\\CueReference\\CueRefTime", Some(0xDB),
            ElementType::Uinteger, (1, Some(1)), (None, None, None),
            (2, NO_MAX_VER), (false, false, false, false)))
    } else if id == 0x97 {
        Some(def(0x97, "CueRefCluster",
            "\\Segment\\Cues\\CuePoint\\CueTrackPositions\\CueReference\\CueRefCluster", Some(0xDB),
            ElementType::Uinteger, (1, Some(1)), (None, None, None),
            (0, 0), (false, false, false, false)))
    } else if id == 0x98 {
        Some(def(0x98, "ChapterFlagHidden",
            "\\Segment\\Chapters\\EditionEntry\\+ChapterAtom\\ChapterFlagHidden", Some(0xB6),
            ElementType::Uinteger, (1, Some(1)), (Some("0-1"), None, Some("0")),
            (1, NO_MAX_VER), (false, false, false, false)))
    } else if id == 0x9A {
        Some(def(0x9A, "FlagInterlaced",
            "\\Segment\\Tracks\\TrackEntry\\Video\\FlagInterlaced", Some(0xE0),
            ElementType::Uinteger, (1, Some(1)), (None, None, Some("0")),
            (2, NO_MAX_VER), (false, false, false, true)))
    } else if id == 0x9B {
        Some(def(0x9B, "BlockDuration",
            "\\Segment\\Cluster\\BlockGroup\\BlockDuration", Some(0xA0),
            ElementType::Uinteger, (0, Some(1)), (None, None, None),
            (1, NO_MAX_VER), (false, false, false, true)))
    } else if id == 0x9C {
        Some(def(0x9C, "FlagLacing",
            "\\Segment\\Tracks\\TrackEntry\\FlagLacing", Some(0xAE),
            ElementType::Uinteger, (1, Some(1)), (Some("0-1"), None, Some("1")),
            (1, NO_MAX_VER), (false, false, false, true)))
    } else if id == 0x9D {
        Some(def(0x9D, "FieldOrder",
            "\\Segment\\Tracks\\TrackEntry\\Video\\FieldOrder", Some(0xE0),
            ElementType::Uinteger, (1, Some(1)), (None, None, Some("2")),
            (4, NO_MAX_VER), (false, false, false, false)))
    } else if id == 0x9F {
        Some(def(0x9F, "Channels",
            "\\Segment\\Tracks\\TrackEntry\\Audio\\Channels", Some(0xE1),
            ElementType::Uinteger, (1, Some(1)), (Some("not 0"), None, Some("1")),
            (1, NO_MAX_VER), (false, false, false, true)))
    } else if id == 0xA0 {
        Some(def(0xA0, "BlockGroup",
            "\\Segment\\Cluster\\BlockGroup", Some(0x1F43B675),
            ElementType::Master, (0, None), (None, None, None),
            (1, NO_MAX_VER), (false, false, false, true)))
    } else if id == 0xA1 {
        Some(def(0xA1, "Block",
            "\\Segment\\Cluster\\BlockGroup\\Block", Some(0xA0),
            ElementType::Binary, (1, Some(1)), (None, None, None),
            (1, NO_MAX_VER), (false, false, false, true)))
    } else if id == 0xA2 {
        Some(def(0xA2, "BlockVirtual",
            "\\Segment\\Cluster\\BlockGroup\\BlockVirtual", Some(0xA0),
            ElementType::Binary, (0, Some(1)), (None, None, None),
            (0, 0), (false, false, false, false)))
    } else if id == 0xA3 {
        Some(def(0xA3, "SimpleBlock",
            "\\Segment\\Cluster\\SimpleBlock", Some(0x1F43B675),
            ElementType::Binary, (0, None), (None, None, None),
            (2, NO_MAX_VER), (false, false, false, true)))
    } else if id == 0xA4 {
        Some(def(0xA4, "CodecState",
            "\\Segment\\Cluster\\BlockGroup\\CodecState", Some(0xA0),
            ElementType::Binary, (0, Some(1)), (None, None, None),
            (2, NO_MAX_VER), (false, false, false, false)))
    } else if id == 0xA5 {
        Some(def(0xA5, "BlockAdditional",
            "\\Segment\\Cluster\\BlockGroup\\BlockAdditions\\BlockMore\\BlockAdditional", Some(0xA6),
            ElementType::Binary, (1, Some(1)), (None, None, None),
            (1, NO_MAX_VER), (false, false, false, true)))
    } else {
        None
    }
}

/// The elements from `0xA6` to `0xCB`.
pub open spec fn rows_2(id: u32) -> Option<ElementDef> {
    if id == 0xA6 {
        Some(row(0xA6, "BlockMore",
            "\\Segment\\Cluster\\BlockGroup\\BlockAdditions\\BlockMore", Some(0x75A1),
            ElementType::Master, (1, None), (None, None, None),
            (1, NO_MAX_VER), (false, false, false, true)))
    } else if id == 0xA7 {
        Some(row(0xA7, "Position",
            "\\Segment\\Cluster\\Position", Some(0x1F43B675),
            ElementType::Uinteger, (0, Some(1)), (None, None, None),
            (1, 4), (false, false, false, false)))
    } else if id == 0xAA {
        Some(row(0xAA, "CodecDecodeAll",
            "\\Segment\\Tracks\\TrackEntry\\CodecDecodeAll", Some(0xAE),
            ElementType::Uinteger, (1, Some(1)), (Some("0-1"), None, Some("1")),
            (1, 0), (false, false, false, false)))
    } else if id == 0xAB {
        Some(row(0xAB, "PrevSize",
            "\\Segment\\Cluster\\PrevSize", Some(0x1F43B675),
            ElementType::Uinteger, (0, Some(1)), (None, None, None),
            (1, NO_MAX_VER), (false, false, false, true)))
    } else if id == 0xAE {
        Some(row(0xAE, "TrackEntry",
            "\\Segment\\Tracks\\TrackEntry", Some(0x1654AE6B),
            ElementType::Master, (1, None), (None, None, None),
            (1, NO_MAX_VER), (false, false, false, true)))
    } else if id == 0xAF {
        Some(row(0xAF, "EncryptedBlock",
            "\\Segment\\Cluster\\EncryptedBlock", Some(0x1F43B675),
            ElementType::Binary, (0, None), (None, None, None),
            (0, 0), (false, false, false, false)))
    } else if id == 0xB0 {
        Some(row(0xB0, "PixelWidth",
            "\\Segment\\Tracks\\TrackEntry\\Video\\PixelWidth", Some(0xE0),
            ElementType::Uinteger, (1, Some(1)), (Some("not 0"), None, None),
            (1, NO_MAX_VER), (false, false, false, true)))
    } else if id == 0xB2 {
        Some(row(0xB2, "CueDuration",
            "\\Segment\\Cues\\CuePoint\\CueTrackPositions\\CueDuration", Some(0xB7),
            ElementType::Uinteger, (0, Some(1)), (None, None, None),
            (4, NO_MAX_VER), (false, false, false, true)))
    } else if id == 0xB3 {
        Some(row(0xB3, "CueTime",
            "\\Segment\\Cues\\CuePoint\\CueTime", Some(0xBB),
            ElementType::Uinteger, (1, Some(1)), (None, None, None),
            (1, NO_MAX_VER), (false, false, false, true)))
    } else if id == 0xB5 {
        Some(row(0xB5, "SamplingFrequency",
            "\\Segment\\Tracks\\TrackEntry\\Audio\\SamplingFrequency", Some(0xE1),
            ElementType::Float, (1, Some(1)), (Some("> 0x0p+0"), None, Some("0x1.f4p+12")),
            (1, NO_MAX_VER), (false, false, false, true)))
    } else if id == 0xB6 {
        Some(row(0xB6, "ChapterAtom",
            "\\Segment\\Chapters\\EditionEntry\\+ChapterAtom", Some(0x45B9),
            ElementType::Master, (1, None), (None, None, None),
            (1, NO_MAX_VER), (true, false, false, true)))
    } else if id == 0xB7 {
        Some(row(0xB7, "CueTrackPositions",
            "\\Segment\\Cues\\CuePoint\\CueTrackPositions", Some(0xBB),
            ElementType::Master, (1, None), (None, None, None),
            (1, NO_MAX_VER), (false, false, false, true)))
    } else if id == 0xB9 {
        Some(row(0xB9, "FlagEnabled",
            "\\Segment\\Tracks\\TrackEntry\\FlagEnabled", Some(0xAE),
            ElementType::Uinteger, (1, Some(1)), (Some("0-1"), None, Some("1")),
            (2, NO_MAX_VER), (false, false, false, true)))
    } else if id == 0xBA {
        Some(row(0xBA, "PixelHeight",
            "\\Segment\\Tracks\\TrackEntry\\Video\\PixelHeight", Some(0xE0),
            ElementType::Uinteger, (1, Some(1)), (Some("not 0"), None, None),
            (1, NO_MAX_VER), (false, false, false, true)))
    } else if id == 0xBB {
        Some(row(0xBB, "CuePoint",
            "\\Segment\\Cues\\CuePoint", Some(0x1C53BB6B),
            ElementType::Master, (1, None), (None, None, None),
            (1, NO_MAX_VER), (false, false, false, true)))
    } else if id == 0xC0 {
        Some(row(0xC0, "TrickTrackUID",
            "\\Segment\\Tracks\\TrackEntry\\TrickTrackUID", Some(0xAE),
            ElementType::Uinteger, (0, Some(1)), (None, None, None),
            (0, 0), (false, false, false, false)))
    } else if id == 0xC1 {
        Some(row(0xC1, "TrickTrackSegmentUID",
            "\\Segment\\Tracks\\TrackEntry\\TrickTrackSegmentUID", Some(0xAE),
            ElementType::Binary, (0, Some(1)), (None, Some("16"), None),
            (0, 0), (false, false, false, false)))
    } else if id == 0xC4 {
        Some(row(0xC4, "TrickMasterTrackSegmentUID",
            "\\Segment\\Tracks\\TrackEntry\\TrickMasterTrackSegmentUID", Some(0xAE),
            ElementType::Binary, (0, Some(1)), (None, Some("16"), None),
            (0, 0), (false, false, false, false)))
    } else if id == 0xC6 {
        Some(row(0xC6, "TrickTrackFlag",
            "\\Segment\\Tracks\\TrackEntry\\TrickTrackFlag", Some(0xAE),
            ElementType::Uinteger, (0, Some(1)), (None, None, Some("0")),
            (0, 0), (false, false, false, false)))
    } else if id == 0xC7 {
        Some(row(0xC7, "TrickMasterTrackUID",
            "\\Segment\\Tracks\\TrackEntry\\TrickMasterTrackUID", Some(0xAE),
            ElementType::Uinteger, (0, Some(1)), (None, None, None),
            (0, 0), (false, false, false, false)))
    } else if id == 0xC8 {
        Some(row(0xC8, "ReferenceFrame",
            "\\Segment\\Cluster\\BlockGroup\\ReferenceFrame", Some(0xA0),
            ElementType::Master, (0, Some(1)), (None, None, None),
            (0, 0), (false, false, false, false)))
    } else if id == 0xC9 {
        Some(row(0xC9, "ReferenceOffset",
            "\\Segment\\Cluster\\BlockGroup\\ReferenceFrame\\ReferenceOffset", Some(0xC8),
            ElementType::Uinteger, (1, Some(1)), (None, None, None),
            (0, 0), (false, false, false, false)))
    } else if id == 0xCA {
        Some(row(0xCA, "ReferenceTimestamp",
            "\\Segment\\Cluster\\BlockGroup\\ReferenceFrame\\ReferenceTimestamp", Some(0xC8),
            ElementType::Uinteger, (1, Some(1)), (None, None, None),
            (0, 0), (false, false, false, false)))
    } else if id == 0xCB {
        Some(row(0xCB, "BlockAdditionID",
            "\\Segment\\Cluster\\BlockGroup\\Slices\\TimeSlice\\BlockAdditionID", Some(0xE8),
            ElementType::Uinteger, (0, Some(1)), (None, None, Some("0")),
            (0, 0), (false, false, false, false)))
    } else {
        None
    }
}

pub(crate) fn find_2(id: u32) -> (r: Option<ElementDef>)
    ensures
        r == rows_2(id),
{
    if id == 0xA6 {
        Some(def(0xA6, "BlockMore",
            "\\Segment\\Cluster\\BlockGroup\\BlockAdditions\\BlockMore", Some(0x75A1),
            ElementType::Master, (1, None), (None, None, None),
            (1, NO_MAX_VER), (false, false, false, true)))
    } else if id == 0xA7 {
        Some(def(0xA7, "Position",
            "\\Segment\\Cluster\\Position", Some(0x1F43B675),
            ElementType::Uinteger, (0, Some(1)), (None, None, None),
            (1, 4), (false, false, false, false)))
    } else if id == 0xAA {
        Some(def(0xAA, "CodecDecodeAll",
            "\\Segment\\Tracks\\TrackEntry\\CodecDecodeAll", Some(0xAE),
            ElementType::Uinteger, (1, Some(1)), (Some("0-1"), None, Some("1")),
            (1, 0), (false, false, false, false)))
    } else if id == 0xAB {
        Some(def(0xAB, "PrevSize",
            "\\Segment\\Cluster\\PrevSize", Some(0x1F43B675),
            ElementType::Uinteger, (0, Some(1)), (None, None, None),
            (1, NO_MAX_VER), (false, false, false, true)))
    } else if id == 0xAE {
        Some(def(0xAE, "TrackEntry",
            "\\Segment\\Tracks\\TrackEntry", Some(0x1654AE6B),
            ElementType::Master, (1, None), (None, None, None),
            (1, NO_MAX_VER), (false, false, false, true)))
    } else if id == 0xAF {
        Some(def(0xAF, "EncryptedBlock",
            "\\Segment\\Cluster\\EncryptedBlock", Some(0x1F43B675),
            ElementType::Binary, (0, None), (None, None, None),
            (0, 0), (false, false, false, false)))
    } else if id == 0xB0 {
        Some(def(0xB0, "PixelWidth",
            "\\Segment\\Tracks\\TrackEntry\\Video\\PixelWidth", Some(0xE0),
            ElementType::Uinteger, (1, Some(1)), (Some("not 0"), None, None),
            (1, NO_MAX_VER), (false, false, false, true)))
    } else if id == 0xB2 {
        Some(def(0xB2, "CueDuration",
            "\\Segment\\Cues\\CuePoint\\CueTrackPositions\\CueDuration", Some(0xB7),
            ElementType::Uinteger, (0, Some(1)), (None, None, None),
            (4, NO_MAX_VER), (false, false, false, true)))
    } else if id == 0xB3 {
        Some(def(0xB3, "CueTime",
            "\\Segment\\Cues\\CuePoint\\CueTime", Some(0xBB),
            ElementType::Uinteger, (1, Some(1)), (None, None, None),
            (1, NO_MAX_VER), (false, false, false, true)))
    } else if id == 0xB5 {
        Some(def(0xB5, "SamplingFrequency",
            "\\Segment\\Tracks\\TrackEntry\\Audio\\SamplingFrequency", Some(0xE1),
            ElementType::Float, (1, Some(1)), (Some("> 0x0p+0"), None, Some("0x1.f4p+12")),
            (1, NO_MAX_VER), (false, false, false, true)))
    } else if id == 0xB6 {
        Some(def(0xB6, "ChapterAtom",
            "\\Segment\\Chapters\\EditionEntry\\+ChapterAtom", Some(0x45B9),
            ElementType::Master, (1, None), (None, None, None),
            (1, NO_MAX_VER), (true, false, false, true)))
    } else if id == 0xB7 {
        Some(def(0xB7, "CueTrackPositions",
            "\\Segment\\Cues\\CuePoint\\CueTrackPositions", Some(0xBB),
            ElementType::Master, (1, None), (None, None, None),
            (1, NO_MAX_VER), (false, false, false, true)))
    } else if id == 0xB9 {
        Some(def(0xB9, "FlagEnabled",
            "\\Segment\\Tracks\\TrackEntry\\FlagEnabled", Some(0xAE),
            ElementType::Uinteger, (1, Some(1)), (Some("0-1"), None, Some("1")),
            (2, NO_MAX_VER), (false, false, false, true)))
    } else if id == 0xBA {
        Some(def(0xBA, "PixelHeight",
            "\\Segment\\Tracks\\TrackEntry\\Video\\PixelHeight", Some(0xE0),
            ElementType::Uinteger, (1, Some(1)), (Some("not 0"), None, None),
            (1, NO_MAX_VER), (false, false, false, true)))
    } else if id == 0xBB {
        Some(def(0xBB, "CuePoint",
            "\\Segment\\Cues\\CuePoint", Some(0x1C53BB6B),
            ElementType::Master, (1, None), (None, None, None),
            (1, NO_MAX_VER), (false, false, false, true)))
    } else if id == 0xC0 {
        Some(def(0xC0, "TrickTrackUID",
            "\\Segment\\Tracks\\TrackEntry\\TrickTrackUID", Some(0xAE),
            ElementType::Uinteger, (0, Some(1)), (None, None, None),
            (0, 0), (false, false, false, false)))
    } else if id == 0xC1 {
        Some(def(0xC1, "TrickTrackSegmentUID",
            "\\Segment\\Tracks\\TrackEntry\\TrickTrackSegmentUID", Some(0xAE),
            ElementType::Binary, (0, Some(1)), (None, Some("16"), None),
            (0, 0), (false, false, false, false)))
    } else if id == 0xC4 {
        Some(def(0xC4, "TrickMasterTrackSegmentUID",
            "\\Segment\\Tracks\\TrackEntry\\TrickMasterTrackSegmentUID", Some(0xAE),
            ElementType::Binary, (0, Some(1)), (None, Some("16"), None),
            (0, 0), (false, false, false, false)))
    } else if id == 0xC6 {
        Some(def(0xC6, "TrickTrackFlag",
            "\\Segment\\Tracks\\TrackEntry\\TrickTrackFlag", Some(0xAE),
            ElementType::Uinteger, (0, Some(1)), (None, None, Some("0")),
            (0, 0), (false, false, false, false)))
    } else if id == 0xC7 {
        Some(def(0xC7, "TrickMasterTrackUID",
            "\\Segment\\Tracks\\TrackEntry\\TrickMasterTrackUID", Some(0xAE),
            ElementType::Uinteger, (0, Some(1)), (None, None, None),
            (0, 0), (false, false, false, false)))
    } else if id == 0xC8 {
        Some(def(0xC8, "ReferenceFrame",
            "\\Segment\\Cluster\\BlockGroup\\ReferenceFrame", Some(0xA0),
            ElementType::Master, (0, Some(1)), (None, None, None),
            (0, 0), (false, false, false, false)))
    } else if id == 0xC9 {
        Some(def(0xC9, "ReferenceOffset",
            "\\Segment\\Cluster\\BlockGroup\\ReferenceFrame\\ReferenceOffset", Some(0xC8),
            ElementType::Uinteger, (1, Some(1)), (None, None, None),
            (0, 0), (false, false, false, false)))
    } else if id == 0xCA {
        Some(def(0xCA, "ReferenceTimestamp",
            "\\Segment\\Cluster\\BlockGroup\\ReferenceFrame\\ReferenceTimestamp", Some(0xC8),
            ElementType::Uinteger, (1, Some(1)), (None, None, None),
            (0, 0), (false, false, false, false)))
    } else if id == 0xCB {
        Some(def(0xCB, "BlockAdditionID",
            "\\Segment\\Cluster\\BlockGroup\\Slices\\TimeSlice\\BlockAdditionID", Some(0xE8),
            ElementType::Uinteger, (0, Some(1)), (None, None, Some("0")),
            (0, 0), (false, false, false, false)))
    } else {
        None
    }
}

/// The elements from `0xCC` to `0xFA`.
pub open spec fn rows_3(id: u32) -> Option<ElementDef> {
    if id == 0xCC {
        Some(row(0xCC, "LaceNumber",
            "\\Segment\\Cluster\\BlockGroup\\Slices\\TimeSlice\\LaceNumber", Some(0xE8),
            ElementType::Uinteger, (0, Some(1)), (None, None, None),
            (0, 0), (false, false, false, false)))
    } else if id == 0xCD {
        Some(row(0xCD, "FrameNumber",
            "\\Segment\\Cluster\\BlockGroup\\Slices\\TimeSlice\\FrameNumber", Some(0xE8),
            ElementType::Uinteger, (0, Some(1)), (None, None, Some("0")),
            (0, 0), (false, false, false, false)))
    } else if id == 0xCE {
        Some(row(0xCE, "Delay",
            "\\Segment\\Cluster\\BlockGroup\\Slices\\TimeSlice\\Delay", Some(0xE8),
            ElementType::Uinteger, (0, Some(1)), (None, None, Some("0")),
            (0, 0), (false, false, false, false)))
    } else if id == 0xCF {
        Some(row(0xCF, "SliceDuration",
            "\\Segment\\Cluster\\BlockGroup\\Slices\\TimeSlice\\SliceDuration", Some(0xE8),
            ElementType::Uinteger, (0, Some(1)), (None, None, Some("0")),
            (0, 0), (false, false, false, false)))
    } else if id == 0xD7 {
        Some(row(0xD7, "TrackNumber",
            "\\Segment\\Tracks\\TrackEntry\\TrackNumber", Some(0xAE),
            ElementType::Uinteger, (1, Some(1)), (Some("not 0"), None, None),
            (1, NO_MAX_VER), (false, false, false, true)))
    } else if id == 0xDB {
        Some(row(0xDB, "CueReference",
            "\\Segment\\Cues\\CuePoint\\CueTrackPositions\\CueReference", Some(0xB7),
            ElementType::Master, (0, None), (None, None, None),
            (2, NO_MAX_VER), (false, false, false, false)))
    } else if id == 0xE0 {
        Some(row(0xE0, "Video",
            "\\Segment\\Tracks\\TrackEntry\\Video", Some(0xAE),
            ElementType::Master, (0, Some(1)), (None, None, None),
            (1, NO_MAX_VER), (false, false, false, true)))
    } else if id == 0xE1 {
        Some(row(0xE1, "Audio",
            "\\Segment\\Tracks\\TrackEntry\\Audio", Some(0xAE),
            ElementType::Master, (0, Some(1)), (None, None, None),
            (1, NO_MAX_VER), (false, false, false, true)))
    } else if id == 0xE2 {
        Some(row(0xE2, "TrackOperation",
            "\\Segment\\Tracks\\TrackEntry\\TrackOperation", Some(0xAE),
            ElementType::Master, (0, Some(1)), (None, None, None),
            (3, NO_MAX_VER), (false, false, false, false)))
    } else if id == 0xE3 {
        Some(row(0xE3, "TrackCombinePlanes",
            "\\Segment\\Tracks\\TrackEntry\\TrackOperation\\TrackCombinePlanes", Some(0xE2),
            ElementType::Master, (0, Some(1)), (None, None, None),
            (3, NO_MAX_VER), (false, false, false, false)))
    } else if id == 0xE4 {
        Some(row(0xE4, "TrackPlane",
            "\\Segment\\Tracks\\TrackEntry\\TrackOperation\\TrackCombinePlanes\\TrackPlane", Some(0xE3),
            ElementType::Master, (1, None), (None, None, None),
            (3, NO_MAX_VER), (false, false, false, false)))
    } else if id == 0xE5 {
        Some(row(0xE5, "TrackPlaneUID",
            "\\Segment\\Tracks\\TrackEntry\\TrackOperation\\TrackCombinePlanes\\TrackPlane\\TrackPlaneUID", Some(0xE4),
            ElementType::Uinteger, (1, Some(1)), (Some("not 0"), None, None),
            (3, NO_MAX_VER), (false, false, false, false)))
    } else if id == 0xE6 {
        Some(row(0xE6, "TrackPlaneType",
            "\\Segment\\Tracks\\TrackEntry\\TrackOperation\\TrackCombinePlanes\\TrackPlane\\TrackPlaneType", Some(0xE4),
            ElementType::Uinteger, (1, Some(1)), (None, None, None),
            (3, NO_MAX_VER), (false, false, false, false)))
    } else if id == 0xE7 {
        Some(row(0xE7, "Timestamp",
            "\\Segment\\Cluster\\Timestamp", Some(0x1F43B675),
            ElementType::Uinteger, (1, Some(1)), (None, None, None),
            (1, NO_MAX_VER), (false, false, false, true)))
    } else if id == 0xE8 {
        Some(row(0xE8, "TimeSlice",
            "\\Segment\\Cluster\\BlockGroup\\Slices\\TimeSlice", Some(0x8E),
            ElementType::Master, (0, None), (None, None, None),
            (0, 0), (false, false, false, false)))
    } else if id == 0xE9 {
        Some(row(0xE9, "TrackJoinBlocks",
            "\\Segment\\Tracks\\TrackEntry\\TrackOperation\\TrackJoinBlocks", Some(0xE2),
            ElementType::Master, (0, Some(1)), (None, None, None),
            (3, NO_MAX_VER), (false, false, false, false)))
    } else if id == 0xEA {
        Some(row(0xEA, "CueCodecState",
            "\\Segment\\Cues\\CuePoint\\CueTrackPositions\\CueCodecState", Some(0xB7),
            ElementType::Uinteger, (1, Some(1)), (None, None, Some("0")),
            (2, NO_MAX_VER), (false, false, false, false)))
    } else if id == 0xEB {
        Some(row(0xEB, "CueRefCodecState",
            "\\Segment\\Cues\\CuePoint\\CueTrackPositions\\CueReference\\CueRefCodecState", Some(0xDB),
            ElementType::Uinteger, (0, Some(1)), (None, None, Some("0")),
            (0, 0), (false, false, false, false)))
    } else if id == 0xED {
        Some(row(0xED, "TrackJoinUID",
            "\\Segment\\Tracks\\TrackEntry\\TrackOperation\\TrackJoinBlocks\\TrackJoinUID", Some(0xE9),
            ElementType::Uinteger, (1, None), (Some("not 0"), None, None),
            (3, NO_MAX_VER), (false, false, false, false)))
    } else if id == 0xEE {
        Some(row(0xEE, "BlockAddID",
            "\\Segment\\Cluster\\BlockGroup\\BlockAdditions\\BlockMore\\BlockAddID", Some(0xA6),
            ElementType::Uinteger, (1, Some(1)), (Some("not 0"), None, Some("1")),
            (1, NO_MAX_VER), (false, false, false, true)))
    } else if id == 0xF0 {
        Some(row(0xF0, "CueRelativePosition",
            "\\Segment\\Cues\\CuePoint\\CueTrackPositions\\CueRelativePosition", Some(0xB7),
            ElementType::Uinteger, (0, Some(1)), (None, None, None),
            (4, NO_MAX_VER), (false, false, false, true)))
    } else if id == 0xF1 {
        Some(row(0xF1, "CueClusterPosition",
            "\\Segment\\Cues\\CuePoint\\CueTrackPositions\\CueClusterPosition", Some(0xB7),
            ElementType::Uinteger, (1, Some(1)), (None, None, None),
            (1, NO_MAX_VER), (false, false, false, true)))
    } else if id == 0xF7 {
        Some(row(0xF7, "CueTrack",
            "\\Segment\\Cues\\CuePoint\\CueTrackPositions\\CueTrack", Some(0xB7),
            ElementType::Uinteger, (1, Some(1)), (Some("not 0"), None, None),
            (1, NO_MAX_VER), (false, false, false, true)))
    } else if id == 0xFA {
        Some(row(0xFA, "ReferencePriority",
            "\\Segment\\Cluster\\BlockGroup\\ReferencePriority", Some(0xA0),
            ElementType::Uinteger, (1, Some(1)), (None, None, Some("0")),
            (1, NO_MAX_VER), (false, false, false, false)))
    } else {
        None
    }
}

pub(crate) fn find_3(id: u32) -> (r: Option<ElementDef>)
    ensures
        r == rows_3(id),
{
    if id == 0xCC {
        Some(def(0xCC, "LaceNumber",
            "\\Segment\\Cluster\\BlockGroup\\Slices\\TimeSlice\\LaceNumber", Some(0xE8),
            ElementType::Uinteger, (0, Some(1)), (None, None, None),
            (0, 0), (false, false, false, false)))
    } else if id == 0xCD {
        Some(def(0xCD, "FrameNumber",
            "\\Segment\\Cluster\\BlockGroup\\Slices\\TimeSlice\\FrameNumber", Some(0xE8),
            ElementType::Uinteger, (0, Some(1)), (None, None, Some("0")),
            (0, 0), (false, false, false, false)))
    } else if id == 0xCE {
        Some(def(0xCE, "Delay",
            "\\Segment\\Cluster\\BlockGroup\\Slices\\TimeSlice\\Delay", Some(0xE8),
            ElementType::Uinteger, (0, Some(1)), (None, None, Some("0")),
            (0, 0), (false, false, false, false)))
    } else if id == 0xCF {
        Some(def(0xCF, "SliceDuration",
            "\\Segment\\Cluster\\BlockGroup\\Slices\\TimeSlice\\SliceDuration", Some(0xE8),
            ElementType::Uinteger, (0, Some(1)), (None, None, Some("0")),
            (0, 0), (false, false, false, false)))
    } else if id == 0xD7 {
        Some(def(0xD7, "TrackNumber",
            "\\Segment\\Tracks\\TrackEntry\\TrackNumber", Some(0xAE),
            ElementType::Uinteger, (1, Some(1)), (Some("not 0"), None, None),
            (1, NO_MAX_VER), (false, false, false, true)))
    } else if id == 0xDB {
        Some(def(0xDB, "CueReference",
            "\\Segment\\Cues\\CuePoint\\CueTrackPositions\\CueReference", Some(0xB7),
            ElementType::Master, (0, None), (None, None, None),
            (2, NO_MAX_VER), (false, false, false, false)))
    } else if id == 0xE0 {
        Some(def(0xE0, "Video",
            "\\Segment\\Tracks\\TrackEntry\\Video", Some(0xAE),
            ElementType::Master, (0, Some(1)), (None, None, None),
            (1, NO_MAX_VER), (false, false, false, true)))
    } else if id == 0xE1 {
        Some(def(0xE1, "Audio",
            "\\Segment\\Tracks\\TrackEntry\\Audio", Some(0xAE),
            ElementType::Master, (0, Some(1)), (None, None, None),
            (1, NO_MAX_VER), (false, false, false, true)))
    } else if id == 0xE2 {
        Some(def(0xE2, "TrackOperation",
            "\\Segment\\Tracks\\TrackEntry\\TrackOperation", Some(0xAE),
            ElementType::Master, (0, Some(1)), (None, None, None),
            (3, NO_MAX_VER), (false, false, false, false)))
    } else if id == 0xE3 {
        Some(def(0xE3, "TrackCombinePlanes",
            "\\Segment\\Tracks\\TrackEntry\\TrackOperation\\TrackCombinePlanes", Some(0xE2),
            ElementType::Master, (0, Some(1)), (None, None, None),
            (3, NO_MAX_VER), (false, false, false, false)))
    } else if id == 0xE4 {
        Some(def(0xE4, "TrackPlane",
            "\\Segment\\Tracks\\TrackEntry\\TrackOperation\\TrackCombinePlanes\\TrackPlane", Some(0xE3),
            ElementType::Master, (1, None), (None, None, None),
            (3, NO_MAX_VER), (false, false, false, false)))
    } else if id == 0xE5 {
        Some(def(0xE5, "TrackPlaneUID",
            "\\Segment\\Tracks\\TrackEntry\\TrackOperation\\TrackCombinePlanes\\TrackPlane\\TrackPlaneUID", Some(0xE4),
            ElementType::Uinteger, (1, Some(1)), (Some("not 0"), None, None),
            (3, NO_MAX_VER), (false, false, false, false)))
    } else if id == 0xE6 {
        Some(def(0xE6, "TrackPlaneType",
            "\\Segment\\Tracks\\TrackEntry\\TrackOperation\\TrackCombinePlanes\\TrackPlane\\TrackPlaneType", Some(0xE4),
            ElementType::Uinteger, (1, Some(1)), (None, None, None),
            (3, NO_MAX_VER), (false, false, false, false)))
    } else if id == 0xE7 {
        Some(def(0xE7, "Timestamp",
            "\\Segment\\Cluster\\Timestamp", Some(0x1F43B675),
            ElementType::Uinteger, (1, Some(1)), (None, None, None),
            (1, NO_MAX_VER), (false, false, false, true)))
    } else if id == 0xE8 {
        Some(def(0xE8, "TimeSlice",
            "\\Segment\\Cluster\\BlockGroup\\Slices\\TimeSlice", Some(0x8E),
            ElementType::Master, (0, None), (None, None, None),
            (0, 0), (false, false, false, false)))
    } else if id == 0xE9 {
        Some(def(0xE9, "TrackJoinBlocks",
            "\\Segment\\Tracks\\TrackEntry\\TrackOperation\\TrackJoinBlocks", Some(0xE2),
            ElementType::Master, (0, Some(1)), (None, None, None),
            (3, NO_MAX_VER), (false, false, false, false)))
    } else if id == 0xEA {
        Some(def(0xEA, "CueCodecState",
            "\\Segment\\Cues\\CuePoint\\CueTrackPositions\\CueCodecState", Some(0xB7),
            ElementType::Uinteger, (1, Some(1)), (None, None, Some("0")),
            (2, NO_MAX_VER), (false, false, false, false)))
    } else if id == 0xEB {
        Some(def(0xEB, "CueRefCodecState",
            "\\Segment\\Cues\\CuePoint\\CueTrackPositions\\CueReference\\CueRefCodecState", Some(0xDB),
            ElementType::Uinteger, (0, Some(1)), (None, None, Some("0")),
            (0, 0), (false, false, false, false)))
    } else if id == 0xED {
        Some(def(0xED, "TrackJoinUID",
            "\\Segment\\Tracks\\TrackEntry\\TrackOperation\\TrackJoinBlocks\\TrackJoinUID", Some(0xE9),
            ElementType::Uinteger, (1, None), (Some("not 0"), None, None),
            (3, NO_MAX_VER), (false, false, false, false)))
    } else if id == 0xEE {
        Some(def(0xEE, "BlockAddID",
            "\\Segment\\Cluster\\BlockGroup\\BlockAdditions\\BlockMore\\BlockAddID", Some(0xA6),
            ElementType::Uinteger, (1, Some(1)), (Some("not 0"), None, Some("1")),
            (1, NO_MAX_VER), (false, false, false, true)))
    } else if id == 0xF0 {
        Some(def(0xF0, "CueRelativePosition",
            "\\Segment\\Cues\\CuePoint\\CueTrackPositions\\CueRelativePosition", Some(0xB7),
            ElementType::Uinteger, (0, Some(1)), (None, None, None),
            (4, NO_MAX_VER), (false, false, false, true)))
    } else if id == 0xF1 {
        Some(def(0xF1, "CueClusterPosition",
            "\\Segment\\Cues\\CuePoint\\CueTrackPositions\\CueClusterPosition", Some(0xB7),
            ElementType::Uinteger, (1, Some(1)), (None, None, None),
            (1, NO_MAX_VER), (false, false, false, true)))
    } else if id == 0xF7 {
        Some(def(0xF7, "CueTrack",
            "\\Segment\\Cues\\CuePoint\\CueTrackPositions\\CueTrack", Some(0xB7),
            ElementType::Uinteger, (1, Some(1)), (Some("not 0"), None, None),
            (1, NO_MAX_VER), (false, false, false, true)))
    } else if id == 0xFA {
        Some(def(0xFA, "ReferencePriority",
            "\\Segment\\Cluster\\BlockGroup\\ReferencePriority", Some(0xA0),
            ElementType::Uinteger, (1, Some(1)), (None, None, Some("0")),
            (1, NO_MAX_VER), (false, false, false, false)))
    } else {
        None
    }
}

/// The elements from `0xFB` to `0x450D`.
pub open spec fn rows_4(id: u32) -> Option<ElementDef> {
    if id == 0xFB {
        Some(row(0xFB, "ReferenceBlock",
            "\\Segment\\Cluster\\BlockGroup\\ReferenceBlock", Some(0xA0),
            ElementType::Integer, (0, None), (None, None, None),
            (1, NO_MAX_VER), (false, false, false, true)))
    } else if id == 0xFD {
        Some(row(0xFD, "ReferenceVirtual",
            "\\Segment\\Cluster\\BlockGroup\\ReferenceVirtual", Some(0xA0),
            ElementType::Integer, (0, Some(1)), (None, None, None),
            (0, 0), (false, false, false, false)))
    } else if id == 0x41A4 {
        Some(row(0x41A4, "BlockAddIDName",
            "\\Segment\\Tracks\\TrackEntry\\BlockAdditionMapping\\BlockAddIDName", Some(0x41E4),
            ElementType::AsciiString, (0, Some(1)), (None, None, None),
            (4, NO_MAX_VER), (false, false, false, false)))
    } else if id == 0x41E4 {
        Some(row(0x41E4, "BlockAdditionMapping",
            "\\Segment\\Tracks\\TrackEntry\\BlockAdditionMapping", Some(0xAE),
            ElementType::Master, (0, None), (None, None, None),
            (4, NO_MAX_VER), (false, false, false, false)))
    } else if id == 0x41E7 {
        Some(row(0x41E7, "BlockAddIDType",
            "\\Segment\\Tracks\\TrackEntry\\BlockAdditionMapping\\BlockAddIDType", Some(0x41E4),
            ElementType::Uinteger, (1, Some(1)), (None, None, Some("0")),
            (4, NO_MAX_VER), (false, false, false, false)))
    } else if id == 0x41ED {
        Some(row(0x41ED, "BlockAddIDExtraData",
            "\\Segment\\Tracks\\TrackEntry\\BlockAdditionMapping\\BlockAddIDExtraData", Some(0x41E4),
            ElementType::Binary, (0, Some(1)), (None, None, None),
            (4, NO_MAX_VER), (false, false, false, false)))
    } else if id == 0x41F0 {
        Some(row(0x41F0, "BlockAddIDValue",
            "\\Segment\\Tracks\\TrackEntry\\BlockAdditionMapping\\BlockAddIDValue", Some(0x41E4),
            ElementType::Uinteger, (0, Some(1)), (Some(">=2"), None, None),
            (4, NO_MAX_VER), (false, false, false, false)))
    } else if id == 0x4254 {
        Some(row(0x4254, "ContentCompAlgo",
            "\\Segment\\Tracks\\TrackEntry\\ContentEncodings\\ContentEncoding\\ContentCompression\\ContentCompAlgo", Some(0x5034),
            ElementType::Uinteger, (1, Some(1)), (None, None, Some("0")),
            (1, NO_MAX_VER), (false, false, false, false)))
    } else if id == 0x4255 {
        Some(row(0x4255, "ContentCompSettings",
            "\\Segment\\Tracks\\TrackEntry\\ContentEncodings\\ContentEncoding\\ContentCompression\\ContentCompSettings", Some(0x5034),
            ElementType::Binary, (0, Some(1)), (None, None, None),
            (1, NO_MAX_VER), (false, false, false, false)))
    } else if id == 0x42F2 {
        Some(row(0x42F2, "EBMLMaxIDLength",
            "\\EBML\\EBMLMaxIDLength", Some(0x1A45DFA3),
            ElementType::Uinteger, (1, Some(1)), (Some("4"), None, Some("4")),
            (1, NO_MAX_VER), (false, false, false, false)))
    } else if id == 0x42F3 {
        Some(row(0x42F3, "EBMLMaxSizeLength",
            "\\EBML\\EBMLMaxSizeLength", Some(0x1A45DFA3),
            ElementType::Uinteger, (1, Some(1)), (Some("1-8"), None, Some("8")),
            (1, NO_MAX_VER), (false, false, false, false)))
    } else if id == 0x437C {
        Some(row(0x437C, "ChapLanguage",
            "\\Segment\\Chapters\\EditionEntry\\+ChapterAtom\\ChapterDisplay\\ChapLanguage", Some(0x80),
            ElementType::AsciiString, (1, None), (None, None, Some("eng")),
            (1, NO_MAX_VER), (false, false, false, true)))
    } else if id == 0x437D {
        Some(row(0x437D, "ChapLanguageBCP47",
            "\\Segment\\Chapters\\EditionEntry\\+ChapterAtom\\ChapterDisplay\\ChapLanguageBCP47", Some(0x80),
            ElementType::AsciiString, (0, None), (None, None, None),
            (4, NO_MAX_VER), (false, false, false, false)))
    } else if id == 0x437E {
        Some(row(0x437E, "ChapCountry",
            "\\Segment\\Chapters\\EditionEntry\\+ChapterAtom\\ChapterDisplay\\ChapCountry", Some(0x80),
            ElementType::AsciiString, (0, None), (None, None, None),
            (1, NO_MAX_VER), (false, false, false, true)))
    } else if id == 0x4444 {
        Some(row(0x4444, "SegmentFamily",
            "\\Segment\\Info\\SegmentFamily", Some(0x1549A966),
            ElementType::Binary, (0, None), (None, Some("16"), None),
            (1, NO_MAX_VER), (false, false, false, false)))
    } else if id == 0x4461 {
        Some(row(0x4461, "DateUTC",
            "\\Segment\\Info\\DateUTC", Some(0x1549A966),
            ElementType::Date, (0, Some(1)), (None, None, None),
            (1, NO_MAX_VER), (false, false, false, true)))
    } else if id == 0x447A {
        Some(row(0x447A, "TagLanguage",
            "\\Segment\\Tags\\Tag\\+SimpleTag\\TagLanguage", Some(0x67C8),
            ElementType::AsciiString, (1, Some(1)), (None, None, Some("und")),
            (1, NO_MAX_VER), (false, false, false, true)))
    } else if id == 0x447B {
        Some(row(0x447B, "TagLanguageBCP47",
            "\\Segment\\Tags\\Tag\\+SimpleTag\\TagLanguageBCP47", Some(0x67C8),
            ElementType::AsciiString, (0, Some(1)), (None, None, None),
            (4, NO_MAX_VER), (false, false, false, false)))
    } else if id == 0x4484 {
        Some(row(0x4484, "TagDefault",
            "\\Segment\\Tags\\Tag\\+SimpleTag\\TagDefault", Some(0x67C8),
            ElementType::Uinteger, (1, Some(1)), (Some("0-1"), None, Some("1")),
            (1, NO_MAX_VER), (false, false, false, true)))
    } else if id == 0x4485 {
        Some(row(0x4485, "TagBinary",
            "\\Segment\\Tags\\Tag\\+SimpleTag\\TagBinary", Some(0x67C8),
            ElementType::Binary, (0, Some(1)), (None, None, None),
            (1, NO_MAX_VER), (false, false, false, true)))
    } else if id == 0x4487 {
        Some(row(0x4487, "TagString",
            "\\Segment\\Tags\\Tag\\+SimpleTag\\TagString", Some(0x67C8),
            ElementType::Utf8, (0, Some(1)), (None, None, None),
            (1, NO_MAX_VER), (false, false, false, true)))
    } else if id == 0x4489 {
        Some(row(0x4489, "Duration",
            "\\Segment\\Info\\Duration", Some(0x1549A966),
            ElementType::Float, (0, Some(1)), (Some("> 0x0p+0"), None, None),
            (1, NO_MAX_VER), (false, false, false, true)))
    } else if id == 0x44B4 {
        Some(row(0x44B4, "TagDefaultBogus",
            "\\Segment\\Tags\\Tag\\+SimpleTag\\TagDefaultBogus", Some(0x67C8),
            ElementType::Uinteger, (1, Some(1)), (Some("0-1"), None, Some("1")),
            (0, 0), (false, false, false, false)))
    } else if id == 0x450D {
        Some(row(0x450D, "ChapProcessPrivate",
            "\\Segment\\Chapters\\EditionEntry\\+ChapterAtom\\ChapProcess\\ChapProcessPrivate", Some(0x6944),
            ElementType::Binary, (0, Some(1)), (None, None, None),
            (1, NO_MAX_VER), (false, false, false, false)))
    } else {
        None
    }
}

pub(crate) fn find_4(id: u32) -> (r: Option<ElementDef>)
    ensures
        r == rows_4(id),
{
    if id == 0xFB {
        Some(def(0xFB, "ReferenceBlock",
            "\\Segment\\Cluster\\BlockGroup\\ReferenceBlock", Some(0xA0),
            ElementType::Integer, (0, None), (None, None, None),
            (1, NO_MAX_VER), (false, false, false, true)))
    } else if id == 0xFD {
        Some(def(0xFD, "ReferenceVirtual",
            "\\Segment\\Cluster\\BlockGroup\\ReferenceVirtual", Some(0xA0),
            ElementType::Integer, (0, Some(1)), (None, None, None),
            (0, 0), (false, false, false, false)))
    } else if id == 0x41A4 {
        Some(def(0x41A4, "BlockAddIDName",
            "\\Segment\\Tracks\\TrackEntry\\BlockAdditionMapping\\BlockAddIDName", Some(0x41E4),
            ElementType::AsciiString, (0, Some(1)), (None, None, None),
            (4, NO_MAX_VER), (false, false, false, false)))
    } else if id == 0x41E4 {
        Some(def(0x41E4, "BlockAdditionMapping",
            "\\Segment\\Tracks\\TrackEntry\\BlockAdditionMapping", Some(0xAE),
            ElementType::Master, (0, None), (None, None, None),
            (4, NO_MAX_VER), (false, false, false, false)))
    } else if id == 0x41E7 {
        Some(def(0x41E7, "BlockAddIDType",
            "\\Segment\\Tracks\\TrackEntry\\BlockAdditionMapping\\BlockAddIDType", Some(0x41E4),
            ElementType::Uinteger, (1, Some(1)), (None, None, Some("0")),
            (4, NO_MAX_VER), (false, false, false, false)))
    } else if id == 0x41ED {
        Some(def(0x41ED, "BlockAddIDExtraData",
            "\\Segment\\Tracks\\TrackEntry\\BlockAdditionMapping\\BlockAddIDExtraData", Some(0x41E4),
            ElementType::Binary, (0, Some(1)), (None, None, None),
            (4, NO_MAX_VER), (false, false, false, false)))
    } else if id == 0x41F0 {
        Some(def(0x41F0, "BlockAddIDValue",
            "\\Segment\\Tracks\\TrackEntry\\BlockAdditionMapping\\BlockAddIDValue", Some(0x41E4),
            ElementType::Uinteger, (0, Some(1)), (Some(">=2"), None, None),
            (4, NO_MAX_VER), (false, false, false, false)))
    } else if id == 0x4254 {
        Some(def(0x4254, "ContentCompAlgo",
            "\\Segment\\Tracks\\TrackEntry\\ContentEncodings\\ContentEncoding\\ContentCompression\\ContentCompAlgo", Some(0x5034),
            ElementType::Uinteger, (1, Some(1)), (None, None, Some("0")),
            (1, NO_MAX_VER), (false, false, false, false)))
    } else if id == 0x4255 {
        Some(def(0x4255, "ContentCompSettings",
            "\\Segment\\Tracks\\TrackEntry\\ContentEncodings\\ContentEncoding\\ContentCompression\\ContentCompSettings", Some(0x5034),
            ElementType::Binary, (0, Some(1)), (None, None, None),
            (1, NO_MAX_VER), (false, false, false, false)))
    } else if id == 0x42F2 {
        Some(def(0x42F2, "EBMLMaxIDLength",
            "\\EBML\\EBMLMaxIDLength", Some(0x1A45DFA3),
            ElementType::Uinteger, (1, Some(1)), (Some("4"), None, Some("4")),
            (1, NO_MAX_VER), (false, false, false, false)))
    } else if id == 0x42F3 {
        Some(def(0x42F3, "EBMLMaxSizeLength",
            "\\EBML\\EBMLMaxSizeLength", Some(0x1A45DFA3),
            ElementType::Uinteger, (1, Some(1)), (Some("1-8"), None, Some("8")),
            (1, NO_MAX_VER), (false, false, false, false)))
    } else if id == 0x437C {
        Some(def(0x437C, "ChapLanguage",
            "\\Segment\\Chapters\\EditionEntry\\+ChapterAtom\\ChapterDisplay\\ChapLanguage", Some(0x80),
            ElementType::AsciiString, (1, None), (None, None, Some("eng")),
            (1, NO_MAX_VER), (false, false, false, true)))
    } else if id == 0x437D {
        Some(def(0x437D, "ChapLanguageBCP47",
            "\\Segment\\Chapters\\EditionEntry\\+ChapterAtom\\ChapterDisplay\\ChapLanguageBCP47", Some(0x80),
            ElementType::AsciiString, (0, None), (None, None, None),
            (4, NO_MAX_VER), (false, false, false, false)))
    } else if id == 0x437E {
        Some(def(0x437E, "ChapCountry",
            "\\Segment\\Chapters\\EditionEntry\\+ChapterAtom\\ChapterDisplay\\ChapCountry", Some(0x80),
            ElementType::AsciiString, (0, None), (None, None, None),
            (1, NO_MAX_VER), (false, false, false, true)))
    } else if id == 0x4444 {
        Some(def(0x4444, "SegmentFamily",
            "\\Segment\\Info\\SegmentFamily", Some(0x1549A966),
            ElementType::Binary, (0, None), (None, Some("16"), None),
            (1, NO_MAX_VER), (false, false, false, false)))
    } else if id == 0x4461 {
        Some(def(0x4461, "DateUTC",
            "\\Segment\\Info\\DateUTC", Some(0x1549A966),
            ElementType::Date, (0, Some(1)), (None, None, None),
            (1, NO_MAX_VER), (false, false, false, true)))
    } else if id == 0x447A {
        Some(def(0x447A, "TagLanguage",
            "\\Segment\\Tags\\Tag\\+SimpleTag\\TagLanguage", Some(0x67C8),
            ElementType::AsciiString, (1, Some(1)), (None, None, Some("und")),
            (1, NO_MAX_VER), (false, false, false, true)))
    } else if id == 0x447B {
        Some(def(0x447B, "TagLanguageBCP47",
            "\\Segment\\Tags\\Tag\\+SimpleTag\\TagLanguageBCP47", Some(0x67C8),
            ElementType::AsciiString, (0, Some(1)), (None, None, None),
            (4, NO_MAX_VER), (false, false, false, false)))
    } else if id == 0x4484 {
        Some(def(0x4484, "TagDefault",
            "\\Segment\\Tags\\Tag\\+SimpleTag\\TagDefault", Some(0x67C8),
            ElementType::Uinteger, (1, Some(1)), (Some("0-1"), None, Some("1")),
            (1, NO_MAX_VER), (false, false, false, true)))
    } else if id == 0x4485 {
        Some(def(0x4485, "TagBinary",
            "\\Segment\\Tags\\Tag\\+SimpleTag\\TagBinary", Some(0x67C8),
            ElementType::Binary, (0, Some(1)), (None, None, None),
            (1, NO_MAX_VER), (false, false, false, true)))
    } else if id == 0x4487 {
        Some(def(0x4487, "TagString",
            "\\Segment\\Tags\\Tag\\+SimpleTag\\TagString", Some(0x67C8),
            ElementType::Utf8, (0, Some(1)), (None, None, None),
            (1, NO_MAX_VER), (false, false, false, true)))
    } else if id == 0x4489 {
        Some(def(0x4489, "Duration",
            "\\Segment\\Info\\Duration", Some(0x1549A966),
            ElementType::Float, (0, Some(1)), (Some("> 0x0p+0"), None, None),
            (1, NO_MAX_VER), (false, false, false, true)))
    } else if id == 0x44B4 {
        Some(def(0x44B4, "TagDefaultBogus",
            "\\Segment\\Tags\\Tag\\+SimpleTag\\TagDefaultBogus", Some(0x67C8),
            ElementType::Uinteger, (1, Some(1)), (Some("0-1"), None, Some("1")),
            (0, 0), (false, false, false, false)))
    } else if id == 0x450D {
        Some(def(0x450D, "ChapProcessPrivate",
            "\\Segment\\Chapters\\EditionEntry\\+ChapterAtom\\ChapProcess\\ChapProcessPrivate", Some(0x6944),
            ElementType::Binary, (0, Some(1)), (None, None, None),
            (1, NO_MAX_VER), (false, false, false, false)))
    } else {
        None
    }
}

/// The elements from `0x4520` to `0x47E5`.
pub open spec fn rows_5(id: u32) -> Option<ElementDef> {
    if id == 0x4520 {
        Some(row(0x4520, "EditionDisplay",
            "\\Segment\\Chapters\\EditionEntry\\EditionDisplay", Some(0x45B9),
            ElementType::Master, (0, None), (None, None, None),
            (5, NO_MAX_VER), (false, false, false, false)))
    } else if id == 0x4521 {
        Some(row(0x4521, "EditionString",
            "\\Segment\\Chapters\\EditionEntry\\EditionDisplay\\EditionString", Some(0x4520),
            ElementType::Utf8, (1, Some(1)), (None, None, None),
            (5, NO_MAX_VER), (false, false, false, false)))
    } else if id == 0x4588 {
        Some(row(0x4588, "ChapterSkipType",
            "\\Segment\\Chapters\\EditionEntry\\+ChapterAtom\\ChapterSkipType", Some(0xB6),
            ElementType::Uinteger, (0, Some(1)), (None, None, None),
            (5, NO_MAX_VER), (false, false, false, false)))
    } else if id == 0x4598 {
        Some(row(0x4598, "ChapterFlagEnabled",
            "\\Segment\\Chapters\\EditionEntry\\+ChapterAtom\\ChapterFlagEnabled", Some(0xB6),
            ElementType::Uinteger, (1, Some(1)), (Some("0-1"), None, Some("1")),
            (1, NO_MAX_VER), (false, false, false, false)))
    } else if id == 0x45A3 {
        Some(row(0x45A3, "TagName",
            "\\Segment\\Tags\\Tag\\+SimpleTag\\TagName", Some(0x67C8),
            ElementType::Utf8, (1, Some(1)), (None, None, None),
            (1, NO_MAX_VER), (false, false, false, true)))
    } else if id == 0x45B9 {
        Some(row(0x45B9, "EditionEntry",
            "\\Segment\\Chapters\\EditionEntry", Some(0x1043A770),
            ElementType::Master, (1, None), (None, None, None),
            (1, NO_MAX_VER), (false, false, false, true)))
    } else if id == 0x45BC {
        Some(row(0x45BC, "EditionUID",
            "\\Segment\\Chapters\\EditionEntry\\EditionUID", Some(0x45B9),
            ElementType::Uinteger, (0, Some(1)), (Some("not 0"), None, None),
            (1, NO_MAX_VER), (false, false, false, false)))
    } else if id == 0x45BD {
        Some(row(0x45BD, "EditionFlagHidden",
            "\\Segment\\Chapters\\EditionEntry\\EditionFlagHidden", Some(0x45B9),
            ElementType::Uinteger, (1, Some(1)), (Some("0-1"), None, Some("0")),
            (1, NO_MAX_VER), (false, false, false, false)))
    } else if id == 0x45DB {
        Some(row(0x45DB, "EditionFlagDefault",
            "\\Segment\\Chapters\\EditionEntry\\EditionFlagDefault", Some(0x45B9),
            ElementType::Uinteger, (1, Some(1)), (Some("0-1"), None, Some("0")),
            (1, NO_MAX_VER), (false, false, false, false)))
    } else if id == 0x45DD {
        Some(row(0x45DD, "EditionFlagOrdered",
            "\\Segment\\Chapters\\EditionEntry\\EditionFlagOrdered", Some(0x45B9),
            ElementType::Uinteger, (1, Some(1)), (Some("0-1"), None, Some("0")),
            (1, NO_MAX_VER), (false, false, false, false)))
    } else if id == 0x45E4 {
        Some(row(0x45E4, "EditionLanguageIETF",
            "\\Segment\\Chapters\\EditionEntry\\EditionDisplay\\EditionLanguageIETF", Some(0x4520),
            ElementType::AsciiString, (0, None), (None, None, None),
            (5, NO_MAX_VER), (false, false, false, false)))
    } else if id == 0x465C {
        Some(row(0x465C, "FileData",
            "\\Segment\\Attachments\\AttachedFile\\FileData", Some(0x61A7),
            ElementType::Binary, (1, Some(1)), (None, None, None),
            (1, NO_MAX_VER), (false, false, false, false)))
    } else if id == 0x4660 {
        Some(row(0x4660, "FileMediaType",
            "\\Segment\\Attachments\\AttachedFile\\FileMediaType", Some(0x61A7),
            ElementType::AsciiString, (1, Some(1)), (None, None, None),
            (1, NO_MAX_VER), (false, false, false, false)))
    } else if id == 0x4661 {
        Some(row(0x4661, "FileUsedStartTime",
            "\\Segment\\Attachments\\AttachedFile\\FileUsedStartTime", Some(0x61A7),
            ElementType::Uinteger, (0, Some(1)), (None, None, None),
            (0, 0), (false, false, false, false)))
    } else if id == 0x4662 {
        Some(row(0x4662, "FileUsedEndTime",
            "\\Segment\\Attachments\\AttachedFile\\FileUsedEndTime", Some(0x61A7),
            ElementType::Uinteger, (0, Some(1)), (None, None, None),
            (0, 0), (false, false, false, false)))
    } else if id == 0x466E {
        Some(row(0x466E, "FileName",
            "\\Segment\\Attachments\\AttachedFile\\FileName", Some(0x61A7),
            ElementType::Utf8, (1, Some(1)), (None, None, None),
            (1, NO_MAX_VER), (false, false, false, false)))
    } else if id == 0x4675 {
        Some(row(0x4675, "FileReferral",
            "\\Segment\\Attachments\\AttachedFile\\FileReferral", Some(0x61A7),
            ElementType::Binary, (0, Some(1)), (None, None, None),
            (0, 0), (false, false, false, false)))
    } else if id == 0x467E {
        Some(row(0x467E, "FileDescription",
            "\\Segment\\Attachments\\AttachedFile\\FileDescription", Some(0x61A7),
            ElementType::Utf8, (0, Some(1)), (None, None, None),
            (1, NO_MAX_VER), (false, false, false, false)))
    } else if id == 0x46AE {
        Some(row(0x46AE, "FileUID",
            "\\Segment\\Attachments\\AttachedFile\\FileUID", Some(0x61A7),
            ElementType::Uinteger, (1, Some(1)), (Some("not 0"), None, None),
            (1, NO_MAX_VER), (false, false, false, false)))
    } else if id == 0x47E1 {
        Some(row(0x47E1, "ContentEncAlgo",
            "\\Segment\\Tracks\\TrackEntry\\ContentEncodings\\ContentEncoding\\ContentEncryption\\ContentEncAlgo", Some(0x5035),
            ElementType::Uinteger, (1, Some(1)), (None, None, Some("0")),
            (1, NO_MAX_VER), (false, false, false, true)))
    } else if id == 0x47E2 {
        Some(row(0x47E2, "ContentEncKeyID",
            "\\Segment\\Tracks\\TrackEntry\\ContentEncodings\\ContentEncoding\\ContentEncryption\\ContentEncKeyID", Some(0x5035),
            ElementType::Binary, (0, Some(1)), (None, None, None),
            (1, NO_MAX_VER), (false, false, false, true)))
    } else if id == 0x47E3 {
        Some(row(0x47E3, "ContentSignature",
            "\\Segment\\Tracks\\TrackEntry\\ContentEncodings\\ContentEncoding\\ContentEncryption\\ContentSignature", Some(0x5035),
            ElementType::Binary, (0, Some(1)), (None, None, None),
            (1, 0), (false, false, false, false)))
    } else if id == 0x47E4 {
        Some(row(0x47E4, "ContentSigKeyID",
            "\\Segment\\Tracks\\TrackEntry\\ContentEncodings\\ContentEncoding\\ContentEncryption\\ContentSigKeyID", Some(0x5035),
            ElementType::Binary, (0, Some(1)), (None, None, None),
            (1, 0), (false, false, false, false)))
    } else if id == 0x47E5 {
        Some(row(0x47E5, "ContentSigAlgo",
            "\\Segment\\Tracks\\TrackEntry\\ContentEncodings\\ContentEncoding\\ContentEncryption\\ContentSigAlgo", Some(0x5035),
            ElementType::Uinteger, (0, Some(1)), (None, None, Some("0")),
            (1, 0), (false, false, false, false)))
    } else {
        None
    }
}

pub(crate) fn find_5(id: u32) -> (r: Option<ElementDef>)
    ensures
        r == rows_5(id),
{
    if id == 0x4520 {
        Some(def(0x4520, "EditionDisplay",
            "\\Segment\\Chapters\\EditionEntry\\EditionDisplay", Some(0x45B9),
            ElementType::Master, (0, None), (None, None, None),
            (5, NO_MAX_VER), (false, false, false, false)))
    } else if id == 0x4521 {
        Some(def(0x4521, "EditionString",
            "\\Segment\\Chapters\\EditionEntry\\EditionDisplay\\EditionString", Some(0x4520),
            ElementType::Utf8, (1, Some(1)), (None, None, None),
            (5, NO_MAX_VER), (false, false, false, false)))
    } else if id == 0x4588 {
        Some(def(0x4588, "ChapterSkipType",
            "\\Segment\\Chapters\\EditionEntry\\+ChapterAtom\\ChapterSkipType", Some(0xB6),
            ElementType::Uinteger, (0, Some(1)), (None, None, None),
            (5, NO_MAX_VER), (false, false, false, false)))
    } else if id == 0x4598 {
        Some(def(0x4598, "ChapterFlagEnabled",
            "\\Segment\\Chapters\\EditionEntry\\+ChapterAtom\\ChapterFlagEnabled", Some(0xB6),
            ElementType::Uinteger, (1, Some(1)), (Some("0-1"), None, Some("1")),
            (1, NO_MAX_VER), (false, false, false, false)))
    } else if id == 0x45A3 {
        Some(def(0x45A3, "TagName",
            "\\Segment\\Tags\\Tag\\+SimpleTag\\TagName", Some(0x67C8),
            ElementType::Utf8, (1, Some(1)), (None, None, None),
            (1, NO_MAX_VER), (false, false, false, true)))
    } else if id == 0x45B9 {
        Some(def(0x45B9, "EditionEntry",
            "\\Segment\\Chapters\\EditionEntry", Some(0x1043A770),
            ElementType::Master, (1, None), (None, None, None),
            (1, NO_MAX_VER), (false, false, false, true)))
    } else if id == 0x45BC {
        Some(def(0x45BC, "EditionUID",
            "\\Segment\\Chapters\\EditionEntry\\EditionUID", Some(0x45B9),
            ElementType::Uinteger, (0, Some(1)), (Some("not 0"), None, None),
            (1, NO_MAX_VER), (false, false, false, false)))
    } else if id == 0x45BD {
        Some(def(0x45BD, "EditionFlagHidden",
            "\\Segment\\Chapters\\EditionEntry\\EditionFlagHidden", Some(0x45B9),
            ElementType::Uinteger, (1, Some(1)), (Some("0-1"), None, Some("0")),
            (1, NO_MAX_VER), (false, false, false, false)))
    } else if id == 0x45DB {
        Some(def(0x45DB, "EditionFlagDefault",
            "\\Segment\\Chapters\\EditionEntry\\EditionFlagDefault", Some(0x45B9),
            ElementType::Uinteger, (1, Some(1)), (Some("0-1"), None, Some("0")),
            (1, NO_MAX_VER), (false, false, false, false)))
    } else if id == 0x45DD {
        Some(def(0x45DD, "EditionFlagOrdered",
            "\\Segment\\Chapters\\EditionEntry\\EditionFlagOrdered", Some(0x45B9),
            ElementType::Uinteger, (1, Some(1)), (Some("0-1"), None, Some("0")),
            (1, NO_MAX_VER), (false, false, false, false)))
    } else if id == 0x45E4 {
        Some(def(0x45E4, "EditionLanguageIETF",
            "\\Segment\\Chapters\\EditionEntry\\EditionDisplay\\EditionLanguageIETF", Some(0x4520),
            ElementType::AsciiString, (0, None), (None, None, None),
            (5, NO_MAX_VER), (false, false, false, false)))
    } else if id == 0x465C {
        Some(def(0x465C, "FileData",
            "\\Segment\\Attachments\\AttachedFile\\FileData", Some(0x61A7),
            ElementType::Binary, (1, Some(1)), (None, None, None),
            (1, NO_MAX_VER), (false, false, false, false)))
    } else if id == 0x4660 {
        Some(def(0x4660, "FileMediaType",
            "\\Segment\\Attachments\\AttachedFile\\FileMediaType", Some(0x61A7),
            ElementType::AsciiString, (1, Some(1)), (None, None, None),
            (1, NO_MAX_VER), (false, false, false, false)))
    } else if id == 0x4661 {
        Some(def(0x4661, "FileUsedStartTime",
            "\\Segment\\Attachments\\AttachedFile\\FileUsedStartTime", Some(0x61A7),
            ElementType::Uinteger, (0, Some(1)), (None, None, None),
            (0, 0), (false, false, false, false)))
    } else if id == 0x4662 {
        Some(def(0x4662, "FileUsedEndTime",
            "\\Segment\\Attachments\\AttachedFile\\FileUsedEndTime", Some(0x61A7),
            ElementType::Uinteger, (0, Some(1)), (None, None, None),
            (0, 0), (false, false, false, false)))
    } else if id == 0x466E {
        Some(def(0x466E, "FileName",
            "\\Segment\\Attachments\\AttachedFile\\FileName", Some(0x61A7),
            ElementType::Utf8, (1, Some(1)), (None, None, None),
            (1, NO_MAX_VER), (false, false, false, false)))
    } else if id == 0x4675 {
        Some(def(0x4675, "FileReferral",
            "\\Segment\\Attachments\\AttachedFile\\FileReferral", Some(0x61A7),
            ElementType::Binary, (0, Some(1)), (None, None, None),
            (0, 0), (false, false, false, false)))
    } else if id == 0x467E {
        Some(def(0x467E, "FileDescription",
            "\\Segment\\Attachments\\AttachedFile\\FileDescription", Some(0x61A7),
            ElementType::Utf8, (0, Some(1)), (None, None, None),
            (1, NO_MAX_VER), (false, false, false, false)))
    } else if id == 0x46AE {
        Some(def(0x46AE, "FileUID",
            "\\Segment\\Attachments\\AttachedFile\\FileUID", Some(0x61A7),
            ElementType::Uinteger, (1, Some(1)), (Some("not 0"), None, None),
            (1, NO_MAX_VER), (false, false, false, false)))
    } else if id == 0x47E1 {
        Some(def(0x47E1, "ContentEncAlgo",
            "\\Segment\\Tracks\\TrackEntry\\ContentEncodings\\ContentEncoding\\ContentEncryption\\ContentEncAlgo", Some(0x5035),
            ElementType::Uinteger, (1, Some(1)), (None, None, Some("0")),
            (1, NO_MAX_VER), (false, false, false, true)))
    } else if id == 0x47E2 {
        Some(def(0x47E2, "ContentEncKeyID",
            "\\Segment\\Tracks\\TrackEntry\\ContentEncodings\\ContentEncoding\\ContentEncryption\\ContentEncKeyID", Some(0x5035),
            ElementType::Binary, (0, Some(1)), (None, None, None),
            (1, NO_MAX_VER), (false, false, false, true)))
    } else if id == 0x47E3 {
        Some(def(0x47E3, "ContentSignature",
            "\\Segment\\Tracks\\TrackEntry\\ContentEncodings\\ContentEncoding\\ContentEncryption\\ContentSignature", Some(0x5035),
            ElementType::Binary, (0, Some(1)), (None, None, None),
            (1, 0), (false, false, false, false)))
    } else if id == 0x47E4 {
        Some(def(0x47E4, "ContentSigKeyID",
            "\\Segment\\Tracks\\TrackEntry\\ContentEncodings\\ContentEncoding\\ContentEncryption\\ContentSigKeyID", Some(0x5035),
            ElementType::Binary, (0, Some(1)), (None, None, None),
            (1, 0), (false, false, false, false)))
    } else if id == 0x47E5 {
        Some(def(0x47E5, "ContentSigAlgo",
            "\\Segment\\Tracks\\TrackEntry\\ContentEncodings\\ContentEncoding\\ContentEncryption\\ContentSigAlgo", Some(0x5035),
            ElementType::Uinteger, (0, Some(1)), (None, None, Some("0")),
            (1, 0), (false, false, false, false)))
    } else {
        None
    }
}

/// The elements from `0x47E6` to `0x54B3`.
pub open spec fn rows_6(id: u32) -> Option<ElementDef> {
    if id == 0x47E6 {
        Some(row(0x47E6, "ContentSigHashAlgo",
            "\\Segment\\Tracks\\TrackEntry\\ContentEncodings\\ContentEncoding\\ContentEncryption\\ContentSigHashAlgo", Some(0x5035),
            ElementType::Uinteger, (0, Some(1)), (None, None, Some("0")),
            (1, 0), (false, false, false, false)))
    } else if id == 0x47E7 {
        Some(row(0x47E7, "ContentEncAESSettings",
            "\\Segment\\Tracks\\TrackEntry\\ContentEncodings\\ContentEncoding\\ContentEncryption\\ContentEncAESSettings", Some(0x5035),
            ElementType::Master, (0, Some(1)), (None, None, None),
            (4, NO_MAX_VER), (false, false, false, true)))
    } else if id == 0x47E8 {
        Some(row(0x47E8, "AESSettingsCipherMode",
            "\\Segment\\Tracks\\TrackEntry\\ContentEncodings\\ContentEncoding\\ContentEncryption\\ContentEncAESSettings\\AESSettingsCipherMode", Some(0x47E7),
            ElementType::Uinteger, (1, Some(1)), (Some("not 0"), None, None),
            (4, NO_MAX_VER), (false, false, false, true)))
    } else if id == 0x4D80 {
        Some(row(0x4D80, "MuxingApp",
            "\\Segment\\Info\\MuxingApp", Some(0x1549A966),
            ElementType::Utf8, (1, Some(1)), (None, None, None),
            (1, NO_MAX_VER), (false, false, false, true)))
    } else if id == 0x4DBB {
        Some(row(0x4DBB, "Seek",
            "\\Segment\\SeekHead\\Seek", Some(0x114D9B74),
            ElementType::Master, (1, None), (None, None, None),
            (1, NO_MAX_VER), (false, false, false, true)))
    } else if id == 0x5031 {
        Some(row(0x5031, "ContentEncodingOrder",
            "\\Segment\\Tracks\\TrackEntry\\ContentEncodings\\ContentEncoding\\ContentEncodingOrder", Some(0x6240),
            ElementType::Uinteger, (1, Some(1)), (None, None, Some("0")),
            (1, NO_MAX_VER), (false, false, false, true)))
    } else if id == 0x5032 {
        Some(row(0x5032, "ContentEncodingScope",
            "\\Segment\\Tracks\\TrackEntry\\ContentEncodings\\ContentEncoding\\ContentEncodingScope", Some(0x6240),
            ElementType::Uinteger, (1, Some(1)), (Some("not 0"), None, Some("1")),
            (1, NO_MAX_VER), (false, false, false, true)))
    } else if id == 0x5033 {
        Some(row(0x5033, "ContentEncodingType",
            "\\Segment\\Tracks\\TrackEntry\\ContentEncodings\\ContentEncoding\\ContentEncodingType", Some(0x6240),
            ElementType::Uinteger, (1, Some(1)), (None, None, Some("0")),
            (1, NO_MAX_VER), (false, false, false, true)))
    } else if id == 0x5034 {
        Some(row(0x5034, "ContentCompression",
            "\\Segment\\Tracks\\TrackEntry\\ContentEncodings\\ContentEncoding\\ContentCompression", Some(0x6240),
            ElementType::Master, (0, Some(1)), (None, None, None),
            (1, NO_MAX_VER), (false, false, false, false)))
    } else if id == 0x5035 {
        Some(row(0x5035, "ContentEncryption",
            "\\Segment\\Tracks\\TrackEntry\\ContentEncodings\\ContentEncoding\\ContentEncryption", Some(0x6240),
            ElementType::Master, (0, Some(1)), (None, None, None),
            (1, NO_MAX_VER), (false, false, false, true)))
    } else if id == 0x52F1 {
        Some(row(0x52F1, "Emphasis",
            "\\Segment\\Tracks\\TrackEntry\\Audio\\Emphasis", Some(0xE1),
            ElementType::Uinteger, (1, Some(1)), (None, None, Some("0")),
            (5, NO_MAX_VER), (false, false, false, false)))
    } else if id == 0x535F {
        Some(row(0x535F, "CueRefNumber",
            "\\Segment\\Cues\\CuePoint\\CueTrackPositions\\CueReference\\CueRefNumber", Some(0xDB),
            ElementType::Uinteger, (0, Some(1)), (Some("not 0"), None, Some("1")),
            (0, 0), (false, false, false, false)))
    } else if id == 0x536E {
        Some(row(0x536E, "Name",
            "\\Segment\\Tracks\\TrackEntry\\Name", Some(0xAE),
            ElementType::Utf8, (0, Some(1)), (None, None, None),
            (1, NO_MAX_VER), (false, false, false, true)))
    } else if id == 0x5378 {
        Some(row(0x5378, "CueBlockNumber",
            "\\Segment\\Cues\\CuePoint\\CueTrackPositions\\CueBlockNumber", Some(0xB7),
            ElementType::Uinteger, (0, Some(1)), (Some("not 0"), None, None),
            (1, NO_MAX_VER), (false, false, false, true)))
    } else if id == 0x537F {
        Some(row(0x537F, "TrackOffset",
            "\\Segment\\Tracks\\TrackEntry\\TrackOffset", Some(0xAE),
            ElementType::Integer, (0, Some(1)), (None, None, Some("0")),
            (0, 0), (false, false, false, false)))
    } else if id == 0x53AB {
        Some(row(0x53AB, "SeekID",
            "\\Segment\\SeekHead\\Seek\\SeekID", Some(0x4DBB),
            ElementType::Binary, (1, Some(1)), (None, Some("4"), None),
            (1, NO_MAX_VER), (false, false, false, true)))
    } else if id == 0x53AC {
        Some(row(0x53AC, "SeekPosition",
            "\\Segment\\SeekHead\\Seek\\SeekPosition", Some(0x4DBB),
            ElementType::Uinteger, (1, Some(1)), (None, None, None),
            (1, NO_MAX_VER), (false, false, false, true)))
    } else if id == 0x53B8 {
        Some(row(0x53B8, "StereoMode",
            "\\Segment\\Tracks\\TrackEntry\\Video\\StereoMode", Some(0xE0),
            ElementType::Uinteger, (1, Some(1)), (None, None, Some("0")),
            (3, NO_MAX_VER), (false, false, false, true)))
    } else if id == 0x53B9 {
        Some(row(0x53B9, "OldStereoMode",
            "\\Segment\\Tracks\\TrackEntry\\Video\\OldStereoMode", Some(0xE0),
            ElementType::Uinteger, (0, Some(1)), (None, None, None),
            (1, 2), (false, false, false, false)))
    } else if id == 0x53C0 {
        Some(row(0x53C0, "AlphaMode",
            "\\Segment\\Tracks\\TrackEntry\\Video\\AlphaMode", Some(0xE0),
            ElementType::Uinteger, (1, Some(1)), (None, None, Some("0")),
            (3, NO_MAX_VER), (false, false, false, true)))
    } else if id == 0x54AA {
        Some(row(0x54AA, "PixelCropBottom",
            "\\Segment\\Tracks\\TrackEntry\\Video\\PixelCropBottom", Some(0xE0),
            ElementType::Uinteger, (1, Some(1)), (None, None, Some("0")),
            (1, NO_MAX_VER), (false, false, false, true)))
    } else if id == 0x54B0 {
        Some(row(0x54B0, "DisplayWidth",
            "\\Segment\\Tracks\\TrackEntry\\Video\\DisplayWidth", Some(0xE0),
            ElementType::Uinteger, (0, Some(1)), (Some("not 0"), None, None),
            (1, NO_MAX_VER), (false, false, false, true)))
    } else if id == 0x54B2 {
        Some(row(0x54B2, "DisplayUnit",
            "\\Segment\\Tracks\\TrackEntry\\Video\\DisplayUnit", Some(0xE0),
            ElementType::Uinteger, (1, Some(1)), (None, None, Some("0")),
            (1, NO_MAX_VER), (false, false, false, true)))
    } else if id == 0x54B3 {
        Some(row(0x54B3, "AspectRatioType",
            "\\Segment\\Tracks\\TrackEntry\\Video\\AspectRatioType", Some(0xE0),
            ElementType::Uinteger, (0, Some(1)), (None, None, Some("0")),
            (0, 0), (false, false, false, false)))
    } else {
        None
    }
}

pub(crate) fn find_6(id: u32) -> (r: Option<ElementDef>)
    ensures
        r == rows_6(id),
{
    if id == 0x47E6 {
        Some(def(0x47E6, "ContentSigHashAlgo",
            "\\Segment\\Tracks\\TrackEntry\\ContentEncodings\\ContentEncoding\\ContentEncryption\\ContentSigHashAlgo", Some(0x5035),
            ElementType::Uinteger, (0, Some(1)), (None, None, Some("0")),
            (1, 0), (false, false, false, false)))
    } else if id == 0x47E7 {
        Some(def(0x47E7, "ContentEncAESSettings",
            "\\Segment\\Tracks\\TrackEntry\\ContentEncodings\\ContentEncoding\\ContentEncryption\\ContentEncAESSettings", Some(0x5035),
            ElementType::Master, (0, Some(1)), (None, None, None),
            (4, NO_MAX_VER), (false, false, false, true)))
    } else if id == 0x47E8 {
        Some(def(0x47E8, "AESSettingsCipherMode",
            "\\Segment\\Tracks\\TrackEntry\\ContentEncodings\\ContentEncoding\\ContentEncryption\\ContentEncAESSettings\\AESSettingsCipherMode", Some(0x47E7),
            ElementType::Uinteger, (1, Some(1)), (Some("not 0"), None, None),
            (4, NO_MAX_VER), (false, false, false, true)))
    } else if id == 0x4D80 {
        Some(def(0x4D80, "MuxingApp",
            "\\Segment\\Info\\MuxingApp", Some(0x1549A966),
            ElementType::Utf8, (1, Some(1)), (None, None, None),
            (1, NO_MAX_VER), (false, false, false, true)))
    } else if id == 0x4DBB {
        Some(def(0x4DBB, "Seek",
            "\\Segment\\SeekHead\\Seek", Some(0x114D9B74),
            ElementType::Master, (1, None), (None, None, None),
            (1, NO_MAX_VER), (false, false, false, true)))
    } else if id == 0x5031 {
        Some(def(0x5031, "ContentEncodingOrder",
            "\\Segment\\Tracks\\TrackEntry\\ContentEncodings\\ContentEncoding\\ContentEncodingOrder", Some(0x6240),
            ElementType::Uinteger, (1, Some(1)), (None, None, Some("0")),
            (1, NO_MAX_VER), (false, false, false, true)))
    } else if id == 0x5032 {
        Some(def(0x5032, "ContentEncodingScope",
            "\\Segment\\Tracks\\TrackEntry\\ContentEncodings\\ContentEncoding\\ContentEncodingScope", Some(0x6240),
            ElementType::Uinteger, (1, Some(1)), (Some("not 0"), None, Some("1")),
            (1, NO_MAX_VER), (false, false, false, true)))
    } else if id == 0x5033 {
        Some(def(0x5033, "ContentEncodingType",
            "\\Segment\\Tracks\\TrackEntry\\ContentEncodings\\ContentEncoding\\ContentEncodingType", Some(0x6240),
            ElementType::Uinteger, (1, Some(1)), (None, None, Some("0")),
            (1, NO_MAX_VER), (false, false, false, true)))
    } else if id == 0x5034 {
        Some(def(0x5034, "ContentCompression",
            "\\Segment\\Tracks\\TrackEntry\\ContentEncodings\\ContentEncoding\\ContentCompression", Some(0x6240),
            ElementType::Master, (0, Some(1)), (None, None, None),
            (1, NO_MAX_VER), (false, false, false, false)))
    } else if id == 0x5035 {
        Some(def(0x5035, "ContentEncryption",
            "\\Segment\\Tracks\\TrackEntry\\ContentEncodings\\ContentEncoding\\ContentEncryption", Some(0x6240),
            ElementType::Master, (0, Some(1)), (None, None, None),
            (1, NO_MAX_VER), (false, false, false, true)))
    } else if id == 0x52F1 {
        Some(def(0x52F1, "Emphasis",
            "\\Segment\\Tracks\\TrackEntry\\Audio\\Emphasis", Some(0xE1),
            ElementType::Uinteger, (1, Some(1)), (None, None, Some("0")),
            (5, NO_MAX_VER), (false, false, false, false)))
    } else if id == 0x535F {
        Some(def(0x535F, "CueRefNumber",
            "\\Segment\\Cues\\CuePoint\\CueTrackPositions\\CueReference\\CueRefNumber", Some(0xDB),
            ElementType::Uinteger, (0, Some(1)), (Some("not 0"), None, Some("1")),
            (0, 0), (false, false, false, false)))
    } else if id == 0x536E {
        Some(def(0x536E, "Name",
            "\\Segment\\Tracks\\TrackEntry\\Name", Some(0xAE),
            ElementType::Utf8, (0, Some(1)), (None, None, None),
            (1, NO_MAX_VER), (false, false, false, true)))
    } else if id == 0x5378 {
        Some(def(0x5378, "CueBlockNumber",
            "\\Segment\\Cues\\CuePoint\\CueTrackPositions\\CueBlockNumber", Some(0xB7),
            ElementType::Uinteger, (0, Some(1)), (Some("not 0"), None, None),
            (1, NO_MAX_VER), (false, false, false, true)))
    } else if id == 0x537F {
        Some(def(0x537F, "TrackOffset",
            "\\Segment\\Tracks\\TrackEntry\\TrackOffset", Some(0xAE),
            ElementType::Integer, (0, Some(1)), (None, None, Some("0")),
            (0, 0), (false, false, false, false)))
    } else if id == 0x53AB {
        Some(def(0x53AB, "SeekID",
            "\\Segment\\SeekHead\\Seek\\SeekID", Some(0x4DBB),
            ElementType::Binary, (1, Some(1)), (None, Some("4"), None),
            (1, NO_MAX_VER), (false, false, false, true)))
    } else if id == 0x53AC {
        Some(def(0x53AC, "SeekPosition",
            "\\Segment\\SeekHead\\Seek\\SeekPosition", Some(0x4DBB),
            ElementType::Uinteger, (1, Some(1)), (None, None, None),
            (1, NO_MAX_VER), (false, false, false, true)))
    } else if id == 0x53B8 {
        Some(def(0x53B8, "StereoMode",
            "\\Segment\\Tracks\\TrackEntry\\Video\\StereoMode", Some(0xE0),
            ElementType::Uinteger, (1, Some(1)), (None, None, Some("0")),
            (3, NO_MAX_VER), (false, false, false, true)))
    } else if id == 0x53B9 {
        Some(def(0x53B9, "OldStereoMode",
            "\\Segment\\Tracks\\TrackEntry\\Video\\OldStereoMode", Some(0xE0),
            ElementType::Uinteger, (0, Some(1)), (None, None, None),
            (1, 2), (false, false, false, false)))
    } else if id == 0x53C0 {
        Some(def(0x53C0, "AlphaMode",
            "\\Segment\\Tracks\\TrackEntry\\Video\\AlphaMode", Some(0xE0),
            ElementType::Uinteger, (1, Some(1)), (None, None, Some("0")),
            (3, NO_MAX_VER), (false, false, false, true)))
    } else if id == 0x54AA {
        Some(def(0x54AA, "PixelCropBottom",
            "\\Segment\\Tracks\\TrackEntry\\Video\\PixelCropBottom", Some(0xE0),
            ElementType::Uinteger, (1, Some(1)), (None, None, Some("0")),
            (1, NO_MAX_VER), (false, false, false, true)))
    } else if id == 0x54B0 {
        Some(def(0x54B0, "DisplayWidth",
            "\\Segment\\Tracks\\TrackEntry\\Video\\DisplayWidth", Some(0xE0),
            ElementType::Uinteger, (0, Some(1)), (Some("not 0"), None, None),
            (1, NO_MAX_VER), (false, false, false, true)))
    } else if id == 0x54B2 {
        Some(def(0x54B2, "DisplayUnit",
            "\\Segment\\Tracks\\TrackEntry\\Video\\DisplayUnit", Some(0xE0),
            ElementType::Uinteger, (1, Some(1)), (None, None, Some("0")),
            (1, NO_MAX_VER), (false, false, false, true)))
    } else if id == 0x54B3 {
        Some(def(0x54B3, "AspectRatioType",
            "\\Segment\\Tracks\\TrackEntry\\Video\\AspectRatioType", Some(0xE0),
            ElementType::Uinteger, (0, Some(1)), (None, None, Some("0")),
            (0, 0), (false, false, false, false)))
    } else {
        None
    }
}

/// The elements from `0x54BA` to `0x55BD`.
pub open spec fn rows_7(id: u32) -> Option<ElementDef> {
    if id == 0x54BA {
        Some(row(0x54BA, "DisplayHeight",
            "\\Segment\\Tracks\\TrackEntry\\Video\\DisplayHeight", Some(0xE0),
            ElementType::Uinteger, (0, Some(1)), (Some("not 0"), None, None),
            (1, NO_MAX_VER), (false, false, false, true)))
    } else if id == 0x54BB {
        Some(row(0x54BB, "PixelCropTop",
            "\\Segment\\Tracks\\TrackEntry\\Video\\PixelCropTop", Some(0xE0),
            ElementType::Uinteger, (1, Some(1)), (None, None, Some("0")),
            (1, NO_MAX_VER), (false, false, false, true)))
    } else if id == 0x54CC {
        Some(row(0x54CC, "PixelCropLeft",
            "\\Segment\\Tracks\\TrackEntry\\Video\\PixelCropLeft", Some(0xE0),
            ElementType::Uinteger, (1, Some(1)), (None, None, Some("0")),
            (1, NO_MAX_VER), (false, false, false, true)))
    } else if id == 0x54DD {
        Some(row(0x54DD, "PixelCropRight",
            "\\Segment\\Tracks\\TrackEntry\\Video\\PixelCropRight", Some(0xE0),
            ElementType::Uinteger, (1, Some(1)), (None, None, Some("0")),
            (1, NO_MAX_VER), (false, false, false, true)))
    } else if id == 0x55AA {
        Some(row(0x55AA, "FlagForced",
            "\\Segment\\Tracks\\TrackEntry\\FlagForced", Some(0xAE),
            ElementType::Uinteger, (1, Some(1)), (Some("0-1"), None, Some("0")),
            (1, NO_MAX_VER), (false, false, false, true)))
    } else if id == 0x55AB {
        Some(row(0x55AB, "FlagHearingImpaired",
            "\\Segment\\Tracks\\TrackEntry\\FlagHearingImpaired", Some(0xAE),
            ElementType::Uinteger, (0, Some(1)), (Some("0-1"), None, None),
            (4, NO_MAX_VER), (false, false, false, false)))
    } else if id == 0x55AC {
        Some(row(0x55AC, "FlagVisualImpaired",
            "\\Segment\\Tracks\\TrackEntry\\FlagVisualImpaired", Some(0xAE),
            ElementType::Uinteger, (0, Some(1)), (Some("0-1"), None, None),
            (4, NO_MAX_VER), (false, false, false, false)))
    } else if id == 0x55AD {
        Some(row(0x55AD, "FlagTextDescriptions",
            "\\Segment\\Tracks\\TrackEntry\\FlagTextDescriptions", Some(0xAE),
            ElementType::Uinteger, (0, Some(1)), (Some("0-1"), None, None),
            (4, NO_MAX_VER), (false, false, false, false)))
    } else if id == 0x55AE {
        Some(row(0x55AE, "FlagOriginal",
            "\\Segment\\Tracks\\TrackEntry\\FlagOriginal", Some(0xAE),
            ElementType::Uinteger, (0, Some(1)), (Some("0-1"), None, None),
            (4, NO_MAX_VER), (false, false, false, false)))
    } else if id == 0x55AF {
        Some(row(0x55AF, "FlagCommentary",
            "\\Segment\\Tracks\\TrackEntry\\FlagCommentary", Some(0xAE),
            ElementType::Uinteger, (0, Some(1)), (Some("0-1"), None, None),
            (4, NO_MAX_VER), (false, false, false, false)))
    } else if id == 0x55B0 {
        Some(row(0x55B0, "Colour",
            "\\Segment\\Tracks\\TrackEntry\\Video\\Colour", Some(0xE0),
            ElementType::Master, (0, Some(1)), (None, None, None),
            (4, NO_MAX_VER), (false, false, false, true)))
    } else if id == 0x55B1 {
        Some(row(0x55B1, "MatrixCoefficients",
            "\\Segment\\Tracks\\TrackEntry\\Video\\Colour\\MatrixCoefficients", Some(0x55B0),
            ElementType::Uinteger, (1, Some(1)), (None, None, Some("2")),
            (4, NO_MAX_VER), (false, false, false, true)))
    } else if id == 0x55B2 {
        Some(row(0x55B2, "BitsPerChannel",
            "\\Segment\\Tracks\\TrackEntry\\Video\\Colour\\BitsPerChannel", Some(0x55B0),
            ElementType::Uinteger, (1, Some(1)), (None, None, Some("0")),
            (4, NO_MAX_VER), (false, false, false, true)))
    } else if id == 0x55B3 {
        Some(row(0x55B3, "ChromaSubsamplingHorz",
            "\\Segment\\Tracks\\TrackEntry\\Video\\Colour\\ChromaSubsamplingHorz", Some(0x55B0),
            ElementType::Uinteger, (0, Some(1)), (None, None, None),
            (4, NO_MAX_VER), (false, false, false, true)))
    } else if id == 0x55B4 {
        Some(row(0x55B4, "ChromaSubsamplingVert",
            "\\Segment\\Tracks\\TrackEntry\\Video\\Colour\\ChromaSubsamplingVert", Some(0x55B0),
            ElementType::Uinteger, (0, Some(1)), (None, None, None),
            (4, NO_MAX_VER), (false, false, false, true)))
    } else if id == 0x55B5 {
        Some(row(0x55B5, "CbSubsamplingHorz",
            "\\Segment\\Tracks\\TrackEntry\\Video\\Colour\\CbSubsamplingHorz", Some(0x55B0),
            ElementType::Uinteger, (0, Some(1)), (None, None, None),
            (4, NO_MAX_VER), (false, false, false, true)))
    } else if id == 0x55B6 {
        Some(row(0x55B6, "CbSubsamplingVert",
            "\\Segment\\Tracks\\TrackEntry\\Video\\Colour\\CbSubsamplingVert", Some(0x55B0),
            ElementType::Uinteger, (0, Some(1)), (None, None, None),
            (4, NO_MAX_VER), (false, false, false, true)))
    } else if id == 0x55B7 {
        Some(row(0x55B7, "ChromaSitingHorz",
            "\\Segment\\Tracks\\TrackEntry\\Video\\Colour\\ChromaSitingHorz", Some(0x55B0),
            ElementType::Uinteger, (1, Some(1)), (None, None, Some("0")),
            (4, NO_MAX_VER), (false, false, false, true)))
    } else if id == 0x55B8 {
        Some(row(0x55B8, "ChromaSitingVert",
            "\\Segment\\Tracks\\TrackEntry\\Video\\Colour\\ChromaSitingVert", Some(0x55B0),
            ElementType::Uinteger, (1, Some(1)), (None, None, Some("0")),
            (4, NO_MAX_VER), (false, false, false, true)))
    } else if id == 0x55B9 {
        Some(row(0x55B9, "Range",
            "\\Segment\\Tracks\\TrackEntry\\Video\\Colour\\Range", Some(0x55B0),
            ElementType::Uinteger, (1, Some(1)), (None, None, Some("0")),
            (4, NO_MAX_VER), (false, false, false, true)))
    } else if id == 0x55BA {
        Some(row(0x55BA, "TransferCharacteristics",
            "\\Segment\\Tracks\\TrackEntry\\Video\\Colour\\TransferCharacteristics", Some(0x55B0),
            ElementType::Uinteger, (1, Some(1)), (None, None, Some("2")),
            (4, NO_MAX_VER), (false, false, false, true)))
    } else if id == 0x55BB {
        Some(row(0x55BB, "Primaries",
            "\\Segment\\Tracks\\TrackEntry\\Video\\Colour\\Primaries", Some(0x55B0),
            ElementType::Uinteger, (1, Some(1)), (None, None, Some("2")),
            (4, NO_MAX_VER), (false, false, false, true)))
    } else if id == 0x55BC {
        Some(row(0x55BC, "MaxCLL",
            "\\Segment\\Tracks\\TrackEntry\\Video\\Colour\\MaxCLL", Some(0x55B0),
            ElementType::Uinteger, (0, Some(1)), (None, None, None),
            (4, NO_MAX_VER), (false, false, false, true)))
    } else if id == 0x55BD {
        Some(row(0x55BD, "MaxFALL",
            "\\Segment\\Tracks\\TrackEntry\\Video\\Colour\\MaxFALL", Some(0x55B0),
            ElementType::Uinteger, (0, Some(1)), (None, None, None),
            (4, NO_MAX_VER), (false, false, false, true)))
    } else {
        None
    }
}

pub(crate) fn find_7(id: u32) -> (r: Option<ElementDef>)
    ensures
        r == rows_7(id),
{
    if id == 0x54BA {
        Some(def(0x54BA, "DisplayHeight",
            "\\Segment\\Tracks\\TrackEntry\\Video\\DisplayHeight", Some(0xE0),
            ElementType::Uinteger, (0, Some(1)), (Some("not 0"), None, None),
            (1, NO_MAX_VER), (false, false, false, true)))
    } else if id == 0x54BB {
        Some(def(0x54BB, "PixelCropTop",
            "\\Segment\\Tracks\\TrackEntry\\Video\\PixelCropTop", Some(0xE0),
            ElementType::Uinteger, (1, Some(1)), (None, None, Some("0")),
            (1, NO_MAX_VER), (false, false, false, true)))
    } else if id == 0x54CC {
        Some(def(0x54CC, "PixelCropLeft",
            "\\Segment\\Tracks\\TrackEntry\\Video\\PixelCropLeft", Some(0xE0),
            ElementType::Uinteger, (1, Some(1)), (None, None, Some("0")),
            (1, NO_MAX_VER), (false, false, false, true)))
    } else if id == 0x54DD {
        Some(def(0x54DD, "PixelCropRight",
            "\\Segment\\Tracks\\TrackEntry\\Video\\PixelCropRight", Some(0xE0),
            ElementType::Uinteger, (1, Some(1)), (None, None, Some("0")),
            (1, NO_MAX_VER), (false, false, false, true)))
    } else if id == 0x55AA {
        Some(def(0x55AA, "FlagForced",
            "\\Segment\\Tracks\\TrackEntry\\FlagForced", Some(0xAE),
            ElementType::Uinteger, (1, Some(1)), (Some("0-1"), None, Some("0")),
            (1, NO_MAX_VER), (false, false, false, true)))
    } else if id == 0x55AB {
        Some(def(0x55AB, "FlagHearingImpaired",
            "\\Segment\\Tracks\\TrackEntry\\FlagHearingImpaired", Some(0xAE),
            ElementType::Uinteger, (0, Some(1)), (Some("0-1"), None, None),
            (4, NO_MAX_VER), (false, false, false, false)))
    } else if id == 0x55AC {
        Some(def(0x55AC, "FlagVisualImpaired",
            "\\Segment\\Tracks\\TrackEntry\\FlagVisualImpaired", Some(0xAE),
            ElementType::Uinteger, (0, Some(1)), (Some("0-1"), None, None),
            (4, NO_MAX_VER), (false, false, false, false)))
    } else if id == 0x55AD {
        Some(def(0x55AD, "FlagTextDescriptions",
            "\\Segment\\Tracks\\TrackEntry\\FlagTextDescriptions", Some(0xAE),
            ElementType::Uinteger, (0, Some(1)), (Some("0-1"), None, None),
            (4, NO_MAX_VER), (false, false, false, false)))
    } else if id == 0x55AE {
        Some(def(0x55AE, "FlagOriginal",
            "\\Segment\\Tracks\\TrackEntry\\FlagOriginal", Some(0xAE),
            ElementType::Uinteger, (0, Some(1)), (Some("0-1"), None, None),
            (4, NO_MAX_VER), (false, false, false, false)))
    } else if id == 0x55AF {
        Some(def(0x55AF, "FlagCommentary",
            "\\Segment\\Tracks\\TrackEntry\\FlagCommentary", Some(0xAE),
            ElementType::Uinteger, (0, Some(1)), (Some("0-1"), None, None),
            (4, NO_MAX_VER), (false, false, false, false)))
    } else if id == 0x55B0 {
        Some(def(0x55B0, "Colour",
            "\\Segment\\Tracks\\TrackEntry\\Video\\Colour", Some(0xE0),
            ElementType::Master, (0, Some(1)), (None, None, None),
            (4, NO_MAX_VER), (false, false, false, true)))
    } else if id == 0x55B1 {
        Some(def(0x55B1, "MatrixCoefficients",
            "\\Segment\\Tracks\\TrackEntry\\Video\\Colour\\MatrixCoefficients", Some(0x55B0),
            ElementType::Uinteger, (1, Some(1)), (None, None, Some("2")),
            (4, NO_MAX_VER), (false, false, false, true)))
    } else if id == 0x55B2 {
        Some(def(0x55B2, "BitsPerChannel",
            "\\Segment\\Tracks\\TrackEntry\\Video\\Colour\\BitsPerChannel", Some(0x55B0),
            ElementType::Uinteger, (1, Some(1)), (None, None, Some("0")),
            (4, NO_MAX_VER), (false, false, false, true)))
    } else if id == 0x55B3 {
        Some(def(0x55B3, "ChromaSubsamplingHorz",
            "\\Segment\\Tracks\\TrackEntry\\Video\\Colour\\ChromaSubsamplingHorz", Some(0x55B0),
            ElementType::Uinteger, (0, Some(1)), (None, None, None),
            (4, NO_MAX_VER), (false, false, false, true)))
    } else if id == 0x55B4 {
        Some(def(0x55B4, "ChromaSubsamplingVert",
            "\\Segment\\Tracks\\TrackEntry\\Video\\Colour\\ChromaSubsamplingVert", Some(0x55B0),
            ElementType::Uinteger, (0, Some(1)), (None, None, None),
            (4, NO_MAX_VER), (false, false, false, true)))
    } else if id == 0x55B5 {
        Some(def(0x55B5, "CbSubsamplingHorz",
            "\\Segment\\Tracks\\TrackEntry\\Video\\Colour\\CbSubsamplingHorz", Some(0x55B0),
            ElementType::Uinteger, (0, Some(1)), (None, None, None),
            (4, NO_MAX_VER), (false, false, false, true)))
    } else if id == 0x55B6 {
        Some(def(0x55B6, "CbSubsamplingVert",
            "\\Segment\\Tracks\\TrackEntry\\Video\\Colour\\CbSubsamplingVert", Some(0x55B0),
            ElementType::Uinteger, (0, Some(1)), (None, None, None),
            (4, NO_MAX_VER), (false, false, false, true)))
    } else if id == 0x55B7 {
        Some(def(0x55B7, "ChromaSitingHorz",
            "\\Segment\\Tracks\\TrackEntry\\Video\\Colour\\ChromaSitingHorz", Some(0x55B0),
            ElementType::Uinteger, (1, Some(1)), (None, None, Some("0")),
            (4, NO_MAX_VER), (false, false, false, true)))
    } else if id == 0x55B8 {
        Some(def(0x55B8, "ChromaSitingVert",
            "\\Segment\\Tracks\\TrackEntry\\Video\\Colour\\ChromaSitingVert", Some(0x55B0),
            ElementType::Uinteger, (1, Some(1)), (None, None, Some("0")),
            (4, NO_MAX_VER), (false, false, false, true)))
    } else if id == 0x55B9 {
        Some(def(0x55B9, "Range",
            "\\Segment\\Tracks\\TrackEntry\\Video\\Colour\\Range", Some(0x55B0),
            ElementType::Uinteger, (1, Some(1)), (None, None, Some("0")),
            (4, NO_MAX_VER), (false, false, false, true)))
    } else if id == 0x55BA {
        Some(def(0x55BA, "TransferCharacteristics",
            "\\Segment\\Tracks\\TrackEntry\\Video\\Colour\\TransferCharacteristics", Some(0x55B0),
            ElementType::Uinteger, (1, Some(1)), (None, None, Some("2")),
            (4, NO_MAX_VER), (false, false, false, true)))
    } else if id == 0x55BB {
        Some(def(0x55BB, "Primaries",
            "\\Segment\\Tracks\\TrackEntry\\Video\\Colour\\Primaries", Some(0x55B0),
            ElementType::Uinteger, (1, Some(1)), (None, None, Some("2")),
            (4, NO_MAX_VER), (false, false, false, true)))
    } else if id == 0x55BC {
        Some(def(0x55BC, "MaxCLL",
            "\\Segment\\Tracks\\TrackEntry\\Video\\Colour\\MaxCLL", Some(0x55B0),
            ElementType::Uinteger, (0, Some(1)), (None, None, None),
            (4, NO_MAX_VER), (false, false, false, true)))
    } else if id == 0x55BD {
        Some(def(0x55BD, "MaxFALL",
            "\\Segment\\Tracks\\TrackEntry\\Video\\Colour\\MaxFALL", Some(0x55B0),
            ElementType::Uinteger, (0, Some(1)), (None, None, None),
            (4, NO_MAX_VER), (false, false, false, true)))
    } else {
        None
    }
}

/// The elements from `0x55D0` to `0x63C3`.
pub open spec fn rows_8(id: u32) -> Option<ElementDef> {
    if id == 0x55D0 {
        Some(row(0x55D0, "MasteringMetadata",
            "\\Segment\\Tracks\\TrackEntry\\Video\\Colour\\MasteringMetadata", Some(0x55B0),
            ElementType::Master, (0, Some(1)), (None, None, None),
            (4, NO_MAX_VER), (false, false, false, true)))
    } else if id == 0x55D1 {
        Some(row(0x55D1, "PrimaryRChromaticityX",
            "\\Segment\\Tracks\\TrackEntry\\Video\\Colour\\MasteringMetadata\\PrimaryRChromaticityX", Some(0x55D0),
            ElementType::Float, (0, Some(1)), (Some("0x0p+0-0x1p+0"), None, None),
            (4, NO_MAX_VER), (false, false, false, true)))
    } else if id == 0x55D2 {
        Some(row(0x55D2, "PrimaryRChromaticityY",
            "\\Segment\\Tracks\\TrackEntry\\Video\\Colour\\MasteringMetadata\\PrimaryRChromaticityY", Some(0x55D0),
            ElementType::Float, (0, Some(1)), (Some("0x0p+0-0x1p+0"), None, None),
            (4, NO_MAX_VER), (false, false, false, true)))
    } else if id == 0x55D3 {
        Some(row(0x55D3, "PrimaryGChromaticityX",
            "\\Segment\\Tracks\\TrackEntry\\Video\\Colour\\MasteringMetadata\\PrimaryGChromaticityX", Some(0x55D0),
            ElementType::Float, (0, Some(1)), (Some("0x0p+0-0x1p+0"), None, None),
            (4, NO_MAX_VER), (false, false, false, true)))
    } else if id == 0x55D4 {
        Some(row(0x55D4, "PrimaryGChromaticityY",
            "\\Segment\\Tracks\\TrackEntry\\Video\\Colour\\MasteringMetadata\\PrimaryGChromaticityY", Some(0x55D0),
            ElementType::Float, (0, Some(1)), (Some("0x0p+0-0x1p+0"), None, None),
            (4, NO_MAX_VER), (false, false, false, true)))
    } else if id == 0x55D5 {
        Some(row(0x55D5, "PrimaryBChromaticityX",
            "\\Segment\\Tracks\\TrackEntry\\Video\\Colour\\MasteringMetadata\\PrimaryBChromaticityX", Some(0x55D0),
            ElementType::Float, (0, Some(1)), (Some("0x0p+0-0x1p+0"), None, None),
            (4, NO_MAX_VER), (false, false, false, true)))
    } else if id == 0x55D6 {
        Some(row(0x55D6, "PrimaryBChromaticityY",
            "\\Segment\\Tracks\\TrackEntry\\Video\\Colour\\MasteringMetadata\\PrimaryBChromaticityY", Some(0x55D0),
            ElementType::Float, (0, Some(1)), (Some("0x0p+0-0x1p+0"), None, None),
            (4, NO_MAX_VER), (false, false, false, true)))
    } else if id == 0x55D7 {
        Some(row(0x55D7, "WhitePointChromaticityX",
            "\\Segment\\Tracks\\TrackEntry\\Video\\Colour\\MasteringMetadata\\WhitePointChromaticityX", Some(0x55D0),
            ElementType::Float, (0, Some(1)), (Some("0x0p+0-0x1p+0"), None, None),
            (4, NO_MAX_VER), (false, false, false, true)))
    } else if id == 0x55D8 {
        Some(row(0x55D8, "WhitePointChromaticityY",
            "\\Segment\\Tracks\\TrackEntry\\Video\\Colour\\MasteringMetadata\\WhitePointChromaticityY", Some(0x55D0),
            ElementType::Float, (0, Some(1)), (Some("0x0p+0-0x1p+0"), None, None),
            (4, NO_MAX_VER), (false, false, false, true)))
    } else if id == 0x55D9 {
        Some(row(0x55D9, "LuminanceMax",
            "\\Segment\\Tracks\\TrackEntry\\Video\\Colour\\MasteringMetadata\\LuminanceMax", Some(0x55D0),
            ElementType::Float, (0, Some(1)), (Some(">= 0x0p+0"), None, None),
            (4, NO_MAX_VER), (false, false, false, true)))
    } else if id == 0x55DA {
        Some(row(0x55DA, "LuminanceMin",
            "\\Segment\\Tracks\\TrackEntry\\Video\\Colour\\MasteringMetadata\\LuminanceMin", Some(0x55D0),
            ElementType::Float, (0, Some(1)), (Some(">= 0x0p+0"), None, None),
            (4, NO_MAX_VER), (false, false, false, true)))
    } else if id == 0x55EE {
        Some(row(0x55EE, "MaxBlockAdditionID",
            "\\Segment\\Tracks\\TrackEntry\\MaxBlockAdditionID", Some(0xAE),
            ElementType::Uinteger, (1, Some(1)), (None, None, Some("0")),
            (1, NO_MAX_VER), (false, false, false, false)))
    } else if id == 0x5654 {
        Some(row(0x5654, "ChapterStringUID",
            "\\Segment\\Chapters\\EditionEntry\\+ChapterAtom\\ChapterStringUID", Some(0xB6),
            ElementType::Utf8, (0, Some(1)), (None, None, None),
            (3, NO_MAX_VER), (false, false, false, true)))
    } else if id == 0x56AA {
        Some(row(0x56AA, "CodecDelay",
            "\\Segment\\Tracks\\TrackEntry\\CodecDelay", Some(0xAE),
            ElementType::Uinteger, (1, Some(1)), (None, None, Some("0")),
            (4, NO_MAX_VER), (false, false, false, true)))
    } else if id == 0x56BB {
        Some(row(0x56BB, "SeekPreRoll",
            "\\Segment\\Tracks\\TrackEntry\\SeekPreRoll", Some(0xAE),
            ElementType::Uinteger, (1, Some(1)), (None, None, Some("0")),
            (4, NO_MAX_VER), (false, false, false, true)))
    } else if id == 0x5741 {
        Some(row(0x5741, "WritingApp",
            "\\Segment\\Info\\WritingApp", Some(0x1549A966),
            ElementType::Utf8, (1, Some(1)), (None, None, None),
            (1, NO_MAX_VER), (false, false, false, true)))
    } else if id == 0x5854 {
        Some(row(0x5854, "SilentTracks",
            "\\Segment\\Cluster\\SilentTracks", Some(0x1F43B675),
            ElementType::Master, (0, Some(1)), (None, None, None),
            (0, 0), (false, false, false, false)))
    } else if id == 0x58D7 {
        Some(row(0x58D7, "SilentTrackNumber",
            "\\Segment\\Cluster\\SilentTracks\\SilentTrackNumber", Some(0x5854),
            ElementType::Uinteger, (0, None), (None, None, None),
            (0, 0), (false, false, false, false)))
    } else if id == 0x61A7 {
        Some(row(0x61A7, "AttachedFile",
            "\\Segment\\Attachments\\AttachedFile", Some(0x1941A469),
            ElementType::Master, (1, None), (None, None, None),
            (1, NO_MAX_VER), (false, false, false, false)))
    } else if id == 0x6240 {
        Some(row(0x6240, "ContentEncoding",
            "\\Segment\\Tracks\\TrackEntry\\ContentEncodings\\ContentEncoding", Some(0x6D80),
            ElementType::Master, (1, None), (None, None, None),
            (1, NO_MAX_VER), (false, false, false, true)))
    } else if id == 0x6264 {
        Some(row(0x6264, "BitDepth",
            "\\Segment\\Tracks\\TrackEntry\\Audio\\BitDepth", Some(0xE1),
            ElementType::Uinteger, (0, Some(1)), (Some("not 0"), None, None),
            (1, NO_MAX_VER), (false, false, false, true)))
    } else if id == 0x63A2 {
        Some(row(0x63A2, "CodecPrivate",
            "\\Segment\\Tracks\\TrackEntry\\CodecPrivate", Some(0xAE),
            ElementType::Binary, (0, Some(1)), (None, None, None),
            (1, NO_MAX_VER), (false, false, false, true)))
    } else if id == 0x63C0 {
        Some(row(0x63C0, "Targets",
            "\\Segment\\Tags\\Tag\\Targets", Some(0x7373),
            ElementType::Master, (1, Some(1)), (None, None, None),
            (1, NO_MAX_VER), (false, false, false, true)))
    } else if id == 0x63C3 {
        Some(row(0x63C3, "ChapterPhysicalEquiv",
            "\\Segment\\Chapters\\EditionEntry\\+ChapterAtom\\ChapterPhysicalEquiv", Some(0xB6),
            ElementType::Uinteger, (0, Some(1)), (None, None, None),
            (1, NO_MAX_VER), (false, false, false, false)))
    } else {
        None
    }
}

pub(crate) fn find_8(id: u32) -> (r: Option<ElementDef>)
    ensures
        r == rows_8(id),
{
    if id == 0x55D0 {
        Some(def(0x55D0, "MasteringMetadata",
            "\\Segment\\Tracks\\TrackEntry\\Video\\Colour\\MasteringMetadata", Some(0x55B0),
            ElementType::Master, (0, Some(1)), (None, None, None),
            (4, NO_MAX_VER), (false, false, false, true)))
    } else if id == 0x55D1 {
        Some(def(0x55D1, "PrimaryRChromaticityX",
            "\\Segment\\Tracks\\TrackEntry\\Video\\Colour\\MasteringMetadata\\PrimaryRChromaticityX", Some(0x55D0),
            ElementType::Float, (0, Some(1)), (Some("0x0p+0-0x1p+0"), None, None),
            (4, NO_MAX_VER), (false, false, false, true)))
    } else if id == 0x55D2 {
        Some(def(0x55D2, "PrimaryRChromaticityY",
            "\\Segment\\Tracks\\TrackEntry\\Video\\Colour\\MasteringMetadata\\PrimaryRChromaticityY", Some(0x55D0),
            ElementType::Float, (0, Some(1)), (Some("0x0p+0-0x1p+0"), None, None),
            (4, NO_MAX_VER), (false, false, false, true)))
    } else if id == 0x55D3 {
        Some(def(0x55D3, "PrimaryGChromaticityX",
            "\\Segment\\Tracks\\TrackEntry\\Video\\Colour\\MasteringMetadata\\PrimaryGChromaticityX", Some(0x55D0),
            ElementType::Float, (0, Some(1)), (Some("0x0p+0-0x1p+0"), None, None),
            (4, NO_MAX_VER), (false, false, false, true)))
    } else if id == 0x55D4 {
        Some(def(0x55D4, "PrimaryGChromaticityY",
            "\\Segment\\Tracks\\TrackEntry\\Video\\Colour\\MasteringMetadata\\PrimaryGChromaticityY", Some(0x55D0),
            ElementType::Float, (0, Some(1)), (Some("0x0p+0-0x1p+0"), None, None),
            (4, NO_MAX_VER), (false, false, false, true)))
    } else if id == 0x55D5 {
        Some(def(0x55D5, "PrimaryBChromaticityX",
            "\\Segment\\Tracks\\TrackEntry\\Video\\Colour\\MasteringMetadata\\PrimaryBChromaticityX", Some(0x55D0),
            ElementType::Float, (0, Some(1)), (Some("0x0p+0-0x1p+0"), None, None),
            (4, NO_MAX_VER), (false, false, false, true)))
    } else if id == 0x55D6 {
        Some(def(0x55D6, "PrimaryBChromaticityY",
            "\\Segment\\Tracks\\TrackEntry\\Video\\Colour\\MasteringMetadata\\PrimaryBChromaticityY", Some(0x55D0),
            ElementType::Float, (0, Some(1)), (Some("0x0p+0-0x1p+0"), None, None),
            (4, NO_MAX_VER), (false, false, false, true)))
    } else if id == 0x55D7 {
        Some(def(0x55D7, "WhitePointChromaticityX",
            "\\Segment\\Tracks\\TrackEntry\\Video\\Colour\\MasteringMetadata\\WhitePointChromaticityX", Some(0x55D0),
            ElementType::Float, (0, Some(1)), (Some("0x0p+0-0x1p+0"), None, None),
            (4, NO_MAX_VER), (false, false, false, true)))
    } else if id == 0x55D8 {
        Some(def(0x55D8, "WhitePointChromaticityY",
            "\\Segment\\Tracks\\TrackEntry\\Video\\Colour\\MasteringMetadata\\WhitePointChromaticityY", Some(0x55D0),
            ElementType::Float, (0, Some(1)), (Some("0x0p+0-0x1p+0"), None, None),
            (4, NO_MAX_VER), (false, false, false, true)))
    } else if id == 0x55D9 {
        Some(def(0x55D9, "LuminanceMax",
            "\\Segment\\Tracks\\TrackEntry\\Video\\Colour\\MasteringMetadata\\LuminanceMax", Some(0x55D0),
            ElementType::Float, (0, Some(1)), (Some(">= 0x0p+0"), None, None),
            (4, NO_MAX_VER), (false, false, false, true)))
    } else if id == 0x55DA {
        Some(def(0x55DA, "LuminanceMin",
            "\\Segment\\Tracks\\TrackEntry\\Video\\Colour\\MasteringMetadata\\LuminanceMin", Some(0x55D0),
            ElementType::Float, (0, Some(1)), (Some(">= 0x0p+0"), None, None),
            (4, NO_MAX_VER), (false, false, false, true)))
    } else if id == 0x55EE {
        Some(def(0x55EE, "MaxBlockAdditionID",
            "\\Segment\\Tracks\\TrackEntry\\MaxBlockAdditionID", Some(0xAE),
            ElementType::Uinteger, (1, Some(1)), (None, None, Some("0")),
            (1, NO_MAX_VER), (false, false, false, false)))
    } else if id == 0x5654 {
        Some(def(0x5654, "ChapterStringUID",
            "\\Segment\\Chapters\\EditionEntry\\+ChapterAtom\\ChapterStringUID", Some(0xB6),
            ElementType::Utf8, (0, Some(1)), (None, None, None),
            (3, NO_MAX_VER), (false, false, false, true)))
    } else if id == 0x56AA {
        Some(def(0x56AA, "CodecDelay",
            "\\Segment\\Tracks\\TrackEntry\\CodecDelay", Some(0xAE),
            ElementType::Uinteger, (1, Some(1)), (None, None, Some("0")),
            (4, NO_MAX_VER), (false, false, false, true)))
    } else if id == 0x56BB {
        Some(def(0x56BB, "SeekPreRoll",
            "\\Segment\\Tracks\\TrackEntry\\SeekPreRoll", Some(0xAE),
            ElementType::Uinteger, (1, Some(1)), (None, None, Some("0")),
            (4, NO_MAX_VER), (false, false, false, true)))
    } else if id == 0x5741 {
        Some(def(0x5741, "WritingApp",
            "\\Segment\\Info\\WritingApp", Some(0x1549A966),
            ElementType::Utf8, (1, Some(1)), (None, None, None),
            (1, NO_MAX_VER), (false, false, false, true)))
    } else if id == 0x5854 {
        Some(def(0x5854, "SilentTracks",
            "\\Segment\\Cluster\\SilentTracks", Some(0x1F43B675),
            ElementType::Master, (0, Some(1)), (None, None, None),
            (0, 0), (false, false, false, false)))
    } else if id == 0x58D7 {
        Some(def(0x58D7, "SilentTrackNumber",
            "\\Segment\\Cluster\\SilentTracks\\SilentTrackNumber", Some(0x5854),
            ElementType::Uinteger, (0, None), (None, None, None),
            (0, 0), (false, false, false, false)))
    } else if id == 0x61A7 {
        Some(def(0x61A7, "AttachedFile",
            "\\Segment\\Attachments\\AttachedFile", Some(0x1941A469),
            ElementType::Master, (1, None), (None, None, None),
            (1, NO_MAX_VER), (false, false, false, false)))
    } else if id == 0x6240 {
        Some(def(0x6240, "ContentEncoding",
            "\\Segment\\Tracks\\TrackEntry\\ContentEncodings\\ContentEncoding", Some(0x6D80),
            ElementType::Master, (1, None), (None, None, None),
            (1, NO_MAX_VER), (false, false, false, true)))
    } else if id == 0x6264 {
        Some(def(0x6264, "BitDepth",
            "\\Segment\\Tracks\\TrackEntry\\Audio\\BitDepth", Some(0xE1),
            ElementType::Uinteger, (0, Some(1)), (Some("not 0"), None, None),
            (1, NO_MAX_VER), (false, false, false, true)))
    } else if id == 0x63A2 {
        Some(def(0x63A2, "CodecPrivate",
            "\\Segment\\Tracks\\TrackEntry\\CodecPrivate", Some(0xAE),
            ElementType::Binary, (0, Some(1)), (None, None, None),
            (1, NO_MAX_VER), (false, false, false, true)))
    } else if id == 0x63C0 {
        Some(def(0x63C0, "Targets",
            "\\Segment\\Tags\\Tag\\Targets", Some(0x7373),
            ElementType::Master, (1, Some(1)), (None, None, None),
            (1, NO_MAX_VER), (false, false, false, true)))
    } else if id == 0x63C3 {
        Some(def(0x63C3, "ChapterPhysicalEquiv",
            "\\Segment\\Chapters\\EditionEntry\\+ChapterAtom\\ChapterPhysicalEquiv", Some(0xB6),
            ElementType::Uinteger, (0, Some(1)), (None, None, None),
            (1, NO_MAX_VER), (false, false, false, false)))
    } else {
        None
    }
}

/// The elements from `0x63C4` to `0x6DF8`.
pub open spec fn rows_9(id: u32) -> Option<ElementDef> {
    if id == 0x63C4 {
        Some(row(0x63C4, "TagChapterUID",
            "\\Segment\\Tags\\Tag\\Targets\\TagChapterUID", Some(0x63C0),
            ElementType::Uinteger, (0, None), (None, None, Some("0")),
            (1, NO_MAX_VER), (false, false, false, false)))
    } else if id == 0x63C5 {
        Some(row(0x63C5, "TagTrackUID",
            "\\Segment\\Tags\\Tag\\Targets\\TagTrackUID", Some(0x63C0),
            ElementType::Uinteger, (0, None), (None, None, Some("0")),
            (1, NO_MAX_VER), (false, false, false, true)))
    } else if id == 0x63C6 {
        Some(row(0x63C6, "TagAttachmentUID",
            "\\Segment\\Tags\\Tag\\Targets\\TagAttachmentUID", Some(0x63C0),
            ElementType::Uinteger, (0, None), (None, None, Some("0")),
            (1, NO_MAX_VER), (false, false, false, false)))
    } else if id == 0x63C7 {
        Some(row(0x63C7, "TagBlockAddIDValue",
            "\\Segment\\Tags\\Tag\\Targets\\TagBlockAddIDValue", Some(0x63C0),
            ElementType::Uinteger, (0, None), (None, None, Some("0")),
            (5, NO_MAX_VER), (false, false, false, false)))
    } else if id == 0x63C9 {
        Some(row(0x63C9, "TagEditionUID",
            "\\Segment\\Tags\\Tag\\Targets\\TagEditionUID", Some(0x63C0),
            ElementType::Uinteger, (0, None), (None, None, Some("0")),
            (1, NO_MAX_VER), (false, false, false, false)))
    } else if id == 0x63CA {
        Some(row(0x63CA, "TargetType",
            "\\Segment\\Tags\\Tag\\Targets\\TargetType", Some(0x63C0),
            ElementType::AsciiString, (0, Some(1)), (None, None, None),
            (1, NO_MAX_VER), (false, false, false, true)))
    } else if id == 0x6624 {
        Some(row(0x6624, "TrackTranslate",
            "\\Segment\\Tracks\\TrackEntry\\TrackTranslate", Some(0xAE),
            ElementType::Master, (0, None), (None, None, None),
            (1, NO_MAX_VER), (false, false, false, false)))
    } else if id == 0x66A5 {
        Some(row(0x66A5, "TrackTranslateTrackID",
            "\\Segment\\Tracks\\TrackEntry\\TrackTranslate\\TrackTranslateTrackID", Some(0x6624),
            ElementType::Binary, (1, Some(1)), (None, None, None),
            (1, NO_MAX_VER), (false, false, false, false)))
    } else if id == 0x66BF {
        Some(row(0x66BF, "TrackTranslateCodec",
            "\\Segment\\Tracks\\TrackEntry\\TrackTranslate\\TrackTranslateCodec", Some(0x6624),
            ElementType::Uinteger, (1, Some(1)), (None, None, None),
            (1, NO_MAX_VER), (false, false, false, false)))
    } else if id == 0x66FC {
        Some(row(0x66FC, "TrackTranslateEditionUID",
            "\\Segment\\Tracks\\TrackEntry\\TrackTranslate\\TrackTranslateEditionUID", Some(0x6624),
            ElementType::Uinteger, (0, None), (None, None, None),
            (1, NO_MAX_VER), (false, false, false, false)))
    } else if id == 0x67C8 {
        Some(row(0x67C8, "SimpleTag",
            "\\Segment\\Tags\\Tag\\+SimpleTag", Some(0x7373),
            ElementType::Master, (1, None), (None, None, None),
            (1, NO_MAX_VER), (true, false, false, true)))
    } else if id == 0x68CA {
        Some(row(0x68CA, "TargetTypeValue",
            "\\Segment\\Tags\\Tag\\Targets\\TargetTypeValue", Some(0x63C0),
            ElementType::Uinteger, (1, Some(1)), (Some("not 0"), None, Some("50")),
            (1, NO_MAX_VER), (false, false, false, true)))
    } else if id == 0x6911 {
        Some(row(0x6911, "ChapProcessCommand",
            "\\Segment\\Chapters\\EditionEntry\\+ChapterAtom\\ChapProcess\\ChapProcessCommand", Some(0x6944),
            ElementType::Master, (0, None), (None, None, None),
            (1, NO_MAX_VER), (false, false, false, false)))
    } else if id == 0x6922 {
        Some(row(0x6922, "ChapProcessTime",
            "\\Segment\\Chapters\\EditionEntry\\+ChapterAtom\\ChapProcess\\ChapProcessCommand\\ChapProcessTime", Some(0x6911),
            ElementType::Uinteger, (1, Some(1)), (None, None, None),
            (1, NO_MAX_VER), (false, false, false, false)))
    } else if id == 0x6924 {
        Some(row(0x6924, "ChapterTranslate",
            "\\Segment\\Info\\ChapterTranslate", Some(0x1549A966),
            ElementType::Master, (0, None), (None, None, None),
            (1, NO_MAX_VER), (false, false, false, false)))
    } else if id == 0x6933 {
        Some(row(0x6933, "ChapProcessData",
            "\\Segment\\Chapters\\EditionEntry\\+ChapterAtom\\ChapProcess\\ChapProcessCommand\\ChapProcessData", Some(0x6911),
            ElementType::Binary, (1, Some(1)), (None, None, None),
            (1, NO_MAX_VER), (false, false, false, false)))
    } else if id == 0x6944 {
        Some(row(0x6944, "ChapProcess",
            "\\Segment\\Chapters\\EditionEntry\\+ChapterAtom\\ChapProcess", Some(0xB6),
            ElementType::Master, (0, None), (None, None, None),
            (1, NO_MAX_VER), (false, false, false, false)))
    } else if id == 0x6955 {
        Some(row(0x6955, "ChapProcessCodecID",
            "\\Segment\\Chapters\\EditionEntry\\+ChapterAtom\\ChapProcess\\ChapProcessCodecID", Some(0x6944),
            ElementType::Uinteger, (1, Some(1)), (None, None, Some("0")),
            (1, NO_MAX_VER), (false, false, false, false)))
    } else if id == 0x69A5 {
        Some(row(0x69A5, "ChapterTranslateID",
            "\\Segment\\Info\\ChapterTranslate\\ChapterTranslateID", Some(0x6924),
            ElementType::Binary, (1, Some(1)), (None, None, None),
            (1, NO_MAX_VER), (false, false, false, false)))
    } else if id == 0x69BF {
        Some(row(0x69BF, "ChapterTranslateCodec",
            "\\Segment\\Info\\ChapterTranslate\\ChapterTranslateCodec", Some(0x6924),
            ElementType::Uinteger, (1, Some(1)), (None, None, None),
            (1, NO_MAX_VER), (false, false, false, false)))
    } else if id == 0x69FC {
        Some(row(0x69FC, "ChapterTranslateEditionUID",
            "\\Segment\\Info\\ChapterTranslate\\ChapterTranslateEditionUID", Some(0x6924),
            ElementType::Uinteger, (0, None), (None, None, None),
            (1, NO_MAX_VER), (false, false, false, false)))
    } else if id == 0x6D80 {
        Some(row(0x6D80, "ContentEncodings",
            "\\Segment\\Tracks\\TrackEntry\\ContentEncodings", Some(0xAE),
            ElementType::Master, (0, Some(1)), (None, None, None),
            (1, NO_MAX_VER), (false, false, false, true)))
    } else if id == 0x6DE7 {
        Some(row(0x6DE7, "MinCache",
            "\\Segment\\Tracks\\TrackEntry\\MinCache", Some(0xAE),
            ElementType::Uinteger, (1, Some(1)), (None, None, Some("0")),
            (0, 0), (false, false, false, false)))
    } else if id == 0x6DF8 {
        Some(row(0x6DF8, "MaxCache",
            "\\Segment\\Tracks\\TrackEntry\\MaxCache", Some(0xAE),
            ElementType::Uinteger, (0, Some(1)), (None, None, None),
            (0, 0), (false, false, false, false)))
    } else {
        None
    }
}

pub(crate) fn find_9(id: u32) -> (r: Option<ElementDef>)
    ensures
        r == rows_9(id),
{
    if id == 0x63C4 {
        Some(def(0x63C4, "TagChapterUID",
            "\\Segment\\Tags\\Tag\\Targets\\TagChapterUID", Some(0x63C0),
            ElementType::Uinteger, (0, None), (None, None, Some("0")),
            (1, NO_MAX_VER), (false, false, false, false)))
    } else if id == 0x63C5 {
        Some(def(0x63C5, "TagTrackUID",
            "\\Segment\\Tags\\Tag\\Targets\\TagTrackUID", Some(0x63C0),
            ElementType::Uinteger, (0, None), (None, None, Some("0")),
            (1, NO_MAX_VER), (false, false, false, true)))
    } else if id == 0x63C6 {
        Some(def(0x63C6, "TagAttachmentUID",
            "\\Segment\\Tags\\Tag\\Targets\\TagAttachmentUID", Some(0x63C0),
            ElementType::Uinteger, (0, None), (None, None, Some("0")),
            (1, NO_MAX_VER), (false, false, false, false)))
    } else if id == 0x63C7 {
        Some(def(0x63C7, "TagBlockAddIDValue",
            "\\Segment\\Tags\\Tag\\Targets\\TagBlockAddIDValue", Some(0x63C0),
            ElementType::Uinteger, (0, None), (None, None, Some("0")),
            (5, NO_MAX_VER), (false, false, false, false)))
    } else if id == 0x63C9 {
        Some(def(0x63C9, "TagEditionUID",
            "\\Segment\\Tags\\Tag\\Targets\\TagEditionUID", Some(0x63C0),
            ElementType::Uinteger, (0, None), (None, None, Some("0")),
            (1, NO_MAX_VER), (false, false, false, false)))
    } else if id == 0x63CA {
        Some(def(0x63CA, "TargetType",
            "\\Segment\\Tags\\Tag\\Targets\\TargetType", Some(0x63C0),
            ElementType::AsciiString, (0, Some(1)), (None, None, None),
            (1, NO_MAX_VER), (false, false, false, true)))
    } else if id == 0x6624 {
        Some(def(0x6624, "TrackTranslate",
            "\\Segment\\Tracks\\TrackEntry\\TrackTranslate", Some(0xAE),
            ElementType::Master, (0, None), (None, None, None),
            (1, NO_MAX_VER), (false, false, false, false)))
    } else if id == 0x66A5 {
        Some(def(0x66A5, "TrackTranslateTrackID",
            "\\Segment\\Tracks\\TrackEntry\\TrackTranslate\\TrackTranslateTrackID", Some(0x6624),
            ElementType::Binary, (1, Some(1)), (None, None, None),
            (1, NO_MAX_VER), (false, false, false, false)))
    } else if id == 0x66BF {
        Some(def(0x66BF, "TrackTranslateCodec",
            "\\Segment\\Tracks\\TrackEntry\\TrackTranslate\\TrackTranslateCodec", Some(0x6624),
            ElementType::Uinteger, (1, Some(1)), (None, None, None),
            (1, NO_MAX_VER), (false, false, false, false)))
    } else if id == 0x66FC {
        Some(def(0x66FC, "TrackTranslateEditionUID",
            "\\Segment\\Tracks\\TrackEntry\\TrackTranslate\\TrackTranslateEditionUID", Some(0x6624),
            ElementType::Uinteger, (0, None), (None, None, None),
            (1, NO_MAX_VER), (false, false, false, false)))
    } else if id == 0x67C8 {
        Some(def(0x67C8, "SimpleTag",
            "\\Segment\\Tags\\Tag\\+SimpleTag", Some(0x7373),
            ElementType::Master, (1, None), (None, None, None),
            (1, NO_MAX_VER), (true, false, false, true)))
    } else if id == 0x68CA {
        Some(def(0x68CA, "TargetTypeValue",
            "\\Segment\\Tags\\Tag\\Targets\\TargetTypeValue", Some(0x63C0),
            ElementType::Uinteger, (1, Some(1)), (Some("not 0"), None, Some("50")),
            (1, NO_MAX_VER), (false, false, false, true)))
    } else if id == 0x6911 {
        Some(def(0x6911, "ChapProcessCommand",
            "\\Segment\\Chapters\\EditionEntry\\+ChapterAtom\\ChapProcess\\ChapProcessCommand", Some(0x6944),
            ElementType::Master, (0, None), (None, None, None),
            (1, NO_MAX_VER), (false, false, false, false)))
    } else if id == 0x6922 {
        Some(def(0x6922, "ChapProcessTime",
            "\\Segment\\Chapters\\EditionEntry\\+ChapterAtom\\ChapProcess\\ChapProcessCommand\\ChapProcessTime", Some(0x6911),
            ElementType::Uinteger, (1, Some(1)), (None, None, None),
            (1, NO_MAX_VER), (false, false, false, false)))
    } else if id == 0x6924 {
        Some(def(0x6924, "ChapterTranslate",
            "\\Segment\\Info\\ChapterTranslate", Some(0x1549A966),
            ElementType::Master, (0, None), (None, None, None),
            (1, NO_MAX_VER), (false, false, false, false)))
    } else if id == 0x6933 {
        Some(def(0x6933, "ChapProcessData",
            "\\Segment\\Chapters\\EditionEntry\\+ChapterAtom\\ChapProcess\\ChapProcessCommand\\ChapProcessData", Some(0x6911),
            ElementType::Binary, (1, Some(1)), (None, None, None),
            (1, NO_MAX_VER), (false, false, false, false)))
    } else if id == 0x6944 {
        Some(def(0x6944, "ChapProcess",
            "\\Segment\\Chapters\\EditionEntry\\+ChapterAtom\\ChapProcess", Some(0xB6),
            ElementType::Master, (0, None), (None, None, None),
            (1, NO_MAX_VER), (false, false, false, false)))
    } else if id == 0x6955 {
        Some(def(0x6955, "ChapProcessCodecID",
            "\\Segment\\Chapters\\EditionEntry\\+ChapterAtom\\ChapProcess\\ChapProcessCodecID", Some(0x6944),
            ElementType::Uinteger, (1, Some(1)), (None, None, Some("0")),
            (1, NO_MAX_VER), (false, false, false, false)))
    } else if id == 0x69A5 {
        Some(def(0x69A5, "ChapterTranslateID",
            "\\Segment\\Info\\ChapterTranslate\\ChapterTranslateID", Some(0x6924),
            ElementType::Binary, (1, Some(1)), (None, None, None),
            (1, NO_MAX_VER), (false, false, false, false)))
    } else if id == 0x69BF {
        Some(def(0x69BF, "ChapterTranslateCodec",
            "\\Segment\\Info\\ChapterTranslate\\ChapterTranslateCodec", Some(0x6924),
            ElementType::Uinteger, (1, Some(1)), (None, None, None),
            (1, NO_MAX_VER), (false, false, false, false)))
    } else if id == 0x69FC {
        Some(def(0x69FC, "ChapterTranslateEditionUID",
            "\\Segment\\Info\\ChapterTranslate\\ChapterTranslateEditionUID", Some(0x6924),
            ElementType::Uinteger, (0, None), (None, None, None),
            (1, NO_MAX_VER), (false, false, false, false)))
    } else if id == 0x6D80 {
        Some(def(0x6D80, "ContentEncodings",
            "\\Segment\\Tracks\\TrackEntry\\ContentEncodings", Some(0xAE),
            ElementType::Master, (0, Some(1)), (None, None, None),
            (1, NO_MAX_VER), (false, false, false, true)))
    } else if id == 0x6DE7 {
        Some(def(0x6DE7, "MinCache",
            "\\Segment\\Tracks\\TrackEntry\\MinCache", Some(0xAE),
            ElementType::Uinteger, (1, Some(1)), (None, None, Some("0")),
            (0, 0), (false, false, false, false)))
    } else if id == 0x6DF8 {
        Some(def(0x6DF8, "MaxCache",
            "\\Segment\\Tracks\\TrackEntry\\MaxCache", Some(0xAE),
            ElementType::Uinteger, (0, Some(1)), (None, None, None),
            (0, 0), (false, false, false, false)))
    } else {
        None
    }
}

/// The elements from `0x6E67` to `0x234E7A`.
pub open spec fn rows_10(id: u32) -> Option<ElementDef> {
    if id == 0x6E67 {
        Some(row(0x6E67, "ChapterSegmentUUID",
            "\\Segment\\Chapters\\EditionEntry\\+ChapterAtom\\ChapterSegmentUUID", Some(0xB6),
            ElementType::Binary, (0, Some(1)), (None, Some("16"), None),
            (1, NO_MAX_VER), (false, false, false, false)))
    } else if id == 0x6EBC {
        Some(row(0x6EBC, "ChapterSegmentEditionUID",
            "\\Segment\\Chapters\\EditionEntry\\+ChapterAtom\\ChapterSegmentEditionUID", Some(0xB6),
            ElementType::Uinteger, (0, Some(1)), (Some("not 0"), None, None),
            (1, NO_MAX_VER), (false, false, false, false)))
    } else if id == 0x6FAB {
        Some(row(0x6FAB, "TrackOverlay",
            "\\Segment\\Tracks\\TrackEntry\\TrackOverlay", Some(0xAE),
            ElementType::Uinteger, (0, None), (None, None, None),
            (1, 0), (false, false, false, false)))
    } else if id == 0x7373 {
        Some(row(0x7373, "Tag",
            "\\Segment\\Tags\\Tag", Some(0x1254C367),
            ElementType::Master, (1, None), (None, None, None),
            (1, NO_MAX_VER), (false, false, false, true)))
    } else if id == 0x7384 {
        Some(row(0x7384, "SegmentFilename",
            "\\Segment\\Info\\SegmentFilename", Some(0x1549A966),
            ElementType::Utf8, (0, Some(1)), (None, None, None),
            (1, NO_MAX_VER), (false, false, false, false)))
    } else if id == 0x73A4 {
        Some(row(0x73A4, "SegmentUUID",
            "\\Segment\\Info\\SegmentUUID", Some(0x1549A966),
            ElementType::Binary, (0, Some(1)), (None, Some("16"), None),
            (1, NO_MAX_VER), (false, false, false, false)))
    } else if id == 0x73C4 {
        Some(row(0x73C4, "ChapterUID",
            "\\Segment\\Chapters\\EditionEntry\\+ChapterAtom\\ChapterUID", Some(0xB6),
            ElementType::Uinteger, (1, Some(1)), (Some("not 0"), None, None),
            (1, NO_MAX_VER), (false, false, false, true)))
    } else if id == 0x73C5 {
        Some(row(0x73C5, "TrackUID",
            "\\Segment\\Tracks\\TrackEntry\\TrackUID", Some(0xAE),
            ElementType::Uinteger, (1, Some(1)), (Some("not 0"), None, None),
            (1, NO_MAX_VER), (false, false, false, true)))
    } else if id == 0x7446 {
        Some(row(0x7446, "AttachmentLink",
            "\\Segment\\Tracks\\TrackEntry\\AttachmentLink", Some(0xAE),
            ElementType::Uinteger, (0, Some(1)), (Some("not 0"), None, None),
            (1, 3), (false, false, false, false)))
    } else if id == 0x75A1 {
        Some(row(0x75A1, "BlockAdditions",
            "\\Segment\\Cluster\\BlockGroup\\BlockAdditions", Some(0xA0),
            ElementType::Master, (0, Some(1)), (None, None, None),
            (1, NO_MAX_VER), (false, false, false, true)))
    } else if id == 0x75A2 {
        Some(row(0x75A2, "DiscardPadding",
            "\\Segment\\Cluster\\BlockGroup\\DiscardPadding", Some(0xA0),
            ElementType::Integer, (0, Some(1)), (None, None, None),
            (4, NO_MAX_VER), (false, false, false, true)))
    } else if id == 0x7670 {
        Some(row(0x7670, "Projection",
            "\\Segment\\Tracks\\TrackEntry\\Video\\Projection", Some(0xE0),
            ElementType::Master, (0, Some(1)), (None, None, None),
            (4, NO_MAX_VER), (false, false, false, true)))
    } else if id == 0x7671 {
        Some(row(0x7671, "ProjectionType",
            "\\Segment\\Tracks\\TrackEntry\\Video\\Projection\\ProjectionType", Some(0x7670),
            ElementType::Uinteger, (1, Some(1)), (None, None, Some("0")),
            (4, NO_MAX_VER), (false, false, false, true)))
    } else if id == 0x7672 {
        Some(row(0x7672, "ProjectionPrivate",
            "\\Segment\\Tracks\\TrackEntry\\Video\\Projection\\ProjectionPrivate", Some(0x7670),
            ElementType::Binary, (0, Some(1)), (None, None, None),
            (4, NO_MAX_VER), (false, false, false, true)))
    } else if id == 0x7673 {
        Some(row(0x7673, "ProjectionPoseYaw",
            "\\Segment\\Tracks\\TrackEntry\\Video\\Projection\\ProjectionPoseYaw", Some(0x7670),
            ElementType::Float, (1, Some(1)), (Some(">= -0xB4p+0, <= 0xB4p+0"), None, Some("0x0p+0")),
            (4, NO_MAX_VER), (false, false, false, true)))
    } else if id == 0x7674 {
        Some(row(0x7674, "ProjectionPosePitch",
            "\\Segment\\Tracks\\TrackEntry\\Video\\Projection\\ProjectionPosePitch", Some(0x7670),
            ElementType::Float, (1, Some(1)), (Some(">= -0x5Ap+0, <= 0x5Ap+0"), None, Some("0x0p+0")),
            (4, NO_MAX_VER), (false, false, false, true)))
    } else if id == 0x7675 {
        Some(row(0x7675, "ProjectionPoseRoll",
            "\\Segment\\Tracks\\TrackEntry\\Video\\Projection\\ProjectionPoseRoll", Some(0x7670),
            ElementType::Float, (1, Some(1)), (Some(">= -0xB4p+0, <= 0xB4p+0"), None, Some("0x0p+0")),
            (4, NO_MAX_VER), (false, false, false, true)))
    } else if id == 0x78B5 {
        Some(row(0x78B5, "OutputSamplingFrequency",
            "\\Segment\\Tracks\\TrackEntry\\Audio\\OutputSamplingFrequency", Some(0xE1),
            ElementType::Float, (0, Some(1)), (Some("> 0x0p+0"), None, None),
            (1, NO_MAX_VER), (false, false, false, true)))
    } else if id == 0x7BA9 {
        Some(row(0x7BA9, "Title",
            "\\Segment\\Info\\Title", Some(0x1549A966),
            ElementType::Utf8, (0, Some(1)), (None, None, None),
            (1, NO_MAX_VER), (false, false, false, true)))
    } else if id == 0x7D7B {
        Some(row(0x7D7B, "ChannelPositions",
            "\\Segment\\Tracks\\TrackEntry\\Audio\\ChannelPositions", Some(0xE1),
            ElementType::Binary, (0, Some(1)), (None, None, None),
            (0, 0), (false, false, false, false)))
    } else if id == 0x22B59C {
        Some(row(0x22B59C, "Language",
            "\\Segment\\Tracks\\TrackEntry\\Language", Some(0xAE),
            ElementType::AsciiString, (1, Some(1)), (None, None, Some("eng")),
            (1, NO_MAX_VER), (false, false, false, true)))
    } else if id == 0x22B59D {
        Some(row(0x22B59D, "LanguageBCP47",
            "\\Segment\\Tracks\\TrackEntry\\LanguageBCP47", Some(0xAE),
            ElementType::AsciiString, (0, Some(1)), (None, None, None),
            (4, NO_MAX_VER), (false, false, false, false)))
    } else if id == 0x23314F {
        Some(row(0x23314F, "TrackTimestampScale",
            "\\Segment\\Tracks\\TrackEntry\\TrackTimestampScale", Some(0xAE),
            ElementType::Float, (1, Some(1)), (Some("> 0x0p+0"), None, Some("0x1p+0")),
            (1, 3), (false, false, false, false)))
    } else if id == 0x234E7A {
        Some(row(0x234E7A, "DefaultDecodedFieldDuration",
            "\\Segment\\Tracks\\TrackEntry\\DefaultDecodedFieldDuration", Some(0xAE),
            ElementType::Uinteger, (0, Some(1)), (Some("not 0"), None, None),
            (4, NO_MAX_VER), (false, false, false, false)))
    } else {
        None
    }
}

pub(crate) fn find_10(id: u32) -> (r: Option<ElementDef>)
    ensures
        r == rows_10(id),
{
    if id == 0x6E67 {
        Some(def(0x6E67, "ChapterSegmentUUID",
            "\\Segment\\Chapters\\EditionEntry\\+ChapterAtom\\ChapterSegmentUUID", Some(0xB6),
            ElementType::Binary, (0, Some(1)), (None, Some("16"), None),
            (1, NO_MAX_VER), (false, false, false, false)))
    } else if id == 0x6EBC {
        Some(def(0x6EBC, "ChapterSegmentEditionUID",
            "\\Segment\\Chapters\\EditionEntry\\+ChapterAtom\\ChapterSegmentEditionUID", Some(0xB6),
            ElementType::Uinteger, (0, Some(1)), (Some("not 0"), None, None),
            (1, NO_MAX_VER), (false, false, false, false)))
    } else if id == 0x6FAB {
        Some(def(0x6FAB, "TrackOverlay",
            "\\Segment\\Tracks\\TrackEntry\\TrackOverlay", Some(0xAE),
            ElementType::Uinteger, (0, None), (None, None, None),
            (1, 0), (false, false, false, false)))
    } else if id == 0x7373 {
        Some(def(0x7373, "Tag",
            "\\Segment\\Tags\\Tag", Some(0x1254C367),
            ElementType::Master, (1, None), (None, None, None),
            (1, NO_MAX_VER), (false, false, false, true)))
    } else if id == 0x7384 {
        Some(def(0x7384, "SegmentFilename",
            "\\Segment\\Info\\SegmentFilename", Some(0x1549A966),
            ElementType::Utf8, (0, Some(1)), (None, None, None),
            (1, NO_MAX_VER), (false, false, false, false)))
    } else if id == 0x73A4 {
        Some(def(0x73A4, "SegmentUUID",
            "\\Segment\\Info\\SegmentUUID", Some(0x1549A966),
            ElementType::Binary, (0, Some(1)), (None, Some("16"), None),
            (1, NO_MAX_VER), (false, false, false, false)))
    } else if id == 0x73C4 {
        Some(def(0x73C4, "ChapterUID",
            "\\Segment\\Chapters\\EditionEntry\\+ChapterAtom\\ChapterUID", Some(0xB6),
            ElementType::Uinteger, (1, Some(1)), (Some("not 0"), None, None),
            (1, NO_MAX_VER), (false, false, false, true)))
    } else if id == 0x73C5 {
        Some(def(0x73C5, "TrackUID",
            "\\Segment\\Tracks\\TrackEntry\\TrackUID", Some(0xAE),
            ElementType::Uinteger, (1, Some(1)), (Some("not 0"), None, None),
            (1, NO_MAX_VER), (false, false, false, true)))
    } else if id == 0x7446 {
        Some(def(0x7446, "AttachmentLink",
            "\\Segment\\Tracks\\TrackEntry\\AttachmentLink", Some(0xAE),
            ElementType::Uinteger, (0, Some(1)), (Some("not 0"), None, None),
            (1, 3), (false, false, false, false)))
    } else if id == 0x75A1 {
        Some(def(0x75A1, "BlockAdditions",
            "\\Segment\\Cluster\\BlockGroup\\BlockAdditions", Some(0xA0),
            ElementType::Master, (0, Some(1)), (None, None, None),
            (1, NO_MAX_VER), (false, false, false, true)))
    } else if id == 0x75A2 {
        Some(def(0x75A2, "DiscardPadding",
            "\\Segment\\Cluster\\BlockGroup\\DiscardPadding", Some(0xA0),
            ElementType::Integer, (0, Some(1)), (None, None, None),
            (4, NO_MAX_VER), (false, false, false, true)))
    } else if id == 0x7670 {
        Some(def(0x7670, "Projection",
            "\\Segment\\Tracks\\TrackEntry\\Video\\Projection", Some(0xE0),
            ElementType::Master, (0, Some(1)), (None, None, None),
            (4, NO_MAX_VER), (false, false, false, true)))
    } else if id == 0x7671 {
        Some(def(0x7671, "ProjectionType",
            "\\Segment\\Tracks\\TrackEntry\\Video\\Projection\\ProjectionType", Some(0x7670),
            ElementType::Uinteger, (1, Some(1)), (None, None, Some("0")),
            (4, NO_MAX_VER), (false, false, false, true)))
    } else if id == 0x7672 {
        Some(def(0x7672, "ProjectionPrivate",
            "\\Segment\\Tracks\\TrackEntry\\Video\\Projection\\ProjectionPrivate", Some(0x7670),
            ElementType::Binary, (0, Some(1)), (None, None, None),
            (4, NO_MAX_VER), (false, false, false, true)))
    } else if id == 0x7673 {
        Some(def(0x7673, "ProjectionPoseYaw",
            "\\Segment\\Tracks\\TrackEntry\\Video\\Projection\\ProjectionPoseYaw", Some(0x7670),
            ElementType::Float, (1, Some(1)), (Some(">= -0xB4p+0, <= 0xB4p+0"), None, Some("0x0p+0")),
            (4, NO_MAX_VER), (false, false, false, true)))
    } else if id == 0x7674 {
        Some(def(0x7674, "ProjectionPosePitch",
            "\\Segment\\Tracks\\TrackEntry\\Video\\Projection\\ProjectionPosePitch", Some(0x7670),
            ElementType::Float, (1, Some(1)), (Some(">= -0x5Ap+0, <= 0x5Ap+0"), None, Some("0x0p+0")),
            (4, NO_MAX_VER), (false, false, false, true)))
    } else if id == 0x7675 {
        Some(def(0x7675, "ProjectionPoseRoll",
            "\\Segment\\Tracks\\TrackEntry\\Video\\Projection\\ProjectionPoseRoll", Some(0x7670),
            ElementType::Float, (1, Some(1)), (Some(">= -0xB4p+0, <= 0xB4p+0"), None, Some("0x0p+0")),
            (4, NO_MAX_VER), (false, false, false, true)))
    } else if id == 0x78B5 {
        Some(def(0x78B5, "OutputSamplingFrequency",
            "\\Segment\\Tracks\\TrackEntry\\Audio\\OutputSamplingFrequency", Some(0xE1),
            ElementType::Float, (0, Some(1)), (Some("> 0x0p+0"), None, None),
            (1, NO_MAX_VER), (false, false, false, true)))
    } else if id == 0x7BA9 {
        Some(def(0x7BA9, "Title",
            "\\Segment\\Info\\Title", Some(0x1549A966),
            ElementType::Utf8, (0, Some(1)), (None, None, None),
            (1, NO_MAX_VER), (false, false, false, true)))
    } else if id == 0x7D7B {
        Some(def(0x7D7B, "ChannelPositions",
            "\\Segment\\Tracks\\TrackEntry\\Audio\\ChannelPositions", Some(0xE1),
            ElementType::Binary, (0, Some(1)), (None, None, None),
            (0, 0), (false, false, false, false)))
    } else if id == 0x22B59C {
        Some(def(0x22B59C, "Language",
            "\\Segment\\Tracks\\TrackEntry\\Language", Some(0xAE),
            ElementType::AsciiString, (1, Some(1)), (None, None, Some("eng")),
            (1, NO_MAX_VER), (false, false, false, true)))
    } else if id == 0x22B59D {
        Some(def(0x22B59D, "LanguageBCP47",
            "\\Segment\\Tracks\\TrackEntry\\LanguageBCP47", Some(0xAE),
            ElementType::AsciiString, (0, Some(1)), (None, None, None),
            (4, NO_MAX_VER), (false, false, false, false)))
    } else if id == 0x23314F {
        Some(def(0x23314F, "TrackTimestampScale",
            "\\Segment\\Tracks\\TrackEntry\\TrackTimestampScale", Some(0xAE),
            ElementType::Float, (1, Some(1)), (Some("> 0x0p+0"), None, Some("0x1p+0")),
            (1, 3), (false, false, false, false)))
    } else if id == 0x234E7A {
        Some(def(0x234E7A, "DefaultDecodedFieldDuration",
            "\\Segment\\Tracks\\TrackEntry\\DefaultDecodedFieldDuration", Some(0xAE),
            ElementType::Uinteger, (0, Some(1)), (Some("not 0"), None, None),
            (4, NO_MAX_VER), (false, false, false, false)))
    } else {
        None
    }
}

/// The elements from `0x2383E3` to `0x1F43B675`.
pub open spec fn rows_11(id: u32) -> Option<ElementDef> {
    if id == 0x2383E3 {
        Some(row(0x2383E3, "FrameRate",
            "\\Segment\\Tracks\\TrackEntry\\Video\\FrameRate", Some(0xE0),
            ElementType::Float, (0, Some(1)), (Some("> 0x0p+0"), None, None),
            (0, 0), (false, false, false, false)))
    } else if id == 0x23E383 {
        Some(row(0x23E383, "DefaultDuration",
            "\\Segment\\Tracks\\TrackEntry\\DefaultDuration", Some(0xAE),
            ElementType::Uinteger, (0, Some(1)), (Some("not 0"), None, None),
            (1, NO_MAX_VER), (false, false, false, true)))
    } else if id == 0x258688 {
        Some(row(0x258688, "CodecName",
            "\\Segment\\Tracks\\TrackEntry\\CodecName", Some(0xAE),
            ElementType::Utf8, (0, Some(1)), (None, None, None),
            (1, NO_MAX_VER), (false, false, false, true)))
    } else if id == 0x26B240 {
        Some(row(0x26B240, "CodecDownloadURL",
            "\\Segment\\Tracks\\TrackEntry\\CodecDownloadURL", Some(0xAE),
            ElementType::AsciiString, (0, None), (None, None, None),
            (0, 0), (false, false, false, false)))
    } else if id == 0x2AD7B1 {
        Some(row(0x2AD7B1, "TimestampScale",
            "\\Segment\\Info\\TimestampScale", Some(0x1549A966),
            ElementType::Uinteger, (1, Some(1)), (Some("not 0"), None, Some("1000000")),
            (1, NO_MAX_VER), (false, false, false, true)))
    } else if id == 0x2EB524 {
        Some(row(0x2EB524, "UncompressedFourCC",
            "\\Segment\\Tracks\\TrackEntry\\Video\\UncompressedFourCC", Some(0xE0),
            ElementType::Binary, (0, Some(1)), (None, Some("4"), None),
            (1, NO_MAX_VER), (false, false, false, false)))
    } else if id == 0x2FB523 {
        Some(row(0x2FB523, "GammaValue",
            "\\Segment\\Tracks\\TrackEntry\\Video\\GammaValue", Some(0xE0),
            ElementType::Float, (0, Some(1)), (Some("> 0x0p+0"), None, None),
            (0, 0), (false, false, false, false)))
    } else if id == 0x3A9697 {
        Some(row(0x3A9697, "CodecSettings",
            "\\Segment\\Tracks\\TrackEntry\\CodecSettings", Some(0xAE),
            ElementType::Utf8, (0, Some(1)), (None, None, None),
            (0, 0), (false, false, false, false)))
    } else if id == 0x3B4040 {
        Some(row(0x3B4040, "CodecInfoURL",
            "\\Segment\\Tracks\\TrackEntry\\CodecInfoURL", Some(0xAE),
            ElementType::AsciiString, (0, None), (None, None, None),
            (0, 0), (false, false, false, false)))
    } else if id == 0x3C83AB {
        Some(row(0x3C83AB, "PrevFilename",
            "\\Segment\\Info\\PrevFilename", Some(0x1549A966),
            ElementType::Utf8, (0, Some(1)), (None, None, None),
            (1, NO_MAX_VER), (false, false, false, false)))
    } else if id == 0x3CB923 {
        Some(row(0x3CB923, "PrevUUID",
            "\\Segment\\Info\\PrevUUID", Some(0x1549A966),
            ElementType::Binary, (0, Some(1)), (None, Some("16"), None),
            (1, NO_MAX_VER), (false, false, false, false)))
    } else if id == 0x3E83BB {
        Some(row(0x3E83BB, "NextFilename",
            "\\Segment\\Info\\NextFilename", Some(0x1549A966),
            ElementType::Utf8, (0, Some(1)), (None, None, None),
            (1, NO_MAX_VER), (false, false, false, false)))
    } else if id == 0x3EB923 {
        Some(row(0x3EB923, "NextUUID",
            "\\Segment\\Info\\NextUUID", Some(0x1549A966),
            ElementType::Binary, (0, Some(1)), (None, Some("16"), None),
            (1, NO_MAX_VER), (false, false, false, false)))
    } else if id == 0x1043A770 {
        Some(row(0x1043A770, "Chapters",
            "\\Segment\\Chapters", Some(0x18538067),
            ElementType::Master, (0, Some(1)), (None, None, None),
            (1, NO_MAX_VER), (false, true, false, true)))
    } else if id == 0x114D9B74 {
        Some(row(0x114D9B74, "SeekHead",
            "\\Segment\\SeekHead", Some(0x18538067),
            ElementType::Master, (0, Some(2)), (None, None, None),
            (1, NO_MAX_VER), (false, false, false, true)))
    } else if id == 0x1254C367 {
        Some(row(0x1254C367, "Tags",
            "\\Segment\\Tags", Some(0x18538067),
            ElementType::Master, (0, None), (None, None, None),
            (1, NO_MAX_VER), (false, false, false, true)))
    } else if id == 0x1549A966 {
        Some(row(0x1549A966, "Info",
            "\\Segment\\Info", Some(0x18538067),
            ElementType::Master, (1, Some(1)), (None, None, None),
            (1, NO_MAX_VER), (false, true, false, true)))
    } else if id == 0x1654AE6B {
        Some(row(0x1654AE6B, "Tracks",
            "\\Segment\\Tracks", Some(0x18538067),
            ElementType::Master, (0, Some(1)), (None, None, None),
            (1, NO_MAX_VER), (false, true, false, true)))
    } else if id == 0x18538067 {
        Some(row(0x18538067, "Segment",
            "\\Segment", None,
            ElementType::Master, (1, Some(1)), (None, None, None),
            (1, NO_MAX_VER), (false, false, true, true)))
    } else if id == 0x1941A469 {
        Some(row(0x1941A469, "Attachments",
            "\\Segment\\Attachments", Some(0x18538067),
            ElementType::Master, (0, Some(1)), (None, None, None),
            (1, NO_MAX_VER), (false, false, false, false)))
    } else if id == 0x1C53BB6B {
        Some(row(0x1C53BB6B, "Cues",
            "\\Segment\\Cues", Some(0x18538067),
            ElementType::Master, (0, Some(1)), (None, None, None),
            (1, NO_MAX_VER), (false, false, false, true)))
    } else if id == 0x1F43B675 {
        Some(row(0x1F43B675, "Cluster",
            "\\Segment\\Cluster", Some(0x18538067),
            ElementType::Master, (0, None), (None, None, None),
            (1, NO_MAX_VER), (false, false, true, true)))
    } else {
        None
    }
}

pub(crate) fn find_11(id: u32) -> (r: Option<ElementDef>)
    ensures
        r == rows_11(id),
{
    if id == 0x2383E3 {
        Some(def(0x2383E3, "FrameRate",
            "\\Segment\\Tracks\\TrackEntry\\Video\\FrameRate", Some(0xE0),
            ElementType::Float, (0, Some(1)), (Some("> 0x0p+0"), None, None),
            (0, 0), (false, false, false, false)))
    } else if id == 0x23E383 {
        Some(def(0x23E383, "DefaultDuration",
            "\\Segment\\Tracks\\TrackEntry\\DefaultDuration", Some(0xAE),
            ElementType::Uinteger, (0, Some(1)), (Some("not 0"), None, None),
            (1, NO_MAX_VER), (false, false, false, true)))
    } else if id == 0x258688 {
        Some(def(0x258688, "CodecName",
            "\\Segment\\Tracks\\TrackEntry\\CodecName", Some(0xAE),
            ElementType::Utf8, (0, Some(1)), (None, None, None),
            (1, NO_MAX_VER), (false, false, false, true)))
    } else if id == 0x26B240 {
        Some(def(0x26B240, "CodecDownloadURL",
            "\\Segment\\Tracks\\TrackEntry\\CodecDownloadURL", Some(0xAE),
            ElementType::AsciiString, (0, None), (None, None, None),
            (0, 0), (false, false, false, false)))
    } else if id == 0x2AD7B1 {
        Some(def(0x2AD7B1, "TimestampScale",
            "\\Segment\\Info\\TimestampScale", Some(0x1549A966),
            ElementType::Uinteger, (1, Some(1)), (Some("not 0"), None, Some("1000000")),
            (1, NO_MAX_VER), (false, false, false, true)))
    } else if id == 0x2EB524 {
        Some(def(0x2EB524, "UncompressedFourCC",
            "\\Segment\\Tracks\\TrackEntry\\Video\\UncompressedFourCC", Some(0xE0),
            ElementType::Binary, (0, Some(1)), (None, Some("4"), None),
            (1, NO_MAX_VER), (false, false, false, false)))
    } else if id == 0x2FB523 {
        Some(def(0x2FB523, "GammaValue",
            "\\Segment\\Tracks\\TrackEntry\\Video\\GammaValue", Some(0xE0),
            ElementType::Float, (0, Some(1)), (Some("> 0x0p+0"), None, None),
            (0, 0), (false, false, false, false)))
    } else if id == 0x3A9697 {
        Some(def(0x3A9697, "CodecSettings",
            "\\Segment\\Tracks\\TrackEntry\\CodecSettings", Some(0xAE),
            ElementType::Utf8, (0, Some(1)), (None, None, None),
            (0, 0), (false, false, false, false)))
    } else if id == 0x3B4040 {
        Some(def(0x3B4040, "CodecInfoURL",
            "\\Segment\\Tracks\\TrackEntry\\CodecInfoURL", Some(0xAE),
            ElementType::AsciiString, (0, None), (None, None, None),
            (0, 0), (false, false, false, false)))
    } else if id == 0x3C83AB {
        Some(def(0x3C83AB, "PrevFilename",
            "\\Segment\\Info\\PrevFilename", Some(0x1549A966),
            ElementType::Utf8, (0, Some(1)), (None, None, None),
            (1, NO_MAX_VER), (false, false, false, false)))
    } else if id == 0x3CB923 {
        Some(def(0x3CB923, "PrevUUID",
            "\\Segment\\Info\\PrevUUID", Some(0x1549A966),
            ElementType::Binary, (0, Some(1)), (None, Some("16"), None),
            (1, NO_MAX_VER), (false, false, false, false)))
    } else if id == 0x3E83BB {
        Some(def(0x3E83BB, "NextFilename",
            "\\Segment\\Info\\NextFilename", Some(0x1549A966),
            ElementType::Utf8, (0, Some(1)), (None, None, None),
            (1, NO_MAX_VER), (false, false, false, false)))
    } else if id == 0x3EB923 {
        Some(def(0x3EB923, "NextUUID",
            "\\Segment\\Info\\NextUUID", Some(0x1549A966),
            ElementType::Binary, (0, Some(1)), (None, Some("16"), None),
            (1, NO_MAX_VER), (false, false, false, false)))
    } else if id == 0x1043A770 {
        Some(def(0x1043A770, "Chapters",
            "\\Segment\\Chapters", Some(0x18538067),
            ElementType::Master, (0, Some(1)), (None, None, None),
            (1, NO_MAX_VER), (false, true, false, true)))
    } else if id == 0x114D9B74 {
        Some(def(0x114D9B74, "SeekHead",
            "\\Segment\\SeekHead", Some(0x18538067),
            ElementType::Master, (0, Some(2)), (None, None, None),
            (1, NO_MAX_VER), (false, false, false, true)))
    } else if id == 0x1254C367 {
        Some(def(0x1254C367, "Tags",
            "\\Segment\\Tags", Some(0x18538067),
            ElementType::Master, (0, None), (None, None, None),
            (1, NO_MAX_VER), (false, false, false, true)))
    } else if id == 0x1549A966 {
        Some(def(0x1549A966, "Info",
            "\\Segment\\Info", Some(0x18538067),
            ElementType::Master, (1, Some(1)), (None, None, None),
            (1, NO_MAX_VER), (false, true, false, true)))
    } else if id == 0x1654AE6B {
        Some(def(0x1654AE6B, "Tracks",
            "\\Segment\\Tracks", Some(0x18538067),
            ElementType::Master, (0, Some(1)), (None, None, None),
            (1, NO_MAX_VER), (false, true, false, true)))
    } else if id == 0x18538067 {
        Some(def(0x18538067, "Segment",
            "\\Segment", None,
            ElementType::Master, (1, Some(1)), (None, None, None),
            (1, NO_MAX_VER), (false, false, true, true)))
    } else if id == 0x1941A469 {
        Some(def(0x1941A469, "Attachments",
            "\\Segment\\Attachments", Some(0x18538067),
            ElementType::Master, (0, Some(1)), (None, None, None),
            (1, NO_MAX_VER), (false, false, false, false)))
    } else if id == 0x1C53BB6B {
        Some(def(0x1C53BB6B, "Cues",
            "\\Segment\\Cues", Some(0x18538067),
            ElementType::Master, (0, Some(1)), (None, None, None),
            (1, NO_MAX_VER), (false, false, false, true)))
    } else if id == 0x1F43B675 {
        Some(def(0x1F43B675, "Cluster",
            "\\Segment\\Cluster", Some(0x18538067),
            ElementType::Master, (0, None), (None, None, None),
            (1, NO_MAX_VER), (false, false, true, true)))
    } else {
        None
    }
}

/// The elements of the EBML header, and those that can stand anywhere.
pub open spec fn supplement_rows(id: u32) -> Option<ElementDef> {
    if id == 0xBF {
        Some(row(0xBF, "CRC-32",
            "\\(-\\)CRC-32", None,
            ElementType::Binary, (0, Some(1)), (None, Some("4"), None),
            (1, NO_MAX_VER), (false, false, false, false)))
    } else if id == 0xEC {
        Some(row(0xEC, "Void",
            "\\(-\\)Void", None,
            ElementType::Binary, (0, None), (None, None, None),
            (1, NO_MAX_VER), (false, false, false, true)))
    } else if id == 0x4281 {
        Some(row(0x4281, "DocTypeExtension",
            "\\EBML\\DocTypeExtension", Some(0x1A45DFA3),
            ElementType::Master, (0, None), (None, None, None),
            (1, NO_MAX_VER), (false, false, false, false)))
    } else if id == 0x4282 {
        Some(row(0x4282, "DocType",
            "\\EBML\\DocType", Some(0x1A45DFA3),
            ElementType::AsciiString, (1, Some(1)), (None, Some(">0"), None),
            (1, NO_MAX_VER), (false, false, false, true)))
    } else if id == 0x4283 {
        Some(row(0x4283, "DocTypeExtensionName",
            "\\EBML\\DocTypeExtension\\DocTypeExtensionName", Some(0x4281),
            ElementType::AsciiString, (1, Some(1)), (None, Some(">0"), None),
            (1, NO_MAX_VER), (false, false, false, false)))
    } else if id == 0x4284 {
        Some(row(0x4284, "DocTypeExtensionVersion",
            "\\EBML\\DocTypeExtension\\DocTypeExtensionVersion", Some(0x4281),
            ElementType::Uinteger, (1, Some(1)), (Some("not 0"), None, None),
            (1, NO_MAX_VER), (false, false, false, false)))
    } else if id == 0x4285 {
        Some(row(0x4285, "DocTypeReadVersion",
            "\\EBML\\DocTypeReadVersion", Some(0x1A45DFA3),
            ElementType::Uinteger, (1, Some(1)), (Some("not 0"), None, Some("1")),
            (1, NO_MAX_VER), (false, false, false, true)))
    } else if id == 0x4286 {
        Some(row(0x4286, "EBMLVersion",
            "\\EBML\\EBMLVersion", Some(0x1A45DFA3),
            ElementType::Uinteger, (1, Some(1)), (Some("not 0"), None, Some("1")),
            (1, NO_MAX_VER), (false, false, false, true)))
    } else if id == 0x4287 {
        Some(row(0x4287, "DocTypeVersion",
            "\\EBML\\DocTypeVersion", Some(0x1A45DFA3),
            ElementType::Uinteger, (1, Some(1)), (Some("not 0"), None, Some("1")),
            (1, NO_MAX_VER), (false, false, false, true)))
    } else if id == 0x42F7 {
        Some(row(0x42F7, "EBMLReadVersion",
            "\\EBML\\EBMLReadVersion", Some(0x1A45DFA3),
            ElementType::Uinteger, (1, Some(1)), (Some("1"), None, Some("1")),
            (1, NO_MAX_VER), (false, false, false, true)))
    } else if id == 0x1A45DFA3 {
        Some(row(0x1A45DFA3, "EBML",
            "\\EBML", None,
            ElementType::Master, (1, None), (None, None, None),
            (1, NO_MAX_VER), (false, false, false, true)))
    } else {
        None
    }
}

pub(crate) fn find_supplement(id: u32) -> (r: Option<ElementDef>)
    ensures
        r == supplement_rows(id),
{
    if id == 0xBF {
        Some(def(0xBF, "CRC-32",
            "\\(-\\)CRC-32", None,
            ElementType::Binary, (0, Some(1)), (None, Some("4"), None),
            (1, NO_MAX_VER), (false, false, false, false)))
    } else if id == 0xEC {
        Some(def(0xEC, "Void",
            "\\(-\\)Void", None,
            ElementType::Binary, (0, None), (None, None, None),
            (1, NO_MAX_VER), (false, false, false, true)))
    } else if id == 0x4281 {
        Some(def(0x4281, "DocTypeExtension",
            "\\EBML\\DocTypeExtension", Some(0x1A45DFA3),
            ElementType::Master, (0, None), (None, None, None),
            (1, NO_MAX_VER), (false, false, false, false)))
    } else if id == 0x4282 {
        Some(def(0x4282, "DocType",
            "\\EBML\\DocType", Some(0x1A45DFA3),
            ElementType::AsciiString, (1, Some(1)), (None, Some(">0"), None),
            (1, NO_MAX_VER), (false, false, false, true)))
    } else if id == 0x4283 {
        Some(def(0x4283, "DocTypeExtensionName",
            "\\EBML\\DocTypeExtension\\DocTypeExtensionName", Some(0x4281),
            ElementType::AsciiString, (1, Some(1)), (None, Some(">0"), None),
            (1, NO_MAX_VER), (false, false, false, false)))
    } else if id == 0x4284 {
        Some(def(0x4284, "DocTypeExtensionVersion",
            "\\EBML\\DocTypeExtension\\DocTypeExtensionVersion", Some(0x4281),
            ElementType::Uinteger, (1, Some(1)), (Some("not 0"), None, None),
            (1, NO_MAX_VER), (false, false, false, false)))
    } else if id == 0x4285 {
        Some(def(0x4285, "DocTypeReadVersion",
            "\\EBML\\DocTypeReadVersion", Some(0x1A45DFA3),
            ElementType::Uinteger, (1, Some(1)), (Some("not 0"), None, Some("1")),
            (1, NO_MAX_VER), (false, false, false, true)))
    } else if id == 0x4286 {
        Some(def(0x4286, "EBMLVersion",
            "\\EBML\\EBMLVersion", Some(0x1A45DFA3),
            ElementType::Uinteger, (1, Some(1)), (Some("not 0"), None, Some("1")),
            (1, NO_MAX_VER), (false, false, false, true)))
    } else if id == 0x4287 {
        Some(def(0x4287, "DocTypeVersion",
            "\\EBML\\DocTypeVersion", Some(0x1A45DFA3),
            ElementType::Uinteger, (1, Some(1)), (Some("not 0"), None, Some("1")),
            (1, NO_MAX_VER), (false, false, false, true)))
    } else if id == 0x42F7 {
        Some(def(0x42F7, "EBMLReadVersion",
            "\\EBML\\EBMLReadVersion", Some(0x1A45DFA3),
            ElementType::Uinteger, (1, Some(1)), (Some("1"), None, Some("1")),
            (1, NO_MAX_VER), (false, false, false, true)))
    } else if id == 0x1A45DFA3 {
        Some(def(0x1A45DFA3, "EBML",
            "\\EBML", None,
            ElementType::Master, (1, None), (None, None, None),
            (1, NO_MAX_VER), (false, false, false, true)))
    } else {
        None
    }
}

// ---------------------------------------------------------------------------
// IDs.

/// The IDs of the elements from `0x80` to `0xA5`.
pub open spec fn ids_1() -> Seq<u32> {
    seq![
        0x80, 0x83, 0x85, 0x86, 0x88, 0x89, 0x8E, 0x8F, 0x91, 0x92, 0x96, 0x97, 0x98, 0x9A, 0x9B,
        0x9C, 0x9D, 0x9F, 0xA0, 0xA1, 0xA2, 0xA3, 0xA4, 0xA5,
    ]
}

pub(crate) fn list_1() -> (r: Vec<u32>)
    ensures
        r@ == ids_1(),
{
    let r: Vec<u32> = vec![
        0x80, 0x83, 0x85, 0x86, 0x88, 0x89, 0x8E, 0x8F, 0x91, 0x92, 0x96, 0x97, 0x98, 0x9A, 0x9B,
        0x9C, 0x9D, 0x9F, 0xA0, 0xA1, 0xA2, 0xA3, 0xA4, 0xA5,
    ];
    assert(r@ =~= ids_1());
    r
}

pub(crate) proof fn lemma_ids_1()
    ensures
        in_order(ids_1()),
        forall|i: int|
            0 <= i < ids_1().len() ==> (rows_1(#[trigger] ids_1()[i]) matches Some(r) && r.id
                == ids_1()[i]),
        forall|i: int|
            0 <= i < ids_1().len() ==> 0x80 <= #[trigger] ids_1()[i] <= 0xA5,
        forall|id: u32| (#[trigger] rows_1(id)) is Some ==> ids_1().contains(id),
{
    let s = ids_1();
    assert forall|id: u32| (#[trigger] rows_1(id)) is Some implies s.contains(id) by {
        assert(s[0] == 0x80);
        assert(s[1] == 0x83);
        assert(s[2] == 0x85);
        assert(s[3] == 0x86);
        assert(s[4] == 0x88);
        assert(s[5] == 0x89);
        assert(s[6] == 0x8E);
        assert(s[7] == 0x8F);
        assert(s[8] == 0x91);
        assert(s[9] == 0x92);
        assert(s[10] == 0x96);
        assert(s[11] == 0x97);
        assert(s[12] == 0x98);
        assert(s[13] == 0x9A);
        assert(s[14] == 0x9B);
        assert(s[15] == 0x9C);
        assert(s[16] == 0x9D);
        assert(s[17] == 0x9F);
        assert(s[18] == 0xA0);
        assert(s[19] == 0xA1);
        assert(s[20] == 0xA2);
        assert(s[21] == 0xA3);
        assert(s[22] == 0xA4);
        assert(s[23] == 0xA5);
    }
}

/// The IDs of the elements from `0xA6` to `0xCB`.
pub open spec fn ids_2() -> Seq<u32> {
    seq![
        0xA6, 0xA7, 0xAA, 0xAB, 0xAE, 0xAF, 0xB0, 0xB2, 0xB3, 0xB5, 0xB6, 0xB7, 0xB9, 0xBA, 0xBB,
        0xC0, 0xC1, 0xC4, 0xC6, 0xC7, 0xC8, 0xC9, 0xCA, 0xCB,
    ]
}

pub(crate) fn list_2() -> (r: Vec<u32>)
    ensures
        r@ == ids_2(),
{
    let r: Vec<u32> = vec![
        0xA6, 0xA7, 0xAA, 0xAB, 0xAE, 0xAF, 0xB0, 0xB2, 0xB3, 0xB5, 0xB6, 0xB7, 0xB9, 0xBA, 0xBB,
        0xC0, 0xC1, 0xC4, 0xC6, 0xC7, 0xC8, 0xC9, 0xCA, 0xCB,
    ];
    assert(r@ =~= ids_2());
    r
}

pub(crate) proof fn lemma_ids_2()
    ensures
        in_order(ids_2()),
        forall|i: int|
            0 <= i < ids_2().len() ==> (rows_2(#[trigger] ids_2()[i]) matches Some(r) && r.id
                == ids_2()[i]),
        forall|i: int|
            0 <= i < ids_2().len() ==> 0xA6 <= #[trigger] ids_2()[i] <= 0xCB,
        forall|id: u32| (#[trigger] rows_2(id)) is Some ==> ids_2().contains(id),
{
    let s = ids_2();
    assert forall|id: u32| (#[trigger] rows_2(id)) is Some implies s.contains(id) by {
        assert(s[0] == 0xA6);
        assert(s[1] == 0xA7);
        assert(s[2] == 0xAA);
        assert(s[3] == 0xAB);
        assert(s[4] == 0xAE);
        assert(s[5] == 0xAF);
        assert(s[6] == 0xB0);
        assert(s[7] == 0xB2);
        assert(s[8] == 0xB3);
        assert(s[9] == 0xB5);
        assert(s[10] == 0xB6);
        assert(s[11] == 0xB7);
        assert(s[12] == 0xB9);
        assert(s[13] == 0xBA);
        assert(s[14] == 0xBB);
        assert(s[15] == 0xC0);
        assert(s[16] == 0xC1);
        assert(s[17] == 0xC4);
        assert(s[18] == 0xC6);
        assert(s[19] == 0xC7);
        assert(s[20] == 0xC8);
        assert(s[21] == 0xC9);
        assert(s[22] == 0xCA);
        assert(s[23] == 0xCB);
    }
}

/// The IDs of the elements from `0xCC` to `0xFA`.
pub open spec fn ids_3() -> Seq<u32> {
    seq![
        0xCC, 0xCD, 0xCE, 0xCF, 0xD7, 0xDB, 0xE0, 0xE1, 0xE2, 0xE3, 0xE4, 0xE5, 0xE6, 0xE7, 0xE8,
        0xE9, 0xEA, 0xEB, 0xED, 0xEE, 0xF0, 0xF1, 0xF7, 0xFA,
    ]
}

pub(crate) fn list_3() -> (r: Vec<u32>)
    ensures
        r@ == ids_3(),
{
    let r: Vec<u32> = vec![
        0xCC, 0xCD, 0xCE, 0xCF, 0xD7, 0xDB, 0xE0, 0xE1, 0xE2, 0xE3, 0xE4, 0xE5, 0xE6, 0xE7, 0xE8,
        0xE9, 0xEA, 0xEB, 0xED, 0xEE, 0xF0, 0xF1, 0xF7, 0xFA,
    ];
    assert(r@ =~= ids_3());
    r
}

pub(crate) proof fn lemma_ids_3()
    ensures
        in_order(ids_3()),
        forall|i: int|
            0 <= i < ids_3().len() ==> (rows_3(#[trigger] ids_3()[i]) matches Some(r) && r.id
                == ids_3()[i]),
        forall|i: int|
            0 <= i < ids_3().len() ==> 0xCC <= #[trigger] ids_3()[i] <= 0xFA,
        forall|id: u32| (#[trigger] rows_3(id)) is Some ==> ids_3().contains(id),
{
    let s = ids_3();
    assert forall|id: u32| (#[trigger] rows_3(id)) is Some implies s.contains(id) by {
        assert(s[0] == 0xCC);
        assert(s[1] == 0xCD);
        assert(s[2] == 0xCE);
        assert(s[3] == 0xCF);
        assert(s[4] == 0xD7);
        assert(s[5] == 0xDB);
        assert(s[6] == 0xE0);
        assert(s[7] == 0xE1);
        assert(s[8] == 0xE2);
        assert(s[9] == 0xE3);
        assert(s[10] == 0xE4);
        assert(s[11] == 0xE5);
        assert(s[12] == 0xE6);
        assert(s[13] == 0xE7);
        assert(s[14] == 0xE8);
        assert(s[15] == 0xE9);
        assert(s[16] == 0xEA);
        assert(s[17] == 0xEB);
        assert(s[18] == 0xED);
        assert(s[19] == 0xEE);
        assert(s[20] == 0xF0);
        assert(s[21] == 0xF1);
        assert(s[22] == 0xF7);
        assert(s[23] == 0xFA);
    }
}

/// The IDs of the elements from `0xFB` to `0x450D`.
pub open spec fn ids_4() -> Seq<u32> {
    seq![
        0xFB, 0xFD, 0x41A4, 0x41E4, 0x41E7, 0x41ED, 0x41F0, 0x4254, 0x4255, 0x42F2, 0x42F3, 0x437C,
        0x437D, 0x437E, 0x4444, 0x4461, 0x447A, 0x447B, 0x4484, 0x4485, 0x4487, 0x4489, 0x44B4,
        0x450D,
    ]
}

pub(crate) fn list_4() -> (r: Vec<u32>)
    ensures
        r@ == ids_4(),
{
    let r: Vec<u32> = vec![
        0xFB, 0xFD, 0x41A4, 0x41E4, 0x41E7, 0x41ED, 0x41F0, 0x4254, 0x4255, 0x42F2, 0x42F3, 0x437C,
        0x437D, 0x437E, 0x4444, 0x4461, 0x447A, 0x447B, 0x4484, 0x4485, 0x4487, 0x4489, 0x44B4,
        0x450D,
    ];
    assert(r@ =~= ids_4());
    r
}

pub(crate) proof fn lemma_ids_4()
    ensures
        in_order(ids_4()),
        forall|i: int|
            0 <= i < ids_4().len() ==> (rows_4(#[trigger] ids_4()[i]) matches Some(r) && r.id
                == ids_4()[i]),
        forall|i: int|
            0 <= i < ids_4().len() ==> 0xFB <= #[trigger] ids_4()[i] <= 0x450D,
        forall|id: u32| (#[trigger] rows_4(id)) is Some ==> ids_4().contains(id),
{
    let s = ids_4();
    assert forall|id: u32| (#[trigger] rows_4(id)) is Some implies s.contains(id) by {
        assert(s[0] == 0xFB);
        assert(s[1] == 0xFD);
        assert(s[2] == 0x41A4);
        assert(s[3] == 0x41E4);
        assert(s[4] == 0x41E7);
        assert(s[5] == 0x41ED);
        assert(s[6] == 0x41F0);
        assert(s[7] == 0x4254);
        assert(s[8] == 0x4255);
        assert(s[9] == 0x42F2);
        assert(s[10] == 0x42F3);
        assert(s[11] == 0x437C);
        assert(s[12] == 0x437D);
        assert(s[13] == 0x437E);
        assert(s[14] == 0x4444);
        assert(s[15] == 0x4461);
        assert(s[16] == 0x447A);
        assert(s[17] == 0x447B);
        assert(s[18] == 0x4484);
        assert(s[19] == 0x4485);
        assert(s[20] == 0x4487);
        assert(s[21] == 0x4489);
        assert(s[22] == 0x44B4);
        assert(s[23] == 0x450D);
    }
}

/// The IDs of the elements from `0x4520` to `0x47E5`.
pub open spec fn ids_5() -> Seq<u32> {
    seq![
        0x4520, 0x4521, 0x4588, 0x4598, 0x45A3, 0x45B9, 0x45BC, 0x45BD, 0x45DB, 0x45DD, 0x45E4,
        0x465C, 0x4660, 0x4661, 0x4662, 0x466E, 0x4675, 0x467E, 0x46AE, 0x47E1, 0x47E2, 0x47E3,
        0x47E4, 0x47E5,
    ]
}

pub(crate) fn list_5() -> (r: Vec<u32>)
    ensures
        r@ == ids_5(),
{
    let r: Vec<u32> = vec![
        0x4520, 0x4521, 0x4588, 0x4598, 0x45A3, 0x45B9, 0x45BC, 0x45BD, 0x45DB, 0x45DD, 0x45E4,
        0x465C, 0x4660, 0x4661, 0x4662, 0x466E, 0x4675, 0x467E, 0x46AE, 0x47E1, 0x47E2, 0x47E3,
        0x47E4, 0x47E5,
    ];
    assert(r@ =~= ids_5());
    r
}

pub(crate) proof fn lemma_ids_5()
    ensures
        in_order(ids_5()),
        forall|i: int|
            0 <= i < ids_5().len() ==> (rows_5(#[trigger] ids_5()[i]) matches Some(r) && r.id
                == ids_5()[i]),
        forall|i: int|
            0 <= i < ids_5().len() ==> 0x4520 <= #[trigger] ids_5()[i] <= 0x47E5,
        forall|id: u32| (#[trigger] rows_5(id)) is Some ==> ids_5().contains(id),
{
    let s = ids_5();
    assert forall|id: u32| (#[trigger] rows_5(id)) is Some implies s.contains(id) by {
        assert(s[0] == 0x4520);
        assert(s[1] == 0x4521);
        assert(s[2] == 0x4588);
        assert(s[3] == 0x4598);
        assert(s[4] == 0x45A3);
        assert(s[5] == 0x45B9);
        assert(s[6] == 0x45BC);
        assert(s[7] == 0x45BD);
        assert(s[8] == 0x45DB);
        assert(s[9] == 0x45DD);
        assert(s[10] == 0x45E4);
        assert(s[11] == 0x465C);
        assert(s[12] == 0x4660);
        assert(s[13] == 0x4661);
        assert(s[14] == 0x4662);
        assert(s[15] == 0x466E);
        assert(s[16] == 0x4675);
        assert(s[17] == 0x467E);
        assert(s[18] == 0x46AE);
        assert(s[19] == 0x47E1);
        assert(s[20] == 0x47E2);
        assert(s[21] == 0x47E3);
        assert(s[22] == 0x47E4);
        assert(s[23] == 0x47E5);
    }
}

/// The IDs of the elements from `0x47E6` to `0x54B3`.
pub open spec fn ids_6() -> Seq<u32> {
    seq![
        0x47E6, 0x47E7, 0x47E8, 0x4D80, 0x4DBB, 0x5031, 0x5032, 0x5033, 0x5034, 0x5035, 0x52F1,
        0x535F, 0x536E, 0x5378, 0x537F, 0x53AB, 0x53AC, 0x53B8, 0x53B9, 0x53C0, 0x54AA, 0x54B0,
        0x54B2, 0x54B3,
    ]
}

pub(crate) fn list_6() -> (r: Vec<u32>)
    ensures
        r@ == ids_6(),
{
    let r: Vec<u32> = vec![
        0x47E6, 0x47E7, 0x47E8, 0x4D80, 0x4DBB, 0x5031, 0x5032, 0x5033, 0x5034, 0x5035, 0x52F1,
        0x535F, 0x536E, 0x5378, 0x537F, 0x53AB, 0x53AC, 0x53B8, 0x53B9, 0x53C0, 0x54AA, 0x54B0,
        0x54B2, 0x54B3,
    ];
    assert(r@ =~= ids_6());
    r
}

pub(crate) proof fn lemma_ids_6()
    ensures
        in_order(ids_6()),
        forall|i: int|
            0 <= i < ids_6().len() ==> (rows_6(#[trigger] ids_6()[i]) matches Some(r) && r.id
                == ids_6()[i]),
        forall|i: int|
            0 <= i < ids_6().len() ==> 0x47E6 <= #[trigger] ids_6()[i] <= 0x54B3,
        forall|id: u32| (#[trigger] rows_6(id)) is Some ==> ids_6().contains(id),
{
    let s = ids_6();
    assert forall|id: u32| (#[trigger] rows_6(id)) is Some implies s.contains(id) by {
        assert(s[0] == 0x47E6);
        assert(s[1] == 0x47E7);
        assert(s[2] == 0x47E8);
        assert(s[3] == 0x4D80);
        assert(s[4] == 0x4DBB);
        assert(s[5] == 0x5031);
        assert(s[6] == 0x5032);
        assert(s[7] == 0x5033);
        assert(s[8] == 0x5034);
        assert(s[9] == 0x5035);
        assert(s[10] == 0x52F1);
        assert(s[11] == 0x535F);
        assert(s[12] == 0x536E);
        assert(s[13] == 0x5378);
        assert(s[14] == 0x537F);
        assert(s[15] == 0x53AB);
        assert(s[16] == 0x53AC);
        assert(s[17] == 0x53B8);
        assert(s[18] == 0x53B9);
        assert(s[19] == 0x53C0);
        assert(s[20] == 0x54AA);
        assert(s[21] == 0x54B0);
        assert(s[22] == 0x54B2);
        assert(s[23] == 0x54B3);
    }
}

/// The IDs of the elements from `0x54BA` to `0x55BD`.
pub open spec fn ids_7() -> Seq<u32> {
    seq![
        0x54BA, 0x54BB, 0x54CC, 0x54DD, 0x55AA, 0x55AB, 0x55AC, 0x55AD, 0x55AE, 0x55AF, 0x55B0,
        0x55B1, 0x55B2, 0x55B3, 0x55B4, 0x55B5, 0x55B6, 0x55B7, 0x55B8, 0x55B9, 0x55BA, 0x55BB,
        0x55BC, 0x55BD,
    ]
}

pub(crate) fn list_7() -> (r: Vec<u32>)
    ensures
        r@ == ids_7(),
{
    let r: Vec<u32> = vec![
        0x54BA, 0x54BB, 0x54CC, 0x54DD, 0x55AA, 0x55AB, 0x55AC, 0x55AD, 0x55AE, 0x55AF, 0x55B0,
        0x55B1, 0x55B2, 0x55B3, 0x55B4, 0x55B5, 0x55B6, 0x55B7, 0x55B8, 0x55B9, 0x55BA, 0x55BB,
        0x55BC, 0x55BD,
    ];
    assert(r@ =~= ids_7());
    r
}

pub(crate) proof fn lemma_ids_7()
    ensures
        in_order(ids_7()),
        forall|i: int|
            0 <= i < ids_7().len() ==> (rows_7(#[trigger] ids_7()[i]) matches Some(r) && r.id
                == ids_7()[i]),
        forall|i: int|
            0 <= i < ids_7().len() ==> 0x54BA <= #[trigger] ids_7()[i] <= 0x55BD,
        forall|id: u32| (#[trigger] rows_7(id)) is Some ==> ids_7().contains(id),
{
    let s = ids_7();
    assert forall|id: u32| (#[trigger] rows_7(id)) is Some implies s.contains(id) by {
        assert(s[0] == 0x54BA);
        assert(s[1] == 0x54BB);
        assert(s[2] == 0x54CC);
        assert(s[3] == 0x54DD);
        assert(s[4] == 0x55AA);
        assert(s[5] == 0x55AB);
        assert(s[6] == 0x55AC);
        assert(s[7] == 0x55AD);
        assert(s[8] == 0x55AE);
        assert(s[9] == 0x55AF);
        assert(s[10] == 0x55B0);
        assert(s[11] == 0x55B1);
        assert(s[12] == 0x55B2);
        assert(s[13] == 0x55B3);
        assert(s[14] == 0x55B4);
        assert(s[15] == 0x55B5);
        assert(s[16] == 0x55B6);
        assert(s[17] == 0x55B7);
        assert(s[18] == 0x55B8);
        assert(s[19] == 0x55B9);
        assert(s[20] == 0x55BA);
        assert(s[21] == 0x55BB);
        assert(s[22] == 0x55BC);
        assert(s[23] == 0x55BD);
    }
}

/// The IDs of the elements from `0x55D0` to `0x63C3`.
pub open spec fn ids_8() -> Seq<u32> {
    seq![
        0x55D0, 0x55D1, 0x55D2, 0x55D3, 0x55D4, 0x55D5, 0x55D6, 0x55D7, 0x55D8, 0x55D9, 0x55DA,
        0x55EE, 0x5654, 0x56AA, 0x56BB, 0x5741, 0x5854, 0x58D7, 0x61A7, 0x6240, 0x6264, 0x63A2,
        0x63C0, 0x63C3,
    ]
}

pub(crate) fn list_8() -> (r: Vec<u32>)
    ensures
        r@ == ids_8(),
{
    let r: Vec<u32> = vec![
        0x55D0, 0x55D1, 0x55D2, 0x55D3, 0x55D4, 0x55D5, 0x55D6, 0x55D7, 0x55D8, 0x55D9, 0x55DA,
        0x55EE, 0x5654, 0x56AA, 0x56BB, 0x5741, 0x5854, 0x58D7, 0x61A7, 0x6240, 0x6264, 0x63A2,
        0x63C0, 0x63C3,
    ];
    assert(r@ =~= ids_8());
    r
}

pub(crate) proof fn lemma_ids_8()
    ensures
        in_order(ids_8()),
        forall|i: int|
            0 <= i < ids_8().len() ==> (rows_8(#[trigger] ids_8()[i]) matches Some(r) && r.id
                == ids_8()[i]),
        forall|i: int|
            0 <= i < ids_8().len() ==> 0x55D0 <= #[trigger] ids_8()[i] <= 0x63C3,
        forall|id: u32| (#[trigger] rows_8(id)) is Some ==> ids_8().contains(id),
{
    let s = ids_8();
    assert forall|id: u32| (#[trigger] rows_8(id)) is Some implies s.contains(id) by {
        assert(s[0] == 0x55D0);
        assert(s[1] == 0x55D1);
        assert(s[2] == 0x55D2);
        assert(s[3] == 0x55D3);
        assert(s[4] == 0x55D4);
        assert(s[5] == 0x55D5);
        assert(s[6] == 0x55D6);
        assert(s[7] == 0x55D7);
        assert(s[8] == 0x55D8);
        assert(s[9] == 0x55D9);
        assert(s[10] == 0x55DA);
        assert(s[11] == 0x55EE);
        assert(s[12] == 0x5654);
        assert(s[13] == 0x56AA);
        assert(s[14] == 0x56BB);
        assert(s[15] == 0x5741);
        assert(s[16] == 0x5854);
        assert(s[17] == 0x58D7);
        assert(s[18] == 0x61A7);
        assert(s[19] == 0x6240);
        assert(s[20] == 0x6264);
        assert(s[21] == 0x63A2);
        assert(s[22] == 0x63C0);
        assert(s[23] == 0x63C3);
    }
}

/// The IDs of the elements from `0x63C4` to `0x6DF8`.
pub open spec fn ids_9() -> Seq<u32> {
    seq![
        0x63C4, 0x63C5, 0x63C6, 0x63C7, 0x63C9, 0x63CA, 0x6624, 0x66A5, 0x66BF, 0x66FC, 0x67C8,
        0x68CA, 0x6911, 0x6922, 0x6924, 0x6933, 0x6944, 0x6955, 0x69A5, 0x69BF, 0x69FC, 0x6D80,
        0x6DE7, 0x6DF8,
    ]
}

pub(crate) fn list_9() -> (r: Vec<u32>)
    ensures
        r@ == ids_9(),
{
    let r: Vec<u32> = vec![
        0x63C4, 0x63C5, 0x63C6, 0x63C7, 0x63C9, 0x63CA, 0x6624, 0x66A5, 0x66BF, 0x66FC, 0x67C8,
        0x68CA, 0x6911, 0x6922, 0x6924, 0x6933, 0x6944, 0x6955, 0x69A5, 0x69BF, 0x69FC, 0x6D80,
        0x6DE7, 0x6DF8,
    ];
    assert(r@ =~= ids_9());
    r
}

pub(crate) proof fn lemma_ids_9()
    ensures
        in_order(ids_9()),
        forall|i: int|
            0 <= i < ids_9().len() ==> (rows_9(#[trigger] ids_9()[i]) matches Some(r) && r.id
                == ids_9()[i]),
        forall|i: int|
            0 <= i < ids_9().len() ==> 0x63C4 <= #[trigger] ids_9()[i] <= 0x6DF8,
        forall|id: u32| (#[trigger] rows_9(id)) is Some ==> ids_9().contains(id),
{
    let s = ids_9();
    assert forall|id: u32| (#[trigger] rows_9(id)) is Some implies s.contains(id) by {
        assert(s[0] == 0x63C4);
        assert(s[1] == 0x63C5);
        assert(s[2] == 0x63C6);
        assert(s[3] == 0x63C7);
        assert(s[4] == 0x63C9);
        assert(s[5] == 0x63CA);
        assert(s[6] == 0x6624);
        assert(s[7] == 0x66A5);
        assert(s[8] == 0x66BF);
        assert(s[9] == 0x66FC);
        assert(s[10] == 0x67C8);
        assert(s[11] == 0x68CA);
        assert(s[12] == 0x6911);
        assert(s[13] == 0x6922);
        assert(s[14] == 0x6924);
        assert(s[15] == 0x6933);
        assert(s[16] == 0x6944);
        assert(s[17] == 0x6955);
        assert(s[18] == 0x69A5);
        assert(s[19] == 0x69BF);
        assert(s[20] == 0x69FC);
        assert(s[21] == 0x6D80);
        assert(s[22] == 0x6DE7);
        assert(s[23] == 0x6DF8);
    }
}

/// The IDs of the elements from `0x6E67` to `0x234E7A`.
pub open spec fn ids_10() -> Seq<u32> {
    seq![
        0x6E67, 0x6EBC, 0x6FAB, 0x7373, 0x7384, 0x73A4, 0x73C4, 0x73C5, 0x7446, 0x75A1, 0x75A2,
        0x7670, 0x7671, 0x7672, 0x7673, 0x7674, 0x7675, 0x78B5, 0x7BA9, 0x7D7B, 0x22B59C, 0x22B59D,
        0x23314F, 0x234E7A,
    ]
}

pub(crate) fn list_10() -> (r: Vec<u32>)
    ensures
        r@ == ids_10(),
{
    let r: Vec<u32> = vec![
        0x6E67, 0x6EBC, 0x6FAB, 0x7373, 0x7384, 0x73A4, 0x73C4, 0x73C5, 0x7446, 0x75A1, 0x75A2,
        0x7670, 0x7671, 0x7672, 0x7673, 0x7674, 0x7675, 0x78B5, 0x7BA9, 0x7D7B, 0x22B59C, 0x22B59D,
        0x23314F, 0x234E7A,
    ];
    assert(r@ =~= ids_10());
    r
}

pub(crate) proof fn lemma_ids_10()
    ensures
        in_order(ids_10()),
        forall|i: int|
            0 <= i < ids_10().len() ==> (rows_10(#[trigger] ids_10()[i]) matches Some(r) && r.id
                == ids_10()[i]),
        forall|i: int|
            0 <= i < ids_10().len() ==> 0x6E67 <= #[trigger] ids_10()[i] <= 0x234E7A,
        forall|id: u32| (#[trigger] rows_10(id)) is Some ==> ids_10().contains(id),
{
    let s = ids_10();
    assert forall|id: u32| (#[trigger] rows_10(id)) is Some implies s.contains(id) by {
        assert(s[0] == 0x6E67);
        assert(s[1] == 0x6EBC);
        assert(s[2] == 0x6FAB);
        assert(s[3] == 0x7373);
        assert(s[4] == 0x7384);
        assert(s[5] == 0x73A4);
        assert(s[6] == 0x73C4);
        assert(s[7] == 0x73C5);
        assert(s[8] == 0x7446);
        assert(s[9] == 0x75A1);
        assert(s[10] == 0x75A2);
        assert(s[11] == 0x7670);
        assert(s[12] == 0x7671);
        assert(s[13] == 0x7672);
        assert(s[14] == 0x7673);
        assert(s[15] == 0x7674);
        assert(s[16] == 0x7675);
        assert(s[17] == 0x78B5);
        assert(s[18] == 0x7BA9);
        assert(s[19] == 0x7D7B);
        assert(s[20] == 0x22B59C);
        assert(s[21] == 0x22B59D);
        assert(s[22] == 0x23314F);
        assert(s[23] == 0x234E7A);
    }
}

/// The IDs of the elements from `0x2383E3` to `0x1F43B675`.
pub open spec fn ids_11() -> Seq<u32> {
    seq![
        0x2383E3, 0x23E383, 0x258688, 0x26B240, 0x2AD7B1, 0x2EB524, 0x2FB523, 0x3A9697, 0x3B4040,
        0x3C83AB, 0x3CB923, 0x3E83BB, 0x3EB923, 0x1043A770, 0x114D9B74, 0x1254C367, 0x1549A966,
        0x1654AE6B, 0x18538067, 0x1941A469, 0x1C53BB6B, 0x1F43B675,
    ]
}

pub(crate) fn list_11() -> (r: Vec<u32>)
    ensures
        r@ == ids_11(),
{
    let r: Vec<u32> = vec![
        0x2383E3, 0x23E383, 0x258688, 0x26B240, 0x2AD7B1, 0x2EB524, 0x2FB523, 0x3A9697, 0x3B4040,
        0x3C83AB, 0x3CB923, 0x3E83BB, 0x3EB923, 0x1043A770, 0x114D9B74, 0x1254C367, 0x1549A966,
        0x1654AE6B, 0x18538067, 0x1941A469, 0x1C53BB6B, 0x1F43B675,
    ];
    assert(r@ =~= ids_11());
    r
}

pub(crate) proof fn lemma_ids_11()
    ensures
        in_order(ids_11()),
        forall|i: int|
            0 <= i < ids_11().len() ==> (rows_11(#[trigger] ids_11()[i]) matches Some(r) && r.id
                == ids_11()[i]),
        forall|i: int|
            0 <= i < ids_11().len() ==> 0x2383E3 <= #[trigger] ids_11()[i] <= 0x1F43B675,
        forall|id: u32| (#[trigger] rows_11(id)) is Some ==> ids_11().contains(id),
{
    let s = ids_11();
    assert forall|id: u32| (#[trigger] rows_11(id)) is Some implies s.contains(id) by {
        assert(s[0] == 0x2383E3);
        assert(s[1] == 0x23E383);
        assert(s[2] == 0x258688);
        assert(s[3] == 0x26B240);
        assert(s[4] == 0x2AD7B1);
        assert(s[5] == 0x2EB524);
        assert(s[6] == 0x2FB523);
        assert(s[7] == 0x3A9697);
        assert(s[8] == 0x3B4040);
        assert(s[9] == 0x3C83AB);
        assert(s[10] == 0x3CB923);
        assert(s[11] == 0x3E83BB);
        assert(s[12] == 0x3EB923);
        assert(s[13] == 0x1043A770);
        assert(s[14] == 0x114D9B74);
        assert(s[15] == 0x1254C367);
        assert(s[16] == 0x1549A966);
        assert(s[17] == 0x1654AE6B);
        assert(s[18] == 0x18538067);
        assert(s[19] == 0x1941A469);
        assert(s[20] == 0x1C53BB6B);
        assert(s[21] == 0x1F43B675);
    }
}

/// The IDs of the elements of EBML.
pub open spec fn supplement_ids() -> Seq<u32> {
    seq![
        0xBF, 0xEC, 0x4281, 0x4282, 0x4283, 0x4284, 0x4285, 0x4286, 0x4287, 0x42F7, 0x1A45DFA3,
    ]
}

pub(crate) fn list_supplement() -> (r: Vec<u32>)
    ensures
        r@ == supplement_ids(),
{
    let r: Vec<u32> = vec![
        0xBF, 0xEC, 0x4281, 0x4282, 0x4283, 0x4284, 0x4285, 0x4286, 0x4287, 0x42F7, 0x1A45DFA3,
    ];
    assert(r@ =~= supplement_ids());
    r
}

pub(crate) proof fn lemma_supplement_ids()
    ensures
        in_order(supplement_ids()),
        forall|i: int|
            0 <= i < supplement_ids().len() ==> (supplement_rows(#[trigger] supplement_ids()[i]) matches Some(r) && r.id
                == supplement_ids()[i]),
        forall|i: int|
            0 <= i < supplement_ids().len() ==> 0xBF <= #[trigger] supplement_ids()[i] <= 0x1A45DFA3,
        forall|id: u32| (#[trigger] supplement_rows(id)) is Some ==> supplement_ids().contains(id),
{
    let s = supplement_ids();
    assert forall|id: u32| (#[trigger] supplement_rows(id)) is Some implies s.contains(id) by {
        assert(s[0] == 0xBF);
        assert(s[1] == 0xEC);
        assert(s[2] == 0x4281);
        assert(s[3] == 0x4282);
        assert(s[4] == 0x4283);
        assert(s[5] == 0x4284);
        assert(s[6] == 0x4285);
        assert(s[7] == 0x4286);
        assert(s[8] == 0x4287);
        assert(s[9] == 0x42F7);
        assert(s[10] == 0x1A45DFA3);
    }
}

} // verus!
