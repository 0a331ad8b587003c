//! The document as a whole, up to its first Cluster.

use vstd::prelude::*;
use super::attachments::{
    parse_attachments, read_attachments, Attachment, AttachmentView, AttachmentsState,
    ParsedAttachments,
};
use super::chapter_types::{Edition, EditionView};
use super::chapters::{parse_chapters_typed, read_chapters, ChaptersState, ParsedChapters};
use super::crc::{crc_at, validate_top_level_crc, CrcStatus};
use super::cues::{cues_step, parse_cues, CueEntry};
use super::info::{info_step, parse_info, InfoView, SegmentInfo};
use super::tags::{parse_tags, tags_step, RawTag, RawTagView};
use super::tracks::{parse_tracks, tracks_step, TrackEntry, TrackEntryView};
use crate::ebml::{
    end_of, header_at, left_of, on_master, on_string, passed, read_element_header, read_string,
    skip, walk, ElementHeader, Float, VINT_UNKNOWN_SIZE,
};
use crate::error::MkvError;
use crate::ids;
use crate::sort::{
    is_sorted, lemma_inserted_at, lemma_stable_sorted_is_sorted, lemma_stable_sorted_keeps,
    lemma_stable_sorted_multiset, stable_sorted,
};
use crate::text::text_is;
use crate::views::{group_views, read_view, views};
use std::collections::HashMap;

verus! {

broadcast use {group_views, vstd::std_specs::hash::group_hash_axioms};

// ---------------------------------------------------------------------------
// The EBML header and the start of the Segment.

/// What each child of the EBML header adds: the name of the document type.
pub open spec fn ebml_header_step(d: Seq<u8>) -> spec_fn(Seq<char>, ElementHeader, int) -> Result<
    (Seq<char>, int),
    MkvError,
> {
    |s: Seq<char>, h: ElementHeader, b: int|
        if h.id == ids::EBML_DOC_TYPE {
            on_string(d, h, b, |v: Seq<char>| v)
        } else {
            passed(s, b, h.size)
        }
}

/// Where the Segment's data starts and ends.
pub open spec fn segment_bounds(d: Seq<u8>) -> Result<(int, int), MkvError> {
    match header_at(d, 0) {
        Err(e) => Err(e),
        Ok(h) => if h.id != ids::EBML_HEADER {
            Err(MkvError::NotEbml { id: h.id })
        } else {
            let body = h.header_len as int;
            match walk(d, body, end_of(body, h.size), "matroska"@, ebml_header_step(d)) {
                Err(e) => Err(e),
                Ok((doc_type, pos)) => if doc_type != "matroska"@ && doc_type != "webm"@ {
                    Err(MkvError::UnsupportedDocType)
                } else {
                    match header_at(d, pos) {
                        Err(e) => Err(e),
                        Ok(s) => if s.id != ids::SEGMENT {
                            Err(MkvError::NotSegment { id: s.id })
                        } else {
                            let start = pos + s.header_len;
                            if s.size == VINT_UNKNOWN_SIZE {
                                Ok((start, d.len() as int))
                            } else {
                                Ok((start, end_of(start, s.size)))
                            }
                        },
                    }
                },
            }
        },
    }
}

/// Reads the children of the EBML header. Gives the document type.
fn parse_doc_type(d: &[u8], start: u64, end: u64) -> (r: Result<(String, u64), MkvError>)
    ensures
        read_view(r) == walk(d@, start as int, end as int, "matroska"@, ebml_header_step(d@)),
{
    let mut s: String = "matroska".to_owned();
    let mut pos: u64 = start;
    let ghost step = ebml_header_step(d@);
    while pos < end
        invariant
            step == ebml_header_step(d@),
            walk(d@, start as int, end as int, "matroska"@, step) == walk(
                d@,
                pos as int,
                end as int,
                s@,
                step,
            ),
        decreases left_of(d@, pos as int),
    {
        let h: ElementHeader = read_element_header(d, pos)?;
        let body: u64 = pos + h.header_len;
        if h.id == ids::EBML_DOC_TYPE {
            s = read_string(d, body, h.size)?;
            pos = body + h.size;
        } else {
            pos = skip(body, h.size)?;
        }
    }
    Ok((s, pos))
}

/// Finds the Segment. Gives where its data starts and ends.
fn find_segment(d: &[u8]) -> (r: Result<(u64, u64), MkvError>)
    ensures
        match r {
            Ok((start, end)) => segment_bounds(d@) == Ok::<(int, int), MkvError>(
                (start as int, end as int),
            ),
            Err(e) => segment_bounds(d@) == Err::<(int, int), MkvError>(e),
        },
{
    let h: ElementHeader = read_element_header(d, 0)?;
    if h.id != ids::EBML_HEADER {
        return Err(MkvError::NotEbml { id: h.id });
    }
    let body: u64 = h.header_len;
    let (doc_type, pos) = parse_doc_type(d, body, body.saturating_add(h.size))?;
    if !text_is(&doc_type, "matroska") && !text_is(&doc_type, "webm") {
        return Err(MkvError::UnsupportedDocType);
    }
    let s: ElementHeader = read_element_header(d, pos)?;
    if s.id != ids::SEGMENT {
        return Err(MkvError::NotSegment { id: s.id });
    }
    let start: u64 = pos + s.header_len;
    if s.size == VINT_UNKNOWN_SIZE {
        Ok((start, d.len() as u64))
    } else {
        Ok((start, start.saturating_add(s.size)))
    }
}

// ---------------------------------------------------------------------------
// The elements in front of the first Cluster.

/// What has been gathered of the Segment.
pub struct SegmentParts {
    pub info: SegmentInfo,
    pub tracks: Vec<TrackEntry>,
    pub tags: Vec<RawTag>,
    pub cues: Vec<CueEntry>,
    pub editions: Vec<Edition>,
    pub attachments: Vec<Attachment>,
    pub chapter_uids: HashMap<u64, u32>,
    pub edition_uids: HashMap<u64, u32>,
    pub attachment_uids: HashMap<u64, u32>,
    pub crc_status: Vec<CrcStatus>,
}

/// The view of [`SegmentParts`].
#[verifier::ext_equal]
pub struct SegmentView {
    pub info: InfoView,
    pub tracks: Seq<TrackEntryView>,
    pub tags: Seq<RawTagView>,
    pub cues: Seq<CueEntry>,
    pub editions: Seq<EditionView>,
    pub attachments: Seq<AttachmentView>,
    pub chapter_uids: Map<u64, u32>,
    pub edition_uids: Map<u64, u32>,
    pub attachment_uids: Map<u64, u32>,
    pub crc_status: Seq<CrcStatus>,
}

impl View for SegmentParts {
    type V = SegmentView;

    open spec fn view(&self) -> SegmentView {
        SegmentView {
            info: self.info@,
            tracks: views(self.tracks@),
            tags: views(self.tags@),
            cues: self.cues@,
            editions: views(self.editions@),
            attachments: views(self.attachments@),
            chapter_uids: self.chapter_uids@,
            edition_uids: self.edition_uids@,
            attachment_uids: self.attachment_uids@,
            crc_status: self.crc_status@,
        }
    }
}

/// A Segment without children.
pub open spec fn empty_segment() -> SegmentView {
    SegmentView {
        info: InfoView { timecode_scale: 0, duration: Float::Double(0), metadata: Seq::empty() },
        tracks: Seq::empty(),
        tags: Seq::empty(),
        cues: Seq::empty(),
        editions: Seq::empty(),
        attachments: Seq::empty(),
        chapter_uids: Map::empty(),
        edition_uids: Map::empty(),
        attachment_uids: Map::empty(),
        crc_status: Seq::empty(),
    }
}

/// Whether the checksum of an element with the given ID is looked at.
pub open spec fn is_checked(id: u32) -> bool {
    id == ids::INFO || id == ids::TRACKS || id == ids::TAGS || id == ids::CUES || id
        == ids::CHAPTERS || id == ids::ATTACHMENTS || id == ids::SEEK_HEAD
}

/// The checksums, with those of one more element if there are any.
pub open spec fn with_status(s: Seq<CrcStatus>, o: Option<CrcStatus>) -> Seq<CrcStatus> {
    match o {
        Some(c) => s.push(c),
        None => s,
    }
}

/// The checksums found so far, with those of the element with header `h`.
pub open spec fn checked(
    d: Seq<u8>,
    s: Seq<CrcStatus>,
    h: ElementHeader,
    b: int,
) -> Seq<CrcStatus> {
    if h.size != VINT_UNKNOWN_SIZE && is_checked(h.id) {
        with_status(s, crc_at(d, h.id, b, end_of(b, h.size)))
    } else {
        s
    }
}

/// Where an element's data ends, in a Segment whose data ends at `end`.
pub open spec fn inner_end(h: ElementHeader, b: int, end: int) -> int {
    if h.size == VINT_UNKNOWN_SIZE {
        end
    } else {
        end_of(b, h.size)
    }
}

/// What a child of the Segment other than a Cluster adds.
#[verifier::opaque]
pub open spec fn segment_child(
    d: Seq<u8>,
    end: int,
    t: SegmentView,
    h: ElementHeader,
    b: int,
) -> Result<
    (SegmentView, int),
    MkvError,
> {
    let s = SegmentView { crc_status: checked(d, t.crc_status, h, b), ..t };
    let inner = inner_end(h, b, end);
    if h.id == ids::INFO {
        on_master(
            walk(d, b, inner, s.info, info_step(d)),
            |v: InfoView| SegmentView { info: v, ..s },
        )
    } else if h.id == ids::TRACKS {
        on_master(
            walk(d, b, inner, s.tracks, tracks_step(d)),
            |v: Seq<TrackEntryView>| SegmentView { tracks: v, ..s },
        )
    } else if h.id == ids::TAGS {
        on_master(
            walk(d, b, inner, s.tags, tags_step(d)),
            |v: Seq<RawTagView>| SegmentView { tags: v, ..s },
        )
    } else if h.id == ids::CUES {
        on_master(
            walk(d, b, inner, s.cues, cues_step(d)),
            |v: Seq<CueEntry>| SegmentView { cues: v, ..s },
        )
    } else if h.id == ids::CHAPTERS {
        on_master(
            read_chapters(
                d,
                b,
                inner,
                ChaptersState {
                    editions: s.editions,
                    metadata: s.info.metadata,
                    chapter_uids: s.chapter_uids,
                    edition_uids: s.edition_uids,
                },
            ),
            |v: ChaptersState|
                SegmentView {
                    editions: v.editions,
                    info: InfoView { metadata: v.metadata, ..s.info },
                    chapter_uids: v.chapter_uids,
                    edition_uids: v.edition_uids,
                    ..s
                },
        )
    } else if h.id == ids::ATTACHMENTS {
        on_master(
            read_attachments(
                d,
                b,
                inner,
                AttachmentsState {
                    attachments: s.attachments,
                    metadata: s.info.metadata,
                    uids: s.attachment_uids,
                },
            ),
            |v: AttachmentsState|
                SegmentView {
                    attachments: v.attachments,
                    info: InfoView { metadata: v.metadata, ..s.info },
                    attachment_uids: v.uids,
                    ..s
                },
        )
    } else if h.size == VINT_UNKNOWN_SIZE {
        Err(MkvError::UnknownSizeElement)
    } else {
        Ok((s, inner))
    }
}

/// Reads children of the Segment from `pos` on until its end or a Cluster is reached.
/// Gives what was gathered, and where the Cluster starts.
pub open spec fn segment_walk(d: Seq<u8>, pos: int, end: int, s: SegmentView) -> Result<
    (SegmentView, Option<int>),
    MkvError,
>
    decreases left_of(d, pos),
{
    if pos >= end || pos < 0 {
        Ok((s, None))
    } else {
        match header_at(d, pos) {
            Err(e) => Err(e),
            Ok(h) => {
                let body = pos + h.header_len;
                if h.id == ids::CLUSTER {
                    Ok((s, Some(pos)))
                } else {
                    match segment_child(d, end, s, h, body) {
                        Err(e) => Err(e),
                        Ok((t, next)) => if next < body {
                            Ok((t, None))
                        } else {
                            segment_walk(d, next, end, t)
                        },
                    }
                }
            },
        }
    }
}

/// The result of reading a child of the Segment.
fn parse_segment_child(d: &[u8], end: u64, parts: SegmentParts, h: ElementHeader, body: u64) -> (r:
    Result<(SegmentParts, u64), MkvError>)
    requires
        body <= d@.len(),
    ensures
        read_view(r) == segment_child(d@, end as int, parts@, h, body as int),
        r matches Ok((_, next)) ==> next >= body,
{
    proof {
        reveal(segment_child);
    }
    let mut s: SegmentParts = parts;
    let inner: u64 = if h.size == VINT_UNKNOWN_SIZE {
        end
    } else {
        body.saturating_add(h.size)
    };
    if h.size != VINT_UNKNOWN_SIZE && (h.id == ids::INFO || h.id == ids::TRACKS || h.id == ids::TAGS
        || h.id == ids::CUES || h.id == ids::CHAPTERS || h.id == ids::ATTACHMENTS || h.id
        == ids::SEEK_HEAD) {
        if let Some(c) = validate_top_level_crc(d, h.id, body, inner) {
            s.crc_status.push(c);
        }
    }
    assert(s@ =~= SegmentView {
        crc_status: checked(d@, parts@.crc_status, h, body as int),
        ..parts@
    });
    if h.id == ids::INFO {
        let (v, next) = parse_info(d, body, inner, s.info)?;
        s.info = v;
        Ok((s, next))
    } else if h.id == ids::TRACKS {
        let (v, next) = parse_tracks(d, body, inner, s.tracks)?;
        s.tracks = v;
        Ok((s, next))
    } else if h.id == ids::TAGS {
        let (v, next) = parse_tags(d, body, inner, s.tags)?;
        s.tags = v;
        Ok((s, next))
    } else if h.id == ids::CUES {
        let (v, next) = parse_cues(d, body, inner, s.cues)?;
        s.cues = v;
        Ok((s, next))
    } else if h.id == ids::CHAPTERS {
        let held = ParsedChapters {
            editions: s.editions,
            metadata: s.info.metadata,
            chapter_uids: s.chapter_uids,
            edition_uids: s.edition_uids,
        };
        let (v, next) = parse_chapters_typed(d, body, inner, held)?;
        s.editions = v.editions;
        s.info.metadata = v.metadata;
        s.chapter_uids = v.chapter_uids;
        s.edition_uids = v.edition_uids;
        Ok((s, next))
    } else if h.id == ids::ATTACHMENTS {
        let held = ParsedAttachments {
            attachments: s.attachments,
            metadata: s.info.metadata,
            uids: s.attachment_uids,
        };
        let (v, next) = parse_attachments(d, body, inner, held)?;
        s.attachments = v.attachments;
        s.info.metadata = v.metadata;
        s.attachment_uids = v.uids;
        Ok((s, next))
    } else if h.size == VINT_UNKNOWN_SIZE {
        Err(MkvError::UnknownSizeElement)
    } else {
        Ok((s, inner))
    }
}

/// Reads the Segment up to its end or its first Cluster. Gives what was gathered, and
/// where the Cluster starts.
fn parse_segment(d: &[u8], start: u64, end: u64) -> (r: Result<
    (SegmentParts, Option<u64>),
    MkvError,
>)
    ensures
        match r {
            Ok((s, c)) => segment_walk(d@, start as int, end as int, empty_segment()) == Ok::<
                (SegmentView, Option<int>),
                MkvError,
            >(
                (
                    s@,
                    match c {
                        Some(p) => Some(p as int),
                        None => None,
                    },
                ),
            ),
            Err(e) => segment_walk(d@, start as int, end as int, empty_segment()) == Err::<
                (SegmentView, Option<int>),
                MkvError,
            >(e),
        },
{
    let mut s = SegmentParts {
        info: SegmentInfo {
            timecode_scale: 0,
            duration: Float::Double(0),
            metadata: Vec::new(),
        },
        tracks: Vec::new(),
        tags: Vec::new(),
        cues: Vec::new(),
        editions: Vec::new(),
        attachments: Vec::new(),
        chapter_uids: HashMap::new(),
        edition_uids: HashMap::new(),
        attachment_uids: HashMap::new(),
        crc_status: Vec::new(),
    };
    assert(s@ =~= empty_segment());
    let mut pos: u64 = start;
    while pos < end
        invariant
            segment_walk(d@, start as int, end as int, empty_segment()) == segment_walk(
                d@,
                pos as int,
                end as int,
                s@,
            ),
        decreases left_of(d@, pos as int),
    {
        let h: ElementHeader = read_element_header(d, pos)?;
        let body: u64 = pos + h.header_len;
        if h.id == ids::CLUSTER {
            return Ok((s, Some(pos)));
        }
        let (t, next) = parse_segment_child(d, end, s, h, body)?;
        s = t;
        pos = next;
    }
    Ok((s, None))
}

// ---------------------------------------------------------------------------
// Cues behind the Clusters.

/// Whether an element with the given ID belongs in a Cluster.
pub open spec fn is_cluster_child(id: u32) -> bool {
    id == ids::TIMECODE || id == ids::SIMPLE_BLOCK || id == ids::BLOCK_GROUP || id == ids::BLOCK
        || id == ids::BLOCK_DURATION || id == ids::REFERENCE_BLOCK || id == ids::VOID || id
        == ids::CRC32
}

/// Where a Cluster of unknown size ends whose data continues at `pos`: at the first
/// element that does not belong in it. Nowhere, if no such element comes.
pub open spec fn unknown_cluster_end(d: Seq<u8>, pos: int, end: int) -> Option<int>
    decreases left_of(d, pos),
{
    if pos >= end || pos < 0 {
        None
    } else {
        match header_at(d, pos) {
            Err(_) => None,
            Ok(h) => {
                let body = pos + h.header_len;
                if !is_cluster_child(h.id) {
                    Some(pos)
                } else if h.size == VINT_UNKNOWN_SIZE || end_of(body, h.size) > end {
                    None
                } else {
                    unknown_cluster_end(d, end_of(body, h.size), end)
                }
            },
        }
    }
}

pub proof fn lemma_unknown_cluster_end(d: Seq<u8>, pos: int, end: int)
    ensures
        unknown_cluster_end(d, pos, end) matches Some(p) ==> pos <= p < end,
    decreases left_of(d, pos),
{
    if 0 <= pos < end {
        if let Ok(h) = header_at(d, pos) {
            let body = pos + h.header_len;
            if is_cluster_child(h.id) && h.size != VINT_UNKNOWN_SIZE && end_of(body, h.size)
                <= end {
                lemma_unknown_cluster_end(d, end_of(body, h.size), end);
            }
        }
    }
}

/// Finds where a Cluster of unknown size ends whose data continues at `start`.
fn walk_unknown_cluster(d: &[u8], start: u64, end: u64) -> (r: Option<u64>)
    ensures
        unknown_cluster_end(d@, start as int, end as int) == (match r {
            Some(p) => Some(p as int),
            None => None,
        }),
{
    let mut pos: u64 = start;
    while pos < end
        invariant
            unknown_cluster_end(d@, start as int, end as int) == unknown_cluster_end(
                d@,
                pos as int,
                end as int,
            ),
        decreases left_of(d@, pos as int),
    {
        let h: ElementHeader = match read_element_header(d, pos) {
            Ok(h) => h,
            Err(_) => {
                return None;
            },
        };
        let body: u64 = pos + h.header_len;
        if !(h.id == ids::TIMECODE || h.id == ids::SIMPLE_BLOCK || h.id == ids::BLOCK_GROUP || h.id
            == ids::BLOCK || h.id == ids::BLOCK_DURATION || h.id == ids::REFERENCE_BLOCK || h.id
            == ids::VOID || h.id == ids::CRC32) {
            return Some(pos);
        }
        if h.size == VINT_UNKNOWN_SIZE || body.saturating_add(h.size) > end {
            return None;
        }
        pos = body.saturating_add(h.size);
    }
    None
}

/// What a search for Cues from `pos` on finds: their entries, none where something does
/// not fit together, and the checksums with that of the Cues.
pub open spec fn scanned(d: Seq<u8>, pos: int, end: int, crc: Seq<CrcStatus>) -> (
    Seq<CueEntry>,
    Seq<CrcStatus>,
)
    decreases left_of(d, pos),
{
    if pos >= end || pos < 0 {
        (Seq::empty(), crc)
    } else {
        match header_at(d, pos) {
            Err(_) => (Seq::empty(), crc),
            Ok(h) => {
                let body = pos + h.header_len;
                let known = h.size != VINT_UNKNOWN_SIZE;
                if h.id == ids::CUES {
                    let inner = inner_end(h, body, end);
                    if inner > end {
                        (Seq::empty(), crc)
                    } else {
                        let status = if known {
                            with_status(crc, crc_at(d, ids::CUES, body, inner))
                        } else {
                            crc
                        };
                        match walk(d, body, inner, Seq::<CueEntry>::empty(), cues_step(d)) {
                            Ok((cues, _)) => (cues, status),
                            Err(_) => (Seq::empty(), status),
                        }
                    }
                } else if known {
                    if end_of(body, h.size) > end {
                        (Seq::empty(), crc)
                    } else {
                        scanned(d, end_of(body, h.size), end, crc)
                    }
                } else if h.id == ids::CLUSTER {
                    match unknown_cluster_end(d, body, end) {
                        Some(next) => if next < body {
                            (Seq::empty(), crc)
                        } else {
                            scanned(d, next, end, crc)
                        },
                        None => (Seq::empty(), crc),
                    }
                } else {
                    (Seq::empty(), crc)
                }
            },
        }
    }
}

/// Searches for Cues from `start` on. Appends the checksums of what it finds.
fn scan_cues_from(d: &[u8], start: u64, end: u64, crc_status: &mut Vec<CrcStatus>) -> (cues: Vec<
    CueEntry,
>)
    ensures
        scanned(d@, start as int, end as int, old(crc_status)@) == (
            cues@,
            final(crc_status)@,
        ),
{
    let mut pos: u64 = start;
    while pos < end
        invariant
            crc_status@ == old(crc_status)@,
            scanned(d@, start as int, end as int, old(crc_status)@) == scanned(
                d@,
                pos as int,
                end as int,
                old(crc_status)@,
            ),
        decreases left_of(d@, pos as int),
    {
        let h: ElementHeader = match read_element_header(d, pos) {
            Ok(h) => h,
            Err(_) => {
                return Vec::new();
            },
        };
        let body: u64 = pos + h.header_len;
        let known: bool = h.size != VINT_UNKNOWN_SIZE;
        if h.id == ids::CUES {
            let inner: u64 = if known {
                body.saturating_add(h.size)
            } else {
                end
            };
            if inner > end {
                return Vec::new();
            }
            if known {
                if let Some(c) = validate_top_level_crc(d, ids::CUES, body, inner) {
                    crc_status.push(c);
                }
            }
            return match parse_cues(d, body, inner, Vec::new()) {
                Ok((cues, _)) => cues,
                Err(_) => Vec::new(),
            };
        }
        if known {
            let next: u64 = body.saturating_add(h.size);
            if next > end {
                return Vec::new();
            }
            pos = next;
        } else if h.id == ids::CLUSTER {
            proof {
                lemma_unknown_cluster_end(d@, body as int, end as int);
            }
            match walk_unknown_cluster(d, body, end) {
                Some(next) => {
                    pos = next;
                },
                None => {
                    return Vec::new();
                },
            }
        } else {
            return Vec::new();
        }
    }
    Vec::new()
}

// ---------------------------------------------------------------------------
// The document.

/// Cues are ordered by track, those of a track by time.
pub open spec fn cue_order() -> spec_fn(CueEntry, CueEntry) -> bool {
    |a: CueEntry, b: CueEntry| a.track < b.track || (a.track == b.track && a.time <= b.time)
}

/// Sorts cues by track and time.
fn sort_cues(cues: &Vec<CueEntry>) -> (r: Vec<CueEntry>)
    ensures
        r@ == stable_sorted(cues@, cue_order()),
{
    let mut out: Vec<CueEntry> = Vec::new();
    let mut n: usize = 0;
    assert(cues@.take(0) =~= Seq::<CueEntry>::empty());
    while n < cues.len()
        invariant
            n <= cues@.len(),
            out@.len() == n,
            out@ == stable_sorted(cues@.take(n as int), cue_order()),
        decreases cues@.len() - n,
    {
        let c: CueEntry = cues[n];
        let ghost next = cues@.take(n + 1);
        assert(next.drop_last() =~= cues@.take(n as int));
        assert(next.last() == c);
        let mut i: usize = out.len();
        while i > 0 && !(out[i - 1].track < c.track || (out[i - 1].track == c.track && out[i
            - 1].time <= c.time))
            invariant
                i <= out@.len(),
                forall|k: int| i <= k < out@.len() ==> !cue_order()(out@[k], c),
            decreases i,
        {
            i = i - 1;
        }
        proof {
            lemma_inserted_at(out@, c, cue_order(), i as int);
        }
        out.insert(i, c);
        n = n + 1;
    }
    assert(cues@.take(n as int) =~= cues@);
    out
}

/// The cues of a document come sorted by track and time, with none added and none
/// dropped, and those of one track and time as in the document.
pub proof fn lemma_cues_in_order(cues: Seq<CueEntry>, track: u64, time: u64)
    ensures
        is_sorted(stable_sorted(cues, cue_order()), cue_order()),
        stable_sorted(cues, cue_order()).to_multiset() == cues.to_multiset(),
        stable_sorted(cues, cue_order()).filter(
            |c: CueEntry| c.track == track && c.time == time,
        ) == cues.filter(|c: CueEntry| c.track == track && c.time == time),
{
    lemma_stable_sorted_is_sorted(cues, cue_order());
    lemma_stable_sorted_multiset(cues, cue_order());
    lemma_stable_sorted_keeps(
        cues,
        cue_order(),
        |c: CueEntry| c.track == track && c.time == time,
    );
}

/// A document up to its first Cluster.
pub struct Document {
    /// The parts of the Segment, its cues sorted.
    pub parts: SegmentParts,
    /// Where the Segment's data starts.
    pub data_start: u64,
    /// Where the Segment's data ends.
    pub data_end: u64,
    /// Where the first Cluster starts.
    pub first_cluster: u64,
}

/// The view of a [`Document`].
#[verifier::ext_equal]
pub struct DocumentView {
    pub parts: SegmentView,
    pub data_start: int,
    pub data_end: int,
    pub first_cluster: int,
}

impl View for Document {
    type V = DocumentView;

    open spec fn view(&self) -> DocumentView {
        DocumentView {
            parts: self.parts@,
            data_start: self.data_start as int,
            data_end: self.data_end as int,
            first_cluster: self.first_cluster as int,
        }
    }
}

/// The parts of a Segment with the cues that come behind the Clusters, if none come in
/// front of them, and with all cues sorted.
pub open spec fn with_cues(
    d: Seq<u8>,
    s: SegmentView,
    cluster: Option<int>,
    end: int,
) -> SegmentView {
    let found = match cluster {
        Some(p) => if s.cues.len() == 0 {
            scanned(d, p, end, s.crc_status)
        } else {
            (s.cues, s.crc_status)
        },
        None => (s.cues, s.crc_status),
    };
    SegmentView { cues: stable_sorted(found.0, cue_order()), crc_status: found.1, ..s }
}

/// The document in the bytes `d`.
pub open spec fn document_of(d: Seq<u8>) -> Result<DocumentView, MkvError> {
    match segment_bounds(d) {
        Err(e) => Err(e),
        Ok((start, end)) => match segment_walk(d, start, end, empty_segment()) {
            Err(e) => Err(e),
            Ok((s, cluster)) => if s.tracks.len() == 0 {
                Err(MkvError::NoTracks)
            } else {
                match cluster {
                    None => Err(MkvError::NoClusters),
                    Some(p) => Ok(
                        DocumentView {
                            parts: with_cues(d, s, cluster, end),
                            data_start: start,
                            data_end: end,
                            first_cluster: p,
                        },
                    ),
                }
            },
        },
    }
}

/// Reads a document up to its first Cluster, and the cues wherever they are.
pub fn read_document(d: &[u8]) -> (r: Result<Document, MkvError>)
    ensures
        match r {
            Ok(doc) => document_of(d@) == Ok::<DocumentView, MkvError>(doc@),
            Err(e) => document_of(d@) == Err::<DocumentView, MkvError>(e),
        },
{
    let (start, end) = find_segment(d)?;
    let (s, cluster) = parse_segment(d, start, end)?;
    if s.tracks.len() == 0 {
        return Err(MkvError::NoTracks);
    }
    let first_cluster: u64 = match cluster {
        Some(p) => p,
        None => {
            return Err(MkvError::NoClusters);
        },
    };
    let ghost before = s@;
    let mut parts: SegmentParts = s;
    if parts.cues.len() == 0 {
        let mut crc_status: Vec<CrcStatus> = parts.crc_status;
        parts.cues = scan_cues_from(d, first_cluster, end, &mut crc_status);
        parts.crc_status = crc_status;
    }
    parts.cues = sort_cues(&parts.cues);
    assert(parts@ =~= with_cues(d@, before, Some(first_cluster as int), end as int));
    Ok(Document { parts, data_start: start, data_end: end, first_cluster })
}

} // verus!
