//! The demuxer.

use vstd::prelude::*;
use super::attachments::{Attachment, AttachmentView};
use super::chapter_types::{Edition, EditionView};
use super::crc::CrcStatus;
use super::cues::CueEntry;
use super::encodings::ContentEncodings;
use super::operation::TrackOperation;
use super::reader::{jumped, next_packet_of, ClusterState, Layout, LayoutView, Reader, ReaderView};
use super::segment::{document_of, read_document, Document, DocumentView, SegmentParts};
use super::streams::{
    all_facts, answer_views, build_streams, codec_query, index_by_number, index_by_uid,
    index_tracks, number_streams, numbers_by_index, prefixes_of, query_of, streams_of, CodecQuery,
    TrackFacts, TrackTables,
};
use super::tags::{resolve_tags, resolved_tags, tag_metadata, Tag, TagView, UidMaps, UidMapsView};
use super::tracks::{BlockAdditionMapping, TrackEntry};
use super::video::{
    AlphaMode, Projection, StereoMode, UncompressedFourCC, VideoColour, VideoGeometry,
    VideoInterlacing,
};
use crate::arith::{
    lemma_trunc_div_cancel, lemma_wrap_low, magnitude, magnitude_of, to_i64, trunc_div, wrap_i64,
};
use crate::ebml::{bytes_at, read_bytes, Float};
use crate::error::MkvError;
use crate::sort::{is_sorted, lemma_stable_sorted_is_sorted};
use crate::stream::{Packet, PacketView, StreamInfo, StreamInfoView, TimeBase};
use crate::views::{group_views, opt_view, views};
use std::collections::{HashSet, VecDeque};

verus! {

broadcast use {group_views, vstd::std_specs::hash::group_hash_axioms};

/// A document that is being read.
pub struct MkvDemuxer {
    layout: Layout,
    reader: Reader,
    streams: Vec<StreamInfo>,
    track_numbers: Vec<u64>,
    data_start: u64,
    metadata: Vec<(String, String)>,
    duration: Float,
    cues: Vec<CueEntry>,
    timecode_scale_ns: u64,
    tags: Vec<Tag>,
    editions: Vec<Edition>,
    attachments: Vec<Attachment>,
    tables: TrackTables,
}

/// The view of a [`MkvDemuxer`].
#[verifier::ext_equal]
pub struct DemuxerView {
    /// What does not change while the document is read.
    pub layout: LayoutView,
    /// What changes while the document is read.
    pub reader: ReaderView,
    pub streams: Seq<StreamInfoView>,
    /// The track number of each stream.
    pub track_numbers: Seq<u64>,
    /// Where the Segment's data starts.
    pub data_start: int,
    pub metadata: Seq<(Seq<char>, Seq<char>)>,
    /// The duration in ticks.
    pub duration: Float,
    /// The index, sorted by track and time.
    pub cues: Seq<CueEntry>,
    /// Nanoseconds per tick.
    pub timecode_scale_ns: u64,
    pub tags: Seq<TagView>,
    pub editions: Seq<EditionView>,
    pub attachments: Seq<AttachmentView>,
    /// What else is known of each stream.
    pub facts: Seq<TrackFacts>,
}

impl DemuxerView {
    /// What holds of every demuxer.
    pub open spec fn wf(self) -> bool {
        &&& self.track_numbers.len() == self.streams.len()
        &&& self.facts.len() == self.streams.len()
        &&& self.timecode_scale_ns > 0
        &&& self.layout.time_base == segment_time_base(self.timecode_scale_ns)
        &&& is_sorted(self.cues, super::segment::cue_order())
    }
}

impl View for MkvDemuxer {
    type V = DemuxerView;

    closed spec fn view(&self) -> DemuxerView {
        DemuxerView {
            layout: self.layout@,
            reader: self.reader@,
            streams: views(self.streams@),
            track_numbers: self.track_numbers@,
            data_start: self.data_start as int,
            metadata: views(self.metadata@),
            duration: self.duration,
            cues: self.cues@,
            timecode_scale_ns: self.timecode_scale_ns,
            tags: views(self.tags@),
            editions: views(self.editions@),
            attachments: views(self.attachments@),
            facts: self.tables@,
        }
    }
}

impl MkvDemuxer {
    /// What holds of every demuxer.
    pub closed spec fn wf(&self) -> bool {
        self@.wf() && self.tables.all_len(self.streams@.len())
    }
}

// ---------------------------------------------------------------------------
// Opening.

/// Nanoseconds per tick: a millisecond where the document does not say.
pub open spec fn scale_of(timecode_scale: u64) -> u64 {
    if timecode_scale == 0 {
        1_000_000
    } else {
        timecode_scale
    }
}

/// The length of a tick in seconds.
pub open spec fn segment_time_base(scale: u64) -> TimeBase {
    TimeBase { num: wrap_i64(scale as int) as i64, den: 1_000_000_000 }
}

/// A duration, where it is more than nothing.
pub open spec fn positive(duration: Float) -> Option<Float> {
    if duration.spec_is_positive() {
        Some(duration)
    } else {
        None
    }
}

/// What the UIDs in a document stand for.
pub open spec fn maps_of(doc: DocumentView) -> UidMapsView {
    UidMapsView {
        tracks: index_by_uid(doc.parts.tracks),
        editions: doc.parts.edition_uids,
        chapters: doc.parts.chapter_uids,
        attachments: doc.parts.attachment_uids,
    }
}

/// The demuxer at the start of the first Cluster of a document, given what a registry of
/// codecs answered about each track.
pub open spec fn demuxer_of(
    d: Seq<u8>,
    doc: DocumentView,
    answers: Seq<Option<Seq<char>>>,
) -> DemuxerView {
    let parts = doc.parts;
    let scale = scale_of(parts.info.timecode_scale);
    let uids = index_by_uid(parts.tracks);
    let facts = all_facts(parts.tracks, uids);
    DemuxerView {
        layout: LayoutView {
            data: d,
            data_end: doc.data_end,
            track_index: index_by_number(parts.tracks),
            prefixes: prefixes_of(facts),
            time_base: segment_time_base(scale),
        },
        reader: ReaderView {
            pos: doc.first_cluster as nat,
            cluster: ClusterState::Idle,
            queue: Seq::empty(),
            crc_status: parts.crc_status,
            validated: Set::empty(),
        },
        streams: streams_of(
            parts.tracks,
            answers,
            segment_time_base(scale),
            positive(parts.info.duration),
        ),
        track_numbers: numbers_by_index(parts.tracks),
        data_start: doc.data_start,
        metadata: parts.info.metadata + tag_metadata(parts.tags, maps_of(doc)),
        duration: parts.info.duration,
        cues: parts.cues,
        timecode_scale_ns: scale,
        tags: resolved_tags(parts.tags, maps_of(doc)),
        editions: parts.editions,
        attachments: parts.attachments,
        facts,
    }
}

/// A document whose codecs are not known yet.
pub struct Opening {
    data: Vec<u8>,
    doc: Document,
}

impl Opening {
    /// The document's bytes.
    pub closed spec fn bytes(self) -> Seq<u8> {
        self.data@
    }

    /// What has been read of the document.
    pub closed spec fn document(self) -> DocumentView {
        self.doc@
    }

    /// What holds of every opened document: its index is sorted.
    pub open spec fn wf(self) -> bool {
        is_sorted(self.document().parts.cues, super::segment::cue_order())
    }

    /// Reads a document up to its first Cluster.
    pub fn new(data: Vec<u8>) -> (r: Result<Opening, MkvError>)
        ensures
            match r {
                Ok(o) => o.wf() && o.bytes() == data@ && document_of(data@) == Ok::<
                    DocumentView,
                    MkvError,
                >(o.document()),
                Err(e) => document_of(data@) == Err::<DocumentView, MkvError>(e),
            },
    {
        let doc: Document = read_document(data.as_slice())?;
        proof {
            lemma_document_cues_sorted(data@);
        }
        Ok(Opening { data, doc })
    }

    /// What to ask a registry of codecs, about each track in turn.
    pub fn codec_queries(&self) -> (r: Vec<CodecQuery>)
        ensures
            r@.len() == self.document().parts.tracks.len(),
            forall|i: int|
                0 <= i < r@.len() ==> (#[trigger] r@[i])@ == query_of(
                    self.document().parts.tracks[i],
                ),
    {
        let tracks: &Vec<TrackEntry> = &self.doc.parts.tracks;
        let mut r: Vec<CodecQuery> = Vec::new();
        let mut i: usize = 0;
        while i < tracks.len()
            invariant
                i <= tracks@.len(),
                *tracks == self.doc.parts.tracks,
                r@.len() == i,
                forall|k: int| 0 <= k < i ==> (#[trigger] r@[k])@ == query_of(tracks@[k]@),
            decreases tracks@.len() - i,
        {
            r.push(codec_query(&tracks[i]));
            i = i + 1;
        }
        r
    }

    /// Makes the demuxer, given the answers about each track.
    pub fn finish(self, answers: &Vec<Option<String>>) -> (r: MkvDemuxer)
        requires
            self.wf(),
        ensures
            r@ == demuxer_of(self.bytes(), self.document(), answer_views(answers@)),
            r@.wf(),
            r.wf(),
    {
        let ghost doc = self.doc@;
        let data: Vec<u8> = self.data;
        let data_start: u64 = self.doc.data_start;
        let data_end: u64 = self.doc.data_end;
        let first_cluster: u64 = self.doc.first_cluster;
        let parts: SegmentParts = self.doc.parts;
        let duration: Float = parts.info.duration;
        let scale: u64 = if parts.info.timecode_scale == 0 {
            1_000_000
        } else {
            parts.info.timecode_scale
        };
        let time_base = TimeBase { num: to_i64(scale), den: 1_000_000_000 };
        let (by_number, by_uid) = index_tracks(&parts.tracks);
        let track_numbers: Vec<u64> = number_streams(&parts.tracks, &by_number);
        let shown: Option<Float> = if duration.is_positive() {
            Some(duration)
        } else {
            None
        };
        let (streams, tables) = build_streams(
            parts.tracks,
            answers,
            &by_uid,
            time_base,
            shown,
        );
        let mut metadata: Vec<(String, String)> = parts.info.metadata;
        let maps = UidMaps {
            tracks: by_uid,
            editions: parts.edition_uids,
            chapters: parts.chapter_uids,
            attachments: parts.attachment_uids,
        };
        let tags: Vec<Tag> = resolve_tags(parts.tags, &maps, &mut metadata);
        let prefixes: Vec<Vec<u8>> = tables.copy_prefixes();
        let r = MkvDemuxer {
            layout: Layout { data, data_end, track_index: by_number, prefixes, time_base },
            reader: Reader {
                pos: first_cluster,
                cluster: ClusterState::Idle,
                queue: VecDeque::new(),
                crc_status: parts.crc_status,
                validated: HashSet::new(),
            },
            streams,
            track_numbers,
            data_start,
            metadata,
            duration,
            cues: parts.cues,
            timecode_scale_ns: scale,
            tags,
            editions: parts.editions,
            attachments: parts.attachments,
            tables,
        };
        proof {
            let want = demuxer_of(self.bytes(), self.document(), answer_views(answers@));
            assert(maps@ =~= maps_of(doc));
            assert(r@.layout =~= want.layout);
            assert(r@.reader.queue =~= want.reader.queue);
            assert(r@.reader =~= want.reader);
            assert(r@ =~= want);
            assert(views(r.streams@).len() == doc.parts.tracks.len());
            assert(r.tables.all_len(r.streams@.len()));
        }
        r
    }
}

/// The cues of a document are sorted.
proof fn lemma_document_cues_sorted(d: Seq<u8>)
    ensures
        document_of(d) matches Ok(doc) ==> is_sorted(
            doc.parts.cues,
            super::segment::cue_order(),
        ),
{
    assert forall|s: Seq<CueEntry>| is_sorted(
        #[trigger] crate::sort::stable_sorted(s, super::segment::cue_order()),
        super::segment::cue_order(),
    ) by {
        lemma_stable_sorted_is_sorted(s, super::segment::cue_order());
    }
}

/// Opens a document, given what a registry of codecs answered about each track.
pub fn open_typed(data: Vec<u8>, answers: &Vec<Option<String>>) -> (r: Result<
    MkvDemuxer,
    MkvError,
>)
    ensures
        match r {
            Ok(m) => document_of(data@) matches Ok(doc) && m@ == demuxer_of(
                data@,
                doc,
                answer_views(answers@),
            ) && m@.wf() && m.wf(),
            Err(e) => document_of(data@) == Err::<DocumentView, MkvError>(e),
        },
{
    let o: Opening = Opening::new(data)?;
    Ok(o.finish(answers))
}

// ---------------------------------------------------------------------------
// Seeking.

/// The last of `cues` that is for the given track and not later than `ticks`.
pub open spec fn last_cue(cues: Seq<CueEntry>, track: u64, ticks: u64) -> Option<CueEntry>
    decreases cues.len(),
{
    if cues.len() == 0 {
        None
    } else if cues.last().track == track && cues.last().time <= ticks {
        Some(cues.last())
    } else {
        last_cue(cues.drop_last(), track, ticks)
    }
}

/// The first of `cues` that is for the given track.
pub open spec fn first_cue(cues: Seq<CueEntry>, track: u64) -> Option<CueEntry>
    decreases cues.len(),
{
    if cues.len() == 0 {
        None
    } else {
        match first_cue(cues.drop_last(), track) {
            Some(c) => Some(c),
            None => if cues.last().track == track {
                Some(cues.last())
            } else {
                None
            },
        }
    }
}

/// Where a seek lands: the last entry not later than `ticks`, or else the first one.
pub open spec fn landing(cues: Seq<CueEntry>, track: u64, ticks: u64) -> Option<CueEntry> {
    match last_cue(cues, track, ticks) {
        Some(c) => Some(c),
        None => first_cue(cues, track),
    }
}

/// A time in a stream's ticks as a time in the document's ticks, not before 0.
pub open spec fn document_ticks(pts: i64, base: TimeBase, scale: u64) -> int {
    let t = trunc_div(pts * base.num * 1_000_000_000, base.den * scale);
    if t < 0 {
        0
    } else {
        t
    }
}

/// A time in the document's ticks as a time in a stream's ticks.
pub open spec fn stream_ticks(time: u64, base: TimeBase, scale: u64) -> int {
    wrap_i64(trunc_div(time * base.den * scale, base.num * 1_000_000_000))
}

/// What comes of seeking to `pts` in a stream.
pub open spec fn seek_of(v: DemuxerView, stream_index: u32, pts: i64) -> (
    Result<int, MkvError>,
    ReaderView,
) {
    if stream_index >= v.streams.len() {
        (Err(MkvError::StreamIndexOutOfRange), v.reader)
    } else {
        let base = v.layout.time_base;
        let ticks = document_ticks(pts, base, v.timecode_scale_ns) as u64;
        match landing(v.cues, v.track_numbers[stream_index as int], ticks) {
            None => (Err(MkvError::SeekUnsupported), v.reader),
            Some(c) => {
                let at = v.data_start + c.cluster_offset;
                let s = ReaderView {
                    pos: if at > u64::MAX {
                        u64::MAX as nat
                    } else {
                        at as nat
                    },
                    cluster: ClusterState::Idle,
                    queue: Seq::empty(),
                    ..v.reader
                };
                let (r, t) = match c.relative_position {
                    Some(rel) => jumped(v.layout, s, rel),
                    None => (Ok(()), s),
                };
                match r {
                    Err(e) => (Err(e), t),
                    Ok(_) => (Ok(stream_ticks(c.time, base, v.timecode_scale_ns)), t),
                }
            },
        }
    }
}

fn find_landing(cues: &Vec<CueEntry>, track: u64, ticks: u64) -> (r: Option<CueEntry>)
    ensures
        r == landing(cues@, track, ticks),
{
    let mut best: Option<CueEntry> = None;
    let mut first: Option<CueEntry> = None;
    let mut i: usize = 0;
    assert(cues@.take(0) =~= Seq::<CueEntry>::empty());
    while i < cues.len()
        invariant
            i <= cues@.len(),
            best == last_cue(cues@.take(i as int), track, ticks),
            first == first_cue(cues@.take(i as int), track),
        decreases cues@.len() - i,
    {
        let c: CueEntry = cues[i];
        let ghost after = cues@.take(i + 1);
        assert(after.drop_last() =~= cues@.take(i as int));
        assert(after.last() == c);
        if c.track == track {
            if c.time <= ticks {
                best = Some(c);
            }
            if first.is_none() {
                first = Some(c);
            }
        }
        i = i + 1;
    }
    assert(cues@.take(i as int) =~= cues@);
    if best.is_none() {
        first
    } else {
        best
    }
}

/// The length of a tick is never zero, and at most as many nanoseconds as the scale.
proof fn lemma_base(scale: u64)
    requires
        scale > 0,
    ensures
        segment_time_base(scale).num != 0,
        0 < magnitude(segment_time_base(scale).num as int) <= scale,
        segment_time_base(scale).num == wrap_i64(scale as int),
{
}

#[verifier::spinoff_prover]
fn to_document_ticks(pts: i64, scale: u64) -> (r: u64)
    requires
        scale > 0,
    ensures
        r == document_ticks(pts, segment_time_base(scale), scale),
{
    let num: i64 = to_i64(scale);
    let ghost base = segment_time_base(scale);
    proof {
        lemma_base(scale);
        assert(base.den * scale == scale * 1_000_000_000) by (nonlinear_arith)
            requires
                base.den == 1_000_000_000,
        ;
        lemma_trunc_div_cancel(pts * num, scale as int, 1_000_000_000);
    }
    let m: u128 = magnitude_of(pts) as u128;
    let n: u128 = magnitude_of(num) as u128;
    assert(m * n <= 0x8000_0000_0000_0000 * 0x8000_0000_0000_0000) by (nonlinear_arith)
        requires
            m <= 0x8000_0000_0000_0000,
            n <= 0x8000_0000_0000_0000,
    ;
    let q: u128 = (m * n) / (scale as u128);
    proof {
        assert(magnitude(pts * num) == m * n) by (nonlinear_arith)
            requires
                m == magnitude(pts as int),
                n == magnitude(num as int),
        ;
        assert(q <= m) by (nonlinear_arith)
            requires
                q == (m * n) / (scale as int),
                n <= scale,
                scale > 0,
        ;
        assert((pts * num < 0) == (pts != 0 && ((pts < 0) != (num < 0)))) by (nonlinear_arith)
            requires
                num != 0,
        ;
        assert(pts == 0 ==> q == 0) by (nonlinear_arith)
            requires
                q == (m * n) / (scale as int),
                m == magnitude(pts as int),
                scale > 0,
        ;
    }
    if (pts < 0) != (num < 0) {
        0
    } else {
        q as u64
    }
}

#[verifier::spinoff_prover]
fn to_stream_ticks(time: u64, scale: u64) -> (r: i64)
    requires
        scale > 0,
    ensures
        r == stream_ticks(time, segment_time_base(scale), scale),
{
    let num: i64 = to_i64(scale);
    let ghost base = segment_time_base(scale);
    proof {
        lemma_base(scale);
        assert(time * base.den * scale == (time * scale) * 1_000_000_000) by (nonlinear_arith)
            requires
                base.den == 1_000_000_000,
        ;
        lemma_trunc_div_cancel(time * scale, num as int, 1_000_000_000);
    }
    assert(0 <= time * scale <= 0xFFFF_FFFF_FFFF_FFFF * 0xFFFF_FFFF_FFFF_FFFF) by (nonlinear_arith)
        requires
            0 <= time <= 0xFFFF_FFFF_FFFF_FFFF,
            0 <= scale <= 0xFFFF_FFFF_FFFF_FFFF,
    ;
    let q: u128 = (time as u128 * scale as u128) / (magnitude_of(num) as u128);
    let low: u64 = (q % 0x1_0000_0000_0000_0000) as u64;
    proof {
        lemma_wrap_low(q as int, low as int);
        let signed: int = if num < 0 {
            -(q as int)
        } else {
            q as int
        };
        assert(magnitude(time * scale) == time * scale);
        assert(trunc_div(time * scale, num as int) == signed);
        assert(stream_ticks(time, base, scale) == wrap_i64(signed));
    }
    if num < 0 {
        if low == 0 {
            0
        } else {
            to_i64((0xFFFF_FFFF_FFFF_FFFF - low) + 1)
        }
    } else {
        to_i64(low)
    }
}

/// Where a seek lands is an entry for the track, not later than asked for if there is
/// such an entry, and then no entry in between is later; else the earliest entry.
pub proof fn lemma_landing(cues: Seq<CueEntry>, track: u64, ticks: u64, k: int)
    requires
        is_sorted(cues, super::segment::cue_order()),
        0 <= k < cues.len(),
        cues[k].track == track,
    ensures
        landing(cues, track, ticks) matches Some(c) && cues.contains(c) && c.track == track && (
        cues[k].time <= ticks ==> cues[k].time <= c.time <= ticks) && (c.time > ticks ==> c.time
            <= cues[k].time),
{
    lemma_last_cue(cues, track, ticks, k);
    lemma_first_cue(cues, track, k);
}

proof fn lemma_last_cue(cues: Seq<CueEntry>, track: u64, ticks: u64, k: int)
    requires
        is_sorted(cues, super::segment::cue_order()),
        0 <= k < cues.len(),
        cues[k].track == track,
    ensures
        match last_cue(cues, track, ticks) {
            Some(c) => cues.contains(c) && c.track == track && c.time <= ticks && (cues[k].time
                <= ticks ==> cues[k].time <= c.time),
            None => cues[k].time > ticks,
        },
    decreases cues.len(),
{
    let last = cues.len() - 1;
    if cues.last().track == track && cues.last().time <= ticks {
        assert(cues[last] == cues.last());
        if k < last {
            assert(super::segment::cue_order()(cues[k], cues[last]));
        }
    } else {
        let t = cues.drop_last();
        assert forall|i: int, j: int| 0 <= i < j < t.len()
            implies #[trigger] super::segment::cue_order()(
            t[i],
            t[j],
        ) by {
            assert(super::segment::cue_order()(cues[i], cues[j]));
        }
        if k < last {
            lemma_last_cue(t, track, ticks, k);
            if let Some(c) = last_cue(t, track, ticks) {
                let m = choose|m: int| 0 <= m < t.len() && t[m] == c;
                assert(cues[m] == c);
            }
        } else {
            lemma_last_cue_found(t, track, ticks);
            if let Some(c) = last_cue(t, track, ticks) {
                let m = choose|m: int| 0 <= m < t.len() && t[m] == c;
                assert(cues[m] == c);
            }
        }
    }
}

proof fn lemma_last_cue_found(cues: Seq<CueEntry>, track: u64, ticks: u64)
    ensures
        last_cue(cues, track, ticks) matches Some(c) ==> cues.contains(c) && c.track == track
            && c.time <= ticks,
    decreases cues.len(),
{
    if cues.len() > 0 {
        let t = cues.drop_last();
        if cues.last().track == track && cues.last().time <= ticks {
            assert(cues[cues.len() - 1] == cues.last());
        } else {
            lemma_last_cue_found(t, track, ticks);
            if let Some(c) = last_cue(t, track, ticks) {
                let m = choose|m: int| 0 <= m < t.len() && t[m] == c;
                assert(cues[m] == c);
            }
        }
    }
}

proof fn lemma_first_cue(cues: Seq<CueEntry>, track: u64, k: int)
    requires
        is_sorted(cues, super::segment::cue_order()),
        0 <= k < cues.len(),
        cues[k].track == track,
    ensures
        first_cue(cues, track) matches Some(c) && cues.contains(c) && c.track == track && c.time
            <= cues[k].time,
    decreases cues.len(),
{
    let last = cues.len() - 1;
    let t = cues.drop_last();
    assert forall|i: int, j: int| 0 <= i < j < t.len()
        implies #[trigger] super::segment::cue_order()(
        t[i],
        t[j],
    ) by {
        assert(super::segment::cue_order()(cues[i], cues[j]));
    }
    if k < last {
        lemma_first_cue(t, track, k);
        let c = first_cue(t, track)->0;
        let m = choose|m: int| 0 <= m < t.len() && t[m] == c;
        assert(cues[m] == c);
    } else {
        assert(cues[last] == cues.last());
        if let Some(c) = first_cue(t, track) {
            lemma_first_cue_found(t, track);
            let m = choose|m: int| 0 <= m < t.len() && t[m] == c;
            assert(cues[m] == c);
            assert(super::segment::cue_order()(cues[m], cues[last]));
        }
    }
}

proof fn lemma_first_cue_found(cues: Seq<CueEntry>, track: u64)
    ensures
        first_cue(cues, track) matches Some(c) ==> cues.contains(c) && c.track == track,
    decreases cues.len(),
{
    if cues.len() > 0 {
        let t = cues.drop_last();
        lemma_first_cue_found(t, track);
        if let Some(c) = first_cue(t, track) {
            let m = choose|m: int| 0 <= m < t.len() && t[m] == c;
            assert(cues[m] == c);
        } else {
            assert(cues[cues.len() - 1] == cues.last());
        }
    }
}

// ---------------------------------------------------------------------------
// Attachments.

/// The first attachment with the given number.
pub open spec fn attachment_with(a: Seq<AttachmentView>, index: u32) -> Option<AttachmentView>
    decreases a.len(),
{
    if a.len() == 0 {
        None
    } else if a[0].index == index {
        Some(a[0])
    } else {
        attachment_with(a.skip(1), index)
    }
}

/// The bytes of the attachment with the given number.
pub open spec fn attachment_bytes(v: DemuxerView, index: u32) -> Result<Seq<u8>, MkvError> {
    if index == 0 {
        Err(MkvError::AttachmentIndexOutOfRange)
    } else {
        match attachment_with(v.attachments, index) {
            None => Err(MkvError::AttachmentIndexOutOfRange),
            Some(a) => match bytes_at(v.layout.data, a.data_offset as int, a.data_size) {
                Ok(b) => Ok(b),
                Err(_) => Err(MkvError::AttachmentTruncated),
            },
        }
    }
}

// ---------------------------------------------------------------------------
// The demuxer's methods.

impl MkvDemuxer {
    /// The name of the format.
    pub fn format_name(&self) -> (r: &'static str)
        ensures
            r@ == "matroska"@,
    {
        "matroska"
    }

    /// The streams.
    pub fn streams(&self) -> (r: &[StreamInfo])
        ensures
            views(r@) == self@.streams,
    {
        self.streams.as_slice()
    }

    /// Hands out the next packet.
    pub fn next_packet(&mut self) -> (r: Result<Packet, MkvError>)
        ensures
            old(self).wf() ==> final(self).wf(),
            match r {
                Ok(p) => next_packet_of(old(self)@.layout, old(self)@.reader) == (
                    Ok::<PacketView, MkvError>(p@),
                    final(self)@.reader,
                ),
                Err(e) => next_packet_of(old(self)@.layout, old(self)@.reader) == (
                    Err::<PacketView, MkvError>(e),
                    final(self)@.reader,
                ),
            },
            final(self)@ == (DemuxerView { reader: final(self)@.reader, ..old(self)@ }),
    {
        self.reader.next_packet(&self.layout)
    }

    /// Keys and values that describe the document.
    pub fn metadata(&self) -> (r: &[(String, String)])
        ensures
            views(r@) == self@.metadata,
    {
        self.metadata.as_slice()
    }

    /// The duration in ticks, as stored.
    pub fn duration(&self) -> (r: Float)
        ensures
            r == self@.duration,
    {
        self.duration
    }

    /// Nanoseconds per tick.
    pub fn timecode_scale_ns(&self) -> (r: u64)
        ensures
            r == self@.timecode_scale_ns,
    {
        self.timecode_scale_ns
    }

    /// Moves to where the index has `pts`, or the closest time before it. Gives the time
    /// of that place.
    pub fn seek_to(&mut self, stream_index: u32, pts: i64) -> (r: Result<i64, MkvError>)
        requires
            old(self).wf(),
        ensures
            final(self).wf(),
            match r {
                Ok(t) => seek_of(old(self)@, stream_index, pts) == (
                    Ok::<int, MkvError>(t as int),
                    final(self)@.reader,
                ),
                Err(e) => seek_of(old(self)@, stream_index, pts) == (
                    Err::<int, MkvError>(e),
                    final(self)@.reader,
                ),
            },
            final(self)@ == (DemuxerView { reader: final(self)@.reader, ..old(self)@ }),
    {
        if stream_index as usize >= self.streams.len() {
            return Err(MkvError::StreamIndexOutOfRange);
        }
        let track: u64 = self.track_numbers[stream_index as usize];
        let ticks: u64 = to_document_ticks(pts, self.timecode_scale_ns);
        let cue: CueEntry = match find_landing(&self.cues, track, ticks) {
            Some(c) => c,
            None => {
                return Err(MkvError::SeekUnsupported);
            },
        };
        self.reader.pos = self.data_start.saturating_add(cue.cluster_offset);
        self.reader.cluster = ClusterState::Idle;
        self.reader.queue.clear();
        assert(views(self.reader.queue@) =~= Seq::<PacketView>::empty());
        if let Some(rel) = cue.relative_position {
            self.reader.apply_cue_relative_position(&self.layout, rel)?;
        }
        Ok(to_stream_ticks(cue.time, self.timecode_scale_ns))
    }

    /// The tags.
    pub fn tags(&self) -> (r: &[Tag])
        ensures
            views(r@) == self@.tags,
    {
        self.tags.as_slice()
    }

    /// The checksums found so far: those of the elements in front of the first Cluster,
    /// then one for each Cluster with a checksum, in the order of reading.
    pub fn crc_status(&self) -> (r: &[CrcStatus])
        ensures
            r@ == self@.reader.crc_status,
    {
        self.reader.crc_status.as_slice()
    }

    /// The editions and their chapters.
    pub fn chapters(&self) -> (r: &[Edition])
        ensures
            views(r@) == self@.editions,
    {
        self.editions.as_slice()
    }

    /// The attachments.
    pub fn attachments(&self) -> (r: &[Attachment])
        ensures
            views(r@) == self@.attachments,
    {
        self.attachments.as_slice()
    }

    /// The bytes of the attachment with the given number. Reading goes on where it was.
    pub fn attachment_data(&mut self, index: u32) -> (r: Result<Vec<u8>, MkvError>)
        ensures
            match r {
                Ok(b) => attachment_bytes(old(self)@, index) == Ok::<Seq<u8>, MkvError>(b@),
                Err(e) => attachment_bytes(old(self)@, index) == Err::<Seq<u8>, MkvError>(e),
            },
            final(self)@ == old(self)@,
            old(self).wf() ==> final(self).wf(),
    {
        if index == 0 {
            return Err(MkvError::AttachmentIndexOutOfRange);
        }
        let ghost all = views(self.attachments@);
        let mut i: usize = 0;
        assert(all.skip(0) =~= all);
        while i < self.attachments.len() && self.attachments[i].index != index
            invariant
                i <= self.attachments@.len(),
                all == views(self.attachments@),
                *self == *old(self),
                attachment_with(all, index) == attachment_with(all.skip(i as int), index),
            decreases self.attachments@.len() - i,
        {
            assert(all.skip(i as int)[0] == self.attachments@[i as int]@);
            assert(all.skip(i as int).skip(1) =~= all.skip(i + 1));
            i = i + 1;
        }
        if i == self.attachments.len() {
            assert(all.skip(i as int).len() == 0);
            return Err(MkvError::AttachmentIndexOutOfRange);
        }
        assert(all.skip(i as int)[0] == self.attachments@[i as int]@);
        match read_bytes(
            self.layout.data.as_slice(),
            self.attachments[i].data_offset,
            self.attachments[i].data_size,
        ) {
            Ok(b) => Ok(b),
            Err(_) => Err(MkvError::AttachmentTruncated),
        }
    }

    /// What extends the Blocks of stream `stream_index`.
    pub fn block_addition_mappings(&self, stream_index: u32) -> (r: &[BlockAdditionMapping])
        requires
            self.wf(),
        ensures
            stream_index < self@.facts.len() ==> views(r@)
                == self@.facts[stream_index as int].block_addition_mappings,
            stream_index >= self@.facts.len() ==> r@.len() == 0,
    {
        if (stream_index as usize) < self.tables.block_addition_mappings.len() {
            self.tables.block_addition_mappings[stream_index as usize].as_slice()
        } else {
            &[]
        }
    }

    /// The same for all streams.
    pub fn all_block_addition_mappings(&self) -> (r: &[Vec<BlockAdditionMapping>])
        requires
            self.wf(),
        ensures
            r@.len() == self@.facts.len(),
            forall|i: int|
                0 <= i < r@.len() ==> views((#[trigger] r@[i])@)
                    == self@.facts[i].block_addition_mappings,
    {
        self.tables.block_addition_mappings.as_slice()
    }

    /// How stream `stream_index` is made of other streams, if it is.
    pub fn track_operation(&self, stream_index: u32) -> (r: Option<&TrackOperation>)
        requires
            self.wf(),
        ensures
            match r {
                Some(x) => stream_index < self@.facts.len()
                    && self@.facts[stream_index as int].track_operation == Some(x@),
                None => stream_index < self@.facts.len()
                    ==> self@.facts[stream_index as int].track_operation is None,
            },
    {
        if (stream_index as usize) < self.tables.track_operations.len() {
            match &self.tables.track_operations[stream_index as usize] {
                Some(x) => Some(x),
                None => None,
            }
        } else {
            None
        }
    }

    /// The same for all streams.
    pub fn track_operations(&self) -> (r: &[Option<TrackOperation>])
        requires
            self.wf(),
        ensures
            r@.len() == self@.facts.len(),
            forall|i: int|
                0 <= i < r@.len() ==> opt_view(#[trigger] r@[i]) == self@.facts[i].track_operation,
    {
        self.tables.track_operations.as_slice()
    }

    /// How the data of stream `stream_index` was encoded, if it was.
    pub fn content_encodings(&self, stream_index: u32) -> (r: Option<&ContentEncodings>)
        requires
            self.wf(),
        ensures
            match r {
                Some(x) => stream_index < self@.facts.len()
                    && self@.facts[stream_index as int].content_encodings == Some(x@),
                None => stream_index < self@.facts.len()
                    ==> self@.facts[stream_index as int].content_encodings is None,
            },
    {
        if (stream_index as usize) < self.tables.content_encodings.len() {
            match &self.tables.content_encodings[stream_index as usize] {
                Some(x) => Some(x),
                None => None,
            }
        } else {
            None
        }
    }

    /// The same for all streams.
    pub fn all_content_encodings(&self) -> (r: &[Option<ContentEncodings>])
        requires
            self.wf(),
        ensures
            r@.len() == self@.facts.len(),
            forall|i: int|
                0 <= i < r@.len()
                    ==> opt_view(#[trigger] r@[i]) == self@.facts[i].content_encodings,
    {
        self.tables.content_encodings.as_slice()
    }

    /// Whether stream `stream_index` is interlaced, if it has video.
    pub fn video_interlacing(&self, stream_index: u32) -> (r: Option<&VideoInterlacing>)
        requires
            self.wf(),
        ensures
            match r {
                Some(x) => stream_index < self@.facts.len()
                    && self@.facts[stream_index as int].video_interlacing == Some(*x),
                None => stream_index < self@.facts.len()
                    ==> self@.facts[stream_index as int].video_interlacing is None,
            },
    {
        if (stream_index as usize) < self.tables.video_interlacings.len() {
            match &self.tables.video_interlacings[stream_index as usize] {
                Some(x) => Some(x),
                None => None,
            }
        } else {
            None
        }
    }

    /// The same for all streams.
    pub fn video_interlacings(&self) -> (r: &[Option<VideoInterlacing>])
        requires
            self.wf(),
        ensures
            r@.len() == self@.facts.len(),
            forall|i: int|
                0 <= i < r@.len() ==> #[trigger] r@[i] == self@.facts[i].video_interlacing,
    {
        self.tables.video_interlacings.as_slice()
    }

    /// The visible part and the size of the frames of stream `stream_index`, if it has video.
    pub fn video_geometry(&self, stream_index: u32) -> (r: Option<&VideoGeometry>)
        requires
            self.wf(),
        ensures
            match r {
                Some(x) => stream_index < self@.facts.len()
                    && self@.facts[stream_index as int].video_geometry == Some(*x),
                None => stream_index < self@.facts.len()
                    ==> self@.facts[stream_index as int].video_geometry is None,
            },
    {
        if (stream_index as usize) < self.tables.video_geometries.len() {
            match &self.tables.video_geometries[stream_index as usize] {
                Some(x) => Some(x),
                None => None,
            }
        } else {
            None
        }
    }

    /// The same for all streams.
    pub fn video_geometries(&self) -> (r: &[Option<VideoGeometry>])
        requires
            self.wf(),
        ensures
            r@.len() == self@.facts.len(),
            forall|i: int|
                0 <= i < r@.len() ==> #[trigger] r@[i] == self@.facts[i].video_geometry,
    {
        self.tables.video_geometries.as_slice()
    }

    /// The colour format of stream `stream_index`, if it has one.
    pub fn video_colour(&self, stream_index: u32) -> (r: Option<&VideoColour>)
        requires
            self.wf(),
        ensures
            match r {
                Some(x) => stream_index < self@.facts.len()
                    && self@.facts[stream_index as int].video_colour == Some(*x),
                None => stream_index < self@.facts.len()
                    ==> self@.facts[stream_index as int].video_colour is None,
            },
    {
        if (stream_index as usize) < self.tables.video_colours.len() {
            match &self.tables.video_colours[stream_index as usize] {
                Some(x) => Some(x),
                None => None,
            }
        } else {
            None
        }
    }

    /// The same for all streams.
    pub fn video_colours(&self) -> (r: &[Option<VideoColour>])
        requires
            self.wf(),
        ensures
            r@.len() == self@.facts.len(),
            forall|i: int|
                0 <= i < r@.len() ==> #[trigger] r@[i] == self@.facts[i].video_colour,
    {
        self.tables.video_colours.as_slice()
    }

    /// How both eyes share the frames of stream `stream_index`, if it has video.
    pub fn video_stereo_mode(&self, stream_index: u32) -> (r: Option<StereoMode>)
        requires
            self.wf(),
        ensures
            match r {
                Some(x) => stream_index < self@.facts.len()
                    && self@.facts[stream_index as int].video_stereo_mode == Some(x),
                None => stream_index < self@.facts.len()
                    ==> self@.facts[stream_index as int].video_stereo_mode is None,
            },
    {
        if (stream_index as usize) < self.tables.video_stereo_modes.len() {
            match &self.tables.video_stereo_modes[stream_index as usize] {
                Some(x) => Some(*x),
                None => None,
            }
        } else {
            None
        }
    }

    /// The same for all streams.
    pub fn video_stereo_modes(&self) -> (r: &[Option<StereoMode>])
        requires
            self.wf(),
        ensures
            r@.len() == self@.facts.len(),
            forall|i: int|
                0 <= i < r@.len() ==> #[trigger] r@[i] == self@.facts[i].video_stereo_mode,
    {
        self.tables.video_stereo_modes.as_slice()
    }

    /// What the frames of stream `stream_index` are projected on, if that is said.
    pub fn video_projection(&self, stream_index: u32) -> (r: Option<&Projection>)
        requires
            self.wf(),
        ensures
            match r {
                Some(x) => stream_index < self@.facts.len()
                    && self@.facts[stream_index as int].video_projection == Some(x@),
                None => stream_index < self@.facts.len()
                    ==> self@.facts[stream_index as int].video_projection is None,
            },
    {
        if (stream_index as usize) < self.tables.video_projections.len() {
            match &self.tables.video_projections[stream_index as usize] {
                Some(x) => Some(x),
                None => None,
            }
        } else {
            None
        }
    }

    /// The same for all streams.
    pub fn video_projections(&self) -> (r: &[Option<Projection>])
        requires
            self.wf(),
        ensures
            r@.len() == self@.facts.len(),
            forall|i: int|
                0 <= i < r@.len() ==> opt_view(#[trigger] r@[i]) == self@.facts[i].video_projection,
    {
        self.tables.video_projections.as_slice()
    }

    /// Whether stream `stream_index` has an alpha channel, if it has video.
    pub fn video_alpha_mode(&self, stream_index: u32) -> (r: Option<AlphaMode>)
        requires
            self.wf(),
        ensures
            match r {
                Some(x) => stream_index < self@.facts.len()
                    && self@.facts[stream_index as int].video_alpha_mode == Some(x),
                None => stream_index < self@.facts.len()
                    ==> self@.facts[stream_index as int].video_alpha_mode is None,
            },
    {
        if (stream_index as usize) < self.tables.video_alpha_modes.len() {
            match &self.tables.video_alpha_modes[stream_index as usize] {
                Some(x) => Some(*x),
                None => None,
            }
        } else {
            None
        }
    }

    /// The same for all streams.
    pub fn video_alpha_modes(&self) -> (r: &[Option<AlphaMode>])
        requires
            self.wf(),
        ensures
            r@.len() == self@.facts.len(),
            forall|i: int|
                0 <= i < r@.len() ==> #[trigger] r@[i] == self@.facts[i].video_alpha_mode,
    {
        self.tables.video_alpha_modes.as_slice()
    }

    /// The aspect ratio type of stream `stream_index`, if there is one.
    pub fn video_aspect_ratio_type(&self, stream_index: u32) -> (r: Option<u64>)
        requires
            self.wf(),
        ensures
            match r {
                Some(x) => stream_index < self@.facts.len()
                    && self@.facts[stream_index as int].video_aspect_ratio_type == Some(x),
                None => stream_index < self@.facts.len()
                    ==> self@.facts[stream_index as int].video_aspect_ratio_type is None,
            },
    {
        if (stream_index as usize) < self.tables.video_aspect_ratio_types.len() {
            match &self.tables.video_aspect_ratio_types[stream_index as usize] {
                Some(x) => Some(*x),
                None => None,
            }
        } else {
            None
        }
    }

    /// The same for all streams.
    pub fn video_aspect_ratio_types(&self) -> (r: &[Option<u64>])
        requires
            self.wf(),
        ensures
            r@.len() == self@.facts.len(),
            forall|i: int|
                0 <= i < r@.len() ==> #[trigger] r@[i] == self@.facts[i].video_aspect_ratio_type,
    {
        self.tables.video_aspect_ratio_types.as_slice()
    }

    /// The pixel layout of stream `stream_index`, if there is one.
    pub fn video_uncompressed_fourcc(&self, stream_index: u32) -> (r: Option<&UncompressedFourCC>)
        requires
            self.wf(),
        ensures
            match r {
                Some(x) => stream_index < self@.facts.len()
                    && self@.facts[stream_index as int].video_uncompressed_fourcc == Some(x@),
                None => stream_index < self@.facts.len()
                    ==> self@.facts[stream_index as int].video_uncompressed_fourcc is None,
            },
    {
        if (stream_index as usize) < self.tables.video_uncompressed_fourccs.len() {
            match &self.tables.video_uncompressed_fourccs[stream_index as usize] {
                Some(x) => Some(x),
                None => None,
            }
        } else {
            None
        }
    }

    /// The same for all streams.
    pub fn video_uncompressed_fourccs(&self) -> (r: &[Option<UncompressedFourCC>])
        requires
            self.wf(),
        ensures
            r@.len() == self@.facts.len(),
            forall|i: int|
                0 <= i < r@.len()
                    ==> opt_view(#[trigger] r@[i]) == self@.facts[i].video_uncompressed_fourcc,
    {
        self.tables.video_uncompressed_fourccs.as_slice()
    }
}

} // verus!
