//! The muxer.
//!
//! It keeps no output of its own. Each operation takes the position at which the output
//! stands and gives the bytes to be written there.

use vstd::prelude::*;
use super::chapters::{ChapterDisplay, ChapterDisplayView, MkvChapter, MkvChapterView};
use super::cues::{cues_element, write_cues, CueRecord};
use super::header::{
    build_header, cues_entry_start, data_start, header_of, DocType, MuxStream, MuxStreamView,
};
use super::packets::{
    build_simple_block, ms_of, opus_duration, opus_packet_duration_samples, pts_to_ms, simple_block,
};
use super::seek_head::{void_entry, void_seek_entry, SEEK_POS_PAYLOAD_OFFSET};
use crate::arith::wrap_i64;
use crate::codec_id::{is_webm_codec, webm_allows};
use crate::ebml::{be_bytes, write_be, VINT_UNKNOWN_SIZE};
use crate::error::MkvError;
use crate::ids;
use crate::stream::{MediaType, Packet, PacketView};
use crate::text::text_is;
use crate::views::{group_views, views};
use crate::write::{
    id_bytes, uint_element, unknown_size_bytes, write_element_id, write_uint_element, write_vint,
};

verus! {

broadcast use group_views;

/// How long a Cluster gets, in milliseconds.
pub const CLUSTER_DURATION_MS: i64 = 5_000;

/// The size of the header of a Cluster whose size is unknown.
pub const CLUSTER_HEADER_LEN: u64 = 12;

/// A document that is being written.
pub struct MkvMuxer {
    streams: Vec<MuxStream>,
    stream_pts: Vec<i64>,
    cluster_open: bool,
    cluster_timecode_ms: i64,
    cluster_offset_rel: u64,
    cluster_data_start: u64,
    segment_data_start: u64,
    cues: Vec<CueRecord>,
    cue_seen_in_cluster: Vec<bool>,
    seek_cues_entry_offset: u64,
    seek_head_written: bool,
    header_written: bool,
    trailer_written: bool,
    doc_type: DocType,
    chapters: Vec<MkvChapter>,
}

/// The view of an [`MkvMuxer`].
#[verifier::ext_equal]
pub struct MuxerView {
    /// The streams. Track numbers count them from 1.
    pub streams: Seq<MuxStreamView>,
    /// For each stream the time of the next packet, in its own ticks.
    pub stream_pts: Seq<i64>,
    pub cluster_open: bool,
    /// The time of the open Cluster.
    pub cluster_timecode_ms: i64,
    /// Where the open Cluster starts in the Segment.
    pub cluster_offset_rel: u64,
    /// Where the data of the open Cluster starts in the output.
    pub cluster_data_start: u64,
    /// Where the data of the Segment starts in the output.
    pub segment_data_start: u64,
    /// The seek index so far.
    pub cues: Seq<CueRecord>,
    /// For each stream whether the open Cluster has an entry in the index for it.
    pub cue_seen_in_cluster: Seq<bool>,
    /// Where the entry for the Cues starts in the output.
    pub seek_cues_entry_offset: u64,
    pub seek_head_written: bool,
    pub header_written: bool,
    pub trailer_written: bool,
    pub doc_type: DocType,
    pub chapters: Seq<MkvChapterView>,
}

impl MuxerView {
    /// What always holds of a muxer.
    pub open spec fn wf(self) -> bool {
        &&& self.streams.len() > 0
        &&& self.stream_pts.len() == self.streams.len()
        &&& self.cue_seen_in_cluster.len() == self.streams.len()
        &&& self.cluster_timecode_ms >= 0
        &&& self.doc_type == DocType::Webm ==> forall|i: int|
            0 <= i < self.streams.len() ==> webm_allows(#[trigger] self.streams[i].codec_id)
        &&& forall|i: int|
            0 <= i < self.chapters.len() ==> ends_after_start(#[trigger] self.chapters[i])
    }
}

impl View for MkvMuxer {
    type V = MuxerView;

    closed spec fn view(&self) -> MuxerView {
        MuxerView {
            streams: views(self.streams@),
            stream_pts: self.stream_pts@,
            cluster_open: self.cluster_open,
            cluster_timecode_ms: self.cluster_timecode_ms,
            cluster_offset_rel: self.cluster_offset_rel,
            cluster_data_start: self.cluster_data_start,
            segment_data_start: self.segment_data_start,
            cues: self.cues@,
            cue_seen_in_cluster: self.cue_seen_in_cluster@,
            seek_cues_entry_offset: self.seek_cues_entry_offset,
            seek_head_written: self.seek_head_written,
            header_written: self.header_written,
            trailer_written: self.trailer_written,
            doc_type: self.doc_type,
            chapters: views(self.chapters@),
        }
    }
}

/// What is left to do at the end of a document.
pub struct Trailer {
    /// The bytes to be written at the end.
    pub append: Vec<u8>,
    /// The bytes to be written in the place of others, and their position.
    pub patch: Option<(u64, Vec<u8>)>,
}

// ---------------------------------------------------------------------------
// Opening.

/// Whether every stream has a codec that the document type allows.
pub open spec fn codecs_allowed(ss: Seq<MuxStreamView>, doc_type: DocType) -> bool {
    doc_type == DocType::Webm ==> forall|i: int|
        0 <= i < ss.len() ==> webm_allows(#[trigger] ss[i].codec_id)
}

/// A muxer that has written nothing yet.
pub open spec fn fresh(ss: Seq<MuxStreamView>, doc_type: DocType) -> MuxerView {
    MuxerView {
        streams: ss,
        stream_pts: Seq::new(ss.len(), |i: int| 0i64),
        cluster_open: false,
        cluster_timecode_ms: 0,
        cluster_offset_rel: 0,
        cluster_data_start: 0,
        segment_data_start: 0,
        cues: Seq::empty(),
        cue_seen_in_cluster: Seq::new(ss.len(), |i: int| false),
        seek_cues_entry_offset: 0,
        seek_head_written: false,
        header_written: false,
        trailer_written: false,
        doc_type: doc_type,
        chapters: Seq::empty(),
    }
}

/// What opening a muxer gives.
pub open spec fn opened(ss: Seq<MuxStreamView>, doc_type: DocType) -> Result<MuxerView, MkvError> {
    if ss.len() == 0 {
        Err(MkvError::NoStreams)
    } else if !codecs_allowed(ss, doc_type) {
        Err(MkvError::UnsupportedCodec)
    } else {
        Ok(fresh(ss, doc_type))
    }
}

/// The result of opening a muxer, as a view.
pub open spec fn opened_view(r: Result<MkvMuxer, MkvError>) -> Result<MuxerView, MkvError> {
    match r {
        Ok(m) => Ok(m@),
        Err(e) => Err(e),
    }
}

// ---------------------------------------------------------------------------
// Chapters.

/// Whether the chapter has no end, or one that is not in front of its start.
pub open spec fn ends_after_start(c: MkvChapterView) -> bool {
    match c.time_end_ns {
        Some(end) => end >= c.time_start_ns,
        None => true,
    }
}

/// Whether and why a chapter is refused.
pub open spec fn chapter_verdict(m: MuxerView, c: MkvChapterView) -> Result<(), MkvError> {
    if m.header_written {
        Err(MkvError::HeaderAlreadyWritten)
    } else if !ends_after_start(c) {
        Err(MkvError::ChapterEndsBeforeStart)
    } else {
        Ok(())
    }
}

/// The muxer after a chapter was handed to it.
pub open spec fn with_chapter(m: MuxerView, c: MkvChapterView) -> MuxerView {
    if chapter_verdict(m, c) is Ok {
        MuxerView { chapters: m.chapters.push(c), ..m }
    } else {
        m
    }
}

/// A chapter with one title, in English.
pub open spec fn english_chapter(start: u64, end: Option<u64>, title: Seq<char>) -> MkvChapterView {
    MkvChapterView {
        time_start_ns: start,
        time_end_ns: end,
        display: seq![
            ChapterDisplayView { title: title, language: "eng"@, country: None },
        ],
    }
}

// ---------------------------------------------------------------------------
// Packets.

/// The position `n` bytes after `pos`, or the last one there is.
pub open spec fn moved(pos: u64, n: nat) -> u64 {
    if pos + n > u64::MAX {
        u64::MAX
    } else {
        (pos + n) as u64
    }
}

/// How far `pos` is after `start`.
pub open spec fn distance(pos: u64, start: u64) -> u64 {
    if pos < start {
        0
    } else {
        (pos - start) as u64
    }
}

/// The muxer after its header was built for the position `pos`.
pub open spec fn with_header_at(m: MuxerView, pos: u64) -> MuxerView {
    MuxerView {
        segment_data_start: moved(pos, data_start(m.doc_type) as nat),
        seek_cues_entry_offset: moved(pos, cues_entry_start(m.doc_type) as nat),
        seek_head_written: true,
        ..m
    }
}

/// The duration of a packet in the ticks of its stream: Opus packets tell it themselves.
pub open spec fn duration_of(s: MuxStreamView, p: PacketView) -> Option<i64> {
    if s.codec_id == "opus"@ {
        match opus_duration(p.data) {
            Some(n) => Some(n as i64),
            None => None,
        }
    } else {
        p.duration
    }
}

/// The time of a packet: its own, or else that after the one before it.
pub open spec fn time_of(m: MuxerView, p: PacketView) -> i64 {
    match p.pts {
        Some(v) => v,
        None => m.stream_pts[p.stream_index as int],
    }
}

/// The time of the packet after `p`, where that has none of its own.
pub open spec fn time_after(m: MuxerView, p: PacketView) -> i64 {
    let k = p.stream_index as int;
    match duration_of(m.streams[k], p) {
        Some(d) => wrap_i64(time_of(m, p) + d) as i64,
        None => time_of(m, p),
    }
}

/// Whether a packet at `ms` needs a Cluster of its own.
pub open spec fn needs_cluster(m: MuxerView, ms: i64) -> bool {
    !m.cluster_open || ms - m.cluster_timecode_ms > CLUSTER_DURATION_MS || ms
        < m.cluster_timecode_ms
}

/// The time of a Cluster that starts with a packet at `ms`.
pub open spec fn cluster_time(ms: i64) -> i64 {
    if ms < 0 {
        0
    } else {
        ms
    }
}

/// The start of a Cluster: its header, without a size, and its time.
pub open spec fn cluster_start(ms: i64) -> Seq<u8> {
    id_bytes(ids::CLUSTER) + unknown_size_bytes() + uint_element(
        ids::TIMECODE,
        cluster_time(ms) as u64,
    )
}

/// The muxer with a Cluster opened at the position `pos` for a packet at `ms`.
pub open spec fn with_cluster(m: MuxerView, ms: i64, pos: u64) -> MuxerView {
    MuxerView {
        cluster_open: true,
        cluster_timecode_ms: cluster_time(ms),
        cluster_offset_rel: distance(pos, m.segment_data_start),
        cluster_data_start: moved(pos, CLUSTER_HEADER_LEN as nat),
        cue_seen_in_cluster: Seq::new(m.cue_seen_in_cluster.len(), |i: int| false),
        ..m
    }
}

/// Whether a packet gets an entry in the seek index: the first of its stream in the
/// Cluster that can be decoded by itself.
pub open spec fn is_indexed(m: MuxerView, p: PacketView) -> bool {
    let k = p.stream_index as int;
    !m.cue_seen_in_cluster[k] && (m.streams[k].media_type == MediaType::Video ==> p.keyframe)
}

/// The muxer with the index entry for a packet at `ms`, whose block starts at `pos`.
pub open spec fn with_cue(m: MuxerView, p: PacketView, ms: i64, pos: u64) -> MuxerView {
    let k = p.stream_index as int;
    if is_indexed(m, p) {
        MuxerView {
            cues: m.cues.push(
                CueRecord {
                    track: (k + 1) as u64,
                    time_ms: cluster_time(ms) as u64,
                    cluster_offset: m.cluster_offset_rel,
                    relative_position: distance(pos, m.cluster_data_start),
                },
            ),
            cue_seen_in_cluster: m.cue_seen_in_cluster.update(k, true),
            ..m
        }
    } else {
        m
    }
}

/// What writing a packet does: the muxer after it, the bytes to be written and the
/// outcome.
pub struct PacketOutcome {
    pub muxer: MuxerView,
    pub bytes: Seq<u8>,
    pub result: Result<(), MkvError>,
}

/// What writing the packet `p` does, with the output at the position `pos`.
pub open spec fn packet_written(m: MuxerView, p: PacketView, pos: u64) -> PacketOutcome {
    let k = p.stream_index as int;
    if !m.header_written {
        PacketOutcome {
            muxer: m,
            bytes: Seq::empty(),
            result: Err(MkvError::HeaderNotWritten),
        }
    } else if k >= m.streams.len() {
        PacketOutcome {
            muxer: m,
            bytes: Seq::empty(),
            result: Err(MkvError::StreamIndexOutOfRange),
        }
    } else {
        let ms = ms_of(time_of(m, p), m.streams[k].time_base);
        let timed = MuxerView {
            stream_pts: m.stream_pts.update(k, time_after(m, p)),
            ..m
        };
        let head = if needs_cluster(m, ms) {
            cluster_start(ms)
        } else {
            Seq::empty()
        };
        let open = if needs_cluster(m, ms) {
            with_cluster(timed, ms, pos)
        } else {
            timed
        };
        let offset = ms - open.cluster_timecode_ms;
        if offset < i16::MIN {
            PacketOutcome {
                muxer: open,
                bytes: head,
                result: Err(MkvError::TimecodeOutOfRange),
            }
        } else {
            PacketOutcome {
                muxer: with_cue(open, p, ms, moved(pos, head.len())),
                bytes: head + simple_block((k + 1) as u64, offset as i16, p.keyframe, p.data),
                result: Ok(()),
            }
        }
    }
}

// ---------------------------------------------------------------------------
// The end.

/// The bytes to be written at the end of a document.
pub open spec fn trailer_bytes(m: MuxerView) -> Seq<u8> {
    if m.cues.len() == 0 {
        Seq::empty()
    } else {
        cues_element(m.cues)
    }
}

/// The bytes that replace others at the end of a document, and their position: where the
/// Cues start, or filler if there are none.
pub open spec fn trailer_patch(m: MuxerView, pos: u64) -> Option<(u64, Seq<u8>)> {
    if !m.seek_head_written {
        None
    } else if m.cues.len() == 0 {
        Some((m.seek_cues_entry_offset, void_entry()))
    } else {
        Some(
            (
                moved(m.seek_cues_entry_offset, SEEK_POS_PAYLOAD_OFFSET as nat),
                be_bytes(distance(pos, m.segment_data_start) as nat, 8),
            ),
        )
    }
}

/// Bytes and their position, as a view.
pub open spec fn patch_view(p: Option<(u64, Vec<u8>)>) -> Option<(u64, Seq<u8>)> {
    match p {
        Some((at, bytes)) => Some((at, bytes@)),
        None => None,
    }
}

impl MkvMuxer {
    fn new(streams: Vec<MuxStream>, doc_type: DocType) -> (r: Result<Self, MkvError>)
        ensures
            opened_view(r) == opened(views(streams@), doc_type),
            r matches Ok(m) ==> m@.wf(),
    {
        if streams.len() == 0 {
            return Err(MkvError::NoStreams);
        }
        if doc_type == DocType::Webm {
            let mut i: usize = 0;
            while i < streams.len()
                invariant
                    i <= streams@.len(),
                    doc_type == DocType::Webm,
                    forall|j: int| 0 <= j < i ==> webm_allows(#[trigger] streams@[j]@.codec_id),
                decreases streams@.len() - i,
            {
                if !is_webm_codec(streams[i].codec_id.as_str()) {
                    proof {
                        let ss = views(streams@);
                        assert(ss[i as int].codec_id == streams@[i as int]@.codec_id);
                        assert(!webm_allows(ss[i as int].codec_id));
                    }
                    return Err(MkvError::UnsupportedCodec);
                }
                i = i + 1;
            }
            assert forall|j: int| 0 <= j < views(streams@).len() implies webm_allows(
                #[trigger] views(streams@)[j].codec_id,
            ) by {
                assert(webm_allows(streams@[j]@.codec_id));
            }
        }
        let mut stream_pts: Vec<i64> = Vec::new();
        let mut seen: Vec<bool> = Vec::new();
        let mut i: usize = 0;
        while i < streams.len()
            invariant
                i <= streams@.len(),
                stream_pts@.len() == i,
                seen@.len() == i,
                forall|j: int| 0 <= j < i ==> stream_pts@[j] == 0,
                forall|j: int| 0 <= j < i ==> !seen@[j],
            decreases streams@.len() - i,
        {
            stream_pts.push(0);
            seen.push(false);
            i = i + 1;
        }
        let ghost ss = views(streams@);
        let m: MkvMuxer = MkvMuxer {
            streams,
            stream_pts,
            cluster_open: false,
            cluster_timecode_ms: 0,
            cluster_offset_rel: 0,
            cluster_data_start: 0,
            segment_data_start: 0,
            cues: Vec::new(),
            cue_seen_in_cluster: seen,
            seek_cues_entry_offset: 0,
            seek_head_written: false,
            header_written: false,
            trailer_written: false,
            doc_type,
            chapters: Vec::new(),
        };
        assert(m@ =~= fresh(ss, doc_type));
        Ok(m)
    }

    /// Opens a muxer for a Matroska document.
    pub fn new_matroska(streams: Vec<MuxStream>) -> (r: Result<Self, MkvError>)
        ensures
            opened_view(r) == opened(views(streams@), DocType::Matroska),
            r matches Ok(m) ==> m@.wf(),
    {
        Self::new(streams, DocType::Matroska)
    }

    /// Opens a muxer for a WebM document. Codecs that WebM does not allow are refused.
    pub fn new_webm(streams: Vec<MuxStream>) -> (r: Result<Self, MkvError>)
        ensures
            opened_view(r) == opened(views(streams@), DocType::Webm),
            r matches Ok(m) ==> m@.wf(),
    {
        Self::new(streams, DocType::Webm)
    }

    /// The name of the document type.
    pub fn format_name(&self) -> (r: &'static str)
        ensures
            r@ == self@.doc_type.name(),
    {
        self.doc_type.as_str()
    }

    /// Adds a chapter with one title, in English. Refused once the header is written, and
    /// where the chapter ends in front of its start.
    pub fn add_chapter(
        &mut self,
        start_time_ns: u64,
        end_time_ns: Option<u64>,
        title: String,
    ) -> (r: Result<(), MkvError>)
        ensures
            r == chapter_verdict(
                old(self)@,
                english_chapter(start_time_ns, end_time_ns, title@),
            ),
            final(self)@ == with_chapter(
                old(self)@,
                english_chapter(start_time_ns, end_time_ns, title@),
            ),
            old(self)@.wf() ==> final(self)@.wf(),
    {
        let ghost text = title@;
        let mut display: Vec<ChapterDisplay> = Vec::new();
        display.push(ChapterDisplay { title, language: "eng".to_owned(), country: None });
        assert(views(display@) =~= english_chapter(start_time_ns, end_time_ns, text).display);
        self.add_chapter_full(
            MkvChapter { time_start_ns: start_time_ns, time_end_ns: end_time_ns, display },
        )
    }

    /// Adds a chapter. Refused once the header is written, and where the chapter ends in
    /// front of its start.
    pub fn add_chapter_full(&mut self, chapter: MkvChapter) -> (r: Result<(), MkvError>)
        ensures
            r == chapter_verdict(old(self)@, chapter@),
            final(self)@ == with_chapter(old(self)@, chapter@),
            old(self)@.wf() ==> final(self)@.wf(),
    {
        if self.header_written {
            return Err(MkvError::HeaderAlreadyWritten);
        }
        if let Some(end) = chapter.time_end_ns {
            if end < chapter.time_start_ns {
                return Err(MkvError::ChapterEndsBeforeStart);
            }
        }
        self.chapters.push(chapter);
        assert(self@ =~= with_chapter(old(self)@, chapter@));
        Ok(())
    }

    /// The chapters added so far.
    pub fn chapters(&self) -> (r: &[MkvChapter])
        ensures
            views(r@) == self@.chapters,
    {
        self.chapters.as_slice()
    }

    /// Builds what stands in front of the first Cluster, to be written at `pos`. Refused
    /// once it has been written.
    pub fn write_header(&mut self, pos: u64) -> (r: Result<Vec<u8>, MkvError>)
        ensures
            match r {
                Ok(bytes) => !old(self)@.header_written && bytes@ == header_of(
                    old(self)@.doc_type,
                    old(self)@.streams,
                    old(self)@.chapters,
                ) && final(self)@ == with_header_at(old(self)@, pos),
                Err(e) => old(self)@.header_written && e == MkvError::HeaderAlreadyWritten
                    && final(self)@ == old(self)@,
            },
            old(self)@.wf() ==> final(self)@.wf(),
    {
        if self.header_written {
            return Err(MkvError::HeaderAlreadyWritten);
        }
        let (bytes, start, entry) = build_header(self.doc_type, &self.streams, &self.chapters);
        self.segment_data_start = pos.saturating_add(start);
        self.seek_cues_entry_offset = pos.saturating_add(entry);
        self.seek_head_written = true;
        assert(self@ =~= with_header_at(old(self)@, pos));
        Ok(bytes)
    }

    /// Notes that the header has reached the output. Packets can follow, chapters cannot.
    pub fn header_done(&mut self)
        ensures
            final(self)@ == (MuxerView { header_written: true, ..old(self)@ }),
            old(self)@.wf() ==> final(self)@.wf(),
    {
        self.header_written = true;
        assert(self@ =~= MuxerView { header_written: true, ..old(self)@ });
    }

    /// Opens a Cluster at the position `pos` for a packet at `ms`.
    fn start_cluster(&mut self, ms: i64, pos: u64) -> (r: Vec<u8>)
        ensures
            r@ == cluster_start(ms),
            final(self)@ == with_cluster(old(self)@, ms, pos),
    {
        self.cluster_offset_rel = pos.saturating_sub(self.segment_data_start);
        self.cluster_data_start = pos.saturating_add(CLUSTER_HEADER_LEN);
        let time: i64 = if ms < 0 {
            0
        } else {
            ms
        };
        let mut out: Vec<u8> = Vec::new();
        write_element_id(&mut out, ids::CLUSTER);
        write_vint(&mut out, VINT_UNKNOWN_SIZE);
        write_uint_element(&mut out, ids::TIMECODE, time as u64);
        assert(out@ =~= cluster_start(ms));
        self.cluster_timecode_ms = time;
        self.cluster_open = true;
        let n: usize = self.cue_seen_in_cluster.len();
        let mut seen: Vec<bool> = Vec::new();
        let mut i: usize = 0;
        while i < n
            invariant
                i <= n,
                seen@.len() == i,
                forall|j: int| 0 <= j < i ==> !seen@[j],
            decreases n - i,
        {
            seen.push(false);
            i = i + 1;
        }
        self.cue_seen_in_cluster = seen;
        assert(self@ =~= with_cluster(old(self)@, ms, pos));
        out
    }

    /// Notes the index entry for a packet at `ms`, whose block starts at `pos`.
    fn note_cue(&mut self, packet: &Packet, ms: i64, pos: u64)
        requires
            packet.stream_index < old(self)@.streams.len(),
            old(self)@.cue_seen_in_cluster.len() == old(self)@.streams.len(),
        ensures
            final(self)@ == with_cue(old(self)@, packet@, ms, pos),
    {
        let k: usize = packet.stream_index as usize;
        assert(self@.streams[k as int] == self.streams@[k as int]@);
        let is_video: bool = match self.streams[k].media_type {
            MediaType::Video => true,
            _ => false,
        };
        if !self.cue_seen_in_cluster[k] && (!is_video || packet.keyframe) {
            self.cues.push(
                CueRecord {
                    track: k as u64 + 1,
                    time_ms: if ms < 0 {
                        0
                    } else {
                        ms as u64
                    },
                    cluster_offset: self.cluster_offset_rel,
                    relative_position: pos.saturating_sub(self.cluster_data_start),
                },
            );
            self.cue_seen_in_cluster.set(k, true);
        }
        assert(self@ =~= with_cue(old(self)@, packet@, ms, pos));
    }

    /// Builds the block for a packet, and where one is due the start of a Cluster in front
    /// of it, to be written at `pos`. The bytes are to be written whatever the outcome is:
    /// a packet that is too early even for a Cluster of its own is refused after that was
    /// opened.
    #[verifier::rlimit(60)]
    pub fn write_packet(&mut self, packet: &Packet, pos: u64) -> (r: (
        Vec<u8>,
        Result<(), MkvError>,
    ))
        requires
            old(self)@.wf(),
        ensures
            r.0@ == packet_written(old(self)@, packet@, pos).bytes,
            r.1 == packet_written(old(self)@, packet@, pos).result,
            final(self)@ == packet_written(old(self)@, packet@, pos).muxer,
            final(self)@.wf(),
    {
        let ghost m = self@;
        let ghost p = packet@;
        if !self.header_written {
            return (Vec::new(), Err(MkvError::HeaderNotWritten));
        }
        let k: usize = packet.stream_index as usize;
        if k >= self.streams.len() {
            return (Vec::new(), Err(MkvError::StreamIndexOutOfRange));
        }
        assert(m.streams[k as int] == self.streams@[k as int]@);
        let duration: Option<i64> = if text_is(&self.streams[k].codec_id, "opus") {
            match opus_packet_duration_samples(packet.data.as_slice()) {
                Some(n) => Some(n as i64),
                None => None,
            }
        } else {
            packet.duration
        };
        let pts: i64 = match packet.pts {
            Some(v) => v,
            None => self.stream_pts[k],
        };
        let next: i64 = match duration {
            Some(d) => pts.wrapping_add(d),
            None => pts,
        };
        assert(next == time_after(m, p));
        self.stream_pts.set(k, next);
        let ghost timed = MuxerView {
            stream_pts: m.stream_pts.update(k as int, time_after(m, p)),
            ..m
        };
        assert(self@ =~= timed);
        let ms: i64 = pts_to_ms(pts, self.streams[k].time_base);
        let due: bool = !self.cluster_open || (ms as i128) - (self.cluster_timecode_ms as i128)
            > CLUSTER_DURATION_MS as i128 || ms < self.cluster_timecode_ms;
        let mut out: Vec<u8> = if due {
            self.start_cluster(ms, pos)
        } else {
            Vec::new()
        };
        let ghost head = out@;
        let ghost open = self@;
        let offset: i128 = (ms as i128) - (self.cluster_timecode_ms as i128);
        if offset < -0x8000 {
            return (out, Err(MkvError::TimecodeOutOfRange));
        }
        let at: u64 = pos.saturating_add(out.len() as u64);
        self.note_cue(packet, ms, at);
        let block: Vec<u8> = build_simple_block(
            k as u64 + 1,
            offset as i16,
            packet.keyframe,
            &packet.data,
        );
        out.extend_from_slice(block.as_slice());
        (out, Ok(()))
    }

    /// Builds what is left to be written, with the output at `pos`; nothing if that has
    /// been done.
    pub fn write_trailer(&self, pos: u64) -> (r: Option<Trailer>)
        ensures
            match r {
                Some(t) => !self@.trailer_written && t.append@ == trailer_bytes(self@)
                    && patch_view(t.patch) == trailer_patch(self@, pos),
                None => self@.trailer_written,
            },
    {
        if self.trailer_written {
            return None;
        }
        let append: Vec<u8> = if self.cues.len() == 0 {
            Vec::new()
        } else {
            write_cues(&self.cues)
        };
        let patch: Option<(u64, Vec<u8>)> = self.patch_cues_seek_entry(pos);
        Some(Trailer { append, patch })
    }

    /// The bytes that replace others at the end of a document, with the output at `pos`.
    fn patch_cues_seek_entry(&self, pos: u64) -> (r: Option<(u64, Vec<u8>)>)
        ensures
            patch_view(r) == trailer_patch(self@, pos),
    {
        if !self.seek_head_written {
            None
        } else if self.cues.len() == 0 {
            Some((self.seek_cues_entry_offset, void_seek_entry()))
        } else {
            let mut bytes: Vec<u8> = Vec::new();
            write_be(&mut bytes, pos.saturating_sub(self.segment_data_start), 8);
            let ghost rel = distance(pos, self.segment_data_start);
            assert(bytes@ =~= be_bytes(rel as nat, 8));
            Some((self.seek_cues_entry_offset.saturating_add(SEEK_POS_PAYLOAD_OFFSET), bytes))
        }
    }

    /// Notes that everything has reached the output.
    pub fn trailer_done(&mut self)
        ensures
            final(self)@ == (MuxerView { trailer_written: true, ..old(self)@ }),
            old(self)@.wf() ==> final(self)@.wf(),
    {
        self.trailer_written = true;
        assert(self@ =~= MuxerView { trailer_written: true, ..old(self)@ });
    }
}

// ---------------------------------------------------------------------------
// Laws.

/// A packet is written at most five seconds after the time of its Cluster, and at most as
/// much before it as a block can say.
pub proof fn lemma_cluster_span(m: MuxerView, p: PacketView, pos: u64)
    requires
        m.wf(),
        packet_written(m, p, pos).result is Ok,
    ensures
        ({
            let ms = ms_of(time_of(m, p), m.streams[p.stream_index as int].time_base);
            let cluster = packet_written(m, p, pos).muxer.cluster_timecode_ms;
            i16::MIN <= ms - cluster <= CLUSTER_DURATION_MS
        }),
{
}

/// What the muxer has noted of its index: no entry is for a later Cluster than the open
/// one, no two are for the same Cluster and track, and those of the open Cluster are
/// marked.
pub open spec fn index_ok(m: MuxerView) -> bool {
    &&& m.cues.len() > 0 ==> m.cluster_open
    &&& forall|i: int|
        0 <= i < m.cues.len() ==> (#[trigger] m.cues[i]).cluster_offset <= m.cluster_offset_rel
            && 1 <= m.cues[i].track <= m.streams.len() && (m.cues[i].cluster_offset
            == m.cluster_offset_rel ==> m.cue_seen_in_cluster[m.cues[i].track - 1])
    &&& forall|i: int, j: int|
        0 <= i < j < m.cues.len() ==> !same_place(#[trigger] m.cues[i], #[trigger] m.cues[j])
}

/// Whether two index entries are for the same Cluster and track.
pub open spec fn same_place(a: CueRecord, b: CueRecord) -> bool {
    a.cluster_offset == b.cluster_offset && a.track == b.track
}

/// The index gets at most one entry for each Cluster and track: writing a packet behind
/// the start of the open Cluster adds none for a place that has one.
pub proof fn lemma_one_cue_per_place(m: MuxerView, p: PacketView, pos: u64)
    requires
        m.wf(),
        index_ok(m),
        m.segment_data_start <= pos,
        m.cluster_open ==> pos - m.segment_data_start > m.cluster_offset_rel,
    ensures
        index_ok(packet_written(m, p, pos).muxer),
{
    let w = packet_written(m, p, pos).muxer;
    assert forall|i: int| 0 <= i < w.cues.len() implies (#[trigger] w.cues[i]).cluster_offset
        <= w.cluster_offset_rel && 1 <= w.cues[i].track <= w.streams.len() && (
    w.cues[i].cluster_offset == w.cluster_offset_rel
        ==> w.cue_seen_in_cluster[w.cues[i].track - 1]) by {
        if i < m.cues.len() {
            assert(w.cues[i] == m.cues[i]);
        }
    }
    assert forall|i: int, j: int| 0 <= i < j < w.cues.len() implies !same_place(
        #[trigger] w.cues[i],
        #[trigger] w.cues[j],
    ) by {
        assert(w.cues[i] == m.cues[i]);
        if j < m.cues.len() {
            assert(w.cues[j] == m.cues[j]);
        }
    }
}

} // verus!
