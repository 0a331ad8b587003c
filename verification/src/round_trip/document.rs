//! A document that was written is read back.

use vstd::prelude::*;
use super::chapters::chapters_plain;
use super::cues::{cues_read, lemma_scan_cues, lemma_scan_end, lemma_scan_packets, scan_from};
use super::elements::{holds, lemma_header_read, lemma_holds_split, MAX_LEN};
use super::header::{
    chapters_position, fitting, index_of, is_at, lemma_header_points, lemma_header_read_back,
    lemma_master_at, segment_read,
};
use super::packets::{
    all_accepted, all_read, all_written, in_step, layout_fits, lemma_cues_passed,
    lemma_end_read_back, lemma_packet_written_wf, lemma_packets_read_back, taken,
};
use super::tracks::{codecs_plain, track_read, tracks_read};
use crate::codec_id::{lemma_codec_round_trip, matroska_of};
use crate::demux::cues::CueEntry;
use crate::demux::demuxer::demuxer_of;
use crate::demux::reader::{next_packet_of, prefix_of, LayoutView};
use crate::demux::segment::{
    cue_order, document_of, segment_walk, with_cues, DocumentView, SegmentView,
};
use crate::demux::streams::{extradata_of, index_by_number, stream_of};
use crate::ebml::{be_bytes, header_at, lemma_be_bytes_len, Float};
use crate::error::MkvError;
use crate::ids;
use crate::mux::chapters::MkvChapterView;
use crate::mux::cues::{by_time, cues_body, CueRecord};
use crate::mux::header::{
    chapters_at, chapters_part, cues_entry_start, data_start, header_of, header_with, info_element,
    opening, tracks_at, tracks_element, DocType, MuxStreamView,
};
use crate::mux::muxer::{
    cluster_start, index_ok, lemma_one_cue_per_place, moved, needs_cluster, packet_written, time_of,
    trailer_bytes, trailer_patch, with_header_at, MuxerView,
};
use crate::mux::packets::{flac_magic, ms_of, stored_private};
use crate::mux::seek_head::{
    entry, entry_or_void, lemma_entry_len, lemma_seek_head_len, seek_head, SEEK_ENTRY_LEN,
    SEEK_HEAD_TOTAL_LEN, SEEK_POS_PAYLOAD_OFFSET,
};
use crate::sort::stable_sorted;
use crate::stream::{MediaType, PacketView, SampleFormat, TimeBase};
use crate::write::{element, f64_bits, id_bytes};

verus! {

// ---------------------------------------------------------------------------
// The finished document.

/// The bytes `d` with those of `patch` in the place of others.
pub open spec fn patched(d: Seq<u8>, patch: Option<(u64, Seq<u8>)>) -> Seq<u8> {
    match patch {
        Some((at, bytes)) => d.take(at as int) + bytes + d.skip(at + bytes.len()),
        None => d,
    }
}

/// The muxer once its header has been written at the start of the output.
pub open spec fn started(m: MuxerView) -> MuxerView {
    MuxerView { header_written: true, ..with_header_at(m, 0) }
}

/// The header of a document, as it is written first.
pub open spec fn head_of(m: MuxerView) -> Seq<u8> {
    header_of(m.doc_type, m.streams, m.chapters)
}

/// The muxer after the packets `ps`, and the bytes of the Clusters.
pub open spec fn clusters_of(m: MuxerView, ps: Seq<PacketView>) -> (MuxerView, Seq<u8>) {
    all_written(started(m), ps, head_of(m).len() as u64)
}

/// Where the Clusters end.
pub open spec fn clusters_end(m: MuxerView, ps: Seq<PacketView>) -> int {
    (head_of(m).len() + clusters_of(m, ps).1.len()) as int
}

/// The document that the muxer `m` writes of the packets `ps`: the header, the Clusters and
/// the Cues, with the entry for the Cues filled in.
pub open spec fn finished(m: MuxerView, ps: Seq<PacketView>) -> Seq<u8> {
    let w = clusters_of(m, ps);
    patched(
        head_of(m) + w.1 + trailer_bytes(w.0),
        trailer_patch(w.0, clusters_end(m, ps) as u64),
    )
}

/// Where the Cues start in the Segment, if there are any.
pub open spec fn cues_position(m: MuxerView, ps: Seq<PacketView>) -> Option<u64> {
    if clusters_of(m, ps).0.cues.len() == 0 {
        None
    } else {
        Some((clusters_end(m, ps) - data_start(m.doc_type)) as u64)
    }
}

/// The header of a finished document.
pub open spec fn final_head(m: MuxerView, ps: Seq<PacketView>) -> Seq<u8> {
    header_with(
        m.doc_type,
        m.streams,
        m.chapters,
        entry_or_void(ids::CUES, cues_position(m, ps)),
    )
}

/// A muxer keeps its place in the output whatever packets are written.
proof fn lemma_place_kept(m: MuxerView, ps: Seq<PacketView>, pos: u64)
    requires
        m.wf(),
    ensures
        ({
            let w = all_written(m, ps, pos).0;
            &&& w.wf()
            &&& w.streams == m.streams
            &&& w.segment_data_start == m.segment_data_start
            &&& w.seek_cues_entry_offset == m.seek_cues_entry_offset
            &&& w.seek_head_written == m.seek_head_written
        }),
    decreases ps.len(),
{
    if ps.len() > 0 {
        let w = packet_written(m, ps[0], pos);
        lemma_packet_written_wf(m, ps[0], pos);
        lemma_place_kept(w.muxer, ps.skip(1), moved(pos, w.bytes.len()));
    }
}

/// Replacing the end of a piece in the middle.
proof fn lemma_patch_middle(
    a: Seq<u8>,
    old_part: Seq<u8>,
    new_part: Seq<u8>,
    z: Seq<u8>,
    keep: int,
)
    requires
        0 <= keep <= old_part.len(),
        new_part.len() == old_part.len() - keep,
    ensures
        ({
            let d = a + old_part + z;
            let at = a.len() + keep;
            d.take(at) + new_part + d.skip(at + new_part.len()) == a + (old_part.take(keep)
                + new_part) + z
        }),
{
    let d = a + old_part + z;
    let at = a.len() + keep;
    assert(d.take(at) + new_part + d.skip(at + new_part.len()) =~= a + (old_part.take(keep)
        + new_part) + z);
}

/// The header with another entry for the Cues differs from it in that entry alone.
proof fn lemma_header_entry(
    doc_type: DocType,
    ss: Seq<MuxStreamView>,
    cs: Seq<MkvChapterView>,
    cues: Seq<u8>,
)
    requires
        cues.len() == SEEK_ENTRY_LEN,
    ensures
        ({
            let h = header_with(doc_type, ss, cs, cues);
            let at = cues_entry_start(doc_type);
            &&& at + SEEK_ENTRY_LEN <= h.len()
            &&& h.subrange(at, at + SEEK_ENTRY_LEN) == cues
            &&& h.len() == header_of(doc_type, ss, cs).len()
            &&& h.take(at) == header_of(doc_type, ss, cs).take(at)
            &&& h.skip(at + SEEK_ENTRY_LEN) == header_of(doc_type, ss, cs).skip(
                at + SEEK_ENTRY_LEN,
            )
        }),
{
    let a = opening(doc_type);
    let c = info_element();
    let e = tracks_element(ss);
    let f = match chapters_part(cs) {
        Some(x) => x,
        None => Seq::empty(),
    };
    let at = tracks_at(c);
    let ch = chapters_at(c, e, chapters_part(cs));
    let zero = entry(ids::CUES, 0);
    let b = seek_head(SEEK_HEAD_TOTAL_LEN, at, ch, cues);
    let o = seek_head(SEEK_HEAD_TOTAL_LEN, at, ch, zero);
    lemma_entry_len(ids::CUES, 0);
    lemma_index_entry(SEEK_HEAD_TOTAL_LEN, at, ch, cues);
    lemma_index_entry(SEEK_HEAD_TOTAL_LEN, at, ch, zero);
    let n = SEEK_HEAD_TOTAL_LEN - SEEK_ENTRY_LEN;
    lemma_entry_split(a, b, o, c + e + f, n);
    assert(header_with(doc_type, ss, cs, cues) =~= a + b + (c + e + f));
    assert(header_of(doc_type, ss, cs) =~= a + o + (c + e + f));
    assert(b.skip(n) == cues);
}

/// The index with another entry for the Cues has the same start.
proof fn lemma_index_entry(info: u64, tracks: u64, chapters: Option<u64>, cues: Seq<u8>)
    requires
        cues.len() == SEEK_ENTRY_LEN,
    ensures
        ({
            let n = SEEK_HEAD_TOTAL_LEN - SEEK_ENTRY_LEN;
            let b = seek_head(info, tracks, chapters, cues);
            &&& b.len() == SEEK_HEAD_TOTAL_LEN
            &&& b.skip(n) == cues
            &&& b.take(n) == seek_head(info, tracks, chapters, entry(ids::CUES, 0)).take(n)
        }),
{
    let n = SEEK_HEAD_TOTAL_LEN - SEEK_ENTRY_LEN;
    let zero = entry(ids::CUES, 0);
    lemma_entry_len(ids::CUES, 0);
    lemma_seek_head_len(info, tracks, chapters, cues);
    lemma_seek_head_len(info, tracks, chapters, zero);
    reveal(seek_head);
    reveal(element);
    assert(seek_head(info, tracks, chapters, cues).take(n) =~= seek_head(
        info,
        tracks,
        chapters,
        zero,
    ).take(n));
}

proof fn lemma_entry_split(a: Seq<u8>, b: Seq<u8>, o: Seq<u8>, z: Seq<u8>, n: int)
    requires
        b.len() == o.len(),
        0 <= n <= b.len(),
        b.take(n) == o.take(n),
    ensures
        ({
            let h = a + b + z;
            let g = a + o + z;
            let at = a.len() + n;
            let end = (a.len() + b.len()) as int;
            &&& h.subrange(at, end) == b.skip(n)
            &&& h.len() == g.len()
            &&& h.take(at) == g.take(at)
            &&& h.skip(end) == g.skip(end)
        }),
{
    let h = a + b + z;
    let g = a + o + z;
    let at = a.len() + n;
    let end = (a.len() + b.len()) as int;
    assert(h.subrange(at, end) =~= b.skip(n));
    assert(h.take(at) =~= a + b.take(n));
    assert(g.take(at) =~= a + o.take(n));
    assert(h.skip(end) =~= z);
    assert(g.skip(end) =~= z);
}

/// A finished document is its header, with the right entry for the Cues, its Clusters and
/// its Cues.
#[verifier::rlimit(60)]
pub proof fn lemma_finished(m: MuxerView, ps: Seq<PacketView>)
    requires
        m.wf(),
        clusters_end(m, ps) <= MAX_LEN,
    ensures
        final_head(m, ps).len() == head_of(m).len(),
        finished(m, ps) == final_head(m, ps) + clusters_of(m, ps).1 + trailer_bytes(
            clusters_of(m, ps).0,
        ),
{
    let w = clusters_of(m, ps);
    let s = started(m);
    lemma_place_kept(s, ps, head_of(m).len() as u64);
    let new_entry = entry_or_void(ids::CUES, cues_position(m, ps));
    let zero = entry(ids::CUES, 0);
    lemma_entry_len(ids::CUES, 0);
    lemma_entry_len(
        ids::CUES,
        match cues_position(m, ps) {
            Some(p) => p,
            None => 0,
        },
    );
    lemma_header_entry(m.doc_type, m.streams, m.chapters, new_entry);
    lemma_header_entry(m.doc_type, m.streams, m.chapters, zero);
    let at = cues_entry_start(m.doc_type);
    let h = head_of(m);
    let a = h.take(at);
    let z = h.skip(at + SEEK_ENTRY_LEN) + w.1 + trailer_bytes(w.0);
    let full = h + w.1 + trailer_bytes(w.0);
    assert(full =~= a + zero + z);
    assert(final_head(m, ps) + w.1 + trailer_bytes(w.0) =~= a + new_entry + z);
    if w.0.cues.len() == 0 {
        lemma_patch_middle(a, zero, new_entry, z, 0);
        assert(zero.take(0) + new_entry =~= new_entry);
    } else {
        let keep = SEEK_POS_PAYLOAD_OFFSET as int;
        let rel = cues_position(m, ps)->0;
        let bytes = be_bytes(rel as nat, 8);
        lemma_be_bytes_len(rel as nat, 8);
        lemma_patch_middle(a, zero, bytes, z, keep);
        assert(new_entry =~= new_entry.take(keep) + new_entry.skip(keep));
        assert(zero.take(keep) + bytes == new_entry);
    }
}

/// While packets are written, the index gets at most one entry for each Cluster and track.
proof fn lemma_cues_distinct(m: MuxerView, ps: Seq<PacketView>, pos: u64)
    requires
        m.wf(),
        index_ok(m),
        m.segment_data_start <= pos,
        m.cluster_open ==> pos - m.segment_data_start > m.cluster_offset_rel,
        pos + all_written(m, ps, pos).1.len() <= u64::MAX,
    ensures
        index_ok(all_written(m, ps, pos).0),
    decreases ps.len(),
{
    if ps.len() > 0 {
        let w = packet_written(m, ps[0], pos);
        lemma_packet_written_wf(m, ps[0], pos);
        lemma_one_cue_per_place(m, ps[0], pos);
        lemma_written_further(m, ps[0], pos);
        lemma_cues_distinct(w.muxer, ps.skip(1), moved(pos, w.bytes.len()));
    }
}

/// A Cluster that is opened for a packet starts in front of the output's next position.
proof fn lemma_written_further(m: MuxerView, p: PacketView, pos: u64)
    requires
        m.wf(),
        m.segment_data_start <= pos,
        m.cluster_open ==> pos - m.segment_data_start > m.cluster_offset_rel,
    ensures
        ({
            let w = packet_written(m, p, pos);
            &&& w.muxer.segment_data_start == m.segment_data_start
            &&& w.muxer.cluster_open ==> pos + w.bytes.len() - m.segment_data_start
                > w.muxer.cluster_offset_rel
        }),
{
    let w = packet_written(m, p, pos);
    let k = p.stream_index as int;
    if m.header_written && k < m.streams.len() {
        let ms = ms_of(time_of(m, p), m.streams[k].time_base);
        if needs_cluster(m, ms) {
            assert(id_bytes(ids::CLUSTER).len() == 4) by {
                lemma_be_bytes_len(ids::CLUSTER as nat, 4);
            }
            assert(cluster_start(ms).len() >= 4);
            assert(w.bytes.len() >= cluster_start(ms).len());
        }
    }
}

/// The seek index of a document has at most one entry for each Cluster and track.
pub proof fn lemma_index_distinct(m: MuxerView, ps: Seq<PacketView>)
    requires
        m.wf(),
        !m.cluster_open,
        m.cues.len() == 0,
        clusters_end(m, ps) <= MAX_LEN,
    ensures
        index_ok(clusters_of(m, ps).0),
{
    lemma_entry_len(ids::CUES, 0);
    lemma_header_entry(m.doc_type, m.streams, m.chapters, entry(ids::CUES, 0));
    lemma_cues_distinct(started(m), ps, head_of(m).len() as u64);
}

// ---------------------------------------------------------------------------
// Reading it back.

/// Whether the muxer `m` has written nothing yet, and what it holds can be told apart when
/// it is read: no text in it has zero characters, and the streams can be counted.
pub open spec fn readable(m: MuxerView) -> bool {
    &&& m.wf()
    &&& !m.cluster_open
    &&& m.cues.len() == 0
    &&& m.streams.len() <= u32::MAX
    &&& m.chapters.len() <= MAX_LEN
    &&& codecs_plain(m.streams)
    &&& chapters_plain(m.chapters)
}

/// What is read of the index entries, once they are sorted.
pub open spec fn index_read(cs: Seq<CueRecord>) -> Seq<CueEntry> {
    stable_sorted(cues_read(stable_sorted(cs, by_time())), cue_order())
}

/// What is read of the document that the muxer `m` has written of the packets `ps`.
pub open spec fn document_read(m: MuxerView, ps: Seq<PacketView>) -> DocumentView {
    let s = segment_read(m.streams, m.chapters);
    let cues = clusters_of(m, ps).0.cues;
    DocumentView {
        parts: SegmentView {
            cues: index_read(cues),
            crc_status: if cues.len() == 0 {
                s.crc_status
            } else {
                s.crc_status.push(fitting(ids::CUES, cues_body(cues)))
            },
            ..s
        },
        data_start: data_start(m.doc_type),
        data_end: finished(m, ps).len() as int,
        first_cluster: head_of(m).len() as int,
    }
}

/// The first packet that is written opens a Cluster.
proof fn lemma_first_cluster(m: MuxerView, ps: Seq<PacketView>, pos: u64, d: Seq<u8>, at: int)
    requires
        m.wf(),
        !m.cluster_open,
        ps.len() > 0,
        all_accepted(m, ps, pos),
        holds(d, at, all_written(m, ps, pos).1),
    ensures
        header_at(d, at) is Ok,
        header_at(d, at)->Ok_0.id == ids::CLUSTER,
        at < d.len(),
{
    let w = packet_written(m, ps[0], pos);
    let rest = all_written(w.muxer, ps.skip(1), moved(pos, w.bytes.len()));
    lemma_holds_split(d, at, w.bytes, rest.1);
    let k = ps[0].stream_index as int;
    let ms = ms_of(
        time_of(m, ps[0]),
        m.streams[k].time_base,
    );
    let head = cluster_start(ms);
    let block = w.bytes.skip(head.len() as int);
    assert(w.bytes =~= head + block);
    lemma_holds_split(d, at, head, block);
    let n: nat = 0xFFFF_FFFF_FFFF_FFFF;
    let a = crate::write::header_bytes(ids::CLUSTER, n);
    let b = crate::write::uint_element(
        ids::TIMECODE,
        crate::mux::muxer::cluster_time(ms) as u64,
    );
    assert(head == a + b);
    lemma_holds_split(d, at, a, b);
    lemma_header_read(d, at, ids::CLUSTER, n);
}

/// The parts of a finished document are there, one after the other.
pub proof fn lemma_finished_parts(m: MuxerView, ps: Seq<PacketView>)
    requires
        m.wf(),
        finished(m, ps).len() <= MAX_LEN,
        clusters_end(m, ps) <= MAX_LEN,
    ensures
        ({
            let d = finished(m, ps);
            let w = clusters_of(m, ps);
            let n = head_of(m).len() as int;
            &&& holds(d, 0, final_head(m, ps))
            &&& holds(d, n, w.1)
            &&& holds(d, n + w.1.len(), trailer_bytes(w.0))
            &&& d.len() == n + w.1.len() + trailer_bytes(w.0).len()
            &&& final_head(m, ps).len() == n
        }),
{
    let d = finished(m, ps);
    let w = clusters_of(m, ps);
    lemma_finished(m, ps);
    assert(d.subrange(0, d.len() as int) =~= d);
    assert(holds(d, 0, d));
    lemma_holds_split(d, 0, final_head(m, ps) + w.1, trailer_bytes(w.0));
    lemma_holds_split(d, 0, final_head(m, ps), w.1);
}

/// The search for the Cues finds those that were written.
proof fn lemma_finished_scan(
    m: MuxerView,
    ps: Seq<PacketView>,
    crc: Seq<crate::demux::crc::CrcStatus>,
)
    requires
        readable(m),
        finished(m, ps).len() <= MAX_LEN,
        clusters_end(m, ps) <= MAX_LEN,
    ensures
        ({
            let cues = clusters_of(m, ps).0.cues;
            scan_from(finished(m, ps), head_of(m).len() as int, crc, false) == (
                cues_read(stable_sorted(cues, by_time())),
                if cues.len() == 0 {
                    crc
                } else {
                    crc.push(fitting(ids::CUES, cues_body(cues)))
                },
            )
        }),
{
    let d = finished(m, ps);
    let w = clusters_of(m, ps);
    let n = head_of(m).len() as int;
    lemma_finished_parts(m, ps);
    lemma_scan_packets(d, n, crc, started(m), ps, n as u64);
    if w.0.cues.len() == 0 {
        lemma_scan_end(d, crc, w.0.cluster_open);
        assert(cues_read(stable_sorted(w.0.cues, by_time())) =~= Seq::<CueEntry>::empty());
    } else {
        lemma_scan_cues(d, n + w.1.len(), crc, w.0.cluster_open, w.0.cues);
    }
}

/// A document that was written is read back: its streams, its chapters, its seek index,
/// and checksums that fit.
pub proof fn lemma_document_read_back(m: MuxerView, ps: Seq<PacketView>)
    requires
        readable(m),
        ps.len() > 0,
        all_accepted(started(m), ps, head_of(m).len() as u64),
        finished(m, ps).len() <= MAX_LEN,
        clusters_end(m, ps) <= MAX_LEN,
    ensures
        document_of(finished(m, ps)) == Ok::<DocumentView, MkvError>(document_read(m, ps)),
{
    let d = finished(m, ps);
    let w = clusters_of(m, ps);
    let n = head_of(m).len() as int;
    let s = segment_read(m.streams, m.chapters);
    lemma_finished_parts(m, ps);
    lemma_entry_len(
        ids::CUES,
        match cues_position(m, ps) {
            Some(p) => p,
            None => 0,
        },
    );
    lemma_header_read_back(
        d,
        m.doc_type,
        m.streams,
        m.chapters,
        entry_or_void(ids::CUES, cues_position(m, ps)),
    );
    lemma_first_cluster(started(m), ps, n as u64, d, n);
    assert(segment_walk(d, n, d.len() as int, s) == Ok::<(SegmentView, Option<int>), MkvError>(
        (s, Some(n)),
    ));
    lemma_finished_scan(m, ps, s.crc_status);
    assert(s.tracks == tracks_read(m.streams));
    assert(s.cues.len() == 0);
    assert(with_cues(d, s, Some(n), d.len() as int) == document_read(m, ps).parts);
}

/// The entries of the index at the start of a finished document are right: there is an
/// Info, there are Tracks, and there are Chapters and Cues where the entries say.
#[verifier::rlimit(60)]
pub proof fn lemma_index_points(m: MuxerView, ps: Seq<PacketView>)
    requires
        m.wf(),
        finished(m, ps).len() <= MAX_LEN,
        clusters_end(m, ps) <= MAX_LEN,
    ensures
        ({
            let d = finished(m, ps);
            let start = data_start(m.doc_type);
            let cues = cues_position(m, ps);
            &&& holds(
                d,
                start,
                index_of(m.streams, m.chapters, entry_or_void(ids::CUES, cues)),
            )
            &&& is_at(d, start + SEEK_HEAD_TOTAL_LEN, ids::INFO)
            &&& is_at(d, start + tracks_at(info_element()), ids::TRACKS)
            &&& chapters_position(m.streams, m.chapters) matches Some(p) ==> is_at(
                d,
                start + p,
                ids::CHAPTERS,
            )
            &&& cues matches Some(p) ==> is_at(d, start + p, ids::CUES)
        }),
{
    let d = finished(m, ps);
    let w = clusters_of(m, ps);
    lemma_finished_parts(m, ps);
    lemma_entry_len(
        ids::CUES,
        match cues_position(m, ps) {
            Some(p) => p,
            None => 0,
        },
    );
    lemma_header_points(
        d,
        m.doc_type,
        m.streams,
        m.chapters,
        entry_or_void(ids::CUES, cues_position(m, ps)),
    );
    if w.0.cues.len() > 0 {
        lemma_master_at(d, clusters_end(m, ps), ids::CUES, cues_body(w.0.cues));
        lemma_header_entry(
            m.doc_type,
            m.streams,
            m.chapters,
            entry_or_void(ids::CUES, cues_position(m, ps)),
        );
        assert(data_start(m.doc_type) <= head_of(m).len());
    }
}

// ---------------------------------------------------------------------------
// The demuxer.

/// Every stream that was written is found under its track number.
proof fn lemma_index_read(ss: Seq<MuxStreamView>, n: int, k: u32)
    requires
        0 <= n <= ss.len() <= u32::MAX,
        k < n,
    ensures
        index_by_number(tracks_read(ss).take(n)).contains_key((k + 1) as u64),
        index_by_number(tracks_read(ss).take(n))[(k + 1) as u64] == k,
    decreases n,
{
    let all = tracks_read(ss).take(n);
    assert(all.drop_last() =~= tracks_read(ss).take(n - 1));
    assert(all.last().number == n);
    if k < n - 1 {
        lemma_index_read(ss, n - 1, k);
    }
}

/// The demuxer of a document that was written finds each stream under its number, puts
/// nothing in front of its frames, counts in milliseconds and starts in front of the first
/// Cluster.
pub proof fn lemma_layout_read(
    m: MuxerView,
    ps: Seq<PacketView>,
    answers: Seq<Option<Seq<char>>>,
)
    requires
        readable(m),
        finished(m, ps).len() <= MAX_LEN,
    ensures
        ({
            let v = demuxer_of(finished(m, ps), document_read(m, ps), answers);
            &&& layout_fits(v.layout, started(m))
            &&& in_step(v.layout, started(m), v.reader)
            &&& v.layout.time_base == (TimeBase { num: 1_000_000, den: 1_000_000_000 })
            &&& v.layout.data == finished(m, ps)
            &&& v.reader.pos == head_of(m).len()
        }),
{
    let doc = document_read(m, ps);
    let v = demuxer_of(finished(m, ps), doc, answers);
    let ss = m.streams;
    assert(doc.parts.tracks == tracks_read(ss));
    assert(doc.parts.info.timecode_scale == 1_000_000);
    assert forall|k: u32| k < ss.len() implies #[trigger] v.layout.track_index.contains_key(
        (k + 1) as u64,
    ) && v.layout.track_index[(k + 1) as u64] == k && prefix_of(v.layout.prefixes, k).len()
        == 0 by {
        lemma_index_read(ss, ss.len() as int, k);
        assert(tracks_read(ss).take(ss.len() as int) =~= tracks_read(ss));
        let t = tracks_read(ss)[k as int];
        assert(t.content_encodings is None);
    }
}

/// What the demuxer of a document that was written gives: all packets, in order and with
/// their data, their times in milliseconds, and then the end.
pub proof fn lemma_demuxer_reads_back(
    m: MuxerView,
    ps: Seq<PacketView>,
    answers: Seq<Option<Seq<char>>>,
)
    requires
        readable(m),
        ps.len() > 0,
        all_accepted(started(m), ps, head_of(m).len() as u64),
        finished(m, ps).len() <= MAX_LEN,
        clusters_end(m, ps) <= MAX_LEN,
    ensures
        ({
            let v = demuxer_of(finished(m, ps), document_read(m, ps), answers);
            let t = taken(v.layout, v.reader, ps.len());
            &&& t.0 == all_read(v.layout, started(m), ps, head_of(m).len() as u64)
            &&& t.0.len() == ps.len()
            &&& next_packet_of(v.layout, t.1).0 == Err::<PacketView, MkvError>(MkvError::Eof)
        }),
{
    let d = finished(m, ps);
    let w = clusters_of(m, ps);
    let n = head_of(m).len() as int;
    let v = demuxer_of(d, document_read(m, ps), answers);
    lemma_finished_parts(m, ps);
    lemma_layout_read(m, ps, answers);
    lemma_packets_read_back(v.layout, started(m), v.reader, ps, n as u64);
    let t = taken(v.layout, v.reader, ps.len());
    lemma_all_read_len(v.layout, started(m), ps, n as u64);
    if w.0.cues.len() == 0 {
        lemma_end_read_back(v.layout, w.0, t.1);
    } else {
        let body = cues_body(w.0.cues);
        lemma_cues_passed(
            v.layout,
            w.0,
            t.1,
            crate::write::crc_element(body) + body,
        );
    }
}

proof fn lemma_all_read_len(l: LayoutView, m: MuxerView, ps: Seq<PacketView>, pos: u64)
    ensures
        all_read(l, m, ps, pos).len() == ps.len(),
    decreases ps.len(),
{
    if ps.len() > 0 {
        let w = packet_written(m, ps[0], pos);
        lemma_all_read_len(l, w.muxer, ps.skip(1), moved(pos, w.bytes.len()));
    }
}

// ---------------------------------------------------------------------------
// Streams.

/// A stream that was written is read back, if Matroska has a name for its codec: the
/// codec and its setup bytes, what kind of stream it is, and the shape of its audio or
/// video. The sample format is read back for FLAC in the formats that FLAC has, and known
/// for PCM; of other codecs it is not said.
pub proof fn lemma_stream_read_back(
    index: u32,
    s: MuxStreamView,
    time_base: TimeBase,
    duration: Option<Float>,
)
    requires
        matroska_of(s.codec_id) is Some,
    ensures
        ({
            let t = stream_of(index, track_read((index + 1) as u64, s), None, time_base, duration);
            &&& t.index == index
            &&& t.codec_id == s.codec_id
            &&& t.extradata == s.extradata
            &&& s.media_type != MediaType::Data ==> t.media_type == s.media_type
            &&& s.media_type == MediaType::Data ==> t.media_type == MediaType::Subtitle
            &&& s.media_type == MediaType::Audio && s.sample_rate is Some ==> t.sample_rate
                == Some(Float::Double(f64_bits(s.sample_rate->0)))
            &&& s.media_type == MediaType::Audio && s.channels is Some ==> t.channels
                == s.channels
            &&& s.media_type == MediaType::Video && s.width is Some ==> t.width == s.width
            &&& s.media_type == MediaType::Video && s.height is Some ==> t.height == s.height
            &&& s.media_type == MediaType::Audio && (s.codec_id == "pcm_s16le"@ || s.codec_id
                == "pcm_s16be"@) ==> t.sample_format == Some(SampleFormat::S16)
            &&& s.media_type == MediaType::Audio && s.codec_id == "pcm_f32le"@
                ==> t.sample_format == Some(SampleFormat::F32)
            &&& s.media_type == MediaType::Audio && s.codec_id == "flac"@ && (s.sample_format
                matches Some(f) && (f == SampleFormat::U8 || f == SampleFormat::S16 || f
                == SampleFormat::S24 || f == SampleFormat::S32)) ==> t.sample_format
                == s.sample_format
            &&& s.media_type == MediaType::Audio && s.codec_id != "pcm_s16le"@ && s.codec_id
                != "pcm_s16be"@ && s.codec_id != "pcm_f32le"@ && s.codec_id != "flac"@
                ==> t.sample_format is None
            &&& s.media_type != MediaType::Audio ==> t.sample_rate is None && t.channels is None
                && t.sample_format is None
            &&& s.media_type != MediaType::Video ==> t.width is None && t.height is None
            &&& t.language is None
            &&& t.time_base == time_base
            &&& t.duration == duration
        }),
{
    let t = track_read((index + 1) as u64, s);
    lemma_pcm_names();
    assert(s.media_type == MediaType::Audio ==> t.audio.bit_depth == (match s.sample_format {
        Some(f) => (f.sample_len() * 8) as u64,
        None => 0u64,
    }));
    lemma_codec_round_trip(s.codec_id, t.codec_private);
    lemma_private_read(s);
}

/// The names of the codecs whose sample format is known are different.
proof fn lemma_pcm_names()
    ensures
        "pcm_s16le"@ != "pcm_f32le"@,
        "pcm_s16be"@ != "pcm_f32le"@,
        "pcm_s16le"@ != "flac"@,
        "pcm_s16be"@ != "flac"@,
        "pcm_f32le"@ != "flac"@,
{
    reveal_strlit("pcm_s16le");
    reveal_strlit("pcm_s16be");
    reveal_strlit("pcm_f32le");
    reveal_strlit("flac");
    assert("pcm_f32le"@[4] != "pcm_s16le"@[4] && "pcm_f32le"@[4] != "pcm_s16be"@[4]);
    assert("flac"@.len() != "pcm_s16le"@.len());
    assert("flac"@.len() != "pcm_s16be"@.len());
    assert("flac"@.len() != "pcm_f32le"@.len());
}

/// The setup bytes that were written are read back.
proof fn lemma_private_read(s: MuxStreamView)
    requires
        matroska_of(s.codec_id) is Some,
    ensures
        extradata_of(track_read(1, s), s.codec_id) == s.extradata,
        forall|n: u64| extradata_of(#[trigger] track_read(n, s), s.codec_id) == s.extradata,
{
    crate::codec_id::lemma_not_vfw(s.codec_id);
    let stored = stored_private(s.codec_id, s.extradata);
    if s.codec_id == "flac"@ {
        assert(crate::demux::streams::flac_magic() =~= stored.subrange(0, 4));
        assert(stored.skip(4) =~= s.extradata);
    }
}

} // verus!
