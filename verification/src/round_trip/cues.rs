//! The seek index that was written is read back.

use vstd::prelude::*;
use super::elements::{
    header, holds, lemma_crc_read, lemma_element_read, lemma_header_read, lemma_holds_split,
    lemma_uint_read, lemma_walk_step, MAX_LEN,
};
use super::header::fitting;
use super::packets::{all_written, lemma_packet_written_wf};
use crate::demux::crc::CrcStatus;
use crate::demux::cues::{
    cue_point_step, cue_positions_step, cues_step, empty_positions, CueEntry, CuePointState,
    CuePositions,
};
use crate::demux::segment::{scanned, unknown_cluster_end};
use crate::ebml::{crc32, walk};
use crate::error::MkvError;
use crate::ids;
use crate::mux::cues::{
    by_time, cues_body, cues_element, lemma_run_len, points, position_body, positions, run_len,
    CueRecord,
};
use crate::mux::muxer::{
    cluster_start, cluster_time, moved, needs_cluster, packet_written, time_of, MuxerView,
};
use crate::mux::packets::{ms_of, simple_block, simple_block_body};
use crate::sort::stable_sorted;
use crate::stream::PacketView;
use crate::write::{crc_element, element, header_bytes, le_bytes4, uint_element, uint_len};

verus! {

// ---------------------------------------------------------------------------
// The Cues.

/// What is read of an index entry that was written.
pub open spec fn cue_read(c: CueRecord) -> CueEntry {
    CueEntry {
        track: c.track,
        time: c.time_ms,
        cluster_offset: c.cluster_offset,
        relative_position: Some(c.relative_position),
    }
}

/// What is read of index entries that were written.
pub open spec fn cues_read(cs: Seq<CueRecord>) -> Seq<CueEntry> {
    cs.map_values(|c: CueRecord| cue_read(c))
}

proof fn lemma_position_read(d: Seq<u8>, pos: int, c: CueRecord)
    requires
        holds(d, pos, position_body(c)),
        d.len() <= MAX_LEN,
    ensures
        walk(
            d,
            pos,
            pos + position_body(c).len(),
            empty_positions(),
            cue_positions_step(d),
        ) == Ok::<(CuePositions, int), MkvError>(
            (
                CuePositions {
                    track: c.track,
                    cluster_offset: Some(c.cluster_offset),
                    relative_position: Some(c.relative_position),
                },
                pos + position_body(c).len(),
            ),
        ),
{
    let end = pos + position_body(c).len();
    let step = cue_positions_step(d);
    let a = uint_element(ids::CUE_TRACK, c.track);
    let b = uint_element(ids::CUE_CLUSTER_POSITION, c.cluster_offset);
    let e = uint_element(ids::CUE_RELATIVE_POSITION, c.relative_position);
    lemma_holds_split(d, pos, a + b, e);
    lemma_holds_split(d, pos, a, b);
    let p1 = pos + a.len();
    let p2 = p1 + b.len();
    let s0 = empty_positions();
    let s1 = CuePositions { track: c.track, ..s0 };
    let s2 = CuePositions { cluster_offset: Some(c.cluster_offset), ..s1 };
    let s3 = CuePositions { relative_position: Some(c.relative_position), ..s2 };
    assert(walk(d, pos, end, s0, step) == walk(d, p1, end, s1, step)) by {
        lemma_uint_read(d, pos, ids::CUE_TRACK, c.track);
    }
    assert(walk(d, p1, end, s1, step) == walk(d, p2, end, s2, step)) by {
        lemma_uint_read(d, p1, ids::CUE_CLUSTER_POSITION, c.cluster_offset);
    }
    assert(walk(d, p2, end, s2, step) == walk(d, end, end, s3, step)) by {
        lemma_uint_read(d, p2, ids::CUE_RELATIVE_POSITION, c.relative_position);
    }
}

/// CueTrackPositions from the one with index `k` on.
spec fn positions_from(cs: Seq<CueRecord>, k: int) -> Seq<u8>
    decreases cs.len() - k,
{
    if k < 0 || k >= cs.len() {
        Seq::empty()
    } else {
        element(ids::CUE_TRACK_POSITIONS, position_body(cs[k])) + positions_from(cs, k + 1)
    }
}

proof fn lemma_positions_from(cs: Seq<CueRecord>, k: int)
    requires
        0 <= k <= cs.len(),
    ensures
        positions(cs.take(k)) + positions_from(cs, k) == positions(cs),
    decreases cs.len() - k,
{
    if k == cs.len() {
        assert(cs.take(k) =~= cs);
        assert(positions(cs) + Seq::<u8>::empty() =~= positions(cs));
    } else {
        lemma_positions_from(cs, k + 1);
        assert(cs.take(k + 1).drop_last() =~= cs.take(k));
        let e = element(ids::CUE_TRACK_POSITIONS, position_body(cs[k]));
        assert(positions(cs.take(k)) + (e + positions_from(cs, k + 1)) =~= positions(cs.take(k))
            + e + positions_from(cs, k + 1));
    }
}

/// The state of a walk over a CuePoint with the first `k` entries.
spec fn point_with(before: Seq<CueEntry>, time: u64, cs: Seq<CueRecord>, k: int) -> CuePointState {
    CuePointState { time: time, cues: before + cues_read(cs.take(k)) }
}

proof fn lemma_positions_read(
    d: Seq<u8>,
    pos: int,
    before: Seq<CueEntry>,
    time: u64,
    cs: Seq<CueRecord>,
    k: int,
)
    requires
        0 <= k <= cs.len(),
        holds(d, pos, positions_from(cs, k)),
        d.len() <= MAX_LEN,
        forall|i: int| 0 <= i < cs.len() ==> (#[trigger] cs[i]).time_ms == time,
    ensures
        walk(
            d,
            pos,
            pos + positions_from(cs, k).len(),
            point_with(before, time, cs, k),
            cue_point_step(d),
        ) == Ok::<(CuePointState, int), MkvError>(
            (
                point_with(before, time, cs, cs.len() as int),
                pos + positions_from(cs, k).len(),
            ),
        ),
    decreases cs.len() - k,
{
    if k < cs.len() {
        let body = position_body(cs[k]);
        let e = element(ids::CUE_TRACK_POSITIONS, body);
        let rest = positions_from(cs, k + 1);
        let end = pos + positions_from(cs, k).len();
        lemma_holds_split(d, pos, e, rest);
        lemma_element_read(d, pos, ids::CUE_TRACK_POSITIONS, body);
        let h = header(ids::CUE_TRACK_POSITIONS, body.len());
        lemma_position_read(d, pos + h.header_len, cs[k]);
        let s = point_with(before, time, cs, k);
        let t = point_with(before, time, cs, k + 1);
        assert(s.cues.push(cue_read(cs[k])) =~= t.cues);
        lemma_walk_step(d, pos, end, s, cue_point_step(d), h, t, pos + e.len());
        lemma_positions_read(d, pos + e.len(), before, time, cs, k + 1);
    }
}

/// The children of a CuePoint.
spec fn point_body(time: u64, cs: Seq<CueRecord>) -> Seq<u8> {
    uint_element(ids::CUE_TIME, time) + positions(cs)
}

proof fn lemma_point_read(
    d: Seq<u8>,
    pos: int,
    before: Seq<CueEntry>,
    time: u64,
    cs: Seq<CueRecord>,
)
    requires
        holds(d, pos, point_body(time, cs)),
        d.len() <= MAX_LEN,
        forall|i: int| 0 <= i < cs.len() ==> (#[trigger] cs[i]).time_ms == time,
    ensures
        walk(
            d,
            pos,
            pos + point_body(time, cs).len(),
            CuePointState { time: 0, cues: before },
            cue_point_step(d),
        ) == Ok::<(CuePointState, int), MkvError>(
            (
                CuePointState { time: time, cues: before + cues_read(cs) },
                pos + point_body(time, cs).len(),
            ),
        ),
{
    let a = uint_element(ids::CUE_TIME, time);
    let end = pos + point_body(time, cs).len();
    lemma_holds_split(d, pos, a, positions(cs));
    lemma_uint_read(d, pos, ids::CUE_TIME, time);
    let s0 = CuePointState { time: 0, cues: before };
    let s1 = point_with(before, time, cs, 0);
    assert(before + cues_read(cs.take(0)) =~= before);
    let h = header(ids::CUE_TIME, uint_len(time));
    lemma_walk_step(d, pos, end, s0, cue_point_step(d), h, s1, pos + a.len());
    lemma_positions_from(cs, 0);
    assert(cs.take(0) =~= Seq::<CueRecord>::empty());
    assert(positions(cs.take(0)) + positions_from(cs, 0) =~= positions_from(cs, 0));
    lemma_positions_read(d, pos + a.len(), before, time, cs, 0);
    assert(cs.take(cs.len() as int) =~= cs);
}

proof fn lemma_run_times(cs: Seq<CueRecord>, n: nat, i: int)
    requires
        forall|k: int| 0 <= k < n ==> (#[trigger] cs[k]).time_ms == cs[0].time_ms,
        0 <= i < run_len(cs, n),
    ensures
        cs[i].time_ms == cs[0].time_ms,
    decreases cs.len() - n,
{
    if n < cs.len() && cs[n as int].time_ms == cs[0].time_ms {
        lemma_run_times(cs, n + 1, i);
    }
}

#[verifier::rlimit(60)]
proof fn lemma_points_read(d: Seq<u8>, pos: int, before: Seq<CueEntry>, cs: Seq<CueRecord>)
    requires
        holds(d, pos, points(cs)),
        d.len() <= MAX_LEN,
    ensures
        walk(d, pos, pos + points(cs).len(), before, cues_step(d)) == Ok::<
            (Seq<CueEntry>, int),
            MkvError,
        >((before + cues_read(cs), pos + points(cs).len())),
    decreases cs.len(),
{
    if cs.len() == 0 {
        assert(before + cues_read(cs) =~= before);
    } else {
        let k = run_len(cs, 0) as int;
        lemma_run_len(cs, 0);
        let run = cs.take(k);
        let time = cs[0].time_ms;
        let body = point_body(time, run);
        let e = element(ids::CUE_POINT, body);
        let rest = points(cs.skip(k));
        let end = pos + points(cs).len();
        assert(points(cs) == e + rest);
        assert forall|i: int| 0 <= i < run.len() implies (#[trigger] run[i]).time_ms == time by {
            lemma_run_times(cs, 0, i);
        }
        lemma_holds_split(d, pos, e, rest);
        lemma_element_read(d, pos, ids::CUE_POINT, body);
        let h = header(ids::CUE_POINT, body.len());
        lemma_point_read(d, pos + h.header_len, before, time, run);
        let t = before + cues_read(run);
        lemma_walk_step(d, pos, end, before, cues_step(d), h, t, pos + e.len());
        lemma_points_read(d, pos + e.len(), t, cs.skip(k));
        assert(t + cues_read(cs.skip(k)) =~= before + cues_read(cs));
    }
}

/// The seek index that was written is read back, behind the checksum: all entries, by
/// time.
pub proof fn lemma_cues_read(d: Seq<u8>, pos: int, cs: Seq<CueRecord>)
    requires
        holds(d, pos, crc_element(cues_body(cs)) + cues_body(cs)),
        d.len() <= MAX_LEN,
    ensures
        walk(
            d,
            pos,
            pos + 6 + cues_body(cs).len(),
            Seq::<CueEntry>::empty(),
            cues_step(d),
        ) == Ok::<(Seq<CueEntry>, int), MkvError>(
            (cues_read(stable_sorted(cs, by_time())), pos + 6 + cues_body(cs).len()),
        ),
{
    let body = cues_body(cs);
    let end = pos + 6 + body.len();
    let none = Seq::<CueEntry>::empty();
    lemma_crc_read(d, pos, ids::CUES, body);
    lemma_holds_split(d, pos, crc_element(body), body);
    lemma_element_read(d, pos, ids::CRC32, le_bytes4(crc32(body)));
    lemma_walk_step(d, pos, end, none, cues_step(d), header(ids::CRC32, 4), none, pos + 6);
    lemma_points_read(d, pos + 6, none, stable_sorted(cs, by_time()));
    assert(none + cues_read(stable_sorted(cs, by_time())) =~= cues_read(
        stable_sorted(cs, by_time()),
    ));
}

// ---------------------------------------------------------------------------
// Finding the Cues behind the Clusters.

/// What a search for the Cues finds that goes on at `pos`, in a Cluster or between two.
pub open spec fn scan_from(
    d: Seq<u8>,
    pos: int,
    crc: Seq<CrcStatus>,
    in_cluster: bool,
) -> (Seq<CueEntry>, Seq<CrcStatus>) {
    let end = d.len() as int;
    if in_cluster {
        match unknown_cluster_end(d, pos, end) {
            Some(next) => scanned(d, next, end, crc),
            None => (Seq::empty(), crc),
        }
    } else {
        scanned(d, pos, end, crc)
    }
}

/// A search passes over an element of a Cluster.
proof fn lemma_scan_child(d: Seq<u8>, pos: int, crc: Seq<CrcStatus>, id: u32, body: Seq<u8>)
    requires
        id == ids::TIMECODE || id == ids::SIMPLE_BLOCK,
        holds(d, pos, element(id, body)),
        d.len() <= MAX_LEN,
    ensures
        scan_from(d, pos, crc, true) == scan_from(d, pos + element(id, body).len(), crc, true),
{
    lemma_element_read(d, pos, id, body);
}

/// A search passes into a Cluster.
#[verifier::rlimit(60)]
proof fn lemma_scan_cluster(d: Seq<u8>, pos: int, crc: Seq<CrcStatus>, in_cluster: bool, ms: i64)
    requires
        holds(d, pos, cluster_start(ms)),
        d.len() <= MAX_LEN,
    ensures
        scan_from(d, pos, crc, in_cluster) == scan_from(
            d,
            pos + cluster_start(ms).len(),
            crc,
            true,
        ),
{
    let n: nat = 0xFFFF_FFFF_FFFF_FFFF;
    let v = cluster_time(ms) as u64;
    let a = header_bytes(ids::CLUSTER, n);
    let b = uint_element(ids::TIMECODE, v);
    assert(cluster_start(ms) == a + b);
    lemma_holds_split(d, pos, a, b);
    lemma_header_read(d, pos, ids::CLUSTER, n);
    assert(scan_from(d, pos, crc, in_cluster) == scan_from(d, pos, crc, false));
    assert(scan_from(d, pos, crc, false) == scan_from(d, pos + 12, crc, true)) by {
        crate::demux::segment::lemma_unknown_cluster_end(d, pos + 12, d.len() as int);
    }
    reveal(uint_element);
    lemma_scan_child(
        d,
        pos + 12,
        crc,
        ids::TIMECODE,
        crate::ebml::be_bytes(v as nat, uint_len(v)),
    );
}

/// A search passes over what was written of a packet.
proof fn lemma_scan_packet(
    d: Seq<u8>,
    pos: int,
    crc: Seq<CrcStatus>,
    m: MuxerView,
    p: PacketView,
    at: u64,
)
    requires
        m.wf(),
        holds(d, pos, packet_written(m, p, at).bytes),
        d.len() <= MAX_LEN,
    ensures
        scan_from(d, pos, crc, m.cluster_open) == scan_from(
            d,
            pos + packet_written(m, p, at).bytes.len(),
            crc,
            packet_written(m, p, at).muxer.cluster_open,
        ),
{
    let w = packet_written(m, p, at);
    let k = p.stream_index as int;
    if m.header_written && k < m.streams.len() {
        let ms = ms_of(time_of(m, p), m.streams[k].time_base);
        let due = needs_cluster(m, ms);
        let head = if due {
            cluster_start(ms)
        } else {
            Seq::empty()
        };
        let timecode = if due {
            cluster_time(ms)
        } else {
            m.cluster_timecode_ms
        };
        if w.result is Ok {
            let offset = (ms - timecode) as i16;
            let block = simple_block((k + 1) as u64, offset, p.keyframe, p.data);
            assert(w.bytes == head + block);
            lemma_holds_split(d, pos, head, block);
            if due {
                lemma_scan_cluster(d, pos, crc, m.cluster_open, ms);
            }
            lemma_scan_child(
                d,
                pos + head.len(),
                crc,
                ids::SIMPLE_BLOCK,
                simple_block_body((k + 1) as u64, offset, p.keyframe, p.data),
            );
        } else {
            assert(w.bytes == head);
            if due {
                lemma_scan_cluster(d, pos, crc, m.cluster_open, ms);
            }
        }
    }
}

/// A search passes over everything that was written of packets.
pub proof fn lemma_scan_packets(
    d: Seq<u8>,
    pos: int,
    crc: Seq<CrcStatus>,
    m: MuxerView,
    ps: Seq<PacketView>,
    at: u64,
)
    requires
        m.wf(),
        holds(d, pos, all_written(m, ps, at).1),
        d.len() <= MAX_LEN,
    ensures
        scan_from(d, pos, crc, m.cluster_open) == scan_from(
            d,
            pos + all_written(m, ps, at).1.len(),
            crc,
            all_written(m, ps, at).0.cluster_open,
        ),
    decreases ps.len(),
{
    if ps.len() > 0 {
        let w = packet_written(m, ps[0], at);
        let next = moved(at, w.bytes.len());
        let rest = all_written(w.muxer, ps.skip(1), next);
        lemma_holds_split(d, pos, w.bytes, rest.1);
        lemma_scan_packet(d, pos, crc, m, ps[0], at);
        lemma_packet_written_wf(m, ps[0], at);
        lemma_scan_packets(d, pos + w.bytes.len(), crc, w.muxer, ps.skip(1), next);
    }
}

/// A search that comes to the Cues that were written finds them, and their checksum fits.
pub proof fn lemma_scan_cues(
    d: Seq<u8>,
    pos: int,
    crc: Seq<CrcStatus>,
    in_cluster: bool,
    cs: Seq<CueRecord>,
)
    requires
        holds(d, pos, cues_element(cs)),
        d.len() <= MAX_LEN,
    ensures
        scan_from(d, pos, crc, in_cluster) == (
            cues_read(stable_sorted(cs, by_time())),
            crc.push(fitting(ids::CUES, cues_body(cs))),
        ),
{
    let body = cues_body(cs);
    let all = crc_element(body) + body;
    lemma_element_read(d, pos, ids::CUES, all);
    let h = header(ids::CUES, all.len());
    lemma_crc_read(d, pos + h.header_len, ids::CUES, body);
    lemma_cues_read(d, pos + h.header_len, cs);
    assert(scan_from(d, pos, crc, in_cluster) == scan_from(d, pos, crc, false));
}

/// A search that comes to the end of the document finds nothing.
pub proof fn lemma_scan_end(d: Seq<u8>, crc: Seq<CrcStatus>, in_cluster: bool)
    ensures
        scan_from(d, d.len() as int, crc, in_cluster) == (Seq::<CueEntry>::empty(), crc),
{
}

} // verus!
