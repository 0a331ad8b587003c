//! A seek lands on the packet that the index entry was written for.

use vstd::prelude::*;
use super::document::{
    clusters_end, clusters_of, document_read, finished, head_of, lemma_finished_parts,
    lemma_layout_read, readable, started,
};
use super::elements::{
    holds, lemma_element_read, lemma_header_read, lemma_holds_split, lemma_uint_read, MAX_LEN,
};
use super::packets::{
    all_accepted, all_read, all_written, layout_fits, lemma_packet_written_wf, lemma_simple_block,
    packet_read,
};
use crate::arith::wrap_i64;
use crate::demux::demuxer::demuxer_of;
use crate::demux::reader::{
    cluster_time, jumped, next_packet_of, ClusterState, LayoutView, ReaderView,
};
use crate::ebml::{end_of, header_at, left_of, uint_at};
use crate::error::MkvError;
use crate::ids;
use crate::mux::cues::CueRecord;
use crate::mux::header::data_start;
use crate::mux::muxer::{
    cluster_start, is_indexed, moved, needs_cluster, packet_written, time_of, with_cluster,
    MuxerView,
};
use crate::mux::packets::{ms_of, simple_block, simple_block_body};
use crate::stream::PacketView;
use crate::write::{element, header_bytes, uint_element};

verus! {

// ---------------------------------------------------------------------------
// Inside a Cluster.

/// Whether elements lie one after the other from `pos` exactly up to `target`, and change
/// the time of the Cluster from `before` to `after`.
pub open spec fn lands(d: Seq<u8>, pos: int, target: int, before: i64, after: i64) -> bool
    decreases left_of(d, pos),
{
    if pos == target {
        before == after
    } else if pos < 0 || pos > target {
        false
    } else {
        match header_at(d, pos) {
            Err(_) => false,
            Ok(h) => {
                let body = pos + h.header_len;
                let next = end_of(body, h.size);
                next <= target && if h.id == ids::TIMECODE {
                    uint_at(d, body, h.size) matches Ok(v) && lands(
                        d,
                        next,
                        target,
                        wrap_i64(v as int) as i64,
                        after,
                    )
                } else {
                    lands(d, next, target, before, after)
                }
            },
        }
    }
}

proof fn lemma_lands_time(
    d: Seq<u8>,
    pos: int,
    target: int,
    body_end: int,
    before: i64,
    after: i64,
)
    requires
        lands(d, pos, target, before, after),
        target <= body_end,
    ensures
        cluster_time(d, pos, target, body_end, before) == Ok::<Option<i64>, (MkvError, int)>(
            Some(after),
        ),
    decreases left_of(d, pos),
{
    if pos != target {
        if let Ok(h) = header_at(d, pos) {
            let body = pos + h.header_len;
            let next = end_of(body, h.size);
            if h.id == ids::TIMECODE {
                if let Ok(v) = uint_at(d, body, h.size) {
                    lemma_lands_time(
                        d,
                        next,
                        target,
                        body_end,
                        wrap_i64(v as int) as i64,
                        after,
                    );
                }
            } else {
                lemma_lands_time(d, next, target, body_end, before, after);
            }
        }
    }
}

/// One more element that is no time.
proof fn lemma_lands_further(
    d: Seq<u8>,
    pos: int,
    target: int,
    before: i64,
    after: i64,
    id: u32,
    body: Seq<u8>,
)
    requires
        lands(d, pos, target, before, after),
        holds(d, target, element(id, body)),
        id == ids::SIMPLE_BLOCK,
        d.len() <= MAX_LEN,
        0 <= pos,
    ensures
        lands(d, pos, target + element(id, body).len(), before, after),
    decreases left_of(d, pos),
{
    lemma_element_read(d, target, id, body);
    let further = target + element(id, body).len();
    if pos == target {
        assert(lands(d, further, further, before, after));
    } else {
        if let Ok(h) = header_at(d, pos) {
            let b = pos + h.header_len;
            let next = end_of(b, h.size);
            if h.id == ids::TIMECODE {
                if let Ok(v) = uint_at(d, b, h.size) {
                    lemma_lands_further(
                        d,
                        next,
                        target,
                        wrap_i64(v as int) as i64,
                        after,
                        id,
                        body,
                    );
                }
            } else {
                lemma_lands_further(d, next, target, before, after, id, body);
            }
        }
    }
}

/// The first element of a Cluster that was written is its time.
proof fn lemma_lands_timecode(d: Seq<u8>, pos: int, v: u64)
    requires
        holds(d, pos, uint_element(ids::TIMECODE, v)),
        d.len() <= MAX_LEN,
        v <= i64::MAX,
    ensures
        lands(d, pos, pos + uint_element(ids::TIMECODE, v).len(), 0, v as i64),
{
    lemma_uint_read(d, pos, ids::TIMECODE, v);
    let next = pos + uint_element(ids::TIMECODE, v).len();
    assert(lands(d, next, next, v as i64, v as i64));
}

// ---------------------------------------------------------------------------
// The muxer's place.

/// Whether the open Cluster is where the muxer believes it is, with the output at `at`.
pub open spec fn placed(l: LayoutView, m: MuxerView, at: int) -> bool {
    &&& m.segment_data_start <= at
    &&& m.cluster_open ==> {
        let start = m.segment_data_start + m.cluster_offset_rel;
        &&& m.cluster_data_start == start + 12
        &&& holds(l.data, start, header_bytes(ids::CLUSTER, 0xFFFF_FFFF_FFFF_FFFF))
        &&& m.cluster_data_start <= at
        &&& lands(l.data, m.cluster_data_start as int, at, 0, m.cluster_timecode_ms)
    }
}

/// Whether a reader who jumps where the index entry `c` says gives the packet `p` next,
/// and the entry is for the stream and the time of `p`. The Segment's data starts at
/// `base`.
#[verifier::opaque]
pub open spec fn cue_lands(l: LayoutView, base: int, c: CueRecord, p: PacketView) -> bool {
    &&& c.track == p.stream_index + 1
    &&& p.pts matches Some(t) && c.time_ms == crate::mux::muxer::cluster_time(t)
    &&& forall|s: ReaderView|
        s.pos == base + c.cluster_offset && s.queue.len() == 0 ==> {
            let j = #[trigger] jumped(l, s, c.relative_position);
            j.0 is Ok && next_packet_of(l, j.1).0 == Ok::<PacketView, MkvError>(p)
        }
}

/// A jump to a block in a Cluster gives that block.
proof fn lemma_jump(
    l: LayoutView,
    s: ReaderView,
    relative: u64,
    timecode: i64,
    k: u32,
    offset: i16,
    keyframe: bool,
    data: Seq<u8>,
)
    requires
        l.data.len() <= MAX_LEN,
        l.data_end == l.data.len(),
        s.queue.len() == 0,
        holds(l.data, s.pos as int, header_bytes(ids::CLUSTER, 0xFFFF_FFFF_FFFF_FFFF)),
        lands(l.data, (s.pos + 12) as int, s.pos + 12 + relative, 0, timecode),
        holds(
            l.data,
            s.pos + 12 + relative,
            simple_block((k + 1) as u64, offset, keyframe, data),
        ),
        l.track_index.contains_key((k + 1) as u64),
        l.track_index[(k + 1) as u64] == k,
        crate::demux::reader::prefix_of(l.prefixes, k).len() == 0,
    ensures
        ({
            let j = jumped(l, s, relative);
            j.0 is Ok && next_packet_of(l, j.1).0 == Ok::<PacketView, MkvError>(
                super::packets::simple_packet(
                    l,
                    k,
                    wrap_i64(timecode + offset) as i64,
                    keyframe,
                    data,
                ),
            )
        }),
{
    let n: nat = 0xFFFF_FFFF_FFFF_FFFF;
    lemma_header_read(l.data, s.pos as int, ids::CLUSTER, n);
    let target = s.pos + 12 + relative;
    lemma_lands_time(l.data, (s.pos + 12) as int, target, l.data_end, 0, timecode);
    let t = ReaderView {
        pos: target as nat,
        cluster: ClusterState::InCluster {
            body_end: l.data_end as u64,
            cluster_timecode: timecode,
        },
        ..s
    };
    assert(jumped(l, s, relative) == (Ok::<(), MkvError>(()), t));
    lemma_simple_block(l, t, timecode, k, offset, keyframe, data);
}

/// The start of a Cluster puts the muxer in its place.
proof fn lemma_start_placed(l: LayoutView, m: MuxerView, ms: i64, at: u64)
    requires
        l.data.len() <= MAX_LEN,
        m.segment_data_start <= at,
        holds(l.data, at as int, cluster_start(ms)),
    ensures
        placed(l, with_cluster(m, ms, at), at + cluster_start(ms).len()),
        cluster_start(ms).len() >= 12,
{
    let n: nat = 0xFFFF_FFFF_FFFF_FFFF;
    let v = crate::mux::muxer::cluster_time(ms) as u64;
    let a = header_bytes(ids::CLUSTER, n);
    let b = uint_element(ids::TIMECODE, v);
    assert(cluster_start(ms) == a + b);
    lemma_holds_split(l.data, at as int, a, b);
    lemma_header_read(l.data, at as int, ids::CLUSTER, n);
    lemma_lands_timecode(l.data, at + 12, v);
}

/// A muxer that is in its place stays there, and an index entry that it notes lands on the
/// packet.
#[verifier::rlimit(60)]
proof fn lemma_packet_placed(l: LayoutView, m: MuxerView, p: PacketView, at: u64)
    requires
        m.wf(),
        layout_fits(l, m),
        placed(l, m, at as int),
        packet_written(m, p, at).result is Ok,
        holds(l.data, at as int, packet_written(m, p, at).bytes),
    ensures
        ({
            let w = packet_written(m, p, at);
            &&& placed(l, w.muxer, at + w.bytes.len())
            &&& w.muxer.segment_data_start == m.segment_data_start
            &&& w.muxer.cues == m.cues || (w.muxer.cues.len() == m.cues.len() + 1
                && w.muxer.cues.drop_last() == m.cues && cue_lands(
                l,
                m.segment_data_start as int,
                w.muxer.cues.last(),
                packet_read(l, m, p),
            ))
        }),
{
    let w = packet_written(m, p, at);
    let k = p.stream_index;
    let ms = ms_of(time_of(m, p), m.streams[k as int].time_base);
    let due = needs_cluster(m, ms);
    let timed = MuxerView {
        stream_pts: m.stream_pts.update(k as int, crate::mux::muxer::time_after(m, p)),
        ..m
    };
    let head = if due {
        cluster_start(ms)
    } else {
        Seq::empty()
    };
    let open = if due {
        with_cluster(timed, ms, at)
    } else {
        timed
    };
    let timecode = open.cluster_timecode_ms;
    let offset = (ms - timecode) as i16;
    let block = simple_block((k + 1) as u64, offset, p.keyframe, p.data);
    assert(w.bytes == head + block);
    lemma_holds_split(l.data, at as int, head, block);
    if due {
        lemma_start_placed(l, timed, ms, at);
    }
    let here = at + head.len();
    assert(placed(l, open, here));
    let body = simple_block_body((k + 1) as u64, offset, p.keyframe, p.data);
    lemma_lands_further(
        l.data,
        open.cluster_data_start as int,
        here,
        0,
        timecode,
        ids::SIMPLE_BLOCK,
        body,
    );
    assert(l.track_index.contains_key((k + 1) as u64));
    if is_indexed(open, p) {
        let c = w.muxer.cues.last();
        let base = m.segment_data_start as int;
        assert(w.muxer.cues.drop_last() =~= m.cues);
        assert(c.relative_position == here - open.cluster_data_start);
        assert(wrap_i64(timecode + offset) == ms);
        assert forall|s: ReaderView|
            s.pos == base + c.cluster_offset && s.queue.len() == 0 implies ({
            let j = #[trigger] jumped(l, s, c.relative_position);
            j.0 is Ok && next_packet_of(l, j.1).0 == Ok::<PacketView, MkvError>(
                packet_read(l, m, p),
            )
        }) by {
            lemma_jump(
                l,
                s,
                c.relative_position,
                timecode,
                k,
                offset,
                p.keyframe,
                p.data,
            );
        }
        reveal(cue_lands);
    }
}

/// Whether the entry `c` lands on one of the packets `ps`.
pub open spec fn lands_on_one(
    l: LayoutView,
    base: int,
    c: CueRecord,
    ps: Seq<PacketView>,
) -> bool {
    exists|i: int| 0 <= i < ps.len() && cue_lands(l, base, c, #[trigger] ps[i])
}

/// Whether every entry of `cs` lands on one of the packets `ps`.
pub open spec fn all_land(
    l: LayoutView,
    base: int,
    cs: Seq<CueRecord>,
    ps: Seq<PacketView>,
) -> bool {
    forall|j: int| 0 <= j < cs.len() ==> lands_on_one(l, base, #[trigger] cs[j], ps)
}

/// With a packet that may have brought an entry of its own, every entry still lands.
proof fn lemma_lands_with(
    l: LayoutView,
    base: int,
    cs: Seq<CueRecord>,
    ps: Seq<PacketView>,
    more: Seq<CueRecord>,
    x: PacketView,
)
    requires
        all_land(l, base, cs, ps),
        more == cs || (more.len() == cs.len() + 1 && more.drop_last() == cs && cue_lands(
            l,
            base,
            more.last(),
            x,
        )),
    ensures
        all_land(l, base, more, ps.push(x)),
{
    let qs = ps.push(x);
    assert forall|j: int| 0 <= j < more.len() implies lands_on_one(
        l,
        base,
        #[trigger] more[j],
        qs,
    ) by {
        if j < cs.len() {
            assert(more[j] == cs[j]);
            assert(lands_on_one(l, base, cs[j], ps));
            let i = choose|i: int|
                0 <= i < ps.len() && cue_lands(l, base, cs[j], #[trigger] ps[i]);
            assert(qs[i] == ps[i]);
        } else {
            assert(qs[ps.len() as int] == x);
        }
    }
}

/// The entries that are noted while packets are written land on them.
#[verifier::rlimit(60)]
proof fn lemma_packets_placed(
    l: LayoutView,
    m: MuxerView,
    ps: Seq<PacketView>,
    at: u64,
    done: Seq<PacketView>,
)
    requires
        m.wf(),
        layout_fits(l, m),
        placed(l, m, at as int),
        all_accepted(m, ps, at),
        holds(l.data, at as int, all_written(m, ps, at).1),
        all_land(l, m.segment_data_start as int, m.cues, done),
    ensures
        all_land(
            l,
            m.segment_data_start as int,
            all_written(m, ps, at).0.cues,
            done + all_read(l, m, ps, at),
        ),
    decreases ps.len(),
{
    let base = m.segment_data_start as int;
    if ps.len() == 0 {
        assert(done + all_read(l, m, ps, at) =~= done);
    } else {
        let w = packet_written(m, ps[0], at);
        let next = moved(at, w.bytes.len());
        let rest = all_written(w.muxer, ps.skip(1), next);
        lemma_holds_split(l.data, at as int, w.bytes, rest.1);
        lemma_packet_placed(l, m, ps[0], at);
        lemma_packet_written_wf(m, ps[0], at);
        let x = packet_read(l, m, ps[0]);
        let more = done.push(x);
        lemma_lands_with(l, base, m.cues, done, w.muxer.cues, x);
        assert(next == at + w.bytes.len());
        lemma_packets_placed(l, w.muxer, ps.skip(1), next, more);
        assert(done + all_read(l, m, ps, at) =~= more + all_read(l, w.muxer, ps.skip(1), next));
    }
}

/// Every entry of the seek index of a document that was written lands on a packet of its
/// stream and its time.
pub proof fn lemma_seeks_land(
    m: MuxerView,
    ps: Seq<PacketView>,
    answers: Seq<Option<Seq<char>>>,
)
    requires
        readable(m),
        all_accepted(started(m), ps, head_of(m).len() as u64),
        finished(m, ps).len() <= MAX_LEN,
        clusters_end(m, ps) <= MAX_LEN,
    ensures
        ({
            let v = demuxer_of(finished(m, ps), document_read(m, ps), answers);
            all_land(
                v.layout,
                v.data_start,
                clusters_of(m, ps).0.cues,
                all_read(v.layout, started(m), ps, head_of(m).len() as u64),
            )
        }),
{
    let v = demuxer_of(finished(m, ps), document_read(m, ps), answers);
    let s = started(m);
    let n = head_of(m).len();
    lemma_finished_parts(m, ps);
    lemma_layout_read(m, ps, answers);
    assert(data_start(m.doc_type) <= n);
    let none = Seq::<PacketView>::empty();
    assert(all_land(v.layout, s.segment_data_start as int, s.cues, none));
    lemma_packets_placed(v.layout, s, ps, n as u64, none);
    assert(none + all_read(v.layout, s, ps, n as u64) =~= all_read(v.layout, s, ps, n as u64));
}

} // verus!
