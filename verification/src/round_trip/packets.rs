//! Packets that were written are read back.

use vstd::prelude::*;
use super::elements::{
    header, holds, lemma_element_read, lemma_header_read, lemma_holds_split, lemma_size_read,
    lemma_uint_read, MAX_LEN,
};
use crate::arith::wrap_i64;
use crate::demux::reader::{
    advanced, be_i16, block_is_keyframe, block_packets, next_packet_of, packets_of, prefix_of,
    queued, ClusterState, LayoutView, ReaderView,
};
use crate::ebml::{be_bytes, lemma_be_bytes_len};
use crate::error::MkvError;
use crate::ids;
use crate::mux::muxer::{
    cluster_start, cluster_time, moved, needs_cluster, packet_written, time_of, MuxerView,
};
use crate::mux::packets::{bits16, ms_of, simple_block, simple_block_body};
use crate::stream::PacketView;
use crate::write::{element, id_bytes, size_bytes, size_len, uint_element, unknown_size_bytes};

verus! {

// ---------------------------------------------------------------------------
// Blocks.

/// The bytes of a signed 16-bit number are read back.
pub proof fn lemma_i16_read(v: i16)
    ensures
        be_bytes(bits16(v), 2).len() == 2,
        be_i16(be_bytes(bits16(v), 2)[0], be_bytes(bits16(v), 2)[1]) == v,
{
    let n = bits16(v);
    reveal_with_fuel(be_bytes, 3);
    assert(be_bytes(n, 2) =~= seq![(n / 256 % 256) as u8, (n % 256) as u8]);
}

/// A packet as it is read from a SimpleBlock.
pub open spec fn simple_packet(
    l: LayoutView,
    stream: u32,
    time: i64,
    keyframe: bool,
    data: Seq<u8>,
) -> PacketView {
    PacketView {
        stream_index: stream,
        time_base: l.time_base,
        pts: Some(time),
        dts: Some(time),
        duration: None,
        keyframe,
        data,
    }
}

/// A SimpleBlock that was written is read back as one packet, with the data and the keyframe
/// flag that went in and the time after the Cluster's.
pub proof fn lemma_block_read(
    l: LayoutView,
    track: u64,
    offset: i16,
    keyframe: bool,
    data: Seq<u8>,
    timecode: i64,
)
    requires
        track <= MAX_LEN,
        l.track_index.contains_key(track),
        prefix_of(l.prefixes, l.track_index[track]).len() == 0,
    ensures
        block_packets(
            l,
            simple_block_body(track, offset, keyframe, data),
            timecode,
            block_is_keyframe(simple_block_body(track, offset, keyframe, data)),
            None,
        ) == Ok::<Seq<PacketView>, MkvError>(
            seq![
                simple_packet(
                    l,
                    l.track_index[track],
                    wrap_i64(timecode + offset) as i64,
                    keyframe,
                    data,
                ),
            ],
        ),
{
    let bytes = simple_block_body(track, offset, keyframe, data);
    let a = size_bytes(track as nat);
    let b = be_bytes(bits16(offset), 2);
    let flags: u8 = if keyframe {
        0x80u8
    } else {
        0u8
    };
    let w = size_len(track as nat) as int;
    lemma_i16_read(offset);
    assert(holds(bytes, 0, a)) by {
        lemma_be_bytes_len(crate::write::size_code(track as nat), size_len(track as nat));
        assert(bytes.subrange(0, w) =~= a);
    }
    lemma_size_read(bytes, 0, track as nat);
    assert(bytes[w] == b[0]);
    assert(bytes[w + 1] == b[1]);
    assert(bytes[w + 2] == flags);
    assert(bytes.skip(w + 3) =~= data);
    assert((0x80u8 >> 1) & 3 == 0) by (bit_vector);
    assert((0u8 >> 1) & 3 == 0) by (bit_vector);
    assert(0x80u8 & 0x80 != 0) by (bit_vector);
    assert(0u8 & 0x80 == 0) by (bit_vector);
    let stream = l.track_index[track];
    let time = wrap_i64(timecode + offset) as i64;
    assert(prefix_of(l.prefixes, stream) + data =~= data);
    assert(packets_of(l, stream, seq![data], time, None, keyframe) =~= seq![
        simple_packet(l, stream, time, keyframe, data),
    ]);
}

// ---------------------------------------------------------------------------
// Reading on.

/// Whether the layout `l` is that of a document that the muxer `m` has written: every
/// stream is found under its track number, and nothing is put in front of its frames.
pub open spec fn layout_fits(l: LayoutView, m: MuxerView) -> bool {
    &&& l.data.len() <= MAX_LEN
    &&& l.data_end == l.data.len()
    &&& m.streams.len() <= MAX_LEN
    &&& forall|k: u32|
        k < m.streams.len() ==> #[trigger] l.track_index.contains_key((k + 1) as u64)
            && l.track_index[(k + 1) as u64] == k && prefix_of(l.prefixes, k).len() == 0
}

/// Whether the reader stands where the muxer does: in the same Cluster, with nothing left
/// over.
pub open spec fn in_step(l: LayoutView, m: MuxerView, r: ReaderView) -> bool {
    &&& r.queue.len() == 0
    &&& r.cluster == (if m.cluster_open {
        ClusterState::InCluster {
            body_end: l.data_end as u64,
            cluster_timecode: m.cluster_timecode_ms,
        }
    } else {
        ClusterState::Idle
    })
}

/// A reader without packets goes on.
proof fn lemma_reads_on(l: LayoutView, r: ReaderView, t: ReaderView)
    requires
        r.queue.len() == 0,
        advanced(l, r) == Ok::<ReaderView, MkvError>(t),
    ensures
        next_packet_of(l, r) == next_packet_of(l, t),
{
}

/// The reader behind the start of a Cluster.
pub open spec fn behind_start(l: LayoutView, r: ReaderView, ms: i64) -> ReaderView {
    ReaderView {
        pos: r.pos + cluster_start(ms).len(),
        cluster: ClusterState::InCluster {
            body_end: l.data_end as u64,
            cluster_timecode: cluster_time(ms),
        },
        ..r
    }
}

/// The header of a Cluster of unknown size is read.
proof fn lemma_cluster_header(l: LayoutView, r: ReaderView)
    requires
        l.data.len() <= MAX_LEN,
        l.data_end == l.data.len(),
        r.queue.len() == 0,
        holds(l.data, r.pos as int, id_bytes(ids::CLUSTER) + unknown_size_bytes()),
        r.cluster matches ClusterState::InCluster { body_end, .. } ==> body_end == l.data_end,
    ensures
        (id_bytes(ids::CLUSTER) + unknown_size_bytes()).len() == 12,
        next_packet_of(l, r) == next_packet_of(
            l,
            ReaderView {
                pos: r.pos + 12,
                cluster: ClusterState::InCluster {
                    body_end: l.data_end as u64,
                    cluster_timecode: 0,
                },
                ..r
            },
        ),
{
    let n: nat = 0xFFFF_FFFF_FFFF_FFFF;
    lemma_header_read(l.data, r.pos as int, ids::CLUSTER, n);
    let idle = ReaderView { cluster: ClusterState::Idle, ..r };
    let h = header(ids::CLUSTER, n);
    assert(h.header_len == 12);
    if let ClusterState::InCluster { body_end, cluster_timecode } = r.cluster {
        assert(advanced(l, r) == Ok::<ReaderView, MkvError>(idle));
        lemma_reads_on(l, r, idle);
    } else {
        assert(idle == r);
    }
    let inside = ReaderView {
        pos: r.pos + 12,
        cluster: ClusterState::InCluster { body_end: l.data_end as u64, cluster_timecode: 0 },
        ..r
    };
    assert(advanced(l, idle) == Ok::<ReaderView, MkvError>(inside));
    lemma_reads_on(l, idle, inside);
}

/// The time of a Cluster is read.
proof fn lemma_cluster_timecode(l: LayoutView, r: ReaderView, v: u64)
    requires
        l.data.len() <= MAX_LEN,
        l.data_end == l.data.len(),
        r.queue.len() == 0,
        holds(l.data, r.pos as int, uint_element(ids::TIMECODE, v)),
        r.cluster matches ClusterState::InCluster { body_end, .. } && body_end == l.data_end,
        v <= i64::MAX,
    ensures
        next_packet_of(l, r) == next_packet_of(
            l,
            ReaderView {
                pos: r.pos + uint_element(ids::TIMECODE, v).len(),
                cluster: ClusterState::InCluster {
                    body_end: l.data_end as u64,
                    cluster_timecode: v as i64,
                },
                ..r
            },
        ),
{
    lemma_uint_read(l.data, r.pos as int, ids::TIMECODE, v);
    let t = ReaderView {
        pos: r.pos + uint_element(ids::TIMECODE, v).len(),
        cluster: ClusterState::InCluster {
            body_end: l.data_end as u64,
            cluster_timecode: v as i64,
        },
        ..r
    };
    assert(advanced(l, r) == Ok::<ReaderView, MkvError>(t));
    lemma_reads_on(l, r, t);
}

/// The start of a Cluster is read.
proof fn lemma_cluster_start(l: LayoutView, r: ReaderView, ms: i64)
    requires
        l.data.len() <= MAX_LEN,
        l.data_end == l.data.len(),
        r.queue.len() == 0,
        holds(l.data, r.pos as int, cluster_start(ms)),
        r.cluster matches ClusterState::InCluster { body_end, .. } ==> body_end == l.data_end,
    ensures
        next_packet_of(l, r) == next_packet_of(l, behind_start(l, r, ms)),
{
    let a = id_bytes(ids::CLUSTER) + unknown_size_bytes();
    let v = cluster_time(ms) as u64;
    let b = uint_element(ids::TIMECODE, v);
    lemma_holds_split(l.data, r.pos as int, a, b);
    lemma_cluster_header(l, r);
    let inside = ReaderView {
        pos: r.pos + 12,
        cluster: ClusterState::InCluster { body_end: l.data_end as u64, cluster_timecode: 0 },
        ..r
    };
    lemma_cluster_timecode(l, inside, v);
    assert(behind_start(l, r, ms).pos == inside.pos + b.len());
}

/// A SimpleBlock in a Cluster is read.
pub proof fn lemma_simple_block(
    l: LayoutView,
    r: ReaderView,
    timecode: i64,
    k: u32,
    offset: i16,
    keyframe: bool,
    data: Seq<u8>,
)
    requires
        l.data.len() <= MAX_LEN,
        l.data_end == l.data.len(),
        r.queue.len() == 0,
        holds(l.data, r.pos as int, simple_block((k + 1) as u64, offset, keyframe, data)),
        r.cluster == (ClusterState::InCluster {
            body_end: l.data_end as u64,
            cluster_timecode: timecode,
        }),
        l.track_index.contains_key((k + 1) as u64),
        l.track_index[(k + 1) as u64] == k,
        prefix_of(l.prefixes, k).len() == 0,
    ensures
        next_packet_of(l, r) == (
            Ok::<PacketView, MkvError>(
                simple_packet(l, k, wrap_i64(timecode + offset) as i64, keyframe, data),
            ),
            ReaderView {
                pos: r.pos + simple_block((k + 1) as u64, offset, keyframe, data).len(),
                ..r
            },
        ),
{
    let track = (k + 1) as u64;
    let body = simple_block_body(track, offset, keyframe, data);
    lemma_element_read(l.data, r.pos as int, ids::SIMPLE_BLOCK, body);
    lemma_block_read(l, track, offset, keyframe, data, timecode);
    let p = simple_packet(l, k, wrap_i64(timecode + offset) as i64, keyframe, data);
    let next = r.pos + simple_block(track, offset, keyframe, data).len();
    let t = queued(r, seq![p], next as int);
    assert(advanced(l, r) == Ok::<ReaderView, MkvError>(t));
    assert(t.queue =~= seq![p]);
    lemma_reads_on(l, r, t);
    assert(t.queue.skip(1) =~= r.queue);
}

/// The packet that is read where the packet `p` was written.
pub open spec fn packet_read(l: LayoutView, m: MuxerView, p: PacketView) -> PacketView {
    simple_packet(
        l,
        p.stream_index,
        ms_of(time_of(m, p), m.streams[p.stream_index as int].time_base),
        p.keyframe,
        p.data,
    )
}

/// A packet that was written is the next that a reader gives who has kept step with the
/// muxer, and the reader keeps step. So does it where the packet was refused and at most
/// the start of a Cluster was written.
#[verifier::rlimit(60)]
pub proof fn lemma_packet_read_back(
    l: LayoutView,
    m: MuxerView,
    r: ReaderView,
    p: PacketView,
    pos: u64,
)
    requires
        m.wf(),
        layout_fits(l, m),
        in_step(l, m, r),
        holds(l.data, r.pos as int, packet_written(m, p, pos).bytes),
    ensures
        ({
            let w = packet_written(m, p, pos);
            let t = ReaderView {
                pos: r.pos + w.bytes.len(),
                cluster: if w.muxer.cluster_open {
                    ClusterState::InCluster {
                        body_end: l.data_end as u64,
                        cluster_timecode: w.muxer.cluster_timecode_ms,
                    }
                } else {
                    ClusterState::Idle
                },
                ..r
            };
            &&& layout_fits(l, w.muxer)
            &&& in_step(l, w.muxer, t)
            &&& match w.result {
                Ok(_) => next_packet_of(l, r) == (
                    Ok::<PacketView, MkvError>(packet_read(l, m, p)),
                    t,
                ),
                Err(_) => next_packet_of(l, r) == next_packet_of(l, t),
            }
        }),
{
    let w = packet_written(m, p, pos);
    let k = p.stream_index;
    if m.header_written && k < m.streams.len() {
        let ms = ms_of(time_of(m, p), m.streams[k as int].time_base);
        let due = needs_cluster(m, ms);
        let head = if due {
            cluster_start(ms)
        } else {
            Seq::empty()
        };
        let inner = if due {
            behind_start(l, r, ms)
        } else {
            r
        };
        let timecode = if due {
            cluster_time(ms)
        } else {
            m.cluster_timecode_ms
        };
        let offset = ms - timecode;
        assert(l.track_index.contains_key((k + 1) as u64));
        if w.result is Ok {
            let block = simple_block((k + 1) as u64, offset as i16, p.keyframe, p.data);
            assert(w.bytes == head + block);
            lemma_holds_split(l.data, r.pos as int, head, block);
            if due {
                lemma_cluster_start(l, r, ms);
            }
            lemma_simple_block(l, inner, timecode, k, offset as i16, p.keyframe, p.data);
            assert(wrap_i64(timecode + offset) == ms);
        } else {
            assert(w.bytes == head);
            if due {
                lemma_cluster_start(l, r, ms);
            }
        }
    } else {
        assert(w.bytes.len() == 0);
    }
}

// ---------------------------------------------------------------------------
// All packets.

/// The muxer after the packets `ps`, and the bytes that they were written as, with the
/// output at `pos` before the first.
pub open spec fn all_written(m: MuxerView, ps: Seq<PacketView>, pos: u64) -> (MuxerView, Seq<u8>)
    decreases ps.len(),
{
    if ps.len() == 0 {
        (m, Seq::empty())
    } else {
        let w = packet_written(m, ps[0], pos);
        let rest = all_written(w.muxer, ps.skip(1), moved(pos, w.bytes.len()));
        (rest.0, w.bytes + rest.1)
    }
}

/// Whether none of the packets `ps` is refused.
pub open spec fn all_accepted(m: MuxerView, ps: Seq<PacketView>, pos: u64) -> bool
    decreases ps.len(),
{
    ps.len() > 0 ==> {
        let w = packet_written(m, ps[0], pos);
        w.result is Ok && all_accepted(w.muxer, ps.skip(1), moved(pos, w.bytes.len()))
    }
}

/// The packets that are read where the packets `ps` were written.
pub open spec fn all_read(l: LayoutView, m: MuxerView, ps: Seq<PacketView>, pos: u64) -> Seq<
    PacketView,
>
    decreases ps.len(),
{
    if ps.len() == 0 {
        Seq::empty()
    } else {
        let w = packet_written(m, ps[0], pos);
        seq![packet_read(l, m, ps[0])] + all_read(
            l,
            w.muxer,
            ps.skip(1),
            moved(pos, w.bytes.len()),
        )
    }
}

/// The next `n` packets that the reader `r` gives, as far as there are any, and the reader
/// behind them.
pub open spec fn taken(l: LayoutView, r: ReaderView, n: nat) -> (Seq<PacketView>, ReaderView)
    decreases n,
{
    if n == 0 {
        (Seq::empty(), r)
    } else {
        match next_packet_of(l, r) {
            (Ok(p), t) => {
                let rest = taken(l, t, (n - 1) as nat);
                (seq![p] + rest.0, rest.1)
            },
            (Err(_), _) => (Seq::empty(), r),
        }
    }
}

/// A muxer stays well-formed, and keeps its streams, whatever packet is written.
pub proof fn lemma_packet_written_wf(m: MuxerView, p: PacketView, pos: u64)
    requires
        m.wf(),
    ensures
        packet_written(m, p, pos).muxer.wf(),
        packet_written(m, p, pos).muxer.streams == m.streams,
{
}

/// The packets that were written are read back, all of them and in order.
pub proof fn lemma_packets_read_back(
    l: LayoutView,
    m: MuxerView,
    r: ReaderView,
    ps: Seq<PacketView>,
    pos: u64,
)
    requires
        m.wf(),
        layout_fits(l, m),
        in_step(l, m, r),
        all_accepted(m, ps, pos),
        holds(l.data, r.pos as int, all_written(m, ps, pos).1),
    ensures
        ({
            let w = all_written(m, ps, pos);
            let t = taken(l, r, ps.len());
            &&& t.0 == all_read(l, m, ps, pos)
            &&& t.1.pos == r.pos + w.1.len()
            &&& t.1.crc_status == r.crc_status
            &&& in_step(l, w.0, t.1)
            &&& layout_fits(l, w.0)
        }),
    decreases ps.len(),
{
    if ps.len() > 0 {
        let w = packet_written(m, ps[0], pos);
        let next = moved(pos, w.bytes.len());
        let rest = all_written(w.muxer, ps.skip(1), next);
        lemma_holds_split(l.data, r.pos as int, w.bytes, rest.1);
        lemma_packet_read_back(l, m, r, ps[0], pos);
        lemma_packet_written_wf(m, ps[0], pos);
        let t = next_packet_of(l, r).1;
        lemma_packets_read_back(l, w.muxer, t, ps.skip(1), next);
    }
}

/// A reader who has kept step with the muxer is at the end where the document is.
pub proof fn lemma_end_read_back(l: LayoutView, m: MuxerView, r: ReaderView)
    requires
        layout_fits(l, m),
        in_step(l, m, r),
        r.pos >= l.data_end,
    ensures
        next_packet_of(l, r).0 == Err::<PacketView, MkvError>(MkvError::Eof),
{
    let idle = ReaderView { cluster: ClusterState::Idle, ..r };
    if m.cluster_open {
        assert(advanced(l, r) == Ok::<ReaderView, MkvError>(idle));
        lemma_reads_on(l, r, idle);
    } else {
        assert(idle == r);
    }
    assert(advanced(l, idle) == Err::<ReaderView, MkvError>(MkvError::Eof));
}

/// Behind the last packet the Cues are passed over, and then the end is reached.
pub proof fn lemma_cues_passed(l: LayoutView, m: MuxerView, r: ReaderView, body: Seq<u8>)
    requires
        layout_fits(l, m),
        in_step(l, m, r),
        holds(l.data, r.pos as int, element(ids::CUES, body)),
        r.pos + element(ids::CUES, body).len() == l.data_end,
    ensures
        next_packet_of(l, r).0 == Err::<PacketView, MkvError>(MkvError::Eof),
{
    lemma_element_read(l.data, r.pos as int, ids::CUES, body);
    let idle = ReaderView { cluster: ClusterState::Idle, ..r };
    if m.cluster_open {
        assert(advanced(l, r) == Ok::<ReaderView, MkvError>(idle));
        lemma_reads_on(l, r, idle);
    } else {
        assert(idle == r);
    }
    let behind = ReaderView { pos: l.data_end as nat, ..idle };
    assert(advanced(l, idle) == Ok::<ReaderView, MkvError>(behind));
    lemma_reads_on(l, idle, behind);
    assert(advanced(l, behind) == Err::<ReaderView, MkvError>(MkvError::Eof));
}

} // verus!
