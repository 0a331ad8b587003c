//! What the Blocks of a Cluster give.

use vstd::prelude::*;
use super::lacing::{can_lace, laced, laced_block, lacing_flags, lemma_laced_packets, Lacing};
use super::pieces::{all_plain, leads, lemma_piece, lemma_pieces_read, pieces, Piece};
use crate::arith::wrap_i64;
use crate::demux::reader::{
    advanced, block_group_step, block_is_keyframe, block_packets, empty_group, prefix_of,
    BlockGroupView, ClusterState, LayoutView, ReaderView,
};
use crate::ebml::{be_bytes, lemma_be_bytes_len, walk};
use crate::error::MkvError;
use crate::ids;
use crate::mux::packets::bits16;
use crate::round_trip::elements::{holds, is_id, lemma_header_read, lemma_size_read, MAX_LEN};
use crate::round_trip::packets::lemma_i16_read;
use crate::stream::PacketView;
use crate::write::{element, header_bytes, size_bytes, size_code, size_len, uint_element};

verus! {

/// Whether `p` is the packet with frame `i` of the Block that has the frames `f` and lies
/// `time` ticks from the start. Where the Block has a duration, each frame has an equal share
/// of it and they follow one another.
pub open spec fn is_packet(
    l: LayoutView,
    p: PacketView,
    track: u64,
    f: Seq<Seq<u8>>,
    i: int,
    time: int,
    lasts: Option<int>,
    keyframe: bool,
) -> bool {
    &&& p.stream_index == l.track_index[track]
    &&& p.time_base == l.time_base
    &&& p.data == prefix_of(l.prefixes, l.track_index[track]) + f[i]
    &&& p.keyframe == keyframe
    &&& p.dts == p.pts
    &&& p.pts is Some
    &&& match lasts {
        None => p.duration is None && p.pts->0 == time,
        Some(t) => p.duration is Some && p.duration->0 * f.len() <= t < (p.duration->0 + 1)
            * f.len() && p.pts->0 == time + i * p.duration->0,
    }
}

/// The packets that one more element has put into the queue.
pub open spec fn added(s: ReaderView, t: ReaderView) -> Seq<PacketView> {
    t.queue.skip(s.queue.len() as int)
}

/// The children of a BlockGroup: a Block, its duration, and the time of another Block if it
/// refers to one.
pub open spec fn group_pieces(block: Seq<u8>, lasts: u64, refers: bool, other: Seq<u8>) -> Seq<
    Piece,
> {
    if refers {
        seq![
            Piece::Bytes(ids::BLOCK, block),
            Piece::Number(ids::BLOCK_DURATION, lasts),
            Piece::Bytes(ids::REFERENCE_BLOCK, other),
        ]
    } else {
        seq![Piece::Bytes(ids::BLOCK, block), Piece::Number(ids::BLOCK_DURATION, lasts)]
    }
}

proof fn lemma_group_says(
    d: Seq<u8>,
    pos: int,
    block: Seq<u8>,
    lasts: u64,
    refers: bool,
    other: Seq<u8>,
)
    requires
        holds(d, pos, pieces(group_pieces(block, lasts, refers, other))),
        d.len() <= MAX_LEN,
        lasts <= i64::MAX,
    ensures
        ({
            let end = pos + pieces(group_pieces(block, lasts, refers, other)).len();
            walk(d, pos, end, empty_group(), block_group_step(d)) == Ok::<
                (BlockGroupView, int),
                MkvError,
            >(
                (
                    BlockGroupView {
                        block: Some(block),
                        duration: Some(lasts as i64),
                        keyframe: !refers,
                    },
                    end,
                ),
            )
        }),
{
    let ps = group_pieces(block, lasts, refers, other);
    let step = block_group_step(d);
    assert(wrap_i64(lasts as int) == lasts);
    let s0 = empty_group();
    let s1 = BlockGroupView { block: Some(block), ..s0 };
    let s2 = BlockGroupView { duration: Some(lasts as i64), ..s1 };
    let s3 = BlockGroupView { keyframe: false, ..s2 };
    let states = if refers {
        seq![s0, s1, s2, s3]
    } else {
        seq![s0, s1, s2]
    };
    assert(all_plain(ps));
    assert(leads(d, ps, 0, states, step));
    lemma_pieces_read(d, pos, ps, states, step);
}

/// A BlockGroup in a Cluster gives the frames of its Block, laced in whatever way, with their
/// times and shares of the duration. They are keyframes if it refers to no other Block.
#[verifier::rlimit(40)]
pub proof fn lemma_group_read(
    l: LayoutView,
    s: ReaderView,
    body_end: u64,
    timecode: i64,
    track: u64,
    offset: i16,
    f: Seq<Seq<u8>>,
    how: Lacing,
    lasts: u64,
    refers: bool,
    other: Seq<u8>,
)
    requires
        holds(
            l.data,
            s.pos as int,
            element(
                ids::BLOCK_GROUP,
                pieces(group_pieces(laced_block(track, offset, f, how), lasts, refers, other)),
            ),
        ),
        l.data.len() <= MAX_LEN,
        s.cluster == (ClusterState::InCluster { body_end, cluster_timecode: timecode }),
        s.pos < body_end,
        track <= MAX_LEN,
        l.track_index.contains_key(track),
        can_lace(f, how),
        0 <= timecode,
        timecode + offset + lasts <= i64::MAX,
        lasts <= i64::MAX,
    ensures
        ({
            let body = pieces(
                group_pieces(laced_block(track, offset, f, how), lasts, refers, other),
            );
            advanced(l, s) matches Ok(t) && {
                &&& t.pos == s.pos + element(ids::BLOCK_GROUP, body).len()
                &&& t.cluster == s.cluster
                &&& t.queue.len() == s.queue.len() + f.len()
                &&& forall|i: int|
                    0 <= i < f.len() ==> is_packet(
                        l,
                        #[trigger] added(s, t)[i],
                        track,
                        f,
                        i,
                        timecode + offset,
                        Some(lasts as int),
                        !refers,
                    )
            }
        }),
{
    let block = laced_block(track, offset, f, how);
    let body = pieces(group_pieces(block, lasts, refers, other));
    let p = Piece::Bytes(ids::BLOCK_GROUP, body);
    lemma_piece(l.data, s.pos as int, p);
    let b = s.pos + p.header().header_len;
    lemma_group_says(l.data, b, block, lasts, refers, other);
    lemma_laced_packets(
        l,
        track,
        offset,
        f,
        how,
        timecode,
        !refers,
        Some(lasts as i64),
    );
    let ps = block_packets(l, block, timecode, !refers, Some(lasts as i64))->Ok_0;
    let t = advanced(l, s)->Ok_0;
    assert(t.queue == s.queue + ps);
    assert(added(s, t) =~= ps);
    assert forall|i: int| 0 <= i < f.len() implies is_packet(
        l,
        #[trigger] added(s, t)[i],
        track,
        f,
        i,
        timecode + offset,
        Some(lasts as int),
        !refers,
    ) by {
        assert(added(s, t)[i] == ps[i]);
        let share = ps[i].duration->0;
        let n = f.len() as int;
        let t = lasts as int;
        assert(0 <= i * share <= t) by (nonlinear_arith)
            requires
                share * n <= t < (share + 1) * n,
                0 <= i < n,
                0 <= t,
        ;
    }
}

/// A SimpleBlock with other flags than those of the lacing.
pub open spec fn flagged_block(
    track: u64,
    offset: i16,
    f: Seq<Seq<u8>>,
    how: Lacing,
    flags: u8,
) -> Seq<u8> {
    size_bytes(track as nat) + be_bytes(bits16(offset), 2) + seq![(lacing_flags(how) + flags) as u8]
        + laced(f, how)
}

#[verifier::rlimit(40)]
proof fn lemma_flags_apart(
    track: u64,
    offset: i16,
    f: Seq<Seq<u8>>,
    how: Lacing,
    flags: u8,
    l: LayoutView,
    timecode: i64,
    keyframe: bool,
)
    requires
        track <= MAX_LEN,
        flags & 0x06 == 0,
    ensures
        block_packets(l, flagged_block(track, offset, f, how, flags), timecode, keyframe, None)
            == block_packets(l, laced_block(track, offset, f, how), timecode, keyframe, None),
        block_is_keyframe(flagged_block(track, offset, f, how, flags)) == (flags >= 0x80),
{
    let x = flagged_block(track, offset, f, how, flags);
    let y = laced_block(track, offset, f, how);
    let a = size_bytes(track as nat);
    let b = be_bytes(bits16(offset), 2);
    let w = size_len(track as nat) as int;
    lemma_i16_read(offset);
    lemma_be_bytes_len(size_code(track as nat), size_len(track as nat));
    assert(x.subrange(0, w) =~= a);
    assert(y.subrange(0, w) =~= a);
    lemma_size_read(x, 0, track as nat);
    lemma_size_read(y, 0, track as nat);
    assert(x[w] == b[0] && y[w] == b[0] && x[w + 1] == b[1] && y[w + 1] == b[1]);
    let k = lacing_flags(how);
    assert(x.skip(w + 3) =~= laced(f, how));
    assert(y.skip(w + 3) =~= laced(f, how));
    assert(k + flags <= 0xFF && (((k + flags) as u8) >> 1) & 3 == (k >> 1) & 3 && ((((k
        + flags) as u8) & 0x80 != 0) == (flags >= 0x80))) by (bit_vector)
        requires
            flags & 0x06 == 0,
            k == 0 || k == 2 || k == 4 || k == 6,
    ;
    assert(x[w + 2] == (k + flags) as u8);
    assert(y[w + 2] == k);
}

/// A SimpleBlock in a Cluster gives its frames, laced in whatever way, with its time and
/// without a duration. They are keyframes if the first bit of its flags is set; other flags
/// change nothing.
#[verifier::rlimit(40)]
pub proof fn lemma_simple_read(
    l: LayoutView,
    s: ReaderView,
    body_end: u64,
    timecode: i64,
    track: u64,
    offset: i16,
    f: Seq<Seq<u8>>,
    how: Lacing,
    flags: u8,
)
    requires
        holds(
            l.data,
            s.pos as int,
            element(ids::SIMPLE_BLOCK, flagged_block(track, offset, f, how, flags)),
        ),
        l.data.len() <= MAX_LEN,
        s.cluster == (ClusterState::InCluster { body_end, cluster_timecode: timecode }),
        s.pos < body_end,
        track <= MAX_LEN,
        l.track_index.contains_key(track),
        can_lace(f, how),
        flags & 0x06 == 0,
        0 <= timecode,
        timecode + offset <= i64::MAX,
    ensures
        advanced(l, s) matches Ok(t) && {
            &&& t.pos == s.pos + element(
                ids::SIMPLE_BLOCK,
                flagged_block(track, offset, f, how, flags),
            ).len()
            &&& t.cluster == s.cluster
            &&& t.queue.len() == s.queue.len() + f.len()
            &&& forall|i: int|
                0 <= i < f.len() ==> is_packet(
                    l,
                    #[trigger] added(s, t)[i],
                    track,
                    f,
                    i,
                    timecode + offset,
                    None,
                    flags >= 0x80,
                )
        },
{
    let block = flagged_block(track, offset, f, how, flags);
    let p = Piece::Bytes(ids::SIMPLE_BLOCK, block);
    lemma_piece(l.data, s.pos as int, p);
    let keyframe = flags >= 0x80;
    lemma_flags_apart(track, offset, f, how, flags, l, timecode, keyframe);
    lemma_laced_packets(l, track, offset, f, how, timecode, keyframe, None);
    let ps = block_packets(l, block, timecode, keyframe, None)->Ok_0;
    let t = advanced(l, s)->Ok_0;
    assert(t.queue == s.queue + ps);
    assert(added(s, t) =~= ps);
}

/// The Timecode of a Cluster is the time that its Blocks count from.
pub proof fn lemma_timecode_read(l: LayoutView, s: ReaderView, body_end: u64, before: i64, v: u64)
    requires
        holds(l.data, s.pos as int, uint_element(ids::TIMECODE, v)),
        l.data.len() <= MAX_LEN,
        s.cluster == (ClusterState::InCluster { body_end, cluster_timecode: before }),
        s.pos < body_end,
        v <= i64::MAX,
    ensures
        advanced(l, s) matches Ok(t) && {
            &&& t.pos == s.pos + uint_element(ids::TIMECODE, v).len()
            &&& t.queue == s.queue
            &&& t.cluster == (ClusterState::InCluster { body_end, cluster_timecode: v as i64 })
        },
{
    lemma_piece(l.data, s.pos as int, Piece::Number(ids::TIMECODE, v));
    assert(wrap_i64(v as int) == v);
}

/// A Cluster is entered at its data, and ends with them, or with the document if its size is
/// not known.
pub proof fn lemma_cluster_entered(l: LayoutView, s: ReaderView, body: Seq<u8>)
    requires
        s.cluster == ClusterState::Idle,
        s.pos < l.data_end <= l.data.len() <= MAX_LEN,
    ensures
        holds(l.data, s.pos as int, element(ids::CLUSTER, body)) ==> (advanced(l, s) matches Ok(t)
            && t.pos + body.len() == s.pos + element(ids::CLUSTER, body).len() && t.queue == s.queue
            && t.cluster == (ClusterState::InCluster {
            body_end: (s.pos + element(ids::CLUSTER, body).len()) as u64,
            cluster_timecode: 0,
        })),
        holds(l.data, s.pos as int, header_bytes(ids::CLUSTER, 0xFFFF_FFFF_FFFF_FFFF)) ==> (
        advanced(l, s) matches Ok(t) && t.pos == s.pos + header_bytes(
            ids::CLUSTER,
            0xFFFF_FFFF_FFFF_FFFF,
        ).len() && t.queue == s.queue && t.cluster == (ClusterState::InCluster {
            body_end: l.data_end as u64,
            cluster_timecode: 0,
        })),
{
    if holds(l.data, s.pos as int, element(ids::CLUSTER, body)) {
        lemma_piece(l.data, s.pos as int, Piece::Bytes(ids::CLUSTER, body));
    }
    if holds(l.data, s.pos as int, header_bytes(ids::CLUSTER, 0xFFFF_FFFF_FFFF_FFFF)) {
        lemma_header_read(l.data, s.pos as int, ids::CLUSTER, 0xFFFF_FFFF_FFFF_FFFF);
    }
}

/// A Cluster is left at its end, or in front of an element that stands beside Clusters. Other
/// elements that hold no Blocks are passed over.
pub proof fn lemma_cluster_left(
    l: LayoutView,
    s: ReaderView,
    body_end: u64,
    timecode: i64,
    id: u32,
    body: Seq<u8>,
)
    requires
        s.cluster == (ClusterState::InCluster { body_end, cluster_timecode: timecode }),
        l.data.len() <= MAX_LEN,
        is_id(id),
        s.pos < body_end ==> holds(l.data, s.pos as int, element(id, body)),
        id != ids::TIMECODE && id != ids::SIMPLE_BLOCK && id != ids::BLOCK_GROUP,
    ensures
        ({
            let beside = id == ids::CLUSTER || id == ids::CUES || id == ids::TAGS || id
                == ids::ATTACHMENTS || id == ids::CHAPTERS || id == ids::SEEK_HEAD || id
                == ids::INFO || id == ids::TRACKS;
            advanced(l, s) matches Ok(t) && {
                &&& t.queue == s.queue
                &&& s.pos >= body_end || beside ==> t.cluster == ClusterState::Idle && t.pos
                    == s.pos
                &&& s.pos < body_end && !beside ==> t.cluster == s.cluster && t.pos == s.pos
                    + element(id, body).len()
            }
        }),
{
    if s.pos < body_end {
        lemma_piece(l.data, s.pos as int, Piece::Bytes(id, body));
    }
}

} // verus!
