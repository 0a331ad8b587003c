//! What a muxer writes packet by packet.

use vstd::prelude::*;
use crate::ebml::be_bytes;
use crate::ids;
use crate::mux::cues::CueRecord;
use crate::mux::muxer::{cluster_start, packet_written, time_of, MuxerView};
use crate::mux::packets::{ms_of, simple_block};
use crate::stream::{MediaType, PacketView};
use crate::write::{element, id_bytes};

verus! {

/// Whether the bytes start with a Cluster.
pub open spec fn starts_cluster(b: Seq<u8>) -> bool {
    b.len() >= 4 && b[0] == 0x1F && b[1] == 0x43 && b[2] == 0xB6 && b[3] == 0x75
}

/// A packet starts a Cluster if none is open, if it comes more than five seconds after the
/// time of the open one, or if it comes before it. A Cluster that it starts has its time, or
/// zero if that is negative.
#[verifier::rlimit(40)]
pub proof fn lemma_cluster_starts(m: MuxerView, p: PacketView, pos: u64)
    requires
        m.wf(),
        packet_written(m, p, pos).result is Ok,
    ensures
        ({
            let w = packet_written(m, p, pos);
            let ms = ms_of(time_of(m, p), m.streams[p.stream_index as int].time_base);
            let open = m.cluster_timecode_ms;
            let new = !m.cluster_open || ms > open + 5000 || ms < open;
            &&& starts_cluster(w.bytes) == new
            &&& w.muxer.cluster_open
            &&& !new ==> w.muxer.cluster_timecode_ms == open
            &&& new && ms >= 0 ==> w.muxer.cluster_timecode_ms == ms
            &&& new && ms < 0 ==> w.muxer.cluster_timecode_ms == 0
        }),
{
    let k = p.stream_index as int;
    let w = packet_written(m, p, pos);
    let ms = ms_of(time_of(m, p), m.streams[k].time_base);
    lemma_cluster_bytes();
    assert(starts_cluster(cluster_start(ms)));
    let offset = (ms - w.muxer.cluster_timecode_ms) as i16;
    lemma_block_bytes((k + 1) as u64, offset, p.keyframe, p.data);
}

proof fn lemma_cluster_bytes()
    ensures
        id_bytes(ids::CLUSTER) == seq![0x1Fu8, 0x43, 0xB6, 0x75],
{
    reveal_with_fuel(be_bytes, 5);
    assert(id_bytes(ids::CLUSTER) =~= seq![0x1Fu8, 0x43, 0xB6, 0x75]);
}

proof fn lemma_block_bytes(track: u64, offset: i16, keyframe: bool, data: Seq<u8>)
    ensures
        simple_block(track, offset, keyframe, data).len() > 0,
        simple_block(track, offset, keyframe, data)[0] == 0xA3,
{
    reveal(element);
    reveal_with_fuel(be_bytes, 2);
    assert(id_bytes(ids::SIMPLE_BLOCK) =~= seq![0xA3u8]);
}

/// Whether the index has an entry for the track in the Cluster that starts at `offset`.
pub open spec fn has_cue(cues: Seq<CueRecord>, track: int, offset: u64) -> bool {
    exists|i: int|
        0 <= i < cues.len() && (#[trigger] cues[i]).track == track && cues[i].cluster_offset
            == offset
}

/// Whether the index has all the entries for the open Cluster that the muxer has marked.
pub open spec fn all_noted(m: MuxerView) -> bool {
    forall|k: int|
        0 <= k < m.streams.len() && #[trigger] m.cue_seen_in_cluster[k] ==> has_cue(
            m.cues,
            k + 1,
            m.cluster_offset_rel,
        )
}

/// Once a packet that can be decoded by itself is written, the index has an entry for its
/// stream in its Cluster. Video that needs other packets gets none, and no entry is ever taken
/// out.
#[verifier::rlimit(40)]
pub proof fn lemma_packet_noted(m: MuxerView, p: PacketView, pos: u64)
    requires
        m.wf(),
        all_noted(m),
        m.streams.len() < u64::MAX,
    ensures
        ({
            let w = packet_written(m, p, pos);
            let k = p.stream_index as int;
            &&& all_noted(w.muxer)
            &&& m.cues.is_prefix_of(w.muxer.cues)
            &&& w.result is Ok && (p.keyframe || m.streams[k].media_type != MediaType::Video)
                ==> has_cue(w.muxer.cues, k + 1, w.muxer.cluster_offset_rel)
            &&& w.result is Ok && !p.keyframe && m.streams[k].media_type == MediaType::Video
                ==> w.muxer.cues == m.cues
        }),
{
    let w = packet_written(m, p, pos);
    let k = p.stream_index as int;
    assert(m.cues.is_prefix_of(w.muxer.cues));
    assert forall|j: int|
        0 <= j < w.muxer.streams.len()
            && #[trigger] w.muxer.cue_seen_in_cluster[j] implies has_cue(
        w.muxer.cues,
        j + 1,
        w.muxer.cluster_offset_rel,
    ) by {
        if j == k && w.muxer.cues.len() > m.cues.len() {
            let i = w.muxer.cues.len() - 1;
            assert(w.muxer.cues[i].track == k + 1);
        } else {
            assert(m.cue_seen_in_cluster[j]);
            let i = choose|i: int|
                0 <= i < m.cues.len() && (#[trigger] m.cues[i]).track == j + 1
                    && m.cues[i].cluster_offset == m.cluster_offset_rel;
            assert(w.muxer.cues[i] == m.cues[i]);
        }
    }
    if w.result is Ok && (p.keyframe || m.streams[k].media_type != MediaType::Video) {
        assert(w.muxer.cue_seen_in_cluster[k]);
    }
}

} // verus!
