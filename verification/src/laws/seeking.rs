//! What the index of a document is for.

use vstd::prelude::*;
use super::document::{document_with, first_body, lemma_document_opens, lemma_first_there, opened};
use super::pieces::{
    all_plain, leads, lemma_piece, lemma_pieces_read, pieces, pieces_from, there, Piece,
};
use crate::arith::{lemma_trunc_div_cancel, magnitude, trunc_div, wrap_i64};
use crate::demux::cues::{
    cue_point_step, cue_positions_step, cues_step, empty_positions, CueEntry, CuePointState,
    CuePositions,
};
use crate::demux::demuxer::{
    document_ticks, landing, lemma_landing, seek_of, stream_ticks, DemuxerView,
};
use crate::demux::reader::{cluster_time, jumped, ClusterState, LayoutView, ReaderView};
use crate::demux::segment::{
    checked, cue_order, document_of, empty_segment, segment_child, SegmentView,
};
use crate::ebml::{walk, ElementHeader};
use crate::error::MkvError;
use crate::ids;
use crate::mux::header::{DocType, MuxStreamView};
use crate::round_trip::elements::{header, holds, lemma_holds_split, MAX_LEN};
use crate::round_trip::tracks::codecs_plain;
use crate::sort::{lemma_inserted_at, stable_sorted};
use crate::write::element;

verus! {

/// Times that are asked for and times that are given back are in the ticks of the document.
pub proof fn lemma_ticks_same(v: DemuxerView, pts: i64, time: u64)
    requires
        v.wf(),
        v.timecode_scale_ns <= i64::MAX,
        time <= i64::MAX,
    ensures
        pts >= 0 ==> document_ticks(pts, v.layout.time_base, v.timecode_scale_ns) == pts,
        pts < 0 ==> document_ticks(pts, v.layout.time_base, v.timecode_scale_ns) == 0,
        stream_ticks(time, v.layout.time_base, v.timecode_scale_ns) == time,
{
    let n = v.timecode_scale_ns as int;
    let k = n * 1_000_000_000;
    assert(wrap_i64(n) == n);
    lemma_trunc_div_cancel(pts as int, 1, k);
    lemma_trunc_div_cancel(time as int, 1, k);
    assert(pts * k == pts * n * 1_000_000_000) by (nonlinear_arith)
        requires
            k == n * 1_000_000_000,
    ;
    assert(time * k == time * 1_000_000_000 * n) by (nonlinear_arith)
        requires
            k == n * 1_000_000_000,
    ;
    lemma_by_one(pts as int);
    lemma_by_one(time as int);
    assert(wrap_i64(time as int) == time);
}

proof fn lemma_by_one(x: int)
    ensures
        trunc_div(x, 1) == x,
{
    let m = magnitude(x);
    assert(m / 1 == m);
}

/// The time that a seek is for: times before the start are the start.
pub open spec fn wanted(pts: i64) -> int {
    if pts < 0 {
        0
    } else {
        pts as int
    }
}

/// A seek in a stream that the index has an entry for lands on an entry for that stream: the
/// latest that is not later than asked for, or the first of all if all are later. It gives
/// the time of that entry, and the next packets are read from the Cluster that the entry
/// points to.
#[verifier::rlimit(40)]
pub proof fn lemma_seek_lands(v: DemuxerView, stream_index: u32, pts: i64, k: int)
    requires
        v.wf(),
        stream_index < v.streams.len(),
        v.timecode_scale_ns <= i64::MAX,
        forall|i: int|
            0 <= i < v.cues.len() ==> (#[trigger] v.cues[i]).relative_position is None
                && v.cues[i].time <= i64::MAX && 0 <= v.data_start + v.cues[i].cluster_offset
                <= u64::MAX,
        0 <= k < v.cues.len(),
        v.cues[k].track == v.track_numbers[stream_index as int],
    ensures
        seek_of(v, stream_index, pts).0 matches Ok(t) && {
            &&& v.cues[k].time <= wanted(pts) ==> v.cues[k].time <= t <= wanted(pts)
            &&& t > wanted(pts) ==> t <= v.cues[k].time
            &&& exists|j: int|
                0 <= j < v.cues.len() && (#[trigger] v.cues[j]).track
                    == v.track_numbers[stream_index as int] && v.cues[j].time == t
                    && seek_of(v, stream_index, pts).1.pos == v.data_start
                    + v.cues[j].cluster_offset
        },
        seek_of(v, stream_index, pts).1.queue.len() == 0,
        seek_of(v, stream_index, pts).1.cluster == ClusterState::Idle,
{
    let track = v.track_numbers[stream_index as int];
    let base = v.layout.time_base;
    lemma_ticks_same(v, pts, 0);
    let ticks = document_ticks(pts, base, v.timecode_scale_ns) as u64;
    assert(ticks == wanted(pts));
    lemma_landing(v.cues, track, ticks, k);
    let c = landing(v.cues, track, ticks)->0;
    let j = choose|j: int| 0 <= j < v.cues.len() && v.cues[j] == c;
    assert(v.cues[j] == c);
    lemma_ticks_same(v, pts, c.time);
}

/// The children of the CueTrackPositions of an entry.
pub open spec fn position_pieces(c: CueEntry) -> Seq<Piece> {
    seq![
        Piece::Number(ids::CUE_TRACK, c.track),
        Piece::Number(ids::CUE_CLUSTER_POSITION, c.cluster_offset),
        Piece::Number(ids::CUE_RELATIVE_POSITION, c.relative_position->0),
    ]
}

/// The children of the CuePoint of an entry.
pub open spec fn point_pieces(c: CueEntry) -> Seq<Piece> {
    seq![
        Piece::Number(ids::CUE_TIME, c.time),
        Piece::Bytes(ids::CUE_TRACK_POSITIONS, pieces(position_pieces(c))),
    ]
}

/// The children of Cues with one entry.
pub open spec fn cue_pieces(c: CueEntry) -> Seq<Piece> {
    seq![Piece::Bytes(ids::CUE_POINT, pieces(point_pieces(c)))]
}

spec fn positions_of(c: CueEntry) -> CuePositions {
    CuePositions {
        track: c.track,
        cluster_offset: Some(c.cluster_offset),
        relative_position: c.relative_position,
    }
}

proof fn lemma_positions_say(d: Seq<u8>, pos: int, c: CueEntry)
    requires
        c.relative_position is Some,
        holds(d, pos, pieces(position_pieces(c))),
        d.len() <= MAX_LEN,
    ensures
        walk(
            d,
            pos,
            pos + pieces(position_pieces(c)).len(),
            empty_positions(),
            cue_positions_step(d),
        ) == Ok::<(CuePositions, int), MkvError>(
            (positions_of(c), pos + pieces(position_pieces(c)).len()),
        ),
{
    let ps = position_pieces(c);
    let step = cue_positions_step(d);
    let s0 = empty_positions();
    let s1 = CuePositions { track: c.track, ..s0 };
    let s2 = CuePositions { cluster_offset: Some(c.cluster_offset), ..s1 };
    let s3 = CuePositions { relative_position: c.relative_position, ..s2 };
    let states = seq![s0, s1, s2, s3];
    assert(leads(d, ps, 0, states, step));
    lemma_pieces_read(d, pos, ps, states, step);
}

proof fn lemma_point_says(d: Seq<u8>, pos: int, c: CueEntry)
    requires
        c.relative_position is Some,
        holds(d, pos, pieces(point_pieces(c))),
        d.len() <= MAX_LEN,
    ensures
        walk(
            d,
            pos,
            pos + pieces(point_pieces(c)).len(),
            CuePointState { time: 0, cues: Seq::empty() },
            cue_point_step(d),
        ) == Ok::<(CuePointState, int), MkvError>(
            (
                CuePointState { time: c.time, cues: seq![c] },
                pos + pieces(point_pieces(c)).len(),
            ),
        ),
{
    let ps = point_pieces(c);
    let step = cue_point_step(d);
    let s0 = CuePointState { time: 0, cues: Seq::empty() };
    let s1 = CuePointState { time: c.time, ..s0 };
    let s2 = CuePointState { cues: s1.cues.push(c), ..s1 };
    let states = seq![s0, s1, s2];
    assert forall|i: int, b: int|
        0 <= i < ps.len() && #[trigger] there(d, ps[i], b) implies step(
        states[i],
        ps[i].header(),
        b,
    ) == Ok::<(CuePointState, int), MkvError>((states[i + 1], b + ps[i].header().size)) by {
        if i == 1 {
            lemma_positions_say(d, b, c);
        }
    }
    lemma_pieces_read(d, pos, ps, states, step);
    assert(s2.cues =~= seq![c]);
}

proof fn lemma_cue_says(d: Seq<u8>, pos: int, c: CueEntry)
    requires
        c.relative_position is Some,
        holds(d, pos, pieces(cue_pieces(c))),
        d.len() <= MAX_LEN,
    ensures
        walk(
            d,
            pos,
            pos + pieces(cue_pieces(c)).len(),
            Seq::<CueEntry>::empty(),
            cues_step(d),
        ) == Ok::<(Seq<CueEntry>, int), MkvError>((seq![c], pos + pieces(cue_pieces(c)).len())),
{
    let ps = cue_pieces(c);
    let step = cues_step(d);
    let states = seq![Seq::<CueEntry>::empty(), seq![c]];
    assert forall|i: int, b: int|
        0 <= i < ps.len() && #[trigger] there(d, ps[i], b) implies step(
        states[i],
        ps[i].header(),
        b,
    ) == Ok::<(Seq<CueEntry>, int), MkvError>((states[i + 1], b + ps[i].header().size)) by {
        lemma_point_says(d, b, c);
    }
    lemma_pieces_read(d, pos, ps, states, step);
}

/// What Cues add to an empty Segment.
proof fn lemma_cues_child(d: Seq<u8>, end: int, h: ElementHeader, b: int, c: Seq<CueEntry>) -> (r:
    SegmentView)
    requires
        h.id == ids::CUES,
        0 <= b,
        b + h.size <= d.len() <= MAX_LEN,
        walk(d, b, b + h.size, Seq::<CueEntry>::empty(), cues_step(d)) == Ok::<
            (Seq<CueEntry>, int),
            MkvError,
        >((c, b + h.size)),
    ensures
        segment_child(d, end, empty_segment(), h, b) == Ok::<(SegmentView, int), MkvError>(
            (r, b + h.size),
        ),
        r == (SegmentView { cues: c, crc_status: r.crc_status, ..empty_segment() }),
{
    reveal(segment_child);
    assert(empty_segment().cues =~= Seq::<CueEntry>::empty());
    SegmentView { cues: c, crc_status: checked(d, Seq::empty(), h, b), ..empty_segment() }
}

/// A document whose Cues have one entry opens with that entry: its track, its time, and where
/// the Cluster and the Block are.
#[verifier::rlimit(40)]
pub proof fn lemma_cue_opens(
    doc_type: DocType,
    ss: Seq<MuxStreamView>,
    rest: Seq<u8>,
    answers: Seq<Option<Seq<char>>>,
    c: CueEntry,
)
    requires
        document_with(doc_type, ids::CUES, pieces(cue_pieces(c)), ss, rest).len() <= MAX_LEN,
        ss.len() > 0,
        codecs_plain(ss),
        c.relative_position is Some,
    ensures
        ({
            let d = document_with(doc_type, ids::CUES, pieces(cue_pieces(c)), ss, rest);
            &&& document_of(d) is Ok
            &&& opened(d, answers).cues == seq![c]
        }),
{
    let body = pieces(cue_pieces(c));
    let d = document_with(doc_type, ids::CUES, body, ss, rest);
    let b = first_body(doc_type, ids::CUES, body);
    lemma_first_there(doc_type, ids::CUES, body, ss, rest);
    lemma_cue_says(d, b, c);
    let h = header(ids::CUES, body.len());
    let s = lemma_cues_child(d, d.len() as int, h, b, seq![c]);
    lemma_document_opens(doc_type, ids::CUES, body, ss, rest, s);
    let none = Seq::<CueEntry>::empty();
    assert(seq![c].drop_last() =~= none);
    assert(stable_sorted(none, cue_order()) == none);
    lemma_inserted_at(none, c, cue_order(), 0);
    assert(none.insert(0, c) =~= seq![c]);
}

/// How far the element with index `j` is behind the start of all of `ps`.
pub open spec fn offset_in(ps: Seq<Piece>, j: int) -> int {
    pieces(ps).len() - pieces_from(ps, j).len()
}

proof fn lemma_time_kept(
    d: Seq<u8>,
    pos: int,
    target: int,
    body_end: int,
    ps: Seq<Piece>,
    k: int,
    j: int,
    v: i64,
)
    requires
        1 <= k <= j <= ps.len(),
        holds(d, pos, pieces_from(ps, k)),
        pos + pieces_from(ps, k).len() <= body_end,
        target == pos + pieces_from(ps, k).len() - pieces_from(ps, j).len(),
        d.len() <= MAX_LEN,
        all_plain(ps),
        forall|i: int| 1 <= i < ps.len() ==> (#[trigger] ps[i]).id() != ids::TIMECODE,
    ensures
        pos <= target,
        cluster_time(d, pos, target, body_end, v) == Ok::<Option<i64>, (MkvError, int)>(Some(v)),
    decreases j - k,
{
    if k < j {
        let p = ps[k];
        lemma_holds_split(d, pos, p.bytes(), pieces_from(ps, k + 1));
        lemma_piece(d, pos, p);
        lemma_time_kept(d, pos + p.bytes().len(), target, body_end, ps, k + 1, j, v);
    }
}

/// A jump into a Cluster that starts with its Timecode goes to the element that it is for, and
/// the Blocks from there on count from that Timecode.
#[verifier::rlimit(40)]
pub proof fn lemma_jump_lands(l: LayoutView, s: ReaderView, v: u64, ps: Seq<Piece>, j: int)
    requires
        holds(l.data, s.pos as int, element(ids::CLUSTER, pieces(ps))),
        l.data.len() <= MAX_LEN,
        l.data_end == l.data.len(),
        1 <= j <= ps.len(),
        ps[0] == Piece::Number(ids::TIMECODE, v),
        v <= i64::MAX,
        all_plain(ps),
        forall|i: int| 1 <= i < ps.len() ==> (#[trigger] ps[i]).id() != ids::TIMECODE,
    ensures
        ({
            let body = s.pos + header(ids::CLUSTER, pieces(ps).len()).header_len;
            let (r, t) = jumped(l, s, offset_in(ps, j) as u64);
            &&& r is Ok
            &&& t.pos == body + offset_in(ps, j)
            &&& t.queue == s.queue
            &&& t.cluster == (ClusterState::InCluster {
                body_end: (body + pieces(ps).len()) as u64,
                cluster_timecode: v as i64,
            })
        }),
{
    let d = l.data;
    let p = Piece::Bytes(ids::CLUSTER, pieces(ps));
    lemma_piece(d, s.pos as int, p);
    let body = s.pos + p.header().header_len;
    let body_end = body + pieces(ps).len();
    let target = body + offset_in(ps, j);
    let first = ps[0];
    lemma_holds_split(d, body, first.bytes(), pieces_from(ps, 1));
    lemma_piece(d, body, first);
    let next = body + first.bytes().len();
    assert(wrap_i64(v as int) == v);
    lemma_time_kept(d, next, target, body_end, ps, 1, j, v as i64);
    assert(cluster_time(d, body, target, body_end, 0) == Ok::<Option<i64>, (MkvError, int)>(
        Some(v as i64),
    ));
}

} // verus!
