//! The seek index at the end of the Segment.

use vstd::prelude::*;
use crate::ids;
use crate::sort::{lemma_inserted_at, stable_sorted};
use crate::write::{
    crc_master, element, uint_element, write_crc_master_element, write_master_element,
    write_uint_element,
};

verus! {

/// A place in the document that can be jumped to.
#[derive(Clone, Copy, Debug, PartialEq, Eq, Structural)]
pub struct CueRecord {
    /// The number of the track, from 1.
    pub track: u64,
    pub time_ms: u64,
    /// Where the Cluster starts in the Segment.
    pub cluster_offset: u64,
    /// Where the block starts in the Cluster.
    pub relative_position: u64,
}

/// The order of the index: by time.
pub open spec fn by_time() -> spec_fn(CueRecord, CueRecord) -> bool {
    |a: CueRecord, b: CueRecord| a.time_ms <= b.time_ms
}

/// The children of a CueTrackPositions.
pub open spec fn position_body(c: CueRecord) -> Seq<u8> {
    uint_element(ids::CUE_TRACK, c.track) + uint_element(
        ids::CUE_CLUSTER_POSITION,
        c.cluster_offset,
    ) + uint_element(ids::CUE_RELATIVE_POSITION, c.relative_position)
}

/// CueTrackPositions, one after the other.
pub open spec fn positions(cs: Seq<CueRecord>) -> Seq<u8>
    decreases cs.len(),
{
    if cs.len() == 0 {
        Seq::empty()
    } else {
        positions(cs.drop_last()) + element(ids::CUE_TRACK_POSITIONS, position_body(cs.last()))
    }
}

/// How many entries of `cs` from the first on have the time of the first.
pub open spec fn run_len(cs: Seq<CueRecord>, n: nat) -> nat
    decreases cs.len() - n,
{
    if n >= cs.len() || cs[n as int].time_ms != cs[0].time_ms {
        n
    } else {
        run_len(cs, n + 1)
    }
}

pub proof fn lemma_run_len(cs: Seq<CueRecord>, n: nat)
    requires
        n <= cs.len(),
    ensures
        n <= run_len(cs, n) <= cs.len(),
        n == 0 && cs.len() > 0 ==> run_len(cs, n) > 0,
    decreases cs.len() - n,
{
    if n < cs.len() {
        lemma_run_len(cs, n + 1);
    }
}

/// CuePoints, one after the other: one for each time, with all its entries.
pub open spec fn points(cs: Seq<CueRecord>) -> Seq<u8>
    decreases cs.len(),
    via points_decreases
{
    if cs.len() == 0 {
        Seq::empty()
    } else {
        let k = run_len(cs, 0) as int;
        element(
            ids::CUE_POINT,
            uint_element(ids::CUE_TIME, cs[0].time_ms) + positions(cs.take(k)),
        ) + points(cs.skip(k))
    }
}

#[via_fn]
proof fn points_decreases(cs: Seq<CueRecord>) {
    lemma_run_len(cs, 0);
}

/// The children of the Cues: the entries by time, and those of one time in the order in
/// which they were noted.
pub open spec fn cues_body(cs: Seq<CueRecord>) -> Seq<u8> {
    points(stable_sorted(cs, by_time()))
}

/// The Cues.
pub open spec fn cues_element(cs: Seq<CueRecord>) -> Seq<u8> {
    crc_master(ids::CUES, cues_body(cs))
}

/// The entries by time.
fn sort_by_time(cs: &Vec<CueRecord>) -> (r: Vec<CueRecord>)
    ensures
        r@ == stable_sorted(cs@, by_time()),
{
    let mut sorted: Vec<CueRecord> = Vec::new();
    let mut i: usize = 0;
    assert(cs@.take(0) =~= Seq::<CueRecord>::empty());
    while i < cs.len()
        invariant
            i <= cs@.len(),
            sorted@ == stable_sorted(cs@.take(i as int), by_time()),
            sorted@.len() == i,
        decreases cs@.len() - i,
    {
        let c: CueRecord = cs[i];
        let mut j: usize = sorted.len();
        while j > 0 && !(sorted[j - 1].time_ms <= c.time_ms)
            invariant
                j <= sorted@.len(),
                forall|k: int| j <= k < sorted@.len() ==> !by_time()(sorted@[k], c),
            decreases j,
        {
            j = j - 1;
        }
        proof {
            lemma_inserted_at(sorted@, c, by_time(), j as int);
            assert(cs@.take(i + 1).drop_last() =~= cs@.take(i as int));
        }
        sorted.insert(j, c);
        i = i + 1;
    }
    assert(cs@.take(i as int) =~= cs@);
    sorted
}

/// Builds the Cues.
pub fn write_cues(cs: &Vec<CueRecord>) -> (r: Vec<u8>)
    ensures
        r@ == cues_element(cs@),
{
    let sorted: Vec<CueRecord> = sort_by_time(cs);
    let mut body: Vec<u8> = Vec::new();
    let mut i: usize = 0;
    assert(sorted@.skip(0) =~= sorted@);
    assert(body@ + points(sorted@.skip(0)) =~= points(sorted@));
    while i < sorted.len()
        invariant
            i <= sorted@.len(),
            body@ + points(sorted@.skip(i as int)) == points(sorted@),
        decreases sorted@.len() - i,
    {
        let ghost rest = sorted@.skip(i as int);
        let time: u64 = sorted[i].time_ms;
        let mut point: Vec<u8> = Vec::new();
        write_uint_element(&mut point, ids::CUE_TIME, time);
        let ghost head = point@;
        let mut n: usize = 0;
        assert(rest.take(0) =~= Seq::<CueRecord>::empty());
        assert(head + positions(rest.take(0)) =~= head);
        while n < sorted.len() - i && sorted[i + n].time_ms == time
            invariant
                i < sorted@.len(),
                i + n <= sorted@.len(),
                rest == sorted@.skip(i as int),
                rest[0].time_ms == time,
                run_len(rest, 0) == run_len(rest, n as nat),
                point@ == head + positions(rest.take(n as int)),
            decreases sorted@.len() - i - n,
        {
            let c: CueRecord = sorted[i + n];
            assert(rest[n as int] == c);
            let mut inner: Vec<u8> = Vec::new();
            write_uint_element(&mut inner, ids::CUE_TRACK, c.track);
            write_uint_element(&mut inner, ids::CUE_CLUSTER_POSITION, c.cluster_offset);
            write_uint_element(&mut inner, ids::CUE_RELATIVE_POSITION, c.relative_position);
            assert(inner@ =~= position_body(c));
            write_master_element(&mut point, ids::CUE_TRACK_POSITIONS, &inner);
            assert(rest.take(n + 1).drop_last() =~= rest.take(n as int));
            assert(point@ =~= head + positions(rest.take(n + 1)));
            n = n + 1;
        }
        let ghost before = body@;
        proof {
            assert(run_len(rest, n as nat) == n);
            lemma_run_len(rest, 0);
            assert(rest.skip(n as int) =~= sorted@.skip(i + n));
            assert(point@ =~= uint_element(ids::CUE_TIME, rest[0].time_ms) + positions(
                rest.take(n as int),
            ));
        }
        write_master_element(&mut body, ids::CUE_POINT, &point);
        assert(body@ + points(sorted@.skip(i + n)) =~= before + points(rest));
        i = i + n;
    }
    assert(body@ =~= points(sorted@)) by {
        assert(sorted@.skip(i as int).len() == 0);
    }
    let mut out: Vec<u8> = Vec::new();
    write_crc_master_element(&mut out, ids::CUES, &body);
    assert(out@ =~= cues_element(cs@));
    out
}

} // verus!
