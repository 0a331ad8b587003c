//! Cues: the index for seeking.

use vstd::prelude::*;
use crate::ebml::{
    end_of, left_of, on_master, on_uint, passed, read_element_header, read_uint, skip, walk,
    ElementHeader,
};
use crate::error::MkvError;
use crate::ids;
use crate::views::read_view;

verus! {

/// Where in the document a track is at a certain time.
#[derive(Clone, Copy, Debug, PartialEq, Eq, Structural)]
pub struct CueEntry {
    /// The number of the track.
    pub track: u64,
    /// The time in ticks.
    pub time: u64,
    /// Where the Cluster starts, counted from the start of the Segment's data.
    pub cluster_offset: u64,
    /// Where in the Cluster's data the Block starts.
    pub relative_position: Option<u64>,
}

/// The children of a CueTrackPositions element.
#[derive(Clone, Copy, Debug, PartialEq, Eq, Structural)]
pub struct CuePositions {
    pub track: u64,
    pub cluster_offset: Option<u64>,
    pub relative_position: Option<u64>,
}

impl View for CuePositions {
    type V = CuePositions;

    open spec fn view(&self) -> CuePositions {
        *self
    }
}

/// A CueTrackPositions element without children.
pub open spec fn empty_positions() -> CuePositions {
    CuePositions { track: 0, cluster_offset: None, relative_position: None }
}

/// The entries `cues`, and one for the positions `p` if they name a Cluster.
pub open spec fn with_cue(cues: Seq<CueEntry>, time: u64, p: CuePositions) -> Seq<CueEntry> {
    match p.cluster_offset {
        Some(offset) => cues.push(
            CueEntry {
                track: p.track,
                time,
                cluster_offset: offset,
                relative_position: p.relative_position,
            },
        ),
        None => cues,
    }
}

/// The time of a CuePoint, and the entries gathered so far.
pub struct CuePoint {
    pub time: u64,
    pub cues: Vec<CueEntry>,
}

/// The view of a [`CuePoint`].
#[verifier::ext_equal]
pub struct CuePointState {
    pub time: u64,
    pub cues: Seq<CueEntry>,
}

impl View for CuePoint {
    type V = CuePointState;

    open spec fn view(&self) -> CuePointState {
        CuePointState { time: self.time, cues: self.cues@ }
    }
}

/// What each child of a CueTrackPositions element adds.
pub open spec fn cue_positions_step(
    d: Seq<u8>,
) -> spec_fn(CuePositions, ElementHeader, int) -> Result<
    (CuePositions, int),
    MkvError,
> {
    |s: CuePositions, h: ElementHeader, b: int|
        if h.id == ids::CUE_TRACK {
            on_uint(d, h, b, |v: u64| CuePositions { track: v, ..s })
        } else if h.id == ids::CUE_CLUSTER_POSITION {
            on_uint(d, h, b, |v: u64| CuePositions { cluster_offset: Some(v), ..s })
        } else if h.id == ids::CUE_RELATIVE_POSITION {
            on_uint(d, h, b, |v: u64| CuePositions { relative_position: Some(v), ..s })
        } else {
            passed(s, b, h.size)
        }
}

/// Reads the children of a CueTrackPositions element.
pub fn parse_cue_track_positions(
    d: &[u8],
    start: u64,
    end: u64,
) -> (r: Result<(CuePositions, u64), MkvError>)
    ensures
        read_view(r) == walk(
            d@,
            start as int,
            end as int,
            empty_positions(),
            cue_positions_step(d@),
        ),
        r matches Ok((_, next)) ==> next >= start,
{
    let mut s: CuePositions = CuePositions {
        track: 0,
        cluster_offset: None,
        relative_position: None,
    };
    assert(s@ =~= empty_positions());
    let mut pos: u64 = start;
    let ghost step = cue_positions_step(d@);
    while pos < end
        invariant
            step == cue_positions_step(d@),
            walk(d@, start as int, end as int, empty_positions(), step) == walk(
                d@,
                pos as int,
                end as int,
                s@,
                step,
            ),
            pos >= start,
        decreases left_of(d@, pos as int),
    {
        let h: ElementHeader = read_element_header(d, pos)?;
        let body: u64 = pos + h.header_len;
        if h.id == ids::CUE_TRACK {
            s.track = read_uint(d, body, h.size)?;
            pos = body + h.size;
        } else if h.id == ids::CUE_CLUSTER_POSITION {
            s.cluster_offset = Some(read_uint(d, body, h.size)?);
            pos = body + h.size;
        } else if h.id == ids::CUE_RELATIVE_POSITION {
            s.relative_position = Some(read_uint(d, body, h.size)?);
            pos = body + h.size;
        } else {
            pos = skip(body, h.size)?;
        }
    }
    Ok((s, pos))
}

/// What each child of a CuePoint adds. Its time counts for the positions behind it.
pub open spec fn cue_point_step(d: Seq<u8>) -> spec_fn(CuePointState, ElementHeader, int) -> Result<
    (CuePointState, int),
    MkvError,
> {
    |s: CuePointState, h: ElementHeader, b: int|
        if h.id == ids::CUE_TIME {
            on_uint(d, h, b, |v: u64| CuePointState { time: v, ..s })
        } else if h.id == ids::CUE_TRACK_POSITIONS {
            on_master(
                walk(d, b, end_of(b, h.size), empty_positions(), cue_positions_step(d)),
                |p: CuePositions| CuePointState { cues: with_cue(s.cues, s.time, p), ..s },
            )
        } else {
            passed(s, b, h.size)
        }
}

/// Reads the children of a CuePoint into `point`.
pub fn parse_cue_point(
    d: &[u8],
    start: u64,
    end: u64,
    point: CuePoint,
) -> (r: Result<(CuePoint, u64), MkvError>)
    ensures
        read_view(r) == walk(d@, start as int, end as int, point@, cue_point_step(d@)),
        r matches Ok((_, next)) ==> next >= start,
{
    let mut s: CuePoint = point;
    let mut pos: u64 = start;
    let ghost step = cue_point_step(d@);
    while pos < end
        invariant
            step == cue_point_step(d@),
            walk(d@, start as int, end as int, point@, step) == walk(
                d@,
                pos as int,
                end as int,
                s@,
                step,
            ),
            pos >= start,
        decreases left_of(d@, pos as int),
    {
        let h: ElementHeader = read_element_header(d, pos)?;
        let body: u64 = pos + h.header_len;
        if h.id == ids::CUE_TIME {
            s.time = read_uint(d, body, h.size)?;
            pos = body + h.size;
        } else if h.id == ids::CUE_TRACK_POSITIONS {
            let (p, next) = parse_cue_track_positions(d, body, body.saturating_add(h.size))?;
            if let Some(offset) = p.cluster_offset {
                s.cues.push(
                    CueEntry {
                        track: p.track,
                        time: s.time,
                        cluster_offset: offset,
                        relative_position: p.relative_position,
                    },
                );
            }
            pos = next;
        } else {
            pos = skip(body, h.size)?;
        }
    }
    Ok((s, pos))
}

/// What each child of a Cues element adds.
pub open spec fn cues_step(d: Seq<u8>) -> spec_fn(Seq<CueEntry>, ElementHeader, int) -> Result<
    (Seq<CueEntry>, int),
    MkvError,
> {
    |s: Seq<CueEntry>, h: ElementHeader, b: int|
        if h.id == ids::CUE_POINT {
            on_master(
                walk(
                    d,
                    b,
                    end_of(b, h.size),
                    CuePointState { time: 0, cues: s },
                    cue_point_step(d),
                ),
                |p: CuePointState| p.cues,
            )
        } else {
            passed(s, b, h.size)
        }
}

/// Reads the children of a Cues element behind the entries in `cues`.
pub fn parse_cues(
    d: &[u8],
    start: u64,
    end: u64,
    cues: Vec<CueEntry>,
) -> (r: Result<(Vec<CueEntry>, u64), MkvError>)
    ensures
        read_view(r) == walk(d@, start as int, end as int, cues@, cues_step(d@)),
        r matches Ok((_, next)) ==> next >= start,
{
    let mut s: Vec<CueEntry> = cues;
    let mut pos: u64 = start;
    let ghost step = cues_step(d@);
    while pos < end
        invariant
            step == cues_step(d@),
            walk(d@, start as int, end as int, cues@, step) == walk(
                d@,
                pos as int,
                end as int,
                s@,
                step,
            ),
            pos >= start,
        decreases left_of(d@, pos as int),
    {
        let h: ElementHeader = read_element_header(d, pos)?;
        let body: u64 = pos + h.header_len;
        if h.id == ids::CUE_POINT {
            let (p, next) = parse_cue_point(
                d,
                body,
                body.saturating_add(h.size),
                CuePoint { time: 0, cues: s },
            )?;
            s = p.cues;
            pos = next;
        } else {
            pos = skip(body, h.size)?;
        }
    }
    Ok((s, pos))
}

} // verus!
