//! Tracks that are made of other tracks.

use vstd::prelude::*;
use super::tracks::{RawOperationView, RawTrackOperation};
use std::collections::HashMap;

verus! {

broadcast use vstd::std_specs::hash::group_hash_axioms;

/// Which eye a plane is for.
#[derive(Clone, Copy, Debug, PartialEq, Eq, Structural)]
pub enum TrackPlaneType {
    LeftEye,
    RightEye,
    Background,
    /// A value without a name.
    Other(u64),
}

impl TrackPlaneType {
    /// The stored value.
    pub open spec fn raw(self) -> u64 {
        match self {
            TrackPlaneType::LeftEye => 0,
            TrackPlaneType::RightEye => 1,
            TrackPlaneType::Background => 2,
            TrackPlaneType::Other(v) => v,
        }
    }

    /// What a stored value stands for.
    pub open spec fn of_raw(v: u64) -> TrackPlaneType {
        if v == 0 {
            TrackPlaneType::LeftEye
        } else if v == 1 {
            TrackPlaneType::RightEye
        } else if v == 2 {
            TrackPlaneType::Background
        } else {
            TrackPlaneType::Other(v)
        }
    }

    /// What a stored value stands for.
    pub fn from_raw(v: u64) -> (r: TrackPlaneType)
        ensures
            r == TrackPlaneType::of_raw(v),
    {
        match v {
            0 => TrackPlaneType::LeftEye,
            1 => TrackPlaneType::RightEye,
            2 => TrackPlaneType::Background,
            other => TrackPlaneType::Other(other),
        }
    }
}

/// Every value survives being turned into [`TrackPlaneType`] and back, and so does every
/// [`TrackPlaneType`] but an `Other` for a value that has a name.
pub proof fn lemma_track_plane_type_round_trip(v: u64, x: TrackPlaneType)
    ensures
        TrackPlaneType::of_raw(v).raw() == v,
        TrackPlaneType::of_raw(x.raw()) == x
            || (x is Other && !(TrackPlaneType::of_raw(x.raw()) is Other)),
{
}

/// A track that another track refers to.
#[derive(Clone, Copy, Debug, PartialEq, Eq, Structural)]
pub struct TrackRef {
    pub track_uid: u64,
    /// The index of the stream, where the document has that track.
    pub stream_index: Option<u32>,
}

/// A track that is one plane of another.
#[derive(Clone, Copy, Debug, PartialEq, Eq, Structural)]
pub struct TrackPlane {
    pub track: TrackRef,
    pub plane_type: TrackPlaneType,
}

/// How a track is made of other tracks.
#[derive(Clone, Debug, PartialEq, Eq)]
pub struct TrackOperation {
    /// The tracks whose planes are combined.
    pub planes: Vec<TrackPlane>,
    /// The tracks whose Blocks are joined.
    pub join_tracks: Vec<TrackRef>,
}

/// The view of a [`TrackOperation`].
#[verifier::ext_equal]
pub struct TrackOperationView {
    pub planes: Seq<TrackPlane>,
    pub join_tracks: Seq<TrackRef>,
}

impl View for TrackOperation {
    type V = TrackOperationView;

    open spec fn view(&self) -> TrackOperationView {
        TrackOperationView { planes: self.planes@, join_tracks: self.join_tracks@ }
    }
}

impl TrackOperation {
    /// Whether no other tracks are mentioned.
    pub fn is_empty(&self) -> (r: bool)
        ensures
            r == (self@.planes.len() == 0 && self@.join_tracks.len() == 0),
    {
        self.planes.is_empty() && self.join_tracks.is_empty()
    }
}

/// The track with the given UID.
pub open spec fn track_ref(uid: u64, tracks: Map<u64, u32>) -> TrackRef {
    TrackRef {
        track_uid: uid,
        stream_index: if tracks.contains_key(uid) {
            Some(tracks[uid])
        } else {
            None
        },
    }
}

/// A TrackOperation with its references resolved.
pub open spec fn operation_of(raw: RawOperationView, tracks: Map<u64, u32>) -> TrackOperationView {
    TrackOperationView {
        planes: raw.planes.map_values(
            |p: (u64, u64)|
                TrackPlane {
                    track: track_ref(p.0, tracks),
                    plane_type: TrackPlaneType::of_raw(p.1),
                },
        ),
        join_tracks: raw.join_uids.map_values(|u: u64| track_ref(u, tracks)),
    }
}

fn resolve_ref(uid: u64, tracks: &HashMap<u64, u32>) -> (r: TrackRef)
    ensures
        r == track_ref(uid, tracks@),
{
    let stream_index: Option<u32> = match tracks.get(&uid) {
        Some(i) => Some(*i),
        None => None,
    };
    TrackRef { track_uid: uid, stream_index }
}

/// Resolves the references of a TrackOperation.
pub fn resolve_operation(raw: &RawTrackOperation, tracks: &HashMap<u64, u32>) -> (r: TrackOperation)
    ensures
        r@ == operation_of(raw@, tracks@),
{
    let mut planes: Vec<TrackPlane> = Vec::new();
    let mut i: usize = 0;
    while i < raw.planes.len()
        invariant
            i <= raw.planes@.len(),
            planes@.len() == i,
            forall|k: int|
                0 <= k < i ==> #[trigger] planes@[k] == operation_of(raw@, tracks@).planes[k],
        decreases raw.planes@.len() - i,
    {
        let (uid, plane_type) = raw.planes[i];
        planes.push(
            TrackPlane {
                track: resolve_ref(uid, tracks),
                plane_type: TrackPlaneType::from_raw(plane_type),
            },
        );
        i = i + 1;
    }
    let mut join_tracks: Vec<TrackRef> = Vec::new();
    let mut j: usize = 0;
    while j < raw.join_uids.len()
        invariant
            j <= raw.join_uids@.len(),
            join_tracks@.len() == j,
            forall|k: int|
                0 <= k < j ==> #[trigger] join_tracks@[k] == operation_of(
                    raw@,
                    tracks@,
                ).join_tracks[k],
        decreases raw.join_uids@.len() - j,
    {
        join_tracks.push(resolve_ref(raw.join_uids[j], tracks));
        j = j + 1;
    }
    let r = TrackOperation { planes, join_tracks };
    assert(r@ =~= operation_of(raw@, tracks@));
    r
}

} // verus!
