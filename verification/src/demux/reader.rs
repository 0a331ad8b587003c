//! Reading Clusters: from elements to packets.

use vstd::prelude::*;
use crate::ebml::{
    bytes_at, end_of, header_at, left_of, lemma_walk_moves, on_bytes, on_uint, passed, read_bytes,
    read_element_header, read_uint, read_vint, skip, skip_from, uint_at, vint_at, walk,
    ElementHeader, VINT_UNKNOWN_SIZE,
};
use crate::error::MkvError;
use crate::ids;
use super::crc::{crc_at, validate_top_level_crc, CrcStatus};
use super::lacing::{
    ebml_frames, fixed_frames, parse_ebml_lacing, parse_fixed_lacing, parse_xiph_lacing,
    xiph_frames,
};
use super::segment::{inner_end, with_status};
use crate::arith::{to_i64, trunc_div, trunc_div_i64, wrap_i64};
use crate::sort::reversed;
use crate::stream::{Packet, PacketView, TimeBase};
use crate::views::{group_views, opt_view, views};
use std::collections::{HashMap, HashSet, VecDeque};
use vstd::slice::{slice_subrange, slice_to_vec};

verus! {

broadcast use {group_views, vstd::std_specs::hash::group_hash_axioms};

/// Where the reader is.
#[derive(Clone, Copy, Debug, PartialEq, Eq, Structural)]
pub enum ClusterState {
    /// Between top-level elements.
    Idle,
    /// In a Cluster, whose time is known so far.
    InCluster { body_end: u64, cluster_timecode: i64 },
}

/// What does not change while a document is read.
pub struct Layout {
    /// The document.
    pub data: Vec<u8>,
    /// Where the Segment's data ends.
    pub data_end: u64,
    /// Which stream the track with a given number is.
    pub track_index: HashMap<u64, u32>,
    /// The bytes to put in front of the frames of each stream.
    pub prefixes: Vec<Vec<u8>>,
    pub time_base: TimeBase,
}

/// The view of a [`Layout`].
#[verifier::ext_equal]
pub struct LayoutView {
    pub data: Seq<u8>,
    pub data_end: int,
    pub track_index: Map<u64, u32>,
    pub prefixes: Seq<Seq<u8>>,
    pub time_base: TimeBase,
}

impl View for Layout {
    type V = LayoutView;

    open spec fn view(&self) -> LayoutView {
        LayoutView {
            data: self.data@,
            data_end: self.data_end as int,
            track_index: self.track_index@,
            prefixes: views(self.prefixes@),
            time_base: self.time_base,
        }
    }
}

/// What changes while a document is read.
pub struct Reader {
    /// The position of the next element.
    pub pos: u64,
    pub cluster: ClusterState,
    /// Packets that have been read and not been handed out.
    pub queue: VecDeque<Packet>,
    /// The checksums found so far.
    pub crc_status: Vec<CrcStatus>,
    /// Where the data of the Clusters starts whose checksums have been looked at.
    pub validated: HashSet<u64>,
}

/// The view of a [`Reader`].
#[verifier::ext_equal]
pub struct ReaderView {
    pub pos: nat,
    pub cluster: ClusterState,
    pub queue: Seq<PacketView>,
    pub crc_status: Seq<CrcStatus>,
    pub validated: Set<u64>,
}

impl View for Reader {
    type V = ReaderView;

    open spec fn view(&self) -> ReaderView {
        ReaderView {
            pos: self.pos as nat,
            cluster: self.cluster,
            queue: views(self.queue@),
            crc_status: self.crc_status@,
            validated: self.validated@,
        }
    }
}

// ---------------------------------------------------------------------------
// Blocks.

/// The signed number in two bytes, the first of them the more significant.
pub open spec fn be_i16(hi: u8, lo: u8) -> int {
    let v = hi * 256 + lo;
    if v >= 0x8000 {
        v - 0x1_0000
    } else {
        v
    }
}

/// The frames of a Block without its header, by the kind of lacing in its flags.
pub open spec fn block_frames(flags: u8, body: Seq<u8>) -> Result<Seq<Seq<u8>>, MkvError> {
    let lacing = (flags >> 1) & 3;
    if lacing == 0 {
        Ok(seq![body])
    } else if lacing == 1 {
        xiph_frames(body)
    } else if lacing == 2 {
        fixed_frames(body)
    } else {
        ebml_frames(body)
    }
}

/// The share of each of `n` frames in a Block's duration.
pub open spec fn frame_duration(duration: Option<i64>, n: nat) -> Option<i64> {
    match duration {
        Some(d) => Some(
            trunc_div(
                d as int,
                if n == 0 {
                    1
                } else {
                    n as int
                },
            ) as i64,
        ),
        None => None,
    }
}

/// The time of frame `i` of a Block.
pub open spec fn frame_time(base: i64, per_frame: Option<i64>, i: int) -> i64 {
    match per_frame {
        Some(p) => wrap_i64(base + p * i) as i64,
        None => base,
    }
}

/// The bytes to put in front of the frames of a stream.
pub open spec fn prefix_of(prefixes: Seq<Seq<u8>>, stream: u32) -> Seq<u8> {
    if stream < prefixes.len() {
        prefixes[stream as int]
    } else {
        Seq::empty()
    }
}

/// The packets that the frames of a Block become.
pub open spec fn packets_of(
    l: LayoutView,
    stream: u32,
    frames: Seq<Seq<u8>>,
    base: i64,
    duration: Option<i64>,
    keyframe: bool,
) -> Seq<PacketView> {
    let per_frame = frame_duration(duration, frames.len());
    Seq::new(
        frames.len(),
        |i: int|
            PacketView {
                stream_index: stream,
                time_base: l.time_base,
                pts: Some(frame_time(base, per_frame, i)),
                dts: Some(frame_time(base, per_frame, i)),
                duration: per_frame,
                keyframe,
                data: prefix_of(l.prefixes, stream) + frames[i],
            },
    )
}

/// The packets in a Block: none where no track has its number.
pub open spec fn block_packets(
    l: LayoutView,
    bytes: Seq<u8>,
    timecode: i64,
    keyframe: bool,
    duration: Option<i64>,
) -> Result<Seq<PacketView>, MkvError> {
    match vint_at(bytes, 0, false) {
        Err(e) => Err(e),
        Ok((track, w)) => if w + 3 > bytes.len() {
            Err(MkvError::UnexpectedEof)
        } else if !l.track_index.contains_key(track) {
            Ok(Seq::empty())
        } else {
            let flags = bytes[w + 2];
            match block_frames(flags, bytes.skip(w + 3)) {
                Err(e) => Err(e),
                Ok(frames) => Ok(
                    packets_of(
                        l,
                        l.track_index[track],
                        frames,
                        wrap_i64(timecode + be_i16(bytes[w], bytes[w + 1])) as i64,
                        duration,
                        keyframe,
                    ),
                ),
            }
        },
    }
}

/// Whether the flags of a SimpleBlock, which stand behind its track number and its time, mark
/// a keyframe.
pub open spec fn block_is_keyframe(bytes: Seq<u8>) -> bool {
    match vint_at(bytes, 0, false) {
        Ok((_, w)) => w + 3 <= bytes.len() && bytes[w + 2] & 0x80 != 0,
        Err(_) => false,
    }
}

/// All packets of a Block are keyframes, or none is.
proof fn lemma_block_keyframes(
    l: LayoutView,
    bytes: Seq<u8>,
    timecode: i64,
    keyframe: bool,
    duration: Option<i64>,
    i: int,
)
    ensures
        block_packets(l, bytes, timecode, keyframe, duration) matches Ok(p) ==> (0 <= i < p.len()
            ==> p[i].keyframe == keyframe),
{
    if let Ok((track, w)) = vint_at(bytes, 0, false) {
        if w + 3 <= bytes.len() && l.track_index.contains_key(track) {
            if let Ok(frames) = block_frames(bytes[w + 2], bytes.skip(w + 3)) {
                let base = wrap_i64(timecode + be_i16(bytes[w], bytes[w + 1])) as i64;
                let p = packets_of(
                    l,
                    l.track_index[track],
                    frames,
                    base,
                    duration,
                    keyframe,
                );
                assert(0 <= i < p.len() ==> p[i].keyframe == keyframe);
            }
        }
    }
}

/// Packets that were read, as a view.
pub open spec fn packets_view(r: Result<Vec<Packet>, MkvError>) -> Result<
    Seq<PacketView>,
    MkvError,
> {
    match r {
        Ok(p) => Ok(views(p@)),
        Err(e) => Err(e),
    }
}

/// `a` and `b` added, wrapping around.
fn wrapping_sum(a: i64, b: i64) -> (r: i64)
    ensures
        r == wrap_i64(a + b),
{
    let s: i128 = a as i128 + b as i128;
    if s > 0x7FFF_FFFF_FFFF_FFFF {
        (s - 0x1_0000_0000_0000_0000) as i64
    } else if s < -0x8000_0000_0000_0000 {
        (s + 0x1_0000_0000_0000_0000) as i64
    } else {
        s as i64
    }
}

/// The times of a Block's frames stay within its duration of its own time.
proof fn lemma_frame_offset(d: int, n: int, i: int)
    requires
        n > 0,
        0 <= i < n,
    ensures
        magnitude_at_most(trunc_div(d, n) * i, d),
{
    let q = trunc_div(d, n);
    if d >= 0 {
        assert(0 <= q * i <= d) by (nonlinear_arith)
            requires
                q == d / n,
                n > 0,
                0 <= i < n,
                d >= 0,
        ;
    } else {
        let m = -d;
        assert(-(m / n) * i <= 0 && -m <= -(m / n) * i) by (nonlinear_arith)
            requires
                m > 0,
                n > 0,
                0 <= i < n,
        ;
    }
}

/// Whether `x` is no further from zero than `y`, on the same side.
spec fn magnitude_at_most(x: int, y: int) -> bool {
    (0 <= x <= y) || (y <= x <= 0)
}

fn split_frames(flags: u8, body: &[u8]) -> (r: Result<Vec<Vec<u8>>, MkvError>)
    ensures
        match r {
            Ok(f) => block_frames(flags, body@) == Ok::<Seq<Seq<u8>>, MkvError>(views(f@)),
            Err(e) => block_frames(flags, body@) == Err::<Seq<Seq<u8>>, MkvError>(e),
        },
{
    let lacing: u8 = (flags >> 1) & 3;
    if lacing == 0 {
        let mut frames: Vec<Vec<u8>> = Vec::new();
        frames.push(slice_to_vec(body));
        assert(views(frames@) =~= seq![body@]);
        Ok(frames)
    } else if lacing == 1 {
        parse_xiph_lacing(body)
    } else if lacing == 2 {
        parse_fixed_lacing(body)
    } else {
        parse_ebml_lacing(body)
    }
}

/// Makes the frames of a Block into packets.
fn make_packets(
    l: &Layout,
    stream: u32,
    frames: Vec<Vec<u8>>,
    base: i64,
    duration: Option<i64>,
    keyframe: bool,
) -> (r: Vec<Packet>)
    ensures
        views(r@) == packets_of(l@, stream, views(frames@), base, duration, keyframe),
{
    let ghost fv = views(frames@);
    let ghost n = frames@.len();
    let count: u64 = if frames.len() == 0 {
        1
    } else {
        frames.len() as u64
    };
    let per_frame: Option<i64> = match duration {
        Some(d) => Some(trunc_div_i64(d, count)),
        None => None,
    };
    let empty: Vec<u8> = Vec::new();
    let prefix: &Vec<u8> = if (stream as usize) < l.prefixes.len() {
        &l.prefixes[stream as usize]
    } else {
        &empty
    };
    assert(prefix@ =~= prefix_of(l@.prefixes, stream));
    let ghost want = packets_of(l@, stream, fv, base, duration, keyframe);
    let mut rest: Vec<Vec<u8>> = reversed(frames);
    assert forall|k: int| 0 <= k < rest@.len() implies (#[trigger] rest@[k])@ == fv[n - 1 - k] by {
        assert(rest@[k] == frames@[n - 1 - k]);
    }
    let mut out: Vec<Packet> = Vec::new();
    while rest.len() > 0
        invariant
            n == fv.len(),
            out@.len() + rest@.len() == n,
            count == (if n == 0 {
                1
            } else {
                n
            }),
            forall|k: int| 0 <= k < rest@.len() ==> (#[trigger] rest@[k])@ == fv[n - 1 - k],
            per_frame == frame_duration(duration, n),
            match (duration, per_frame) {
                (Some(d), Some(p)) => p == trunc_div(d as int, count as int),
                (None, None) => true,
                _ => false,
            },
            prefix@ == prefix_of(l@.prefixes, stream),
            want == packets_of(l@, stream, fv, base, duration, keyframe),
            forall|k: int| 0 <= k < out@.len() ==> (#[trigger] out@[k])@ == want[k],
        decreases rest@.len(),
    {
        let i: usize = out.len();
        let ghost held = rest@;
        if let Some(f) = rest.pop() {
            assert(held[held.len() - 1]@ == fv[i as int]);
            let pts: i64 = match per_frame {
                Some(p) => {
                    proof {
                        lemma_frame_offset(duration->0 as int, count as int, i as int);
                    }
                    let offset: i128 = p as i128 * i as i128;
                    wrapping_sum(base, offset as i64)
                },
                None => base,
            };
            let mut data: Vec<u8> = slice_to_vec(prefix.as_slice());
            data.extend_from_slice(f.as_slice());
            assert(data@ =~= prefix@ + f@);
            out.push(
                Packet {
                    stream_index: stream,
                    time_base: l.time_base,
                    pts: Some(pts),
                    dts: Some(pts),
                    duration: per_frame,
                    keyframe,
                    data,
                },
            );
        }
    }
    assert(views(out@) =~= want);
    out
}

/// Reads the packets in a Block. Whether they are keyframes is given.
pub fn queue_block_packets_with(
    l: &Layout,
    bytes: &[u8],
    timecode: i64,
    keyframe: bool,
    duration: Option<i64>,
) -> (r: Result<Vec<Packet>, MkvError>)
    ensures
        match r {
            Ok(p) => block_packets(l@, bytes@, timecode, keyframe, duration) == Ok::<
                Seq<PacketView>,
                MkvError,
            >(views(p@)),
            Err(e) => block_packets(l@, bytes@, timecode, keyframe, duration) == Err::<
                Seq<PacketView>,
                MkvError,
            >(e),
        },
{
    let (track, w) = read_vint(bytes, 0, false)?;
    let at: usize = w as usize;
    if bytes.len() - at < 3 {
        return Err(MkvError::UnexpectedEof);
    }
    let stream: u32 = match l.track_index.get(&track) {
        Some(i) => *i,
        None => {
            return Ok(Vec::new());
        },
    };
    let v: i64 = bytes[at] as i64 * 256 + bytes[at + 1] as i64;
    let offset: i64 = if v >= 0x8000 {
        v - 0x1_0000
    } else {
        v
    };
    let flags: u8 = bytes[at + 2];
    let body: &[u8] = slice_subrange(bytes, at + 3, bytes.len());
    assert(body@ =~= bytes@.skip(w + 3));
    let frames: Vec<Vec<u8>> = split_frames(flags, body)?;
    let base: i64 = wrapping_sum(timecode, offset);
    Ok(make_packets(l, stream, frames, base, duration, keyframe))
}

/// Whether the flags of a SimpleBlock mark a keyframe.
fn is_keyframe(bytes: &[u8]) -> (r: bool)
    ensures
        r == block_is_keyframe(bytes@),
{
    match read_vint(bytes, 0, false) {
        Ok((_, w)) => {
            let at: usize = w as usize;
            bytes.len() - at >= 3 && bytes[at + 2] & 0x80 != 0
        },
        Err(_) => false,
    }
}

/// Reads the packets in a SimpleBlock. Whether they are keyframes is for its flags to say.
pub fn queue_block_packets(l: &Layout, bytes: &[u8], timecode: i64) -> (r: Result<
    Vec<Packet>,
    MkvError,
>)
    ensures
        packets_view(r) == block_packets(l@, bytes@, timecode, block_is_keyframe(bytes@), None),
        r matches Ok(p) ==> forall|i: int|
            0 <= i < p@.len() ==> (#[trigger] p@[i]).keyframe == block_is_keyframe(bytes@),
{
    let r: Result<Vec<Packet>, MkvError> = queue_block_packets_with(
        l,
        bytes,
        timecode,
        is_keyframe(bytes),
        None,
    );
    proof {
        if let Ok(p) = &r {
            assert forall|i: int| 0 <= i < p@.len() implies (#[trigger] p@[i]).keyframe
                == block_is_keyframe(bytes@) by {
                lemma_block_keyframes(l@, bytes@, timecode, block_is_keyframe(bytes@), None, i);
                assert(views(p@)[i] == p@[i]@);
            }
        }
    }
    r
}

/// The children of a BlockGroup.
pub struct BlockGroup {
    pub block: Option<Vec<u8>>,
    pub duration: Option<i64>,
    pub keyframe: bool,
}

/// The view of a [`BlockGroup`].
#[verifier::ext_equal]
pub struct BlockGroupView {
    pub block: Option<Seq<u8>>,
    pub duration: Option<i64>,
    pub keyframe: bool,
}

impl View for BlockGroup {
    type V = BlockGroupView;

    open spec fn view(&self) -> BlockGroupView {
        BlockGroupView {
            block: opt_view(self.block),
            duration: self.duration,
            keyframe: self.keyframe,
        }
    }
}

/// A BlockGroup without children.
pub open spec fn empty_group() -> BlockGroupView {
    BlockGroupView { block: None, duration: None, keyframe: true }
}

/// What each child of a BlockGroup adds. One that refers to another Block is no keyframe,
/// and every other one is; the flags of its Block do not count.
pub open spec fn block_group_step(
    d: Seq<u8>,
) -> spec_fn(BlockGroupView, ElementHeader, int) -> Result<
    (BlockGroupView, int),
    MkvError,
> {
    |s: BlockGroupView, h: ElementHeader, b: int|
        if h.id == ids::BLOCK {
            on_bytes(d, h, b, |v: Seq<u8>| BlockGroupView { block: Some(v), ..s })
        } else if h.id == ids::BLOCK_DURATION {
            on_uint(
                d,
                h,
                b,
                |v: u64| BlockGroupView { duration: Some(wrap_i64(v as int) as i64), ..s },
            )
        } else if h.id == ids::REFERENCE_BLOCK {
            passed(BlockGroupView { keyframe: false, ..s }, b, h.size)
        } else {
            passed(s, b, h.size)
        }
}

/// Where the reader stands when the number in the `size` bytes at `body` cannot be read:
/// in front of it if it is too long, else at the end of the document, which cuts it off.
pub open spec fn number_failed_at(d: Seq<u8>, body: int, size: u64) -> int {
    if size > 8 {
        body
    } else {
        d.len() as int
    }
}

/// Where the reader stands when the children of a BlockGroup from `pos` on cannot be read:
/// in front of a header that is no header, behind the header of a child that is too long or
/// cannot be skipped, and at the end of a document that ends in a child.
pub open spec fn group_failed_at(d: Seq<u8>, pos: int, end: int, s: BlockGroupView) -> int
    decreases left_of(d, pos),
{
    if pos >= end || pos < 0 {
        pos
    } else {
        match header_at(d, pos) {
            Err(_) => pos,
            Ok(h) => {
                let body = pos + h.header_len;
                match block_group_step(d)(s, h, body) {
                    Ok((t, next)) => if next < body {
                        next
                    } else {
                        group_failed_at(d, next, end, t)
                    },
                    Err(_) => if h.id == ids::BLOCK {
                        d.len() as int
                    } else if h.id == ids::BLOCK_DURATION {
                        number_failed_at(d, body, h.size)
                    } else {
                        body
                    },
                }
            },
        }
    }
}

/// Reads the children of a BlockGroup. With an error comes the position of the reader.
fn parse_block_group_parts(d: &[u8], start: u64, end: u64) -> (r: Result<
    (BlockGroup, u64),
    (MkvError, u64),
>)
    ensures
        match r {
            Ok((g, next)) => walk(
                d@,
                start as int,
                end as int,
                empty_group(),
                block_group_step(d@),
            ) == Ok::<(BlockGroupView, int), MkvError>((g@, next as int)) && next >= start,
            Err((e, at)) => walk(
                d@,
                start as int,
                end as int,
                empty_group(),
                block_group_step(d@),
            ) == Err::<(BlockGroupView, int), MkvError>(e) && at == group_failed_at(
                d@,
                start as int,
                end as int,
                empty_group(),
            ),
        },
{
    let mut s: BlockGroup = BlockGroup { block: None, duration: None, keyframe: true };
    assert(s@ =~= empty_group());
    let mut pos: u64 = start;
    let ghost step = block_group_step(d@);
    while pos < end
        invariant
            step == block_group_step(d@),
            walk(d@, start as int, end as int, empty_group(), step) == walk(
                d@,
                pos as int,
                end as int,
                s@,
                step,
            ),
            group_failed_at(d@, start as int, end as int, empty_group()) == group_failed_at(
                d@,
                pos as int,
                end as int,
                s@,
            ),
            pos >= start,
        decreases left_of(d@, pos as int),
    {
        let h: ElementHeader = match read_element_header(d, pos) {
            Ok(h) => h,
            Err(e) => {
                return Err((e, pos));
            },
        };
        let body: u64 = pos + h.header_len;
        if h.id == ids::BLOCK {
            match read_bytes(d, body, h.size) {
                Ok(b) => {
                    s.block = Some(b);
                },
                Err(e) => {
                    return Err((e, d.len() as u64));
                },
            }
            pos = body + h.size;
        } else if h.id == ids::BLOCK_DURATION {
            match read_uint(d, body, h.size) {
                Ok(v) => {
                    s.duration = Some(to_i64(v));
                },
                Err(e) => {
                    return Err((e, number_failure(d, body, h.size)));
                },
            }
            pos = body + h.size;
        } else {
            if h.id == ids::REFERENCE_BLOCK {
                s.keyframe = false;
            }
            pos = match skip(body, h.size) {
                Ok(next) => next,
                Err(e) => {
                    return Err((e, body));
                },
            };
        }
    }
    Ok((s, pos))
}

/// Where the reader stands when a number cannot be read.
fn number_failure(d: &[u8], body: u64, size: u64) -> (r: u64)
    ensures
        r == number_failed_at(d@, body as int, size),
{
    if size > 8 {
        body
    } else {
        d.len() as u64
    }
}

/// What the Block in a BlockGroup gives.
pub open spec fn packets_in_group(l: LayoutView, g: BlockGroupView, timecode: i64) -> Result<
    Seq<PacketView>,
    MkvError,
> {
    match g.block {
        None => Ok(Seq::empty()),
        Some(b) => block_packets(l, b, timecode, g.keyframe, g.duration),
    }
}

/// The packets in the BlockGroup whose children start at `start`, and where the reader
/// stands behind it.
pub open spec fn group_packets(l: LayoutView, start: int, end: int, timecode: i64) -> (
    Result<Seq<PacketView>, MkvError>,
    int,
) {
    match walk(l.data, start, end, empty_group(), block_group_step(l.data)) {
        Err(e) => (Err(e), group_failed_at(l.data, start, end, empty_group())),
        Ok((g, next)) => (packets_in_group(l, g, timecode), next),
    }
}

/// Reads the packets in the BlockGroup whose children start at `start`. Gives them or what
/// is wrong, and where the reader stands then.
pub fn parse_block_group(l: &Layout, start: u64, end: u64, timecode: i64) -> (r: (
    Result<Vec<Packet>, MkvError>,
    u64,
))
    ensures
        (packets_view(r.0), r.1 as int) == group_packets(l@, start as int, end as int, timecode),
{
    match parse_block_group_parts(l.data.as_slice(), start, end) {
        Err((e, at)) => (Err(e), at),
        Ok((group, next)) => match group.block {
            None => {
                let none: Vec<Packet> = Vec::new();
                assert(views(none@) =~= Seq::<PacketView>::empty());
                (Ok(none), next)
            },
            Some(b) => (
                queue_block_packets_with(
                    l,
                    b.as_slice(),
                    timecode,
                    group.keyframe,
                    group.duration,
                ),
                next,
            ),
        },
    }
}

// ---------------------------------------------------------------------------
// Clusters.

/// The state once the checksum of a Cluster has been looked at, which happens once, and
/// only to a Cluster of known size.
pub open spec fn with_cluster_crc(
    d: Seq<u8>,
    s: ReaderView,
    body_start: int,
    body_end: int,
    unknown: bool,
) -> ReaderView {
    if body_end <= body_start || unknown || s.validated.contains(body_start as u64) {
        s
    } else {
        ReaderView {
            crc_status: with_status(
                s.crc_status,
                crc_at(d, ids::CLUSTER, body_start, body_end),
            ),
            validated: s.validated.insert(body_start as u64),
            ..s
        }
    }
}

/// The checksum of a Cluster is noted once, however often it is passed.
pub proof fn lemma_cluster_crc_once(
    d: Seq<u8>,
    s: ReaderView,
    body_start: int,
    body_end: int,
    unknown: bool,
)
    ensures
        ({
            let once = with_cluster_crc(d, s, body_start, body_end, unknown);
            with_cluster_crc(d, once, body_start, body_end, unknown) == once
        }),
{
}

/// Whether an element with the given ID follows a Cluster and is not in it.
pub open spec fn is_cluster_sibling(id: u32) -> bool {
    id == ids::CLUSTER || id == ids::CUES || id == ids::TAGS || id == ids::ATTACHMENTS || id
        == ids::CHAPTERS || id == ids::SEEK_HEAD || id == ids::INFO || id == ids::TRACKS
}

/// The state after one element between Clusters.
pub open spec fn advance_idle(l: LayoutView, s: ReaderView) -> Result<ReaderView, MkvError> {
    let pos = s.pos as int;
    if pos >= l.data_end {
        Err(MkvError::Eof)
    } else {
        match header_at(l.data, pos) {
            Err(e) => Err(e),
            Ok(h) => {
                let body = pos + h.header_len;
                if h.id == ids::CLUSTER {
                    let body_end = inner_end(h, body, l.data_end);
                    let t = with_cluster_crc(
                        l.data,
                        s,
                        body,
                        body_end,
                        h.size == VINT_UNKNOWN_SIZE,
                    );
                    Ok(
                        ReaderView {
                            pos: body as nat,
                            cluster: ClusterState::InCluster {
                                body_end: body_end as u64,
                                cluster_timecode: 0,
                            },
                            ..t
                        },
                    )
                } else {
                    match skip_from(body, h.size) {
                        Err(e) => Err(e),
                        Ok(next) => Ok(ReaderView { pos: next as nat, ..s }),
                    }
                }
            },
        }
    }
}

/// The state with packets added to the queue, at another position.
pub open spec fn queued(s: ReaderView, p: Seq<PacketView>, next: int) -> ReaderView {
    ReaderView { queue: s.queue + p, pos: next as nat, ..s }
}

/// The state after one element of a Cluster.
pub open spec fn advance_in_cluster(
    l: LayoutView,
    s: ReaderView,
    body_end: u64,
    timecode: i64,
) -> Result<ReaderView, MkvError> {
    let pos = s.pos as int;
    if pos >= body_end {
        Ok(ReaderView { cluster: ClusterState::Idle, ..s })
    } else {
        match header_at(l.data, pos) {
            Err(e) => Err(e),
            Ok(h) => {
                let body = pos + h.header_len;
                if h.id == ids::TIMECODE {
                    match uint_at(l.data, body, h.size) {
                        Err(e) => Err(e),
                        Ok(v) => Ok(
                            ReaderView {
                                pos: (body + h.size) as nat,
                                cluster: ClusterState::InCluster {
                                    body_end,
                                    cluster_timecode: wrap_i64(v as int) as i64,
                                },
                                ..s
                            },
                        ),
                    }
                } else if h.id == ids::SIMPLE_BLOCK {
                    match bytes_at(l.data, body, h.size) {
                        Err(e) => Err(e),
                        Ok(b) => match block_packets(l, b, timecode, block_is_keyframe(b), None) {
                            Err(e) => Err(e),
                            Ok(p) => Ok(queued(s, p, body + h.size)),
                        },
                    }
                } else if h.id == ids::BLOCK_GROUP {
                    match group_packets(l, body, end_of(body, h.size), timecode) {
                        (Err(e), _) => Err(e),
                        (Ok(p), next) => Ok(queued(s, p, next)),
                    }
                } else if is_cluster_sibling(h.id) {
                    Ok(ReaderView { cluster: ClusterState::Idle, ..s })
                } else {
                    match skip_from(body, h.size) {
                        Err(e) => Err(e),
                        Ok(next) => Ok(ReaderView { pos: next as nat, ..s }),
                    }
                }
            },
        }
    }
}

/// The state after one more element.
pub open spec fn advanced(l: LayoutView, s: ReaderView) -> Result<ReaderView, MkvError> {
    match s.cluster {
        ClusterState::Idle => advance_idle(l, s),
        ClusterState::InCluster { body_end, cluster_timecode } => advance_in_cluster(
            l,
            s,
            body_end,
            cluster_timecode,
        ),
    }
}

/// The state after an element that cannot be used. What was read of it is behind the reader:
/// its header, and a Block whose payload is bad, or data that the document ends in. In front
/// of the reader is still what is no header.
pub open spec fn after_failure(l: LayoutView, s: ReaderView) -> ReaderView {
    let pos = s.pos as int;
    match header_at(l.data, pos) {
        Err(_) => s,
        Ok(h) => {
            let body = pos + h.header_len;
            match s.cluster {
                ClusterState::Idle => if pos >= l.data_end {
                    s
                } else {
                    ReaderView { pos: body as nat, ..s }
                },
                ClusterState::InCluster { cluster_timecode, .. } => {
                    let next = if h.id == ids::TIMECODE {
                        number_failed_at(l.data, body, h.size)
                    } else if h.id == ids::SIMPLE_BLOCK {
                        match bytes_at(l.data, body, h.size) {
                            Err(_) => l.data.len() as int,
                            Ok(_) => body + h.size,
                        }
                    } else if h.id == ids::BLOCK_GROUP {
                        group_packets(l, body, end_of(body, h.size), cluster_timecode).1
                    } else {
                        body
                    };
                    ReaderView { pos: next as nat, ..s }
                },
            }
        },
    }
}

/// One for a reader in a Cluster.
pub open spec fn depth(s: ReaderView) -> nat {
    match s.cluster {
        ClusterState::Idle => 0,
        ClusterState::InCluster { .. } => 1,
    }
}

/// A reader goes on in the document or leaves a Cluster.
pub proof fn lemma_advanced_moves(l: LayoutView, s: ReaderView)
    ensures
        advanced(l, s) matches Ok(t) ==> left_of(l.data, t.pos as int) < left_of(
            l.data,
            s.pos as int,
        ) || (t.pos == s.pos && depth(t) < depth(s)),
{
    if let Ok(h) = header_at(l.data, s.pos as int) {
        let body = s.pos + h.header_len;
        lemma_walk_moves(
            l.data,
            body,
            end_of(body, h.size),
            empty_group(),
            block_group_step(l.data),
        );
    }
}

proof fn lemma_group_failure(d: Seq<u8>, pos: int, end: int, s: BlockGroupView)
    requires
        0 <= pos,
    ensures
        group_failed_at(d, pos, end, s) >= pos,
    decreases left_of(d, pos),
{
    if pos < end {
        if let Ok(h) = header_at(d, pos) {
            let body = pos + h.header_len;
            if let Ok((t, next)) = block_group_step(d)(s, h, body) {
                if next >= body {
                    lemma_group_failure(d, next, end, t);
                }
            }
        }
    }
}

/// An element whose header can be read stops a reader at most once: after a failure the
/// reader is behind that header.
pub proof fn lemma_failure_moves(l: LayoutView, s: ReaderView)
    requires
        advanced(l, s) matches Err(e) && e != MkvError::Eof,
        header_at(l.data, s.pos as int) is Ok,
    ensures
        after_failure(l, s).pos >= s.pos + header_at(l.data, s.pos as int)->Ok_0.header_len,
{
    let h = header_at(l.data, s.pos as int)->Ok_0;
    let body = s.pos + h.header_len;
    lemma_group_failure(l.data, body, end_of(body, h.size), empty_group());
    lemma_walk_moves(
        l.data,
        body,
        end_of(body, h.size),
        empty_group(),
        block_group_step(l.data),
    );
}

/// The next packet, and the state without it.
pub open spec fn next_packet_of(l: LayoutView, s: ReaderView) -> (
    Result<PacketView, MkvError>,
    ReaderView,
)
    decreases left_of(l.data, s.pos as int), depth(s),
    via next_packet_moves
{
    if s.queue.len() > 0 {
        (Ok(s.queue[0]), ReaderView { queue: s.queue.skip(1), ..s })
    } else {
        match advanced(l, s) {
            Err(e) => (Err(e), after_failure(l, s)),
            Ok(t) => next_packet_of(l, t),
        }
    }
}

#[via_fn]
proof fn next_packet_moves(l: LayoutView, s: ReaderView) {
    lemma_advanced_moves(l, s);
}

impl Reader {
    /// Looks at the checksum of a Cluster, if that has not been done.
    fn validate_cluster_crc(&mut self, d: &[u8], body_start: u64, body_end: u64, unknown: bool)
        ensures
            final(self)@ == with_cluster_crc(
                d@,
                old(self)@,
                body_start as int,
                body_end as int,
                unknown,
            ),
    {
        if body_end <= body_start || unknown || self.validated.contains(&body_start) {
            return;
        }
        let status: Option<CrcStatus> = validate_top_level_crc(
            d,
            ids::CLUSTER,
            body_start,
            body_end,
        );
        self.validated.insert(body_start);
        if let Some(c) = status {
            self.crc_status.push(c);
        }
    }

    /// Appends packets to the queue.
    fn enqueue(&mut self, packets: Vec<Packet>)
        ensures
            final(self)@ == queued(old(self)@, views(packets@), old(self)@.pos as int),
    {
        let ghost pv = views(packets@);
        let ghost n = packets@.len();
        let ghost before = views(self.queue@);
        let mut rest: Vec<Packet> = reversed(packets);
        assert forall|k: int| 0 <= k < rest@.len() implies (#[trigger] rest@[k])@ == pv[n - 1
            - k] by {
            assert(rest@[k] == packets@[n - 1 - k]);
        }
        assert(views(self.queue@) =~= before + pv.take(0));
        while rest.len() > 0
            invariant
                n == pv.len(),
                rest@.len() <= n,
                forall|k: int| 0 <= k < rest@.len() ==> (#[trigger] rest@[k])@ == pv[n - 1 - k],
                views(self.queue@) == before + pv.take(n - rest@.len()),
                self.pos == old(self).pos,
                self.cluster == old(self).cluster,
                self.crc_status == old(self).crc_status,
                self.validated == old(self).validated,
            decreases rest@.len(),
        {
            let ghost done = n - rest@.len();
            let ghost held = rest@;
            if let Some(p) = rest.pop() {
                assert(held[held.len() - 1]@ == pv[done]);
                self.queue.push_back(p);
                assert(views(self.queue@) =~= before + pv.take(done + 1));
            }
        }
        assert(pv.take(n as int) =~= pv);
    }

    /// Reads one more element. After a failure the reader is where [`after_failure`] says.
    pub fn advance(&mut self, l: &Layout) -> (r: Result<(), MkvError>)
        ensures
            match r {
                Ok(_) => advanced(l@, old(self)@) == Ok::<ReaderView, MkvError>(final(self)@),
                Err(e) => advanced(l@, old(self)@) == Err::<ReaderView, MkvError>(e)
                    && final(self)@ == after_failure(l@, old(self)@),
            },
    {
        let d: &[u8] = l.data.as_slice();
        let pos: u64 = self.pos;
        match self.cluster {
            ClusterState::Idle => {
                if pos >= l.data_end {
                    return Err(MkvError::Eof);
                }
                let h: ElementHeader = read_element_header(d, pos)?;
                let body: u64 = pos + h.header_len;
                if h.id == ids::CLUSTER {
                    let unknown: bool = h.size == VINT_UNKNOWN_SIZE;
                    let body_end: u64 = if unknown {
                        l.data_end
                    } else {
                        body.saturating_add(h.size)
                    };
                    self.validate_cluster_crc(d, body, body_end, unknown);
                    self.cluster = ClusterState::InCluster { body_end, cluster_timecode: 0 };
                    self.pos = body;
                } else {
                    self.pos = body;
                    self.pos = skip(body, h.size)?;
                }
                Ok(())
            },
            ClusterState::InCluster { body_end, cluster_timecode } => {
                if pos >= body_end {
                    self.cluster = ClusterState::Idle;
                    return Ok(());
                }
                let h: ElementHeader = read_element_header(d, pos)?;
                let body: u64 = pos + h.header_len;
                if h.id == ids::TIMECODE {
                    self.pos = number_failure(d, body, h.size);
                    let v: u64 = read_uint(d, body, h.size)?;
                    self.cluster =
                    ClusterState::InCluster { body_end, cluster_timecode: to_i64(v) };
                    self.pos = body + h.size;
                } else if h.id == ids::SIMPLE_BLOCK {
                    self.pos = d.len() as u64;
                    let b: Vec<u8> = read_bytes(d, body, h.size)?;
                    self.pos = body + h.size;
                    self.enqueue(queue_block_packets(l, b.as_slice(), cluster_timecode)?);
                } else if h.id == ids::BLOCK_GROUP {
                    let (p, next) = parse_block_group(
                        l,
                        body,
                        body.saturating_add(h.size),
                        cluster_timecode,
                    );
                    self.pos = next;
                    self.enqueue(p?);
                } else if h.id == ids::CLUSTER || h.id == ids::CUES || h.id == ids::TAGS || h.id
                    == ids::ATTACHMENTS || h.id == ids::CHAPTERS || h.id == ids::SEEK_HEAD || h.id
                    == ids::INFO || h.id == ids::TRACKS {
                    self.cluster = ClusterState::Idle;
                } else {
                    self.pos = body;
                    self.pos = skip(body, h.size)?;
                }
                Ok(())
            },
        }
    }

    /// Hands out the next packet.
    pub fn next_packet(&mut self, l: &Layout) -> (r: Result<Packet, MkvError>)
        ensures
            match r {
                Ok(p) => next_packet_of(l@, old(self)@) == (
                    Ok::<PacketView, MkvError>(p@),
                    final(self)@,
                ),
                Err(e) => next_packet_of(l@, old(self)@) == (
                    Err::<PacketView, MkvError>(e),
                    final(self)@,
                ),
            },
    {
        loop
            invariant
                next_packet_of(l@, old(self)@) == next_packet_of(l@, self@),
            decreases left_of(l@.data, self@.pos as int), depth(self@),
        {
            let ghost before = views(self.queue@);
            if let Some(p) = self.queue.pop_front() {
                assert(p@ == before[0]);
                assert(views(self.queue@) =~= before.skip(1));
                return Ok(p);
            }
            proof {
                lemma_advanced_moves(l@, self@);
            }
            self.advance(l)?;
        }
    }
}

// ---------------------------------------------------------------------------
// Jumping into a Cluster.

/// The time of a Cluster as its children up to `target` give it. Nothing where a child
/// is cut off or does not fit the Cluster. With an error comes the position of the reader.
pub open spec fn cluster_time(
    d: Seq<u8>,
    pos: int,
    target: int,
    body_end: int,
    timecode: i64,
) -> Result<
    Option<i64>,
    (MkvError, int),
>
    decreases left_of(d, pos),
{
    if pos >= target || pos < 0 {
        Ok(Some(timecode))
    } else {
        match header_at(d, pos) {
            Err(_) => Ok(None),
            Ok(h) => {
                let body = pos + h.header_len;
                let next = end_of(body, h.size);
                if h.id == ids::TIMECODE {
                    match uint_at(d, body, h.size) {
                        Err(e) => Err((e, number_failed_at(d, body, h.size))),
                        Ok(v) => if next > body_end {
                            Ok(None)
                        } else {
                            cluster_time(d, next, target, body_end, wrap_i64(v as int) as i64)
                        },
                    }
                } else if next > body_end {
                    Ok(None)
                } else {
                    cluster_time(d, next, target, body_end, timecode)
                }
            },
        }
    }
}

/// What comes of jumping `relative` bytes into the data of the Cluster that starts at the
/// reader's position. Where that is no place in a Cluster, the reader stays in front of
/// it.
pub open spec fn jumped(l: LayoutView, s: ReaderView, relative: u64) -> (
    Result<(), MkvError>,
    ReaderView,
) {
    match header_at(l.data, s.pos as int) {
        Err(e) => (Err(e), s),
        Ok(h) => {
            let body = s.pos + h.header_len;
            let unknown = h.size == VINT_UNKNOWN_SIZE;
            let body_end = inner_end(h, body, l.data_end);
            let target = end_of(body, relative);
            if h.id != ids::CLUSTER || target > body_end {
                (Ok(()), s)
            } else {
                let t = with_cluster_crc(l.data, s, body, body_end, unknown);
                match cluster_time(l.data, body, target, body_end, 0) {
                    Err((e, at)) => (Err(e), ReaderView { pos: at as nat, ..t }),
                    Ok(None) => (Ok(()), t),
                    Ok(Some(time)) => (
                        Ok(()),
                        ReaderView {
                            pos: target as nat,
                            cluster: ClusterState::InCluster {
                                body_end: body_end as u64,
                                cluster_timecode: time,
                            },
                            ..t
                        },
                    ),
                }
            }
        },
    }
}

/// Finds the time of a Cluster in its children from `start` up to `target`. With an error
/// comes the position of the reader.
fn find_cluster_time(d: &[u8], start: u64, target: u64, body_end: u64) -> (r: Result<
    Option<i64>,
    (MkvError, u64),
>)
    ensures
        cluster_time(d@, start as int, target as int, body_end as int, 0) == match r {
            Ok(time) => Ok::<Option<i64>, (MkvError, int)>(time),
            Err((e, at)) => Err((e, at as int)),
        },
{
    let mut timecode: i64 = 0;
    let mut pos: u64 = start;
    while pos < target
        invariant
            cluster_time(d@, start as int, target as int, body_end as int, 0) == cluster_time(
                d@,
                pos as int,
                target as int,
                body_end as int,
                timecode,
            ),
        decreases left_of(d@, pos as int),
    {
        let h: ElementHeader = match read_element_header(d, pos) {
            Ok(h) => h,
            Err(_) => {
                return Ok(None);
            },
        };
        let body: u64 = pos + h.header_len;
        if h.id == ids::TIMECODE {
            timecode = match read_uint(d, body, h.size) {
                Ok(v) => to_i64(v),
                Err(e) => {
                    return Err((e, number_failure(d, body, h.size)));
                },
            };
        }
        let next: u64 = body.saturating_add(h.size);
        if next > body_end {
            return Ok(None);
        }
        pos = next;
    }
    Ok(Some(timecode))
}

impl Reader {
    /// Jumps `relative` bytes into the data of the Cluster that starts at the reader's
    /// position.
    pub fn apply_cue_relative_position(&mut self, l: &Layout, relative: u64) -> (r: Result<
        (),
        MkvError,
    >)
        ensures
            jumped(l@, old(self)@, relative) == (r, final(self)@),
    {
        let d: &[u8] = l.data.as_slice();
        let h: ElementHeader = read_element_header(d, self.pos)?;
        if h.id != ids::CLUSTER {
            return Ok(());
        }
        let body: u64 = self.pos + h.header_len;
        let unknown: bool = h.size == VINT_UNKNOWN_SIZE;
        let body_end: u64 = if unknown {
            l.data_end
        } else {
            body.saturating_add(h.size)
        };
        let target: u64 = body.saturating_add(relative);
        if target > body_end {
            return Ok(());
        }
        self.validate_cluster_crc(d, body, body_end, unknown);
        match find_cluster_time(d, body, target, body_end) {
            Err((e, at)) => {
                self.pos = at;
                Err(e)
            },
            Ok(None) => Ok(()),
            Ok(Some(time)) => {
                self.cluster = ClusterState::InCluster { body_end, cluster_timecode: time };
                self.pos = target;
                Ok(())
            },
        }
    }
}

} // verus!
