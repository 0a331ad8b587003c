//! Frames that were laced into a Block come out of it, one by one.

use vstd::prelude::*;
use vstd::arithmetic::power2::{lemma2_to64, lemma2_to64_rest, pow2};
use crate::arith::{trunc_div, wrap_i64};
use crate::demux::lacing::{
    all_positive, cut, ebml_frames, ebml_sizes, fixed_frames, frames_of, joined, signed_size, total,
    xiph_frames, xiph_size, xiph_sizes,
};
use crate::demux::reader::{block_frames, block_packets, prefix_of, LayoutView};
use crate::ebml::{be_bytes, lemma_be_bytes_len, vint_at, vint_max};
use crate::error::MkvError;
use crate::mux::packets::bits16;
use crate::round_trip::elements::{
    holds, lemma_holds_split, lemma_size_read, lemma_vint_read, MAX_LEN,
};
use crate::round_trip::packets::lemma_i16_read;
use crate::write::{size_bytes, size_code, size_len};

verus! {

/// The sizes of frames.
pub open spec fn lens(f: Seq<Seq<u8>>) -> Seq<int> {
    f.map_values(|x: Seq<u8>| x.len() as int)
}

proof fn lemma_lens(f: Seq<Seq<u8>>)
    ensures
        lens(f).len() == f.len(),
        all_positive(lens(f)),
        f.len() > 0 ==> lens(f).drop_last() == lens(f.drop_last()) && lens(f)
            == lens(f.drop_last()).push(f.last().len() as int),
{
    if f.len() > 0 {
        assert(lens(f).drop_last() =~= lens(f.drop_last()));
        assert(lens(f) =~= lens(f.drop_last()).push(f.last().len() as int));
    }
}

/// Frames that stand one after the other are cut apart by their sizes.
proof fn lemma_cut_frames(body: Seq<u8>, pos: int, f: Seq<Seq<u8>>)
    requires
        holds(body, pos, joined(f)),
    ensures
        cut(body, pos, lens(f)) == f,
        total(lens(f)) == joined(f).len(),
    decreases f.len(),
{
    lemma_lens(f);
    if f.len() == 0 {
        assert(cut(body, pos, lens(f)) =~= f);
    } else {
        let g = f.drop_last();
        lemma_holds_split(body, pos, joined(g), f.last());
        lemma_cut_frames(body, pos, g);
        assert(cut(body, pos, lens(f)) =~= g.push(f.last()));
        assert(g.push(f.last()) =~= f);
    }
}

/// Frames of which the sizes but the last are known, and which are all that is left, come
/// out.
proof fn lemma_frames_out(body: Seq<u8>, pos: int, f: Seq<Seq<u8>>)
    requires
        f.len() > 0,
        0 <= pos <= body.len(),
        body.skip(pos) == joined(f),
    ensures
        frames_of(body, pos, lens(f.drop_last())) == Ok::<Seq<Seq<u8>>, MkvError>(f),
{
    assert(body.subrange(pos, pos + joined(f).len()) =~= body.skip(pos));
    lemma_cut_frames(body, pos, f);
    lemma_lens(f);
    lemma_lens(f.drop_last());
    let sizes = lens(f.drop_last());
    assert(total(lens(f)) == total(sizes) + f.last().len());
    assert(body.len() - pos - total(sizes) == f.last().len());
}

// ---------------------------------------------------------------------------
// Xiph lacing.

/// A size in Xiph lacing: a byte of 255 for each whole 255, and the remainder.
pub open spec fn xiph_code(n: nat) -> Seq<u8> {
    Seq::new(n / 255, |i: int| 255u8).push((n % 255) as u8)
}

/// The sizes of the first `n` frames in Xiph lacing.
pub open spec fn xiph_codes(f: Seq<Seq<u8>>, n: nat) -> Seq<u8>
    decreases n,
{
    if n == 0 {
        Seq::empty()
    } else {
        xiph_codes(f, (n - 1) as nat) + xiph_code(f[n - 1].len())
    }
}

/// Frames with Xiph lacing: their number less one, all sizes but the last, and the frames.
pub open spec fn xiph_laced(f: Seq<Seq<u8>>) -> Seq<u8> {
    seq![(f.len() - 1) as u8] + xiph_codes(f, (f.len() - 1) as nat) + joined(f)
}

proof fn lemma_xiph_size_read(body: Seq<u8>, i: int, n: nat)
    requires
        holds(body, i, xiph_code(n)),
    ensures
        xiph_size(body, i) == Ok::<(int, int), MkvError>((n as int, i + xiph_code(n).len())),
    decreases n,
{
    let c = xiph_code(n);
    assert(body.subrange(i, i + c.len())[0] == body[i]);
    if n >= 255 {
        let m = (n - 255) as nat;
        assert(c =~= seq![255u8] + xiph_code(m));
        lemma_holds_split(body, i, seq![255u8], xiph_code(m));
        lemma_xiph_size_read(body, i + 1, m);
        assert(c[0] == 255);
    } else {
        assert(c[0] == n);
    }
}

proof fn lemma_xiph_sizes_read(body: Seq<u8>, f: Seq<Seq<u8>>, n: nat)
    requires
        n <= f.len(),
        holds(body, 1, xiph_codes(f, n)),
    ensures
        xiph_sizes(body, 1, n) == Ok::<(Seq<int>, int), MkvError>(
            (lens(f.take(n as int)), 1int + xiph_codes(f, n).len()),
        ),
    decreases n,
{
    if n == 0 {
        assert(lens(f.take(0)) =~= Seq::<int>::empty());
    } else {
        let m = (n - 1) as nat;
        lemma_holds_split(body, 1, xiph_codes(f, m), xiph_code(f[m as int].len()));
        lemma_xiph_sizes_read(body, f, m);
        lemma_xiph_size_read(body, 1int + xiph_codes(f, m).len(), f[m as int].len());
        assert(lens(f.take(n as int)) =~= lens(f.take(m as int)).push(f[m as int].len() as int));
    }
}

/// Frames that were laced in the Xiph way come out, each as it went in.
#[verifier::rlimit(40)]
pub proof fn lemma_xiph_unlaced(f: Seq<Seq<u8>>)
    requires
        1 <= f.len() <= 256,
    ensures
        xiph_frames(xiph_laced(f)) == Ok::<Seq<Seq<u8>>, MkvError>(f),
{
    let n = (f.len() - 1) as nat;
    let body = xiph_laced(f);
    let a = seq![n as u8];
    let c = xiph_codes(f, n);
    assert(body.subrange(1, 1int + c.len()) =~= c);
    lemma_xiph_sizes_read(body, f, n);
    assert(f.take(n as int) =~= f.drop_last());
    assert(body.skip(1int + c.len()) =~= joined(f));
    lemma_frames_out(body, 1int + c.len(), f);
}

// ---------------------------------------------------------------------------
// Fixed-size lacing.

/// Frames with fixed-size lacing: their number less one, and the frames.
pub open spec fn fixed_laced(f: Seq<Seq<u8>>) -> Seq<u8> {
    seq![(f.len() - 1) as u8] + joined(f)
}

proof fn lemma_joined_equal(f: Seq<Seq<u8>>, size: nat)
    requires
        forall|i: int| 0 <= i < f.len() ==> (#[trigger] f[i]).len() == size,
    ensures
        joined(f).len() == f.len() * size,
        forall|i: int|
            0 <= i < f.len() ==> joined(f).subrange(i * size, (i + 1) * size) == #[trigger] f[i],
    decreases f.len(),
{
    if f.len() > 0 {
        let g = f.drop_last();
        lemma_joined_equal(g, size);
        assert(g.len() * size + size == f.len() * size) by (nonlinear_arith)
            requires
                g.len() + 1 == f.len(),
        ;
        assert forall|i: int| 0 <= i < f.len() implies joined(f).subrange(
            i * size,
            (i + 1) * size,
        ) == #[trigger] f[i] by {
            assert(0 <= i * size && (i + 1) * size == i * size + size) by (nonlinear_arith)
                requires
                    0 <= i,
            ;
            if i < g.len() {
                assert((i + 1) * size <= g.len() * size) by (nonlinear_arith)
                    requires
                        i + 1 <= g.len(),
                ;
                assert(joined(g).subrange(i * size, (i + 1) * size) == g[i]);
                assert(joined(f).subrange(i * size, (i + 1) * size) =~= joined(g).subrange(
                    i * size,
                    (i + 1) * size,
                ));
            } else {
                assert(joined(f).subrange(i * size, (i + 1) * size) =~= f.last());
            }
        }
    } else {
        assert(0 * size == 0) by (nonlinear_arith);
    }
}

/// Frames of one size that were laced without their sizes come out, each as it went in.
pub proof fn lemma_fixed_unlaced(f: Seq<Seq<u8>>, size: nat)
    requires
        1 <= f.len() <= 256,
        forall|i: int| 0 <= i < f.len() ==> (#[trigger] f[i]).len() == size,
    ensures
        fixed_frames(fixed_laced(f)) == Ok::<Seq<Seq<u8>>, MkvError>(f),
{
    let body = fixed_laced(f);
    let n = f.len() as int;
    lemma_joined_equal(f, size);
    assert(body[0] + 1 == n);
    vstd::arithmetic::div_mod::lemma_fundamental_div_mod_converse(n * size, n, size as int, 0);
    let out = fixed_frames(body)->Ok_0;
    assert forall|i: int| 0 <= i < n implies body.subrange(1 + i * size, 1 + (i + 1) * size)
        == #[trigger] f[i] by {
        assert(0 <= i * size <= (i + 1) * size <= n * size) by (nonlinear_arith)
            requires
                0 <= i < n,
                0 <= size,
        ;
        assert(body.subrange(1 + i * size, 1 + (i + 1) * size) =~= joined(f).subrange(
            i * size,
            (i + 1) * size,
        ));
    }
    assert(out =~= f);
}

// ---------------------------------------------------------------------------
// EBML lacing.

/// The number `v` in a variable-length integer of `w` bytes, whose marker is the bit above
/// the seven bits of each byte.
pub open spec fn vint_code(v: int, w: nat) -> Seq<u8> {
    be_bytes((v + pow2(7 * w)) as nat, w)
}

/// How the difference `v` between two sizes is stored in `w` bytes: moved up by half of what
/// they can hold, so that it is not negative.
pub open spec fn stored_difference(v: int, w: nat) -> int {
    v + pow2((7 * w - 1) as nat) - 1
}

/// The size of frame `k` less that of the frame in front of it.
pub open spec fn difference(f: Seq<Seq<u8>>, k: int) -> int {
    f[k].len() - f[k - 1].len()
}

/// Whether the sizes of the frames fit the widths `ws`: the size of the first frame the first
/// of them, and each difference its own.
pub open spec fn widths_fit(f: Seq<Seq<u8>>, ws: Seq<nat>) -> bool {
    &&& f.len() >= 2
    &&& ws.len() == f.len() - 1
    &&& forall|k: int| 0 <= k < ws.len() ==> 1 <= #[trigger] ws[k] <= 8
    &&& f[0].len() < pow2(7 * ws[0]) - 1
    &&& forall|k: int|
        1 <= k < ws.len() ==> 0 <= stored_difference(difference(f, k), #[trigger] ws[k]) < pow2(
            7 * ws[k],
        ) - 1
}

/// The size of the first frame, and the differences up to that of frame `n`.
pub open spec fn ebml_codes(f: Seq<Seq<u8>>, ws: Seq<nat>, n: nat) -> Seq<u8>
    decreases n,
{
    if n == 0 {
        vint_code(f[0].len() as int, ws[0])
    } else {
        ebml_codes(f, ws, (n - 1) as nat) + vint_code(
            stored_difference(difference(f, n as int), ws[n as int]),
            ws[n as int],
        )
    }
}

/// Frames with EBML lacing: their number less one, the sizes of all but the last, each but the
/// first as a difference, and the frames. The sizes take the widths `ws`.
pub open spec fn ebml_laced(f: Seq<Seq<u8>>, ws: Seq<nat>) -> Seq<u8> {
    seq![(f.len() - 1) as u8] + ebml_codes(f, ws, (f.len() - 2) as nat) + joined(f)
}

/// What a variable-length integer can hold.
proof fn lemma_vint_powers(w: nat)
    requires
        1 <= w <= 8,
    ensures
        vint_max(w as int) + 1 == pow2(7 * w),
        vint_max(w as int) / 2 == pow2((7 * w - 1) as nat) - 1,
{
    lemma2_to64();
    lemma2_to64_rest();
}

proof fn lemma_vint_code_read(body: Seq<u8>, pos: int, v: int, w: nat)
    requires
        1 <= w <= 8,
        0 <= v < pow2(7 * w) - 1,
        holds(body, pos, vint_code(v, w)),
    ensures
        vint_at(body, pos, false) == Ok::<(u64, int), MkvError>((v as u64, w as int)),
        v < 0x100_0000_0000_0000,
        vint_code(v, w).len() == w,
{
    lemma_vint_powers(w);
    lemma_vint_read(body, pos, (v + pow2(7 * w)) as nat, w);
    lemma_be_bytes_len((v + pow2(7 * w)) as nat, w);
}

proof fn lemma_ebml_sizes_read(body: Seq<u8>, f: Seq<Seq<u8>>, ws: Seq<nat>, n: nat)
    requires
        widths_fit(f, ws),
        n + 2 <= f.len(),
        holds(body, 1, ebml_codes(f, ws, n)),
        forall|i: int| 0 <= i < f.len() ==> (#[trigger] f[i]).len() <= MAX_LEN,
    ensures
        vint_at(body, 1, false) == Ok::<(u64, int), MkvError>(
            (f[0].len() as u64, ws[0] as int),
        ),
        ebml_sizes(body, 1int + ws[0], f[0].len() as int, n) == Ok::<(Seq<int>, int), MkvError>(
            (lens(f.take(n + 1int)), 1int + ebml_codes(f, ws, n).len()),
        ),
    decreases n,
{
    assert(1 <= ws[0] <= 8);
    if n == 0 {
        lemma_vint_code_read(body, 1, f[0].len() as int, ws[0]);
        assert(lens(f.take(1)) =~= seq![f[0].len() as int]);
    } else {
        let m = (n - 1) as nat;
        let w = ws[n as int];
        let v = stored_difference(difference(f, n as int), w);
        assert(1 <= ws[n as int] <= 8);
        lemma_holds_split(body, 1, ebml_codes(f, ws, m), vint_code(v, w));
        lemma_ebml_sizes_read(body, f, ws, m);
        let p = 1 + ebml_codes(f, ws, m).len();
        lemma_vint_code_read(body, p as int, v, w);
        lemma_vint_powers(w);
        let s = lens(f.take(m + 1int));
        assert(s.last() == f[m as int].len());
        assert(f[n as int].len() <= MAX_LEN);
        assert(s.last() + signed_size(v as u64) - vint_max(w as int) / 2 == f[n as int].len());
        assert(lens(f.take(n + 1int)) =~= s.push(f[n as int].len() as int));
    }
}

/// Frames that were laced in the EBML way, with sizes of any widths that hold them, come out,
/// each as it went in.
#[verifier::rlimit(40)]
pub proof fn lemma_ebml_unlaced(f: Seq<Seq<u8>>, ws: Seq<nat>)
    requires
        f.len() <= 256,
        widths_fit(f, ws),
        forall|i: int| 0 <= i < f.len() ==> (#[trigger] f[i]).len() <= MAX_LEN,
    ensures
        ebml_frames(ebml_laced(f, ws)) == Ok::<Seq<Seq<u8>>, MkvError>(f),
{
    let n = (f.len() - 2) as nat;
    let body = ebml_laced(f, ws);
    let c = ebml_codes(f, ws, n);
    assert(body[0] == f.len() - 1);
    assert(body.subrange(1, 1int + c.len()) =~= c);
    lemma_ebml_sizes_read(body, f, ws, n);
    assert(f.take(n + 1int) =~= f.drop_last());
    assert(body.skip(1int + c.len()) =~= joined(f));
    assert(f[0].len() <= MAX_LEN);
    lemma_frames_out(body, 1int + c.len(), f);
}

// ---------------------------------------------------------------------------
// Blocks.

/// How frames are laced: not at all, which is for a single frame, or in one of three ways.
pub enum Lacing {
    Single,
    Xiph,
    Fixed { size: nat },
    Ebml { widths: Seq<nat> },
}

/// Whether frames can be laced in the given way.
pub open spec fn can_lace(f: Seq<Seq<u8>>, how: Lacing) -> bool {
    &&& 1 <= f.len() <= 256
    &&& forall|i: int| 0 <= i < f.len() ==> (#[trigger] f[i]).len() <= MAX_LEN
    &&& match how {
        Lacing::Single => f.len() == 1,
        Lacing::Xiph => true,
        Lacing::Fixed { size } => forall|i: int|
            0 <= i < f.len() ==> (#[trigger] f[i]).len() == size,
        Lacing::Ebml { widths } => widths_fit(f, widths),
    }
}

/// Frames, laced in the given way.
pub open spec fn laced(f: Seq<Seq<u8>>, how: Lacing) -> Seq<u8> {
    match how {
        Lacing::Single => f[0],
        Lacing::Xiph => xiph_laced(f),
        Lacing::Fixed { .. } => fixed_laced(f),
        Lacing::Ebml { widths } => ebml_laced(f, widths),
    }
}

/// The two bits of a Block's flags that tell the lacing.
pub open spec fn lacing_flags(how: Lacing) -> u8 {
    match how {
        Lacing::Single => 0x00,
        Lacing::Xiph => 0x02,
        Lacing::Fixed { .. } => 0x04,
        Lacing::Ebml { .. } => 0x06,
    }
}

/// A Block: the track, the time after the Cluster's, the flags and the frames.
pub open spec fn laced_block(track: u64, offset: i16, f: Seq<Seq<u8>>, how: Lacing) -> Seq<u8> {
    size_bytes(track as nat) + be_bytes(bits16(offset), 2) + seq![lacing_flags(how)] + laced(f, how)
}

proof fn lemma_block_unlaced(f: Seq<Seq<u8>>, how: Lacing)
    requires
        can_lace(f, how),
    ensures
        block_frames(lacing_flags(how), laced(f, how)) == Ok::<
            Seq<Seq<u8>>,
            MkvError,
        >(f),
{
    assert((0x00u8 >> 1) & 3 == 0 && (0x02u8 >> 1) & 3 == 1 && (0x04u8 >> 1) & 3 == 2 && (0x06u8
        >> 1) & 3 == 3) by (bit_vector);
    match how {
        Lacing::Single => {
            assert(seq![f[0]] =~= f);
        },
        Lacing::Xiph => lemma_xiph_unlaced(f),
        Lacing::Fixed { size } => lemma_fixed_unlaced(f, size),
        Lacing::Ebml { widths } => lemma_ebml_unlaced(f, widths),
    }
}

/// A Block gives one packet for each frame that was put into it, in whatever way it was laced:
/// with its data, behind the bytes that were stripped from it, for the stream of the track.
/// Without a duration all of them have the time of the Block. With one, each takes its equal
/// share, cut down to whole ticks, and comes that much after the one in front of it.
#[verifier::rlimit(40)]
pub proof fn lemma_laced_packets(
    l: LayoutView,
    track: u64,
    offset: i16,
    f: Seq<Seq<u8>>,
    how: Lacing,
    timecode: i64,
    keyframe: bool,
    duration: Option<i64>,
)
    requires
        track <= MAX_LEN,
        l.track_index.contains_key(track),
        can_lace(f, how),
        0 <= timecode,
        duration matches Some(t) ==> 0 <= t,
        timecode + offset + (match duration {
            Some(t) => t as int,
            None => 0,
        }) <= i64::MAX,
    ensures
        block_packets(l, laced_block(track, offset, f, how), timecode, keyframe, duration)
            matches Ok(ps) && {
            &&& ps.len() == f.len()
            &&& forall|i: int|
                0 <= i < ps.len() ==> {
                    let p = #[trigger] ps[i];
                    &&& p.stream_index == l.track_index[track]
                    &&& p.time_base == l.time_base
                    &&& p.data == prefix_of(l.prefixes, l.track_index[track]) + f[i]
                    &&& p.keyframe == keyframe
                    &&& p.dts == p.pts
                    &&& match duration {
                        None => p.duration is None && p.pts == Some((timecode + offset) as i64),
                        Some(t) => p.duration matches Some(share) && share * f.len() <= t < (share
                            + 1) * f.len() && p.pts == Some(
                            (timecode + offset + i * share) as i64,
                        ),
                    }
                }
        },
{
    let bytes = laced_block(track, offset, f, how);
    let a = size_bytes(track as nat);
    let b = be_bytes(bits16(offset), 2);
    let w = size_len(track as nat) as int;
    lemma_i16_read(offset);
    assert(holds(bytes, 0, a)) by {
        lemma_be_bytes_len(size_code(track as nat), size_len(track as nat));
        assert(bytes.subrange(0, w) =~= a);
    }
    lemma_size_read(bytes, 0, track as nat);
    assert(bytes[w] == b[0]);
    assert(bytes[w + 1] == b[1]);
    assert(bytes[w + 2] == lacing_flags(how));
    assert(bytes.skip(w + 3) =~= laced(f, how));
    lemma_block_unlaced(f, how);
    let ps = block_packets(l, bytes, timecode, keyframe, duration)->Ok_0;
    let base = timecode + offset;
    assert(wrap_i64(base) == base);
    if let Some(t) = duration {
        let n = f.len() as int;
        let share = t as int / n;
        lemma_shares(t as int, n);
        assert forall|i: int| 0 <= i < ps.len() implies (#[trigger] ps[i]).duration == Some(
            share as i64,
        ) && ps[i].pts == Some((base + i * share) as i64) by {
            lemma_share_sum(t as int, n, i);
            assert(share * i == i * share) by (nonlinear_arith);
            assert(wrap_i64(base + share * i) == base + share * i);
        }
    }
}

proof fn lemma_shares(t: int, n: int)
    requires
        0 <= t,
        0 < n,
    ensures
        t / n * n <= t < (t / n + 1) * n,
        0 <= t / n <= t,
        trunc_div(t, n) == t / n,
{
    vstd::arithmetic::div_mod::lemma_fundamental_div_mod(t, n);
    assert(t / n * n <= t < (t / n + 1) * n) by (nonlinear_arith)
        requires
            t == n * (t / n) + t % n,
            0 <= t % n < n,
    ;
    assert(0 <= t / n <= t) by (nonlinear_arith)
        requires
            0 <= t,
            0 < n,
            t / n * n <= t < (t / n + 1) * n,
    ;
}

proof fn lemma_share_sum(t: int, n: int, i: int)
    requires
        0 <= t,
        0 <= i < n,
    ensures
        0 <= t / n * i <= t,
{
    lemma_shares(t, n);
    let s = t / n;
    assert(0 <= s * i <= s * n) by (nonlinear_arith)
        requires
            0 <= s,
            0 <= i < n,
    ;
}

} // verus!
