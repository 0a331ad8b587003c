//! What times and durations stand for.

use vstd::prelude::*;
use crate::arith::{magnitude, trunc_div, wrap_i64};
use crate::mux::muxer::{packet_written, MuxerView};
use crate::mux::packets::{ms_of, opus_duration, opus_frame_count, opus_frame_samples};
use crate::stream::{PacketView, TimeBase};

verus! {

/// A time is turned into the last whole millisecond that is not after it, and a time before
/// zero into that of the time just as long after zero, before zero.
pub proof fn lemma_ms_counts(value: i64, tb: TimeBase)
    requires
        value >= 0,
        tb.num >= 0,
        tb.den > 0,
        value * tb.num * 1000 < 0x8000_0000_0000_0000 * tb.den,
    ensures
        0 <= ms_of(value, tb),
        ms_of(value, tb) * tb.den <= value * tb.num * 1000 < (ms_of(value, tb) + 1) * tb.den,
        ms_of((-value) as i64, tb) == -ms_of(value, tb),
{
    let a = value * tb.num * 1000;
    let d = tb.den as int;
    let q = a / d;
    assert(a >= 0) by (nonlinear_arith)
        requires
            a == value * tb.num * 1000,
            value >= 0,
            tb.num >= 0,
    ;
    assert((-value) * tb.num * 1000 == -a) by (nonlinear_arith)
        requires
            a == value * tb.num * 1000,
    ;
    assert(0 <= q && q * d <= a < (q + 1) * d) by (nonlinear_arith)
        requires
            q == a / d,
            a >= 0,
            d > 0,
    ;
    assert(q < 0x8000_0000_0000_0000) by (nonlinear_arith)
        requires
            q * d <= a,
            a < 0x8000_0000_0000_0000 * d,
            d > 0,
    ;
    assert(trunc_div(a, d) == q);
    assert(magnitude(-a) == magnitude(a));
    assert(a > 0 ==> trunc_div(-a, d) == -q);
    if a == 0 {
        assert(q == 0) by (nonlinear_arith)
            requires
                q == a / d,
                a == 0,
                d > 0,
        ;
    }
    assert(wrap_i64(q) == q);
    assert(wrap_i64(-q) == -q);
}

/// Times in milliseconds stay as they are, and so does a time whose ticks have no length.
pub proof fn lemma_ms_same(value: i64, den: i64)
    ensures
        ms_of(value, (TimeBase { num: 1, den: 1000 })) == value,
        ms_of(value, (TimeBase { num: den, den: 0 })) == value,
{
    let a = value * 1 * 1000;
    assert(magnitude(a) / 1000 == magnitude(value as int));
    assert(trunc_div(a, 1000) == value);
    assert(wrap_i64(value as int) == value);
}

/// The length of an Opus frame in tenths of a millisecond, by its configuration: 10, 20, 40
/// or 60 ms of speech, 10 or 20 ms of both, and 2.5, 5, 10 or 20 ms of music.
pub open spec fn opus_tenths(config: int) -> int {
    let speech = seq![100int, 200, 400, 600];
    let both = seq![100int, 200];
    let music = seq![25int, 50, 100, 200];
    if config < 12 {
        speech[config % 4]
    } else if config < 16 {
        both[config % 2]
    } else {
        music[config % 4]
    }
}

/// An Opus packet lasts as long as its frames together, counted in samples of which there are
/// 48 to the millisecond. It has one frame, two of them, or as many as its second byte says.
pub proof fn lemma_opus_lasts(
    config: int,
    stereo: int,
    code: int,
    flags: int,
    count: int,
    body: Seq<u8>,
)
    requires
        0 <= config < 32,
        0 <= stereo < 2,
        0 <= code < 4,
        0 <= flags < 4,
        0 <= count < 64,
    ensures
        ({
            let first = (config * 8 + stereo * 4 + code) as u8;
            let second = (flags * 64 + count) as u8;
            let frames = if code == 0 {
                1
            } else if code == 3 {
                count
            } else {
                2
            };
            &&& opus_duration(Seq::empty()) is None
            &&& code == 3 ==> opus_duration(seq![first]) is None
            &&& code != 3 ==> opus_duration(seq![first]) is Some
            &&& opus_duration(seq![first, second] + body) is Some
            &&& opus_duration(seq![first, second] + body)->0 * 10 == 48 * opus_tenths(config)
                * frames
        }),
{
    let first = (config * 8 + stereo * 4 + code) as u8;
    let second = (flags * 64 + count) as u8;
    let p = seq![first, second] + body;
    assert(p[0] == first && p[1] == second);
    assert(first / 8 == config && first % 4 == code && second % 64 == count);
    let frame = opus_frame_samples(config);
    assert(frame * 10 == 48 * opus_tenths(config));
    let n = opus_frame_count(p)->0;
    assert(0 <= frame * n <= 2880 * 63) by (nonlinear_arith)
        requires
            0 <= frame <= 2880,
            0 <= n <= 63,
    ;
    assert(frame * n * 10 == 48 * opus_tenths(config) * n) by (nonlinear_arith)
        requires
            frame * 10 == 48 * opus_tenths(config),
    ;
}

/// A packet without a time of its own is written as if it came when the packet before it in
/// its stream ends.
pub proof fn lemma_untimed_follows(
    m: MuxerView,
    p: PacketView,
    pos: u64,
    q: PacketView,
    next: u64,
    lasts: int,
)
    requires
        m.wf(),
        m.header_written,
        p.stream_index < m.streams.len(),
        q.stream_index == p.stream_index,
        p.pts is Some,
        i64::MIN <= p.pts->0 + lasts <= i64::MAX,
        m.streams[p.stream_index as int].codec_id != "opus"@ && p.duration is Some ==> lasts
            == p.duration->0,
        m.streams[p.stream_index as int].codec_id != "opus"@ && p.duration is None ==> lasts == 0,
        m.streams[p.stream_index as int].codec_id == "opus"@ && opus_duration(p.data) is Some
            ==> lasts == opus_duration(p.data)->0,
        m.streams[p.stream_index as int].codec_id == "opus"@ && opus_duration(p.data) is None
            ==> lasts == 0,
    ensures
        ({
            let after = packet_written(m, p, pos).muxer;
            let timed = PacketView { pts: Some((p.pts->0 + lasts) as i64), ..q };
            packet_written(after, PacketView { pts: None, ..q }, next).bytes == packet_written(
                after,
                timed,
                next,
            ).bytes
        }),
{
    let t = p.pts->0 + lasts;
    assert(wrap_i64(t) == t);
}

} // verus!
