//! Packets: their times, their durations and the blocks that hold them.

use vstd::prelude::*;
use crate::arith::{lemma_wrap_low, magnitude, magnitude_of, to_i64, trunc_div, wrap_i64};
use crate::ebml::{be_bytes, write_be};
use crate::ids;
use crate::stream::TimeBase;
use crate::text::text_is;
use crate::write::{element, size_bytes, write_bytes_element, write_vint};

verus! {

// ---------------------------------------------------------------------------
// Times.

/// The time `value` in milliseconds, cut towards zero and wrapped around into 64 bits;
/// the value itself where a tick has no length.
pub open spec fn ms_of(value: i64, tb: TimeBase) -> i64 {
    if tb.den == 0 {
        value
    } else {
        wrap_i64(trunc_div(value * tb.num * 1000, tb.den as int)) as i64
    }
}

proof fn lemma_ms_quotient(a: int, d: int, q: int, r: int)
    requires
        0 <= a,
        0 < d,
        q == a / d,
        r == a % d,
    ensures
        (a * 1000) / d == q * 1000 + (r * 1000) / d,
        0 <= r < d,
        0 <= q,
{
    vstd::arithmetic::div_mod::lemma_fundamental_div_mod(a, d);
    let k = (r * 1000) / d;
    let m = (r * 1000) % d;
    assert(0 <= r < d && 0 <= q) by (nonlinear_arith)
        requires
            0 <= a,
            0 < d,
            q == a / d,
            r == a % d,
    ;
    vstd::arithmetic::div_mod::lemma_fundamental_div_mod(r * 1000, d);
    assert(a * 1000 == d * (q * 1000 + k) + m) by (nonlinear_arith)
        requires
            a == d * q + r,
            r * 1000 == d * k + m,
    ;
    vstd::arithmetic::div_mod::lemma_fundamental_div_mod_converse(a * 1000, d, q * 1000 + k, m);
}

/// The time `value` in milliseconds.
#[verifier::spinoff_prover]
#[verifier::rlimit(60)]
pub fn pts_to_ms(value: i64, tb: TimeBase) -> (r: i64)
    ensures
        r == ms_of(value, tb),
{
    if tb.den == 0 {
        return value;
    }
    let v: u128 = magnitude_of(value) as u128;
    let n: u128 = magnitude_of(tb.num) as u128;
    let d: u128 = magnitude_of(tb.den) as u128;
    assert(v * n <= 0x8000_0000_0000_0000 * 0x8000_0000_0000_0000) by (nonlinear_arith)
        requires
            v <= 0x8000_0000_0000_0000,
            n <= 0x8000_0000_0000_0000,
    ;
    let q: u128 = (v * n) / d;
    let rest: u128 = (v * n) % d;
    proof {
        lemma_ms_quotient(v * n, d as int, q as int, rest as int);
    }
    let part: u128 = (rest * 1000) / d;
    assert(part < 1000) by (nonlinear_arith)
        requires
            part == (rest * 1000) / (d as int),
            0 <= rest < d,
    ;
    let sum: u128 = (q % 0x1_0000_0000_0000_0000) * 1000 + part;
    let low: u64 = (sum % 0x1_0000_0000_0000_0000) as u64;
    let negative: bool = value != 0 && tb.num != 0 && ((value < 0) != (tb.num < 0));
    proof {
        let total = q * 1000 + part;
        assert(total % 0x1_0000_0000_0000_0000 == low);
        lemma_wrap_low(total, low as int);
        let product = value * tb.num * 1000;
        assert(magnitude(product) == (v * n) * 1000) by (nonlinear_arith)
            requires
                product == value * tb.num * 1000,
                v == magnitude(value as int),
                n == magnitude(tb.num as int),
        ;
        assert((product < 0) == negative) by (nonlinear_arith)
            requires
                product == value * tb.num * 1000,
                negative == (value != 0 && tb.num != 0 && ((value < 0) != (tb.num < 0))),
        ;
        assert(magnitude(product) / magnitude(tb.den as int) == total);
    }
    if negative == (tb.den < 0) {
        to_i64(low)
    } else if low == 0 {
        0
    } else {
        to_i64((0xFFFF_FFFF_FFFF_FFFF - low) + 1)
    }
}

// ---------------------------------------------------------------------------
// Opus.

/// The length of one Opus frame in samples at 48 kHz, by the configuration number in the
/// top five bits of the first byte.
pub open spec fn opus_frame_samples(config: int) -> u32 {
    if config < 12 {
        if config % 4 == 0 {
            480
        } else if config % 4 == 1 {
            960
        } else if config % 4 == 2 {
            1920
        } else {
            2880
        }
    } else if config < 16 {
        if config % 2 == 0 {
            480
        } else {
            960
        }
    } else {
        if config % 4 == 0 {
            120
        } else if config % 4 == 1 {
            240
        } else if config % 4 == 2 {
            480
        } else {
            960
        }
    }
}

/// How many frames an Opus packet holds: one, two, or as many as the low six bits of the
/// second byte say.
pub open spec fn opus_frame_count(packet: Seq<u8>) -> Option<int> {
    let code = packet[0] % 4;
    if code == 0 {
        Some(1)
    } else if code < 3 {
        Some(2)
    } else if packet.len() < 2 {
        None
    } else {
        Some((packet[1] % 64) as int)
    }
}

/// The duration of an Opus packet in samples at 48 kHz.
pub open spec fn opus_duration(packet: Seq<u8>) -> Option<u32> {
    if packet.len() == 0 {
        None
    } else {
        match opus_frame_count(packet) {
            Some(n) => Some((opus_frame_samples((packet[0] / 8) as int) * n) as u32),
            None => None,
        }
    }
}

/// The duration of an Opus packet in samples at 48 kHz, where it is one.
pub fn opus_packet_duration_samples(packet: &[u8]) -> (r: Option<u32>)
    ensures
        r == opus_duration(packet@),
{
    if packet.len() == 0 {
        return None;
    }
    let toc: u8 = packet[0];
    let config: u8 = toc / 8;
    let frame: u32 = match config {
        0 | 4 | 8 => 480,
        1 | 5 | 9 => 960,
        2 | 6 | 10 => 1920,
        3 | 7 | 11 => 2880,
        12 | 14 => 480,
        13 | 15 => 960,
        16 | 20 | 24 | 28 => 120,
        17 | 21 | 25 | 29 => 240,
        18 | 22 | 26 | 30 => 480,
        _ => 960,
    };
    let code: u8 = toc % 4;
    let n: u32 = if code == 0 {
        1
    } else if code < 3 {
        2
    } else {
        if packet.len() < 2 {
            return None;
        }
        (packet[1] % 64) as u32
    };
    assert(frame * n <= 2880 * 63) by (nonlinear_arith)
        requires
            frame <= 2880,
            n <= 63,
    ;
    Some(frame * n)
}

/// The eight bytes `OpusHead`.
pub open spec fn opus_magic() -> Seq<u8> {
    seq![0x4F, 0x70, 0x75, 0x73, 0x48, 0x65, 0x61, 0x64]
}

/// The number of samples that a decoder drops at the start, as the setup bytes say it.
pub open spec fn opus_pre_skip(extradata: Seq<u8>) -> u16 {
    if extradata.len() < 12 || extradata.take(8) != opus_magic() {
        0
    } else {
        (extradata[10] + extradata[11] * 256) as u16
    }
}

/// The number of samples that a decoder drops at the start; none if the setup bytes are
/// of another kind.
pub fn parse_opus_pre_skip(extradata: &[u8]) -> (r: u16)
    ensures
        r == opus_pre_skip(extradata@),
{
    if extradata.len() < 12 {
        return 0;
    }
    let is_head: bool = extradata[0] == 0x4F && extradata[1] == 0x70 && extradata[2] == 0x75
        && extradata[3] == 0x73 && extradata[4] == 0x48 && extradata[5] == 0x65 && extradata[6]
        == 0x61 && extradata[7] == 0x64;
    proof {
        if is_head {
            assert(extradata@.take(8) =~= opus_magic());
        } else {
            let t = extradata@.take(8);
            let m = opus_magic();
            assert(t[0] != m[0] || t[1] != m[1] || t[2] != m[2] || t[3] != m[3] || t[4] != m[4]
                || t[5] != m[5] || t[6] != m[6] || t[7] != m[7]);
        }
    }
    if !is_head {
        return 0;
    }
    extradata[10] as u16 + extradata[11] as u16 * 256
}

// ---------------------------------------------------------------------------
// Setup bytes.

/// The four bytes `fLaC`.
pub open spec fn flac_magic() -> Seq<u8> {
    seq![0x66, 0x4C, 0x61, 0x43]
}

/// The setup bytes of a codec as Matroska stores them: those of FLAC start with a marker.
pub open spec fn stored_private(codec_id: Seq<char>, extradata: Seq<u8>) -> Seq<u8> {
    if codec_id == "flac"@ {
        flac_magic() + extradata
    } else {
        extradata
    }
}

/// The setup bytes of a codec as Matroska stores them.
pub fn encode_codec_private(codec_id: &String, extradata: &Vec<u8>) -> (r: Vec<u8>)
    ensures
        r@ == stored_private(codec_id@, extradata@),
{
    let mut out: Vec<u8> = Vec::new();
    if text_is(codec_id, "flac") {
        out.push(0x66);
        out.push(0x4C);
        out.push(0x61);
        out.push(0x43);
        assert(out@ =~= flac_magic());
    }
    let ghost head = out@;
    out.extend_from_slice(extradata.as_slice());
    assert(out@ =~= head + extradata@);
    assert(Seq::<u8>::empty() + extradata@ =~= extradata@);
    out
}

// ---------------------------------------------------------------------------
// Blocks.

/// The bits of a signed 16-bit number, as an unsigned one.
pub open spec fn bits16(v: i16) -> nat {
    if v < 0 {
        (v + 0x1_0000) as nat
    } else {
        v as nat
    }
}

/// The data of a SimpleBlock: the track, the time after the Cluster's, the flags and
/// the packet.
pub open spec fn simple_block_body(track: u64, offset: i16, keyframe: bool, data: Seq<u8>) -> Seq<
    u8,
> {
    size_bytes(track as nat) + be_bytes(bits16(offset), 2) + seq![
        if keyframe {
            0x80u8
        } else {
            0u8
        },
    ] + data
}

/// A SimpleBlock.
pub open spec fn simple_block(track: u64, offset: i16, keyframe: bool, data: Seq<u8>) -> Seq<u8> {
    element(ids::SIMPLE_BLOCK, simple_block_body(track, offset, keyframe, data))
}

/// Builds a SimpleBlock.
pub fn build_simple_block(track: u64, offset: i16, keyframe: bool, data: &Vec<u8>) -> (r: Vec<u8>)
    ensures
        r@ == simple_block(track, offset, keyframe, data@),
{
    let mut body: Vec<u8> = Vec::new();
    write_vint(&mut body, track);
    let bits: u64 = if offset < 0 {
        (offset as i32 + 0x1_0000) as u64
    } else {
        offset as u64
    };
    write_be(&mut body, bits, 2);
    body.push(
        if keyframe {
            0x80
        } else {
            0
        },
    );
    body.extend_from_slice(data.as_slice());
    assert(body@ =~= simple_block_body(track, offset, keyframe, data@));
    let mut out: Vec<u8> = Vec::new();
    write_bytes_element(&mut out, ids::SIMPLE_BLOCK, body.as_slice());
    assert(out@ =~= simple_block(track, offset, keyframe, data@));
    out
}

} // verus!
