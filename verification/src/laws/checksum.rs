//! What a checksum is for.

use vstd::prelude::*;
use crate::demux::crc::{crc_header_len, crc_of, CrcStatus};
use crate::ebml::{be_bytes, crc32, crc32_bit, crc32_bits, crc32_register};
use crate::ids;
use crate::round_trip::elements::{lemma_le_read, lemma_vint_read};
use crate::write::{element, header_bytes, le_bytes4};

verus! {

/// One more bit in the register of the CRC-32 whose polynomial has these bits.
pub open spec fn shifted(c: u32) -> u32 {
    if c & 1 == 1 {
        (c >> 1) ^ 0xEDB8_8320u32
    } else {
        c >> 1
    }
}

proof fn lemma_eight_bits(c: u32) -> (r: Seq<u32>)
    ensures
        r.len() == 9,
        r[0] == c,
        r[8] == crc32_bits(c, 8),
        forall|i: int| 0 <= i < 8 ==> r[i + 1] == shifted(#[trigger] r[i]),
{
    let r = Seq::new(9, |i: int| crc32_bits(c, i as nat));
    reveal_with_fuel(crc32_bits, 2);
    assert forall|i: int| 0 <= i < 8 implies r[i + 1] == shifted(#[trigger] r[i]) by {
        assert(r[i + 1] == crc32_bit(crc32_bits(c, i as nat)));
    }
    r
}

proof fn lemma_first_byte(c: u32)
    requires
        c & 0xFF == 0xFF,
    ensures
        crc32_bits(c, 8) == (c >> 8) ^ 0x2D02_EF8D,
{
    let r = lemma_eight_bits(c);
    let c0 = r[0];
    let c1 = r[1];
    let c2 = r[2];
    let c3 = r[3];
    let c4 = r[4];
    let c5 = r[5];
    let c6 = r[6];
    let c7 = r[7];
    let c8 = r[8];
    assert(c8 == (c0 >> 8) ^ 0x2D02_EF8Du32) by (bit_vector)
        requires
            c0 & 0xFF == 0xFF,
            c1 == shifted(c0),
            c2 == shifted(c1),
            c3 == shifted(c2),
            c4 == shifted(c3),
            c5 == shifted(c4),
            c6 == shifted(c5),
            c7 == shifted(c6),
            c8 == shifted(c7),
    ;
}

proof fn lemma_second_byte(c: u32)
    requires
        c & 0xFF == 0x72,
    ensures
        crc32_bits(c, 8) == (c >> 8) ^ 0xBE0B_1010,
{
    let r = lemma_eight_bits(c);
    let c0 = r[0];
    let c1 = r[1];
    let c2 = r[2];
    let c3 = r[3];
    let c4 = r[4];
    let c5 = r[5];
    let c6 = r[6];
    let c7 = r[7];
    let c8 = r[8];
    assert(c8 == (c0 >> 8) ^ 0xBE0B_1010u32) by (bit_vector)
        requires
            c0 & 0xFF == 0x72,
            c1 == shifted(c0),
            c2 == shifted(c1),
            c3 == shifted(c2),
            c4 == shifted(c3),
            c5 == shifted(c4),
            c6 == shifted(c5),
            c7 == shifted(c6),
            c8 == shifted(c7),
    ;
}

proof fn lemma_third_byte(c: u32)
    requires
        c & 0xFF == 0x0,
    ensures
        crc32_bits(c, 8) == (c >> 8) ^ 0x0000_0000,
{
    let r = lemma_eight_bits(c);
    let c0 = r[0];
    let c1 = r[1];
    let c2 = r[2];
    let c3 = r[3];
    let c4 = r[4];
    let c5 = r[5];
    let c6 = r[6];
    let c7 = r[7];
    let c8 = r[8];
    assert(c8 == (c0 >> 8) ^ 0x0000_0000u32) by (bit_vector)
        requires
            c0 & 0xFF == 0x0,
            c1 == shifted(c0),
            c2 == shifted(c1),
            c3 == shifted(c2),
            c4 == shifted(c3),
            c5 == shifted(c4),
            c6 == shifted(c5),
            c7 == shifted(c6),
            c8 == shifted(c7),
    ;
}

proof fn lemma_fourth_byte(c: u32)
    requires
        c & 0xFF == 0xED,
    ensures
        crc32_bits(c, 8) == (c >> 8) ^ 0xDEBB_9EC5,
{
    let r = lemma_eight_bits(c);
    let c0 = r[0];
    let c1 = r[1];
    let c2 = r[2];
    let c3 = r[3];
    let c4 = r[4];
    let c5 = r[5];
    let c6 = r[6];
    let c7 = r[7];
    let c8 = r[8];
    assert(c8 == (c0 >> 8) ^ 0xDEBB_9EC5u32) by (bit_vector)
        requires
            c0 & 0xFF == 0xED,
            c1 == shifted(c0),
            c2 == shifted(c1),
            c3 == shifted(c2),
            c4 == shifted(c3),
            c5 == shifted(c4),
            c6 == shifted(c5),
            c7 == shifted(c6),
            c8 == shifted(c7),
    ;
}

/// Bytes with their checksum behind them leave the register in the same state, whatever they
/// are: the one that tells a reader that nothing was damaged.
pub proof fn lemma_checksum_fits(s: Seq<u8>)
    ensures
        crc32_register(s + le_bytes4(crc32(s))) == 0xDEBB_20E3,
{
    let r = crc32_register(s);
    let v = crc32(s);
    let e = le_bytes4(v);
    let s4 = s + e;
    let s3 = s + seq![e[0], e[1], e[2]];
    let s2 = s + seq![e[0], e[1]];
    let s1 = s + seq![e[0]];
    assert(s4.drop_last() =~= s3 && s4.last() == e[3]);
    assert(s3.drop_last() =~= s2 && s3.last() == e[2]);
    assert(s2.drop_last() =~= s1 && s2.last() == e[1]);
    assert(s1.drop_last() =~= s && s1.last() == e[0]);
    let a0 = v % 0x100;
    let a1 = v / 0x100 % 0x100;
    let a2 = v / 0x1_0000 % 0x100;
    let a3 = v / 0x100_0000;
    assert(a0 < 0x100 && a1 < 0x100 && a2 < 0x100 && a3 < 0x100);
    let c1 = ((r ^ a0) >> 8) ^ 0x2D02_EF8D;
    let c2 = ((c1 ^ a1) >> 8) ^ 0xBE0B_1010;
    let c3 = ((c2 ^ a2) >> 8) ^ 0x0000_0000;
    let c4 = ((c3 ^ a3) >> 8) ^ 0xDEBB_9EC5;
    assert((r ^ a0) & 0xFF == 0xFF && (c1 ^ a1) & 0xFF == 0x72 && (c2 ^ a2) & 0xFF == 0 && (c3
        ^ a3) & 0xFF == 0xED && c4 == 0xDEBB_20E3u32) by (bit_vector)
        requires
            v == !r,
            a0 == v % 0x100,
            a1 == v / 0x100 % 0x100,
            a2 == v / 0x1_0000 % 0x100,
            a3 == v / 0x100_0000,
            c1 == ((r ^ a0) >> 8) ^ 0x2D02_EF8D,
            c2 == ((c1 ^ a1) >> 8) ^ 0xBE0B_1010,
            c3 == ((c2 ^ a2) >> 8) ^ 0x0000_0000,
            c4 == ((c3 ^ a3) >> 8) ^ 0xDEBB_9EC5,
    ;
    lemma_first_byte(r ^ a0);
    lemma_second_byte(c1 ^ a1);
    lemma_third_byte(c2 ^ a2);
    lemma_fourth_byte(c3 ^ a3);
    assert(crc32_register(s1) == c1);
    assert(crc32_register(s2) == c2);
    assert(crc32_register(s3) == c3);
    assert(crc32_register(s4) == c4);
}

proof fn lemma_bits_apart(a: u32, b: u32, n: nat)
    requires
        a != b,
    ensures
        crc32_bits(a, n) != crc32_bits(b, n),
    decreases n,
{
    if n > 0 {
        lemma_bits_apart(a, b, (n - 1) as nat);
        let x = crc32_bits(a, (n - 1) as nat);
        let y = crc32_bits(b, (n - 1) as nat);
        assert(crc32_bit(x) == shifted(x) && crc32_bit(y) == shifted(y));
        assert(x != y ==> shifted(x) != shifted(y)) by (bit_vector);
    }
}

proof fn lemma_register_apart(s: Seq<u8>, i: int, x: u8)
    requires
        0 <= i < s.len(),
        x != s[i],
    ensures
        crc32_register(s.update(i, x)) != crc32_register(s),
    decreases s.len(),
{
    let t = s.update(i, x);
    let r = crc32_register(s.drop_last());
    let a = s.last();
    if i == s.len() - 1 {
        assert(t.drop_last() =~= s.drop_last());
        assert(a != x ==> r ^ (a as u32) != r ^ (x as u32)) by (bit_vector);
        lemma_bits_apart(r ^ (a as u32), r ^ (x as u32), 8);
    } else {
        lemma_register_apart(s.drop_last(), i, x);
        assert(t.drop_last() =~= s.drop_last().update(i, x));
        let q = crc32_register(t.drop_last());
        assert(q != r ==> q ^ (a as u32) != r ^ (a as u32)) by (bit_vector);
        lemma_bits_apart(q ^ (a as u32), r ^ (a as u32), 8);
    }
}

/// A change of any single byte changes the checksum.
pub proof fn lemma_damage_shows(s: Seq<u8>, i: int, x: u8)
    requires
        0 <= i < s.len(),
        x != s[i],
    ensures
        crc32(s.update(i, x)) != crc32(s),
{
    lemma_register_apart(s, i, x);
    let a = crc32_register(s);
    let b = crc32_register(s.update(i, x));
    assert(a != b ==> !a != !b) by (bit_vector);
}

/// An element that starts with a checksum is noted with that checksum and with the one of all
/// that follows it.
#[verifier::rlimit(40)]
pub proof fn lemma_checksum_noted(id: u32, v: u32, rest: Seq<u8>)
    ensures
        crc_of(id, element(ids::CRC32, le_bytes4(v)) + rest) == Some(
            CrcStatus { element_id: id, stored: v, computed: crc32(rest) },
        ),
{
    let e = element(ids::CRC32, le_bytes4(v));
    let body = e + rest;
    lemma_crc_bytes(v);
    let four = le_bytes4(v);
    assert(four.len() == 4);
    assert(body =~= seq![0xBFu8, 0x84] + four + rest);
    assert(crc_header_len(body) == Some(2int)) by {
        assert(body.subrange(0, 1) =~= seq![0xBFu8]);
        assert(body.subrange(1, 2) =~= seq![0x84u8]);
        lemma_vint_read(body, 0, 0xBF, 1);
        lemma_vint_read(body, 1, 0x84, 1);
    }
    assert(body.subrange(2, 6) =~= four);
    assert(body.skip(6) =~= rest);
    lemma_le_read(v);
}

proof fn lemma_crc_bytes(v: u32)
    ensures
        element(ids::CRC32, le_bytes4(v)) == seq![0xBFu8, 0x84] + le_bytes4(v),
        be_bytes(0xBF, 1) == seq![0xBFu8],
        be_bytes(0x84, 1) == seq![0x84u8],
{
    reveal(element);
    reveal_with_fuel(be_bytes, 2);
    assert(be_bytes(0xBF, 1) =~= seq![0xBFu8]);
    assert(be_bytes(0x84, 1) =~= seq![0x84u8]);
    assert(header_bytes(ids::CRC32, 4) =~= seq![0xBFu8, 0x84]);
}

} // verus!
