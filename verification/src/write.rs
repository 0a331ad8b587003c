//! Writing EBML elements.

use vstd::prelude::*;
use crate::ebml::{be_bytes, crc32, crc32_ieee, lemma_be_bytes_len, vint_max, write_be};
use crate::ids;
use vstd::utf8::encode_utf8;

verus! {

// ---------------------------------------------------------------------------
// Element headers.

/// How many bytes the ID `id` takes.
pub open spec fn id_len(id: u32) -> nat {
    if id < 0x100 {
        1
    } else if id < 0x1_0000 {
        2
    } else if id < 0x100_0000 {
        3
    } else {
        4
    }
}

/// The bytes of an element ID, which holds its own marker.
pub open spec fn id_bytes(id: u32) -> Seq<u8> {
    be_bytes(id as nat, id_len(id))
}

/// How many bytes the size `n` takes: as few as leave a bit unset, and eight for one that
/// is too large or unknown.
pub open spec fn size_len(n: nat) -> nat {
    if n < 0x7F {
        1
    } else if n < 0x3FFF {
        2
    } else if n < 0x1F_FFFF {
        3
    } else if n < 0xFFF_FFFF {
        4
    } else if n < 0x7_FFFF_FFFF {
        5
    } else if n < 0x3FF_FFFF_FFFF {
        6
    } else if n < 0x1_FFFF_FFFF_FFFF {
        7
    } else {
        8
    }
}

/// The number that a size is stored as: its marker and its value, all bits set for one
/// that is too large or unknown.
pub open spec fn size_code(n: nat) -> nat {
    let w = size_len(n);
    let v = if n > 0xFF_FFFF_FFFF_FFFE {
        0xFF_FFFF_FFFF_FFFF
    } else {
        n
    };
    (vint_max(w as int) + 1 + v) as nat
}

/// The bytes of an element size.
pub open spec fn size_bytes(n: nat) -> Seq<u8> {
    be_bytes(size_code(n), size_len(n))
}

/// The bytes of an unknown element size.
pub open spec fn unknown_size_bytes() -> Seq<u8> {
    size_bytes(0xFFFF_FFFF_FFFF_FFFF)
}

/// The bytes of an element's header.
pub open spec fn header_bytes(id: u32, n: nat) -> Seq<u8> {
    id_bytes(id) + size_bytes(n)
}

/// The bytes of an element.
#[verifier::opaque]
pub open spec fn element(id: u32, body: Seq<u8>) -> Seq<u8> {
    header_bytes(id, body.len()) + body
}

/// Appends an element ID.
pub fn write_element_id(out: &mut Vec<u8>, id: u32)
    ensures
        final(out)@ == old(out)@ + id_bytes(id),
{
    let n: u64 = if id < 0x100 {
        1
    } else if id < 0x1_0000 {
        2
    } else if id < 0x100_0000 {
        3
    } else {
        4
    };
    write_be(out, id as u64, n);
}

/// Appends an element size.
pub fn write_vint(out: &mut Vec<u8>, n: u64)
    ensures
        final(out)@ == old(out)@ + size_bytes(n as nat),
{
    if n < 0x7F {
        write_be(out, 0x80 + n, 1);
    } else if n < 0x3FFF {
        write_be(out, 0x4000 + n, 2);
    } else if n < 0x1F_FFFF {
        write_be(out, 0x20_0000 + n, 3);
    } else if n < 0xFFF_FFFF {
        write_be(out, 0x1000_0000 + n, 4);
    } else if n < 0x7_FFFF_FFFF {
        write_be(out, 0x8_0000_0000 + n, 5);
    } else if n < 0x3FF_FFFF_FFFF {
        write_be(out, 0x400_0000_0000 + n, 6);
    } else if n < 0x1_FFFF_FFFF_FFFF {
        write_be(out, 0x2_0000_0000_0000 + n, 7);
    } else if n < 0xFF_FFFF_FFFF_FFFF {
        write_be(out, 0x100_0000_0000_0000 + n, 8);
    } else {
        write_be(out, 0x1FF_FFFF_FFFF_FFFF, 8);
    }
}

// ---------------------------------------------------------------------------
// Elements.

/// How many bytes the unsigned integer `v` takes.
pub open spec fn uint_len(v: u64) -> nat {
    if v < 0x100 {
        1
    } else if v < 0x1_0000 {
        2
    } else if v < 0x100_0000 {
        3
    } else if v < 0x1_0000_0000 {
        4
    } else if v < 0x100_0000_0000 {
        5
    } else if v < 0x1_0000_0000_0000 {
        6
    } else if v < 0x100_0000_0000_0000 {
        7
    } else {
        8
    }
}

/// An unsigned integer element.
#[verifier::opaque]
pub open spec fn uint_element(id: u32, v: u64) -> Seq<u8> {
    element(id, be_bytes(v as nat, uint_len(v)))
}

/// A text element.
#[verifier::opaque]
pub open spec fn string_element(id: u32, s: Seq<char>) -> Seq<u8> {
    element(id, encode_utf8(s))
}

/// An eight-byte float element.
#[verifier::opaque]
pub open spec fn float_element(id: u32, bits: u64) -> Seq<u8> {
    element(id, be_bytes(bits as nat, 8))
}

/// Appends an unsigned integer element.
pub fn write_uint_element(out: &mut Vec<u8>, id: u32, value: u64)
    ensures
        final(out)@ == old(out)@ + uint_element(id, value),
{
    let n: u64 = if value < 0x100 {
        1
    } else if value < 0x1_0000 {
        2
    } else if value < 0x100_0000 {
        3
    } else if value < 0x1_0000_0000 {
        4
    } else if value < 0x100_0000_0000 {
        5
    } else if value < 0x1_0000_0000_0000 {
        6
    } else if value < 0x100_0000_0000_0000 {
        7
    } else {
        8
    };
    proof {
        reveal(uint_element);
        reveal(element);
        lemma_be_bytes_len(value as nat, n as nat);
    }
    write_element_id(out, id);
    write_vint(out, n);
    write_be(out, value, n);
    assert(out@ =~= old(out)@ + uint_element(id, value));
}

/// Appends an element with the given data.
pub fn write_bytes_element(out: &mut Vec<u8>, id: u32, value: &[u8])
    ensures
        final(out)@ == old(out)@ + element(id, value@),
{
    proof {
        reveal(element);
    }
    write_element_id(out, id);
    write_vint(out, value.len() as u64);
    out.extend_from_slice(value);
    assert(out@ =~= old(out)@ + element(id, value@));
}

/// Appends a text element.
pub fn write_string_element(out: &mut Vec<u8>, id: u32, value: &str)
    ensures
        final(out)@ == old(out)@ + string_element(id, value@),
{
    proof {
        reveal(string_element);
    }
    write_bytes_element(out, id, value.as_bytes());
}

/// Appends an eight-byte float element with the given bits.
pub fn write_float_element(out: &mut Vec<u8>, id: u32, bits: u64)
    ensures
        final(out)@ == old(out)@ + float_element(id, bits),
{
    proof {
        reveal(float_element);
        reveal(element);
        lemma_be_bytes_len(bits as nat, 8);
    }
    write_element_id(out, id);
    write_vint(out, 8);
    write_be(out, bits, 8);
    assert(out@ =~= old(out)@ + float_element(id, bits));
}

/// Appends a master element with the given children.
pub fn write_master_element(out: &mut Vec<u8>, id: u32, body: &Vec<u8>)
    ensures
        final(out)@ == old(out)@ + element(id, body@),
{
    write_bytes_element(out, id, body.as_slice());
}

/// The number `v` in four bytes, least significant byte first.
pub open spec fn le_bytes4(v: u32) -> Seq<u8> {
    seq![
        (v % 0x100) as u8,
        (v / 0x100 % 0x100) as u8,
        (v / 0x1_0000 % 0x100) as u8,
        (v / 0x100_0000) as u8,
    ]
}

/// The CRC-32 element for the data `rest` that follows it.
pub open spec fn crc_element(rest: Seq<u8>) -> Seq<u8> {
    element(ids::CRC32, le_bytes4(crc32(rest)))
}

/// A master element that starts with the checksum of its other children.
pub open spec fn crc_master(id: u32, body: Seq<u8>) -> Seq<u8> {
    element(id, crc_element(body) + body)
}

/// Appends a master element that starts with the checksum of the given children.
pub fn write_crc_master_element(out: &mut Vec<u8>, id: u32, body: &Vec<u8>)
    ensures
        final(out)@ == old(out)@ + crc_master(id, body@),
{
    let c: u32 = crc32_ieee(body.as_slice());
    let mut le: Vec<u8> = Vec::new();
    le.push((c % 0x100) as u8);
    le.push((c / 0x100 % 0x100) as u8);
    le.push((c / 0x1_0000 % 0x100) as u8);
    le.push((c / 0x100_0000) as u8);
    assert(le@ =~= le_bytes4(c));
    let mut full: Vec<u8> = Vec::new();
    write_bytes_element(&mut full, ids::CRC32, le.as_slice());
    full.extend_from_slice(body.as_slice());
    assert(full@ =~= crc_element(body@) + body@);
    write_master_element(out, id, &full);
}

// ---------------------------------------------------------------------------
// Whole numbers as floats.

/// 2 to the power 52.
pub const TWO_52: u64 = 0x10_0000_0000_0000;

/// The bits of the float with the value of `x` divided by 2 to the power `52 - k`, where
/// `x` has at most 53 bits.
pub open spec fn scaled_bits(x: nat, k: nat) -> u64
    decreases k,
{
    if x >= TWO_52 || k == 0 {
        ((1023 + k) * TWO_52 + (x - TWO_52)) as u64
    } else {
        scaled_bits(2 * x, (k - 1) as nat)
    }
}

/// The bits of the eight-byte float with the value `v`.
pub open spec fn f64_bits(v: u32) -> u64 {
    if v == 0 {
        0
    } else {
        scaled_bits(v as nat, 52)
    }
}

/// The bits of the eight-byte float with the value `v`.
pub fn float_bits(v: u32) -> (r: u64)
    ensures
        r == f64_bits(v),
{
    if v == 0 {
        return 0;
    }
    let mut x: u64 = v as u64;
    let mut k: u64 = 52;
    while x < TWO_52 && k > 0
        invariant
            0 < x < 2 * TWO_52,
            k <= 52,
            scaled_bits(v as nat, 52) == scaled_bits(x as nat, k as nat),
            x * two_to(k as nat) == v * two_to(52),
            v > 0,
        decreases k,
    {
        assert((2 * x) * two_to((k - 1) as nat) == x * two_to(k as nat)) by (nonlinear_arith)
            requires
                two_to(k as nat) == 2 * two_to((k - 1) as nat),
        ;
        x = 2 * x;
        k = k - 1;
    }
    proof {
        if x < TWO_52 {
            assert(two_to(0) == 1);
            lemma_two_to_52();
            assert(x == v * TWO_52) by (nonlinear_arith)
                requires
                    x * two_to(0) == v * two_to(52),
                    two_to(0) == 1,
                    two_to(52) == TWO_52,
            ;
            assert(v * TWO_52 >= TWO_52) by (nonlinear_arith)
                requires
                    v >= 1,
            ;
            assert(false);
        }
    }
    (1023 + k) * TWO_52 + (x - TWO_52)
}

/// 2 to the power `n`.
pub open spec fn two_to(n: nat) -> nat
    decreases n,
{
    if n == 0 {
        1
    } else {
        2 * two_to((n - 1) as nat)
    }
}

pub proof fn lemma_two_to_52()
    ensures
        two_to(52) == TWO_52,
{
    reveal_with_fuel(two_to, 53);
}

/// The float with the bits that a whole number is given has the value of that number:
/// with the mantissa and the exponent that the bits hold.
pub proof fn lemma_float_value(v: u32)
    requires
        v > 0,
    ensures
        ({
            let bits = f64_bits(v);
            let mantissa = TWO_52 + bits % TWO_52;
            let exponent = bits / TWO_52;
            &&& 1023 <= exponent <= 1075
            &&& mantissa == v * two_to((1075 - exponent) as nat)
        }),
{
    assert(two_to(0) == 1);
    assert(v == v * two_to(0));
    lemma_scaled_value(v as nat, 52, v as nat);
}

proof fn lemma_scaled_value(x: nat, k: nat, v: nat)
    requires
        0 < x < 2 * TWO_52,
        k <= 52,
        x == v * two_to((52 - k) as nat),
        v > 0,
    ensures
        ({
            let bits = scaled_bits(x, k);
            let mantissa = TWO_52 + bits % TWO_52;
            let exponent = bits / TWO_52;
            &&& 1023 <= exponent <= 1075
            &&& mantissa == v * two_to((1075 - exponent) as nat)
        }),
    decreases k,
{
    if x >= TWO_52 {
        let bits = scaled_bits(x, k);
        assert(bits == (1023 + k) * TWO_52 + (x - TWO_52));
        assert(bits / TWO_52 == 1023 + k);
        assert(bits % TWO_52 == x - TWO_52);
    } else if k == 0 {
        lemma_two_to_52();
        assert(v * TWO_52 >= TWO_52) by (nonlinear_arith)
            requires
                v >= 1,
        ;
    } else {
        assert(two_to((52 - (k - 1)) as nat) == 2 * two_to((52 - k) as nat));
        assert(2 * x == v * (2 * two_to((52 - k) as nat))) by (nonlinear_arith)
            requires
                x == v * two_to((52 - k) as nat),
        ;
        lemma_scaled_value(2 * x, (k - 1) as nat, v);
    }
}

} // verus!
