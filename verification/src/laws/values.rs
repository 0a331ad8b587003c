//! What the data of single elements stand for.

use vstd::prelude::*;
use vstd::arithmetic::power2::{lemma2_to64, lemma2_to64_rest, pow2};
use vstd::utf8::encode_utf8;
use crate::ebml::{
    be_bytes, be_value, bytes_at, float_at, lemma_be_round_trip, lemma_be_value_bound,
    lemma_before_nul, lemma_pow256_monotonic, lemma_pow256_values, pow256, string_at, uint_at,
    Float,
};
use crate::error::MkvError;
use crate::round_trip::elements::{holds, lemma_encode_no_nul, lemma_text_read, no_nul, MAX_LEN};
use crate::write::{size_len, uint_len};

verus! {

/// A number is read from however many bytes it is stored in, up to eight, the most significant
/// of them first. No bytes are a zero, and more than eight are refused.
pub proof fn lemma_number_value(d: Seq<u8>, pos: int, bytes: Seq<u8>, more: u64)
    requires
        holds(d, pos, bytes),
        bytes.len() <= 8,
        more > 8,
    ensures
        uint_at(d, pos, bytes.len() as u64) is Ok,
        bytes.len() == 0 ==> uint_at(d, pos, 0)->Ok_0 == 0,
        forall|i: int|
            0 <= i < bytes.len() ==> (#[trigger] bytes[i]) as int == uint_at(
                d,
                pos,
                bytes.len() as u64,
            )->Ok_0 as int / pow256((bytes.len() - 1 - i) as nat) as int % 256,
        uint_at(d, pos, more) is Err,
{
    assert(d.subrange(pos, pos + bytes.len()) == bytes);
    if bytes.len() == 0 {
        assert(bytes =~= Seq::<u8>::empty());
    }
    lemma_digits(bytes);
}

proof fn lemma_digits(bytes: Seq<u8>)
    requires
        bytes.len() <= 8,
    ensures
        be_value(bytes) <= u64::MAX,
        forall|i: int|
            0 <= i < bytes.len() ==> (#[trigger] bytes[i]) as int == be_value(bytes) as int
                / pow256((bytes.len() - 1 - i) as nat) as int % 256,
    decreases bytes.len(),
{
    lemma_be_value_bound(bytes);
    lemma_pow256_values();
    lemma_pow256_monotonic(bytes.len(), 8);
    if bytes.len() > 0 {
        let head = bytes.drop_last();
        let v = be_value(bytes) as int;
        lemma_digits(head);
        assert forall|i: int| 0 <= i < bytes.len() implies (#[trigger] bytes[i]) as int == v / (
        pow256((bytes.len() - 1 - i) as nat) as int) % 256 by {
            if i < head.len() {
                assert(head[i] == bytes[i]);
                let p = pow256((head.len() - 1 - i) as nat) as int;
                lemma_pow256_positive((head.len() - 1 - i) as nat);
                assert(pow256((bytes.len() - 1 - i) as nat) == 256 * p);
                vstd::arithmetic::div_mod::lemma_div_denominator(v, 256, p);
                assert(v / 256 == be_value(head));
                assert(v / (256 * p) == be_value(head) as int / p);
            } else {
                assert(pow256((bytes.len() - 1 - i) as nat) == 1);
                assert(v / 1 == v);
                assert(v % 256 == bytes.last());
            }
        }
    }
}

proof fn lemma_pow256_positive(n: nat)
    ensures
        pow256(n) > 0,
    decreases n,
{
    if n > 0 {
        lemma_pow256_positive((n - 1) as nat);
    }
}

/// A float is read from the four or the eight bytes that it is stored in, as it is. No bytes
/// are a zero, and other lengths are refused.
pub proof fn lemma_float_value(d: Seq<u8>, pos: int, single: u32, double: u64, n: u64)
    ensures
        holds(d, pos, be_bytes(single as nat, 4)) ==> float_at(d, pos, 4) == Ok::<
            Float,
            MkvError,
        >(Float::Single(single)),
        holds(d, pos, be_bytes(double as nat, 8)) ==> float_at(d, pos, 8) == Ok::<
            Float,
            MkvError,
        >(Float::Double(double)),
        float_at(d, pos, 0) == Ok::<Float, MkvError>(Float::Double(0)),
        n != 0 && n != 4 && n != 8 ==> float_at(d, pos, n) is Err,
{
    lemma_pow256_values();
    lemma_be_round_trip(single as nat, 4);
    lemma_be_round_trip(double as nat, 8);
}

/// A text ends where its data do, or at the first zero byte in them.
pub proof fn lemma_text_value(d: Seq<u8>, pos: int, text: Seq<char>, padding: Seq<u8>)
    requires
        no_nul(text),
        padding.len() > 0 ==> padding[0] == 0,
        holds(d, pos, encode_utf8(text) + padding),
        d.len() <= MAX_LEN,
    ensures
        string_at(d, pos, (encode_utf8(text) + padding).len() as u64) == Ok::<
            Seq<char>,
            MkvError,
        >(text),
{
    let bytes = encode_utf8(text);
    let all = bytes + padding;
    lemma_text_read(text);
    assert(d.subrange(pos, pos + all.len()) == all);
    if all.len() == 0 {
        assert(all =~= Seq::<u8>::empty());
    }
    assert(bytes_at(d, pos, all.len() as u64) == Ok::<Seq<u8>, MkvError>(all));
    assert forall|i: int| 0 <= i < bytes.len() implies #[trigger] bytes[i] != 0 by {
        lemma_encode_no_nul(text, i);
    }
    assert forall|i: int| 0 <= i < bytes.len() implies #[trigger] all[i] != 0 by {
        assert(all[i] == bytes[i]);
    }
    lemma_before_nul(bytes, bytes.len() as int);
    assert(bytes.take(bytes.len() as int) =~= bytes);
    lemma_before_nul(all, bytes.len() as int);
    assert(all.take(bytes.len() as int) =~= bytes);
}

/// A float of eight bytes by its sign, its exponent and its fraction.
pub open spec fn double_of(negative: bool, exponent: int, fraction: int) -> Float {
    let sign: int = if negative {
        0x8000_0000_0000_0000
    } else {
        0
    };
    Float::Double((sign + exponent * 0x10_0000_0000_0000 + fraction) as u64)
}

/// A float of four bytes by its sign, its exponent and its fraction.
pub open spec fn single_of(negative: bool, exponent: int, fraction: int) -> Float {
    let sign: int = if negative {
        0x8000_0000
    } else {
        0
    };
    Float::Single((sign + exponent * 0x80_0000 + fraction) as u32)
}

/// A float is a zero if its exponent and its fraction are. It is positive if it is no zero, has
/// no sign, and is not one of those that stand for no number.
pub proof fn lemma_float_sign(negative: bool, exponent: int, fraction: int)
    ensures
        0 <= exponent < 2048 && 0 <= fraction < 0x10_0000_0000_0000 ==> {
            let f = double_of(negative, exponent, fraction);
            &&& f.spec_is_zero() == (exponent == 0 && fraction == 0)
            &&& f.spec_is_positive() == (!negative && !f.spec_is_zero() && !(exponent == 2047
                && fraction != 0))
        },
        0 <= exponent < 256 && 0 <= fraction < 0x80_0000 ==> {
            let f = single_of(negative, exponent, fraction);
            &&& f.spec_is_zero() == (exponent == 0 && fraction == 0)
            &&& f.spec_is_positive() == (!negative && !f.spec_is_zero() && !(exponent == 255
                && fraction != 0))
        },
{
}

/// A number is written in as few bytes as hold it, but in one at least.
pub proof fn lemma_number_shortest(v: u64)
    ensures
        1 <= uint_len(v) <= 8,
        v < pow256(uint_len(v)),
        uint_len(v) > 1 ==> v >= pow256((uint_len(v) - 1) as nat),
{
    lemma_pow256_values();
}

/// A size is written in as few bytes as hold it, with seven bits in each and one value fewer,
/// which is kept for sizes that are not known.
pub proof fn lemma_size_shortest(n: nat)
    requires
        n < 0xFF_FFFF_FFFF_FFFF,
    ensures
        1 <= size_len(n) <= 8,
        n < pow2(7 * size_len(n)) - 1,
        size_len(n) > 1 ==> n >= pow2((7 * (size_len(n) - 1)) as nat) - 1,
{
    lemma2_to64();
    lemma2_to64_rest();
}

} // verus!
