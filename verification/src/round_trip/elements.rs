//! Elements that were written are read back.

use vstd::prelude::*;
use vstd::utf8::{
    char_is_scalar, char_u32_cast, encode_scalar, encode_utf8, encode_utf8_decode_utf8,
    encode_utf8_valid_utf8,
};
use crate::demux::crc::{crc_at, crc_header_len, le_u32, CrcStatus};
use crate::ebml::{
    be_bytes, be_value, before_nul, bytes_at, crc32, end_of, float_at, header_at,
    lemma_be_bytes_len, lemma_be_round_trip, lemma_be_value_bound, lemma_be_value_first,
    lemma_before_nul, lemma_pow256_values, pow256, string_at, text_of, uint_at, vint_at,
    vint_marker, vint_max, vint_payload, vint_width, walk, ElementHeader, Float, VINT_UNKNOWN_SIZE,
};
use crate::error::MkvError;
use crate::ids;
use crate::write::{
    crc_element, element, float_element, header_bytes, id_bytes, id_len, le_bytes4, size_bytes,
    size_code, size_len, string_element, uint_element, uint_len,
};

verus! {

/// The largest size that an element can state.
pub const MAX_LEN: u64 = 0xFF_FFFF_FFFF_FFFE;

/// Whether the document `d` has the bytes `s` at `pos`.
pub open spec fn holds(d: Seq<u8>, pos: int, s: Seq<u8>) -> bool {
    0 <= pos && pos + s.len() <= d.len() && d.subrange(pos, pos + s.len()) == s
}

/// Two pieces are there, one after the other, where both are there together.
pub proof fn lemma_holds_split(d: Seq<u8>, pos: int, a: Seq<u8>, b: Seq<u8>)
    ensures
        holds(d, pos, a + b) == (holds(d, pos, a) && holds(d, pos + a.len(), b)),
{
    let n = a.len() as int;
    let m = b.len() as int;
    if holds(d, pos, a + b) {
        let both = d.subrange(pos, pos + n + m);
        assert(d.subrange(pos, pos + n) =~= both.take(n));
        assert((a + b).take(n) =~= a);
        assert(d.subrange(pos + n, pos + n + m) =~= both.skip(n));
        assert((a + b).skip(n) =~= b);
    }
    if holds(d, pos, a) && holds(d, pos + n, b) {
        assert(d.subrange(pos, pos + n + m) =~= d.subrange(pos, pos + n) + d.subrange(
            pos + n,
            pos + n + m,
        ));
    }
}

// ---------------------------------------------------------------------------
// Headers.

/// Whether `id` is an element ID: its marker tells its length.
pub open spec fn is_id(id: u32) -> bool {
    0x80 <= id <= 0xFF || 0x4000 <= id <= 0x7FFF || 0x20_0000 <= id <= 0x3F_FFFF || 0x1000_0000
        <= id <= 0x1FFF_FFFF
}

/// The header of an element with `n` bytes of data.
pub open spec fn header(id: u32, n: nat) -> ElementHeader {
    ElementHeader {
        id: id,
        size: if n > 0xFF_FFFF_FFFF_FFFE {
            VINT_UNKNOWN_SIZE
        } else {
            n as u64
        },
        header_len: (id_len(id) + size_len(n)) as u64,
    }
}

/// The first byte of a number in big-endian bytes, and the rest.
proof fn lemma_be_first(code: nat, w: nat)
    requires
        1 <= w <= 8,
        code < pow256(w),
    ensures
        be_bytes(code, w).len() == w,
        be_value(be_bytes(code, w)) == code,
        be_bytes(code, w)[0] == code / pow256((w - 1) as nat),
        be_value(be_bytes(code, w).skip(1)) == code % pow256((w - 1) as nat),
{
    let s = be_bytes(code, w);
    let p = pow256((w - 1) as nat) as int;
    lemma_be_round_trip(code, w);
    lemma_be_value_first(s);
    lemma_be_value_bound(s.skip(1));
    lemma_pow256_values();
    vstd::arithmetic::div_mod::lemma_fundamental_div_mod_converse(
        code as int,
        p,
        s[0] as int,
        be_value(s.skip(1)) as int,
    );
}

/// A number that was written with a marker is read back with it, and without it if it is
/// taken off.
pub proof fn lemma_vint_read(d: Seq<u8>, pos: int, code: nat, w: nat)
    requires
        1 <= w <= 8,
        vint_max(w as int) + 1 <= code < 2 * (vint_max(w as int) + 1),
        holds(d, pos, be_bytes(code, w)),
    ensures
        vint_at(d, pos, true) == Ok::<(u64, int), MkvError>((code as u64, w as int)),
        vint_at(d, pos, false) == Ok::<(u64, int), MkvError>(
            (
                if code == 2 * vint_max(w as int) + 1 {
                    VINT_UNKNOWN_SIZE
                } else {
                    (code - vint_max(w as int) - 1) as u64
                },
                w as int,
            ),
        ),
{
    lemma_pow256_values();
    let p = pow256((w - 1) as nat) as int;
    let m = vint_marker(w as int);
    let s = be_bytes(code, w);
    assert(m * p == vint_max(w as int) + 1);
    assert(code < pow256(w));
    lemma_be_first(code, w);
    assert(m <= s[0] < 2 * m) by (nonlinear_arith)
        requires
            s[0] == code as int / p,
            m * p <= code < 2 * (m * p),
            p > 0,
    ;
    assert(d.subrange(pos, pos + w)[0] == d[pos]);
    assert(vint_width(s[0]) == w);
    let t = vint_payload(s);
    assert(t.skip(1) =~= s.skip(1));
    lemma_be_value_first(t);
    lemma_be_value_first(s);
    assert((s[0] - m) * p == s[0] * p - m * p) by (nonlinear_arith);
    assert(be_value(t) == code - m * p);
}

/// The size of an element that was written is read back.
pub proof fn lemma_size_read(d: Seq<u8>, pos: int, n: nat)
    requires
        holds(d, pos, size_bytes(n)),
    ensures
        size_bytes(n).len() == size_len(n),
        vint_at(d, pos, false) == Ok::<(u64, int), MkvError>(
            (header(0x80, n).size, size_len(n) as int),
        ),
{
    lemma_be_bytes_len(size_code(n), size_len(n));
    lemma_vint_read(d, pos, size_code(n), size_len(n));
}

/// The ID of an element that was written is read back.
pub proof fn lemma_id_read(d: Seq<u8>, pos: int, id: u32)
    requires
        is_id(id),
        holds(d, pos, id_bytes(id)),
    ensures
        id_bytes(id).len() == id_len(id),
        vint_at(d, pos, true) == Ok::<(u64, int), MkvError>((id as u64, id_len(id) as int)),
{
    lemma_be_bytes_len(id as nat, id_len(id));
    lemma_vint_read(d, pos, id as nat, id_len(id));
}

/// The header of an element that was written is read back.
pub proof fn lemma_header_read(d: Seq<u8>, pos: int, id: u32, n: nat)
    requires
        is_id(id),
        holds(d, pos, header_bytes(id, n)),
    ensures
        header_bytes(id, n).len() == header(id, n).header_len,
        header_at(d, pos) == Ok::<ElementHeader, MkvError>(header(id, n)),
{
    lemma_holds_split(d, pos, id_bytes(id), size_bytes(n));
    lemma_id_read(d, pos, id);
    lemma_size_read(d, pos + id_len(id), n);
}

/// An element that was written is read back: its header, and then its data.
pub proof fn lemma_element_read(d: Seq<u8>, pos: int, id: u32, body: Seq<u8>)
    requires
        is_id(id),
        holds(d, pos, element(id, body)),
        d.len() <= MAX_LEN,
    ensures
        ({
            let h = header(id, body.len());
            &&& header_at(d, pos) == Ok::<ElementHeader, MkvError>(h)
            &&& h.id == id
            &&& h.size == body.len()
            &&& holds(d, pos + h.header_len, body)
            &&& element(id, body).len() == h.header_len + body.len()
            &&& end_of(pos + h.header_len, h.size) == pos + element(id, body).len()
            &&& bytes_at(d, pos + h.header_len, h.size) == Ok::<Seq<u8>, MkvError>(body)
            &&& h.header_len >= 2
        }),
{
    reveal(element);
    lemma_holds_split(d, pos, header_bytes(id, body.len()), body);
    lemma_header_read(d, pos, id, body.len());
    if body.len() == 0 {
        assert(body =~= Seq::<u8>::empty());
    }
}

// ---------------------------------------------------------------------------
// Values.

/// The size of an unsigned integer is enough for it.
pub proof fn lemma_uint_len(v: u64)
    ensures
        1 <= uint_len(v) <= 8,
        v < pow256(uint_len(v)),
        be_bytes(v as nat, uint_len(v)).len() == uint_len(v),
        be_value(be_bytes(v as nat, uint_len(v))) == v,
{
    lemma_pow256_values();
    lemma_be_round_trip(v as nat, uint_len(v));
}

/// An unsigned integer that was written is read back.
pub proof fn lemma_uint_read(d: Seq<u8>, pos: int, id: u32, v: u64)
    requires
        is_id(id),
        holds(d, pos, uint_element(id, v)),
        d.len() <= MAX_LEN,
    ensures
        ({
            let h = header(id, uint_len(v));
            &&& header_at(d, pos) == Ok::<ElementHeader, MkvError>(h)
            &&& h.id == id
            &&& h.size <= 8
            &&& uint_at(d, pos + h.header_len, h.size) == Ok::<u64, MkvError>(v)
            &&& pos + h.header_len + h.size == pos + uint_element(id, v).len()
            &&& h.header_len >= 2
        }),
{
    reveal(uint_element);
    lemma_uint_len(v);
    lemma_element_read(d, pos, id, be_bytes(v as nat, uint_len(v)));
}

/// An eight-byte float that was written is read back.
pub proof fn lemma_float_read(d: Seq<u8>, pos: int, id: u32, bits: u64)
    requires
        is_id(id),
        holds(d, pos, float_element(id, bits)),
        d.len() <= MAX_LEN,
    ensures
        ({
            let h = header(id, 8);
            &&& header_at(d, pos) == Ok::<ElementHeader, MkvError>(h)
            &&& h.id == id
            &&& h.size == 8
            &&& float_at(d, pos + h.header_len, h.size) == Ok::<Float, MkvError>(
                Float::Double(bits),
            )
            &&& pos + h.header_len + h.size == pos + float_element(id, bits).len()
            &&& h.header_len >= 2
        }),
{
    reveal(float_element);
    lemma_pow256_values();
    lemma_be_round_trip(bits as nat, 8);
    lemma_element_read(d, pos, id, be_bytes(bits as nat, 8));
}

/// Whether the text has no zero character, which would end it.
pub open spec fn no_nul(s: Seq<char>) -> bool {
    forall|i: int| 0 <= i < s.len() ==> #[trigger] s[i] != '\0'
}

proof fn lemma_scalar_no_nul(c: u32, i: int)
    requires
        0 < c <= 0x10FFFF,
        0 <= i < encode_scalar(c).len(),
    ensures
        encode_scalar(c)[i] != 0,
{
    assert(0 < c <= 0x7F ==> (c & 0x7F) as u8 != 0) by (bit_vector);
    assert(0xC0u8 | ((c >> 6) & 0x1F) as u8 != 0) by (bit_vector);
    assert(0xE0u8 | ((c >> 12) & 0x0F) as u8 != 0) by (bit_vector);
    assert(0xF0u8 | ((c >> 18) & 0x7) as u8 != 0) by (bit_vector);
    assert(0x80u8 | (c & 0x3F) as u8 != 0) by (bit_vector);
    assert(0x80u8 | ((c >> 6) & 0x3F) as u8 != 0) by (bit_vector);
    assert(0x80u8 | ((c >> 12) & 0x3F) as u8 != 0) by (bit_vector);
}

pub proof fn lemma_encode_no_nul(s: Seq<char>, i: int)
    requires
        no_nul(s),
        0 <= i < encode_utf8(s).len(),
    ensures
        encode_utf8(s)[i] != 0,
    decreases s.len(),
{
    if s.len() > 0 {
        let first = encode_scalar(s[0] as u32);
        if i < first.len() {
            assert(s[0] != '\0');
            char_is_scalar(s[0]);
            assert('\0' as u32 == 0);
            if s[0] as u32 == 0 {
                char_u32_cast(s[0], 0);
                char_u32_cast('\0', 0);
            }
            lemma_scalar_no_nul(s[0] as u32, i);
        } else {
            assert forall|k: int| 0 <= k < s.drop_first().len() implies #[trigger] s.drop_first()[k]
                != '\0' by {
                assert(s.drop_first()[k] == s[k + 1]);
            }
            lemma_encode_no_nul(s.drop_first(), i - first.len());
        }
    }
}

/// Text that was written is read back, unless a zero character ends it.
pub proof fn lemma_text_read(s: Seq<char>)
    requires
        no_nul(s),
    ensures
        text_of(before_nul(encode_utf8(s))) == s,
{
    let b = encode_utf8(s);
    assert forall|i: int| 0 <= i < b.len() implies b[i] != 0 by {
        lemma_encode_no_nul(s, i);
    }
    lemma_before_nul(b, b.len() as int);
    assert(b.take(b.len() as int) =~= b);
    encode_utf8_valid_utf8(s);
    encode_utf8_decode_utf8(s);
}

/// A text element that was written is read back, unless a zero character ends its text.
pub proof fn lemma_string_read(d: Seq<u8>, pos: int, id: u32, s: Seq<char>)
    requires
        is_id(id),
        holds(d, pos, string_element(id, s)),
        no_nul(s),
        d.len() <= MAX_LEN,
    ensures
        ({
            let h = header(id, encode_utf8(s).len());
            &&& header_at(d, pos) == Ok::<ElementHeader, MkvError>(h)
            &&& h.id == id
            &&& string_at(d, pos + h.header_len, h.size) == Ok::<Seq<char>, MkvError>(s)
            &&& pos + h.header_len + h.size == pos + string_element(id, s).len()
            &&& h.header_len >= 2
        }),
{
    reveal(string_element);
    lemma_element_read(d, pos, id, encode_utf8(s));
    lemma_text_read(s);
}

// ---------------------------------------------------------------------------
// Checksums.

/// The four bytes of a checksum are read back.
pub proof fn lemma_le_read(c: u32)
    ensures
        le_u32(le_bytes4(c)) == c,
{
    let s = le_bytes4(c);
    assert(s[0] + 0x100 * s[1] + 0x1_0000 * s[2] + 0x100_0000 * s[3] == c);
}

/// The checksum of an element that was written with one is found, and fits.
pub proof fn lemma_crc_read(d: Seq<u8>, pos: int, id: u32, body: Seq<u8>)
    requires
        holds(d, pos, crc_element(body) + body),
    ensures
        crc_element(body).len() == 6,
        crc_at(d, id, pos, pos + 6 + body.len()) == Some(
            CrcStatus { element_id: id, stored: crc32(body), computed: crc32(body) },
        ),
{
    reveal(element);
    let c = crc32(body);
    let all = crc_element(body) + body;
    assert(le_bytes4(c).len() == 4);
    lemma_be_bytes_len(ids::CRC32 as nat, 1);
    lemma_be_bytes_len(size_code(4), 1);
    assert(crc_element(body).len() == 6);
    assert(holds(all, 0, all)) by {
        assert(all.subrange(0, all.len() as int) =~= all);
    }
    lemma_holds_split(all, 0, crc_element(body), body);
    lemma_holds_split(all, 0, header_bytes(ids::CRC32, 4), le_bytes4(c));
    lemma_holds_split(all, 0, id_bytes(ids::CRC32), size_bytes(4));
    lemma_id_read(all, 0, ids::CRC32);
    lemma_size_read(all, 1, 4);
    assert(crc_header_len(all) == Some(2int));
    assert(all.subrange(2, 6) == le_bytes4(c));
    lemma_le_read(c);
    assert(all.skip(6) =~= body);
    assert(d.subrange(pos, pos + 6 + body.len()) == all);
}

// ---------------------------------------------------------------------------
// Walking.

/// A walk goes on behind an element, with what the step over it gives.
pub proof fn lemma_walk_step<S>(
    d: Seq<u8>,
    pos: int,
    end: int,
    s: S,
    step: spec_fn(S, ElementHeader, int) -> Result<(S, int), MkvError>,
    h: ElementHeader,
    t: S,
    next: int,
)
    requires
        0 <= pos < end,
        header_at(d, pos) == Ok::<ElementHeader, MkvError>(h),
        step(s, h, pos + h.header_len) == Ok::<(S, int), MkvError>((t, next)),
        next >= pos + h.header_len,
    ensures
        walk(d, pos, end, s, step) == walk(d, next, end, t, step),
{
}

} // verus!
