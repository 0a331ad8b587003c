//! EBML: variable-length integers, element headers and element values.
//!
//! A document is a byte sequence and a position in it. Reading past the end is
//! refused; a position past the end is not, as long as nothing is read there.

use vstd::prelude::*;
use vstd::slice::{slice_subrange, slice_to_vec};
use vstd::utf8::{decode_utf8, valid_utf8};
use crate::error::MkvError;

verus! {

/// The size of an element whose end is not known in advance.
pub const VINT_UNKNOWN_SIZE: u64 = 0xFFFF_FFFF_FFFF_FFFF;

/// The polynomial of the IEEE CRC-32, reflected.
pub const CRC32_POLYNOMIAL: u32 = 0xEDB8_8320;

/// The header of one element.
#[derive(Clone, Copy, Debug, PartialEq, Eq, Structural)]
pub struct ElementHeader {
    /// The element's ID, marker bits included.
    pub id: u32,
    /// The length of the element's data, or [`VINT_UNKNOWN_SIZE`].
    pub size: u64,
    /// The length of the header itself.
    pub header_len: u64,
}

/// A float as the document stores it.
#[derive(Clone, Copy, Debug, PartialEq, Eq, Structural)]
pub enum Float {
    /// The bits of a four-byte IEEE float.
    Single(u32),
    /// The bits of an eight-byte IEEE float.
    Double(u64),
}

impl Float {
    /// Whether the float is a zero of either sign.
    pub open spec fn spec_is_zero(self) -> bool {
        match self {
            Float::Single(bits) => bits == 0 || bits == 0x8000_0000,
            Float::Double(bits) => bits == 0 || bits == 0x8000_0000_0000_0000,
        }
    }

    /// Whether the float is more than zero: neither a zero nor negative nor a NaN.
    pub open spec fn spec_is_positive(self) -> bool {
        match self {
            Float::Single(bits) => 0 < bits <= 0x7F80_0000,
            Float::Double(bits) => 0 < bits <= 0x7FF0_0000_0000_0000,
        }
    }

    /// Whether the float compares greater than zero.
    pub fn is_positive(self) -> (r: bool)
        ensures
            r == self.spec_is_positive(),
    {
        match self {
            Float::Single(bits) => 0 < bits && bits <= 0x7F80_0000,
            Float::Double(bits) => 0 < bits && bits <= 0x7FF0_0000_0000_0000,
        }
    }

    /// Whether the float compares equal to zero.
    pub fn is_zero(self) -> (r: bool)
        ensures
            r == self.spec_is_zero(),
    {
        match self {
            Float::Single(bits) => bits == 0 || bits == 0x8000_0000,
            Float::Double(bits) => bits == 0 || bits == 0x8000_0000_0000_0000,
        }
    }
}

// ---------------------------------------------------------------------------
// Big-endian integers.

/// The number that `s` spells, most significant byte first.
pub open spec fn be_value(s: Seq<u8>) -> nat
    decreases s.len(),
{
    if s.len() == 0 {
        0
    } else {
        be_value(s.drop_last()) * 256 + s.last() as nat
    }
}

/// The `n` low bytes of `v`, most significant byte first.
pub open spec fn be_bytes(v: nat, n: nat) -> Seq<u8>
    decreases n,
{
    if n == 0 {
        Seq::empty()
    } else {
        be_bytes(v / 256, (n - 1) as nat).push((v % 256) as u8)
    }
}

/// 256 to the power `n`.
pub open spec fn pow256(n: nat) -> nat
    decreases n,
{
    if n == 0 {
        1
    } else {
        256 * pow256((n - 1) as nat)
    }
}

pub proof fn lemma_pow256_values()
    ensures
        pow256(0) == 1,
        pow256(1) == 0x100,
        pow256(2) == 0x1_0000,
        pow256(3) == 0x100_0000,
        pow256(4) == 0x1_0000_0000,
        pow256(5) == 0x100_0000_0000,
        pow256(6) == 0x1_0000_0000_0000,
        pow256(7) == 0x100_0000_0000_0000,
        pow256(8) == 0x1_0000_0000_0000_0000,
{
    reveal_with_fuel(pow256, 9);
}

pub proof fn lemma_pow256_monotonic(a: nat, b: nat)
    requires
        a <= b,
    ensures
        pow256(a) <= pow256(b),
    decreases b,
{
    if a < b {
        lemma_pow256_monotonic(a, (b - 1) as nat);
    }
}

pub proof fn lemma_be_value_bound(s: Seq<u8>)
    ensures
        be_value(s) < pow256(s.len()),
    decreases s.len(),
{
    if s.len() > 0 {
        lemma_be_value_bound(s.drop_last());
    }
}

/// Splitting off the first byte instead of the last.
pub proof fn lemma_be_value_first(s: Seq<u8>)
    requires
        s.len() > 0,
    ensures
        be_value(s) == s[0] * pow256((s.len() - 1) as nat) + be_value(s.skip(1)),
    decreases s.len(),
{
    let t = s.skip(1);
    if s.len() == 1 {
        assert(s.drop_last() =~= Seq::<u8>::empty());
        assert(be_value(s.drop_last()) == 0);
        assert(be_value(t) == 0);
        assert(pow256(0) == 1);
        assert(s[0] * 1 == s[0]) by (nonlinear_arith);
    } else {
        let u = s.drop_last();
        lemma_be_value_first(u);
        assert(u.skip(1) =~= t.drop_last());
        let p = pow256((u.len() - 1) as nat);
        assert((u[0] * p) * 256 == u[0] * (256 * p)) by (nonlinear_arith);
        assert(be_value(s) == be_value(u) * 256 + s.last());
        assert(be_value(t) == be_value(t.drop_last()) * 256 + t.last());
        assert(pow256((s.len() - 1) as nat) == 256 * p);
        assert(u[0] == s[0]);
    }
}

/// Reading `n` bytes gives back what was written into them, where it fits.
pub proof fn lemma_be_round_trip(v: nat, n: nat)
    requires
        v < pow256(n),
    ensures
        be_bytes(v, n).len() == n,
        be_value(be_bytes(v, n)) == v,
    decreases n,
{
    if n > 0 {
        assert(v / 256 < pow256((n - 1) as nat)) by (nonlinear_arith)
            requires
                v < 256 * pow256((n - 1) as nat),
        ;
        lemma_be_round_trip(v / 256, (n - 1) as nat);
        let s = be_bytes(v, n);
        assert(s.drop_last() =~= be_bytes(v / 256, (n - 1) as nat));
    }
}

pub proof fn lemma_be_bytes_len(v: nat, n: nat)
    ensures
        be_bytes(v, n).len() == n,
    decreases n,
{
    if n > 0 {
        lemma_be_bytes_len(v / 256, (n - 1) as nat);
    }
}

/// Appends the `n` low bytes of `v`, most significant byte first.
pub fn write_be(out: &mut Vec<u8>, v: u64, n: u64)
    requires
        n <= 8,
    ensures
        final(out)@ == old(out)@ + be_bytes(v as nat, n as nat),
    decreases n,
{
    if n == 0 {
        assert(out@ + be_bytes(v as nat, 0) =~= out@);
    } else {
        write_be(out, v / 256, n - 1);
        let ghost mid = out@;
        out.push((v % 256) as u8);
        assert(out@ =~= old(out)@ + be_bytes(v as nat, n as nat));
    }
}

// ---------------------------------------------------------------------------
// Variable-length integers.

/// The length of a variable-length integer, told by its first byte.
pub open spec fn vint_width(first: u8) -> int {
    if first >= 0x80 {
        1
    } else if first >= 0x40 {
        2
    } else if first >= 0x20 {
        3
    } else if first >= 0x10 {
        4
    } else if first >= 0x08 {
        5
    } else if first >= 0x04 {
        6
    } else if first >= 0x02 {
        7
    } else {
        8
    }
}

/// The marker bit in the first byte of a variable-length integer of length `w`.
pub open spec fn vint_marker(w: int) -> int {
    if w == 1 {
        0x80
    } else if w == 2 {
        0x40
    } else if w == 3 {
        0x20
    } else if w == 4 {
        0x10
    } else if w == 5 {
        0x08
    } else if w == 6 {
        0x04
    } else if w == 7 {
        0x02
    } else {
        0x01
    }
}

/// The largest number that `w` bytes can hold beside the marker: all bits set.
pub open spec fn vint_max(w: int) -> int {
    if w == 1 {
        0x7F
    } else if w == 2 {
        0x3FFF
    } else if w == 3 {
        0x1F_FFFF
    } else if w == 4 {
        0xFFF_FFFF
    } else if w == 5 {
        0x7_FFFF_FFFF
    } else if w == 6 {
        0x3FF_FFFF_FFFF
    } else if w == 7 {
        0x1_FFFF_FFFF_FFFF
    } else {
        0xFF_FFFF_FFFF_FFFF
    }
}

/// The bytes of a variable-length integer without its marker.
pub open spec fn vint_payload(s: Seq<u8>) -> Seq<u8> {
    s.update(0, (s[0] - vint_marker(s.len() as int)) as u8)
}

/// The variable-length integer at `pos`, and its length. With `keep_marker` the
/// marker counts as part of the number, as it does in an element ID; without it a
/// number whose bits are all set is [`VINT_UNKNOWN_SIZE`].
pub open spec fn vint_at(d: Seq<u8>, pos: int, keep_marker: bool) -> Result<(u64, int), MkvError> {
    if pos >= d.len() {
        Err(MkvError::UnexpectedEof)
    } else if d[pos] == 0 {
        Err(MkvError::InvalidVint)
    } else {
        let w = vint_width(d[pos]);
        if pos + w > d.len() {
            Err(MkvError::UnexpectedEof)
        } else {
            let s = d.subrange(pos, pos + w);
            if keep_marker {
                Ok((be_value(s) as u64, w))
            } else if be_value(vint_payload(s)) == vint_max(w) {
                Ok((VINT_UNKNOWN_SIZE, w))
            } else {
                Ok((be_value(vint_payload(s)) as u64, w))
            }
        }
    }
}

fn width_of(first: u8) -> (w: u64)
    ensures
        w == vint_width(first),
{
    if first >= 0x80 {
        1
    } else if first >= 0x40 {
        2
    } else if first >= 0x20 {
        3
    } else if first >= 0x10 {
        4
    } else if first >= 0x08 {
        5
    } else if first >= 0x04 {
        6
    } else if first >= 0x02 {
        7
    } else {
        8
    }
}

fn marker_of(w: u64) -> (m: u8)
    requires
        1 <= w <= 8,
    ensures
        m == vint_marker(w as int),
{
    if w == 1 {
        0x80
    } else if w == 2 {
        0x40
    } else if w == 3 {
        0x20
    } else if w == 4 {
        0x10
    } else if w == 5 {
        0x08
    } else if w == 6 {
        0x04
    } else if w == 7 {
        0x02
    } else {
        0x01
    }
}

/// The largest number that `w` bytes can hold beside the marker.
pub fn vint_max_of(w: u64) -> (m: u64)
    requires
        1 <= w <= 8,
    ensures
        m == vint_max(w as int),
{
    if w == 1 {
        0x7F
    } else if w == 2 {
        0x3FFF
    } else if w == 3 {
        0x1F_FFFF
    } else if w == 4 {
        0xFFF_FFFF
    } else if w == 5 {
        0x7_FFFF_FFFF
    } else if w == 6 {
        0x3FF_FFFF_FFFF
    } else if w == 7 {
        0x1_FFFF_FFFF_FFFF
    } else {
        0xFF_FFFF_FFFF_FFFF
    }
}

/// Reads the variable-length integer at `pos`. Gives the number and its length.
pub fn read_vint(d: &[u8], pos: u64, keep_marker: bool) -> (r: Result<(u64, u64), MkvError>)
    ensures
        match r {
            Ok((v, w)) => vint_at(d@, pos as int, keep_marker) == Ok::<(u64, int), MkvError>(
                (v, w as int),
            ) && 1 <= w <= 8 && pos + w <= d@.len() && pos + w <= u64::MAX,
            Err(e) => vint_at(d@, pos as int, keep_marker) == Err::<(u64, int), MkvError>(e),
        },
{
    let len: u64 = d.len() as u64;
    if pos >= len {
        return Err(MkvError::UnexpectedEof);
    }
    let first: u8 = d[pos as usize];
    if first == 0 {
        return Err(MkvError::InvalidVint);
    }
    let w: u64 = width_of(first);
    if len - pos < w {
        return Err(MkvError::UnexpectedEof);
    }
    let ghost s = d@.subrange(pos as int, pos + w);
    let start: u8 = if keep_marker {
        first
    } else {
        first - marker_of(w)
    };
    let ghost t = if keep_marker {
        s
    } else {
        vint_payload(s)
    };
    let mut v: u64 = start as u64;
    let mut i: u64 = 1;
    proof {
        assert(t.take(1).drop_last() =~= Seq::<u8>::empty());
        assert(be_value(t.take(1).drop_last()) == 0);
        assert(t.take(1).last() == start);
    }
    while i < w
        invariant
            1 <= i <= w <= 8,
            pos + w <= d@.len(),
            d@.len() == len,
            s == d@.subrange(pos as int, pos + w),
            t.len() == w,
            forall|k: int| 1 <= k < w ==> t[k] == s[k],
            v == be_value(t.take(i as int)),
        decreases w - i,
    {
        proof {
            lemma_be_value_bound(t.take(i as int));
            lemma_pow256_values();
            lemma_pow256_monotonic(i as nat, 7);
            assert(t.take(i + 1).drop_last() =~= t.take(i as int));
            assert(t.take(i + 1).last() == d@[pos + i]);
        }
        v = v * 256 + d[(pos + i) as usize] as u64;
        i = i + 1;
    }
    proof {
        assert(t.take(w as int) =~= t);
        lemma_be_value_bound(t);
        lemma_pow256_values();
    }
    if !keep_marker && v == vint_max_of(w) {
        return Ok((VINT_UNKNOWN_SIZE, w));
    }
    Ok((v, w))
}

// ---------------------------------------------------------------------------
// Element headers and values.

/// The element header at `pos`.
pub open spec fn header_at(d: Seq<u8>, pos: int) -> Result<ElementHeader, MkvError> {
    match vint_at(d, pos, true) {
        Err(e) => Err(e),
        Ok((id, w)) => if w > 4 {
            Err(MkvError::InvalidElementId)
        } else {
            match vint_at(d, pos + w, false) {
                Err(e) => Err(e),
                Ok((size, v)) => Ok(
                    ElementHeader { id: id as u32, size: size, header_len: (w + v) as u64 },
                ),
            }
        },
    }
}

/// Reads the element header at `pos`.
pub fn read_element_header(d: &[u8], pos: u64) -> (r: Result<ElementHeader, MkvError>)
    ensures
        r == header_at(d@, pos as int),
        match r {
            Ok(h) => 2 <= h.header_len <= 12 && pos + h.header_len <= d@.len() && pos
                + h.header_len <= u64::MAX,
            Err(_) => true,
        },
{
    let (id, w) = read_vint(d, pos, true)?;
    if w > 4 {
        return Err(MkvError::InvalidElementId);
    }
    let (size, v) = read_vint(d, pos + w, false)?;
    proof {
        let s = d@.subrange(pos as int, pos + w);
        lemma_be_value_bound(s);
        lemma_pow256_values();
        lemma_pow256_monotonic(w as nat, 4);
    }
    Ok(ElementHeader { id: id as u32, size, header_len: w + v })
}

/// The `n` bytes at `pos`.
pub open spec fn bytes_at(d: Seq<u8>, pos: int, n: u64) -> Result<Seq<u8>, MkvError> {
    if n == 0 {
        Ok(Seq::empty())
    } else if pos + n > d.len() {
        Err(MkvError::UnexpectedEof)
    } else {
        Ok(d.subrange(pos, pos + n))
    }
}

/// Reads the `n` bytes at `pos`.
pub fn read_bytes(d: &[u8], pos: u64, n: u64) -> (r: Result<Vec<u8>, MkvError>)
    ensures
        match r {
            Ok(v) => bytes_at(d@, pos as int, n) == Ok::<Seq<u8>, MkvError>(v@) && v@.len() == n
                && (n > 0 ==> pos + n <= d@.len()) && pos + n <= u64::MAX,
            Err(e) => bytes_at(d@, pos as int, n) == Err::<Seq<u8>, MkvError>(e),
        },
{
    if n == 0 {
        return Ok(Vec::new());
    }
    let len: u64 = d.len() as u64;
    if pos > len || len - pos < n {
        return Err(MkvError::UnexpectedEof);
    }
    Ok(slice_to_vec(slice_subrange(d, pos as usize, (pos + n) as usize)))
}

/// The unsigned integer in the `n` bytes at `pos`.
pub open spec fn uint_at(d: Seq<u8>, pos: int, n: u64) -> Result<u64, MkvError> {
    if n > 8 {
        Err(MkvError::InvalidUintSize)
    } else {
        match bytes_at(d, pos, n) {
            Ok(s) => Ok(be_value(s) as u64),
            Err(e) => Err(e),
        }
    }
}

/// Reads the unsigned integer in the `n` bytes at `pos`; no bytes are a zero.
pub fn read_uint(d: &[u8], pos: u64, n: u64) -> (r: Result<u64, MkvError>)
    ensures
        r == uint_at(d@, pos as int, n),
        r is Ok && n > 0 ==> pos + n <= d@.len(),
        r is Ok ==> pos + n <= u64::MAX,
{
    if n > 8 {
        return Err(MkvError::InvalidUintSize);
    }
    if n == 0 {
        return Ok(0);
    }
    let len: u64 = d.len() as u64;
    if pos > len || len - pos < n {
        return Err(MkvError::UnexpectedEof);
    }
    let ghost s = d@.subrange(pos as int, pos + n);
    let mut v: u64 = 0;
    let mut i: u64 = 0;
    while i < n
        invariant
            i <= n <= 8,
            pos + n <= d@.len(),
            d@.len() == len,
            s == d@.subrange(pos as int, pos + n),
            v == be_value(s.take(i as int)),
        decreases n - i,
    {
        proof {
            lemma_be_value_bound(s.take(i as int));
            lemma_pow256_values();
            lemma_pow256_monotonic(i as nat, 7);
            assert(s.take(i + 1).drop_last() =~= s.take(i as int));
            assert(s.take(i + 1).last() == d@[pos + i]);
        }
        v = v * 256 + d[(pos + i) as usize] as u64;
        i = i + 1;
    }
    proof {
        assert(s.take(n as int) =~= s);
    }
    Ok(v)
}

/// The float in the `n` bytes at `pos`.
pub open spec fn float_at(d: Seq<u8>, pos: int, n: u64) -> Result<Float, MkvError> {
    if n == 0 {
        Ok(Float::Double(0))
    } else if n == 4 {
        match uint_at(d, pos, 4) {
            Ok(v) => Ok(Float::Single(v as u32)),
            Err(e) => Err(e),
        }
    } else if n == 8 {
        match uint_at(d, pos, 8) {
            Ok(v) => Ok(Float::Double(v)),
            Err(e) => Err(e),
        }
    } else {
        Err(MkvError::InvalidFloatSize)
    }
}

/// Reads the float in the `n` bytes at `pos`; no bytes are a zero.
pub fn read_float(d: &[u8], pos: u64, n: u64) -> (r: Result<Float, MkvError>)
    ensures
        r == float_at(d@, pos as int, n),
        r is Ok && n > 0 ==> pos + n <= d@.len(),
        r is Ok ==> pos + n <= u64::MAX,
{
    if n == 0 {
        Ok(Float::Double(0))
    } else if n == 4 {
        let v: u64 = read_uint(d, pos, 4)?;
        Ok(Float::Single(v as u32))
    } else if n == 8 {
        let v: u64 = read_uint(d, pos, 8)?;
        Ok(Float::Double(v))
    } else {
        Err(MkvError::InvalidFloatSize)
    }
}

/// What `String::from_utf8_lossy` makes of `bytes`.
pub uninterp spec fn utf8_lossy(bytes: Seq<u8>) -> Seq<char>;

/// Calls `String::from_utf8_lossy`. Claimed of it: the text depends on the bytes
/// alone, and is what they encode where they are valid UTF-8. It is not empty unless they
/// are, since what is not valid is replaced and not dropped.
#[verifier::external_body]
pub(crate) fn string_from_utf8_lossy(bytes: &[u8]) -> (s: String)
    ensures
        s@ == utf8_lossy(bytes@),
        valid_utf8(bytes@) ==> s@ == decode_utf8(bytes@),
        bytes@.len() > 0 ==> s@.len() > 0,
{
    String::from_utf8_lossy(bytes).into_owned()
}

/// The bytes before the first zero byte.
pub open spec fn before_nul(s: Seq<u8>) -> Seq<u8>
    decreases s.len(),
{
    if s.len() == 0 || s[0] == 0 {
        Seq::empty()
    } else {
        seq![s[0]] + before_nul(s.skip(1))
    }
}

pub proof fn lemma_before_nul(s: Seq<u8>, k: int)
    requires
        0 <= k <= s.len(),
        k == s.len() || s[k] == 0,
        forall|i: int| 0 <= i < k ==> s[i] != 0,
    ensures
        before_nul(s) == s.take(k),
    decreases s.len(),
{
    if k > 0 {
        lemma_before_nul(s.skip(1), k - 1);
        assert(seq![s[0]] + s.skip(1).take(k - 1) =~= s.take(k));
    } else {
        assert(s.take(0) =~= Seq::<u8>::empty());
    }
}

/// The text that `bytes` encode; what is not UTF-8 in them is replaced.
pub open spec fn text_of(bytes: Seq<u8>) -> Seq<char> {
    if valid_utf8(bytes) {
        decode_utf8(bytes)
    } else {
        utf8_lossy(bytes)
    }
}

/// The text in the `n` bytes at `pos`: a zero byte ends it.
pub open spec fn string_at(d: Seq<u8>, pos: int, n: u64) -> Result<Seq<char>, MkvError> {
    match bytes_at(d, pos, n) {
        Ok(s) => Ok(text_of(before_nul(s))),
        Err(e) => Err(e),
    }
}

/// Reads the text in the `n` bytes at `pos`.
pub fn read_string(d: &[u8], pos: u64, n: u64) -> (r: Result<String, MkvError>)
    ensures
        match r {
            Ok(s) => string_at(d@, pos as int, n) == Ok::<Seq<char>, MkvError>(s@) && (n > 0 ==> pos
                + n <= d@.len()) && pos + n <= u64::MAX,
            Err(e) => string_at(d@, pos as int, n) == Err::<Seq<char>, MkvError>(e),
        },
{
    let bytes: Vec<u8> = read_bytes(d, pos, n)?;
    let mut k: usize = 0;
    while k < bytes.len() && bytes[k] != 0
        invariant
            k <= bytes@.len(),
            forall|i: int| 0 <= i < k ==> bytes@[i] != 0,
        decreases bytes@.len() - k,
    {
        k = k + 1;
    }
    proof {
        lemma_before_nul(bytes@, k as int);
        assert(bytes@.subrange(0, k as int) =~= bytes@.take(k as int));
    }
    Ok(string_from_utf8_lossy(slice_subrange(bytes.as_slice(), 0, k)))
}

/// The position `n` bytes after `pos`.
pub open spec fn skip_from(pos: int, n: u64) -> Result<int, MkvError> {
    if n > i64::MAX || pos + n > u64::MAX {
        Err(MkvError::InvalidSkip)
    } else {
        Ok(pos + n)
    }
}

/// Moves `n` bytes on from `pos`, never backwards.
pub fn skip(pos: u64, n: u64) -> (r: Result<u64, MkvError>)
    ensures
        match r {
            Ok(p) => skip_from(pos as int, n) == Ok::<int, MkvError>(p as int) && p >= pos,
            Err(e) => skip_from(pos as int, n) == Err::<int, MkvError>(e),
        },
{
    if n > 0x7FFF_FFFF_FFFF_FFFF || pos > 0xFFFF_FFFF_FFFF_FFFF - n {
        Err(MkvError::InvalidSkip)
    } else {
        Ok(pos + n)
    }
}

/// Where the data of an element ends that starts at `body`.
pub open spec fn end_of(body: int, size: u64) -> int {
    if body <= u64::MAX && body + size > u64::MAX {
        u64::MAX as int
    } else {
        body + size
    }
}

// ---------------------------------------------------------------------------
// Walking the children of a master element.

/// What remains to be read from `pos`, as a measure.
pub open spec fn left_of(d: Seq<u8>, pos: int) -> nat {
    if pos <= d.len() {
        (d.len() - pos + 1) as nat
    } else {
        0
    }
}

/// Reads elements one after the other from `pos` until `end` is reached. `step`
/// takes what has been gathered so far, an element's header and the position of its
/// data; it gives what has been gathered with that element, and where to go on.
pub open spec fn walk<S>(
    d: Seq<u8>,
    pos: int,
    end: int,
    s: S,
    step: spec_fn(S, ElementHeader, int) -> Result<(S, int), MkvError>,
) -> Result<(S, int), MkvError>
    decreases left_of(d, pos),
{
    if pos >= end || pos < 0 {
        Ok((s, pos))
    } else {
        match header_at(d, pos) {
            Err(e) => Err(e),
            Ok(h) => {
                let body = pos + h.header_len;
                match step(s, h, body) {
                    Err(e) => Err(e),
                    Ok((t, next)) => if next < body {
                        Ok((t, next))
                    } else {
                        walk(d, next, end, t, step)
                    },
                }
            },
        }
    }
}

/// A walk that ends does not end before it starts.
pub proof fn lemma_walk_moves<S>(
    d: Seq<u8>,
    pos: int,
    end: int,
    s: S,
    step: spec_fn(S, ElementHeader, int) -> Result<(S, int), MkvError>,
)
    requires
        forall|t: S, h: ElementHeader, b: int|
            (#[trigger] step(t, h, b)) matches Ok((_, next)) ==> next >= b,
    ensures
        walk(d, pos, end, s, step) matches Ok((_, next)) ==> next >= pos,
    decreases left_of(d, pos),
{
    if 0 <= pos < end {
        if let Ok(h) = header_at(d, pos) {
            let body = pos + h.header_len;
            if let Ok((t, next)) = step(s, h, body) {
                lemma_walk_moves(d, next, end, t, step);
            }
        }
    }
}

/// What every step of a walk keeps holds at its end.
pub proof fn lemma_walk_keeps<S>(
    d: Seq<u8>,
    pos: int,
    end: int,
    s: S,
    step: spec_fn(S, ElementHeader, int) -> Result<(S, int), MkvError>,
    inv: spec_fn(S) -> bool,
)
    requires
        inv(s),
        forall|t: S, h: ElementHeader, b: int|
            inv(t) ==> ((#[trigger] step(t, h, b)) matches Ok((u, _)) ==> inv(u)),
    ensures
        walk(d, pos, end, s, step) matches Ok((u, _)) ==> inv(u),
    decreases left_of(d, pos),
{
    if 0 <= pos < end {
        if let Ok(h) = header_at(d, pos) {
            let body = pos + h.header_len;
            if let Ok((t, next)) = step(s, h, body) {
                if next >= body {
                    lemma_walk_keeps(d, next, end, t, step, inv);
                }
            }
        }
    }
}

/// A step over an unsigned integer element, which `f` adds to what has been gathered.
pub open spec fn on_uint<S>(
    d: Seq<u8>,
    h: ElementHeader,
    body: int,
    f: spec_fn(u64) -> S,
) -> Result<
    (S, int),
    MkvError,
> {
    match uint_at(d, body, h.size) {
        Err(e) => Err(e),
        Ok(v) => Ok((f(v), body + h.size)),
    }
}

/// A step over a float element.
pub open spec fn on_float<S>(
    d: Seq<u8>,
    h: ElementHeader,
    body: int,
    f: spec_fn(Float) -> S,
) -> Result<(S, int), MkvError> {
    match float_at(d, body, h.size) {
        Err(e) => Err(e),
        Ok(v) => Ok((f(v), body + h.size)),
    }
}

/// A step over a text element.
pub open spec fn on_string<S>(
    d: Seq<u8>,
    h: ElementHeader,
    body: int,
    f: spec_fn(Seq<char>) -> S,
) -> Result<(S, int), MkvError> {
    match string_at(d, body, h.size) {
        Err(e) => Err(e),
        Ok(v) => Ok((f(v), body + h.size)),
    }
}

/// A step over a binary element.
pub open spec fn on_bytes<S>(
    d: Seq<u8>,
    h: ElementHeader,
    body: int,
    f: spec_fn(Seq<u8>) -> S,
) -> Result<(S, int), MkvError> {
    match bytes_at(d, body, h.size) {
        Err(e) => Err(e),
        Ok(v) => Ok((f(v), body + h.size)),
    }
}

/// A step over a master element, of whose children `f` adds what was gathered.
pub open spec fn on_master<S, T>(
    inner: Result<(T, int), MkvError>,
    f: spec_fn(T) -> S,
) -> Result<(S, int), MkvError> {
    match inner {
        Err(e) => Err(e),
        Ok((t, next)) => Ok((f(t), next)),
    }
}

/// A step that passes over an element.
pub open spec fn passed<S>(s: S, body: int, size: u64) -> Result<(S, int), MkvError> {
    match skip_from(body, size) {
        Err(e) => Err(e),
        Ok(next) => Ok((s, next)),
    }
}

// ---------------------------------------------------------------------------
// Checksums.

/// One bit of the CRC-32.
pub open spec fn crc32_bit(c: u32) -> u32 {
    if c & 1 == 1 {
        (c >> 1) ^ CRC32_POLYNOMIAL
    } else {
        c >> 1
    }
}

/// `n` bits of the CRC-32.
pub open spec fn crc32_bits(c: u32, n: nat) -> u32
    decreases n,
{
    if n == 0 {
        c
    } else {
        crc32_bit(crc32_bits(c, (n - 1) as nat))
    }
}

/// The register of the CRC-32 behind the bytes `s`.
pub open spec fn crc32_register(s: Seq<u8>) -> u32
    decreases s.len(),
{
    if s.len() == 0 {
        0xFFFF_FFFF
    } else {
        crc32_bits(crc32_register(s.drop_last()) ^ (s.last() as u32), 8)
    }
}

/// The IEEE CRC-32 of `s`.
pub open spec fn crc32(s: Seq<u8>) -> u32 {
    !crc32_register(s)
}

/// The IEEE CRC-32 of `bytes`.
pub fn crc32_ieee(bytes: &[u8]) -> (r: u32)
    ensures
        r == crc32(bytes@),
{
    let mut c: u32 = 0xFFFF_FFFF;
    let mut i: usize = 0;
    while i < bytes.len()
        invariant
            i <= bytes@.len(),
            c == crc32_register(bytes@.take(i as int)),
        decreases bytes@.len() - i,
    {
        let ghost before = bytes@.take(i as int);
        let ghost start = c ^ (bytes@[i as int] as u32);
        c = c ^ (bytes[i] as u32);
        let mut n: u32 = 0;
        while n < 8
            invariant
                n <= 8,
                c == crc32_bits(start, n as nat),
            decreases 8 - n,
        {
            c = if c & 1 == 1 {
                (c >> 1) ^ CRC32_POLYNOMIAL
            } else {
                c >> 1
            };
            n = n + 1;
        }
        proof {
            let after = bytes@.take(i + 1);
            assert(after.drop_last() =~= before);
            assert(after.last() == bytes@[i as int]);
        }
        i = i + 1;
    }
    assert(bytes@.take(i as int) =~= bytes@);
    !c
}

} // verus!
