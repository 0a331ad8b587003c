//! Checksums of top-level elements.

use vstd::prelude::*;
use vstd::slice::slice_subrange;
use crate::ebml::{crc32, crc32_ieee, read_vint, vint_at};
use crate::ids;

verus! {

/// The checksum of an element as stored and as computed.
#[derive(Clone, Copy, Debug, PartialEq, Eq, Structural)]
pub struct CrcStatus {
    /// The ID of the element.
    pub element_id: u32,
    /// The checksum that the element holds.
    pub stored: u32,
    /// The checksum of the rest of the element's data.
    pub computed: u32,
}

impl CrcStatus {
    /// Whether the data is as it was when the checksum was made.
    pub fn is_valid(&self) -> (r: bool)
        ensures
            r == (self.stored == self.computed),
    {
        self.stored == self.computed
    }
}

/// The number that four bytes spell, least significant byte first.
pub open spec fn le_u32(s: Seq<u8>) -> u32 {
    (s[0] + 0x100 * s[1] + 0x1_0000 * s[2] + 0x100_0000 * s[3]) as u32
}

/// The length of the header of a CRC-32 element of four bytes that `body` starts with.
pub open spec fn crc_header_len(body: Seq<u8>) -> Option<int> {
    match vint_at(body, 0, true) {
        Err(_) => None,
        Ok((id, w)) => if id != ids::CRC32 {
            None
        } else {
            match vint_at(body, w, false) {
                Err(_) => None,
                Ok((size, v)) => if size == 4 && w + v + 4 <= body.len() {
                    Some(w + v)
                } else {
                    None
                },
            }
        },
    }
}

/// The checksums of an element whose data is `body`, if it starts with a CRC-32
/// element: the one stored there, and the one of all that follows.
pub open spec fn crc_of(element_id: u32, body: Seq<u8>) -> Option<CrcStatus> {
    match crc_header_len(body) {
        Some(n) => Some(
            CrcStatus {
                element_id,
                stored: le_u32(body.subrange(n, n + 4)),
                computed: crc32(body.skip(n + 4)),
            },
        ),
        None => None,
    }
}

/// The checksums of the element whose data lies between two positions. There are none
/// where the document ends before the element does.
pub open spec fn crc_at(d: Seq<u8>, element_id: u32, body_start: int, body_end: int) -> Option<
    CrcStatus,
> {
    if body_end - body_start < 6 || body_end > d.len() {
        None
    } else {
        crc_of(element_id, d.subrange(body_start, body_end))
    }
}

/// Computes the checksum of the element whose data lies between two positions, if it
/// starts with a stored one.
pub fn validate_top_level_crc(d: &[u8], element_id: u32, body_start: u64, body_end: u64) -> (r:
    Option<CrcStatus>)
    ensures
        r == crc_at(d@, element_id, body_start as int, body_end as int),
{
    if body_end < body_start || body_end - body_start < 6 || body_end > d.len() as u64 {
        return None;
    }
    let body: &[u8] = slice_subrange(d, body_start as usize, body_end as usize);
    let (id, w) = match read_vint(body, 0, true) {
        Ok(v) => v,
        Err(_) => {
            return None;
        },
    };
    if id != ids::CRC32 as u64 {
        return None;
    }
    let (size, v) = match read_vint(body, w, false) {
        Ok(v) => v,
        Err(_) => {
            return None;
        },
    };
    if size != 4 {
        return None;
    }
    let n: usize = (w + v) as usize;
    if body.len() - n < 4 {
        return None;
    }
    let stored: u32 = body[n] as u32 + 0x100 * body[n + 1] as u32 + 0x1_0000 * body[n + 2] as u32
        + 0x100_0000 * body[n + 3] as u32;
    let rest: &[u8] = slice_subrange(body, n + 4, body.len());
    assert(rest@ =~= body@.skip(n + 4));
    Some(CrcStatus { element_id, stored, computed: crc32_ieee(rest) })
}

} // verus!
