//! The index of the top-level elements at the start of the Segment.
//!
//! Every entry has the same size, so that the one for the Cues can be filled in when the
//! rest has been written.

use vstd::prelude::*;
use crate::ebml::{be_bytes, lemma_be_bytes_len, write_be};
use crate::ids;
use crate::write::{
    element, write_bytes_element, write_element_id, write_master_element, write_vint,
};

verus! {

/// The size of the index's own header.
pub const SEEK_HEAD_HEADER_LEN: u64 = 5;

/// How many entries the index has: Info, Tracks, Chapters and Cues.
pub const SEEK_HEAD_ENTRY_COUNT: u64 = 4;

/// The size of one entry.
pub const SEEK_ENTRY_LEN: u64 = 21;

/// The size of the whole index.
pub const SEEK_HEAD_TOTAL_LEN: u64 = 89;

/// Where the position starts in an entry.
pub const SEEK_POS_PAYLOAD_OFFSET: u64 = 13;

/// An entry: the ID of an element and its position in the Segment.
pub open spec fn entry(target: u32, position: u64) -> Seq<u8> {
    element(
        ids::SEEK,
        element(ids::SEEK_ID, be_bytes(target as nat, 4)) + element(
            ids::SEEK_POSITION,
            be_bytes(position as nat, 8),
        ),
    )
}

/// Filler of the size of an entry.
pub open spec fn void_entry() -> Seq<u8> {
    element(ids::VOID, Seq::new(19, |i: int| 0u8))
}

/// The entry of an element that may be missing.
pub open spec fn entry_or_void(target: u32, position: Option<u64>) -> Seq<u8> {
    match position {
        Some(p) => entry(target, p),
        None => void_entry(),
    }
}

/// The entries of the index. The last one, `cues`, is for the Cues.
pub open spec fn seek_head_body(
    info: u64,
    tracks: u64,
    chapters: Option<u64>,
    cues: Seq<u8>,
) -> Seq<u8> {
    entry(ids::INFO, info) + entry(ids::TRACKS, tracks) + entry_or_void(ids::CHAPTERS, chapters)
        + cues
}

/// The index.
#[verifier::opaque]
pub open spec fn seek_head(
    info: u64,
    tracks: u64,
    chapters: Option<u64>,
    cues: Seq<u8>,
) -> Seq<u8> {
    element(ids::SEEK_HEAD, seek_head_body(info, tracks, chapters, cues))
}

/// Builds an entry.
pub fn seek_entry(target: u32, position: u64) -> (r: Vec<u8>)
    ensures
        r@ == entry(target, position),
{
    proof {
        reveal(element);
        lemma_be_bytes_len(target as nat, 4);
        lemma_be_bytes_len(position as nat, 8);
    }
    let mut body: Vec<u8> = Vec::new();
    write_element_id(&mut body, ids::SEEK_ID);
    write_vint(&mut body, 4);
    write_be(&mut body, target as u64, 4);
    assert(body@ =~= element(ids::SEEK_ID, be_bytes(target as nat, 4)));
    write_element_id(&mut body, ids::SEEK_POSITION);
    write_vint(&mut body, 8);
    write_be(&mut body, position, 8);
    assert(body@ =~= element(ids::SEEK_ID, be_bytes(target as nat, 4)) + element(
        ids::SEEK_POSITION,
        be_bytes(position as nat, 8),
    ));
    let mut out: Vec<u8> = Vec::new();
    write_master_element(&mut out, ids::SEEK, &body);
    assert(out@ =~= entry(target, position));
    out
}

/// Builds filler of the size of an entry.
pub fn void_seek_entry() -> (r: Vec<u8>)
    ensures
        r@ == void_entry(),
{
    let mut body: Vec<u8> = Vec::new();
    let mut i: u64 = 0;
    while i < 19
        invariant
            i <= 19,
            body@.len() == i,
            forall|k: int| 0 <= k < i ==> body@[k] == 0,
        decreases 19 - i,
    {
        body.push(0);
        i = i + 1;
    }
    assert(body@ =~= Seq::new(19, |k: int| 0u8));
    let mut out: Vec<u8> = Vec::new();
    write_bytes_element(&mut out, ids::VOID, body.as_slice());
    assert(out@ =~= void_entry());
    out
}

/// Builds the index with the positions that are known in advance. That of the Cues is a
/// zero until it is known.
pub fn build_initial_seek_head(info: u64, tracks: u64, chapters: Option<u64>) -> (r: Vec<u8>)
    ensures
        r@ == seek_head(info, tracks, chapters, entry(ids::CUES, 0)),
{
    let mut body: Vec<u8> = seek_entry(ids::INFO, info);
    body.extend_from_slice(seek_entry(ids::TRACKS, tracks).as_slice());
    match chapters {
        Some(p) => body.extend_from_slice(seek_entry(ids::CHAPTERS, p).as_slice()),
        None => body.extend_from_slice(void_seek_entry().as_slice()),
    }
    body.extend_from_slice(seek_entry(ids::CUES, 0).as_slice());
    assert(body@ =~= seek_head_body(info, tracks, chapters, entry(ids::CUES, 0)));
    proof {
        reveal(seek_head);
    }
    let mut out: Vec<u8> = Vec::new();
    write_master_element(&mut out, ids::SEEK_HEAD, &body);
    assert(out@ =~= seek_head(info, tracks, chapters, entry(ids::CUES, 0)));
    out
}

/// An entry and the filler have the same size, and an entry ends with the position.
pub proof fn lemma_entry_len(target: u32, position: u64)
    ensures
        entry(target, position).len() == SEEK_ENTRY_LEN,
        void_entry().len() == SEEK_ENTRY_LEN,
        entry(target, position).skip(
            SEEK_POS_PAYLOAD_OFFSET as int,
        ) == be_bytes(position as nat, 8),
        entry(target, position).take(SEEK_POS_PAYLOAD_OFFSET as int) == entry(target, 0).take(
            SEEK_POS_PAYLOAD_OFFSET as int,
        ),
{
    reveal(element);
    lemma_be_bytes_len(target as nat, 4);
    lemma_be_bytes_len(position as nat, 8);
    lemma_be_bytes_len(0, 8);
    lemma_id_and_size(ids::SEEK, 18);
    lemma_id_and_size(ids::SEEK_ID, 4);
    lemma_id_and_size(ids::SEEK_POSITION, 8);
    lemma_id_and_size(ids::VOID, 19);
    assert(entry(target, position).skip(SEEK_POS_PAYLOAD_OFFSET as int) =~= be_bytes(
        position as nat,
        8,
    ));
    assert(entry(target, position).take(SEEK_POS_PAYLOAD_OFFSET as int) =~= entry(target, 0).take(
        SEEK_POS_PAYLOAD_OFFSET as int,
    ));
}

proof fn lemma_id_and_size(id: u32, n: nat)
    ensures
        crate::write::id_bytes(id).len() == crate::write::id_len(id),
        crate::write::size_bytes(n).len() == crate::write::size_len(n),
{
    lemma_be_bytes_len(id as nat, crate::write::id_len(id));
    lemma_be_bytes_len(crate::write::size_code(n), crate::write::size_len(n));
}

/// The index always has the same size, whatever it holds, and ends with the entry for the
/// Cues.
pub proof fn lemma_seek_head_len(info: u64, tracks: u64, chapters: Option<u64>, cues: Seq<u8>)
    requires
        cues.len() == SEEK_ENTRY_LEN,
    ensures
        seek_head(info, tracks, chapters, cues).len() == SEEK_HEAD_TOTAL_LEN,
        seek_head_body(info, tracks, chapters, cues).len() == SEEK_HEAD_ENTRY_COUNT
            * SEEK_ENTRY_LEN,
        SEEK_HEAD_TOTAL_LEN == SEEK_HEAD_HEADER_LEN + SEEK_HEAD_ENTRY_COUNT * SEEK_ENTRY_LEN,
        seek_head(info, tracks, chapters, cues).skip(
            SEEK_HEAD_TOTAL_LEN - SEEK_ENTRY_LEN,
        ) == cues,
{
    reveal(seek_head);
    reveal(element);
    lemma_entry_len(ids::INFO, info);
    lemma_entry_len(ids::TRACKS, tracks);
    lemma_entry_len(
        ids::CHAPTERS,
        match chapters {
            Some(p) => p,
            None => 0,
        },
    );
    lemma_id_and_size(ids::SEEK_HEAD, 84);
    assert(seek_head(info, tracks, chapters, cues).skip(SEEK_HEAD_TOTAL_LEN - SEEK_ENTRY_LEN)
        =~= cues);
}

} // verus!
