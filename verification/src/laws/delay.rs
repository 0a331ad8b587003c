//! The timing that the header gives an Opus track.

use vstd::prelude::*;
use super::pieces::{lemma_piece, Piece};
use crate::demux::segment::segment_bounds;
use crate::ebml::{crc32, end_of, header_at, left_of, uint_at};
use crate::ids;
use crate::mux::chapters::MkvChapterView;
use crate::mux::header::{
    header_of, info_body, info_element, opening, opus_delay_ns, track_body, track_codec,
    track_entries, track_media, track_private, track_start, track_timing, track_type, tracks_at,
    tracks_element, DocType, MuxStreamView,
};
use crate::mux::packets::{opus_magic, opus_pre_skip, stored_private};
use crate::mux::seek_head::{
    entry, lemma_entry_len, lemma_seek_head_len, seek_head_body, SEEK_HEAD_TOTAL_LEN,
};
use crate::round_trip::elements::{holds, is_id, lemma_holds_split, no_nul, MAX_LEN};
use crate::round_trip::header::{
    chapters_position, index_of, lemma_header_parts, lemma_opening_read,
};
use crate::round_trip::tracks::{entries_from, lemma_codec_no_nul, lemma_entries_from};
use crate::write::{crc_element, element, le_bytes4, string_element, uint_element};

verus! {

/// Where the data of the child number `n` with the ID `id` starts and ends, among the
/// elements from `pos` to `end`.
pub open spec fn find(d: Seq<u8>, pos: int, end: int, id: u32, n: nat) -> Option<(int, int)>
    decreases left_of(d, pos),
{
    if pos >= end || pos < 0 {
        None
    } else {
        match header_at(d, pos) {
            Err(_) => None,
            Ok(h) => {
                let body = pos + h.header_len;
                let next = end_of(body, h.size);
                if h.id == id && n == 0 {
                    Some((body, next))
                } else if next < body {
                    None
                } else if h.id == id {
                    find(d, next, end, id, (n - 1) as nat)
                } else {
                    find(d, next, end, id, n)
                }
            },
        }
    }
}

/// The unsigned integer in the first child with the ID `id`, among the elements from `pos`
/// to `end`.
pub open spec fn number_in(d: Seq<u8>, pos: int, end: int, id: u32) -> Option<u64> {
    match find(d, pos, end, id, 0) {
        Some((a, b)) => match uint_at(d, a, (b - a) as u64) {
            Ok(v) => Some(v),
            Err(_) => None,
        },
        None => None,
    }
}

proof fn lemma_find_on(d: Seq<u8>, pos: int, end: int, id: u32, n: nat, p: Piece)
    requires
        holds(d, pos, p.bytes()),
        pos + p.bytes().len() <= end,
        p.plain(),
        d.len() <= MAX_LEN,
    ensures
        p.id() != id ==> find(d, pos, end, id, n) == find(d, pos + p.bytes().len(), end, id, n),
        p.id() == id && n > 0 ==> find(d, pos, end, id, n) == find(
            d,
            pos + p.bytes().len(),
            end,
            id,
            (n - 1) as nat,
        ),
        p.id() == id && n == 0 ==> find(d, pos, end, id, n) == Some(
            (pos + p.header().header_len, pos + p.bytes().len()),
        ),
{
    lemma_piece(d, pos, p);
}

proof fn lemma_number_here(d: Seq<u8>, pos: int, end: int, id: u32, v: u64)
    requires
        holds(d, pos, uint_element(id, v)),
        pos + uint_element(id, v).len() <= end,
        is_id(id),
        d.len() <= MAX_LEN,
    ensures
        number_in(d, pos, end, id) == Some(v),
{
    let p = Piece::Number(id, v);
    lemma_find_on(d, pos, end, id, 0, p);
    lemma_piece(d, pos, p);
}

/// The timing stands in the TrackEntry behind the children that every track has and the
/// setup bytes.
#[verifier::rlimit(60)]
proof fn lemma_timing_in(d: Seq<u8>, pos: int, number: u64, s: MuxStreamView, id: u32)
    requires
        holds(d, pos, track_body(number, s)),
        d.len() <= MAX_LEN,
        no_nul(s.codec_id),
        id == ids::CODEC_DELAY || id == ids::SEEK_PRE_ROLL,
    ensures
        ({
            let end = pos + track_body(number, s).len();
            let at = pos + track_start(number, s).len() + track_private(s).len();
            &&& holds(d, at, track_timing(s))
            &&& at + track_timing(s).len() <= end
            &&& find(d, pos, end, id, 0) == find(d, at, end, id, 0)
        }),
{
    let end = pos + track_body(number, s).len();
    let x = track_start(number, s);
    let y = track_private(s);
    let z = track_timing(s);
    lemma_holds_split(d, pos, x + y + z, track_media(s));
    lemma_holds_split(d, pos, x + y, z);
    lemma_holds_split(d, pos, x, y);
    let a = uint_element(ids::TRACK_NUMBER, number);
    let b = uint_element(ids::TRACK_UID, number);
    let c = uint_element(ids::TRACK_TYPE, track_type(s.media_type));
    let e = uint_element(ids::FLAG_LACING, 0);
    let f = string_element(ids::CODEC_ID, track_codec(s.codec_id));
    lemma_holds_split(d, pos, a + b + c + e, f);
    lemma_holds_split(d, pos, a + b + c, e);
    lemma_holds_split(d, pos, a + b, c);
    lemma_holds_split(d, pos, a, b);
    lemma_codec_no_nul(s.codec_id);
    lemma_find_on(d, pos, end, id, 0, Piece::Number(ids::TRACK_NUMBER, number));
    lemma_find_on(d, pos + a.len(), end, id, 0, Piece::Number(ids::TRACK_UID, number));
    let p2 = pos + a.len() + b.len();
    lemma_find_on(
        d,
        p2,
        end,
        id,
        0,
        Piece::Number(ids::TRACK_TYPE, track_type(s.media_type)),
    );
    lemma_find_on(d, p2 + c.len(), end, id, 0, Piece::Number(ids::FLAG_LACING, 0));
    lemma_find_on(
        d,
        p2 + c.len() + e.len(),
        end,
        id,
        0,
        Piece::Text(ids::CODEC_ID, track_codec(s.codec_id)),
    );
    let stored = stored_private(s.codec_id, s.extradata);
    if stored.len() > 0 {
        lemma_find_on(d, pos + x.len(), end, id, 0, Piece::Bytes(ids::CODEC_PRIVATE, stored));
    }
}

/// The setup bytes of an Opus stream: their name, two more bytes, the number of samples that a
/// decoder drops at the start, and what follows.
pub open spec fn opus_head(version: u8, channels: u8, pre_skip: u16, rest: Seq<u8>) -> Seq<u8> {
    seq![
        'O' as u8,
        'p' as u8,
        'u' as u8,
        's' as u8,
        'H' as u8,
        'e' as u8,
        'a' as u8,
        'd' as u8,
        version,
        channels,
        (pre_skip % 256) as u8,
        (pre_skip / 256) as u8,
    ] + rest
}

/// What an Opus track says of its timing: the samples that a decoder drops at the start take
/// the CodecDelay, in nanoseconds at 48 kHz and cut down to a whole number, and 80 ms in front
/// of a place to be reached have to be decoded.
#[verifier::rlimit(40)]
proof fn lemma_track_timing(
    d: Seq<u8>,
    pos: int,
    number: u64,
    s: MuxStreamView,
    version: u8,
    channels: u8,
    pre_skip: u16,
    rest: Seq<u8>,
)
    requires
        holds(d, pos, track_body(number, s)),
        d.len() <= MAX_LEN,
        s.codec_id == "opus"@,
        s.extradata == opus_head(version, channels, pre_skip, rest),
    ensures
        ({
            let end = pos + track_body(number, s).len();
            &&& number_in(d, pos, end, ids::CODEC_DELAY) matches Some(ns) && ns * 48_000
                <= pre_skip * 1_000_000_000 < (ns + 1) * 48_000
            &&& number_in(d, pos, end, ids::SEEK_PRE_ROLL) == Some(80_000_000u64)
        }),
{
    reveal_strlit("opus");
    assert(s.extradata.take(8) =~= opus_magic());
    assert(opus_pre_skip(s.extradata) == pre_skip);
    let end = pos + track_body(number, s).len();
    let at = pos + track_start(number, s).len() + track_private(s).len();
    let ns = opus_delay_ns(s.extradata);
    lemma_timing_in(d, pos, number, s, ids::CODEC_DELAY);
    lemma_timing_in(d, pos, number, s, ids::SEEK_PRE_ROLL);
    let x = uint_element(ids::CODEC_DELAY, ns);
    lemma_holds_split(d, at, x, uint_element(ids::SEEK_PRE_ROLL, 80_000_000));
    lemma_number_here(d, at, end, ids::CODEC_DELAY, ns);
    lemma_find_on(d, at, end, ids::SEEK_PRE_ROLL, 0, Piece::Number(ids::CODEC_DELAY, ns));
    lemma_number_here(d, at + x.len(), end, ids::SEEK_PRE_ROLL, 80_000_000);
}

proof fn lemma_find_entry(d: Seq<u8>, pos: int, ss: Seq<MuxStreamView>, j: int, k: int)
    requires
        0 <= j <= k < ss.len(),
        holds(d, pos, entries_from(ss, j)),
        d.len() <= MAX_LEN,
    ensures
        find(
            d,
            pos,
            pos + entries_from(ss, j).len(),
            ids::TRACK_ENTRY,
            (k - j) as nat,
        ) matches Some((a, b)) && holds(d, a, track_body((k + 1) as u64, ss[k])) && b == a
            + track_body((k + 1) as u64, ss[k]).len(),
    decreases k - j,
{
    let body = track_body((j + 1) as u64, ss[j]);
    let e = element(ids::TRACK_ENTRY, body);
    let end = pos + entries_from(ss, j).len();
    lemma_holds_split(d, pos, e, entries_from(ss, j + 1));
    let p = Piece::Bytes(ids::TRACK_ENTRY, body);
    lemma_find_on(d, pos, end, ids::TRACK_ENTRY, (k - j) as nat, p);
    lemma_piece(d, pos, p);
    if j < k {
        lemma_find_entry(d, pos + e.len(), ss, j + 1, k);
    }
}

/// The TrackEntry of a stream is found in the Tracks.
proof fn lemma_find_track(d: Seq<u8>, pos: int, ss: Seq<MuxStreamView>, k: int)
    requires
        0 <= k < ss.len(),
        holds(d, pos, crc_element(track_entries(ss)) + track_entries(ss)),
        d.len() <= MAX_LEN,
    ensures
        find(
            d,
            pos,
            pos + (crc_element(track_entries(ss)) + track_entries(ss)).len(),
            ids::TRACK_ENTRY,
            k as nat,
        ) matches Some((a, b)) && holds(d, a, track_body((k + 1) as u64, ss[k])) && b == a
            + track_body((k + 1) as u64, ss[k]).len(),
{
    let body = track_entries(ss);
    let c = crc_element(body);
    lemma_holds_split(d, pos, c, body);
    let end = pos + c.len() + body.len();
    lemma_find_on(
        d,
        pos,
        end,
        ids::TRACK_ENTRY,
        k as nat,
        Piece::Bytes(ids::CRC32, le_bytes4(crc32(body))),
    );
    lemma_entries_from(ss, 0);
    assert(ss.take(0) =~= Seq::<MuxStreamView>::empty());
    assert(Seq::<u8>::empty() + entries_from(ss, 0) =~= entries_from(ss, 0));
    lemma_find_entry(d, pos + c.len(), ss, 0, k);
}

/// The header of a document with an Opus stream holds a TrackEntry for it, which says how long
/// the samples take that a decoder drops at the start: in nanoseconds, as many as the samples
/// take at 48 kHz. It also asks for 80 ms to be decoded in front of a place to be reached.
#[verifier::rlimit(40)]
pub proof fn lemma_opus_delay(
    doc_type: DocType,
    ss: Seq<MuxStreamView>,
    cs: Seq<MkvChapterView>,
    k: int,
    version: u8,
    channels: u8,
    pre_skip: u16,
    rest: Seq<u8>,
)
    requires
        0 <= k < ss.len(),
        ss[k].codec_id == "opus"@,
        ss[k].extradata == opus_head(version, channels, pre_skip, rest),
        header_of(doc_type, ss, cs).len() <= MAX_LEN,
    ensures
        ({
            let d = header_of(doc_type, ss, cs);
            segment_bounds(d) matches Ok((start, end)) && (find(d, start, end, ids::TRACKS, 0)
                matches Some((a, b)) && (find(d, a, b, ids::TRACK_ENTRY, k as nat) matches Some(
                (x, y),
            ) && (number_in(d, x, y, ids::CODEC_DELAY) matches Some(ns) && ns * 48_000 <= pre_skip
                * 1_000_000_000 < (ns + 1) * 48_000 && number_in(d, x, y, ids::SEEK_PRE_ROLL)
                == Some(80_000_000u64))))
        }),
{
    let d = header_of(doc_type, ss, cs);
    let cues = entry(ids::CUES, 0);
    lemma_entry_len(ids::CUES, 0);
    assert(d.subrange(0, d.len() as int) =~= d);
    lemma_header_parts(d, doc_type, ss, cs, cues);
    lemma_opening_read(d, doc_type);
    let p1 = opening(doc_type).len() as int;
    let p2 = p1 + SEEK_HEAD_TOTAL_LEN;
    let p3 = p2 + info_element().len();
    let end = d.len() as int;
    lemma_find_tracks(d, p1, ss, cs, cues);
    let (a, b) = find(d, p1, end, ids::TRACKS, 0)->0;
    lemma_find_track(d, a, ss, k);
    let (x, y) = find(d, a, b, ids::TRACK_ENTRY, k as nat)->0;
    lemma_track_timing(d, x, (k + 1) as u64, ss[k], version, channels, pre_skip, rest);
}

proof fn lemma_find_tracks(
    d: Seq<u8>,
    p1: int,
    ss: Seq<MuxStreamView>,
    cs: Seq<MkvChapterView>,
    cues: Seq<u8>,
)
    requires
        holds(d, p1, index_of(ss, cs, cues)),
        cues.len() == 21,
        holds(d, p1 + SEEK_HEAD_TOTAL_LEN, info_element()),
        holds(d, p1 + SEEK_HEAD_TOTAL_LEN + info_element().len(), tracks_element(ss)),
        d.len() <= MAX_LEN,
    ensures
        ({
            let all = crc_element(track_entries(ss)) + track_entries(ss);
            find(d, p1, d.len() as int, ids::TRACKS, 0) matches Some((a, b)) && holds(d, a, all)
                && b == a + all.len()
        }),
{
    let end = d.len() as int;
    let p2 = p1 + SEEK_HEAD_TOTAL_LEN;
    let p3 = p2 + info_element().len();
    let at = chapters_position(ss, cs);
    let info_at = tracks_at(info_element());
    assert(holds(
        d,
        p1,
        element(
            ids::SEEK_HEAD,
            seek_head_body(SEEK_HEAD_TOTAL_LEN, info_at, at, cues),
        ),
    )) by {
        reveal(crate::mux::seek_head::seek_head);
    }
    lemma_seek_head_len(SEEK_HEAD_TOTAL_LEN, info_at, at, cues);
    assert(crate::mux::seek_head::seek_head(SEEK_HEAD_TOTAL_LEN, info_at, at, cues) == element(
        ids::SEEK_HEAD,
        seek_head_body(SEEK_HEAD_TOTAL_LEN, info_at, at, cues),
    )) by {
        reveal(crate::mux::seek_head::seek_head);
    }
    lemma_find_on(
        d,
        p1,
        end,
        ids::TRACKS,
        0,
        Piece::Bytes(
            ids::SEEK_HEAD,
            seek_head_body(SEEK_HEAD_TOTAL_LEN, info_at, at, cues),
        ),
    );
    let info = info_body();
    lemma_find_on(
        d,
        p2,
        end,
        ids::TRACKS,
        0,
        Piece::Bytes(ids::INFO, crc_element(info) + info),
    );
    let all = crc_element(track_entries(ss)) + track_entries(ss);
    let p = Piece::Bytes(ids::TRACKS, all);
    lemma_find_on(d, p3, end, ids::TRACKS, 0, p);
    lemma_piece(d, p3, p);
}

} // verus!
