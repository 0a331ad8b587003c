//! Documents that hold given elements in front of their Tracks.

use vstd::prelude::*;
use super::info::{info_pieces, lemma_info_says, spells_date};
use super::pieces::pieces;
use crate::demux::demuxer::{demuxer_of, DemuxerView};
use crate::demux::info::{info_step, InfoView};
use crate::demux::segment::{
    checked, cue_order, document_of, empty_segment, segment_child, segment_walk, DocumentView,
    SegmentView,
};
use crate::demux::tracks::TrackEntryView;
use crate::ebml::{walk, ElementHeader, Float};
use crate::error::MkvError;
use crate::ids;
use crate::mux::header::{opening, track_entries, tracks_element, DocType, MuxStreamView};
use crate::round_trip::elements::{
    header, holds, is_id, lemma_element_read, lemma_header_read, lemma_holds_split, no_nul, MAX_LEN,
};
use crate::round_trip::header::{
    fitting, lemma_opening_read, lemma_segment_step, lemma_tracks_taken,
};
use crate::round_trip::tracks::{codecs_plain, tracks_read};
use crate::sort::stable_sorted;
use crate::write::{element, header_bytes};

verus! {

/// A document: the opening, the element with the given ID and data, the Tracks of the
/// streams `ss`, and a Cluster with what follows.
pub open spec fn document_with(
    doc_type: DocType,
    id: u32,
    body: Seq<u8>,
    ss: Seq<MuxStreamView>,
    rest: Seq<u8>,
) -> Seq<u8> {
    opening(doc_type) + element(id, body) + tracks_element(ss) + header_bytes(
        ids::CLUSTER,
        0xFFFF_FFFF_FFFF_FFFF,
    ) + rest
}

/// What a document opens to, whatever a registry of codecs answers.
pub open spec fn opened(d: Seq<u8>, answers: Seq<Option<Seq<char>>>) -> DemuxerView {
    demuxer_of(d, document_of(d)->Ok_0, answers)
}

/// Where the data of the first element of such a document starts.
pub open spec fn first_body(doc_type: DocType, id: u32, body: Seq<u8>) -> int {
    opening(doc_type).len() + header(id, body.len()).header_len
}

/// Such a document opens, and what its first element adds to an empty Segment is what it
/// opens with.
#[verifier::rlimit(40)]
pub proof fn lemma_document_opens(
    doc_type: DocType,
    id: u32,
    body: Seq<u8>,
    ss: Seq<MuxStreamView>,
    rest: Seq<u8>,
    s: SegmentView,
)
    requires
        document_with(doc_type, id, body, ss, rest).len() <= MAX_LEN,
        is_id(id),
        id != ids::CLUSTER,
        ss.len() > 0,
        codecs_plain(ss),
        s.tracks == Seq::<TrackEntryView>::empty(),
        ({
            let d = document_with(doc_type, id, body, ss, rest);
            let b = first_body(doc_type, id, body);
            segment_child(
                d,
                d.len() as int,
                empty_segment(),
                header(id, body.len()),
                b,
            ) == Ok::<(SegmentView, int), MkvError>((s, b + body.len()))
        }),
    ensures
        ({
            let d = document_with(doc_type, id, body, ss, rest);
            document_of(d) matches Ok(doc) && {
                &&& doc.parts.info == s.info
                &&& doc.parts.tags == s.tags
                &&& doc.parts.editions == s.editions
                &&& doc.parts.attachments == s.attachments
                &&& doc.parts.chapter_uids == s.chapter_uids
                &&& doc.parts.edition_uids == s.edition_uids
                &&& doc.parts.attachment_uids == s.attachment_uids
                &&& doc.parts.tracks == tracks_read(ss)
                &&& s.cues.len() > 0 ==> doc.parts.cues == stable_sorted(s.cues, cue_order())
                &&& doc.data_start == opening(doc_type).len()
            }
        }),
{
    let d = document_with(doc_type, id, body, ss, rest);
    lemma_parts_there(doc_type, id, body, ss, rest);
    lemma_opening_read(d, doc_type);
    let p1 = opening(doc_type).len() as int;
    let p2 = p1 + element(id, body).len();
    lemma_first_taken(d, p1, id, body, s);
    lemma_rest_taken(d, p2, ss, s);
}

#[verifier::rlimit(40)]
proof fn lemma_first_taken(d: Seq<u8>, p1: int, id: u32, body: Seq<u8>, s: SegmentView)
    requires
        holds(d, p1, element(id, body)),
        d.len() <= MAX_LEN,
        is_id(id),
        id != ids::CLUSTER,
        ({
            let h = header(id, body.len());
            let b = p1 + h.header_len;
            segment_child(d, d.len() as int, empty_segment(), h, b) == Ok::<
                (SegmentView, int),
                MkvError,
            >((s, b + body.len()))
        }),
    ensures
        segment_walk(d, p1, d.len() as int, empty_segment()) == segment_walk(
            d,
            p1 + element(id, body).len(),
            d.len() as int,
            s,
        ),
{
    lemma_element_read(d, p1, id, body);
    let h = header(id, body.len());
    lemma_segment_step(
        d,
        p1,
        d.len() as int,
        empty_segment(),
        h,
        s,
        p1 + element(id, body).len(),
    );
}

#[verifier::rlimit(40)]
proof fn lemma_rest_taken(d: Seq<u8>, p2: int, ss: Seq<MuxStreamView>, s: SegmentView)
    requires
        holds(d, p2, tracks_element(ss)),
        holds(
            d,
            p2 + tracks_element(ss).len(),
            header_bytes(ids::CLUSTER, 0xFFFF_FFFF_FFFF_FFFF),
        ),
        d.len() <= MAX_LEN,
        codecs_plain(ss),
        s.tracks == Seq::<TrackEntryView>::empty(),
    ensures
        segment_walk(d, p2, d.len() as int, s) == Ok::<(SegmentView, Option<int>), MkvError>(
            (
                SegmentView {
                    tracks: tracks_read(ss),
                    crc_status: s.crc_status.push(fitting(ids::TRACKS, track_entries(ss))),
                    ..s
                },
                Some(p2 + tracks_element(ss).len()),
            ),
        ),
        tracks_read(ss).len() == ss.len(),
{
    lemma_tracks_taken(d, p2, d.len() as int, s, ss);
    let p3 = p2 + tracks_element(ss).len();
    lemma_header_read(d, p3, ids::CLUSTER, 0xFFFF_FFFF_FFFF_FFFF);
}

proof fn lemma_parts_there(
    doc_type: DocType,
    id: u32,
    body: Seq<u8>,
    ss: Seq<MuxStreamView>,
    rest: Seq<u8>,
)
    ensures
        ({
            let d = document_with(doc_type, id, body, ss, rest);
            let p1 = opening(doc_type).len() as int;
            let p2 = p1 + element(id, body).len();
            &&& holds(d, 0, opening(doc_type))
            &&& holds(d, p1, element(id, body))
            &&& holds(d, p2, tracks_element(ss))
            &&& holds(
                d,
                p2 + tracks_element(ss).len(),
                header_bytes(ids::CLUSTER, 0xFFFF_FFFF_FFFF_FFFF),
            )
        }),
{
    let d = document_with(doc_type, id, body, ss, rest);
    let a = opening(doc_type);
    let e = element(id, body);
    let t = tracks_element(ss);
    let c = header_bytes(ids::CLUSTER, 0xFFFF_FFFF_FFFF_FFFF);
    assert(d.subrange(0, d.len() as int) =~= d);
    lemma_holds_split(d, 0, a + e + t + c, rest);
    lemma_holds_split(d, 0, a + e + t, c);
    lemma_holds_split(d, 0, a + e, t);
    lemma_holds_split(d, 0, a, e);
}

/// A document whose Info has the given children opens to a demuxer with that length of a tick
/// and that duration, and with the title, the programs and the date under their keys.
#[verifier::rlimit(40)]
pub proof fn lemma_info_opens(
    doc_type: DocType,
    ss: Seq<MuxStreamView>,
    rest: Seq<u8>,
    answers: Seq<Option<Seq<char>>>,
    scale: u64,
    duration: u64,
    title: Seq<char>,
    muxer: Seq<char>,
    writer: Seq<char>,
    date: int,
)
    requires
        document_with(
            doc_type,
            ids::INFO,
            pieces(info_pieces(scale, duration, title, muxer, writer, date)),
            ss,
            rest,
        ).len() <= MAX_LEN,
        ss.len() > 0,
        codecs_plain(ss),
        no_nul(title) && title.len() > 0,
        no_nul(muxer) && muxer.len() > 0,
        no_nul(writer) && writer.len() > 0,
        i64::MIN <= date <= i64::MAX,
        0 < scale <= i64::MAX,
    ensures
        ({
            let body = pieces(info_pieces(scale, duration, title, muxer, writer, date));
            let d = document_with(doc_type, ids::INFO, body, ss, rest);
            let m = opened(d, answers);
            &&& document_of(d) is Ok
            &&& m.timecode_scale_ns == scale
            &&& m.layout.time_base.num == scale
            &&& m.layout.time_base.den == 1_000_000_000
            &&& m.duration == Float::Double(duration)
            &&& m.metadata.len() == 4
            &&& m.metadata[0] == ("title"@, title)
            &&& m.metadata[1] == ("muxer"@, muxer)
            &&& m.metadata[2] == ("encoder"@, writer)
            &&& m.metadata[3].0 == "date"@
            &&& spells_date(m.metadata[3].1, date)
        }),
{
    let body = pieces(info_pieces(scale, duration, title, muxer, writer, date));
    let d = document_with(doc_type, ids::INFO, body, ss, rest);
    let b = first_body(doc_type, ids::INFO, body);
    lemma_first_there(doc_type, ids::INFO, body, ss, rest);
    lemma_info_says(d, b, scale, duration, title, muxer, writer, date);
    let i = walk(d, b, b + body.len(), empty_segment().info, info_step(d))->Ok_0.0;
    let s = lemma_info_child(d, d.len() as int, header(ids::INFO, body.len()), b, i);
    lemma_document_opens(doc_type, ids::INFO, body, ss, rest, s);
    lemma_no_tags(d, document_of(d)->Ok_0, answers);
}

/// What an Info adds to an empty Segment.
proof fn lemma_info_child(d: Seq<u8>, end: int, h: ElementHeader, b: int, i: InfoView) -> (r:
    SegmentView)
    requires
        h.id == ids::INFO,
        0 <= b,
        b + h.size <= d.len() <= MAX_LEN,
        walk(d, b, b + h.size, empty_segment().info, info_step(d)) == Ok::<
            (InfoView, int),
            MkvError,
        >((i, b + h.size)),
    ensures
        segment_child(d, end, empty_segment(), h, b) == Ok::<(SegmentView, int), MkvError>(
            (r, b + h.size),
        ),
        r == (SegmentView { info: i, crc_status: r.crc_status, ..empty_segment() }),
{
    reveal(segment_child);
    SegmentView { info: i, crc_status: checked(d, Seq::empty(), h, b), ..empty_segment() }
}

/// A document without tags has the metadata of its other elements alone.
pub proof fn lemma_no_tags(d: Seq<u8>, doc: DocumentView, answers: Seq<Option<Seq<char>>>)
    requires
        doc.parts.tags.len() == 0,
    ensures
        demuxer_of(d, doc, answers).metadata == doc.parts.info.metadata,
        demuxer_of(d, doc, answers).tags.len() == 0,
{
    assert(demuxer_of(d, doc, answers).metadata =~= doc.parts.info.metadata);
}

/// The data of the first element of such a document is where it starts.
pub proof fn lemma_first_there(
    doc_type: DocType,
    id: u32,
    body: Seq<u8>,
    ss: Seq<MuxStreamView>,
    rest: Seq<u8>,
)
    requires
        document_with(doc_type, id, body, ss, rest).len() <= MAX_LEN,
        is_id(id),
    ensures
        holds(document_with(doc_type, id, body, ss, rest), first_body(doc_type, id, body), body),
        header(id, body.len()).size == body.len(),
{
    lemma_parts_there(doc_type, id, body, ss, rest);
    let d = document_with(doc_type, id, body, ss, rest);
    lemma_element_read(d, opening(doc_type).len() as int, id, body);
}

/// A document: the opening, the element with the given ID and data, and a Cluster with what
/// follows.
pub open spec fn bare_document(doc_type: DocType, id: u32, body: Seq<u8>, rest: Seq<u8>) -> Seq<
    u8,
> {
    opening(doc_type) + element(id, body) + header_bytes(ids::CLUSTER, 0xFFFF_FFFF_FFFF_FFFF)
        + rest
}

/// The data of the only element of such a document is where it starts.
pub proof fn lemma_only_there(doc_type: DocType, id: u32, body: Seq<u8>, rest: Seq<u8>)
    requires
        bare_document(doc_type, id, body, rest).len() <= MAX_LEN,
        is_id(id),
    ensures
        ({
            let d = bare_document(doc_type, id, body, rest);
            let p1 = opening(doc_type).len() as int;
            &&& holds(d, 0, opening(doc_type))
            &&& holds(d, p1, element(id, body))
            &&& holds(d, first_body(doc_type, id, body), body)
            &&& holds(
                d,
                p1 + element(id, body).len(),
                header_bytes(ids::CLUSTER, 0xFFFF_FFFF_FFFF_FFFF),
            )
        }),
        header(id, body.len()).size == body.len(),
{
    let d = bare_document(doc_type, id, body, rest);
    let a = opening(doc_type);
    let e = element(id, body);
    let c = header_bytes(ids::CLUSTER, 0xFFFF_FFFF_FFFF_FFFF);
    assert(d.subrange(0, d.len() as int) =~= d);
    lemma_holds_split(d, 0, a + e + c, rest);
    lemma_holds_split(d, 0, a + e, c);
    lemma_holds_split(d, 0, a, e);
    lemma_element_read(d, a.len() as int, id, body);
}

/// Such a document opens to what its element adds to an empty Segment, if that has tracks.
#[verifier::rlimit(40)]
pub proof fn lemma_bare_opens(
    doc_type: DocType,
    id: u32,
    body: Seq<u8>,
    rest: Seq<u8>,
    s: SegmentView,
)
    requires
        bare_document(doc_type, id, body, rest).len() <= MAX_LEN,
        is_id(id),
        id != ids::CLUSTER,
        s.tracks.len() > 0,
        ({
            let d = bare_document(doc_type, id, body, rest);
            let b = first_body(doc_type, id, body);
            segment_child(
                d,
                d.len() as int,
                empty_segment(),
                header(id, body.len()),
                b,
            ) == Ok::<(SegmentView, int), MkvError>((s, b + body.len()))
        }),
    ensures
        document_of(bare_document(doc_type, id, body, rest)) matches Ok(doc) && {
            &&& doc.parts.info == s.info
            &&& doc.parts.tags == s.tags
            &&& doc.parts.tracks == s.tracks
        },
{
    let d = bare_document(doc_type, id, body, rest);
    lemma_only_there(doc_type, id, body, rest);
    lemma_opening_read(d, doc_type);
    let p1 = opening(doc_type).len() as int;
    lemma_first_taken(d, p1, id, body, s);
    lemma_header_read(d, p1 + element(id, body).len(), ids::CLUSTER, 0xFFFF_FFFF_FFFF_FFFF);
}

} // verus!
