//! What was written in front of the first Cluster is read back.

use vstd::prelude::*;
use vstd::utf8::encode_utf8;
use super::chapters::{chapters_plain, lemma_chapters_read, with_chapters};
use super::elements::{
    header, holds, is_id, lemma_crc_read, lemma_element_read, lemma_header_read, lemma_holds_split,
    lemma_id_read, lemma_string_read, lemma_uint_read, lemma_walk_step, no_nul, MAX_LEN,
};
use super::tracks::{codecs_plain, lemma_tracks_read, tracks_read};
use crate::demux::chapters::{read_chapters, ChaptersState};
use crate::demux::crc::{crc_at, CrcStatus};
use crate::demux::info::{info_step, InfoView};
use crate::demux::segment::{
    ebml_header_step, empty_segment, segment_bounds, segment_child, segment_walk, SegmentView,
};
use crate::demux::tracks::TrackEntryView;
use crate::ebml::{crc32, header_at, string_at, uint_at, walk, ElementHeader, Float};
use crate::error::MkvError;
use crate::ids;
use crate::mux::chapters::{chapters_body, MkvChapterView};
use crate::mux::header::{
    chapters_at, chapters_part, ebml_body, header_with, info_body, info_element, opening,
    track_entries, tracks_at, tracks_element, DocType, MuxStreamView,
};
use crate::mux::seek_head::{
    entry, lemma_entry_len, lemma_seek_head_len, seek_head, seek_head_body, SEEK_ENTRY_LEN,
    SEEK_HEAD_TOTAL_LEN,
};
use crate::write::{
    crc_element, crc_master, element, header_bytes, id_bytes, le_bytes4, string_element,
    uint_element, uint_len,
};

verus! {

// ---------------------------------------------------------------------------
// The EBML header and the start of the Segment.

/// A number in the EBML header is passed over.
proof fn lemma_ebml_uint(d: Seq<u8>, pos: int, end: int, s: Seq<char>, id: u32, v: u64)
    requires
        holds(d, pos, uint_element(id, v)),
        pos + uint_element(id, v).len() <= end,
        d.len() <= MAX_LEN,
        id == ids::EBML_VERSION || id == ids::EBML_READ_VERSION || id == ids::EBML_MAX_ID_LENGTH
            || id == ids::EBML_MAX_SIZE_LENGTH || id == ids::EBML_DOC_TYPE_VERSION || id
            == ids::EBML_DOC_TYPE_READ_VERSION,
    ensures
        walk(d, pos, end, s, ebml_header_step(d)) == walk(
            d,
            pos + uint_element(id, v).len(),
            end,
            s,
            ebml_header_step(d),
        ),
{
    lemma_uint_read(d, pos, id, v);
}

/// The document type that was written is read back.
#[verifier::rlimit(60)]
proof fn lemma_ebml_read(d: Seq<u8>, pos: int, doc_type: DocType)
    requires
        holds(d, pos, ebml_body(doc_type)),
        d.len() <= MAX_LEN,
    ensures
        walk(
            d,
            pos,
            pos + ebml_body(doc_type).len(),
            "matroska"@,
            ebml_header_step(d),
        ) == Ok::<(Seq<char>, int), MkvError>(
            (doc_type.name(), pos + ebml_body(doc_type).len()),
        ),
{
    let end = pos + ebml_body(doc_type).len();
    let a = uint_element(ids::EBML_VERSION, 1);
    let b = uint_element(ids::EBML_READ_VERSION, 1);
    let c = uint_element(ids::EBML_MAX_ID_LENGTH, 4);
    let e = uint_element(ids::EBML_MAX_SIZE_LENGTH, 8);
    let f = string_element(ids::EBML_DOC_TYPE, doc_type.name());
    let g = uint_element(ids::EBML_DOC_TYPE_VERSION, 4);
    let i = uint_element(ids::EBML_DOC_TYPE_READ_VERSION, 2);
    lemma_holds_split(d, pos, a + b + c + e + f + g, i);
    lemma_holds_split(d, pos, a + b + c + e + f, g);
    lemma_holds_split(d, pos, a + b + c + e, f);
    lemma_holds_split(d, pos, a + b + c, e);
    lemma_holds_split(d, pos, a + b, c);
    lemma_holds_split(d, pos, a, b);
    let p1 = pos + a.len();
    let p2 = p1 + b.len();
    let p3 = p2 + c.len();
    let p4 = p3 + e.len();
    let p5 = p4 + f.len();
    let p6 = p5 + g.len();
    let m = "matroska"@;
    let n = doc_type.name();
    lemma_ebml_uint(d, pos, end, m, ids::EBML_VERSION, 1);
    lemma_ebml_uint(d, p1, end, m, ids::EBML_READ_VERSION, 1);
    lemma_ebml_uint(d, p2, end, m, ids::EBML_MAX_ID_LENGTH, 4);
    lemma_ebml_uint(d, p3, end, m, ids::EBML_MAX_SIZE_LENGTH, 8);
    reveal_strlit("matroska");
    reveal_strlit("webm");
    assert(no_nul(n));
    lemma_string_read(d, p4, ids::EBML_DOC_TYPE, n);
    lemma_walk_step(
        d,
        p4,
        end,
        m,
        ebml_header_step(d),
        header(ids::EBML_DOC_TYPE, encode_utf8(n).len()),
        n,
        p5,
    );
    lemma_ebml_uint(d, p5, end, n, ids::EBML_DOC_TYPE_VERSION, 4);
    lemma_ebml_uint(d, p6, end, n, ids::EBML_DOC_TYPE_READ_VERSION, 2);
}

/// The start of the Segment that was written is found, and it goes on to the end of the
/// document.
pub proof fn lemma_opening_read(d: Seq<u8>, doc_type: DocType)
    requires
        holds(d, 0, opening(doc_type)),
        d.len() <= MAX_LEN,
    ensures
        segment_bounds(d) == Ok::<(int, int), MkvError>(
            (opening(doc_type).len() as int, d.len() as int),
        ),
{
    let body = ebml_body(doc_type);
    let a = element(ids::EBML_HEADER, body);
    let n: nat = 0xFFFF_FFFF_FFFF_FFFF;
    assert(opening(doc_type) =~= a + header_bytes(ids::SEGMENT, n));
    lemma_holds_split(d, 0, a, header_bytes(ids::SEGMENT, n));
    lemma_element_read(d, 0, ids::EBML_HEADER, body);
    lemma_ebml_read(d, header(ids::EBML_HEADER, body.len()).header_len as int, doc_type);
    lemma_header_read(d, a.len() as int, ids::SEGMENT, n);
}

// ---------------------------------------------------------------------------
// The Info.

/// What is read of the Info that was written.
pub open spec fn info_read() -> InfoView {
    InfoView {
        timecode_scale: 1_000_000,
        duration: Float::Double(0),
        metadata: seq![("muxer"@, "oxideav"@), ("encoder"@, "oxideav"@)],
    }
}

/// What the children of the Info that are written add.
proof fn lemma_info_steps(
    d: Seq<u8>,
    s: InfoView,
    h: ElementHeader,
    b: int,
    v: u64,
    text: Seq<char>,
)
    requires
        0 <= b,
        b + h.size <= MAX_LEN,
    ensures
        h.id == ids::CRC32 ==> info_step(d)(s, h, b) == Ok::<(InfoView, int), MkvError>(
            (s, b + h.size),
        ),
        h.id == ids::TIMECODE_SCALE && uint_at(d, b, h.size) == Ok::<u64, MkvError>(v)
            ==> info_step(d)(s, h, b) == Ok::<(InfoView, int), MkvError>(
            (InfoView { timecode_scale: v, ..s }, b + h.size),
        ),
        h.id == ids::MUXING_APP && text.len() > 0 && string_at(d, b, h.size) == Ok::<
            Seq<char>,
            MkvError,
        >(text) ==> info_step(d)(s, h, b) == Ok::<(InfoView, int), MkvError>(
            (InfoView { metadata: s.metadata.push(("muxer"@, text)), ..s }, b + h.size),
        ),
        h.id == ids::WRITING_APP && text.len() > 0 && string_at(d, b, h.size) == Ok::<
            Seq<char>,
            MkvError,
        >(text) ==> info_step(d)(s, h, b) == Ok::<(InfoView, int), MkvError>(
            (InfoView { metadata: s.metadata.push(("encoder"@, text)), ..s }, b + h.size),
        ),
{
}

/// The children of the Info that was written are read back.
proof fn lemma_info_body_read(d: Seq<u8>, pos: int)
    requires
        holds(d, pos, info_body()),
        d.len() <= MAX_LEN,
    ensures
        walk(d, pos, pos + info_body().len(), empty_segment().info, info_step(d)) == Ok::<
            (InfoView, int),
            MkvError,
        >((info_read(), pos + info_body().len())),
{
    let end = pos + info_body().len();
    let step = info_step(d);
    let app = "oxideav"@;
    let a = uint_element(ids::TIMECODE_SCALE, 1_000_000);
    let b = string_element(ids::MUXING_APP, app);
    let c = string_element(ids::WRITING_APP, app);
    lemma_holds_split(d, pos, a + b, c);
    lemma_holds_split(d, pos, a, b);
    let p1 = pos + a.len();
    let p2 = p1 + b.len();
    let s0 = empty_segment().info;
    let s1 = InfoView { timecode_scale: 1_000_000, ..s0 };
    let s2 = InfoView { metadata: s1.metadata.push(("muxer"@, app)), ..s1 };
    let s3 = InfoView { metadata: s2.metadata.push(("encoder"@, app)), ..s2 };
    reveal_strlit("oxideav");
    assert(walk(d, pos, end, s0, step) == walk(d, p1, end, s1, step)) by {
        lemma_uint_read(d, pos, ids::TIMECODE_SCALE, 1_000_000);
        let h = header(ids::TIMECODE_SCALE, uint_len(1_000_000));
        lemma_info_steps(d, s0, h, pos + h.header_len, 1_000_000, app);
    }
    assert(walk(d, p1, end, s1, step) == walk(d, p2, end, s2, step)) by {
        lemma_string_read(d, p1, ids::MUXING_APP, app);
        let h = header(ids::MUXING_APP, encode_utf8(app).len());
        lemma_info_steps(d, s1, h, p1 + h.header_len, 0, app);
        lemma_walk_step(d, p1, end, s1, step, h, s2, p2);
    }
    assert(walk(d, p2, end, s2, step) == walk(d, end, end, s3, step)) by {
        lemma_string_read(d, p2, ids::WRITING_APP, app);
        let h = header(ids::WRITING_APP, encode_utf8(app).len());
        lemma_info_steps(d, s2, h, p2 + h.header_len, 0, app);
        lemma_walk_step(d, p2, end, s2, step, h, s3, end);
    }
    assert(s3.metadata =~= info_read().metadata);
}

/// The Info that was written is read back, behind the checksum.
proof fn lemma_info_read(d: Seq<u8>, pos: int)
    requires
        holds(d, pos, crc_element(info_body()) + info_body()),
        d.len() <= MAX_LEN,
    ensures
        walk(d, pos, pos + 6 + info_body().len(), empty_segment().info, info_step(d)) == Ok::<
            (InfoView, int),
            MkvError,
        >((info_read(), pos + 6 + info_body().len())),
{
    let body = info_body();
    let end = pos + 6 + body.len();
    lemma_crc_read(d, pos, ids::INFO, body);
    lemma_holds_split(d, pos, crc_element(body), body);
    lemma_element_read(d, pos, ids::CRC32, le_bytes4(crc32(body)));
    let h = header(ids::CRC32, 4);
    let s0 = empty_segment().info;
    lemma_info_steps(d, s0, h, pos + h.header_len, 0, Seq::empty());
    lemma_walk_step(d, pos, end, s0, info_step(d), h, s0, pos + 6);
    lemma_info_body_read(d, pos + 6);
}

// ---------------------------------------------------------------------------
// The children of the Segment.

/// A checksum that fits.
pub open spec fn fitting(id: u32, body: Seq<u8>) -> CrcStatus {
    CrcStatus { element_id: id, stored: crc32(body), computed: crc32(body) }
}

/// A walk over the Segment goes on behind a child that is no Cluster.
pub proof fn lemma_segment_step(
    d: Seq<u8>,
    pos: int,
    end: int,
    s: SegmentView,
    h: ElementHeader,
    t: SegmentView,
    next: int,
)
    requires
        0 <= pos < end,
        header_at(d, pos) == Ok::<ElementHeader, MkvError>(h),
        h.id != ids::CLUSTER,
        segment_child(d, end, s, h, pos + h.header_len) == Ok::<(SegmentView, int), MkvError>(
            (t, next),
        ),
        next >= pos + h.header_len,
    ensures
        segment_walk(d, pos, end, s) == segment_walk(d, next, end, t),
{
}

/// The index is passed over.
proof fn lemma_seek_head_passed(
    d: Seq<u8>,
    pos: int,
    end: int,
    s: SegmentView,
    info: u64,
    tracks: u64,
    chapters: Option<u64>,
    cues: Seq<u8>,
)
    requires
        holds(d, pos, seek_head(info, tracks, chapters, cues)),
        pos + SEEK_HEAD_TOTAL_LEN <= end,
        cues.len() == SEEK_ENTRY_LEN,
        d.len() <= MAX_LEN,
    ensures
        segment_walk(d, pos, end, s) == segment_walk(d, pos + SEEK_HEAD_TOTAL_LEN, end, s),
{
    reveal(seek_head);
    lemma_seek_head_len(info, tracks, chapters, cues);
    let body = seek_head_body(info, tracks, chapters, cues);
    lemma_element_read(d, pos, ids::SEEK_HEAD, body);
    let h = header(ids::SEEK_HEAD, body.len());
    let b = pos + h.header_len;
    let first = entry(ids::INFO, info);
    lemma_entry_len(ids::INFO, info);
    assert(crc_at(d, ids::SEEK_HEAD, b, b + h.size) is None) by {
        let sub = d.subrange(b, b + h.size);
        assert(sub == body);
        reveal(element);
        assert(holds(body, 0, id_bytes(ids::SEEK))) by {
            crate::ebml::lemma_be_bytes_len(ids::SEEK as nat, 2);
            assert(body.subrange(0, 2) =~= id_bytes(ids::SEEK));
        }
        lemma_id_read(body, 0, ids::SEEK);
    }
    assert(segment_child(d, end, s, h, b) == Ok::<(SegmentView, int), MkvError>(
        (s, pos + SEEK_HEAD_TOTAL_LEN),
    )) by {
        reveal(segment_child);
    }
    lemma_segment_step(d, pos, end, s, h, s, pos + SEEK_HEAD_TOTAL_LEN);
}

/// The Info is taken in.
proof fn lemma_info_taken(d: Seq<u8>, pos: int, end: int, s: SegmentView)
    requires
        holds(d, pos, info_element()),
        pos + info_element().len() <= end,
        d.len() <= MAX_LEN,
        s.info == empty_segment().info,
    ensures
        segment_walk(d, pos, end, s) == segment_walk(
            d,
            pos + info_element().len(),
            end,
            SegmentView {
                info: info_read(),
                crc_status: s.crc_status.push(fitting(ids::INFO, info_body())),
                ..s
            },
        ),
{
    let all = crc_element(info_body()) + info_body();
    lemma_element_read(d, pos, ids::INFO, all);
    let h = header(ids::INFO, all.len());
    let b = pos + h.header_len;
    lemma_crc_read(d, b, ids::INFO, info_body());
    lemma_info_read(d, b);
    let t = SegmentView {
        info: info_read(),
        crc_status: s.crc_status.push(fitting(ids::INFO, info_body())),
        ..s
    };
    assert(segment_child(d, end, s, h, b) == Ok::<(SegmentView, int), MkvError>(
        (t, pos + info_element().len()),
    )) by {
        reveal(segment_child);
    }
    lemma_segment_step(d, pos, end, s, h, t, pos + info_element().len());
}

/// The Tracks are taken in.
pub proof fn lemma_tracks_taken(
    d: Seq<u8>,
    pos: int,
    end: int,
    s: SegmentView,
    ss: Seq<MuxStreamView>,
)
    requires
        holds(d, pos, tracks_element(ss)),
        pos + tracks_element(ss).len() <= end,
        d.len() <= MAX_LEN,
        s.tracks == Seq::<TrackEntryView>::empty(),
        codecs_plain(ss),
    ensures
        segment_walk(d, pos, end, s) == segment_walk(
            d,
            pos + tracks_element(ss).len(),
            end,
            SegmentView {
                tracks: tracks_read(ss),
                crc_status: s.crc_status.push(fitting(ids::TRACKS, track_entries(ss))),
                ..s
            },
        ),
{
    let body = track_entries(ss);
    let all = crc_element(body) + body;
    lemma_element_read(d, pos, ids::TRACKS, all);
    let h = header(ids::TRACKS, all.len());
    let b = pos + h.header_len;
    lemma_crc_read(d, b, ids::TRACKS, body);
    lemma_tracks_read(d, b, ss);
    let t = SegmentView {
        tracks: tracks_read(ss),
        crc_status: s.crc_status.push(fitting(ids::TRACKS, body)),
        ..s
    };
    assert(segment_child(d, end, s, h, b) == Ok::<(SegmentView, int), MkvError>(
        (t, pos + tracks_element(ss).len()),
    )) by {
        reveal(segment_child);
    }
    lemma_segment_step(d, pos, end, s, h, t, pos + tracks_element(ss).len());
}

/// What the chapters that were written add to a Segment.
pub open spec fn with_written_chapters(s: SegmentView, cs: Seq<MkvChapterView>) -> SegmentView {
    if cs.len() == 0 {
        s
    } else {
        let c = with_chapters(
            ChaptersState {
                editions: s.editions,
                metadata: s.info.metadata,
                chapter_uids: s.chapter_uids,
                edition_uids: s.edition_uids,
            },
            cs,
        );
        SegmentView {
            editions: c.editions,
            info: InfoView { metadata: c.metadata, ..s.info },
            chapter_uids: c.chapter_uids,
            edition_uids: c.edition_uids,
            crc_status: s.crc_status.push(fitting(ids::CHAPTERS, chapters_body(cs))),
            ..s
        }
    }
}

/// What the Chapters add to a Segment.
proof fn lemma_chapters_child(
    d: Seq<u8>,
    end: int,
    s: SegmentView,
    h: ElementHeader,
    b: int,
    cs: Seq<MkvChapterView>,
)
    requires
        cs.len() > 0,
        holds(d, b, crc_element(chapters_body(cs)) + chapters_body(cs)),
        h.id == ids::CHAPTERS,
        h.size == 6 + chapters_body(cs).len(),
        d.len() <= MAX_LEN,
        chapters_plain(cs),
        cs.len() <= MAX_LEN,
    ensures
        segment_child(d, end, s, h, b) == Ok::<(SegmentView, int), MkvError>(
            (with_written_chapters(s, cs), b + h.size),
        ),
{
    let body = chapters_body(cs);
    lemma_crc_read(d, b, ids::CHAPTERS, body);
    let c = ChaptersState {
        editions: s.editions,
        metadata: s.info.metadata,
        chapter_uids: s.chapter_uids,
        edition_uids: s.edition_uids,
    };
    lemma_chapters_read(d, b, c, cs);
    let t = with_chapters(c, cs);
    assert(read_chapters(d, b, b + h.size, c) == Ok::<(ChaptersState, int), MkvError>(
        (t, b + h.size),
    ));
    reveal(segment_child);
}

/// The Chapters are taken in.
proof fn lemma_chapters_taken(
    d: Seq<u8>,
    pos: int,
    end: int,
    s: SegmentView,
    cs: Seq<MkvChapterView>,
)
    requires
        cs.len() > 0,
        holds(d, pos, crc_master(ids::CHAPTERS, chapters_body(cs))),
        pos + crc_master(ids::CHAPTERS, chapters_body(cs)).len() <= end,
        d.len() <= MAX_LEN,
        chapters_plain(cs),
        cs.len() <= MAX_LEN,
    ensures
        segment_walk(d, pos, end, s) == segment_walk(
            d,
            pos + crc_master(ids::CHAPTERS, chapters_body(cs)).len(),
            end,
            with_written_chapters(s, cs),
        ),
{
    let body = chapters_body(cs);
    let all = crc_element(body) + body;
    lemma_element_read(d, pos, ids::CHAPTERS, all);
    let h = header(ids::CHAPTERS, all.len());
    lemma_crc_read(d, pos + h.header_len, ids::CHAPTERS, body);
    lemma_chapters_child(d, end, s, h, pos + h.header_len, cs);
    lemma_segment_step(
        d,
        pos,
        end,
        s,
        h,
        with_written_chapters(s, cs),
        pos + crc_master(ids::CHAPTERS, body).len(),
    );
}

/// What is read of a Segment that was written, up to its first Cluster.
pub open spec fn segment_read(ss: Seq<MuxStreamView>, cs: Seq<MkvChapterView>) -> SegmentView {
    with_written_chapters(
        SegmentView {
            info: info_read(),
            tracks: tracks_read(ss),
            crc_status: seq![
                fitting(ids::INFO, info_body()),
                fitting(ids::TRACKS, track_entries(ss)),
            ],
            ..empty_segment()
        },
        cs,
    )
}

/// The Chapters of the header, or nothing.
pub open spec fn tail_of(cs: Seq<MkvChapterView>) -> Seq<u8> {
    match chapters_part(cs) {
        Some(x) => x,
        None => Seq::empty(),
    }
}

/// The index of the header.
pub open spec fn index_of(
    ss: Seq<MuxStreamView>,
    cs: Seq<MkvChapterView>,
    cues: Seq<u8>,
) -> Seq<u8> {
    seek_head(
        SEEK_HEAD_TOTAL_LEN,
        tracks_at(info_element()),
        chapters_position(ss, cs),
        cues,
    )
}

/// Where the Chapters start in the Segment, if there are any.
pub open spec fn chapters_position(ss: Seq<MuxStreamView>, cs: Seq<MkvChapterView>) -> Option<u64> {
    chapters_at(info_element(), tracks_element(ss), chapters_part(cs))
}

/// The parts of the header are there, one after the other.
pub proof fn lemma_header_parts(
    d: Seq<u8>,
    doc_type: DocType,
    ss: Seq<MuxStreamView>,
    cs: Seq<MkvChapterView>,
    cues: Seq<u8>,
)
    requires
        holds(d, 0, header_with(doc_type, ss, cs, cues)),
        cues.len() == SEEK_ENTRY_LEN,
    ensures
        ({
            let p1 = opening(doc_type).len() as int;
            let p2 = p1 + SEEK_HEAD_TOTAL_LEN;
            let p3 = p2 + info_element().len();
            let p4 = p3 + tracks_element(ss).len();
            &&& holds(d, 0, opening(doc_type))
            &&& holds(d, p1, index_of(ss, cs, cues))
            &&& holds(d, p2, info_element())
            &&& holds(d, p3, tracks_element(ss))
            &&& holds(d, p4, tail_of(cs))
            &&& header_with(doc_type, ss, cs, cues).len() == p4 + tail_of(cs).len()
        }),
{
    let a = opening(doc_type);
    let b = index_of(ss, cs, cues);
    let c = info_element();
    let e = tracks_element(ss);
    let f = tail_of(cs);
    assert(header_with(doc_type, ss, cs, cues) == a + b + c + e + f);
    lemma_holds_split(d, 0, a + b + c + e, f);
    lemma_holds_split(d, 0, a + b + c, e);
    lemma_holds_split(d, 0, a + b, c);
    lemma_holds_split(d, 0, a, b);
    lemma_seek_head_len(
        SEEK_HEAD_TOTAL_LEN,
        tracks_at(c),
        chapters_at(c, e, chapters_part(cs)),
        cues,
    );
}

/// What was written in front of the first Cluster is read back: a document that starts
/// with it is a Segment without an end of its own, with the streams, the chapters and
/// the checksums that were written.
pub proof fn lemma_header_read_back(
    d: Seq<u8>,
    doc_type: DocType,
    ss: Seq<MuxStreamView>,
    cs: Seq<MkvChapterView>,
    cues: Seq<u8>,
)
    requires
        holds(d, 0, header_with(doc_type, ss, cs, cues)),
        d.len() <= MAX_LEN,
        cs.len() <= MAX_LEN,
        cues.len() == SEEK_ENTRY_LEN,
        codecs_plain(ss),
        chapters_plain(cs),
    ensures
        segment_bounds(d) == Ok::<(int, int), MkvError>(
            (opening(doc_type).len() as int, d.len() as int),
        ),
        segment_walk(
            d,
            opening(doc_type).len() as int,
            d.len() as int,
            empty_segment(),
        ) == segment_walk(
            d,
            header_with(doc_type, ss, cs, cues).len() as int,
            d.len() as int,
            segment_read(ss, cs),
        ),
{
    lemma_header_parts(d, doc_type, ss, cs, cues);
    lemma_opening_read(d, doc_type);
    lemma_segment_read(d, opening(doc_type).len() as int, ss, cs, cues);
}

/// What was written behind the start of the Segment is read back.
proof fn lemma_segment_read(
    d: Seq<u8>,
    p1: int,
    ss: Seq<MuxStreamView>,
    cs: Seq<MkvChapterView>,
    cues: Seq<u8>,
)
    requires
        holds(d, p1, index_of(ss, cs, cues)),
        holds(d, p1 + SEEK_HEAD_TOTAL_LEN, info_element()),
        holds(d, p1 + SEEK_HEAD_TOTAL_LEN + info_element().len(), tracks_element(ss)),
        holds(
            d,
            p1 + SEEK_HEAD_TOTAL_LEN + info_element().len() + tracks_element(ss).len(),
            tail_of(cs),
        ),
        d.len() <= MAX_LEN,
        cs.len() <= MAX_LEN,
        cues.len() == SEEK_ENTRY_LEN,
        codecs_plain(ss),
        chapters_plain(cs),
    ensures
        segment_walk(d, p1, d.len() as int, empty_segment()) == segment_walk(
            d,
            p1 + SEEK_HEAD_TOTAL_LEN + info_element().len() + tracks_element(ss).len() + tail_of(
                cs,
            ).len(),
            d.len() as int,
            segment_read(ss, cs),
        ),
{
    let end = d.len() as int;
    let c = info_element();
    let e = tracks_element(ss);
    let p2 = p1 + SEEK_HEAD_TOTAL_LEN;
    let p3 = p2 + c.len();
    let p4 = p3 + e.len();
    let s0 = empty_segment();
    lemma_seek_head_passed(
        d,
        p1,
        end,
        s0,
        SEEK_HEAD_TOTAL_LEN,
        tracks_at(c),
        chapters_at(c, e, chapters_part(cs)),
        cues,
    );
    lemma_info_taken(d, p2, end, s0);
    let s1 = SegmentView {
        info: info_read(),
        crc_status: s0.crc_status.push(fitting(ids::INFO, info_body())),
        ..s0
    };
    lemma_tracks_taken(d, p3, end, s1, ss);
    let s2 = SegmentView {
        tracks: tracks_read(ss),
        crc_status: s1.crc_status.push(fitting(ids::TRACKS, track_entries(ss))),
        ..s1
    };
    if cs.len() > 0 {
        lemma_chapters_taken(d, p4, end, s2, cs);
    }
    assert(s2.crc_status =~= seq![
        fitting(ids::INFO, info_body()),
        fitting(ids::TRACKS, track_entries(ss)),
    ]);
    assert(with_written_chapters(s2, cs) == segment_read(ss, cs));
}

/// Whether the document `d` has an element with the given ID at `pos`.
pub open spec fn is_at(d: Seq<u8>, pos: int, id: u32) -> bool {
    header_at(d, pos) matches Ok(h) && h.id == id
}

/// An element that was written with a checksum is there.
pub proof fn lemma_master_at(d: Seq<u8>, pos: int, id: u32, body: Seq<u8>)
    requires
        holds(d, pos, crc_master(id, body)),
        is_id(id),
        d.len() <= MAX_LEN,
    ensures
        is_at(d, pos, id),
{
    lemma_element_read(d, pos, id, crc_element(body) + body);
}

/// The Info, the Tracks and the Chapters are where the entries of the index say.
pub proof fn lemma_header_points(
    d: Seq<u8>,
    doc_type: DocType,
    ss: Seq<MuxStreamView>,
    cs: Seq<MkvChapterView>,
    cues: Seq<u8>,
)
    requires
        holds(d, 0, header_with(doc_type, ss, cs, cues)),
        d.len() <= MAX_LEN,
        cues.len() == SEEK_ENTRY_LEN,
    ensures
        ({
            let start = opening(doc_type).len() as int;
            &&& holds(d, start, index_of(ss, cs, cues))
            &&& is_at(d, start + SEEK_HEAD_TOTAL_LEN, ids::INFO)
            &&& is_at(d, start + tracks_at(info_element()), ids::TRACKS)
            &&& chapters_position(ss, cs) matches Some(p) ==> is_at(d, start + p, ids::CHAPTERS)
        }),
{
    lemma_header_parts(d, doc_type, ss, cs, cues);
    let p2 = opening(doc_type).len() + SEEK_HEAD_TOTAL_LEN;
    let p3 = p2 + info_element().len();
    lemma_master_at(d, p2, ids::INFO, info_body());
    lemma_master_at(d, p3, ids::TRACKS, track_entries(ss));
    if cs.len() > 0 {
        lemma_master_at(d, p3 + tracks_element(ss).len(), ids::CHAPTERS, chapters_body(cs));
    }
}

} // verus!
