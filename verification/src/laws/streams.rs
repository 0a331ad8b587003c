//! What a document opens to whose Tracks hold given tracks.

use vstd::prelude::*;
use super::document::{bare_document, first_body, lemma_bare_opens, lemma_only_there, opened};
use super::pieces::{lemma_pieces_read, pieces, there, Piece};
use super::tracks::{compressed, entry_of, lemma_entry_says, EntryFacts};
use super::video::lemma_video_parts;
use crate::demux::demuxer::{demuxer_of, segment_time_base};
use crate::demux::encodings::{stripped_by, stripped_bytes, ContentEncodingView};
use crate::demux::operation::{lemma_track_plane_type_round_trip, TrackPlaneType, TrackRef};
use crate::demux::segment::{
    checked, document_of, empty_segment, segment_child, DocumentView, SegmentView,
};
use crate::demux::streams::{facts_of, index_by_number, index_by_uid, query_of, TrackFacts};
use crate::demux::tracks::{tracks_step, TrackEntryView};
use crate::demux::video::{
    lemma_alpha_mode_round_trip, lemma_display_unit_round_trip, lemma_flag_interlaced_round_trip,
    lemma_stereo_mode_round_trip, AlphaMode, DisplayUnit, FlagInterlaced, StereoMode,
};
use crate::ebml::Float;
use crate::error::MkvError;
use crate::ids;
use crate::mux::header::{DocType, MuxStreamView};
use crate::round_trip::elements::{header, holds, MAX_LEN};
use crate::round_trip::tracks::track_read;
use crate::stream::{MediaType, StreamInfoView};

verus! {

/// The Tracks with one track.
pub open spec fn tracks_pieces(f: EntryFacts) -> Seq<Piece> {
    seq![Piece::Bytes(ids::TRACK_ENTRY, pieces(f.pieces()))]
}

#[verifier::rlimit(40)]
proof fn lemma_tracks_child(d: Seq<u8>, end: int, f: EntryFacts, b: int) -> (r: SegmentView)
    requires
        f.plain(),
        holds(d, b, pieces(tracks_pieces(f))),
        d.len() <= MAX_LEN,
    ensures
        ({
            let h = header(ids::TRACKS, pieces(tracks_pieces(f)).len());
            segment_child(d, end, empty_segment(), h, b) == Ok::<(SegmentView, int), MkvError>(
                (r, b + h.size),
            )
        }),
        r == (SegmentView {
            tracks: seq![entry_of(f)],
            crc_status: r.crc_status,
            ..empty_segment()
        }),
{
    let ps = tracks_pieces(f);
    let step = tracks_step(d);
    let s0 = Seq::<TrackEntryView>::empty();
    let states = seq![s0, s0.push(entry_of(f))];
    assert forall|i: int, q: int|
        0 <= i < ps.len() && #[trigger] there(d, ps[i], q) implies step(
        states[i],
        ps[i].header(),
        q,
    ) == Ok::<(Seq<TrackEntryView>, int), MkvError>((states[i + 1], q + ps[i].header().size)) by {
        lemma_entry_says(d, q, f);
    }
    lemma_pieces_read(d, b, ps, states, step);
    assert(states[1] =~= seq![entry_of(f)]);
    let h = header(ids::TRACKS, pieces(ps).len());
    reveal(segment_child);
    SegmentView {
        tracks: seq![entry_of(f)],
        crc_status: checked(d, Seq::empty(), h, b),
        ..empty_segment()
    }
}

/// A document with one track.
pub open spec fn document_of_track(doc_type: DocType, f: EntryFacts, rest: Seq<u8>) -> Seq<u8> {
    bare_document(doc_type, ids::TRACKS, pieces(tracks_pieces(f)), rest)
}

#[verifier::rlimit(40)]
proof fn lemma_track_document(doc_type: DocType, f: EntryFacts, rest: Seq<u8>)
    requires
        document_of_track(doc_type, f, rest).len() <= MAX_LEN,
        f.plain(),
    ensures
        document_of(document_of_track(doc_type, f, rest)) matches Ok(doc) && doc.parts.tracks
            == seq![entry_of(f)] && doc.parts.info == empty_segment().info && doc.parts.tags
            == empty_segment().tags,
{
    let d = document_of_track(doc_type, f, rest);
    let body = pieces(tracks_pieces(f));
    lemma_only_there(doc_type, ids::TRACKS, body, rest);
    let b = first_body(doc_type, ids::TRACKS, body);
    let s = lemma_tracks_child(d, d.len() as int, f, b);
    lemma_bare_opens(doc_type, ids::TRACKS, body, rest, s);
}

/// Whether the stream `s` is the one that the track `f` is meant to be.
pub open spec fn is_stream(f: EntryFacts, s: StreamInfoView) -> bool {
    &&& s.index == 0
    &&& s.language == Some(f.language)
    &&& s.duration is None
    &&& s.time_base.num == 1_000_000
    &&& s.time_base.den == 1_000_000_000
    &&& (s.media_type == MediaType::Video <==> f.kind == 1)
    &&& (s.media_type == MediaType::Audio <==> f.kind == 2)
    &&& (s.media_type == MediaType::Subtitle <==> f.kind == 17)
    &&& (s.media_type == MediaType::Data <==> f.kind != 1 && f.kind != 2 && f.kind != 17)
    &&& (f.kind == 1 && f.video.width <= u32::MAX ==> s.width is Some && s.width->0
        == f.video.width)
    &&& (f.kind == 1 && f.video.height <= u32::MAX ==> s.height is Some && s.height->0
        == f.video.height)
    &&& (f.kind == 2 ==> s.sample_rate == Some(Float::Double(f.audio.rate)))
    &&& (f.kind == 2 && f.audio.channels <= u16::MAX ==> s.channels is Some && s.channels->0
        == f.audio.channels)
    &&& (f.kind != 1 ==> s.width is None && s.height is None)
    &&& (f.kind != 2 ==> s.sample_rate is None && s.channels is None && s.sample_format is None)
}

/// Whether `shown` is the size to show a picture at that is `size` pixels long and from which
/// `a` and `b` are cropped, where `given` is written as that size.
pub open spec fn is_display_size(
    shown: Option<u64>,
    given: u64,
    unit: u64,
    size: u64,
    a: u64,
    b: u64,
) -> bool {
    &&& (given != 0 ==> shown == Some(given))
    &&& (given == 0 && unit == 0 && a + b <= size ==> shown is Some && shown->0 + a + b == size)
    &&& (given == 0 && (unit != 0 || a + b > size) ==> shown is None)
}

/// Whether `t` is what the track `f` says beside its stream.
pub open spec fn are_facts(f: EntryFacts, t: TrackFacts) -> bool {
    let v = f.video;
    let g = t.video_geometry->0;
    let o = t.track_operation->0;
    let e = t.content_encodings->0;
    let m = t.block_addition_mappings;
    &&& t.video_interlacing is Some
    &&& t.video_interlacing->0.flag.raw() == v.interlaced
    &&& t.video_interlacing->0.field_order_raw == v.field_order
    &&& t.video_geometry is Some
    &&& g.pixel_crop_top == v.crop_top
    &&& g.pixel_crop_bottom == v.crop_bottom
    &&& g.pixel_crop_left == v.crop_left
    &&& g.pixel_crop_right == v.crop_right
    &&& g.display_unit.raw() == v.display_unit
    &&& is_display_size(
        g.display_width,
        v.display_width,
        v.display_unit,
        v.width,
        v.crop_left,
        v.crop_right,
    )
    &&& is_display_size(
        g.display_height,
        v.display_height,
        v.display_unit,
        v.height,
        v.crop_top,
        v.crop_bottom,
    )
    &&& t.video_colour is Some
    &&& v.colour.is_read_as(t.video_colour->0)
    &&& t.video_stereo_mode is Some
    &&& t.video_stereo_mode->0.raw() == v.stereo
    &&& t.video_projection is Some
    &&& v.projection.is_read_as(t.video_projection->0)
    &&& t.video_alpha_mode is Some
    &&& t.video_alpha_mode->0.raw() == v.alpha
    &&& t.video_aspect_ratio_type == Some(v.aspect)
    &&& t.video_uncompressed_fourcc == Some(v.fourcc)
    &&& m.len() == 1
    &&& m[0].value == Some(f.mapping.value)
    &&& m[0].name == Some(f.mapping.name)
    &&& m[0].addid_type == f.mapping.kind
    &&& m[0].extra_data == Some(f.mapping.extra)
    &&& t.content_encodings is Some
    &&& e.len() == 1
    &&& e[0].order == f.order
    &&& e[0].scope.0 == f.scope
    &&& (f.compression.algo == 3 && f.scope % 2 == 1 ==> t.header_strip_prefix
        == f.compression.settings)
    &&& (f.compression.algo != 3 || f.scope % 2 == 0 ==> t.header_strip_prefix.len() == 0)
    &&& t.track_operation is Some
    &&& o.planes.len() == 1
    &&& refers_to(o.planes[0].track, f.plane_uid, f.uid)
    &&& o.planes[0].plane_type.raw() == f.plane_kind
    &&& o.join_tracks.len() == 1
    &&& refers_to(o.join_tracks[0], f.join_uid, f.uid)
}

/// Whether `r` refers to the track with UID `uid`, where the first stream, and no other, has
/// the UID `first`.
pub open spec fn refers_to(r: TrackRef, uid: u64, first: u64) -> bool {
    &&& r.track_uid == uid
    &&& (uid == first ==> r.stream_index == Some(0u32))
    &&& (uid != first ==> r.stream_index is None)
}

/// A document with one track opens to one stream, and all that the track says of it is as its
/// writer meant it: what kind it is, its language, its size and how it is shown, its colours,
/// its projection, its sound, how its frames were encoded, and which tracks it is made of.
#[verifier::rlimit(40)]
pub proof fn lemma_track_opens(
    doc_type: DocType,
    f: EntryFacts,
    rest: Seq<u8>,
    answers: Seq<Option<Seq<char>>>,
)
    requires
        document_of_track(doc_type, f, rest).len() <= MAX_LEN,
        f.plain(),
    ensures
        ({
            let d = document_of_track(doc_type, f, rest);
            let m = opened(d, answers);
            &&& document_of(d) is Ok
            &&& m.streams.len() == 1
            &&& m.track_numbers.len() == 1
            &&& m.facts.len() == 1
            &&& m.track_numbers[0] == f.number
            &&& m.layout.track_index.contains_key(f.number)
            &&& m.layout.track_index[f.number] == 0
            &&& m.layout.prefixes.len() == 1
            &&& m.layout.prefixes[0] == m.facts[0].header_strip_prefix
            &&& is_stream(f, m.streams[0])
            &&& are_facts(f, m.facts[0])
        }),
{
    let d = document_of_track(doc_type, f, rest);
    lemma_track_document(doc_type, f, rest);
    lemma_one_track(d, document_of(d)->Ok_0, f, answers);
}

#[verifier::rlimit(60)]
proof fn lemma_one_track(
    d: Seq<u8>,
    doc: DocumentView,
    f: EntryFacts,
    answers: Seq<Option<Seq<char>>>,
)
    requires
        f.plain(),
        doc.parts.tracks == seq![entry_of(f)],
        doc.parts.info == empty_segment().info,
    ensures
        ({
            let m = demuxer_of(d, doc, answers);
            &&& m.streams.len() == 1
            &&& m.track_numbers.len() == 1
            &&& m.facts.len() == 1
            &&& m.track_numbers[0] == f.number
            &&& m.layout.track_index.contains_key(f.number)
            &&& m.layout.track_index[f.number] == 0
            &&& m.layout.prefixes.len() == 1
            &&& m.layout.prefixes[0] == m.facts[0].header_strip_prefix
            &&& is_stream(f, m.streams[0])
            &&& are_facts(f, m.facts[0])
        }),
{
    let m = demuxer_of(d, doc, answers);
    let ts = seq![entry_of(f)];
    assert(ts.drop_last() =~= Seq::<TrackEntryView>::empty());
    reveal_with_fuel(index_by_number, 2);
    reveal_with_fuel(index_by_uid, 2);
    let uids = index_by_uid(ts);
    assert(uids == Map::<u64, u32>::empty().insert(f.uid, 0u32));
    lemma_facts(f, uids);
    assert(m.facts[0] == facts_of(entry_of(f), uids));
    assert(segment_time_base(1_000_000).num == 1_000_000);
}

proof fn lemma_facts(f: EntryFacts, uids: Map<u64, u32>)
    requires
        uids == Map::<u64, u32>::empty().insert(f.uid, 0u32),
    ensures
        are_facts(f, facts_of(entry_of(f), uids)),
{
    let v = f.video;
    lemma_video_parts(v.colour, v.projection);
    lemma_flag_interlaced_round_trip(v.interlaced, FlagInterlaced::of_raw(v.interlaced));
    lemma_stereo_mode_round_trip(v.stereo, StereoMode::of_raw(v.stereo));
    lemma_alpha_mode_round_trip(v.alpha, AlphaMode::of_raw(v.alpha));
    lemma_display_unit_round_trip(v.display_unit, DisplayUnit::of_raw(v.display_unit));
    lemma_track_plane_type_round_trip(f.plane_kind, TrackPlaneType::of_raw(f.plane_kind));
    let s = seq![compressed(f.order, f.scope, f.compression)];
    let scope = f.scope;
    assert((scope & 1u64 != 0) == (scope % 2 == 1)) by (bit_vector);
    assert(s[0].scope.spec_block() == (scope % 2 == 1));
    assert(s.drop_last() =~= Seq::<ContentEncodingView>::empty());
    assert(s.last() == s[0]);
    reveal_with_fuel(stripped_bytes, 2);
    if f.compression.algo == 3 && scope % 2 == 1 {
        assert(stripped_by(s[0]) == Some(f.compression.settings));
        assert(stripped_bytes(s) =~= f.compression.settings);
    }
}

/// A video stream of which only the size is written has no encodings, no colours, no
/// projection and no parts; it is shown whole and at that size, for one eye, without an alpha
/// channel, and whether it is interlaced is not said.
pub proof fn lemma_plain_video(number: u64, s: MuxStreamView, uids: Map<u64, u32>)
    requires
        s.media_type == MediaType::Video,
        s.width is Some,
        s.height is Some,
        s.width->0 > 0,
        s.height->0 > 0,
    ensures
        ({
            let t = facts_of(track_read(number, s), uids);
            let g = t.video_geometry->0;
            &&& t.video_geometry is Some
            &&& g.display_width is Some && g.display_width->0 == s.width->0
            &&& g.display_height is Some && g.display_height->0 == s.height->0
            &&& g.pixel_crop_top == 0 && g.pixel_crop_bottom == 0
            &&& g.pixel_crop_left == 0 && g.pixel_crop_right == 0
            &&& g.display_unit == DisplayUnit::Pixels
            &&& t.video_interlacing is Some
            &&& t.video_interlacing->0.flag == FlagInterlaced::Undetermined
            &&& t.video_interlacing->0.field_order_raw == 2
            &&& t.video_stereo_mode == Some(StereoMode::Mono)
            &&& t.video_alpha_mode == Some(AlphaMode::Absent)
            &&& t.video_colour is None
            &&& t.video_projection is None
            &&& t.video_aspect_ratio_type is None
            &&& t.video_uncompressed_fourcc is None
            &&& t.track_operation is None
            &&& t.content_encodings is None
            &&& t.header_strip_prefix.len() == 0
            &&& t.block_addition_mappings.len() == 0
        }),
{
}

/// A stream that is no video has none of what a Video says.
pub proof fn lemma_no_video(number: u64, s: MuxStreamView, uids: Map<u64, u32>)
    requires
        s.media_type != MediaType::Video,
    ensures
        ({
            let t = facts_of(track_read(number, s), uids);
            &&& t.video_geometry is None
            &&& t.video_interlacing is None
            &&& t.video_stereo_mode is None
            &&& t.video_alpha_mode is None
            &&& t.video_colour is None
            &&& t.video_projection is None
            &&& t.video_aspect_ratio_type is None
            &&& t.video_uncompressed_fourcc is None
        }),
{
}

/// A registry of codecs is asked about a track with what the track says: the name and the
/// setup bytes of the codec, the sound and the size, each where there is any.
pub proof fn lemma_track_asked(f: EntryFacts)
    requires
        0 < f.audio.depth <= u16::MAX,
        0 < f.audio.channels <= u16::MAX,
        0 < f.video.width <= u32::MAX,
        0 < f.video.height <= u32::MAX,
    ensures
        ({
            let q = query_of(entry_of(f));
            &&& q.codec_id == f.codec
            &&& (f.private.len() > 0 ==> q.header == Some(f.private))
            &&& (f.private.len() == 0 ==> q.header is None)
            &&& q.bits is Some && q.bits->0 == f.audio.depth
            &&& q.channels is Some && q.channels->0 == f.audio.channels
            &&& q.sample_rate == Float::Double(f.audio.rate)
            &&& q.width is Some && q.width->0 == f.video.width
            &&& q.height is Some && q.height->0 == f.video.height
            &&& (f.codec != "V_MS/VFW/FOURCC"@ || f.private.len() < 20 ==> q.fourcc is None)
            &&& (f.codec == "V_MS/VFW/FOURCC"@ && f.private.len() >= 20 ==> q.fourcc is Some
                && q.fourcc->0 == seq![
                f.private[16],
                f.private[17],
                f.private[18],
                f.private[19],
            ])
        }),
{
    if f.private.len() >= 20 {
        assert(f.private.subrange(16, 20) =~= seq![
            f.private[16],
            f.private[17],
            f.private[18],
            f.private[19],
        ]);
    }
}

/// The Tracks with two tracks.
pub open spec fn pair_pieces(f: EntryFacts, g: EntryFacts) -> Seq<Piece> {
    seq![
        Piece::Bytes(ids::TRACK_ENTRY, pieces(f.pieces())),
        Piece::Bytes(ids::TRACK_ENTRY, pieces(g.pieces())),
    ]
}

#[verifier::rlimit(40)]
proof fn lemma_pair_child(d: Seq<u8>, end: int, f: EntryFacts, g: EntryFacts, b: int) -> (r:
    SegmentView)
    requires
        f.plain(),
        g.plain(),
        holds(d, b, pieces(pair_pieces(f, g))),
        d.len() <= MAX_LEN,
    ensures
        ({
            let h = header(ids::TRACKS, pieces(pair_pieces(f, g)).len());
            segment_child(d, end, empty_segment(), h, b) == Ok::<(SegmentView, int), MkvError>(
                (r, b + h.size),
            )
        }),
        r == (SegmentView {
            tracks: seq![entry_of(f), entry_of(g)],
            crc_status: r.crc_status,
            ..empty_segment()
        }),
{
    let ps = pair_pieces(f, g);
    let step = tracks_step(d);
    let s0 = Seq::<TrackEntryView>::empty();
    let s1 = s0.push(entry_of(f));
    let states = seq![s0, s1, s1.push(entry_of(g))];
    assert forall|i: int, q: int|
        0 <= i < ps.len() && #[trigger] there(d, ps[i], q) implies step(
        states[i],
        ps[i].header(),
        q,
    ) == Ok::<(Seq<TrackEntryView>, int), MkvError>((states[i + 1], q + ps[i].header().size)) by {
        if i == 0 {
            lemma_entry_says(d, q, f);
        } else {
            lemma_entry_says(d, q, g);
        }
    }
    lemma_pieces_read(d, b, ps, states, step);
    assert(states[2] =~= seq![entry_of(f), entry_of(g)]);
    let h = header(ids::TRACKS, pieces(ps).len());
    reveal(segment_child);
    SegmentView {
        tracks: seq![entry_of(f), entry_of(g)],
        crc_status: checked(d, Seq::empty(), h, b),
        ..empty_segment()
    }
}

/// The tracks of a document become its streams in the order in which they come. A Block goes
/// to the stream of the track whose number it has, and a track that is made of another one
/// refers to that by its stream.
#[verifier::rlimit(40)]
pub proof fn lemma_tracks_in_order(
    doc_type: DocType,
    f: EntryFacts,
    g: EntryFacts,
    rest: Seq<u8>,
    answers: Seq<Option<Seq<char>>>,
)
    requires
        bare_document(doc_type, ids::TRACKS, pieces(pair_pieces(f, g)), rest).len() <= MAX_LEN,
        f.plain(),
        g.plain(),
        f.number != g.number,
        f.uid != g.uid,
    ensures
        ({
            let d = bare_document(doc_type, ids::TRACKS, pieces(pair_pieces(f, g)), rest);
            let m = opened(d, answers);
            &&& document_of(d) is Ok
            &&& m.streams.len() == 2
            &&& m.streams[0].index == 0 && m.streams[1].index == 1
            &&& m.streams[0].language == Some(f.language)
            &&& m.streams[1].language == Some(g.language)
            &&& m.track_numbers == seq![f.number, g.number]
            &&& m.layout.track_index.contains_key(f.number)
            &&& m.layout.track_index[f.number] == 0
            &&& m.layout.track_index.contains_key(g.number)
            &&& m.layout.track_index[g.number] == 1
            &&& m.facts.len() == 2
            &&& m.facts[0].track_operation is Some
            &&& m.facts[0].track_operation->0.planes.len() == 1
            &&& m.facts[0].track_operation->0.join_tracks.len() == 1
            &&& (f.plane_uid == g.uid
                ==> m.facts[0].track_operation->0.planes[0].track.stream_index == Some(1u32))
            &&& (f.join_uid == f.uid
                ==> m.facts[0].track_operation->0.join_tracks[0].stream_index == Some(0u32))
            &&& (answers.len() > 1 && answers[1] is Some ==> m.streams[1].codec_id
                == answers[1]->0)
        }),
{
    let body = pieces(pair_pieces(f, g));
    let d = bare_document(doc_type, ids::TRACKS, body, rest);
    lemma_only_there(doc_type, ids::TRACKS, body, rest);
    let b = first_body(doc_type, ids::TRACKS, body);
    let s = lemma_pair_child(d, d.len() as int, f, g, b);
    lemma_bare_opens(doc_type, ids::TRACKS, body, rest, s);
    lemma_pair(d, document_of(d)->Ok_0, f, g, answers);
}

#[verifier::rlimit(60)]
proof fn lemma_pair(
    d: Seq<u8>,
    doc: DocumentView,
    f: EntryFacts,
    g: EntryFacts,
    answers: Seq<Option<Seq<char>>>,
)
    requires
        f.plain(),
        g.plain(),
        f.number != g.number,
        f.uid != g.uid,
        doc.parts.tracks == seq![entry_of(f), entry_of(g)],
    ensures
        ({
            let m = demuxer_of(d, doc, answers);
            &&& m.streams.len() == 2
            &&& m.streams[0].index == 0 && m.streams[1].index == 1
            &&& m.streams[0].language == Some(f.language)
            &&& m.streams[1].language == Some(g.language)
            &&& m.track_numbers == seq![f.number, g.number]
            &&& m.layout.track_index == Map::<u64, u32>::empty().insert(f.number, 0u32).insert(
                g.number,
                1u32,
            )
            &&& m.facts.len() == 2
            &&& m.facts[0].track_operation is Some
            &&& m.facts[0].track_operation->0.planes.len() == 1
            &&& m.facts[0].track_operation->0.join_tracks.len() == 1
            &&& (f.plane_uid == g.uid
                ==> m.facts[0].track_operation->0.planes[0].track.stream_index == Some(1u32))
            &&& (f.join_uid == f.uid
                ==> m.facts[0].track_operation->0.join_tracks[0].stream_index == Some(0u32))
            &&& (answers.len() > 1 && answers[1] is Some ==> m.streams[1].codec_id
                == answers[1]->0)
        }),
{
    let m = demuxer_of(d, doc, answers);
    let ts = seq![entry_of(f), entry_of(g)];
    let one = seq![entry_of(f)];
    let none = Seq::<TrackEntryView>::empty();
    assert(ts.drop_last() =~= one);
    assert(one.drop_last() =~= none);
    assert(index_by_number(none) == Map::<u64, u32>::empty());
    assert(index_by_uid(none) == Map::<u64, u32>::empty());
    assert(index_by_number(one) == Map::<u64, u32>::empty().insert(f.number, 0u32));
    assert(index_by_uid(one) == Map::<u64, u32>::empty().insert(f.uid, 0u32));
    let uids = index_by_uid(ts);
    assert(uids == Map::<u64, u32>::empty().insert(f.uid, 0u32).insert(g.uid, 1u32));
    assert(m.facts[0] == facts_of(entry_of(f), uids));
    assert(m.track_numbers =~= seq![f.number, g.number]);
}

} // verus!
