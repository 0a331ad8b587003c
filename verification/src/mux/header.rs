//! What stands in front of the first Cluster.

use vstd::prelude::*;
use super::chapters::{build_chapters_element, chapters_element, MkvChapter, MkvChapterView};
use super::packets::{encode_codec_private, opus_pre_skip, parse_opus_pre_skip, stored_private};
use super::seek_head::{
    build_initial_seek_head, entry, lemma_entry_len, lemma_seek_head_len, seek_head, SEEK_ENTRY_LEN,
    SEEK_HEAD_HEADER_LEN, SEEK_HEAD_TOTAL_LEN,
};
use crate::codec_id::{matroska_of, to_matroska};
use crate::ids;
use crate::stream::{bytes_per_sample, MediaType, SampleFormat, TimeBase};
use crate::text::text_is;
use crate::views::{group_views, opt_view, views};
use crate::write::{
    crc_master, element, f64_bits, float_bits, float_element, id_bytes, string_element,
    uint_element, unknown_size_bytes, write_bytes_element, write_crc_master_element,
    write_element_id, write_float_element, write_master_element, write_string_element,
    write_uint_element, write_vint,
};
use crate::ebml::VINT_UNKNOWN_SIZE;

verus! {

broadcast use group_views;

/// The flavour of a document.
#[derive(Clone, Copy, Debug, PartialEq, Eq, Structural)]
pub enum DocType {
    Matroska,
    Webm,
}

impl DocType {
    /// The name of the document type.
    pub open spec fn name(self) -> Seq<char> {
        match self {
            DocType::Matroska => "matroska"@,
            DocType::Webm => "webm"@,
        }
    }

    /// The name of the document type.
    pub fn as_str(self) -> (r: &'static str)
        ensures
            r@ == self.name(),
    {
        match self {
            DocType::Matroska => "matroska",
            DocType::Webm => "webm",
        }
    }
}

/// A stream that is to be written.
#[derive(Clone, Debug, PartialEq, Eq)]
pub struct MuxStream {
    /// The length of the ticks in which the times of the stream's packets are given.
    pub time_base: TimeBase,
    pub codec_id: String,
    pub media_type: MediaType,
    /// The codec's setup bytes.
    pub extradata: Vec<u8>,
    pub sample_rate: Option<u32>,
    pub channels: Option<u16>,
    pub sample_format: Option<SampleFormat>,
    pub width: Option<u32>,
    pub height: Option<u32>,
}

/// The view of a [`MuxStream`].
#[verifier::ext_equal]
pub struct MuxStreamView {
    pub time_base: TimeBase,
    pub codec_id: Seq<char>,
    pub media_type: MediaType,
    pub extradata: Seq<u8>,
    pub sample_rate: Option<u32>,
    pub channels: Option<u16>,
    pub sample_format: Option<SampleFormat>,
    pub width: Option<u32>,
    pub height: Option<u32>,
}

impl View for MuxStream {
    type V = MuxStreamView;

    open spec fn view(&self) -> MuxStreamView {
        MuxStreamView {
            time_base: self.time_base,
            codec_id: self.codec_id@,
            media_type: self.media_type,
            extradata: self.extradata@,
            sample_rate: self.sample_rate,
            channels: self.channels,
            sample_format: self.sample_format,
            width: self.width,
            height: self.height,
        }
    }
}

// ---------------------------------------------------------------------------
// The fixed parts.

/// The children of the EBML header.
pub open spec fn ebml_body(doc_type: DocType) -> Seq<u8> {
    uint_element(ids::EBML_VERSION, 1) + uint_element(ids::EBML_READ_VERSION, 1) + uint_element(
        ids::EBML_MAX_ID_LENGTH,
        4,
    ) + uint_element(ids::EBML_MAX_SIZE_LENGTH, 8) + string_element(
        ids::EBML_DOC_TYPE,
        doc_type.name(),
    ) + uint_element(ids::EBML_DOC_TYPE_VERSION, 4) + uint_element(
        ids::EBML_DOC_TYPE_READ_VERSION,
        2,
    )
}

/// The EBML header and the header of the Segment, whose size stays unknown.
pub open spec fn opening(doc_type: DocType) -> Seq<u8> {
    element(ids::EBML_HEADER, ebml_body(doc_type)) + id_bytes(ids::SEGMENT) + unknown_size_bytes()
}

/// The children of the Info: ticks of a millisecond, and who wrote the document.
pub open spec fn info_body() -> Seq<u8> {
    uint_element(ids::TIMECODE_SCALE, 1_000_000) + string_element(ids::MUXING_APP, "oxideav"@)
        + string_element(ids::WRITING_APP, "oxideav"@)
}

fn build_opening(doc_type: DocType) -> (r: Vec<u8>)
    ensures
        r@ == opening(doc_type),
{
    let mut body: Vec<u8> = Vec::new();
    write_uint_element(&mut body, ids::EBML_VERSION, 1);
    write_uint_element(&mut body, ids::EBML_READ_VERSION, 1);
    write_uint_element(&mut body, ids::EBML_MAX_ID_LENGTH, 4);
    write_uint_element(&mut body, ids::EBML_MAX_SIZE_LENGTH, 8);
    write_string_element(&mut body, ids::EBML_DOC_TYPE, doc_type.as_str());
    write_uint_element(&mut body, ids::EBML_DOC_TYPE_VERSION, 4);
    write_uint_element(&mut body, ids::EBML_DOC_TYPE_READ_VERSION, 2);
    assert(body@ =~= ebml_body(doc_type));
    let mut out: Vec<u8> = Vec::new();
    write_master_element(&mut out, ids::EBML_HEADER, &body);
    write_element_id(&mut out, ids::SEGMENT);
    write_vint(&mut out, VINT_UNKNOWN_SIZE);
    assert(out@ =~= opening(doc_type));
    out
}

fn build_info() -> (r: Vec<u8>)
    ensures
        r@ == crc_master(ids::INFO, info_body()),
{
    let mut body: Vec<u8> = Vec::new();
    write_uint_element(&mut body, ids::TIMECODE_SCALE, 1_000_000);
    write_string_element(&mut body, ids::MUXING_APP, "oxideav");
    write_string_element(&mut body, ids::WRITING_APP, "oxideav");
    assert(body@ =~= info_body());
    let mut out: Vec<u8> = Vec::new();
    write_crc_master_element(&mut out, ids::INFO, &body);
    assert(out@ =~= crc_master(ids::INFO, info_body()));
    out
}

// ---------------------------------------------------------------------------
// Tracks.

/// The number for what a track holds. What Matroska has no number for counts as
/// subtitles.
pub open spec fn track_type(m: MediaType) -> u64 {
    match m {
        MediaType::Audio => ids::TRACK_TYPE_AUDIO,
        MediaType::Video => ids::TRACK_TYPE_VIDEO,
        MediaType::Subtitle => ids::TRACK_TYPE_SUBTITLE,
        MediaType::Data => 17,
    }
}

/// The codec as a track names it. What Matroska has no name for is marked.
pub open spec fn track_codec(c: Seq<char>) -> Seq<char> {
    match matroska_of(c) {
        Some(name) => name,
        None => "X_"@ + c,
    }
}

/// The time that an Opus decoder drops at the start, in nanoseconds.
pub open spec fn opus_delay_ns(extradata: Seq<u8>) -> u64 {
    (opus_pre_skip(extradata) as int * 1_000_000_000 / 48_000) as u64
}

/// The children of an Audio.
pub open spec fn audio_body(s: MuxStreamView) -> Seq<u8> {
    (match s.sample_rate {
        Some(rate) => float_element(ids::SAMPLING_FREQUENCY, f64_bits(rate)),
        None => Seq::empty(),
    }) + (match s.channels {
        Some(n) => uint_element(ids::CHANNELS, n as u64),
        None => Seq::empty(),
    }) + (match s.sample_format {
        Some(f) => uint_element(ids::BIT_DEPTH, (f.sample_len() * 8) as u64),
        None => Seq::empty(),
    })
}

/// The children of a Video.
pub open spec fn video_body(s: MuxStreamView) -> Seq<u8> {
    (match s.width {
        Some(w) => uint_element(ids::PIXEL_WIDTH, w as u64),
        None => Seq::empty(),
    }) + (match s.height {
        Some(h) => uint_element(ids::PIXEL_HEIGHT, h as u64),
        None => Seq::empty(),
    })
}

/// The children of a TrackEntry that every track has.
pub open spec fn track_start(number: u64, s: MuxStreamView) -> Seq<u8> {
    uint_element(ids::TRACK_NUMBER, number) + uint_element(ids::TRACK_UID, number) + uint_element(
        ids::TRACK_TYPE,
        track_type(s.media_type),
    ) + uint_element(ids::FLAG_LACING, 0) + string_element(ids::CODEC_ID, track_codec(s.codec_id))
}

/// The CodecPrivate of a track, if there are setup bytes.
pub open spec fn track_private(s: MuxStreamView) -> Seq<u8> {
    let stored = stored_private(s.codec_id, s.extradata);
    if stored.len() == 0 {
        Seq::empty()
    } else {
        element(ids::CODEC_PRIVATE, stored)
    }
}

/// The timing of a track, for Opus alone.
pub open spec fn track_timing(s: MuxStreamView) -> Seq<u8> {
    if s.codec_id == "opus"@ {
        uint_element(ids::CODEC_DELAY, opus_delay_ns(s.extradata)) + uint_element(
            ids::SEEK_PRE_ROLL,
            80_000_000,
        )
    } else {
        Seq::empty()
    }
}

/// The Audio or the Video of a track.
pub open spec fn track_media(s: MuxStreamView) -> Seq<u8> {
    match s.media_type {
        MediaType::Audio => element(ids::AUDIO, audio_body(s)),
        MediaType::Video => element(ids::VIDEO, video_body(s)),
        _ => Seq::empty(),
    }
}

/// The children of a TrackEntry.
pub open spec fn track_body(number: u64, s: MuxStreamView) -> Seq<u8> {
    track_start(number, s) + track_private(s) + track_timing(s) + track_media(s)
}

/// TrackEntries, one after the other, with the numbers from 1.
pub open spec fn track_entries(ss: Seq<MuxStreamView>) -> Seq<u8>
    decreases ss.len(),
{
    if ss.len() == 0 {
        Seq::empty()
    } else {
        track_entries(ss.drop_last()) + element(
            ids::TRACK_ENTRY,
            track_body(ss.len() as u64, ss.last()),
        )
    }
}

fn build_audio(s: &MuxStream) -> (r: Vec<u8>)
    ensures
        r@ == audio_body(s@),
{
    let mut body: Vec<u8> = Vec::new();
    if let Some(rate) = s.sample_rate {
        write_float_element(&mut body, ids::SAMPLING_FREQUENCY, float_bits(rate));
    }
    if let Some(n) = s.channels {
        write_uint_element(&mut body, ids::CHANNELS, n as u64);
    }
    if let Some(f) = s.sample_format {
        write_uint_element(&mut body, ids::BIT_DEPTH, (bytes_per_sample(f) * 8) as u64);
    }
    assert(body@ =~= audio_body(s@));
    body
}

fn build_video(s: &MuxStream) -> (r: Vec<u8>)
    ensures
        r@ == video_body(s@),
{
    let mut body: Vec<u8> = Vec::new();
    if let Some(w) = s.width {
        write_uint_element(&mut body, ids::PIXEL_WIDTH, w as u64);
    }
    if let Some(h) = s.height {
        write_uint_element(&mut body, ids::PIXEL_HEIGHT, h as u64);
    }
    assert(body@ =~= video_body(s@));
    body
}

fn build_track_start(number: u64, s: &MuxStream) -> (r: Vec<u8>)
    ensures
        r@ == track_start(number, s@),
{
    let mut t: Vec<u8> = Vec::new();
    write_uint_element(&mut t, ids::TRACK_NUMBER, number);
    write_uint_element(&mut t, ids::TRACK_UID, number);
    let kind: u64 = match s.media_type {
        MediaType::Audio => ids::TRACK_TYPE_AUDIO,
        MediaType::Video => ids::TRACK_TYPE_VIDEO,
        MediaType::Subtitle => ids::TRACK_TYPE_SUBTITLE,
        MediaType::Data => 17,
    };
    write_uint_element(&mut t, ids::TRACK_TYPE, kind);
    write_uint_element(&mut t, ids::FLAG_LACING, 0);
    match to_matroska(s.codec_id.as_str()) {
        Some(name) => write_string_element(&mut t, ids::CODEC_ID, name),
        None => {
            let mut raw: String = "X_".to_owned();
            raw.append(s.codec_id.as_str());
            write_string_element(&mut t, ids::CODEC_ID, raw.as_str());
        },
    }
    assert(t@ =~= track_start(number, s@));
    t
}

fn build_track(number: u64, s: &MuxStream) -> (r: Vec<u8>)
    ensures
        r@ == track_body(number, s@),
{
    let mut t: Vec<u8> = build_track_start(number, s);
    let stored: Vec<u8> = encode_codec_private(&s.codec_id, &s.extradata);
    if stored.len() > 0 {
        write_bytes_element(&mut t, ids::CODEC_PRIVATE, stored.as_slice());
    }
    assert(t@ =~= track_start(number, s@) + track_private(s@));
    if text_is(&s.codec_id, "opus") {
        let pre_skip: u16 = parse_opus_pre_skip(s.extradata.as_slice());
        let delay: u64 = pre_skip as u64 * 1_000_000_000 / 48_000;
        write_uint_element(&mut t, ids::CODEC_DELAY, delay);
        write_uint_element(&mut t, ids::SEEK_PRE_ROLL, 80_000_000);
    }
    assert(t@ =~= track_start(number, s@) + track_private(s@) + track_timing(s@));
    match s.media_type {
        MediaType::Audio => {
            let audio: Vec<u8> = build_audio(s);
            write_master_element(&mut t, ids::AUDIO, &audio);
        },
        MediaType::Video => {
            let video: Vec<u8> = build_video(s);
            write_master_element(&mut t, ids::VIDEO, &video);
        },
        _ => {},
    }
    assert(t@ =~= track_body(number, s@));
    t
}

fn build_tracks(streams: &Vec<MuxStream>) -> (r: Vec<u8>)
    ensures
        r@ == crc_master(ids::TRACKS, track_entries(views(streams@))),
{
    let mut body: Vec<u8> = Vec::new();
    let ghost all = views(streams@);
    let mut i: usize = 0;
    assert(all.take(0) =~= Seq::<MuxStreamView>::empty());
    assert(body@ =~= track_entries(all.take(0)));
    while i < streams.len()
        invariant
            i <= streams@.len(),
            all == views(streams@),
            body@ == track_entries(all.take(i as int)),
        decreases streams@.len() - i,
    {
        let t: Vec<u8> = build_track(i as u64 + 1, &streams[i]);
        write_master_element(&mut body, ids::TRACK_ENTRY, &t);
        assert(all.take(i + 1).drop_last() =~= all.take(i as int));
        assert(body@ =~= track_entries(all.take(i + 1)));
        i = i + 1;
    }
    assert(all.take(i as int) =~= all);
    let mut out: Vec<u8> = Vec::new();
    write_crc_master_element(&mut out, ids::TRACKS, &body);
    assert(out@ =~= crc_master(ids::TRACKS, track_entries(all)));
    out
}

// ---------------------------------------------------------------------------
// The whole.

/// The Info.
pub open spec fn info_element() -> Seq<u8> {
    crc_master(ids::INFO, info_body())
}

/// The Tracks.
pub open spec fn tracks_element(ss: Seq<MuxStreamView>) -> Seq<u8> {
    crc_master(ids::TRACKS, track_entries(ss))
}

/// The Chapters, if there are any.
pub open spec fn chapters_part(cs: Seq<MkvChapterView>) -> Option<Seq<u8>> {
    if cs.len() == 0 {
        None
    } else {
        Some(chapters_element(cs))
    }
}

/// Where the Tracks start in the Segment.
pub open spec fn tracks_at(info: Seq<u8>) -> u64 {
    (SEEK_HEAD_TOTAL_LEN + info.len()) as u64
}

/// Where the Chapters start in the Segment.
pub open spec fn chapters_at(
    info: Seq<u8>,
    tracks: Seq<u8>,
    chapters: Option<Seq<u8>>,
) -> Option<u64> {
    match chapters {
        Some(_) => Some((SEEK_HEAD_TOTAL_LEN + info.len() + tracks.len()) as u64),
        None => None,
    }
}

/// The parts of the header, with the index between the first and the second. The last
/// entry of the index is `cues`.
pub open spec fn assembled(
    opening: Seq<u8>,
    info: Seq<u8>,
    tracks: Seq<u8>,
    chapters: Option<Seq<u8>>,
    cues: Seq<u8>,
) -> Seq<u8> {
    opening + seek_head(
        SEEK_HEAD_TOTAL_LEN,
        tracks_at(info),
        chapters_at(info, tracks, chapters),
        cues,
    ) + info + tracks + (match chapters {
        Some(c) => c,
        None => Seq::empty(),
    })
}

/// What stands in front of the first Cluster. The last entry of the index is `cues`.
pub open spec fn header_with(
    doc_type: DocType,
    ss: Seq<MuxStreamView>,
    cs: Seq<MkvChapterView>,
    cues: Seq<u8>,
) -> Seq<u8> {
    assembled(opening(doc_type), info_element(), tracks_element(ss), chapters_part(cs), cues)
}

/// What stands in front of the first Cluster, before the position of the Cues is known.
pub open spec fn header_of(
    doc_type: DocType,
    ss: Seq<MuxStreamView>,
    cs: Seq<MkvChapterView>,
) -> Seq<u8> {
    header_with(doc_type, ss, cs, entry(ids::CUES, 0))
}

/// Where the Segment's data starts in the header.
pub open spec fn data_start(doc_type: DocType) -> int {
    opening(doc_type).len() as int
}

/// Where the entry for the Cues starts in the header.
pub open spec fn cues_entry_start(doc_type: DocType) -> int {
    data_start(doc_type) + SEEK_HEAD_HEADER_LEN + 3 * SEEK_ENTRY_LEN
}

/// Puts the parts of the header together.
fn assemble(opening: Vec<u8>, info: &Vec<u8>, tracks: &Vec<u8>, chapters: &Option<Vec<u8>>) -> (r:
    Vec<u8>)
    ensures
        r@ == assembled(opening@, info@, tracks@, opt_view(*chapters), entry(ids::CUES, 0)),
        opening@.len() + SEEK_HEAD_TOTAL_LEN <= r@.len(),
{
    let mut out: Vec<u8> = opening;
    let start: usize = out.len();
    let blank: Vec<u8> = build_initial_seek_head(0, 0, None);
    let ghost blank_bytes = blank@;
    proof {
        lemma_entry_len(ids::CUES, 0);
        lemma_seek_head_len(0, 0, None, entry(ids::CUES, 0));
    }
    out.extend_from_slice(blank.as_slice());
    out.extend_from_slice(info.as_slice());
    let tracks_start: u64 = (out.len() - start) as u64;
    out.extend_from_slice(tracks.as_slice());
    let ghost mut tail: Seq<u8> = Seq::empty();
    let chapters_start: Option<u64> = match chapters {
        Some(c) => {
            let at: u64 = (out.len() - start) as u64;
            out.extend_from_slice(c.as_slice());
            proof {
                tail = c@;
            }
            Some(at)
        },
        None => None,
    };
    assert(out@ =~= opening@ + blank_bytes + (info@ + tracks@ + tail));
    let index: Vec<u8> = build_initial_seek_head(SEEK_HEAD_TOTAL_LEN, tracks_start, chapters_start);
    proof {
        lemma_seek_head_len(
            SEEK_HEAD_TOTAL_LEN,
            tracks_start,
            chapters_start,
            entry(ids::CUES, 0),
        );
    }
    overwrite(&mut out, start, &index);
    proof {
        lemma_replaced(opening@, blank_bytes, index@, info@ + tracks@ + tail);
        assert(out@ =~= opening@ + index@ + info@ + tracks@ + tail);
    }
    out
}

/// Builds what stands in front of the first Cluster. Gives its bytes, and in them the
/// start of the Segment's data and of the entry for the Cues.
pub fn build_header(doc_type: DocType, streams: &Vec<MuxStream>, chapters: &Vec<MkvChapter>) -> (r:
    (Vec<u8>, u64, u64))
    ensures
        r.0@ == header_of(doc_type, views(streams@), views(chapters@)),
        r.1 == data_start(doc_type),
        r.2 == cues_entry_start(doc_type),
{
    let first: Vec<u8> = build_opening(doc_type);
    let start: u64 = first.len() as u64;
    let info: Vec<u8> = build_info();
    let tracks: Vec<u8> = build_tracks(streams);
    let last: Option<Vec<u8>> = if chapters.len() == 0 {
        None
    } else {
        Some(build_chapters_element(chapters))
    };
    let out: Vec<u8> = assemble(first, &info, &tracks, &last);
    assert(out.len() <= usize::MAX);
    (out, start, start + SEEK_HEAD_HEADER_LEN + 3 * SEEK_ENTRY_LEN)
}

proof fn lemma_replaced(head: Seq<u8>, old_part: Seq<u8>, new_part: Seq<u8>, tail: Seq<u8>)
    requires
        old_part.len() == new_part.len(),
    ensures
        ({
            let all = head + old_part + tail;
            let n = head.len() as int;
            all.take(n) + new_part + all.skip(n + new_part.len()) == head + new_part + tail
        }),
{
    let all = head + old_part + tail;
    let n = head.len() as int;
    assert(all.take(n) =~= head);
    assert(all.skip(n + new_part.len()) =~= tail);
}

/// Puts `bytes` in the place of as many bytes of `buf`, from `pos` on.
fn overwrite(buf: &mut Vec<u8>, pos: usize, bytes: &Vec<u8>)
    requires
        pos + bytes@.len() <= old(buf)@.len(),
    ensures
        final(buf)@ == old(buf)@.take(pos as int) + bytes@ + old(buf)@.skip(pos + bytes@.len()),
{
    let len: usize = buf.len();
    let mut i: usize = 0;
    while i < bytes.len()
        invariant
            i <= bytes@.len(),
            pos + bytes@.len() <= len,
            buf@.len() == old(buf)@.len() == len,
            forall|k: int| 0 <= k < pos ==> buf@[k] == old(buf)@[k],
            forall|k: int| 0 <= k < i ==> buf@[pos + k] == bytes@[k],
            forall|k: int| pos + i <= k < buf@.len() ==> buf@[k] == old(buf)@[k],
        decreases bytes@.len() - i,
    {
        buf.set(pos + i, bytes[i]);
        i = i + 1;
    }
    assert(buf@ =~= old(buf)@.take(pos as int) + bytes@ + old(buf)@.skip(pos + bytes@.len()));
}

} // verus!
