//! Tracks that were written are read back.

use vstd::prelude::*;
use vstd::utf8::encode_utf8;
use super::elements::{
    header, holds, lemma_crc_read, lemma_element_read, lemma_float_read, lemma_holds_split,
    lemma_string_read, lemma_uint_read, lemma_walk_step, no_nul, MAX_LEN,
};
use crate::demux::tracks::{
    audio_step, empty_track, no_video, track_entry_step, tracks_step, video_defaults, video_step,
    AudioParts, TrackEntryView, VideoPartsView,
};
use crate::ebml::{bytes_at, crc32, string_at, uint_at, walk, ElementHeader, Float};
use crate::error::MkvError;
use crate::ids;
use crate::mux::header::{
    audio_body, opus_delay_ns, track_body, track_codec, track_entries, track_media, track_private,
    track_start, track_timing, track_type, video_body, MuxStreamView,
};
use crate::mux::packets::stored_private;
use crate::stream::MediaType;
use crate::write::{
    crc_element, element, f64_bits, float_element, le_bytes4, string_element, uint_element,
    uint_len,
};

verus! {

/// What is read of the audio of a stream that was written.
pub open spec fn audio_read(s: MuxStreamView) -> AudioParts {
    AudioParts {
        sample_rate: match s.sample_rate {
            Some(rate) => Float::Double(f64_bits(rate)),
            None => Float::Double(0),
        },
        channels: match s.channels {
            Some(n) => n as u64,
            None => 0,
        },
        bit_depth: match s.sample_format {
            Some(f) => (f.sample_len() * 8) as u64,
            None => 0,
        },
    }
}

/// What is read of the video of a stream that was written.
pub open spec fn video_read(s: MuxStreamView) -> VideoPartsView {
    VideoPartsView {
        width: match s.width {
            Some(w) => w as u64,
            None => video_defaults(no_video()).width,
        },
        height: match s.height {
            Some(h) => h as u64,
            None => video_defaults(no_video()).height,
        },
        ..video_defaults(no_video())
    }
}

/// What is read of the stream `s` that was written as track `number`.
pub open spec fn track_read(number: u64, s: MuxStreamView) -> TrackEntryView {
    TrackEntryView {
        number: number,
        uid: number,
        track_type: track_type(s.media_type),
        codec_id_string: track_codec(s.codec_id),
        codec_private: stored_private(s.codec_id, s.extradata),
        audio: if s.media_type == MediaType::Audio {
            audio_read(s)
        } else {
            empty_track().audio
        },
        has_video: s.media_type == MediaType::Video,
        video: if s.media_type == MediaType::Video {
            video_read(s)
        } else {
            no_video()
        },
        ..empty_track()
    }
}

/// The audio that was written is read back.
proof fn lemma_audio_read(d: Seq<u8>, pos: int, s: MuxStreamView)
    requires
        holds(d, pos, audio_body(s)),
        d.len() <= MAX_LEN,
    ensures
        walk(d, pos, pos + audio_body(s).len(), empty_track().audio, audio_step(d)) == Ok::<
            (AudioParts, int),
            MkvError,
        >((audio_read(s), pos + audio_body(s).len())),
{
    let end = pos + audio_body(s).len();
    let step = audio_step(d);
    let rate = match s.sample_rate {
        Some(r) => float_element(ids::SAMPLING_FREQUENCY, f64_bits(r)),
        None => Seq::empty(),
    };
    let channels = match s.channels {
        Some(n) => uint_element(ids::CHANNELS, n as u64),
        None => Seq::empty(),
    };
    let depth = match s.sample_format {
        Some(f) => uint_element(ids::BIT_DEPTH, (f.sample_len() * 8) as u64),
        None => Seq::empty(),
    };
    lemma_holds_split(d, pos, rate + channels, depth);
    lemma_holds_split(d, pos, rate, channels);
    let s0 = empty_track().audio;
    let p1 = pos + rate.len();
    let s1 = AudioParts { sample_rate: audio_read(s).sample_rate, ..s0 };
    if let Some(r) = s.sample_rate {
        lemma_float_read(d, pos, ids::SAMPLING_FREQUENCY, f64_bits(r));
    }
    assert(walk(d, pos, end, s0, step) == walk(d, p1, end, s1, step));
    let p2 = p1 + channels.len();
    let s2 = AudioParts { channels: audio_read(s).channels, ..s1 };
    if let Some(n) = s.channels {
        lemma_uint_read(d, p1, ids::CHANNELS, n as u64);
    }
    assert(walk(d, p1, end, s1, step) == walk(d, p2, end, s2, step));
    if let Some(f) = s.sample_format {
        lemma_uint_read(d, p2, ids::BIT_DEPTH, (f.sample_len() * 8) as u64);
    }
    assert(walk(d, p2, end, s2, step) == walk(d, end, end, audio_read(s), step));
}

/// The video that was written is read back.
proof fn lemma_video_read(d: Seq<u8>, pos: int, s: MuxStreamView)
    requires
        holds(d, pos, video_body(s)),
        d.len() <= MAX_LEN,
    ensures
        walk(
            d,
            pos,
            pos + video_body(s).len(),
            video_defaults(no_video()),
            video_step(d),
        ) == Ok::<(VideoPartsView, int), MkvError>((video_read(s), pos + video_body(s).len())),
{
    let end = pos + video_body(s).len();
    let step = video_step(d);
    let width = match s.width {
        Some(w) => uint_element(ids::PIXEL_WIDTH, w as u64),
        None => Seq::empty(),
    };
    let height = match s.height {
        Some(h) => uint_element(ids::PIXEL_HEIGHT, h as u64),
        None => Seq::empty(),
    };
    lemma_holds_split(d, pos, width, height);
    let s0 = video_defaults(no_video());
    let p1 = pos + width.len();
    let s1 = VideoPartsView { width: video_read(s).width, ..s0 };
    if let Some(w) = s.width {
        lemma_uint_read(d, pos, ids::PIXEL_WIDTH, w as u64);
    }
    assert(walk(d, pos, end, s0, step) == walk(d, p1, end, s1, step));
    if let Some(h) = s.height {
        lemma_uint_read(d, p1, ids::PIXEL_HEIGHT, h as u64);
    }
    assert(walk(d, p1, end, s1, step) == walk(d, end, end, video_read(s), step));
}

/// The names that Matroska has for codecs are without zero characters.
pub proof fn lemma_codec_no_nul(c: Seq<char>)
    requires
        no_nul(c),
    ensures
        no_nul(track_codec(c)),
{
    reveal_strlit("A_FLAC");
    reveal_strlit("A_OPUS");
    reveal_strlit("A_VORBIS");
    reveal_strlit("A_PCM/INT/LIT");
    reveal_strlit("A_PCM/INT/BIG");
    reveal_strlit("A_PCM/FLOAT/IEEE");
    reveal_strlit("A_AAC");
    reveal_strlit("A_MPEG/L3");
    reveal_strlit("A_AC3");
    reveal_strlit("A_EAC3");
    reveal_strlit("V_VP8");
    reveal_strlit("V_VP9");
    reveal_strlit("V_AV1");
    reveal_strlit("V_MPEG4/ISO/AVC");
    reveal_strlit("V_MPEGH/ISO/HEVC");
    reveal_strlit("V_FFV1");
    reveal_strlit("V_THEORA");
    reveal_strlit("S_TEXT/UTF8");
    reveal_strlit("X_");
}

/// The state of a walk over a TrackEntry behind the children that every track has.
spec fn after_start(number: u64, s: MuxStreamView) -> TrackEntryView {
    TrackEntryView {
        number: number,
        uid: number,
        track_type: track_type(s.media_type),
        codec_id_string: track_codec(s.codec_id),
        ..empty_track()
    }
}

/// What the numbers of a TrackEntry add.
proof fn lemma_track_uint_step(d: Seq<u8>, s: TrackEntryView, h: ElementHeader, b: int, v: u64)
    requires
        uint_at(d, b, h.size) == Ok::<u64, MkvError>(v),
        0 <= b,
        b + h.size <= MAX_LEN,
    ensures
        h.id == ids::TRACK_NUMBER ==> track_entry_step(d)(s, h, b) == Ok::<
            (TrackEntryView, int),
            MkvError,
        >((TrackEntryView { number: v, ..s }, b + h.size)),
        h.id == ids::TRACK_UID ==> track_entry_step(d)(s, h, b) == Ok::<
            (TrackEntryView, int),
            MkvError,
        >((TrackEntryView { uid: v, ..s }, b + h.size)),
        h.id == ids::TRACK_TYPE ==> track_entry_step(d)(s, h, b) == Ok::<
            (TrackEntryView, int),
            MkvError,
        >((TrackEntryView { track_type: v, ..s }, b + h.size)),
        h.id == ids::FLAG_LACING || h.id == ids::CODEC_DELAY || h.id == ids::SEEK_PRE_ROLL
            ==> track_entry_step(d)(s, h, b) == Ok::<(TrackEntryView, int), MkvError>(
            (s, b + h.size),
        ),
{
    reveal(track_entry_step);
}

/// What the name of the codec adds.
proof fn lemma_track_codec_step(
    d: Seq<u8>,
    s: TrackEntryView,
    h: ElementHeader,
    b: int,
    v: Seq<char>,
)
    requires
        string_at(d, b, h.size) == Ok::<Seq<char>, MkvError>(v),
        h.id == ids::CODEC_ID,
    ensures
        track_entry_step(d)(s, h, b) == Ok::<(TrackEntryView, int), MkvError>(
            (TrackEntryView { codec_id_string: v, ..s }, b + h.size),
        ),
{
    reveal(track_entry_step);
}

/// What the setup bytes add.
proof fn lemma_track_private_step(
    d: Seq<u8>,
    s: TrackEntryView,
    h: ElementHeader,
    b: int,
    v: Seq<u8>,
)
    requires
        bytes_at(d, b, h.size) == Ok::<Seq<u8>, MkvError>(v),
        h.id == ids::CODEC_PRIVATE,
    ensures
        track_entry_step(d)(s, h, b) == Ok::<(TrackEntryView, int), MkvError>(
            (TrackEntryView { codec_private: v, ..s }, b + h.size),
        ),
{
    reveal(track_entry_step);
}

/// What the Audio and the Video add.
proof fn lemma_track_media_step(
    d: Seq<u8>,
    t: TrackEntryView,
    h: ElementHeader,
    b: int,
    s: MuxStreamView,
)
    requires
        t.audio == empty_track().audio,
        t.video == no_video(),
        d.len() <= MAX_LEN,
        h.id == ids::AUDIO ==> holds(d, b, audio_body(s)) && h.size == audio_body(s).len(),
        h.id == ids::VIDEO ==> holds(d, b, video_body(s)) && h.size == video_body(s).len(),
    ensures
        h.id == ids::AUDIO ==> track_entry_step(d)(t, h, b) == Ok::<
            (TrackEntryView, int),
            MkvError,
        >((TrackEntryView { audio: audio_read(s), ..t }, b + h.size)),
        h.id == ids::VIDEO ==> track_entry_step(d)(t, h, b) == Ok::<
            (TrackEntryView, int),
            MkvError,
        >((TrackEntryView { video: video_read(s), has_video: true, ..t }, b + h.size)),
{
    reveal(track_entry_step);
    if h.id == ids::AUDIO {
        lemma_audio_read(d, b, s);
    }
    if h.id == ids::VIDEO {
        lemma_video_read(d, b, s);
    }
}

/// A number of a TrackEntry is read back.
proof fn lemma_track_uint(d: Seq<u8>, pos: int, end: int, s: TrackEntryView, id: u32, v: u64)
    requires
        holds(d, pos, uint_element(id, v)),
        pos + uint_element(id, v).len() <= end,
        d.len() <= MAX_LEN,
        id == ids::TRACK_NUMBER || id == ids::TRACK_UID || id == ids::TRACK_TYPE || id
            == ids::FLAG_LACING || id == ids::CODEC_DELAY || id == ids::SEEK_PRE_ROLL,
    ensures
        ({
            let t = if id == ids::TRACK_NUMBER {
                TrackEntryView { number: v, ..s }
            } else if id == ids::TRACK_UID {
                TrackEntryView { uid: v, ..s }
            } else if id == ids::TRACK_TYPE {
                TrackEntryView { track_type: v, ..s }
            } else {
                s
            };
            walk(d, pos, end, s, track_entry_step(d)) == walk(
                d,
                pos + uint_element(id, v).len(),
                end,
                t,
                track_entry_step(d),
            )
        }),
{
    lemma_uint_read(d, pos, id, v);
    let h = header(id, uint_len(v));
    lemma_track_uint_step(d, s, h, pos + h.header_len, v);
}

/// The children that every track has are read back.
proof fn lemma_track_start_read(d: Seq<u8>, pos: int, end: int, number: u64, s: MuxStreamView)
    requires
        holds(d, pos, track_start(number, s)),
        pos + track_start(number, s).len() <= end,
        d.len() <= MAX_LEN,
        no_nul(s.codec_id),
    ensures
        walk(d, pos, end, empty_track(), track_entry_step(d)) == walk(
            d,
            pos + track_start(number, s).len(),
            end,
            after_start(number, s),
            track_entry_step(d),
        ),
{
    let step = track_entry_step(d);
    let a = uint_element(ids::TRACK_NUMBER, number);
    let b = uint_element(ids::TRACK_UID, number);
    let c = uint_element(ids::TRACK_TYPE, track_type(s.media_type));
    let e = uint_element(ids::FLAG_LACING, 0);
    let f = string_element(ids::CODEC_ID, track_codec(s.codec_id));
    lemma_codec_no_nul(s.codec_id);
    lemma_holds_split(d, pos, a + b + c + e, f);
    lemma_holds_split(d, pos, a + b + c, e);
    lemma_holds_split(d, pos, a + b, c);
    lemma_holds_split(d, pos, a, b);
    let p1 = pos + a.len();
    let p2 = p1 + b.len();
    let p3 = p2 + c.len();
    let p4 = p3 + e.len();
    let s0 = empty_track();
    let s1 = TrackEntryView { number: number, ..s0 };
    let s2 = TrackEntryView { uid: number, ..s1 };
    let s3 = TrackEntryView { track_type: track_type(s.media_type), ..s2 };
    lemma_track_uint(d, pos, end, s0, ids::TRACK_NUMBER, number);
    lemma_track_uint(d, p1, end, s1, ids::TRACK_UID, number);
    lemma_track_uint(d, p2, end, s2, ids::TRACK_TYPE, track_type(s.media_type));
    lemma_track_uint(d, p3, end, s3, ids::FLAG_LACING, 0);
    lemma_string_read(d, p4, ids::CODEC_ID, track_codec(s.codec_id));
    let h = header(ids::CODEC_ID, encode_utf8(track_codec(s.codec_id)).len());
    lemma_track_codec_step(d, s3, h, p4 + h.header_len, track_codec(s.codec_id));
}

/// A track that was written is read back.
#[verifier::rlimit(60)]
pub proof fn lemma_track_read(d: Seq<u8>, pos: int, number: u64, s: MuxStreamView)
    requires
        holds(d, pos, track_body(number, s)),
        d.len() <= MAX_LEN,
        no_nul(s.codec_id),
    ensures
        walk(
            d,
            pos,
            pos + track_body(number, s).len(),
            empty_track(),
            track_entry_step(d),
        ) == Ok::<(TrackEntryView, int), MkvError>(
            (track_read(number, s), pos + track_body(number, s).len()),
        ),
{
    let end = pos + track_body(number, s).len();
    let step = track_entry_step(d);
    let a = track_start(number, s);
    let b = track_private(s);
    let c = track_timing(s);
    let e = track_media(s);
    lemma_holds_split(d, pos, a + b + c, e);
    lemma_holds_split(d, pos, a + b, c);
    lemma_holds_split(d, pos, a, b);
    lemma_track_start_read(d, pos, end, number, s);
    let p1 = pos + a.len();
    let s1 = after_start(number, s);
    let p2 = p1 + b.len();
    let stored = stored_private(s.codec_id, s.extradata);
    let s2 = TrackEntryView { codec_private: stored, ..s1 };
    assert(walk(d, p1, end, s1, step) == walk(d, p2, end, s2, step)) by {
        if stored.len() > 0 {
            lemma_element_read(d, p1, ids::CODEC_PRIVATE, stored);
            let h = header(ids::CODEC_PRIVATE, stored.len());
            lemma_track_private_step(d, s1, h, p1 + h.header_len, stored);
        } else {
            assert(stored =~= empty_track().codec_private);
        }
    }
    let p3 = p2 + c.len();
    assert(walk(d, p2, end, s2, step) == walk(d, p3, end, s2, step)) by {
        if s.codec_id == "opus"@ {
            let x = uint_element(ids::CODEC_DELAY, opus_delay_ns(s.extradata));
            let y = uint_element(ids::SEEK_PRE_ROLL, 80_000_000);
            lemma_holds_split(d, p2, x, y);
            lemma_track_uint(d, p2, end, s2, ids::CODEC_DELAY, opus_delay_ns(s.extradata));
            lemma_track_uint(d, p2 + x.len(), end, s2, ids::SEEK_PRE_ROLL, 80_000_000);
        }
    }
    let s3 = track_read(number, s);
    assert(walk(d, p3, end, s2, step) == walk(d, end, end, s3, step)) by {
        if s.media_type == MediaType::Audio {
            lemma_element_read(d, p3, ids::AUDIO, audio_body(s));
            let h = header(ids::AUDIO, audio_body(s).len());
            lemma_track_media_step(d, s2, h, p3 + h.header_len, s);
        } else if s.media_type == MediaType::Video {
            lemma_element_read(d, p3, ids::VIDEO, video_body(s));
            let h = header(ids::VIDEO, video_body(s).len());
            lemma_track_media_step(d, s2, h, p3 + h.header_len, s);
        }
    }
}

/// TrackEntries from the one with index `k` on.
pub open spec fn entries_from(ss: Seq<MuxStreamView>, k: int) -> Seq<u8>
    decreases ss.len() - k,
{
    if k < 0 || k >= ss.len() {
        Seq::empty()
    } else {
        element(ids::TRACK_ENTRY, track_body((k + 1) as u64, ss[k])) + entries_from(ss, k + 1)
    }
}

pub proof fn lemma_entries_from(ss: Seq<MuxStreamView>, k: int)
    requires
        0 <= k <= ss.len(),
    ensures
        track_entries(ss.take(k)) + entries_from(ss, k) == track_entries(ss),
    decreases ss.len() - k,
{
    if k == ss.len() {
        assert(ss.take(k) =~= ss);
        assert(track_entries(ss) + Seq::<u8>::empty() =~= track_entries(ss));
    } else {
        lemma_entries_from(ss, k + 1);
        assert(ss.take(k + 1).drop_last() =~= ss.take(k));
        let e = element(ids::TRACK_ENTRY, track_body((k + 1) as u64, ss[k]));
        assert(track_entries(ss.take(k)) + (e + entries_from(ss, k + 1)) =~= track_entries(
            ss.take(k),
        ) + e + entries_from(ss, k + 1));
    }
}

/// What is read of streams that were written.
pub open spec fn tracks_read(ss: Seq<MuxStreamView>) -> Seq<TrackEntryView> {
    Seq::new(ss.len(), |i: int| track_read((i + 1) as u64, ss[i]))
}

/// Whether no stream has a codec whose name holds a zero character.
pub open spec fn codecs_plain(ss: Seq<MuxStreamView>) -> bool {
    forall|i: int| 0 <= i < ss.len() ==> no_nul(#[trigger] ss[i].codec_id)
}

proof fn lemma_entries_read(d: Seq<u8>, pos: int, ss: Seq<MuxStreamView>, k: int)
    requires
        0 <= k <= ss.len(),
        holds(d, pos, entries_from(ss, k)),
        d.len() <= MAX_LEN,
        codecs_plain(ss),
    ensures
        walk(
            d,
            pos,
            pos + entries_from(ss, k).len(),
            tracks_read(ss).take(k),
            tracks_step(d),
        ) == Ok::<(Seq<TrackEntryView>, int), MkvError>(
            (tracks_read(ss), pos + entries_from(ss, k).len()),
        ),
    decreases ss.len() - k,
{
    let all = tracks_read(ss);
    if k == ss.len() {
        assert(all.take(k) =~= all);
    } else {
        let body = track_body((k + 1) as u64, ss[k]);
        let e = element(ids::TRACK_ENTRY, body);
        let rest = entries_from(ss, k + 1);
        let end = pos + entries_from(ss, k).len();
        lemma_holds_split(d, pos, e, rest);
        lemma_element_read(d, pos, ids::TRACK_ENTRY, body);
        let h = header(ids::TRACK_ENTRY, body.len());
        assert(no_nul(ss[k].codec_id));
        lemma_track_read(d, pos + h.header_len, (k + 1) as u64, ss[k]);
        assert(all.take(k).push(all[k]) =~= all.take(k + 1));
        lemma_walk_step(
            d,
            pos,
            end,
            all.take(k),
            tracks_step(d),
            h,
            all.take(k + 1),
            pos + e.len(),
        );
        lemma_entries_read(d, pos + e.len(), ss, k + 1);
    }
}

/// The tracks that were written are read back, behind the checksum.
pub proof fn lemma_tracks_read(d: Seq<u8>, pos: int, ss: Seq<MuxStreamView>)
    requires
        holds(d, pos, crc_element(track_entries(ss)) + track_entries(ss)),
        d.len() <= MAX_LEN,
        codecs_plain(ss),
    ensures
        walk(d, pos, pos + 6 + track_entries(ss).len(), Seq::empty(), tracks_step(d)) == Ok::<
            (Seq<TrackEntryView>, int),
            MkvError,
        >((tracks_read(ss), pos + 6 + track_entries(ss).len())),
{
    let body = track_entries(ss);
    let end = pos + 6 + body.len();
    lemma_crc_read(d, pos, ids::TRACKS, body);
    lemma_holds_split(d, pos, crc_element(body), body);
    lemma_element_read(d, pos, ids::CRC32, le_bytes4(crc32(body)));
    let h = header(ids::CRC32, 4);
    lemma_walk_step(
        d,
        pos,
        end,
        Seq::empty(),
        tracks_step(d),
        h,
        Seq::empty(),
        pos + 6,
    );
    lemma_entries_from(ss, 0);
    assert(ss.take(0) =~= Seq::<MuxStreamView>::empty());
    assert(track_entries(ss.take(0)) + entries_from(ss, 0) =~= entries_from(ss, 0));
    assert(tracks_read(ss).take(0) =~= Seq::<TrackEntryView>::empty());
    lemma_entries_read(d, pos + 6, ss, 0);
}

} // verus!
