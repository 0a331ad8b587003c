//! Writing documents, and reading back what was written.

use oxideav_mkv::demux::{open_typed, MkvDemuxer};
use oxideav_mkv::ebml::{crc32_ieee, Float};
use oxideav_mkv::error::MkvError;
use oxideav_mkv::ids;
use oxideav_mkv::mux::chapters::{build_chapter_atom, build_chapters_element};
use oxideav_mkv::mux::cues::{write_cues, CueRecord};
use oxideav_mkv::mux::packets::{
    build_simple_block, encode_codec_private, opus_packet_duration_samples, parse_opus_pre_skip,
    pts_to_ms,
};
use oxideav_mkv::mux::seek_head::{build_initial_seek_head, seek_entry, void_seek_entry};
use oxideav_mkv::mux::{ChapterDisplay, MkvChapter, MkvMuxer, MuxStream};
use oxideav_mkv::stream::{MediaType, Packet, SampleFormat, TimeBase};

const MS: TimeBase = TimeBase { num: 1, den: 1000 };

fn audio(codec: &str) -> MuxStream {
    MuxStream {
        time_base: MS,
        codec_id: codec.to_string(),
        media_type: MediaType::Audio,
        extradata: vec![],
        sample_rate: Some(44100),
        channels: Some(2),
        sample_format: Some(SampleFormat::S24),
        width: None,
        height: None,
    }
}

fn video(codec: &str) -> MuxStream {
    MuxStream {
        time_base: MS,
        codec_id: codec.to_string(),
        media_type: MediaType::Video,
        extradata: vec![],
        sample_rate: None,
        channels: None,
        sample_format: None,
        width: Some(320),
        height: Some(240),
    }
}

fn packet(stream_index: u32, pts: Option<i64>, keyframe: bool, data: &[u8]) -> Packet {
    Packet {
        stream_index,
        time_base: MS,
        pts,
        dts: pts,
        duration: None,
        keyframe,
        data: data.to_vec(),
    }
}

/// An output that grows, with the muxer that feeds it.
struct Writer {
    muxer: MkvMuxer,
    out: Vec<u8>,
}

impl Writer {
    fn new(muxer: MkvMuxer) -> Writer {
        Writer { muxer, out: vec![] }
    }

    fn header(&mut self) {
        let b = self.muxer.write_header(self.out.len() as u64).unwrap();
        self.out.extend_from_slice(&b);
        self.muxer.header_done();
    }

    fn packet(&mut self, p: &Packet) -> Result<(), MkvError> {
        let (b, r) = self.muxer.write_packet(p, self.out.len() as u64);
        self.out.extend_from_slice(&b);
        r
    }

    fn trailer(&mut self) {
        let t = self.muxer.write_trailer(self.out.len() as u64).unwrap();
        if let Some((at, b)) = t.patch {
            let at = at as usize;
            self.out[at..at + b.len()].copy_from_slice(&b);
        }
        self.out.extend_from_slice(&t.append);
        self.muxer.trailer_done();
    }
}

fn read(d: &[u8]) -> MkvDemuxer {
    open_typed(d.to_vec(), &Vec::new()).unwrap()
}

fn find(haystack: &[u8], needle: &[u8]) -> Option<usize> {
    haystack.windows(needle.len()).position(|w| w == needle)
}

// ---------------------------------------------------------------------------
// Pieces.

#[test]
fn times_in_milliseconds() {
    assert_eq!(pts_to_ms(48000, TimeBase { num: 1, den: 48000 }), 1000);
    assert_eq!(pts_to_ms(47999, TimeBase { num: 1, den: 48000 }), 999);
    assert_eq!(pts_to_ms(-47999, TimeBase { num: 1, den: 48000 }), -999);
    assert_eq!(pts_to_ms(7, TimeBase { num: 1, den: 0 }), 7);
    assert_eq!(pts_to_ms(90, TimeBase { num: 1001, den: 30000 }), 3003);
}

#[test]
fn opus_durations() {
    assert_eq!(opus_packet_duration_samples(&[]), None);
    assert_eq!(opus_packet_duration_samples(&[0xFC]), Some(960));
    assert_eq!(opus_packet_duration_samples(&[0xFD]), Some(1920));
    assert_eq!(opus_packet_duration_samples(&[0x18]), Some(2880));
    assert_eq!(opus_packet_duration_samples(&[0x80]), Some(120));
    assert_eq!(opus_packet_duration_samples(&[0x60]), Some(480));
    assert_eq!(opus_packet_duration_samples(&[0x0B, 0x03]), Some(2880));
    assert_eq!(opus_packet_duration_samples(&[0x0B]), None);
}

#[test]
fn opus_pre_skips() {
    let mut head = b"OpusHead\x01\x02".to_vec();
    head.extend_from_slice(&[0x38, 0x01]);
    assert_eq!(parse_opus_pre_skip(&head), 312);
    assert_eq!(parse_opus_pre_skip(&head[..11]), 0);
    assert_eq!(parse_opus_pre_skip(b"OpusTags\x01\x02\x38\x01"), 0);
}

#[test]
fn stored_setup_bytes() {
    let flac = "flac".to_string();
    assert_eq!(encode_codec_private(&flac, &vec![1, 2]), b"fLaC\x01\x02");
    assert_eq!(encode_codec_private(&flac, &vec![]), b"fLaC");
    assert_eq!(encode_codec_private(&"opus".to_string(), &vec![1, 2]), vec![1, 2]);
}

#[test]
fn simple_block_bytes() {
    assert_eq!(
        build_simple_block(1, 5, true, &vec![9, 8]),
        vec![0xA3, 0x86, 0x81, 0x00, 0x05, 0x80, 9, 8]
    );
    assert_eq!(
        build_simple_block(2, -2, false, &vec![]),
        vec![0xA3, 0x84, 0x82, 0xFF, 0xFE, 0x00]
    );
}

#[test]
fn seek_head_bytes() {
    let e = seek_entry(ids::INFO, 0x59);
    assert_eq!(
        e,
        vec![
            0x4D, 0xBB, 0x92, 0x53, 0xAB, 0x84, 0x15, 0x49, 0xA9, 0x66, 0x53, 0xAC, 0x88, 0, 0, 0,
            0, 0, 0, 0, 0x59
        ]
    );
    let v = void_seek_entry();
    assert_eq!(v.len(), e.len());
    assert_eq!(v[..2], [0xEC, 0x93]);
    let h = build_initial_seek_head(0x59, 0x80, None);
    assert_eq!(h.len(), 89);
    assert_eq!(h[..5], [0x11, 0x4D, 0x9B, 0x74, 0xD4]);
    assert_eq!(h[5..26], e[..]);
    assert_eq!(h[47..68], v[..]);
    let with = build_initial_seek_head(0x59, 0x80, Some(0x99));
    assert_eq!(with[47..68], seek_entry(ids::CHAPTERS, 0x99)[..]);
}

#[test]
fn cue_points_are_sorted_and_grouped() {
    let c = |track: u64, time_ms: u64, cluster_offset: u64| CueRecord {
        track,
        time_ms,
        cluster_offset,
        relative_position: 3,
    };
    let b = write_cues(&vec![c(1, 9, 1), c(2, 5, 2), c(1, 5, 3)]);
    let position =
        |t: u8, at: u8| vec![0xB7, 0x89, 0xF7, 0x81, t, 0xF1, 0x81, at, 0xF0, 0x81, 3];
    let mut body = vec![0xBB, 0x99, 0xB3, 0x81, 5];
    body.extend_from_slice(&position(2, 2));
    body.extend_from_slice(&position(1, 3));
    body.extend_from_slice(&[0xBB, 0x8E, 0xB3, 0x81, 9]);
    body.extend_from_slice(&position(1, 1));
    let mut expected = vec![0x1C, 0x53, 0xBB, 0x6B, 0x80 | (6 + body.len() as u8), 0xBF, 0x84];
    expected.extend_from_slice(&crc32_ieee(&body).to_le_bytes());
    expected.extend_from_slice(&body);
    assert_eq!(b, expected);
}

#[test]
fn chapter_bytes() {
    let c = MkvChapter {
        time_start_ns: 1,
        time_end_ns: None,
        display: vec![ChapterDisplay {
            title: "T".to_string(),
            language: "eng".to_string(),
            country: Some("gb".to_string()),
        }],
    };
    let atom = build_chapter_atom(7, &c);
    let mut expected = vec![0x73, 0xC4, 0x81, 7, 0x91, 0x81, 1, 0x80, 0x8E, 0x85, 0x81, b'T'];
    expected.extend_from_slice(b"\x43\x7C\x83eng\x43\x7E\x82gb");
    assert_eq!(atom, expected);
    let all = build_chapters_element(&vec![c]);
    assert_eq!(all[..4], [0x10, 0x43, 0xA7, 0x70]);
    let d = ChapterDisplay::untitled_in("fre".to_string());
    assert_eq!((d.title.as_str(), d.language.as_str(), d.country), ("", "und", None));
}

// ---------------------------------------------------------------------------
// The muxer.

#[test]
fn muxers_that_are_refused() {
    assert_eq!(MkvMuxer::new_matroska(vec![]).err(), Some(MkvError::NoStreams));
    assert_eq!(MkvMuxer::new_webm(vec![]).err(), Some(MkvError::NoStreams));
    assert_eq!(MkvMuxer::new_webm(vec![audio("flac")]).err(), Some(MkvError::UnsupportedCodec));
    assert!(MkvMuxer::new_matroska(vec![audio("flac")]).is_ok());
    let m = MkvMuxer::new_webm(vec![audio("opus"), video("vp9")]).unwrap();
    assert_eq!(m.format_name(), "webm");
}

#[test]
fn header_bytes_of_both_flavours() {
    let mut w = Writer::new(MkvMuxer::new_matroska(vec![audio("opus")]).unwrap());
    w.header();
    let mut start = vec![0x1A, 0x45, 0xDF, 0xA3, 0xA3, 0x42, 0x86, 0x81, 1, 0x42, 0xF7, 0x81, 1];
    start.extend_from_slice(&[0x42, 0xF2, 0x81, 4, 0x42, 0xF3, 0x81, 8, 0x42, 0x82, 0x88]);
    start.extend_from_slice(b"matroska");
    start.extend_from_slice(&[0x42, 0x87, 0x81, 4, 0x42, 0x85, 0x81, 2]);
    start.extend_from_slice(&[0x18, 0x53, 0x80, 0x67, 1]);
    start.extend_from_slice(&[0xFF; 7]);
    start.extend_from_slice(&[0x11, 0x4D, 0x9B, 0x74, 0xD4]);
    assert_eq!(w.out[..start.len()], start[..]);
    let mut x = Writer::new(MkvMuxer::new_webm(vec![audio("opus")]).unwrap());
    x.header();
    assert!(find(&x.out, b"\x42\x82\x84webm").is_some());
    // 24-bit samples, and 44100 Hz as a 64-bit float.
    assert!(find(&w.out, &[0x62, 0x64, 0x81, 24]).is_some());
    let mut rate = vec![0xB5, 0x88];
    rate.extend_from_slice(&44100f64.to_be_bytes());
    assert!(find(&w.out, &rate).is_some());
    // Opus: 80 ms of pre-roll.
    assert!(find(&w.out, &[0x56, 0xBB, 0x84, 0x04, 0xC4, 0xB4, 0x00]).is_some());
}

#[test]
fn operations_out_of_order() {
    let mut w = Writer::new(MkvMuxer::new_matroska(vec![audio("opus")]).unwrap());
    assert_eq!(w.packet(&packet(0, Some(0), true, b"a")), Err(MkvError::HeaderNotWritten));
    assert!(w.out.is_empty());
    assert_eq!(
        w.muxer.add_chapter(5, Some(4), "x".to_string()),
        Err(MkvError::ChapterEndsBeforeStart)
    );
    assert_eq!(w.muxer.chapters().len(), 0);
    assert_eq!(w.muxer.add_chapter(5, Some(5), "x".to_string()), Ok(()));
    assert_eq!(w.muxer.chapters().len(), 1);
    assert_eq!(w.muxer.chapters()[0].display[0].language, "eng");
    w.header();
    assert_eq!(w.muxer.write_header(0), Err(MkvError::HeaderAlreadyWritten));
    assert_eq!(
        w.muxer.add_chapter(5, None, "x".to_string()),
        Err(MkvError::HeaderAlreadyWritten)
    );
    assert_eq!(w.packet(&packet(1, Some(0), true, b"a")), Err(MkvError::StreamIndexOutOfRange));
    w.trailer();
    assert!(w.muxer.write_trailer(0).is_none());
}

#[test]
fn packets_far_before_the_start_are_refused() {
    let mut w = Writer::new(MkvMuxer::new_matroska(vec![audio("opus")]).unwrap());
    w.header();
    let before = w.out.len();
    assert_eq!(
        w.packet(&packet(0, Some(-32769), true, b"a")),
        Err(MkvError::TimecodeOutOfRange)
    );
    // The Cluster has been opened all the same.
    assert_eq!(w.out[before..before + 4], [0x1F, 0x43, 0xB6, 0x75]);
    assert_eq!(w.out.len(), before + 15);
    assert_eq!(w.packet(&packet(0, Some(-32768), true, b"a")), Ok(()));
}

#[test]
fn clusters_are_opened_when_due() {
    let mut w = Writer::new(MkvMuxer::new_matroska(vec![audio("opus")]).unwrap());
    w.header();
    let start = [0x1F, 0x43, 0xB6, 0x75, 1, 0xFF, 0xFF, 0xFF, 0xFF, 0xFF, 0xFF, 0xFF, 0xE7];
    let mut opens = |pts: i64| {
        let before = w.out.len();
        w.packet(&packet(0, Some(pts), true, b"a")).unwrap();
        w.out[before..].starts_with(&start)
    };
    assert!(opens(100));
    assert!(!opens(5100));
    assert!(opens(5101));
    assert!(opens(5100));
    assert!(!opens(5100));
}

#[test]
fn packets_without_times_follow_each_other() {
    let tb = TimeBase { num: 1, den: 48000 };
    let mut s = audio("opus");
    s.time_base = tb;
    let mut w = Writer::new(MkvMuxer::new_matroska(vec![s]).unwrap());
    w.header();
    for _ in 0..3 {
        w.packet(&packet(0, None, true, &[0xFC, 1])).unwrap();
    }
    w.trailer();
    let mut m = read(&w.out);
    assert_eq!(m.next_packet().unwrap().pts, Some(0));
    assert_eq!(m.next_packet().unwrap().pts, Some(20));
    assert_eq!(m.next_packet().unwrap().pts, Some(40));
}

#[test]
fn index_entry_is_filled_in_or_voided() {
    let mut w = Writer::new(MkvMuxer::new_matroska(vec![audio("opus")]).unwrap());
    w.header();
    let segment = find(&w.out, &[0x18, 0x53, 0x80, 0x67]).unwrap() + 12;
    let entry = segment + 5 + 3 * 21;
    w.trailer();
    assert_eq!(w.out[entry..entry + 21], void_seek_entry()[..]);

    let mut w = Writer::new(MkvMuxer::new_matroska(vec![audio("opus")]).unwrap());
    w.header();
    w.packet(&packet(0, Some(0), true, b"a")).unwrap();
    let end = w.out.len();
    w.trailer();
    assert_eq!(w.out[entry..entry + 21], seek_entry(ids::CUES, (end - segment) as u64)[..]);
    assert_eq!(w.out[end..end + 4], [0x1C, 0x53, 0xBB, 0x6B]);
}

#[test]
fn one_cue_per_cluster_and_track() {
    let mut w = Writer::new(MkvMuxer::new_matroska(vec![audio("opus"), video("vp9")]).unwrap());
    w.header();
    w.packet(&packet(1, Some(0), false, b"delta")).unwrap();
    w.packet(&packet(0, Some(10), true, b"a")).unwrap();
    w.packet(&packet(1, Some(20), true, b"key")).unwrap();
    w.packet(&packet(1, Some(30), true, b"another key")).unwrap();
    w.packet(&packet(0, Some(40), true, b"b")).unwrap();
    w.trailer();
    let mut m = read(&w.out);
    assert_eq!(m.seek_to(1, 1000), Ok(20));
    assert_eq!(m.next_packet().unwrap().data, b"key");
    assert_eq!(m.seek_to(0, 1000), Ok(10));
    assert_eq!(m.next_packet().unwrap().data, b"a");
}

// ---------------------------------------------------------------------------
// There and back.

#[test]
fn document_reads_back() {
    let mut opus = audio("opus");
    opus.sample_rate = Some(48000);
    opus.extradata = b"OpusHead\x01\x02\x38\x01\x80\xBB\x00\x00\x00\x00\x00".to_vec();
    let mut flac = audio("flac");
    flac.extradata = vec![4, 5, 6];
    let mut m = MkvMuxer::new_matroska(vec![opus, video("vp9"), flac]).unwrap();
    m.add_chapter(0, Some(1_000_000), "First".to_string()).unwrap();
    m.add_chapter_full(MkvChapter {
        time_start_ns: 2_000_000,
        time_end_ns: None,
        display: vec![
            ChapterDisplay {
                title: "Zwei".to_string(),
                language: "ger".to_string(),
                country: Some("de".to_string()),
            },
            ChapterDisplay::untitled_in("fre".to_string()),
        ],
    })
    .unwrap();
    let mut w = Writer::new(m);
    w.header();
    let packets = [
        packet(1, Some(0), true, b"key"),
        packet(0, Some(3), true, &[0xFC, 1, 2]),
        packet(1, Some(40), false, b"delta"),
        packet(2, Some(41), true, &[]),
        packet(1, Some(6000), true, &[7; 300]),
        packet(0, Some(5990), true, &[0xFC, 3]),
    ];
    for p in &packets {
        w.packet(p).unwrap();
    }
    w.trailer();

    let mut d = read(&w.out);
    assert_eq!(d.timecode_scale_ns(), 1_000_000);
    let s = d.streams();
    assert_eq!(s.len(), 3);
    assert_eq!((s[0].codec_id.as_str(), s[0].media_type), ("opus", MediaType::Audio));
    assert_eq!(s[0].sample_rate, Some(Float::Double(48000f64.to_bits())));
    assert_eq!(s[0].channels, Some(2));
    assert_eq!(s[0].extradata, b"OpusHead\x01\x02\x38\x01\x80\xBB\x00\x00\x00\x00\x00");
    assert_eq!((s[1].codec_id.as_str(), s[1].media_type), ("vp9", MediaType::Video));
    assert_eq!((s[1].width, s[1].height), (Some(320), Some(240)));
    assert_eq!((s[2].codec_id.as_str(), s[2].extradata.as_slice()), ("flac", &[4u8, 5, 6][..]));
    assert_eq!(s[2].sample_format, Some(SampleFormat::S24));

    let e = d.chapters();
    assert_eq!(e.len(), 1);
    assert_eq!(e[0].chapters.len(), 2);
    assert_eq!(e[0].chapters[0].time_end_ns, Some(1_000_000));
    assert_eq!(e[0].chapters[0].displays[0].string, "First");
    assert_eq!(e[0].chapters[1].time_start_ns, 2_000_000);
    assert_eq!(e[0].chapters[1].time_end_ns, None);
    assert_eq!(e[0].chapters[1].displays[0].string, "Zwei");
    assert_eq!(e[0].chapters[1].displays[0].language, "ger");
    assert_eq!(e[0].chapters[1].displays[0].country.as_deref(), Some("de"));
    // A display without a title is not reported.
    assert_eq!(e[0].chapters[1].displays.len(), 1);

    assert!(d.crc_status().iter().all(|c| c.is_valid()));
    let covered: Vec<u32> = d.crc_status().iter().map(|c| c.element_id).collect();
    assert_eq!(covered, vec![ids::INFO, ids::TRACKS, ids::CHAPTERS, ids::CUES]);

    for p in &packets {
        let got = d.next_packet().unwrap();
        assert_eq!(got.stream_index, p.stream_index);
        assert_eq!(got.pts, p.pts);
        assert_eq!(got.keyframe, p.keyframe);
        assert_eq!(got.data, p.data);
    }
    assert_eq!(d.next_packet(), Err(MkvError::Eof));

    // Every entry of the index leads to its own packet.
    for (stream, pts, k) in [(1u32, 0i64, 0usize), (0, 3, 1), (2, 41, 3), (1, 6000, 4), (0, 5990, 5)]
    {
        assert_eq!(d.seek_to(stream, pts), Ok(pts));
        assert_eq!(d.next_packet().unwrap().data, packets[k].data);
    }
}

#[test]
fn subtitles_read_back_under_their_names() {
    let names = [
        "subrip",
        "mkv:S_TEXT/SSA",
        "mkv:S_TEXT/ASS",
        "mkv:S_TEXT/WEBVTT",
        "mkv:S_TEXT/USF",
        "mkv:S_VOBSUB",
        "mkv:S_HDMV/PGS",
        "mkv:S_HDMV/TEXTST",
        "mkv:S_DVBSUB",
        "mkv:S_KATE",
    ];
    for name in names {
        let mut s = video(name);
        s.media_type = MediaType::Subtitle;
        let mut w = Writer::new(MkvMuxer::new_matroska(vec![s]).unwrap());
        w.header();
        w.packet(&packet(0, Some(1), true, b"Hello")).unwrap();
        w.trailer();
        let mut d = read(&w.out);
        assert_eq!(d.streams()[0].codec_id, name);
        assert_eq!(d.streams()[0].media_type, MediaType::Subtitle);
        assert_eq!(d.next_packet().unwrap().data, b"Hello");
    }
}

#[test]
fn document_in_the_middle_of_an_output() {
    let mut w = Writer::new(MkvMuxer::new_webm(vec![video("vp8")]).unwrap());
    w.out = vec![0xAA; 100];
    w.header();
    w.packet(&packet(0, Some(5), true, b"key")).unwrap();
    w.packet(&packet(0, Some(9000), true, b"later")).unwrap();
    w.trailer();
    let mut d = read(&w.out[100..]);
    assert_eq!(d.streams()[0].codec_id, "vp8");
    assert_eq!(d.seek_to(0, 9001), Ok(9000));
    assert_eq!(d.next_packet().unwrap().data, b"later");
}
