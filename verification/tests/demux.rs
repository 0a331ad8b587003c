//! Reading documents that are put together by hand.

use oxideav_mkv::demux::{
    open_typed, AesCipherMode, AlphaMode, ChromaSitingHorz, ChromaSitingVert, ColourRange,
    ContentCompAlgo, ContentEncAlgo, ContentEncodingTransform, DisplayUnit, FieldOrder,
    FlagInterlaced, MatrixCoefficients, MkvDemuxer, Opening, Primaries, ProjectionType,
    SimpleTagValue, StereoMode, TargetLevel, TargetUid, TrackPlaneType, TransferCharacteristics,
};
use oxideav_mkv::ebml::{crc32_ieee, Float};
use oxideav_mkv::error::MkvError;
use oxideav_mkv::ids;
use oxideav_mkv::stream::{MediaType, SampleFormat, TimeBase};
use oxideav_mkv::write::{
    write_bytes_element, write_crc_master_element, write_element_id, write_string_element,
    write_uint_element, write_vint,
};

fn uint(id: u32, v: u64) -> Vec<u8> {
    let mut out = Vec::new();
    write_uint_element(&mut out, id, v);
    out
}

fn text(id: u32, s: &str) -> Vec<u8> {
    let mut out = Vec::new();
    write_string_element(&mut out, id, s);
    out
}

fn bytes(id: u32, b: &[u8]) -> Vec<u8> {
    let mut out = Vec::new();
    write_bytes_element(&mut out, id, b);
    out
}

fn float(id: u32, v: f64) -> Vec<u8> {
    bytes(id, &v.to_be_bytes())
}

fn master(id: u32, children: &[Vec<u8>]) -> Vec<u8> {
    bytes(id, &children.concat())
}

fn unsized_master(id: u32, children: &[Vec<u8>]) -> Vec<u8> {
    let mut out = Vec::new();
    write_element_id(&mut out, id);
    write_vint(&mut out, u64::MAX);
    out.extend_from_slice(&children.concat());
    out
}

fn ebml(doc_type: &str) -> Vec<u8> {
    master(ids::EBML_HEADER, &[text(ids::EBML_DOC_TYPE, doc_type)])
}

fn audio_track(number: u64, extra: &[Vec<u8>]) -> Vec<u8> {
    let mut children = vec![
        uint(ids::TRACK_NUMBER, number),
        uint(ids::TRACK_UID, 100 + number),
        uint(ids::TRACK_TYPE, 2),
        text(ids::CODEC_ID, "A_OPUS"),
    ];
    children.extend_from_slice(extra);
    master(ids::TRACK_ENTRY, &children)
}

fn video_track(number: u64, video: &[Vec<u8>], extra: &[Vec<u8>]) -> Vec<u8> {
    let mut children = vec![
        uint(ids::TRACK_NUMBER, number),
        uint(ids::TRACK_UID, 100 + number),
        uint(ids::TRACK_TYPE, 1),
        text(ids::CODEC_ID, "V_VP9"),
        master(ids::VIDEO, video),
    ];
    children.extend_from_slice(extra);
    master(ids::TRACK_ENTRY, &children)
}

fn simple_block(track: u8, offset: i16, flags: u8, data: &[u8]) -> Vec<u8> {
    let mut b = vec![0x80 | track];
    b.extend_from_slice(&offset.to_be_bytes());
    b.push(flags);
    b.extend_from_slice(data);
    bytes(ids::SIMPLE_BLOCK, &b)
}

fn cluster(time: u64, blocks: &[Vec<u8>]) -> Vec<u8> {
    let mut children = vec![uint(ids::TIMECODE, time)];
    children.extend_from_slice(blocks);
    master(ids::CLUSTER, &children)
}

fn document(children: &[Vec<u8>]) -> Vec<u8> {
    let mut d = ebml("matroska");
    d.extend_from_slice(&master(ids::SEGMENT, children));
    d
}

fn open(d: Vec<u8>) -> Result<MkvDemuxer, MkvError> {
    open_typed(d, &Vec::new())
}

fn failure(d: Vec<u8>) -> MkvError {
    match open(d) {
        Ok(_) => panic!("the document was opened"),
        Err(e) => e,
    }
}

/// A document with one track of the given kind and one empty Cluster.
fn with_track(track: Vec<u8>) -> MkvDemuxer {
    open(document(&[master(ids::TRACKS, &[track]), cluster(0, &[])])).unwrap()
}

fn meta<'a>(m: &'a MkvDemuxer, key: &str) -> Option<&'a str> {
    for (k, v) in m.metadata() {
        if k == key {
            return Some(v.as_str());
        }
    }
    None
}

// ---------------------------------------------------------------------------
// Opening.

#[test]
fn errors_while_opening() {
    assert_eq!(failure(vec![]), MkvError::UnexpectedEof);
    assert_eq!(
        failure(uint(ids::TIMECODE, 1)),
        MkvError::NotEbml { id: ids::TIMECODE }
    );
    assert_eq!(failure(ebml("avi")), MkvError::UnsupportedDocType);
    let mut d = ebml("webm");
    d.extend_from_slice(&uint(ids::TIMECODE, 1));
    assert_eq!(failure(d), MkvError::NotSegment { id: ids::TIMECODE });
    assert_eq!(failure(document(&[])), MkvError::NoTracks);
    assert_eq!(
        failure(document(&[master(ids::TRACKS, &[audio_track(1, &[])])])),
        MkvError::NoClusters
    );
    let mut d = ebml("webm");
    d.extend_from_slice(&unsized_master(ids::SEGMENT, &[unsized_master(ids::SEEK_HEAD, &[])]));
    assert_eq!(failure(d), MkvError::UnknownSizeElement);
}

#[test]
fn document_type_defaults_to_matroska() {
    let mut d = master(ids::EBML_HEADER, &[]);
    d.extend_from_slice(&master(
        ids::SEGMENT,
        &[master(ids::TRACKS, &[audio_track(1, &[])]), cluster(0, &[])],
    ));
    assert!(open(d).is_ok());
}

#[test]
fn format_name_and_default_time_base() {
    let m = with_track(audio_track(1, &[]));
    assert_eq!(m.format_name(), "matroska");
    assert_eq!(m.timecode_scale_ns(), 1_000_000);
    assert_eq!(m.streams()[0].time_base, TimeBase { num: 1_000_000, den: 1_000_000_000 });
    assert_eq!(m.streams()[0].duration, None);
}

#[test]
fn info_and_dates() {
    let d = document(&[
        master(
            ids::INFO,
            &[
                uint(ids::TIMECODE_SCALE, 500_000),
                float(ids::DURATION, 1234.5),
                text(ids::TITLE, "A title"),
                text(ids::MUXING_APP, "mux"),
                text(ids::WRITING_APP, "app"),
                bytes(ids::DATE_UTC, &0u64.to_be_bytes()),
            ],
        ),
        master(ids::TRACKS, &[audio_track(1, &[])]),
        cluster(0, &[]),
    ]);
    let m = open(d).unwrap();
    assert_eq!(meta(&m, "title"), Some("A title"));
    assert_eq!(meta(&m, "muxer"), Some("mux"));
    assert_eq!(meta(&m, "encoder"), Some("app"));
    assert_eq!(meta(&m, "date"), Some("2001-01-01T00:00:00Z"));
    assert_eq!(m.timecode_scale_ns(), 500_000);
    assert_eq!(m.duration(), Float::Double(1234.5f64.to_bits()));
    assert_eq!(m.streams()[0].duration, Some(Float::Double(1234.5f64.to_bits())));
}

// ---------------------------------------------------------------------------
// Streams.

#[test]
fn audio_stream() {
    let m = with_track(audio_track(
        1,
        &[
            master(
                ids::AUDIO,
                &[
                    float(ids::SAMPLING_FREQUENCY, 48000.0),
                    uint(ids::CHANNELS, 2),
                    uint(ids::BIT_DEPTH, 16),
                ],
            ),
            text(ids::LANGUAGE, "cze"),
            bytes(ids::CODEC_PRIVATE, &[1, 2, 3]),
        ],
    ));
    let s = &m.streams()[0];
    assert_eq!(s.index, 0);
    assert_eq!(s.codec_id, "opus");
    assert_eq!(s.media_type, MediaType::Audio);
    assert_eq!(s.sample_rate, Some(Float::Double(48000f64.to_bits())));
    assert_eq!(s.channels, Some(2));
    assert_eq!(s.sample_format, None);
    assert_eq!(s.language.as_deref(), Some("cze"));
    assert_eq!(s.extradata, vec![1, 2, 3]);
    assert_eq!(s.width, None);
}

#[test]
fn flac_stream_loses_its_magic() {
    let t = master(
        ids::TRACK_ENTRY,
        &[
            uint(ids::TRACK_NUMBER, 1),
            uint(ids::TRACK_TYPE, 2),
            text(ids::CODEC_ID, "A_FLAC"),
            bytes(ids::CODEC_PRIVATE, b"fLaC\x01\x02"),
            master(ids::AUDIO, &[uint(ids::BIT_DEPTH, 24)]),
        ],
    );
    let m = with_track(t);
    assert_eq!(m.streams()[0].codec_id, "flac");
    assert_eq!(m.streams()[0].extradata, vec![1, 2]);
    assert_eq!(m.streams()[0].sample_format, Some(SampleFormat::S24));
}

#[test]
fn answers_of_a_registry_come_first() {
    let d = document(&[master(ids::TRACKS, &[audio_track(1, &[])]), cluster(0, &[])]);
    let o = Opening::new(d).unwrap();
    let q = o.codec_queries();
    assert_eq!(q.len(), 1);
    assert_eq!(q[0].codec_id, "A_OPUS");
    assert_eq!(q[0].header, None);
    let m = o.finish(&vec![Some("myopus".to_string())]);
    assert_eq!(m.streams()[0].codec_id, "myopus");
}

#[test]
fn bitmap_headers_are_asked_about() {
    let mut header = vec![0u8; 40];
    header[16..20].copy_from_slice(b"FFV1");
    header.push(9);
    let t = master(
        ids::TRACK_ENTRY,
        &[
            uint(ids::TRACK_NUMBER, 1),
            uint(ids::TRACK_TYPE, 1),
            text(ids::CODEC_ID, "V_MS/VFW/FOURCC"),
            bytes(ids::CODEC_PRIVATE, &header),
            master(ids::VIDEO, &[uint(ids::PIXEL_WIDTH, 64), uint(ids::PIXEL_HEIGHT, 48)]),
        ],
    );
    let d = document(&[master(ids::TRACKS, &[t]), cluster(0, &[])]);
    let o = Opening::new(d).unwrap();
    assert_eq!(o.codec_queries()[0].fourcc, Some(b"FFV1".to_vec()));
    let m = o.finish(&vec![None]);
    assert_eq!(m.streams()[0].codec_id, "ffv1");
    assert_eq!(m.streams()[0].extradata, vec![9]);
    assert_eq!((m.streams()[0].width, m.streams()[0].height), (Some(64), Some(48)));
}

// ---------------------------------------------------------------------------
// Packets.

#[test]
fn simple_blocks_become_packets() {
    let d = document(&[
        master(ids::TRACKS, &[audio_track(1, &[]), audio_track(2, &[])]),
        cluster(
            1000,
            &[
                simple_block(2, -5, 0x80, b"one"),
                simple_block(1, 20, 0x00, b"two"),
                simple_block(9, 0, 0x80, b"no such track"),
            ],
        ),
        cluster(2000, &[simple_block(1, 0, 0x80, b"three")]),
    ]);
    let mut m = open(d).unwrap();
    let a = m.next_packet().unwrap();
    assert_eq!((a.stream_index, a.pts, a.dts), (1, Some(995), Some(995)));
    assert_eq!(a.data, b"one");
    assert!(a.keyframe);
    assert_eq!(a.duration, None);
    let b = m.next_packet().unwrap();
    assert_eq!((b.stream_index, b.pts), (0, Some(1020)));
    assert!(!b.keyframe);
    let c = m.next_packet().unwrap();
    assert!(c.keyframe);
    assert_eq!((c.pts, c.data), (Some(2000), b"three".to_vec()));
    assert_eq!(m.next_packet(), Err(MkvError::Eof));
    assert_eq!(m.next_packet(), Err(MkvError::Eof));
}

#[test]
fn block_groups_have_durations_and_references() {
    let block = |flags: u8| bytes(ids::BLOCK, &[0x81, 0, 3, flags, 7, 7]);
    let d = document(&[
        master(ids::TRACKS, &[audio_track(1, &[])]),
        cluster(
            10,
            &[
                master(ids::BLOCK_GROUP, &[block(0), uint(ids::BLOCK_DURATION, 20)]),
                master(ids::BLOCK_GROUP, &[block(0), uint(ids::REFERENCE_BLOCK, 1)]),
                master(ids::BLOCK_GROUP, &[block(0x80), uint(ids::REFERENCE_BLOCK, 1)]),
                master(ids::BLOCK_GROUP, &[block(0x80)]),
            ],
        ),
    ]);
    let mut m = open(d).unwrap();
    let a = m.next_packet().unwrap();
    assert_eq!((a.pts, a.duration, a.keyframe), (Some(13), Some(20), true));
    let b = m.next_packet().unwrap();
    assert_eq!((b.pts, b.duration, b.keyframe), (Some(13), None, false));
    // A Block in a group has no flag for keyframes.
    assert!(!m.next_packet().unwrap().keyframe);
    assert!(m.next_packet().unwrap().keyframe);
}

fn lace(flags: u8, body: &[u8]) -> Result<Vec<Vec<u8>>, MkvError> {
    let d = document(&[
        master(ids::TRACKS, &[audio_track(1, &[])]),
        cluster(0, &[simple_block(1, 0, flags, body)]),
    ]);
    let mut m = open(d).unwrap();
    let mut out = Vec::new();
    loop {
        match m.next_packet() {
            Ok(p) => out.push(p.data),
            Err(MkvError::Eof) => return Ok(out),
            Err(e) => return Err(e),
        }
    }
}

#[test]
fn xiph_lacing() {
    assert_eq!(
        lace(0x02, &[2, 1, 2, b'a', b'b', b'c', b'd', b'e', b'f']),
        Ok(vec![b"a".to_vec(), b"bc".to_vec(), b"def".to_vec()])
    );
    let mut long = vec![1, 255, 1];
    long.extend_from_slice(&[5u8; 256]);
    long.push(6);
    assert_eq!(lace(0x02, &long), Ok(vec![vec![5u8; 256], vec![6]]));
    assert_eq!(lace(0x02, &[1, 9, 1]), Err(MkvError::InvalidLacing));
}

#[test]
fn fixed_lacing() {
    assert_eq!(
        lace(0x04, &[2, 1, 2, 3, 4, 5, 6]),
        Ok(vec![vec![1, 2], vec![3, 4], vec![5, 6]])
    );
    assert_eq!(lace(0x04, &[2, 1, 2, 3, 4]), Err(MkvError::InvalidLacing));
}

#[test]
fn ebml_lacing() {
    // Three frames of 2, 3 and the remaining 1 bytes: the second size is 2 + 1.
    assert_eq!(
        lace(0x06, &[2, 0x82, 0xC0, 1, 1, 2, 2, 2, 3]),
        Ok(vec![vec![1, 1], vec![2, 2, 2], vec![3]])
    );
    assert_eq!(lace(0x06, &[2, 0x82, 0xFE, 1, 1]), Err(MkvError::InvalidLacing));
}

#[test]
fn laced_frames_share_the_duration() {
    let d = document(&[
        master(ids::TRACKS, &[audio_track(1, &[])]),
        cluster(
            100,
            &[master(
                ids::BLOCK_GROUP,
                &[
                    bytes(ids::BLOCK, &[0x81, 0, 0, 0x04, 1, b'x', b'y']),
                    uint(ids::BLOCK_DURATION, 40),
                ],
            )],
        ),
    ]);
    let mut m = open(d).unwrap();
    let a = m.next_packet().unwrap();
    let b = m.next_packet().unwrap();
    assert_eq!((a.pts, a.duration), (Some(100), Some(20)));
    assert_eq!((b.pts, b.duration), (Some(120), Some(20)));
}

#[test]
fn unknown_size_clusters_end_at_their_siblings() {
    let mut d = ebml("webm");
    d.extend_from_slice(&unsized_master(
        ids::SEGMENT,
        &[
            master(ids::TRACKS, &[audio_track(1, &[])]),
            unsized_master(ids::CLUSTER, &[uint(ids::TIMECODE, 5), simple_block(1, 0, 0, b"a")]),
            unsized_master(ids::CLUSTER, &[uint(ids::TIMECODE, 9), simple_block(1, 0, 0, b"b")]),
            master(
                ids::CUES,
                &[master(
                    ids::CUE_POINT,
                    &[
                        uint(ids::CUE_TIME, 9),
                        master(
                            ids::CUE_TRACK_POSITIONS,
                            &[uint(ids::CUE_TRACK, 1), uint(ids::CUE_CLUSTER_POSITION, 0)],
                        ),
                    ],
                )],
            ),
        ],
    ));
    let mut m = open(d).unwrap();
    assert_eq!(m.next_packet().unwrap().pts, Some(5));
    assert_eq!(m.next_packet().unwrap().pts, Some(9));
    assert_eq!(m.next_packet(), Err(MkvError::Eof));
    assert_eq!(m.seek_to(0, 9), Ok(9));
}

#[test]
fn bad_blocks_are_passed_over() {
    let group = master(ids::BLOCK_GROUP, &[bytes(ids::BLOCK, &[0x81, 0, 2, 0x04, 1, 9])]);
    let d = document(&[
        master(ids::TRACKS, &[audio_track(1, &[])]),
        cluster(
            0,
            &[
                simple_block(1, 1, 0x04, &[2, 1, 2]),
                group,
                unsized_master(0xA7, &[]),
                simple_block(1, 3, 0x80, b"good"),
            ],
        ),
    ]);
    let mut m = open(d).unwrap();
    assert_eq!(m.next_packet(), Err(MkvError::InvalidLacing));
    assert_eq!(m.next_packet(), Err(MkvError::InvalidLacing));
    assert_eq!(m.next_packet(), Err(MkvError::InvalidSkip));
    assert_eq!(m.next_packet().unwrap().data, b"good");
    assert_eq!(m.next_packet(), Err(MkvError::Eof));
}

#[test]
fn failures_are_behind_the_reader() {
    // A time that is too long holds an element, and a group one that cannot be skipped.
    let long_time = bytes(ids::TIMECODE, &simple_block(1, 1, 0x80, b"in the time"));
    let group = master(
        ids::BLOCK_GROUP,
        &[unsized_master(0xA7, &[]), simple_block(1, 2, 0x80, b"in the group")],
    );
    let long_duration = master(
        ids::BLOCK_GROUP,
        &[bytes(ids::BLOCK_DURATION, &[0xEC, 0x87, 0, 0, 0, 0, 0, 0, 0])],
    );
    let d = document(&[
        master(ids::TRACKS, &[audio_track(1, &[])]),
        cluster(0, &[long_time, group, long_duration, simple_block(1, 3, 0x80, b"behind")]),
    ]);
    let mut m = open(d).unwrap();
    assert_eq!(m.next_packet(), Err(MkvError::InvalidUintSize));
    assert_eq!(m.next_packet().unwrap().data, b"in the time");
    assert_eq!(m.next_packet(), Err(MkvError::InvalidSkip));
    assert_eq!(m.next_packet().unwrap().data, b"in the group");
    assert_eq!(m.next_packet(), Err(MkvError::InvalidUintSize));
    assert_eq!(m.next_packet().unwrap().data, b"behind");
    assert_eq!(m.next_packet(), Err(MkvError::Eof));
}

#[test]
fn block_cut_off_by_the_end_is_used_up() {
    let mut d = ebml("webm");
    d.extend_from_slice(&unsized_master(
        ids::SEGMENT,
        &[
            master(ids::TRACKS, &[audio_track(1, &[])]),
            unsized_master(ids::CLUSTER, &[uint(ids::TIMECODE, 5), simple_block(1, 0, 0, b"a")]),
        ],
    ));
    d.truncate(d.len() - 1);
    let mut m = open(d).unwrap();
    assert_eq!(m.next_packet(), Err(MkvError::UnexpectedEof));
    assert_eq!(m.next_packet(), Err(MkvError::Eof));
}

#[test]
fn cut_off_document_reports_it() {
    let mut d = document(&[
        master(ids::TRACKS, &[audio_track(1, &[])]),
        cluster(0, &[simple_block(1, 0, 0x80, b"whole"), simple_block(1, 1, 0x80, b"cut")]),
    ]);
    d.truncate(d.len() - 1);
    let mut m = open(d).unwrap();
    assert_eq!(m.next_packet().unwrap().data, b"whole");
    assert_eq!(m.next_packet(), Err(MkvError::UnexpectedEof));
    assert_eq!(m.next_packet(), Err(MkvError::UnexpectedEof));
}

// ---------------------------------------------------------------------------
// Seeking.

fn cue(time: u64, track: u64, at: u64, rel: Option<u64>) -> Vec<u8> {
    let mut p = vec![uint(ids::CUE_TRACK, track), uint(ids::CUE_CLUSTER_POSITION, at)];
    if let Some(r) = rel {
        p.push(uint(ids::CUE_RELATIVE_POSITION, r));
    }
    master(
        ids::CUE_POINT,
        &[uint(ids::CUE_TIME, time), master(ids::CUE_TRACK_POSITIONS, &p)],
    )
}

fn seekable(rel: Option<u64>) -> MkvDemuxer {
    let tracks = master(ids::TRACKS, &[audio_track(1, &[])]);
    let first = cluster(0, &[simple_block(1, 0, 0x80, b"a"), simple_block(1, 10, 0x80, b"b")]);
    let second = cluster(100, &[simple_block(1, 0, 0x80, b"c"), simple_block(1, 10, 0x80, b"d")]);
    let at1 = tracks.len() as u64;
    let at2 = at1 + first.len() as u64;
    let cues = master(ids::CUES, &[cue(100, 1, at2, rel), cue(0, 1, at1, None)]);
    open(document(&[tracks, first, second, cues])).unwrap()
}

#[test]
fn seeks_land_on_the_last_entry_in_time() {
    let mut m = seekable(None);
    assert_eq!(m.seek_to(0, 150), Ok(100));
    assert_eq!(m.next_packet().unwrap().data, b"c");
    assert_eq!(m.seek_to(0, 99), Ok(0));
    assert_eq!(m.next_packet().unwrap().data, b"a");
    assert_eq!(m.seek_to(0, -7), Ok(0));
    assert_eq!(m.next_packet().unwrap().data, b"a");
}

#[test]
fn seeks_honour_the_relative_position() {
    // The time element takes three bytes, and the first block seven.
    let mut m = seekable(Some(3 + 7));
    assert_eq!(m.seek_to(0, 100), Ok(100));
    let p = m.next_packet().unwrap();
    assert_eq!((p.data, p.pts), (b"d".to_vec(), Some(110)));
}

#[test]
fn relative_position_out_of_range_falls_back() {
    let mut m = seekable(Some(1_000_000));
    assert_eq!(m.seek_to(0, 100), Ok(100));
    assert_eq!(m.next_packet().unwrap().data, b"c");
}

#[test]
fn seeks_that_are_refused() {
    let mut m = seekable(None);
    assert_eq!(m.seek_to(1, 0), Err(MkvError::StreamIndexOutOfRange));
    let mut n = with_track(audio_track(1, &[]));
    assert_eq!(n.seek_to(0, 0), Err(MkvError::SeekUnsupported));
}

#[test]
fn seeks_drop_what_was_read_ahead() {
    let tracks = master(ids::TRACKS, &[audio_track(1, &[])]);
    let at = tracks.len() as u64;
    let laced = cluster(0, &[simple_block(1, 0, 0x84, &[1, b'x', b'y'])]);
    let cues = master(ids::CUES, &[cue(0, 1, at, None)]);
    let mut m = open(document(&[tracks, laced, cues])).unwrap();
    assert_eq!(m.next_packet().unwrap().data, b"x");
    assert_eq!(m.seek_to(0, 0), Ok(0));
    assert_eq!(m.next_packet().unwrap().data, b"x");
    assert_eq!(m.next_packet().unwrap().data, b"y");
}

// ---------------------------------------------------------------------------
// Checksums.

#[test]
fn checksums_are_reported() {
    let info_body = uint(ids::TIMECODE_SCALE, 1_000_000);
    let mut info = Vec::new();
    write_crc_master_element(&mut info, ids::INFO, &info_body);
    let mut torn = bytes(ids::CRC32, &[1, 2, 3, 4]);
    torn.extend_from_slice(&audio_track(1, &[]));
    let tracks = bytes(ids::TRACKS, &torn);
    let good = uint(ids::TIMECODE, 3);
    let mut clus = Vec::new();
    write_crc_master_element(&mut clus, ids::CLUSTER, &good);
    let mut m = open(document(&[info, tracks, clus])).unwrap();
    let s = m.crc_status();
    assert_eq!(s.len(), 2);
    assert_eq!(s[0].element_id, ids::INFO);
    assert_eq!(s[0].stored, crc32_ieee(&info_body));
    assert!(s[0].is_valid());
    assert_eq!(s[1].element_id, ids::TRACKS);
    assert_eq!(s[1].stored, 0x0403_0201);
    assert!(!s[1].is_valid());
    assert_eq!(m.next_packet(), Err(MkvError::Eof));
    assert_eq!(m.crc_status().len(), 3);
    assert_eq!(m.crc_status()[2].element_id, ids::CLUSTER);
    assert!(m.crc_status()[2].is_valid());
}

#[test]
fn cluster_checksums_are_noted_once() {
    let tracks = master(ids::TRACKS, &[audio_track(1, &[])]);
    let at = tracks.len() as u64;
    let mut body = uint(ids::TIMECODE, 0);
    body.extend_from_slice(&simple_block(1, 0, 0x80, b"a"));
    let mut clus = Vec::new();
    write_crc_master_element(&mut clus, ids::CLUSTER, &body);
    let cues = master(ids::CUES, &[cue(0, 1, at, None)]);
    let mut m = open(document(&[tracks, clus, cues])).unwrap();
    for _ in 0..3 {
        assert_eq!(m.next_packet().unwrap().data, b"a");
        assert_eq!(m.crc_status().len(), 1);
        assert_eq!(m.seek_to(0, 0), Ok(0));
    }
}

// ---------------------------------------------------------------------------
// Tags, chapters and attachments.

fn tag(targets: &[Vec<u8>], name: &str, value: &str) -> Vec<u8> {
    master(
        ids::TAG,
        &[
            master(ids::TARGETS, targets),
            master(ids::SIMPLE_TAG, &[text(ids::TAG_NAME, name), text(ids::TAG_STRING, value)]),
        ],
    )
}

#[test]
fn tags_are_resolved() {
    let d = document(&[
        master(ids::TRACKS, &[audio_track(1, &[]), audio_track(2, &[])]),
        master(
            ids::TAGS,
            &[
                tag(&[uint(ids::TAG_TRACK_UID, 102)], "ARTIST", "someone"),
                tag(&[], "Title", "all"),
                tag(&[uint(ids::TAG_TRACK_UID, 0)], "ZERO", "global"),
                tag(&[uint(ids::TAG_TRACK_UID, 999)], "GONE", "nothing"),
                tag(
                    &[uint(ids::TAG_TRACK_UID, 999), uint(ids::TAG_TRACK_UID, 101)],
                    "MIXED",
                    "kept",
                ),
            ],
        ),
        cluster(0, &[]),
    ]);
    let m = open(d).unwrap();
    assert_eq!(meta(&m, "tag:track:1:artist"), Some("someone"));
    assert_eq!(meta(&m, "title"), Some("all"));
    assert_eq!(meta(&m, "zero"), Some("global"));
    assert_eq!(meta(&m, "gone"), None);
    assert_eq!(meta(&m, "tag:track:0:mixed"), Some("kept"));
    assert_eq!(m.tags().len(), 4);
    assert_eq!(
        m.tags()[0].targets.uids,
        vec![TargetUid::Track { stream_index: 1, track_uid: 102 }]
    );
    assert_eq!(
        m.tags()[3].targets.uids,
        vec![TargetUid::Track { stream_index: 0, track_uid: 101 }]
    );
}

#[test]
fn tag_details() {
    let d = document(&[
        master(ids::TRACKS, &[audio_track(1, &[])]),
        master(
            ids::TAGS,
            &[master(
                ids::TAG,
                &[
                    master(
                        ids::TARGETS,
                        &[uint(ids::TARGET_TYPE_VALUE, 30), text(ids::TARGET_TYPE, "SONG")],
                    ),
                    master(
                        ids::SIMPLE_TAG,
                        &[
                            text(ids::TAG_NAME, "COVER"),
                            bytes(ids::TAG_BINARY, &[1, 2]),
                            text(ids::TAG_LANGUAGE, "fre"),
                        ],
                    ),
                    master(ids::SIMPLE_TAG, &[text(ids::TAG_NAME, "EMPTY")]),
                ],
            )],
        ),
        cluster(0, &[]),
    ]);
    let m = open(d).unwrap();
    let t = &m.tags()[0];
    assert_eq!(t.targets.target_level(), Some(TargetLevel::Track));
    assert_eq!(t.targets.target_type.as_deref(), Some("SONG"));
    assert_eq!(t.simple_tags[0].value, SimpleTagValue::Binary(vec![1, 2]));
    assert_eq!(t.simple_tags[0].language, "fre");
    assert_eq!(t.simple_tags[1].value, SimpleTagValue::Absent);
    assert_eq!(t.simple_tags[1].language, "und");
    assert_eq!(meta(&m, "cover"), None);
}

#[test]
fn target_levels() {
    let all = [
        (10, TargetLevel::Shot),
        (20, TargetLevel::Subtrack),
        (30, TargetLevel::Track),
        (40, TargetLevel::Part),
        (50, TargetLevel::Album),
        (60, TargetLevel::Edition),
        (70, TargetLevel::Collection),
        (99, TargetLevel::Other(99)),
    ];
    for (i, (v, l)) in all.iter().enumerate() {
        assert_eq!(TargetLevel::from_raw(*v), *l);
        assert_eq!(l.to_raw(), *v);
        for (_, lower) in &all[..i] {
            assert!(lower < l);
        }
    }
    assert_eq!(TargetLevel::Album.canonical_label(), Some("ALBUM"));
    assert_eq!(TargetLevel::Other(1).canonical_label(), None);
}

fn atom(children: &[Vec<u8>]) -> Vec<u8> {
    master(ids::CHAPTER_ATOM, children)
}

#[test]
fn chapters_are_numbered_in_document_order() {
    let display = master(
        ids::CHAPTER_DISPLAY,
        &[text(ids::CHAP_STRING, "Start"), text(ids::CHAP_LANGUAGE, "ger")],
    );
    let d = document(&[
        master(ids::TRACKS, &[audio_track(1, &[])]),
        master(
            ids::CHAPTERS,
            &[
                master(
                    ids::EDITION_ENTRY,
                    &[
                        uint(ids::EDITION_UID, 7),
                        uint(ids::EDITION_FLAG_DEFAULT, 1),
                        atom(&[
                            uint(ids::CHAPTER_UID, 11),
                            uint(ids::CHAPTER_TIME_START, 2_500_000),
                            uint(ids::CHAPTER_TIME_END, 9_999_999),
                            display,
                            atom(&[uint(ids::CHAPTER_UID, 12)]),
                        ]),
                        atom(&[uint(ids::CHAPTER_UID, 13)]),
                    ],
                ),
                master(ids::EDITION_ENTRY, &[atom(&[])]),
            ],
        ),
        master(
            ids::TAGS,
            &[
                tag(&[uint(ids::TAG_CHAPTER_UID, 12)], "NAME", "inner"),
                tag(&[uint(ids::TAG_EDITION_UID, 7)], "NAME", "cut"),
            ],
        ),
        cluster(0, &[]),
    ]);
    let m = open(d).unwrap();
    assert_eq!(m.chapters().len(), 2);
    let e = &m.chapters()[0];
    assert_eq!((e.uid, e.default, e.ordered), (Some(7), true, false));
    assert_eq!(e.chapters.len(), 2);
    let c = &e.chapters[0];
    assert_eq!((c.index, c.uid), (1, Some(11)));
    assert_eq!((c.time_start_ns, c.time_end_ns), (2_500_000, Some(9_999_999)));
    assert!(c.enabled && !c.hidden);
    assert_eq!(c.displays[0].string, "Start");
    assert_eq!(c.displays[0].language, "ger");
    assert_eq!(c.children[0].index, 2);
    assert_eq!(e.chapters[1].index, 3);
    assert_eq!(m.chapters()[1].chapters[0].index, 4);
    assert_eq!(meta(&m, "chapter:1:start_ms"), Some("2"));
    assert_eq!(meta(&m, "chapter:1:end_ms"), Some("9"));
    assert_eq!(meta(&m, "chapter:1:title"), Some("Start"));
    assert_eq!(meta(&m, "chapter:3:end_ms"), None);
    assert_eq!(meta(&m, "tag:chapter:2:name"), Some("inner"));
    assert_eq!(meta(&m, "tag:edition:1:name"), Some("cut"));
}

fn nested(levels: usize) -> Vec<u8> {
    let mut c = atom(&[]);
    for _ in 1..levels {
        c = atom(&[c]);
    }
    document(&[
        master(ids::TRACKS, &[audio_track(1, &[])]),
        master(ids::CHAPTERS, &[master(ids::EDITION_ENTRY, &[c])]),
        cluster(0, &[]),
    ])
}

#[test]
fn chapters_are_nested_only_so_deep() {
    assert!(open(nested(64)).is_ok());
    assert_eq!(failure(nested(65)), MkvError::ChapterNesting);
}

fn file(name: &str, uid: u64, data: &[u8]) -> Vec<u8> {
    master(
        ids::ATTACHED_FILE,
        &[
            text(ids::FILE_NAME, name),
            text(ids::FILE_MIME_TYPE, "font/ttf"),
            text(ids::FILE_DESCRIPTION, "a font"),
            uint(ids::FILE_UID, uid),
            bytes(ids::FILE_DATA, data),
        ],
    )
}

#[test]
fn attachments_are_read_on_demand() {
    let d = document(&[
        master(ids::TRACKS, &[audio_track(1, &[])]),
        master(ids::ATTACHMENTS, &[file("one.ttf", 5, b"1111"), file("two.ttf", 6, b"22")]),
        cluster(0, &[simple_block(1, 0, 0x80, b"a"), simple_block(1, 1, 0x80, b"b")]),
    ]);
    let mut m = open(d).unwrap();
    assert_eq!(m.attachments().len(), 2);
    assert_eq!(m.attachments()[1].index, 2);
    assert_eq!(m.attachments()[1].filename, "two.ttf");
    assert_eq!(m.attachments()[1].mime_type, "font/ttf");
    assert_eq!(m.attachments()[1].description, "a font");
    assert_eq!(m.attachments()[1].uid, 6);
    assert_eq!(m.attachments()[1].data_size, 2);
    assert_eq!(meta(&m, "attachment:1:filename"), Some("one.ttf"));
    assert_eq!(meta(&m, "attachment:1:size_bytes"), Some("4"));
    assert_eq!(meta(&m, "attachment:1:mime_type"), Some("font/ttf"));
    assert_eq!(meta(&m, "attachment:1:description"), Some("a font"));
    assert_eq!(m.next_packet().unwrap().data, b"a");
    assert_eq!(m.attachment_data(1), Ok(b"1111".to_vec()));
    assert_eq!(m.attachment_data(2), Ok(b"22".to_vec()));
    assert_eq!(m.next_packet().unwrap().data, b"b");
    assert_eq!(m.attachment_data(0), Err(MkvError::AttachmentIndexOutOfRange));
    assert_eq!(m.attachment_data(3), Err(MkvError::AttachmentIndexOutOfRange));
}

// ---------------------------------------------------------------------------
// Video.

#[test]
fn video_defaults_are_filled_in() {
    let m = with_track(video_track(
        1,
        &[uint(ids::PIXEL_WIDTH, 640), uint(ids::PIXEL_HEIGHT, 480)],
        &[],
    ));
    assert_eq!((m.streams()[0].width, m.streams()[0].height), (Some(640), Some(480)));
    let i = m.video_interlacing(0).unwrap();
    assert_eq!((i.flag(), i.field_order()), (FlagInterlaced::Undetermined, None));
    let g = m.video_geometry(0).unwrap();
    assert_eq!((g.display_width(), g.display_height()), (Some(640), Some(480)));
    assert_eq!(g.display_unit(), DisplayUnit::Pixels);
    assert_eq!(m.video_stereo_mode(0), Some(StereoMode::Mono));
    assert_eq!(m.video_alpha_mode(0), Some(AlphaMode::Absent));
    assert!(m.video_colour(0).is_none());
    assert!(m.video_projection(0).is_none());
    assert_eq!(m.video_aspect_ratio_type(0), None);
    assert!(m.video_uncompressed_fourcc(0).is_none());
    assert!(m.video_geometry(1).is_none());
}

#[test]
fn tracks_without_video_have_no_video_facts() {
    let m = with_track(audio_track(1, &[]));
    assert!(m.video_interlacing(0).is_none());
    assert!(m.video_geometry(0).is_none());
    assert_eq!(m.video_stereo_mode(0), None);
    assert_eq!(m.video_alpha_mode(0), None);
    assert!(m.track_operation(0).is_none());
    assert!(m.content_encodings(0).is_none());
    assert!(m.block_addition_mappings(0).is_empty());
    assert_eq!(m.video_geometries().len(), 1);
}

#[test]
fn field_order_needs_interlacing() {
    let m = with_track(video_track(
        1,
        &[uint(ids::FLAG_INTERLACED, 1), uint(ids::FIELD_ORDER, 1)],
        &[],
    ));
    assert_eq!(m.video_interlacing(0).unwrap().field_order(), Some(FieldOrder::Tff));
    let n = with_track(video_track(
        1,
        &[uint(ids::FLAG_INTERLACED, 2), uint(ids::FIELD_ORDER, 1)],
        &[],
    ));
    assert_eq!(n.video_interlacing(0).unwrap().field_order(), None);
    let o = with_track(video_track(1, &[uint(ids::FLAG_INTERLACED, 1)], &[]));
    assert_eq!(o.video_interlacing(0).unwrap().field_order(), Some(FieldOrder::Undetermined));
}

#[test]
fn geometry_is_derived_for_pixels_alone() {
    let crop = vec![
        uint(ids::PIXEL_WIDTH, 100),
        uint(ids::PIXEL_HEIGHT, 50),
        uint(ids::PIXEL_CROP_LEFT, 10),
        uint(ids::PIXEL_CROP_RIGHT, 5),
        uint(ids::PIXEL_CROP_TOP, 60),
    ];
    let m = with_track(video_track(1, &crop, &[]));
    let g = m.video_geometry(0).unwrap();
    assert_eq!(g.display_width(), Some(85));
    assert_eq!(g.display_height(), None);
    assert_eq!(
        (g.pixel_crop_top(), g.pixel_crop_bottom(), g.pixel_crop_left(), g.pixel_crop_right()),
        (60, 0, 10, 5)
    );
    let mut other = crop.clone();
    other.push(uint(ids::DISPLAY_UNIT, 3));
    other.push(uint(ids::DISPLAY_WIDTH, 16));
    let n = with_track(video_track(1, &other, &[]));
    let g = n.video_geometry(0).unwrap();
    assert_eq!((g.display_width(), g.display_height()), (Some(16), None));
    assert_eq!(g.display_unit(), DisplayUnit::DisplayAspectRatio);
}

#[test]
fn colours() {
    let m = with_track(video_track(1, &[master(ids::COLOUR, &[])], &[]));
    let c = m.video_colour(0).unwrap();
    assert_eq!(c.matrix_coefficients(), MatrixCoefficients::Unspecified);
    assert_eq!(c.transfer_characteristics(), TransferCharacteristics::Unspecified);
    assert_eq!(c.primaries(), Primaries::Unspecified);
    assert_eq!(c.range(), ColourRange::Unspecified);
    assert_eq!(c.chroma_siting_horz(), ChromaSitingHorz::Unspecified);
    assert_eq!(c.max_cll(), None);
    assert!(c.mastering_metadata().is_none());
    let n = with_track(video_track(
        1,
        &[master(
            ids::COLOUR,
            &[
                uint(ids::MATRIX_COEFFICIENTS, 9),
                uint(ids::BITS_PER_CHANNEL, 10),
                uint(ids::COLOUR_RANGE, 1),
                uint(ids::TRANSFER_CHARACTERISTICS, 16),
                uint(ids::PRIMARIES, 9),
                uint(ids::MAX_CLL, 1000),
                uint(ids::CHROMA_SUBSAMPLING_HORZ, 1),
                master(ids::MASTERING_METADATA, &[float(ids::LUMINANCE_MAX, 1000.0)]),
            ],
        )],
        &[],
    ));
    let c = n.video_colour(0).unwrap();
    assert_eq!(c.matrix_coefficients().to_raw(), 9);
    assert_eq!(c.bits_per_channel(), 10);
    assert_eq!(c.transfer_characteristics().to_raw(), 16);
    assert_eq!(c.primaries().to_raw(), 9);
    assert_eq!(c.max_cll(), Some(1000));
    assert_eq!(c.chroma_subsampling_horz(), Some(1));
    let h = c.mastering_metadata().unwrap();
    assert_eq!(h.luminance_max(), Some(Float::Double(1000f64.to_bits())));
    assert_eq!(h.luminance_min(), None);
}

#[test]
fn projections() {
    let m = with_track(video_track(
        1,
        &[master(ids::PROJECTION, &[float(ids::PROJECTION_POSE_ROLL, 90.0)])],
        &[],
    ));
    let p = m.video_projection(0).unwrap();
    assert_eq!(p.projection_type(), ProjectionType::Rectangular);
    assert_eq!(p.pose_roll(), Float::Double(90f64.to_bits()));
    assert!(p.pose_yaw().is_zero());
    assert!(p.is_rotated());
    assert!(!p.projection_type().is_spherical());
    assert_eq!(p.private(), None);
    let n = with_track(video_track(
        1,
        &[master(
            ids::PROJECTION,
            &[uint(ids::PROJECTION_TYPE, 1), bytes(ids::PROJECTION_PRIVATE, &[4, 5])],
        )],
        &[],
    ));
    let p = n.video_projection(0).unwrap();
    assert_eq!(p.projection_type(), ProjectionType::Equirectangular);
    assert!(p.projection_type().is_spherical());
    assert!(!p.is_rotated());
    assert_eq!(p.private(), Some(&[4u8, 5][..]));
}

#[test]
fn other_video_facts() {
    let m = with_track(video_track(
        1,
        &[
            uint(ids::STEREO_MODE, 3),
            uint(ids::ALPHA_MODE, 1),
            uint(ids::ASPECT_RATIO_TYPE, 0),
            bytes(ids::UNCOMPRESSED_FOURCC, b"YUY2"),
        ],
        &[],
    ));
    assert_eq!(m.video_stereo_mode(0).unwrap().to_raw(), 3);
    assert!(m.video_stereo_mode(0).unwrap().is_stereo());
    assert!(m.video_alpha_mode(0).unwrap().has_alpha());
    assert_eq!(m.video_aspect_ratio_type(0), Some(0));
    let f = m.video_uncompressed_fourcc(0).unwrap();
    assert_eq!(f.fourcc(), Some(*b"YUY2"));
    assert_eq!(f.as_str(), Some("YUY2".to_string()));
    let o = with_track(video_track(1, &[bytes(ids::UNCOMPRESSED_FOURCC, b"\xFFUY2")], &[]));
    let f = o.video_uncompressed_fourcc(0).unwrap();
    assert_eq!(f.fourcc(), Some(*b"\xFFUY2"));
    assert_eq!(f.as_str(), Some("\u{FFFD}UY2".to_string()));
    let n = with_track(video_track(1, &[bytes(ids::UNCOMPRESSED_FOURCC, b"YU")], &[]));
    let f = n.video_uncompressed_fourcc(0).unwrap();
    assert_eq!(f.as_bytes(), b"YU");
    assert_eq!((f.fourcc(), f.as_str()), (None, None));
}

#[test]
fn named_values() {
    assert_eq!(ProjectionType::from_raw(2), ProjectionType::Cubemap);
    assert_eq!(ProjectionType::from_raw(3), ProjectionType::Mesh);
    assert_eq!(ProjectionType::from_raw(9), ProjectionType::Other(9));
    assert_eq!(TrackPlaneType::from_raw(0), TrackPlaneType::LeftEye);
    assert_eq!(TrackPlaneType::from_raw(2), TrackPlaneType::Background);
    assert_eq!(TrackPlaneType::from_raw(7), TrackPlaneType::Other(7));
    assert_eq!(ContentCompAlgo::from_raw(0), ContentCompAlgo::Zlib);
    assert_eq!(ContentCompAlgo::from_raw(8), ContentCompAlgo::Other(8));
    assert_eq!(ContentEncAlgo::from_raw(0), ContentEncAlgo::NotEncrypted);
    assert_eq!(ContentEncAlgo::from_raw(8), ContentEncAlgo::Other(8));
    assert_eq!(AesCipherMode::from_raw(2), AesCipherMode::Cbc);
    assert_eq!(AesCipherMode::from_raw(8), AesCipherMode::Other(8));
}

#[test]
fn raw_values_round_trip() {
    for v in 0..30u64 {
        assert_eq!(FlagInterlaced::from_raw(v).to_raw(), v);
        assert_eq!(FieldOrder::from_raw(v).to_raw(), v);
        assert_eq!(StereoMode::from_raw(v).to_raw(), v);
        assert_eq!(AlphaMode::from_raw(v).to_raw(), v);
        assert_eq!(DisplayUnit::from_raw(v).to_raw(), v);
        assert_eq!(MatrixCoefficients::from_raw(v).to_raw(), v);
        assert_eq!(TransferCharacteristics::from_raw(v).to_raw(), v);
        assert_eq!(Primaries::from_raw(v).to_raw(), v);
        assert_eq!(ColourRange::from_raw(v).to_raw(), v);
        assert_eq!(ChromaSitingHorz::from_raw(v).to_raw(), v);
        assert_eq!(ChromaSitingVert::from_raw(v).to_raw(), v);
        assert_eq!(TargetLevel::from_raw(v).to_raw(), v);
    }
}

// ---------------------------------------------------------------------------
// Operations, encodings and block additions.

#[test]
fn track_operations() {
    let op = master(
        ids::TRACK_OPERATION,
        &[
            master(
                ids::TRACK_COMBINE_PLANES,
                &[
                    master(
                        ids::TRACK_PLANE,
                        &[uint(ids::TRACK_PLANE_UID, 101), uint(ids::TRACK_PLANE_TYPE, 1)],
                    ),
                    master(ids::TRACK_PLANE, &[uint(ids::TRACK_PLANE_UID, 777)]),
                    master(ids::TRACK_PLANE, &[uint(ids::TRACK_PLANE_TYPE, 2)]),
                ],
            ),
            master(
                ids::TRACK_JOIN_BLOCKS,
                &[uint(ids::TRACK_JOIN_UID, 0), uint(ids::TRACK_JOIN_UID, 102)],
            ),
        ],
    );
    let d = document(&[
        master(ids::TRACKS, &[audio_track(1, &[]), video_track(2, &[], &[op])]),
        cluster(0, &[]),
    ]);
    let m = open(d).unwrap();
    assert!(m.track_operation(0).is_none());
    let o = m.track_operation(1).unwrap();
    assert!(!o.is_empty());
    assert_eq!(o.planes.len(), 2);
    assert_eq!(o.planes[0].track.track_uid, 101);
    assert_eq!(o.planes[0].track.stream_index, Some(0));
    assert_eq!(o.planes[0].plane_type, TrackPlaneType::RightEye);
    assert_eq!(o.planes[1].track.stream_index, None);
    assert_eq!(o.planes[1].plane_type, TrackPlaneType::LeftEye);
    assert_eq!(o.join_tracks.len(), 1);
    assert_eq!(o.join_tracks[0].stream_index, Some(1));
}

fn strip(order: u64, prefix: &[u8], extra: &[Vec<u8>]) -> Vec<u8> {
    let mut children = vec![
        uint(ids::CONTENT_ENCODING_ORDER, order),
        master(
            ids::CONTENT_COMPRESSION,
            &[uint(ids::CONTENT_COMP_ALGO, 3), bytes(ids::CONTENT_COMP_SETTINGS, prefix)],
        ),
    ];
    children.extend_from_slice(extra);
    master(ids::CONTENT_ENCODING, &children)
}

fn first_frame(encodings: &[Vec<u8>]) -> Vec<u8> {
    let d = document(&[
        master(ids::TRACKS, &[audio_track(1, &[master(ids::CONTENT_ENCODINGS, encodings)])]),
        cluster(0, &[simple_block(1, 0, 0x80, b"frame")]),
    ]);
    open(d).unwrap().next_packet().unwrap().data
}

#[test]
fn stripped_headers_come_back() {
    assert_eq!(first_frame(&[strip(0, b"AB", &[])]), b"ABframe");
    // Written last is undone first: the prefix with the lower order ends up in front.
    assert_eq!(first_frame(&[strip(0, b"A", &[]), strip(1, b"B", &[])]), b"ABframe");
}

#[test]
fn headers_stay_off_where_something_else_was_done() {
    let zlib = master(
        ids::CONTENT_ENCODING,
        &[master(ids::CONTENT_COMPRESSION, &[uint(ids::CONTENT_COMP_ALGO, 0)])],
    );
    assert_eq!(first_frame(&[strip(1, b"AB", &[]), zlib]), b"frame");
    let private = strip(0, b"AB", &[uint(ids::CONTENT_ENCODING_SCOPE, 2)]);
    assert_eq!(first_frame(&[private]), b"frame");
}

#[test]
fn laced_frames_each_get_their_header() {
    let d = document(&[
        master(
            ids::TRACKS,
            &[audio_track(1, &[master(ids::CONTENT_ENCODINGS, &[strip(0, b"-", &[])])])],
        ),
        cluster(0, &[simple_block(1, 0, 0x84, &[1, b'x', b'y'])]),
    ]);
    let mut m = open(d).unwrap();
    assert_eq!(m.next_packet().unwrap().data, b"-x");
    assert_eq!(m.next_packet().unwrap().data, b"-y");
}

#[test]
fn encodings_in_decode_order() {
    let encryption = master(
        ids::CONTENT_ENCODING,
        &[
            uint(ids::CONTENT_ENCODING_ORDER, 5),
            uint(ids::CONTENT_ENCODING_TYPE, 1),
            uint(ids::CONTENT_ENCODING_SCOPE, 3),
            master(
                ids::CONTENT_ENCRYPTION,
                &[
                    uint(ids::CONTENT_ENC_ALGO, 5),
                    bytes(ids::CONTENT_ENC_KEY_ID, &[8, 8]),
                    master(
                        ids::CONTENT_ENC_AES_SETTINGS,
                        &[uint(ids::AES_SETTINGS_CIPHER_MODE, 1)],
                    ),
                ],
            ),
        ],
    );
    let m = with_track(audio_track(
        1,
        &[master(ids::CONTENT_ENCODINGS, &[strip(0, b"A", &[]), encryption])],
    ));
    let e = m.content_encodings(0).unwrap();
    assert!(!e.is_empty());
    assert_eq!(e.encodings[0].order, 5);
    assert!(e.encodings[0].scope.block() && e.encodings[0].scope.private());
    assert!(!e.encodings[0].scope.next());
    assert_eq!(
        e.encodings[0].transform,
        ContentEncodingTransform::Encryption {
            algo: ContentEncAlgo::Aes,
            key_id: vec![8, 8],
            aes_cipher_mode: Some(AesCipherMode::Ctr),
        }
    );
    assert_eq!(e.encodings[1].order, 0);
    assert_eq!(
        e.encodings[1].transform,
        ContentEncodingTransform::Compression {
            algo: ContentCompAlgo::HeaderStripping,
            settings: b"A".to_vec(),
        }
    );
}

#[test]
fn block_additions() {
    let m = with_track(audio_track(
        1,
        &[
            master(
                ids::BLOCK_ADDITION_MAPPING,
                &[
                    uint(ids::BLOCK_ADD_ID_VALUE, 2),
                    text(ids::BLOCK_ADD_ID_NAME, "hdr"),
                    uint(ids::BLOCK_ADD_ID_TYPE, 4),
                    bytes(ids::BLOCK_ADD_ID_EXTRA_DATA, &[1]),
                ],
            ),
            master(ids::BLOCK_ADDITION_MAPPING, &[]),
        ],
    ));
    let b = m.block_addition_mappings(0);
    assert_eq!(b.len(), 2);
    assert_eq!(b[0].value, Some(2));
    assert_eq!(b[0].name.as_deref(), Some("hdr"));
    assert_eq!(b[0].addid_type, 4);
    assert_eq!(b[0].extra_data, Some(vec![1]));
    assert!(!b[0].is_codec_defined());
    assert!(b[1].is_codec_defined());
    assert_eq!(m.all_block_addition_mappings().len(), 1);
}
