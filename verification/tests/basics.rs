//! Codec names, dates, numbers as text and arithmetic.

use oxideav_mkv::arith::{magnitude_of, to_i64, trunc_div_i64};
use oxideav_mkv::codec_id::{from_matroska, is_webm_codec, strip_bitmapinfoheader, to_matroska};
use oxideav_mkv::date::{civil_from_days_seconds, format_iso8601};
use oxideav_mkv::text::{append_padded, decimal_string, numbered, text_is};

#[test]
fn codec_names_round_trip() {
    for c in [
        "flac", "opus", "vorbis", "pcm_s16le", "pcm_s16be", "pcm_f32le", "aac", "mp3", "ac3",
        "eac3", "vp8", "vp9", "av1", "h264", "h265", "ffv1", "theora", "subrip",
    ] {
        let name = to_matroska(c).unwrap();
        assert_eq!(from_matroska(name, &[]), c);
    }
}

#[test]
fn codec_names_known() {
    assert_eq!(from_matroska("A_OPUS", &[]), "opus");
    assert_eq!(from_matroska("A_AAC/MPEG4/LC", &[]), "aac");
    assert_eq!(from_matroska("A_AAC/MPEG2/LC", &[]), "aac");
    assert_eq!(from_matroska("V_MPEGH/ISO/HEVC", &[]), "h265");
    assert_eq!(from_matroska("V_SOMETHING", &[]), "mkv:V_SOMETHING");
    assert_eq!(to_matroska("h264"), Some("V_MPEG4/ISO/AVC"));
    assert_eq!(to_matroska("nothing"), None);
    assert_eq!(to_matroska("mkv:S_VOBSUB"), Some("S_VOBSUB"));
    assert_eq!(to_matroska("mkv:S_NOTHING"), None);
    assert_eq!(from_matroska("S_VOBSUB", &[]), "mkv:S_VOBSUB");
}

#[test]
fn codec_of_a_bitmap_header() {
    let mut header = vec![0u8; 40];
    header[16..20].copy_from_slice(b"FFV1");
    header.extend_from_slice(&[7, 8, 9]);
    assert_eq!(from_matroska("V_MS/VFW/FOURCC", &header), "ffv1");
    assert_eq!(strip_bitmapinfoheader("V_MS/VFW/FOURCC", &header), vec![7, 8, 9]);
    assert_eq!(strip_bitmapinfoheader("V_FFV1", &header), header);
    assert_eq!(strip_bitmapinfoheader("V_MS/VFW/FOURCC", &[1, 2]), vec![1, 2]);
}

#[test]
fn webm_codecs() {
    for c in ["vp8", "vp9", "av1", "vorbis", "opus"] {
        assert!(is_webm_codec(c));
    }
    for c in ["h264", "flac", "aac", "VP8", ""] {
        assert!(!is_webm_codec(c));
    }
}

#[test]
fn dates() {
    assert_eq!(civil_from_days_seconds(0), (1970, 1, 1, 0, 0, 0));
    assert_eq!(civil_from_days_seconds(978_307_200), (2001, 1, 1, 0, 0, 0));
    assert_eq!(civil_from_days_seconds(951_782_399), (2000, 2, 28, 23, 59, 59));
    assert_eq!(civil_from_days_seconds(951_782_400), (2000, 2, 29, 0, 0, 0));
    assert_eq!(civil_from_days_seconds(-1), (1969, 12, 31, 23, 59, 59));
    assert_eq!(format_iso8601(978_307_200), "2001-01-01T00:00:00Z");
    assert_eq!(format_iso8601(1_700_000_000), "2023-11-14T22:13:20Z");
}

#[test]
fn numbers_as_text() {
    assert_eq!(decimal_string(0), "0");
    assert_eq!(decimal_string(u64::MAX), "18446744073709551615");
    assert_eq!(numbered("chapter:", 12, ":title"), "chapter:12:title");
    let mut s = String::from("x");
    append_padded(&mut s, 7, 3);
    assert_eq!(s, "x007");
    assert!(text_is(&"opus".to_string(), "opus"));
    assert!(!text_is(&"Opus".to_string(), "opus"));
}

#[test]
fn arithmetic() {
    assert_eq!(to_i64(u64::MAX), -1);
    assert_eq!(to_i64(5), 5);
    assert_eq!(to_i64(0x8000_0000_0000_0000), i64::MIN);
    assert_eq!(magnitude_of(i64::MIN), 0x8000_0000_0000_0000);
    assert_eq!(trunc_div_i64(-7, 2), -3);
    assert_eq!(trunc_div_i64(7, 2), 3);
    assert_eq!(trunc_div_i64(i64::MIN, 1), i64::MIN);
}
