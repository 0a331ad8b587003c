//! Codec names: those of Matroska and those used here.

use vstd::prelude::*;
use vstd::slice::{slice_subrange, slice_to_vec};
use vstd::string::StringExecFns;
use vstd::utf8::{decode_utf8, valid_utf8};
use crate::text::text_is;

verus! {

/// The Matroska name of video whose codec a Windows bitmap header tells.
pub open spec fn vfw_fourcc() -> Seq<char> {
    "V_MS/VFW/FOURCC"@
}

/// The codec that the bitmap header `cp` tells by the four characters at byte 16.
pub open spec fn bitmap_codec(cp: Seq<u8>) -> Seq<char> {
    if cp.len() < 20 {
        "mkv:BI/<truncated>"@
    } else {
        let fourcc = cp.subrange(16, 20);
        let text = if valid_utf8(fourcc) {
            decode_utf8(fourcc)
        } else {
            "????"@
        };
        if text == "FFV1"@ {
            "ffv1"@
        } else {
            "mkv:BI/"@ + text
        }
    }
}

/// The codec that Matroska calls `s`.
pub open spec fn codec_of(s: Seq<char>, codec_private: Seq<u8>) -> Seq<char> {
    if s == "A_FLAC"@ {
        "flac"@
    } else if s == "A_OPUS"@ {
        "opus"@
    } else if s == "A_VORBIS"@ {
        "vorbis"@
    } else if s == "A_PCM/INT/LIT"@ {
        "pcm_s16le"@
    } else if s == "A_PCM/INT/BIG"@ {
        "pcm_s16be"@
    } else if s == "A_PCM/FLOAT/IEEE"@ {
        "pcm_f32le"@
    } else if s == "A_AAC"@ {
        "aac"@
    } else if s == "A_AAC/MPEG4/LC"@ {
        "aac"@
    } else if s == "A_AAC/MPEG2/LC"@ {
        "aac"@
    } else if s == "A_MPEG/L3"@ {
        "mp3"@
    } else if s == "A_AC3"@ {
        "ac3"@
    } else if s == "A_EAC3"@ {
        "eac3"@
    } else if s == "V_VP8"@ {
        "vp8"@
    } else if s == "V_VP9"@ {
        "vp9"@
    } else if s == "V_AV1"@ {
        "av1"@
    } else if s == "V_MPEG4/ISO/AVC"@ {
        "h264"@
    } else if s == "V_MPEGH/ISO/HEVC"@ {
        "h265"@
    } else if s == "V_FFV1"@ {
        "ffv1"@
    } else if s == "V_THEORA"@ {
        "theora"@
    } else if s == "S_TEXT/UTF8"@ {
        "subrip"@
    } else {
        codec_of_rest(s, codec_private)
    }
}

/// The codec behind a name that stands for no single codec.
pub open spec fn codec_of_rest(s: Seq<char>, codec_private: Seq<u8>) -> Seq<char> {
    if s == vfw_fourcc() {
        bitmap_codec(codec_private)
    } else {
        "mkv:"@ + s
    }
}

/// What Matroska calls the codec `c`, where it is one that can be written.
pub open spec fn matroska_of(c: Seq<char>) -> Option<Seq<char>> {
    if c == "flac"@ {
        Some("A_FLAC"@)
    } else if c == "opus"@ {
        Some("A_OPUS"@)
    } else if c == "vorbis"@ {
        Some("A_VORBIS"@)
    } else if c == "pcm_s16le"@ {
        Some("A_PCM/INT/LIT"@)
    } else if c == "pcm_s16be"@ {
        Some("A_PCM/INT/BIG"@)
    } else if c == "pcm_f32le"@ {
        Some("A_PCM/FLOAT/IEEE"@)
    } else if c == "aac"@ {
        Some("A_AAC"@)
    } else if c == "mp3"@ {
        Some("A_MPEG/L3"@)
    } else if c == "ac3"@ {
        Some("A_AC3"@)
    } else if c == "eac3"@ {
        Some("A_EAC3"@)
    } else if c == "vp8"@ {
        Some("V_VP8"@)
    } else if c == "vp9"@ {
        Some("V_VP9"@)
    } else if c == "av1"@ {
        Some("V_AV1"@)
    } else if c == "h264"@ {
        Some("V_MPEG4/ISO/AVC"@)
    } else if c == "h265"@ {
        Some("V_MPEGH/ISO/HEVC"@)
    } else if c == "ffv1"@ {
        Some("V_FFV1"@)
    } else if c == "theora"@ {
        Some("V_THEORA"@)
    } else if c == "subrip"@ {
        Some("S_TEXT/UTF8"@)
    } else if c.len() >= 4 && c.take(4) == "mkv:"@ && is_kept_name(c.skip(4)) {
        Some(c.skip(4))
    } else {
        None
    }
}

/// Whether `s` is what Matroska calls a kind of subtitles that has no name of its own here.
pub open spec fn is_kept_name(s: Seq<char>) -> bool {
    s == "S_TEXT/SSA"@
        || s == "S_TEXT/ASS"@
        || s == "S_TEXT/WEBVTT"@
        || s == "S_TEXT/USF"@
        || s == "S_VOBSUB"@
        || s == "S_HDMV/PGS"@
        || s == "S_HDMV/TEXTST"@
        || s == "S_DVBSUB"@
        || s == "S_KATE"@
}

/// Whether WebM allows the codec `c`.
pub open spec fn webm_allows(c: Seq<char>) -> bool {
    c == "vp8"@ || c == "vp9"@ || c == "av1"@ || c == "vorbis"@ || c == "opus"@
}

/// Calls `String::from_utf8`. Claimed of it: it succeeds if and only if the bytes are
/// valid UTF-8, and then gives the text that they encode.
#[verifier::external_body]
pub(crate) fn string_from_utf8(bytes: Vec<u8>) -> (r: Option<String>)
    ensures
        match r {
            Some(s) => valid_utf8(bytes@) && s@ == decode_utf8(bytes@),
            None => !valid_utf8(bytes@),
        },
{
    String::from_utf8(bytes).ok()
}

/// The codec that a bitmap header tells.
fn from_bitmapinfoheader(cp: &[u8]) -> (r: String)
    ensures
        r@ == bitmap_codec(cp@),
{
    if cp.len() < 20 {
        return "mkv:BI/<truncated>".to_owned();
    }
    let fourcc: Vec<u8> = slice_to_vec(slice_subrange(cp, 16, 20));
    let text: String = match string_from_utf8(fourcc) {
        Some(t) => t,
        None => "????".to_owned(),
    };
    if text_is(&text, "FFV1") {
        return "ffv1".to_owned();
    }
    let mut r: String = "mkv:BI/".to_owned();
    r.append(text.as_str());
    r
}

/// The codec that Matroska calls `s`. For a name without a codec of its own the result
/// is that name behind `mkv:`.
pub fn from_matroska(s: &str, codec_private: &[u8]) -> (r: String)
    ensures
        r@ == codec_of(s@, codec_private@),
{
    let name: String = s.to_owned();
    if text_is(&name, "A_FLAC") {
        "flac".to_owned()
    } else if text_is(&name, "A_OPUS") {
        "opus".to_owned()
    } else if text_is(&name, "A_VORBIS") {
        "vorbis".to_owned()
    } else if text_is(&name, "A_PCM/INT/LIT") {
        "pcm_s16le".to_owned()
    } else if text_is(&name, "A_PCM/INT/BIG") {
        "pcm_s16be".to_owned()
    } else if text_is(&name, "A_PCM/FLOAT/IEEE") {
        "pcm_f32le".to_owned()
    } else if text_is(&name, "A_AAC") {
        "aac".to_owned()
    } else if text_is(&name, "A_AAC/MPEG4/LC") {
        "aac".to_owned()
    } else if text_is(&name, "A_AAC/MPEG2/LC") {
        "aac".to_owned()
    } else if text_is(&name, "A_MPEG/L3") {
        "mp3".to_owned()
    } else if text_is(&name, "A_AC3") {
        "ac3".to_owned()
    } else if text_is(&name, "A_EAC3") {
        "eac3".to_owned()
    } else if text_is(&name, "V_VP8") {
        "vp8".to_owned()
    } else if text_is(&name, "V_VP9") {
        "vp9".to_owned()
    } else if text_is(&name, "V_AV1") {
        "av1".to_owned()
    } else if text_is(&name, "V_MPEG4/ISO/AVC") {
        "h264".to_owned()
    } else if text_is(&name, "V_MPEGH/ISO/HEVC") {
        "h265".to_owned()
    } else if text_is(&name, "V_FFV1") {
        "ffv1".to_owned()
    } else if text_is(&name, "V_THEORA") {
        "theora".to_owned()
    } else if text_is(&name, "S_TEXT/UTF8") {
        "subrip".to_owned()
    } else if text_is(&name, "V_MS/VFW/FOURCC") {
        from_bitmapinfoheader(codec_private)
    } else {
        let mut r: String = "mkv:".to_owned();
        r.append(s);
        r
    }
}

/// The codec's own setup bytes: what follows a bitmap header, or all of them.
pub open spec fn inner_private(codec_id: Seq<char>, codec_private: Seq<u8>) -> Seq<u8> {
    if codec_id == vfw_fourcc() && codec_private.len() >= 40 {
        codec_private.skip(40)
    } else {
        codec_private
    }
}

/// The codec's own setup bytes: what follows a bitmap header, or all of them.
pub fn strip_bitmapinfoheader(codec_id: &str, codec_private: &[u8]) -> (r: Vec<u8>)
    ensures
        r@ == inner_private(codec_id@, codec_private@),
{
    let name: String = codec_id.to_owned();
    if text_is(&name, "V_MS/VFW/FOURCC") && codec_private.len() >= 40 {
        let r: Vec<u8> = slice_to_vec(slice_subrange(codec_private, 40, codec_private.len()));
        assert(r@ =~= codec_private@.skip(40));
        r
    } else {
        slice_to_vec(codec_private)
    }
}

/// What Matroska calls the codec `id`, where it is one that can be written.
pub fn to_matroska(id: &str) -> (r: Option<&'static str>)
    ensures
        match r {
            Some(s) => matroska_of(id@) == Some(s@),
            None => matroska_of(id@) is None,
        },
{
    let name: String = id.to_owned();
    if text_is(&name, "flac") {
        Some("A_FLAC")
    } else if text_is(&name, "opus") {
        Some("A_OPUS")
    } else if text_is(&name, "vorbis") {
        Some("A_VORBIS")
    } else if text_is(&name, "pcm_s16le") {
        Some("A_PCM/INT/LIT")
    } else if text_is(&name, "pcm_s16be") {
        Some("A_PCM/INT/BIG")
    } else if text_is(&name, "pcm_f32le") {
        Some("A_PCM/FLOAT/IEEE")
    } else if text_is(&name, "aac") {
        Some("A_AAC")
    } else if text_is(&name, "mp3") {
        Some("A_MPEG/L3")
    } else if text_is(&name, "ac3") {
        Some("A_AC3")
    } else if text_is(&name, "eac3") {
        Some("A_EAC3")
    } else if text_is(&name, "vp8") {
        Some("V_VP8")
    } else if text_is(&name, "vp9") {
        Some("V_VP9")
    } else if text_is(&name, "av1") {
        Some("V_AV1")
    } else if text_is(&name, "h264") {
        Some("V_MPEG4/ISO/AVC")
    } else if text_is(&name, "h265") {
        Some("V_MPEGH/ISO/HEVC")
    } else if text_is(&name, "ffv1") {
        Some("V_FFV1")
    } else if text_is(&name, "theora") {
        Some("V_THEORA")
    } else if text_is(&name, "subrip") {
        Some("S_TEXT/UTF8")
    } else {
        kept_name(&name)
    }
}

/// The name behind `mkv:`, where it is that of a kind of subtitles.
fn kept_name(name: &String) -> (r: Option<&'static str>)
    ensures
        match r {
            Some(s) => name@.len() >= 4 && name@.take(4) == "mkv:"@ && is_kept_name(s@)
                && name@.skip(4) == s@,
            None => !(name@.len() >= 4 && name@.take(4) == "mkv:"@ && is_kept_name(name@.skip(4))),
        },
{
    proof {
        lemma_kept_names();
        if name@.len() >= 4 && name@.take(4) == "mkv:"@ {
            assert(name@ =~= "mkv:"@ + name@.skip(4));
        }
        lemma_mkv_prefix(name@);
    }
    if text_is(name, "mkv:S_TEXT/SSA") {
        Some("S_TEXT/SSA")
    } else if text_is(name, "mkv:S_TEXT/ASS") {
        Some("S_TEXT/ASS")
    } else if text_is(name, "mkv:S_TEXT/WEBVTT") {
        Some("S_TEXT/WEBVTT")
    } else if text_is(name, "mkv:S_TEXT/USF") {
        Some("S_TEXT/USF")
    } else if text_is(name, "mkv:S_VOBSUB") {
        Some("S_VOBSUB")
    } else if text_is(name, "mkv:S_HDMV/PGS") {
        Some("S_HDMV/PGS")
    } else if text_is(name, "mkv:S_HDMV/TEXTST") {
        Some("S_HDMV/TEXTST")
    } else if text_is(name, "mkv:S_DVBSUB") {
        Some("S_DVBSUB")
    } else if text_is(name, "mkv:S_KATE") {
        Some("S_KATE")
    } else {
        None
    }
}

/// What stands behind `mkv:` in a text.
proof fn lemma_mkv_prefix(c: Seq<char>)
    ensures
        "mkv:"@.len() == 4,
        forall|s: Seq<char>|
            c == #[trigger] ("mkv:"@ + s) ==> c.len() >= 4 && c.take(4) == "mkv:"@ && c.skip(4)
                == s,
{
    reveal_strlit("mkv:");
    assert forall|s: Seq<char>| c == #[trigger] ("mkv:"@ + s) implies c.len() >= 4 && c.take(4)
        == "mkv:"@ && c.skip(4) == s by {
        assert(c.take(4) =~= "mkv:"@);
        assert(c.skip(4) =~= s);
    }
}

proof fn lemma_kept_names()
    ensures
        "mkv:S_TEXT/SSA"@ == "mkv:"@ + "S_TEXT/SSA"@,
        "mkv:S_TEXT/ASS"@ == "mkv:"@ + "S_TEXT/ASS"@,
        "mkv:S_TEXT/WEBVTT"@ == "mkv:"@ + "S_TEXT/WEBVTT"@,
        "mkv:S_TEXT/USF"@ == "mkv:"@ + "S_TEXT/USF"@,
        "mkv:S_VOBSUB"@ == "mkv:"@ + "S_VOBSUB"@,
        "mkv:S_HDMV/PGS"@ == "mkv:"@ + "S_HDMV/PGS"@,
        "mkv:S_HDMV/TEXTST"@ == "mkv:"@ + "S_HDMV/TEXTST"@,
        "mkv:S_DVBSUB"@ == "mkv:"@ + "S_DVBSUB"@,
        "mkv:S_KATE"@ == "mkv:"@ + "S_KATE"@,
{
    reveal_strlit("mkv:");
    reveal_strlit("S_TEXT/SSA");
    reveal_strlit("mkv:S_TEXT/SSA");
    assert("mkv:S_TEXT/SSA"@ =~= "mkv:"@ + "S_TEXT/SSA"@);
    reveal_strlit("S_TEXT/ASS");
    reveal_strlit("mkv:S_TEXT/ASS");
    assert("mkv:S_TEXT/ASS"@ =~= "mkv:"@ + "S_TEXT/ASS"@);
    reveal_strlit("S_TEXT/WEBVTT");
    reveal_strlit("mkv:S_TEXT/WEBVTT");
    assert("mkv:S_TEXT/WEBVTT"@ =~= "mkv:"@ + "S_TEXT/WEBVTT"@);
    reveal_strlit("S_TEXT/USF");
    reveal_strlit("mkv:S_TEXT/USF");
    assert("mkv:S_TEXT/USF"@ =~= "mkv:"@ + "S_TEXT/USF"@);
    reveal_strlit("S_VOBSUB");
    reveal_strlit("mkv:S_VOBSUB");
    assert("mkv:S_VOBSUB"@ =~= "mkv:"@ + "S_VOBSUB"@);
    reveal_strlit("S_HDMV/PGS");
    reveal_strlit("mkv:S_HDMV/PGS");
    assert("mkv:S_HDMV/PGS"@ =~= "mkv:"@ + "S_HDMV/PGS"@);
    reveal_strlit("S_HDMV/TEXTST");
    reveal_strlit("mkv:S_HDMV/TEXTST");
    assert("mkv:S_HDMV/TEXTST"@ =~= "mkv:"@ + "S_HDMV/TEXTST"@);
    reveal_strlit("S_DVBSUB");
    reveal_strlit("mkv:S_DVBSUB");
    assert("mkv:S_DVBSUB"@ =~= "mkv:"@ + "S_DVBSUB"@);
    reveal_strlit("S_KATE");
    reveal_strlit("mkv:S_KATE");
    assert("mkv:S_KATE"@ =~= "mkv:"@ + "S_KATE"@);
}

/// A name that is kept belongs to no codec that has a name of its own.
proof fn lemma_kept_apart(s: Seq<char>, codec_private: Seq<u8>)
    requires
        is_kept_name(s),
    ensures
        codec_of(s, codec_private) == "mkv:"@ + s,
        s != vfw_fourcc(),
{
    reveal_strlit("S_TEXT/SSA");
    reveal_strlit("S_TEXT/ASS");
    reveal_strlit("S_TEXT/WEBVTT");
    reveal_strlit("S_TEXT/USF");
    reveal_strlit("S_VOBSUB");
    reveal_strlit("S_HDMV/PGS");
    reveal_strlit("S_HDMV/TEXTST");
    reveal_strlit("S_DVBSUB");
    reveal_strlit("S_KATE");
    reveal_strlit("S_TEXT/UTF8");
    assert(s[0] == 'S');
    assert(s != "S_TEXT/UTF8"@) by {
        assert("S_TEXT/UTF8"@.len() == 11);
        assert("S_HDMV/PGS"@.len() == 10);
    }
    reveal_strlit("A_FLAC");
    reveal_strlit("A_OPUS");
    reveal_strlit("A_VORBIS");
    reveal_strlit("A_PCM/INT/LIT");
    reveal_strlit("A_PCM/INT/BIG");
    reveal_strlit("A_PCM/FLOAT/IEEE");
    reveal_strlit("A_AAC");
    reveal_strlit("A_AAC/MPEG4/LC");
    reveal_strlit("A_AAC/MPEG2/LC");
    reveal_strlit("A_MPEG/L3");
    reveal_strlit("A_AC3");
    reveal_strlit("A_EAC3");
    reveal_strlit("V_VP8");
    reveal_strlit("V_VP9");
    reveal_strlit("V_AV1");
    reveal_strlit("V_MPEG4/ISO/AVC");
    reveal_strlit("V_MPEGH/ISO/HEVC");
    reveal_strlit("V_FFV1");
    reveal_strlit("V_THEORA");
    reveal_strlit("V_MS/VFW/FOURCC");
}

/// Subtitles whose name is kept are written under that name.
pub proof fn lemma_kept_written(id: Seq<char>)
    requires
        is_kept_name(id),
    ensures
        matroska_of("mkv:"@ + id) == Some(id),
{
    let c = "mkv:"@ + id;
    lemma_mkv_prefix(c);
    lemma_own_names_differ(c);
}

/// No codec that has a name of its own has one that starts with `mkv:`.
proof fn lemma_own_names_differ(c: Seq<char>)
    requires
        c.len() >= 4,
        c.take(4) == "mkv:"@,
    ensures
        c != "flac"@,
        c != "opus"@,
        c != "vorbis"@,
        c != "pcm_s16le"@,
        c != "pcm_s16be"@,
        c != "pcm_f32le"@,
        c != "aac"@,
        c != "mp3"@,
        c != "ac3"@,
        c != "eac3"@,
        c != "vp8"@,
        c != "vp9"@,
        c != "av1"@,
        c != "h264"@,
        c != "h265"@,
        c != "ffv1"@,
        c != "theora"@,
        c != "subrip"@,
{
    reveal_strlit("mkv:");
    assert(c[3] == c.take(4)[3]);
    reveal_strlit("flac");
    reveal_strlit("opus");
    reveal_strlit("vorbis");
    reveal_strlit("pcm_s16le");
    reveal_strlit("pcm_s16be");
    reveal_strlit("pcm_f32le");
    reveal_strlit("aac");
    reveal_strlit("mp3");
    reveal_strlit("ac3");
    reveal_strlit("eac3");
    reveal_strlit("vp8");
    reveal_strlit("vp9");
    reveal_strlit("av1");
    reveal_strlit("h264");
    reveal_strlit("h265");
    reveal_strlit("ffv1");
    reveal_strlit("theora");
    reveal_strlit("subrip");
}

/// Whether WebM allows the codec `id`.
pub fn is_webm_codec(id: &str) -> (r: bool)
    ensures
        r == webm_allows(id@),
{
    let name: String = id.to_owned();
    text_is(&name, "vp8") || text_is(&name, "vp9") || text_is(&name, "av1") || text_is(
        &name,
        "vorbis",
    ) || text_is(&name, "opus")
}

/// A codec that can be written is read back as the same codec.
pub proof fn lemma_codec_round_trip(c: Seq<char>, codec_private: Seq<u8>)
    requires
        matroska_of(c) is Some,
    ensures
        codec_of(matroska_of(c)->0, codec_private) == c,
{
    lemma_names_differ();
    if c.len() >= 4 && c.take(4) == "mkv:"@ && is_kept_name(c.skip(4)) {
        lemma_own_names_differ(c);
        lemma_kept_apart(c.skip(4), codec_private);
        reveal_strlit("mkv:");
        assert(c =~= "mkv:"@ + c.skip(4));
    }
}

/// No codec that can be written is named as one that its setup bytes tell.
pub proof fn lemma_not_vfw(c: Seq<char>)
    requires
        matroska_of(c) is Some,
    ensures
        matroska_of(c)->0 != vfw_fourcc(),
{
    if is_kept_name(matroska_of(c)->0) {
        lemma_kept_apart(matroska_of(c)->0, Seq::empty());
    }
    reveal_strlit("V_MS/VFW/FOURCC");
    reveal_strlit("A_FLAC");
    reveal_strlit("A_OPUS");
    reveal_strlit("A_VORBIS");
    reveal_strlit("A_PCM/INT/LIT");
    reveal_strlit("A_PCM/INT/BIG");
    reveal_strlit("A_PCM/FLOAT/IEEE");
    reveal_strlit("A_AAC");
    reveal_strlit("A_MPEG/L3");
    reveal_strlit("A_AC3");
    reveal_strlit("A_EAC3");
    reveal_strlit("V_VP8");
    reveal_strlit("V_VP9");
    reveal_strlit("V_AV1");
    reveal_strlit("V_MPEG4/ISO/AVC");
    reveal_strlit("V_MPEGH/ISO/HEVC");
    reveal_strlit("V_FFV1");
    reveal_strlit("V_THEORA");
    reveal_strlit("S_TEXT/UTF8");
    assert(is_kept_name(matroska_of(c)->0) || matroska_of(c)->0.len() != 15 || matroska_of(c)->0[2]
        != 'M' || matroska_of(c)->0[3] != 'S');
    assert(vfw_fourcc()[2] == 'M' && vfw_fourcc()[3] == 'S' && vfw_fourcc().len() == 15);
}

/// No two Matroska names in use are the same.
pub proof fn lemma_names_differ()
    ensures
        "A_FLAC"@ != "A_OPUS"@,
        "A_FLAC"@ != "A_VORBIS"@,
        "A_FLAC"@ != "A_PCM/INT/LIT"@,
        "A_FLAC"@ != "A_PCM/INT/BIG"@,
        "A_FLAC"@ != "A_PCM/FLOAT/IEEE"@,
        "A_FLAC"@ != "A_AAC"@,
        "A_FLAC"@ != "A_AAC/MPEG4/LC"@,
        "A_FLAC"@ != "A_AAC/MPEG2/LC"@,
        "A_FLAC"@ != "A_MPEG/L3"@,
        "A_FLAC"@ != "A_AC3"@,
        "A_FLAC"@ != "A_EAC3"@,
        "A_FLAC"@ != "V_VP8"@,
        "A_FLAC"@ != "V_VP9"@,
        "A_FLAC"@ != "V_AV1"@,
        "A_FLAC"@ != "V_MPEG4/ISO/AVC"@,
        "A_FLAC"@ != "V_MPEGH/ISO/HEVC"@,
        "A_FLAC"@ != "V_FFV1"@,
        "A_FLAC"@ != "V_THEORA"@,
        "A_FLAC"@ != "S_TEXT/UTF8"@,
        "A_OPUS"@ != "A_VORBIS"@,
        "A_OPUS"@ != "A_PCM/INT/LIT"@,
        "A_OPUS"@ != "A_PCM/INT/BIG"@,
        "A_OPUS"@ != "A_PCM/FLOAT/IEEE"@,
        "A_OPUS"@ != "A_AAC"@,
        "A_OPUS"@ != "A_AAC/MPEG4/LC"@,
        "A_OPUS"@ != "A_AAC/MPEG2/LC"@,
        "A_OPUS"@ != "A_MPEG/L3"@,
        "A_OPUS"@ != "A_AC3"@,
        "A_OPUS"@ != "A_EAC3"@,
        "A_OPUS"@ != "V_VP8"@,
        "A_OPUS"@ != "V_VP9"@,
        "A_OPUS"@ != "V_AV1"@,
        "A_OPUS"@ != "V_MPEG4/ISO/AVC"@,
        "A_OPUS"@ != "V_MPEGH/ISO/HEVC"@,
        "A_OPUS"@ != "V_FFV1"@,
        "A_OPUS"@ != "V_THEORA"@,
        "A_OPUS"@ != "S_TEXT/UTF8"@,
        "A_VORBIS"@ != "A_PCM/INT/LIT"@,
        "A_VORBIS"@ != "A_PCM/INT/BIG"@,
        "A_VORBIS"@ != "A_PCM/FLOAT/IEEE"@,
        "A_VORBIS"@ != "A_AAC"@,
        "A_VORBIS"@ != "A_AAC/MPEG4/LC"@,
        "A_VORBIS"@ != "A_AAC/MPEG2/LC"@,
        "A_VORBIS"@ != "A_MPEG/L3"@,
        "A_VORBIS"@ != "A_AC3"@,
        "A_VORBIS"@ != "A_EAC3"@,
        "A_VORBIS"@ != "V_VP8"@,
        "A_VORBIS"@ != "V_VP9"@,
        "A_VORBIS"@ != "V_AV1"@,
        "A_VORBIS"@ != "V_MPEG4/ISO/AVC"@,
        "A_VORBIS"@ != "V_MPEGH/ISO/HEVC"@,
        "A_VORBIS"@ != "V_FFV1"@,
        "A_VORBIS"@ != "V_THEORA"@,
        "A_VORBIS"@ != "S_TEXT/UTF8"@,
        "A_PCM/INT/LIT"@ != "A_PCM/INT/BIG"@,
        "A_PCM/INT/LIT"@ != "A_PCM/FLOAT/IEEE"@,
        "A_PCM/INT/LIT"@ != "A_AAC"@,
        "A_PCM/INT/LIT"@ != "A_AAC/MPEG4/LC"@,
        "A_PCM/INT/LIT"@ != "A_AAC/MPEG2/LC"@,
        "A_PCM/INT/LIT"@ != "A_MPEG/L3"@,
        "A_PCM/INT/LIT"@ != "A_AC3"@,
        "A_PCM/INT/LIT"@ != "A_EAC3"@,
        "A_PCM/INT/LIT"@ != "V_VP8"@,
        "A_PCM/INT/LIT"@ != "V_VP9"@,
        "A_PCM/INT/LIT"@ != "V_AV1"@,
        "A_PCM/INT/LIT"@ != "V_MPEG4/ISO/AVC"@,
        "A_PCM/INT/LIT"@ != "V_MPEGH/ISO/HEVC"@,
        "A_PCM/INT/LIT"@ != "V_FFV1"@,
        "A_PCM/INT/LIT"@ != "V_THEORA"@,
        "A_PCM/INT/LIT"@ != "S_TEXT/UTF8"@,
        "A_PCM/INT/BIG"@ != "A_PCM/FLOAT/IEEE"@,
        "A_PCM/INT/BIG"@ != "A_AAC"@,
        "A_PCM/INT/BIG"@ != "A_AAC/MPEG4/LC"@,
        "A_PCM/INT/BIG"@ != "A_AAC/MPEG2/LC"@,
        "A_PCM/INT/BIG"@ != "A_MPEG/L3"@,
        "A_PCM/INT/BIG"@ != "A_AC3"@,
        "A_PCM/INT/BIG"@ != "A_EAC3"@,
        "A_PCM/INT/BIG"@ != "V_VP8"@,
        "A_PCM/INT/BIG"@ != "V_VP9"@,
        "A_PCM/INT/BIG"@ != "V_AV1"@,
        "A_PCM/INT/BIG"@ != "V_MPEG4/ISO/AVC"@,
        "A_PCM/INT/BIG"@ != "V_MPEGH/ISO/HEVC"@,
        "A_PCM/INT/BIG"@ != "V_FFV1"@,
        "A_PCM/INT/BIG"@ != "V_THEORA"@,
        "A_PCM/INT/BIG"@ != "S_TEXT/UTF8"@,
        "A_PCM/FLOAT/IEEE"@ != "A_AAC"@,
        "A_PCM/FLOAT/IEEE"@ != "A_AAC/MPEG4/LC"@,
        "A_PCM/FLOAT/IEEE"@ != "A_AAC/MPEG2/LC"@,
        "A_PCM/FLOAT/IEEE"@ != "A_MPEG/L3"@,
        "A_PCM/FLOAT/IEEE"@ != "A_AC3"@,
        "A_PCM/FLOAT/IEEE"@ != "A_EAC3"@,
        "A_PCM/FLOAT/IEEE"@ != "V_VP8"@,
        "A_PCM/FLOAT/IEEE"@ != "V_VP9"@,
        "A_PCM/FLOAT/IEEE"@ != "V_AV1"@,
        "A_PCM/FLOAT/IEEE"@ != "V_MPEG4/ISO/AVC"@,
        "A_PCM/FLOAT/IEEE"@ != "V_MPEGH/ISO/HEVC"@,
        "A_PCM/FLOAT/IEEE"@ != "V_FFV1"@,
        "A_PCM/FLOAT/IEEE"@ != "V_THEORA"@,
        "A_PCM/FLOAT/IEEE"@ != "S_TEXT/UTF8"@,
        "A_AAC"@ != "A_AAC/MPEG4/LC"@,
        "A_AAC"@ != "A_AAC/MPEG2/LC"@,
        "A_AAC"@ != "A_MPEG/L3"@,
        "A_AAC"@ != "A_AC3"@,
        "A_AAC"@ != "A_EAC3"@,
        "A_AAC"@ != "V_VP8"@,
        "A_AAC"@ != "V_VP9"@,
        "A_AAC"@ != "V_AV1"@,
        "A_AAC"@ != "V_MPEG4/ISO/AVC"@,
        "A_AAC"@ != "V_MPEGH/ISO/HEVC"@,
        "A_AAC"@ != "V_FFV1"@,
        "A_AAC"@ != "V_THEORA"@,
        "A_AAC"@ != "S_TEXT/UTF8"@,
        "A_AAC/MPEG4/LC"@ != "A_AAC/MPEG2/LC"@,
        "A_AAC/MPEG4/LC"@ != "A_MPEG/L3"@,
        "A_AAC/MPEG4/LC"@ != "A_AC3"@,
        "A_AAC/MPEG4/LC"@ != "A_EAC3"@,
        "A_AAC/MPEG4/LC"@ != "V_VP8"@,
        "A_AAC/MPEG4/LC"@ != "V_VP9"@,
        "A_AAC/MPEG4/LC"@ != "V_AV1"@,
        "A_AAC/MPEG4/LC"@ != "V_MPEG4/ISO/AVC"@,
        "A_AAC/MPEG4/LC"@ != "V_MPEGH/ISO/HEVC"@,
        "A_AAC/MPEG4/LC"@ != "V_FFV1"@,
        "A_AAC/MPEG4/LC"@ != "V_THEORA"@,
        "A_AAC/MPEG4/LC"@ != "S_TEXT/UTF8"@,
        "A_AAC/MPEG2/LC"@ != "A_MPEG/L3"@,
        "A_AAC/MPEG2/LC"@ != "A_AC3"@,
        "A_AAC/MPEG2/LC"@ != "A_EAC3"@,
        "A_AAC/MPEG2/LC"@ != "V_VP8"@,
        "A_AAC/MPEG2/LC"@ != "V_VP9"@,
        "A_AAC/MPEG2/LC"@ != "V_AV1"@,
        "A_AAC/MPEG2/LC"@ != "V_MPEG4/ISO/AVC"@,
        "A_AAC/MPEG2/LC"@ != "V_MPEGH/ISO/HEVC"@,
        "A_AAC/MPEG2/LC"@ != "V_FFV1"@,
        "A_AAC/MPEG2/LC"@ != "V_THEORA"@,
        "A_AAC/MPEG2/LC"@ != "S_TEXT/UTF8"@,
        "A_MPEG/L3"@ != "A_AC3"@,
        "A_MPEG/L3"@ != "A_EAC3"@,
        "A_MPEG/L3"@ != "V_VP8"@,
        "A_MPEG/L3"@ != "V_VP9"@,
        "A_MPEG/L3"@ != "V_AV1"@,
        "A_MPEG/L3"@ != "V_MPEG4/ISO/AVC"@,
        "A_MPEG/L3"@ != "V_MPEGH/ISO/HEVC"@,
        "A_MPEG/L3"@ != "V_FFV1"@,
        "A_MPEG/L3"@ != "V_THEORA"@,
        "A_MPEG/L3"@ != "S_TEXT/UTF8"@,
        "A_AC3"@ != "A_EAC3"@,
        "A_AC3"@ != "V_VP8"@,
        "A_AC3"@ != "V_VP9"@,
        "A_AC3"@ != "V_AV1"@,
        "A_AC3"@ != "V_MPEG4/ISO/AVC"@,
        "A_AC3"@ != "V_MPEGH/ISO/HEVC"@,
        "A_AC3"@ != "V_FFV1"@,
        "A_AC3"@ != "V_THEORA"@,
        "A_AC3"@ != "S_TEXT/UTF8"@,
        "A_EAC3"@ != "V_VP8"@,
        "A_EAC3"@ != "V_VP9"@,
        "A_EAC3"@ != "V_AV1"@,
        "A_EAC3"@ != "V_MPEG4/ISO/AVC"@,
        "A_EAC3"@ != "V_MPEGH/ISO/HEVC"@,
        "A_EAC3"@ != "V_FFV1"@,
        "A_EAC3"@ != "V_THEORA"@,
        "A_EAC3"@ != "S_TEXT/UTF8"@,
        "V_VP8"@ != "V_VP9"@,
        "V_VP8"@ != "V_AV1"@,
        "V_VP8"@ != "V_MPEG4/ISO/AVC"@,
        "V_VP8"@ != "V_MPEGH/ISO/HEVC"@,
        "V_VP8"@ != "V_FFV1"@,
        "V_VP8"@ != "V_THEORA"@,
        "V_VP8"@ != "S_TEXT/UTF8"@,
        "V_VP9"@ != "V_AV1"@,
        "V_VP9"@ != "V_MPEG4/ISO/AVC"@,
        "V_VP9"@ != "V_MPEGH/ISO/HEVC"@,
        "V_VP9"@ != "V_FFV1"@,
        "V_VP9"@ != "V_THEORA"@,
        "V_VP9"@ != "S_TEXT/UTF8"@,
        "V_AV1"@ != "V_MPEG4/ISO/AVC"@,
        "V_AV1"@ != "V_MPEGH/ISO/HEVC"@,
        "V_AV1"@ != "V_FFV1"@,
        "V_AV1"@ != "V_THEORA"@,
        "V_AV1"@ != "S_TEXT/UTF8"@,
        "V_MPEG4/ISO/AVC"@ != "V_MPEGH/ISO/HEVC"@,
        "V_MPEG4/ISO/AVC"@ != "V_FFV1"@,
        "V_MPEG4/ISO/AVC"@ != "V_THEORA"@,
        "V_MPEG4/ISO/AVC"@ != "S_TEXT/UTF8"@,
        "V_MPEGH/ISO/HEVC"@ != "V_FFV1"@,
        "V_MPEGH/ISO/HEVC"@ != "V_THEORA"@,
        "V_MPEGH/ISO/HEVC"@ != "S_TEXT/UTF8"@,
        "V_FFV1"@ != "V_THEORA"@,
        "V_FFV1"@ != "S_TEXT/UTF8"@,
        "V_THEORA"@ != "S_TEXT/UTF8"@,
{
    reveal_strlit("A_FLAC");
    reveal_strlit("A_OPUS");
    reveal_strlit("A_VORBIS");
    reveal_strlit("A_PCM/INT/LIT");
    reveal_strlit("A_PCM/INT/BIG");
    reveal_strlit("A_PCM/FLOAT/IEEE");
    reveal_strlit("A_AAC");
    reveal_strlit("A_AAC/MPEG4/LC");
    reveal_strlit("A_AAC/MPEG2/LC");
    reveal_strlit("A_MPEG/L3");
    reveal_strlit("A_AC3");
    reveal_strlit("A_EAC3");
    reveal_strlit("V_VP8");
    reveal_strlit("V_VP9");
    reveal_strlit("V_AV1");
    reveal_strlit("V_MPEG4/ISO/AVC");
    reveal_strlit("V_MPEGH/ISO/HEVC");
    reveal_strlit("V_FFV1");
    reveal_strlit("V_THEORA");
    reveal_strlit("S_TEXT/UTF8");
    assert("A_FLAC"@[2] != "A_OPUS"@[2]);
    assert("A_FLAC"@.len() != "A_VORBIS"@.len());
    assert("A_FLAC"@.len() != "A_PCM/INT/LIT"@.len());
    assert("A_FLAC"@.len() != "A_PCM/INT/BIG"@.len());
    assert("A_FLAC"@.len() != "A_PCM/FLOAT/IEEE"@.len());
    assert("A_FLAC"@.len() != "A_AAC"@.len());
    assert("A_FLAC"@.len() != "A_AAC/MPEG4/LC"@.len());
    assert("A_FLAC"@.len() != "A_AAC/MPEG2/LC"@.len());
    assert("A_FLAC"@.len() != "A_MPEG/L3"@.len());
    assert("A_FLAC"@.len() != "A_AC3"@.len());
    assert("A_FLAC"@[2] != "A_EAC3"@[2]);
    assert("A_FLAC"@.len() != "V_VP8"@.len());
    assert("A_FLAC"@.len() != "V_VP9"@.len());
    assert("A_FLAC"@.len() != "V_AV1"@.len());
    assert("A_FLAC"@.len() != "V_MPEG4/ISO/AVC"@.len());
    assert("A_FLAC"@.len() != "V_MPEGH/ISO/HEVC"@.len());
    assert("A_FLAC"@[0] != "V_FFV1"@[0]);
    assert("A_FLAC"@.len() != "V_THEORA"@.len());
    assert("A_FLAC"@.len() != "S_TEXT/UTF8"@.len());
    assert("A_OPUS"@.len() != "A_VORBIS"@.len());
    assert("A_OPUS"@.len() != "A_PCM/INT/LIT"@.len());
    assert("A_OPUS"@.len() != "A_PCM/INT/BIG"@.len());
    assert("A_OPUS"@.len() != "A_PCM/FLOAT/IEEE"@.len());
    assert("A_OPUS"@.len() != "A_AAC"@.len());
    assert("A_OPUS"@.len() != "A_AAC/MPEG4/LC"@.len());
    assert("A_OPUS"@.len() != "A_AAC/MPEG2/LC"@.len());
    assert("A_OPUS"@.len() != "A_MPEG/L3"@.len());
    assert("A_OPUS"@.len() != "A_AC3"@.len());
    assert("A_OPUS"@[2] != "A_EAC3"@[2]);
    assert("A_OPUS"@.len() != "V_VP8"@.len());
    assert("A_OPUS"@.len() != "V_VP9"@.len());
    assert("A_OPUS"@.len() != "V_AV1"@.len());
    assert("A_OPUS"@.len() != "V_MPEG4/ISO/AVC"@.len());
    assert("A_OPUS"@.len() != "V_MPEGH/ISO/HEVC"@.len());
    assert("A_OPUS"@[0] != "V_FFV1"@[0]);
    assert("A_OPUS"@.len() != "V_THEORA"@.len());
    assert("A_OPUS"@.len() != "S_TEXT/UTF8"@.len());
    assert("A_VORBIS"@.len() != "A_PCM/INT/LIT"@.len());
    assert("A_VORBIS"@.len() != "A_PCM/INT/BIG"@.len());
    assert("A_VORBIS"@.len() != "A_PCM/FLOAT/IEEE"@.len());
    assert("A_VORBIS"@.len() != "A_AAC"@.len());
    assert("A_VORBIS"@.len() != "A_AAC/MPEG4/LC"@.len());
    assert("A_VORBIS"@.len() != "A_AAC/MPEG2/LC"@.len());
    assert("A_VORBIS"@.len() != "A_MPEG/L3"@.len());
    assert("A_VORBIS"@.len() != "A_AC3"@.len());
    assert("A_VORBIS"@.len() != "A_EAC3"@.len());
    assert("A_VORBIS"@.len() != "V_VP8"@.len());
    assert("A_VORBIS"@.len() != "V_VP9"@.len());
    assert("A_VORBIS"@.len() != "V_AV1"@.len());
    assert("A_VORBIS"@.len() != "V_MPEG4/ISO/AVC"@.len());
    assert("A_VORBIS"@.len() != "V_MPEGH/ISO/HEVC"@.len());
    assert("A_VORBIS"@.len() != "V_FFV1"@.len());
    assert("A_VORBIS"@[0] != "V_THEORA"@[0]);
    assert("A_VORBIS"@.len() != "S_TEXT/UTF8"@.len());
    assert("A_PCM/INT/LIT"@[10] != "A_PCM/INT/BIG"@[10]);
    assert("A_PCM/INT/LIT"@.len() != "A_PCM/FLOAT/IEEE"@.len());
    assert("A_PCM/INT/LIT"@.len() != "A_AAC"@.len());
    assert("A_PCM/INT/LIT"@.len() != "A_AAC/MPEG4/LC"@.len());
    assert("A_PCM/INT/LIT"@.len() != "A_AAC/MPEG2/LC"@.len());
    assert("A_PCM/INT/LIT"@.len() != "A_MPEG/L3"@.len());
    assert("A_PCM/INT/LIT"@.len() != "A_AC3"@.len());
    assert("A_PCM/INT/LIT"@.len() != "A_EAC3"@.len());
    assert("A_PCM/INT/LIT"@.len() != "V_VP8"@.len());
    assert("A_PCM/INT/LIT"@.len() != "V_VP9"@.len());
    assert("A_PCM/INT/LIT"@.len() != "V_AV1"@.len());
    assert("A_PCM/INT/LIT"@.len() != "V_MPEG4/ISO/AVC"@.len());
    assert("A_PCM/INT/LIT"@.len() != "V_MPEGH/ISO/HEVC"@.len());
    assert("A_PCM/INT/LIT"@.len() != "V_FFV1"@.len());
    assert("A_PCM/INT/LIT"@.len() != "V_THEORA"@.len());
    assert("A_PCM/INT/LIT"@.len() != "S_TEXT/UTF8"@.len());
    assert("A_PCM/INT/BIG"@.len() != "A_PCM/FLOAT/IEEE"@.len());
    assert("A_PCM/INT/BIG"@.len() != "A_AAC"@.len());
    assert("A_PCM/INT/BIG"@.len() != "A_AAC/MPEG4/LC"@.len());
    assert("A_PCM/INT/BIG"@.len() != "A_AAC/MPEG2/LC"@.len());
    assert("A_PCM/INT/BIG"@.len() != "A_MPEG/L3"@.len());
    assert("A_PCM/INT/BIG"@.len() != "A_AC3"@.len());
    assert("A_PCM/INT/BIG"@.len() != "A_EAC3"@.len());
    assert("A_PCM/INT/BIG"@.len() != "V_VP8"@.len());
    assert("A_PCM/INT/BIG"@.len() != "V_VP9"@.len());
    assert("A_PCM/INT/BIG"@.len() != "V_AV1"@.len());
    assert("A_PCM/INT/BIG"@.len() != "V_MPEG4/ISO/AVC"@.len());
    assert("A_PCM/INT/BIG"@.len() != "V_MPEGH/ISO/HEVC"@.len());
    assert("A_PCM/INT/BIG"@.len() != "V_FFV1"@.len());
    assert("A_PCM/INT/BIG"@.len() != "V_THEORA"@.len());
    assert("A_PCM/INT/BIG"@.len() != "S_TEXT/UTF8"@.len());
    assert("A_PCM/FLOAT/IEEE"@.len() != "A_AAC"@.len());
    assert("A_PCM/FLOAT/IEEE"@.len() != "A_AAC/MPEG4/LC"@.len());
    assert("A_PCM/FLOAT/IEEE"@.len() != "A_AAC/MPEG2/LC"@.len());
    assert("A_PCM/FLOAT/IEEE"@.len() != "A_MPEG/L3"@.len());
    assert("A_PCM/FLOAT/IEEE"@.len() != "A_AC3"@.len());
    assert("A_PCM/FLOAT/IEEE"@.len() != "A_EAC3"@.len());
    assert("A_PCM/FLOAT/IEEE"@.len() != "V_VP8"@.len());
    assert("A_PCM/FLOAT/IEEE"@.len() != "V_VP9"@.len());
    assert("A_PCM/FLOAT/IEEE"@.len() != "V_AV1"@.len());
    assert("A_PCM/FLOAT/IEEE"@.len() != "V_MPEG4/ISO/AVC"@.len());
    assert("A_PCM/FLOAT/IEEE"@[0] != "V_MPEGH/ISO/HEVC"@[0]);
    assert("A_PCM/FLOAT/IEEE"@.len() != "V_FFV1"@.len());
    assert("A_PCM/FLOAT/IEEE"@.len() != "V_THEORA"@.len());
    assert("A_PCM/FLOAT/IEEE"@.len() != "S_TEXT/UTF8"@.len());
    assert("A_AAC"@.len() != "A_AAC/MPEG4/LC"@.len());
    assert("A_AAC"@.len() != "A_AAC/MPEG2/LC"@.len());
    assert("A_AAC"@.len() != "A_MPEG/L3"@.len());
    assert("A_AAC"@[3] != "A_AC3"@[3]);
    assert("A_AAC"@.len() != "A_EAC3"@.len());
    assert("A_AAC"@[0] != "V_VP8"@[0]);
    assert("A_AAC"@[0] != "V_VP9"@[0]);
    assert("A_AAC"@[0] != "V_AV1"@[0]);
    assert("A_AAC"@.len() != "V_MPEG4/ISO/AVC"@.len());
    assert("A_AAC"@.len() != "V_MPEGH/ISO/HEVC"@.len());
    assert("A_AAC"@.len() != "V_FFV1"@.len());
    assert("A_AAC"@.len() != "V_THEORA"@.len());
    assert("A_AAC"@.len() != "S_TEXT/UTF8"@.len());
    assert("A_AAC/MPEG4/LC"@[10] != "A_AAC/MPEG2/LC"@[10]);
    assert("A_AAC/MPEG4/LC"@.len() != "A_MPEG/L3"@.len());
    assert("A_AAC/MPEG4/LC"@.len() != "A_AC3"@.len());
    assert("A_AAC/MPEG4/LC"@.len() != "A_EAC3"@.len());
    assert("A_AAC/MPEG4/LC"@.len() != "V_VP8"@.len());
    assert("A_AAC/MPEG4/LC"@.len() != "V_VP9"@.len());
    assert("A_AAC/MPEG4/LC"@.len() != "V_AV1"@.len());
    assert("A_AAC/MPEG4/LC"@.len() != "V_MPEG4/ISO/AVC"@.len());
    assert("A_AAC/MPEG4/LC"@.len() != "V_MPEGH/ISO/HEVC"@.len());
    assert("A_AAC/MPEG4/LC"@.len() != "V_FFV1"@.len());
    assert("A_AAC/MPEG4/LC"@.len() != "V_THEORA"@.len());
    assert("A_AAC/MPEG4/LC"@.len() != "S_TEXT/UTF8"@.len());
    assert("A_AAC/MPEG2/LC"@.len() != "A_MPEG/L3"@.len());
    assert("A_AAC/MPEG2/LC"@.len() != "A_AC3"@.len());
    assert("A_AAC/MPEG2/LC"@.len() != "A_EAC3"@.len());
    assert("A_AAC/MPEG2/LC"@.len() != "V_VP8"@.len());
    assert("A_AAC/MPEG2/LC"@.len() != "V_VP9"@.len());
    assert("A_AAC/MPEG2/LC"@.len() != "V_AV1"@.len());
    assert("A_AAC/MPEG2/LC"@.len() != "V_MPEG4/ISO/AVC"@.len());
    assert("A_AAC/MPEG2/LC"@.len() != "V_MPEGH/ISO/HEVC"@.len());
    assert("A_AAC/MPEG2/LC"@.len() != "V_FFV1"@.len());
    assert("A_AAC/MPEG2/LC"@.len() != "V_THEORA"@.len());
    assert("A_AAC/MPEG2/LC"@.len() != "S_TEXT/UTF8"@.len());
    assert("A_MPEG/L3"@.len() != "A_AC3"@.len());
    assert("A_MPEG/L3"@.len() != "A_EAC3"@.len());
    assert("A_MPEG/L3"@.len() != "V_VP8"@.len());
    assert("A_MPEG/L3"@.len() != "V_VP9"@.len());
    assert("A_MPEG/L3"@.len() != "V_AV1"@.len());
    assert("A_MPEG/L3"@.len() != "V_MPEG4/ISO/AVC"@.len());
    assert("A_MPEG/L3"@.len() != "V_MPEGH/ISO/HEVC"@.len());
    assert("A_MPEG/L3"@.len() != "V_FFV1"@.len());
    assert("A_MPEG/L3"@.len() != "V_THEORA"@.len());
    assert("A_MPEG/L3"@.len() != "S_TEXT/UTF8"@.len());
    assert("A_AC3"@.len() != "A_EAC3"@.len());
    assert("A_AC3"@[0] != "V_VP8"@[0]);
    assert("A_AC3"@[0] != "V_VP9"@[0]);
    assert("A_AC3"@[0] != "V_AV1"@[0]);
    assert("A_AC3"@.len() != "V_MPEG4/ISO/AVC"@.len());
    assert("A_AC3"@.len() != "V_MPEGH/ISO/HEVC"@.len());
    assert("A_AC3"@.len() != "V_FFV1"@.len());
    assert("A_AC3"@.len() != "V_THEORA"@.len());
    assert("A_AC3"@.len() != "S_TEXT/UTF8"@.len());
    assert("A_EAC3"@.len() != "V_VP8"@.len());
    assert("A_EAC3"@.len() != "V_VP9"@.len());
    assert("A_EAC3"@.len() != "V_AV1"@.len());
    assert("A_EAC3"@.len() != "V_MPEG4/ISO/AVC"@.len());
    assert("A_EAC3"@.len() != "V_MPEGH/ISO/HEVC"@.len());
    assert("A_EAC3"@[0] != "V_FFV1"@[0]);
    assert("A_EAC3"@.len() != "V_THEORA"@.len());
    assert("A_EAC3"@.len() != "S_TEXT/UTF8"@.len());
    assert("V_VP8"@[4] != "V_VP9"@[4]);
    assert("V_VP8"@[2] != "V_AV1"@[2]);
    assert("V_VP8"@.len() != "V_MPEG4/ISO/AVC"@.len());
    assert("V_VP8"@.len() != "V_MPEGH/ISO/HEVC"@.len());
    assert("V_VP8"@.len() != "V_FFV1"@.len());
    assert("V_VP8"@.len() != "V_THEORA"@.len());
    assert("V_VP8"@.len() != "S_TEXT/UTF8"@.len());
    assert("V_VP9"@[2] != "V_AV1"@[2]);
    assert("V_VP9"@.len() != "V_MPEG4/ISO/AVC"@.len());
    assert("V_VP9"@.len() != "V_MPEGH/ISO/HEVC"@.len());
    assert("V_VP9"@.len() != "V_FFV1"@.len());
    assert("V_VP9"@.len() != "V_THEORA"@.len());
    assert("V_VP9"@.len() != "S_TEXT/UTF8"@.len());
    assert("V_AV1"@.len() != "V_MPEG4/ISO/AVC"@.len());
    assert("V_AV1"@.len() != "V_MPEGH/ISO/HEVC"@.len());
    assert("V_AV1"@.len() != "V_FFV1"@.len());
    assert("V_AV1"@.len() != "V_THEORA"@.len());
    assert("V_AV1"@.len() != "S_TEXT/UTF8"@.len());
    assert("V_MPEG4/ISO/AVC"@.len() != "V_MPEGH/ISO/HEVC"@.len());
    assert("V_MPEG4/ISO/AVC"@.len() != "V_FFV1"@.len());
    assert("V_MPEG4/ISO/AVC"@.len() != "V_THEORA"@.len());
    assert("V_MPEG4/ISO/AVC"@.len() != "S_TEXT/UTF8"@.len());
    assert("V_MPEGH/ISO/HEVC"@.len() != "V_FFV1"@.len());
    assert("V_MPEGH/ISO/HEVC"@.len() != "V_THEORA"@.len());
    assert("V_MPEGH/ISO/HEVC"@.len() != "S_TEXT/UTF8"@.len());
    assert("V_FFV1"@.len() != "V_THEORA"@.len());
    assert("V_FFV1"@.len() != "S_TEXT/UTF8"@.len());
    assert("V_THEORA"@.len() != "S_TEXT/UTF8"@.len());
}

} // verus!
