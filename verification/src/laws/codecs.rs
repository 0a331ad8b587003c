//! What the codecs of a document are called.

use vstd::prelude::*;
use crate::codec_id::{codec_of, inner_private, lemma_names_differ, vfw_fourcc, webm_allows};
use crate::demux::streams::{extradata_of, flac_magic};
use crate::demux::tracks::TrackEntryView;

verus! {

/// The names that Matroska has for codecs are those of the codecs that they name, whatever
/// the setup bytes are.
pub proof fn lemma_codec_names(setup: Seq<u8>)
    ensures
        codec_of("A_FLAC"@, setup) == "flac"@,
        codec_of("A_OPUS"@, setup) == "opus"@,
        codec_of("A_VORBIS"@, setup) == "vorbis"@,
        codec_of("A_PCM/INT/LIT"@, setup) == "pcm_s16le"@,
        codec_of("A_PCM/INT/BIG"@, setup) == "pcm_s16be"@,
        codec_of("A_PCM/FLOAT/IEEE"@, setup) == "pcm_f32le"@,
        codec_of("A_AAC"@, setup) == "aac"@,
        codec_of("A_AAC/MPEG4/LC"@, setup) == "aac"@,
        codec_of("A_AAC/MPEG2/LC"@, setup) == "aac"@,
        codec_of("A_MPEG/L3"@, setup) == "mp3"@,
        codec_of("A_AC3"@, setup) == "ac3"@,
        codec_of("A_EAC3"@, setup) == "eac3"@,
        codec_of("V_VP8"@, setup) == "vp8"@,
        codec_of("V_VP9"@, setup) == "vp9"@,
        codec_of("V_AV1"@, setup) == "av1"@,
        codec_of("V_MPEG4/ISO/AVC"@, setup) == "h264"@,
        codec_of("V_MPEGH/ISO/HEVC"@, setup) == "h265"@,
        codec_of("V_FFV1"@, setup) == "ffv1"@,
        codec_of("V_THEORA"@, setup) == "theora"@,
        codec_of("S_TEXT/UTF8"@, setup) == "subrip"@,
{
    lemma_names_differ();
}

/// A name that is none of these, nor that for a bitmap header, is kept behind a prefix.
pub proof fn lemma_other_names(s: Seq<char>, setup: Seq<u8>)
    requires
        s.len() > 0,
        s[0] != 'A' && s[0] != 'V' && s[0] != 'S',
    ensures
        codec_of(s, setup) == "mkv:"@ + s,
{
    reveal_strlit("A_FLAC");
    reveal_strlit("A_OPUS");
    reveal_strlit("A_VORBIS");
    reveal_strlit("A_PCM/INT/LIT");
    reveal_strlit("A_PCM/INT/BIG");
    reveal_strlit("A_PCM/FLOAT/IEEE");
    reveal_strlit("A_AAC");
    reveal_strlit("A_AAC/MPEG4/LC");
    reveal_strlit("A_AAC/MPEG2/LC");
    reveal_strlit("A_MPEG/L3");
    reveal_strlit("A_AC3");
    reveal_strlit("A_EAC3");
    reveal_strlit("V_VP8");
    reveal_strlit("V_VP9");
    reveal_strlit("V_AV1");
    reveal_strlit("V_MPEG4/ISO/AVC");
    reveal_strlit("V_MPEGH/ISO/HEVC");
    reveal_strlit("V_FFV1");
    reveal_strlit("V_THEORA");
    reveal_strlit("S_TEXT/UTF8");
    reveal_strlit("V_MS/VFW/FOURCC");
}

/// A bitmap header of 40 bytes in front of the setup bytes of a codec is taken off again, and
/// the setup bytes under any other name stay as they are.
pub proof fn lemma_bitmap_stripped(head: Seq<u8>, setup: Seq<u8>, name: Seq<char>)
    requires
        head.len() == 40,
        name != "V_MS/VFW/FOURCC"@,
    ensures
        inner_private(vfw_fourcc(), head + setup) == setup,
        inner_private(name, head + setup) == head + setup,
{
    assert((head + setup).skip(40) =~= setup);
}

/// The setup bytes of FLAC come without the four letters that Matroska puts in front of them,
/// and those of other codecs as they are.
pub proof fn lemma_setup_bytes(t: TrackEntryView, setup: Seq<u8>, codec: Seq<char>)
    requires
        t.codec_id_string != "V_MS/VFW/FOURCC"@,
        codec != "flac"@,
    ensures
        t.codec_private == seq!['f' as u8, 'L' as u8, 'a' as u8, 'C' as u8] + setup
            ==> extradata_of(t, "flac"@) == setup,
        extradata_of(t, codec) == t.codec_private,
{
    let magic = seq!['f' as u8, 'L' as u8, 'a' as u8, 'C' as u8];
    assert(magic =~= flac_magic());
    if t.codec_private == magic + setup {
        assert(magic.is_prefix_of(t.codec_private));
        assert(t.codec_private.skip(4) =~= setup);
    }
}

/// WebM allows three codecs for video and two for audio.
pub proof fn lemma_webm_codecs(c: Seq<char>, setup: Seq<u8>)
    ensures
        webm_allows(codec_of("V_VP8"@, setup)),
        webm_allows(codec_of("V_VP9"@, setup)),
        webm_allows(codec_of("V_AV1"@, setup)),
        webm_allows(codec_of("A_VORBIS"@, setup)),
        webm_allows(codec_of("A_OPUS"@, setup)),
        webm_allows(c) ==> c == "vp8"@ || c == "vp9"@ || c == "av1"@ || c == "vorbis"@ || c
            == "opus"@,
{
    lemma_codec_names(setup);
}

} // verus!
