//! What the TrackEntry of a document says.

use vstd::prelude::*;
use super::pieces::{all_plain, leads, lemma_pieces_read, pieces, there, Piece};
use super::video::{lemma_video_says, video_of, VideoFacts};
use crate::demux::encodings::{
    aes_settings_step, compression_step, decode_order, default_compression, default_encoding,
    default_encryption, encoding_step, encodings_step, encryption_step,
    lemma_aes_cipher_mode_round_trip, lemma_content_comp_algo_round_trip,
    lemma_content_enc_algo_round_trip, read_encoding, read_encodings, AesCipherMode,
    CompressionView, ContentCompAlgo, ContentEncAlgo, ContentEncodingScope, ContentEncodingView,
    EncodingPartsView, EncryptionView, TransformView,
};
use crate::demux::tracks::{
    audio_step, combine_planes_step, empty_mapping, empty_operation, empty_plane, empty_track,
    join_blocks_step, mapping_step, operation_step, plane_step, track_entry_step, video_defaults,
    AudioParts, BlockAdditionMappingView, PlaneParts, RawOperationView, TrackEntryView,
};
use crate::ebml::{walk, Float};
use crate::error::MkvError;
use crate::ids;
use crate::round_trip::elements::{holds, no_nul, MAX_LEN};
use crate::sort::{lemma_inserted_at, stable_sorted};

verus! {

/// The sound of a track; the rate is in the bits of a 64-bit float.
pub struct AudioFacts {
    pub rate: u64,
    pub channels: u64,
    pub depth: u64,
}

impl AudioFacts {
    pub open spec fn pieces(self) -> Seq<Piece> {
        seq![
            Piece::Real(ids::SAMPLING_FREQUENCY, self.rate),
            Piece::Number(ids::CHANNELS, self.channels),
            Piece::Number(ids::BIT_DEPTH, self.depth),
        ]
    }
}

/// How such an Audio is read.
pub open spec fn audio_of(f: AudioFacts) -> AudioParts {
    AudioParts {
        sample_rate: Float::Double(f.rate),
        channels: f.channels,
        bit_depth: f.depth,
    }
}

/// The same behind the first `k` children.
spec fn audio_so_far(f: AudioFacts, v: AudioParts, k: int) -> AudioParts {
    let n = v;
    let t = audio_of(f);
    AudioParts {
        sample_rate: if k > 0 { t.sample_rate } else { n.sample_rate },
        channels: if k > 1 { t.channels } else { n.channels },
        bit_depth: if k > 2 { t.bit_depth } else { n.bit_depth },
    }
}

#[verifier::rlimit(60)]
proof fn lemma_audio_says_piece(d: Seq<u8>, f: AudioFacts, v: AudioParts, i: int, b: int)
    requires
        0 <= i < 3,
        there(d, f.pieces()[i], b),
    ensures
        audio_step(d)(audio_so_far(f, v, i), f.pieces()[i].header(), b) == Ok::<
            (AudioParts, int),
            MkvError,
        >(
            (audio_so_far(f, v, i + 1), b + f.pieces()[i].header().size),
        ),
{
}

proof fn lemma_audio_says(d: Seq<u8>, pos: int, f: AudioFacts, v: AudioParts)
    requires
        holds(d, pos, pieces(f.pieces())),
        d.len() <= MAX_LEN,
    ensures
        walk(d, pos, pos + pieces(f.pieces()).len(), v, audio_step(d)) == Ok::<
            (AudioParts, int),
            MkvError,
        >((audio_of(f), pos + pieces(f.pieces()).len())),
{
    let ps = f.pieces();
    let states = Seq::new(4, |k: int| audio_so_far(f, v, k));
    let step = audio_step(d);
    assert(all_plain(ps));
    assert(leads(d, ps, 0, states, step)) by {
        assert forall|i: int, b: int|
            0 <= i < ps.len() && #[trigger] there(d, ps[i], b) implies step(
            states[i],
            ps[i].header(),
            b,
        ) == Ok::<(AudioParts, int), MkvError>((states[i + 1], b + ps[i].header().size)) by {
            lemma_audio_says_piece(d, f, v, i, b);
        }
    }
    lemma_pieces_read(d, pos, ps, states, step);
    assert(states[0] == v);
    assert(states[3] == audio_of(f));
}

/// What the additions of Blocks with one number mean.
pub struct MappingFacts {
    pub value: u64,
    pub name: Seq<char>,
    pub kind: u64,
    pub extra: Seq<u8>,
}

impl MappingFacts {
    pub open spec fn pieces(self) -> Seq<Piece> {
        seq![
            Piece::Number(ids::BLOCK_ADD_ID_VALUE, self.value),
            Piece::Text(ids::BLOCK_ADD_ID_NAME, self.name),
            Piece::Number(ids::BLOCK_ADD_ID_TYPE, self.kind),
            Piece::Bytes(ids::BLOCK_ADD_ID_EXTRA_DATA, self.extra),
        ]
    }
}

/// How such a BlockAdditionMapping is read.
pub open spec fn mapping_of(f: MappingFacts) -> BlockAdditionMappingView {
    BlockAdditionMappingView {
        value: Some(f.value),
        name: Some(f.name),
        addid_type: f.kind,
        extra_data: Some(f.extra),
    }
}

/// The same behind the first `k` children.
spec fn mapping_so_far(f: MappingFacts, k: int) -> BlockAdditionMappingView {
    let n = empty_mapping();
    let t = mapping_of(f);
    BlockAdditionMappingView {
        value: if k > 0 { t.value } else { n.value },
        name: if k > 1 { t.name } else { n.name },
        addid_type: if k > 2 { t.addid_type } else { n.addid_type },
        extra_data: if k > 3 { t.extra_data } else { n.extra_data },
    }
}

#[verifier::rlimit(60)]
proof fn lemma_mapping_says_piece(d: Seq<u8>, f: MappingFacts, i: int, b: int)
    requires
        no_nul(f.name),
        0 <= i < 4,
        there(d, f.pieces()[i], b),
    ensures
        mapping_step(d)(mapping_so_far(f, i), f.pieces()[i].header(), b) == Ok::<
            (BlockAdditionMappingView, int),
            MkvError,
        >(
            (mapping_so_far(f, i + 1), b + f.pieces()[i].header().size),
        ),
{
}

proof fn lemma_mapping_says(d: Seq<u8>, pos: int, f: MappingFacts)
    requires
        no_nul(f.name),
        holds(d, pos, pieces(f.pieces())),
        d.len() <= MAX_LEN,
    ensures
        walk(d, pos, pos + pieces(f.pieces()).len(), empty_mapping(), mapping_step(d)) == Ok::<
            (BlockAdditionMappingView, int),
            MkvError,
        >((mapping_of(f), pos + pieces(f.pieces()).len())),
{
    let ps = f.pieces();
    let states = Seq::new(5, |k: int| mapping_so_far(f, k));
    let step = mapping_step(d);
    assert(all_plain(ps));
    assert(leads(d, ps, 0, states, step)) by {
        assert forall|i: int, b: int|
            0 <= i < ps.len() && #[trigger] there(d, ps[i], b) implies step(
            states[i],
            ps[i].header(),
            b,
        ) == Ok::<(BlockAdditionMappingView, int), MkvError>(
            (states[i + 1], b + ps[i].header().size),
        ) by {
            lemma_mapping_says_piece(d, f, i, b);
        }
    }
    lemma_pieces_read(d, pos, ps, states, step);
    assert(states[0] == empty_mapping());
    assert(states[4] == mapping_of(f));
}

/// How the frames of a track were compressed.
pub struct CompressionFacts {
    pub algo: u64,
    pub settings: Seq<u8>,
}

impl CompressionFacts {
    pub open spec fn pieces(self) -> Seq<Piece> {
        seq![
            Piece::Number(ids::CONTENT_COMP_ALGO, self.algo),
            Piece::Bytes(ids::CONTENT_COMP_SETTINGS, self.settings),
        ]
    }
}

/// How such a ContentCompression is read.
pub open spec fn compression_of(f: CompressionFacts) -> CompressionView {
    CompressionView {
        algo: f.algo,
        settings: f.settings,
    }
}

/// The same behind the first `k` children.
spec fn compression_so_far(f: CompressionFacts, k: int) -> CompressionView {
    let n = default_compression();
    let t = compression_of(f);
    CompressionView {
        algo: if k > 0 { t.algo } else { n.algo },
        settings: if k > 1 { t.settings } else { n.settings },
    }
}

#[verifier::rlimit(60)]
proof fn lemma_compression_says_piece(d: Seq<u8>, f: CompressionFacts, i: int, b: int)
    requires
        0 <= i < 2,
        there(d, f.pieces()[i], b),
    ensures
        compression_step(d)(compression_so_far(f, i), f.pieces()[i].header(), b) == Ok::<
            (CompressionView, int),
            MkvError,
        >(
            (compression_so_far(f, i + 1), b + f.pieces()[i].header().size),
        ),
{
}

proof fn lemma_compression_says(d: Seq<u8>, pos: int, f: CompressionFacts)
    requires
        holds(d, pos, pieces(f.pieces())),
        d.len() <= MAX_LEN,
    ensures
        walk(
            d,
            pos,
            pos + pieces(f.pieces()).len(),
            default_compression(),
            compression_step(d),
        ) == Ok::<
            (CompressionView, int),
            MkvError,
        >((compression_of(f), pos + pieces(f.pieces()).len())),
{
    let ps = f.pieces();
    let states = Seq::new(3, |k: int| compression_so_far(f, k));
    let step = compression_step(d);
    assert(all_plain(ps));
    assert(leads(d, ps, 0, states, step)) by {
        assert forall|i: int, b: int|
            0 <= i < ps.len() && #[trigger] there(d, ps[i], b) implies step(
            states[i],
            ps[i].header(),
            b,
        ) == Ok::<(CompressionView, int), MkvError>((states[i + 1], b + ps[i].header().size)) by {
            lemma_compression_says_piece(d, f, i, b);
        }
    }
    lemma_pieces_read(d, pos, ps, states, step);
    assert(states[0] == default_compression());
    assert(states[2] == compression_of(f));
}

/// How the frames of a track were encrypted.
pub struct EncryptionFacts {
    pub algo: u64,
    pub key: Seq<u8>,
    pub mode: u64,
}

impl EncryptionFacts {
    pub open spec fn pieces(self) -> Seq<Piece> {
        seq![
            Piece::Number(ids::CONTENT_ENC_ALGO, self.algo),
            Piece::Bytes(ids::CONTENT_ENC_KEY_ID, self.key),
            Piece::Bytes(
                ids::CONTENT_ENC_AES_SETTINGS,
                pieces(seq![Piece::Number(ids::AES_SETTINGS_CIPHER_MODE, self.mode)]),
            ),
        ]
    }
}

/// How such a ContentEncryption is read.
spec fn encryption_of(f: EncryptionFacts) -> EncryptionView {
    EncryptionView { algo: f.algo, key_id: f.key, cipher_mode: Some(f.mode) }
}

proof fn lemma_encryption_says(d: Seq<u8>, pos: int, f: EncryptionFacts)
    requires
        holds(d, pos, pieces(f.pieces())),
        d.len() <= MAX_LEN,
    ensures
        walk(d, pos, pos + pieces(f.pieces()).len(), default_encryption(), encryption_step(d))
            == Ok::<(EncryptionView, int), MkvError>(
            (encryption_of(f), pos + pieces(f.pieces()).len()),
        ),
{
    let ps = f.pieces();
    let step = encryption_step(d);
    let inner = seq![Piece::Number(ids::AES_SETTINGS_CIPHER_MODE, f.mode)];
    let ks = seq![None::<u64>, Some(f.mode)];
    assert(leads(d, inner, 0, ks, aes_settings_step(d)));
    let s0 = default_encryption();
    let s1 = EncryptionView { algo: f.algo, ..s0 };
    let s2 = EncryptionView { key_id: f.key, ..s1 };
    let s3 = EncryptionView { cipher_mode: Some(f.mode), ..s2 };
    let states = seq![s0, s1, s2, s3];
    assert forall|i: int, b: int|
        0 <= i < ps.len() && #[trigger] there(d, ps[i], b) implies step(
        states[i],
        ps[i].header(),
        b,
    ) == Ok::<(EncryptionView, int), MkvError>((states[i + 1], b + ps[i].header().size)) by {
        if i == 2 {
            lemma_pieces_read(d, b, inner, ks, aes_settings_step(d));
        }
    }
    lemma_pieces_read(d, pos, ps, states, step);
}

/// A ContentEncoding that compresses.
pub open spec fn compressing(order: u64, scope: u64, f: CompressionFacts) -> Seq<Piece> {
    seq![
        Piece::Number(ids::CONTENT_ENCODING_ORDER, order),
        Piece::Number(ids::CONTENT_ENCODING_SCOPE, scope),
        Piece::Number(ids::CONTENT_ENCODING_TYPE, 0),
        Piece::Bytes(ids::CONTENT_COMPRESSION, pieces(f.pieces())),
    ]
}

/// A ContentEncoding that encrypts.
pub open spec fn encrypting(order: u64, scope: u64, f: EncryptionFacts) -> Seq<Piece> {
    seq![
        Piece::Number(ids::CONTENT_ENCODING_ORDER, order),
        Piece::Number(ids::CONTENT_ENCODING_SCOPE, scope),
        Piece::Number(ids::CONTENT_ENCODING_TYPE, 1),
        Piece::Bytes(ids::CONTENT_ENCRYPTION, pieces(f.pieces())),
    ]
}

/// How a ContentEncoding that compresses is read.
pub open spec fn compressed(order: u64, scope: u64, f: CompressionFacts) -> ContentEncodingView {
    ContentEncodingView {
        order,
        scope: ContentEncodingScope(scope),
        transform: TransformView::Compression {
            algo: ContentCompAlgo::of_raw(f.algo),
            settings: f.settings,
        },
    }
}

proof fn lemma_compressing_says(d: Seq<u8>, pos: int, order: u64, scope: u64, f: CompressionFacts)
    requires
        holds(d, pos, pieces(compressing(order, scope, f))),
        d.len() <= MAX_LEN,
    ensures
        read_encoding(d, pos, pos + pieces(compressing(order, scope, f)).len()) == Ok::<
            (ContentEncodingView, int),
            MkvError,
        >((compressed(order, scope, f), pos + pieces(compressing(order, scope, f)).len())),
{
    let ps = compressing(order, scope, f);
    let step = encoding_step(d);
    let s0 = default_encoding();
    let s1 = EncodingPartsView { order, ..s0 };
    let s2 = EncodingPartsView { scope, ..s1 };
    let s3 = EncodingPartsView { enc_type: 0, ..s2 };
    let s4 = EncodingPartsView { compression: compression_of(f), ..s3 };
    let states = seq![s0, s1, s2, s3, s4];
    assert forall|i: int, b: int|
        0 <= i < ps.len() && #[trigger] there(d, ps[i], b) implies step(
        states[i],
        ps[i].header(),
        b,
    ) == Ok::<(EncodingPartsView, int), MkvError>((states[i + 1], b + ps[i].header().size)) by {
        if i == 3 {
            lemma_compression_says(d, b, f);
        }
    }
    lemma_pieces_read(d, pos, ps, states, step);
}

/// A ContentEncoding that compresses is read as it was meant.
pub proof fn lemma_compressing_read(
    d: Seq<u8>,
    pos: int,
    order: u64,
    scope: u64,
    f: CompressionFacts,
)
    requires
        holds(d, pos, pieces(compressing(order, scope, f))),
        d.len() <= MAX_LEN,
    ensures
        ({
            let end = pos + pieces(compressing(order, scope, f)).len();
            read_encoding(d, pos, end) matches Ok((e, next)) && {
                &&& next == end
                &&& e.order == order
                &&& e.scope.0 == scope
                &&& e.transform matches TransformView::Compression { algo, settings }
                    && algo.raw() == f.algo && settings == f.settings
            }
        }),
{
    lemma_content_comp_algo_round_trip(f.algo, ContentCompAlgo::of_raw(f.algo));
    lemma_compressing_says(d, pos, order, scope, f);
}

/// A ContentEncoding that encrypts is read as it was meant.
pub proof fn lemma_encrypting_read(
    d: Seq<u8>,
    pos: int,
    order: u64,
    scope: u64,
    f: EncryptionFacts,
)
    requires
        holds(d, pos, pieces(encrypting(order, scope, f))),
        d.len() <= MAX_LEN,
    ensures
        ({
            let end = pos + pieces(encrypting(order, scope, f)).len();
            read_encoding(d, pos, end) matches Ok((e, next)) && {
                &&& next == end
                &&& e.order == order
                &&& e.scope.0 == scope
                &&& e.transform matches TransformView::Encryption { algo, key_id, aes_cipher_mode }
                    && algo.raw() == f.algo && key_id == f.key
                    && aes_cipher_mode is Some && aes_cipher_mode->0.raw() == f.mode
            }
        }),
{
    lemma_content_enc_algo_round_trip(f.algo, ContentEncAlgo::of_raw(f.algo));
    lemma_aes_cipher_mode_round_trip(f.mode, AesCipherMode::of_raw(f.mode));
    let ps = encrypting(order, scope, f);
    let step = encoding_step(d);
    let s0 = default_encoding();
    let s1 = EncodingPartsView { order, ..s0 };
    let s2 = EncodingPartsView { scope, ..s1 };
    let s3 = EncodingPartsView { enc_type: 1, ..s2 };
    let s4 = EncodingPartsView { encryption: encryption_of(f), ..s3 };
    let states = seq![s0, s1, s2, s3, s4];
    assert forall|i: int, b: int|
        0 <= i < ps.len() && #[trigger] there(d, ps[i], b) implies step(
        states[i],
        ps[i].header(),
        b,
    ) == Ok::<(EncodingPartsView, int), MkvError>((states[i + 1], b + ps[i].header().size)) by {
        if i == 3 {
            lemma_encryption_says(d, b, f);
        }
    }
    lemma_pieces_read(d, pos, ps, states, step);
}

/// A track as its writer means it.
pub struct EntryFacts {
    pub number: u64,
    pub uid: u64,
    pub kind: u64,
    pub codec: Seq<char>,
    pub private: Seq<u8>,
    pub language: Seq<char>,
    pub audio: AudioFacts,
    pub video: VideoFacts,
    /// The track that is a plane of this one, and which plane it is.
    pub plane_uid: u64,
    pub plane_kind: u64,
    /// The track whose Blocks are joined to those of this one.
    pub join_uid: u64,
    pub order: u64,
    pub scope: u64,
    pub compression: CompressionFacts,
    pub mapping: MappingFacts,
}

impl EntryFacts {
    /// Whether the UIDs are some and no text has a zero character.
    pub open spec fn plain(self) -> bool {
        &&& self.uid != 0 && self.plane_uid != 0 && self.join_uid != 0
        &&& no_nul(self.codec) && no_nul(self.language) && no_nul(self.mapping.name)
    }

    pub open spec fn plane_pieces(self) -> Seq<Piece> {
        seq![
            Piece::Number(ids::TRACK_PLANE_UID, self.plane_uid),
            Piece::Number(ids::TRACK_PLANE_TYPE, self.plane_kind),
        ]
    }

    pub open spec fn planes_pieces(self) -> Seq<Piece> {
        seq![Piece::Bytes(ids::TRACK_PLANE, pieces(self.plane_pieces()))]
    }

    pub open spec fn join_pieces(self) -> Seq<Piece> {
        seq![Piece::Number(ids::TRACK_JOIN_UID, self.join_uid)]
    }

    pub open spec fn operation_pieces(self) -> Seq<Piece> {
        seq![
            Piece::Bytes(ids::TRACK_COMBINE_PLANES, pieces(self.planes_pieces())),
            Piece::Bytes(ids::TRACK_JOIN_BLOCKS, pieces(self.join_pieces())),
        ]
    }

    pub open spec fn encodings_pieces(self) -> Seq<Piece> {
        seq![
            Piece::Bytes(
                ids::CONTENT_ENCODING,
                pieces(compressing(self.order, self.scope, self.compression)),
            ),
        ]
    }

    pub open spec fn pieces(self) -> Seq<Piece> {
        seq![
            Piece::Number(ids::TRACK_NUMBER, self.number),
            Piece::Number(ids::TRACK_UID, self.uid),
            Piece::Number(ids::TRACK_TYPE, self.kind),
            Piece::Text(ids::CODEC_ID, self.codec),
            Piece::Bytes(ids::CODEC_PRIVATE, self.private),
            Piece::Text(ids::LANGUAGE, self.language),
            Piece::Bytes(ids::AUDIO, pieces(self.audio.pieces())),
            Piece::Bytes(ids::VIDEO, pieces(self.video.pieces())),
            Piece::Bytes(ids::TRACK_OPERATION, pieces(self.operation_pieces())),
            Piece::Bytes(ids::CONTENT_ENCODINGS, pieces(self.encodings_pieces())),
            Piece::Bytes(ids::BLOCK_ADDITION_MAPPING, pieces(self.mapping.pieces())),
        ]
    }
}

proof fn lemma_planes_say(d: Seq<u8>, pos: int, f: EntryFacts)
    requires
        f.plain(),
        holds(d, pos, pieces(f.planes_pieces())),
        d.len() <= MAX_LEN,
    ensures
        walk(
            d,
            pos,
            pos + pieces(f.planes_pieces()).len(),
            Seq::<(u64, u64)>::empty(),
            combine_planes_step(d),
        ) == Ok::<(Seq<(u64, u64)>, int), MkvError>(
            (seq![(f.plane_uid, f.plane_kind)], pos + pieces(f.planes_pieces()).len()),
        ),
{
    let ps = f.planes_pieces();
    let step = combine_planes_step(d);
    let inner = f.plane_pieces();
    let k0 = empty_plane();
    let k1 = PlaneParts { uid: Some(f.plane_uid), ..k0 };
    let k2 = PlaneParts { plane_type: f.plane_kind, ..k1 };
    let ks = seq![k0, k1, k2];
    assert(leads(d, inner, 0, ks, plane_step(d)));
    let s0 = Seq::<(u64, u64)>::empty();
    let states = seq![s0, s0.push((f.plane_uid, f.plane_kind))];
    assert forall|i: int, b: int|
        0 <= i < ps.len() && #[trigger] there(d, ps[i], b) implies step(
        states[i],
        ps[i].header(),
        b,
    ) == Ok::<(Seq<(u64, u64)>, int), MkvError>((states[i + 1], b + ps[i].header().size)) by {
        lemma_pieces_read(d, b, inner, ks, plane_step(d));
    }
    lemma_pieces_read(d, pos, ps, states, step);
    assert(states[1] =~= seq![(f.plane_uid, f.plane_kind)]);
}

/// How the TrackOperation of a track is read.
pub open spec fn raw_operation_of(f: EntryFacts) -> RawOperationView {
    RawOperationView {
        planes: seq![(f.plane_uid, f.plane_kind)],
        join_uids: seq![f.join_uid],
    }
}

#[verifier::rlimit(40)]
proof fn lemma_operation_says(d: Seq<u8>, pos: int, f: EntryFacts)
    requires
        f.plain(),
        holds(d, pos, pieces(f.operation_pieces())),
        d.len() <= MAX_LEN,
    ensures
        walk(
            d,
            pos,
            pos + pieces(f.operation_pieces()).len(),
            empty_operation(),
            operation_step(d),
        ) == Ok::<(RawOperationView, int), MkvError>(
            (raw_operation_of(f), pos + pieces(f.operation_pieces()).len()),
        ),
{
    let ps = f.operation_pieces();
    let step = operation_step(d);
    let inner = f.join_pieces();
    let k0 = Seq::<u64>::empty();
    let ks = seq![k0, k0.push(f.join_uid)];
    assert(ks[1] =~= seq![f.join_uid]);
    assert(leads(d, inner, 0, ks, join_blocks_step(d)));
    let s0 = empty_operation();
    let s1 = RawOperationView { planes: seq![(f.plane_uid, f.plane_kind)], ..s0 };
    let s2 = RawOperationView { join_uids: seq![f.join_uid], ..s1 };
    let states = seq![s0, s1, s2];
    assert forall|i: int, b: int|
        0 <= i < ps.len() && #[trigger] there(d, ps[i], b) implies step(
        states[i],
        ps[i].header(),
        b,
    ) == Ok::<(RawOperationView, int), MkvError>((states[i + 1], b + ps[i].header().size)) by {
        if i == 0 {
            lemma_planes_say(d, b, f);
        } else {
            lemma_pieces_read(d, b, inner, ks, join_blocks_step(d));
        }
    }
    lemma_pieces_read(d, pos, ps, states, step);
}

proof fn lemma_encodings_say(d: Seq<u8>, pos: int, f: EntryFacts)
    requires
        holds(d, pos, pieces(f.encodings_pieces())),
        d.len() <= MAX_LEN,
    ensures
        read_encodings(d, pos, pos + pieces(f.encodings_pieces()).len()) == Ok::<
            (Seq<ContentEncodingView>, int),
            MkvError,
        >(
            (
                seq![compressed(f.order, f.scope, f.compression)],
                pos + pieces(f.encodings_pieces()).len(),
            ),
        ),
{
    let ps = f.encodings_pieces();
    let step = encodings_step(d);
    let e = compressed(f.order, f.scope, f.compression);
    let s0 = Seq::<ContentEncodingView>::empty();
    let s1 = s0.push(e);
    let states = seq![s0, s1];
    assert forall|i: int, b: int|
        0 <= i < ps.len() && #[trigger] there(d, ps[i], b) implies step(
        states[i],
        ps[i].header(),
        b,
    ) == Ok::<(Seq<ContentEncodingView>, int), MkvError>(
        (states[i + 1], b + ps[i].header().size),
    ) by {
        lemma_compressing_says(d, b, f.order, f.scope, f.compression);
    }
    lemma_pieces_read(d, pos, ps, states, step);
    assert(s1.drop_last() =~= s0);
    assert(stable_sorted(s0, decode_order()) == s0);
    lemma_inserted_at(s0, e, decode_order(), 0);
    assert(s0.insert(0, e) =~= seq![e]);
}

/// How a track is read.
pub open spec fn entry_of(f: EntryFacts) -> TrackEntryView {
    TrackEntryView {
        number: f.number,
        uid: f.uid,
        track_type: f.kind,
        codec_id_string: f.codec,
        codec_private: f.private,
        language: Some(f.language),
        audio: audio_of(f.audio),
        has_video: true,
        video: video_of(f.video),
        track_operation: Some(raw_operation_of(f)),
        content_encodings: Some(seq![compressed(f.order, f.scope, f.compression)]),
        block_addition_mappings: seq![mapping_of(f.mapping)],
    }
}

/// The track behind its first `k` children.
spec fn entry_so_far(f: EntryFacts, k: int) -> TrackEntryView {
    let n = empty_track();
    let t = entry_of(f);
    TrackEntryView {
        number: if k > 0 { t.number } else { n.number },
        uid: if k > 1 { t.uid } else { n.uid },
        track_type: if k > 2 { t.track_type } else { n.track_type },
        codec_id_string: if k > 3 { t.codec_id_string } else { n.codec_id_string },
        codec_private: if k > 4 { t.codec_private } else { n.codec_private },
        language: if k > 5 { t.language } else { n.language },
        audio: if k > 6 { t.audio } else { n.audio },
        has_video: k > 7,
        video: if k > 7 { t.video } else { n.video },
        track_operation: if k > 8 { t.track_operation } else { n.track_operation },
        content_encodings: if k > 9 { t.content_encodings } else { n.content_encodings },
        block_addition_mappings: if k > 10 {
            t.block_addition_mappings
        } else {
            n.block_addition_mappings
        },
    }
}

#[verifier::rlimit(60)]
proof fn lemma_entry_piece(d: Seq<u8>, f: EntryFacts, i: int, b: int)
    requires
        f.plain(),
        0 <= i < 11,
        there(d, f.pieces()[i], b),
    ensures
        track_entry_step(d)(entry_so_far(f, i), f.pieces()[i].header(), b) == Ok::<
            (TrackEntryView, int),
            MkvError,
        >((entry_so_far(f, i + 1), b + f.pieces()[i].header().size)),
{
    reveal(track_entry_step);
    if i == 6 {
        lemma_audio_says(d, b, f.audio, empty_track().audio);
    } else if i == 7 {
        lemma_video_says(d, b, f.video, video_defaults(empty_track().video));
    } else if i == 8 {
        lemma_operation_says(d, b, f);
    } else if i == 9 {
        lemma_encodings_say(d, b, f);
    } else if i == 10 {
        lemma_mapping_says(d, b, f.mapping);
        assert(empty_track().block_addition_mappings.push(mapping_of(f.mapping)) =~= seq![
            mapping_of(f.mapping),
        ]);
    }
}

/// A TrackEntry is read as it was meant.
#[verifier::rlimit(40)]
pub proof fn lemma_entry_says(d: Seq<u8>, pos: int, f: EntryFacts)
    requires
        f.plain(),
        holds(d, pos, pieces(f.pieces())),
        d.len() <= MAX_LEN,
    ensures
        walk(d, pos, pos + pieces(f.pieces()).len(), empty_track(), track_entry_step(d)) == Ok::<
            (TrackEntryView, int),
            MkvError,
        >((entry_of(f), pos + pieces(f.pieces()).len())),
{
    let ps = f.pieces();
    let states = Seq::new(12, |k: int| entry_so_far(f, k));
    let step = track_entry_step(d);
    assert(all_plain(ps));
    assert(leads(d, ps, 0, states, step)) by {
        assert forall|i: int, b: int|
            0 <= i < ps.len() && #[trigger] there(d, ps[i], b) implies step(
            states[i],
            ps[i].header(),
            b,
        ) == Ok::<(TrackEntryView, int), MkvError>((states[i + 1], b + ps[i].header().size)) by {
            lemma_entry_piece(d, f, i, b);
        }
    }
    lemma_pieces_read(d, pos, ps, states, step);
    assert(states[0] == empty_track());
    assert(states[11] == entry_of(f));
}

} // verus!
