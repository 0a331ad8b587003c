//! Content encodings: compression and encryption of a track.

use vstd::prelude::*;
use crate::ebml::{
    end_of, left_of, on_bytes, on_master, on_uint, passed, read_bytes, read_element_header,
    read_uint, skip, walk, ElementHeader,
};
use crate::error::MkvError;
use crate::ids;
use crate::sort::{
    is_sorted, lemma_inserted_at, lemma_stable_sorted_is_sorted, lemma_stable_sorted_keeps,
    lemma_stable_sorted_multiset, reversed, stable_sorted,
};
use crate::views::{group_views, opt_view, read_plain, read_view, read_views, views};

verus! {

broadcast use group_views;

/// A compression.
#[derive(Clone, Copy, Debug, PartialEq, Eq, Structural)]
pub enum ContentCompAlgo {
    Zlib,
    Bzlib,
    Lzo1x,
    /// The same leading bytes have been taken off every frame.
    HeaderStripping,
    /// A value without a name.
    Other(u64),
}

impl ContentCompAlgo {
    /// The stored value.
    pub open spec fn raw(self) -> u64 {
        match self {
            ContentCompAlgo::Zlib => 0,
            ContentCompAlgo::Bzlib => 1,
            ContentCompAlgo::Lzo1x => 2,
            ContentCompAlgo::HeaderStripping => 3,
            ContentCompAlgo::Other(v) => v,
        }
    }

    /// What a stored value stands for.
    pub open spec fn of_raw(v: u64) -> ContentCompAlgo {
        if v == 0 {
            ContentCompAlgo::Zlib
        } else if v == 1 {
            ContentCompAlgo::Bzlib
        } else if v == 2 {
            ContentCompAlgo::Lzo1x
        } else if v == 3 {
            ContentCompAlgo::HeaderStripping
        } else {
            ContentCompAlgo::Other(v)
        }
    }

    /// What a stored value stands for.
    pub fn from_raw(v: u64) -> (r: ContentCompAlgo)
        ensures
            r == ContentCompAlgo::of_raw(v),
    {
        match v {
            0 => ContentCompAlgo::Zlib,
            1 => ContentCompAlgo::Bzlib,
            2 => ContentCompAlgo::Lzo1x,
            3 => ContentCompAlgo::HeaderStripping,
            other => ContentCompAlgo::Other(other),
        }
    }
}

/// Every value survives being turned into [`ContentCompAlgo`] and back, and so does every
/// [`ContentCompAlgo`] but an `Other` for a value that has a name.
pub proof fn lemma_content_comp_algo_round_trip(v: u64, x: ContentCompAlgo)
    ensures
        ContentCompAlgo::of_raw(v).raw() == v,
        ContentCompAlgo::of_raw(x.raw()) == x
            || (x is Other && !(ContentCompAlgo::of_raw(x.raw()) is Other)),
{
}

/// An encryption.
#[derive(Clone, Copy, Debug, PartialEq, Eq, Structural)]
pub enum ContentEncAlgo {
    NotEncrypted,
    Des,
    TripleDes,
    Twofish,
    Blowfish,
    Aes,
    /// A value without a name.
    Other(u64),
}

impl ContentEncAlgo {
    /// The stored value.
    pub open spec fn raw(self) -> u64 {
        match self {
            ContentEncAlgo::NotEncrypted => 0,
            ContentEncAlgo::Des => 1,
            ContentEncAlgo::TripleDes => 2,
            ContentEncAlgo::Twofish => 3,
            ContentEncAlgo::Blowfish => 4,
            ContentEncAlgo::Aes => 5,
            ContentEncAlgo::Other(v) => v,
        }
    }

    /// What a stored value stands for.
    pub open spec fn of_raw(v: u64) -> ContentEncAlgo {
        if v == 0 {
            ContentEncAlgo::NotEncrypted
        } else if v == 1 {
            ContentEncAlgo::Des
        } else if v == 2 {
            ContentEncAlgo::TripleDes
        } else if v == 3 {
            ContentEncAlgo::Twofish
        } else if v == 4 {
            ContentEncAlgo::Blowfish
        } else if v == 5 {
            ContentEncAlgo::Aes
        } else {
            ContentEncAlgo::Other(v)
        }
    }

    /// What a stored value stands for.
    pub fn from_raw(v: u64) -> (r: ContentEncAlgo)
        ensures
            r == ContentEncAlgo::of_raw(v),
    {
        match v {
            0 => ContentEncAlgo::NotEncrypted,
            1 => ContentEncAlgo::Des,
            2 => ContentEncAlgo::TripleDes,
            3 => ContentEncAlgo::Twofish,
            4 => ContentEncAlgo::Blowfish,
            5 => ContentEncAlgo::Aes,
            other => ContentEncAlgo::Other(other),
        }
    }
}

/// Every value survives being turned into [`ContentEncAlgo`] and back, and so does every
/// [`ContentEncAlgo`] but an `Other` for a value that has a name.
pub proof fn lemma_content_enc_algo_round_trip(v: u64, x: ContentEncAlgo)
    ensures
        ContentEncAlgo::of_raw(v).raw() == v,
        ContentEncAlgo::of_raw(x.raw()) == x
            || (x is Other && !(ContentEncAlgo::of_raw(x.raw()) is Other)),
{
}

/// A mode of AES.
#[derive(Clone, Copy, Debug, PartialEq, Eq, Structural)]
pub enum AesCipherMode {
    Ctr,
    Cbc,
    /// A value without a name.
    Other(u64),
}

impl AesCipherMode {
    /// The stored value.
    pub open spec fn raw(self) -> u64 {
        match self {
            AesCipherMode::Ctr => 1,
            AesCipherMode::Cbc => 2,
            AesCipherMode::Other(v) => v,
        }
    }

    /// What a stored value stands for.
    pub open spec fn of_raw(v: u64) -> AesCipherMode {
        if v == 1 {
            AesCipherMode::Ctr
        } else if v == 2 {
            AesCipherMode::Cbc
        } else {
            AesCipherMode::Other(v)
        }
    }

    /// What a stored value stands for.
    pub fn from_raw(v: u64) -> (r: AesCipherMode)
        ensures
            r == AesCipherMode::of_raw(v),
    {
        match v {
            1 => AesCipherMode::Ctr,
            2 => AesCipherMode::Cbc,
            other => AesCipherMode::Other(other),
        }
    }
}

/// Every value survives being turned into [`AesCipherMode`] and back, and so does every
/// [`AesCipherMode`] but an `Other` for a value that has a name.
pub proof fn lemma_aes_cipher_mode_round_trip(v: u64, x: AesCipherMode)
    ensures
        AesCipherMode::of_raw(v).raw() == v,
        AesCipherMode::of_raw(x.raw()) == x
            || (x is Other && !(AesCipherMode::of_raw(x.raw()) is Other)),
{
}

/// What an encoding was applied to, as bits.
#[derive(Clone, Copy, Debug, PartialEq, Eq, Structural)]
pub struct ContentEncodingScope(pub u64);

impl ContentEncodingScope {
    /// Whether the frames were encoded.
    pub open spec fn spec_block(self) -> bool {
        self.0 & ids::CONTENT_ENCODING_SCOPE_BLOCK != 0
    }

    /// Whether the frames were encoded.
    pub fn block(self) -> (r: bool)
        ensures
            r == self.spec_block(),
            r == (self.0 % 2 == 1),
    {
        let scope: u64 = self.0;
        assert((scope & 0x1 != 0) == (scope % 2 == 1)) by (bit_vector);
        self.0 & ids::CONTENT_ENCODING_SCOPE_BLOCK != 0
    }

    /// Whether the codec's private data was encoded.
    pub fn private(self) -> (r: bool)
        ensures
            r == (self.0 & ids::CONTENT_ENCODING_SCOPE_PRIVATE != 0),
            r == (self.0 / 2 % 2 == 1),
    {
        let scope: u64 = self.0;
        assert((scope & 0x2 != 0) == (scope / 2 % 2 == 1)) by (bit_vector);
        self.0 & ids::CONTENT_ENCODING_SCOPE_PRIVATE != 0
    }

    /// Whether the next encoding was encoded.
    pub fn next(self) -> (r: bool)
        ensures
            r == (self.0 & ids::CONTENT_ENCODING_SCOPE_NEXT != 0),
            r == (self.0 / 4 % 2 == 1),
    {
        let scope: u64 = self.0;
        assert((scope & 0x4 != 0) == (scope / 4 % 2 == 1)) by (bit_vector);
        self.0 & ids::CONTENT_ENCODING_SCOPE_NEXT != 0
    }
}

/// What was done to the data.
#[derive(Clone, Debug, PartialEq, Eq)]
pub enum ContentEncodingTransform {
    Compression { algo: ContentCompAlgo, settings: Vec<u8> },
    Encryption { algo: ContentEncAlgo, key_id: Vec<u8>, aes_cipher_mode: Option<AesCipherMode> },
}

/// The view of a [`ContentEncodingTransform`].
#[verifier::ext_equal]
pub enum TransformView {
    Compression { algo: ContentCompAlgo, settings: Seq<u8> },
    Encryption { algo: ContentEncAlgo, key_id: Seq<u8>, aes_cipher_mode: Option<AesCipherMode> },
}

impl View for ContentEncodingTransform {
    type V = TransformView;

    open spec fn view(&self) -> TransformView {
        match self {
            ContentEncodingTransform::Compression { algo, settings } => TransformView::Compression {
                algo: *algo,
                settings: settings@,
            },
            ContentEncodingTransform::Encryption {
                algo,
                key_id,
                aes_cipher_mode,
            } => TransformView::Encryption {
                algo: *algo,
                key_id: key_id@,
                aes_cipher_mode: *aes_cipher_mode,
            },
        }
    }
}

/// One encoding of a track's data.
#[derive(Clone, Debug, PartialEq, Eq)]
pub struct ContentEncoding {
    /// Encodings are undone from the highest order to the lowest.
    pub order: u64,
    pub scope: ContentEncodingScope,
    pub transform: ContentEncodingTransform,
}

/// The view of a [`ContentEncoding`].
#[verifier::ext_equal]
pub struct ContentEncodingView {
    pub order: u64,
    pub scope: ContentEncodingScope,
    pub transform: TransformView,
}

impl View for ContentEncoding {
    type V = ContentEncodingView;

    open spec fn view(&self) -> ContentEncodingView {
        ContentEncodingView {
            order: self.order,
            scope: self.scope,
            transform: self.transform@,
        }
    }
}

/// The encodings of a track's data, in the order in which they are undone.
#[derive(Clone, Debug, PartialEq, Eq)]
pub struct ContentEncodings {
    pub encodings: Vec<ContentEncoding>,
}

impl View for ContentEncodings {
    type V = Seq<ContentEncodingView>;

    open spec fn view(&self) -> Seq<ContentEncodingView> {
        views(self.encodings@)
    }
}

impl ContentEncodings {
    /// Whether there are no encodings.
    pub fn is_empty(&self) -> (r: bool)
        ensures
            r == (self@.len() == 0),
    {
        self.encodings.is_empty()
    }
}

/// The children of a ContentCompression.
pub struct Compression {
    pub algo: u64,
    pub settings: Vec<u8>,
}

/// The view of a [`Compression`].
#[verifier::ext_equal]
pub struct CompressionView {
    pub algo: u64,
    pub settings: Seq<u8>,
}

impl View for Compression {
    type V = CompressionView;

    open spec fn view(&self) -> CompressionView {
        CompressionView { algo: self.algo, settings: self.settings@ }
    }
}

/// A ContentCompression without children.
pub open spec fn default_compression() -> CompressionView {
    CompressionView { algo: ids::CONTENT_COMP_ALGO_ZLIB, settings: Seq::empty() }
}

/// The children of a ContentEncryption.
pub struct Encryption {
    pub algo: u64,
    pub key_id: Vec<u8>,
    pub cipher_mode: Option<u64>,
}

/// The view of an [`Encryption`].
#[verifier::ext_equal]
pub struct EncryptionView {
    pub algo: u64,
    pub key_id: Seq<u8>,
    pub cipher_mode: Option<u64>,
}

impl View for Encryption {
    type V = EncryptionView;

    open spec fn view(&self) -> EncryptionView {
        EncryptionView {
            algo: self.algo,
            key_id: self.key_id@,
            cipher_mode: self.cipher_mode,
        }
    }
}

/// A ContentEncryption without children.
pub open spec fn default_encryption() -> EncryptionView {
    EncryptionView {
        algo: ids::CONTENT_ENC_ALGO_NONE,
        key_id: Seq::empty(),
        cipher_mode: None,
    }
}

/// The children of a ContentEncoding.
pub struct EncodingParts {
    pub order: u64,
    pub scope: u64,
    pub enc_type: u64,
    pub compression: Compression,
    pub encryption: Encryption,
}

/// The view of [`EncodingParts`].
#[verifier::ext_equal]
pub struct EncodingPartsView {
    pub order: u64,
    pub scope: u64,
    pub enc_type: u64,
    pub compression: CompressionView,
    pub encryption: EncryptionView,
}

impl View for EncodingParts {
    type V = EncodingPartsView;

    open spec fn view(&self) -> EncodingPartsView {
        EncodingPartsView {
            order: self.order,
            scope: self.scope,
            enc_type: self.enc_type,
            compression: self.compression@,
            encryption: self.encryption@,
        }
    }
}

/// A ContentEncoding without children.
pub open spec fn default_encoding() -> EncodingPartsView {
    EncodingPartsView {
        order: 0,
        scope: ids::CONTENT_ENCODING_SCOPE_BLOCK,
        enc_type: ids::CONTENT_ENCODING_TYPE_COMPRESSION,
        compression: default_compression(),
        encryption: default_encryption(),
    }
}

/// What each child of a ContentEncAESSettings element adds.
pub open spec fn aes_settings_step(
    d: Seq<u8>,
) -> spec_fn(Option<u64>, ElementHeader, int) -> Result<
    (Option<u64>, int),
    MkvError,
> {
    |s: Option<u64>, h: ElementHeader, b: int|
        if h.id == ids::AES_SETTINGS_CIPHER_MODE {
            on_uint(d, h, b, |v: u64| Some(v))
        } else {
            passed(s, b, h.size)
        }
}

/// Reads the children of a ContentEncAESSettings element.
pub fn parse_aes_settings(
    d: &[u8],
    start: u64,
    end: u64,
) -> (r: Result<(Option<u64>, u64), MkvError>)
    ensures
        read_plain(r) == walk(d@, start as int, end as int, None::<u64>, aes_settings_step(d@)),
        r matches Ok((_, next)) ==> next >= start,
{
    let mut s: Option<u64> = None;
    let mut pos: u64 = start;
    let ghost step = aes_settings_step(d@);
    while pos < end
        invariant
            step == aes_settings_step(d@),
            walk(d@, start as int, end as int, None::<u64>, step) == walk(
                d@,
                pos as int,
                end as int,
                s,
                step,
            ),
            pos >= start,
        decreases left_of(d@, pos as int),
    {
        let h: ElementHeader = read_element_header(d, pos)?;
        let body: u64 = pos + h.header_len;
        if h.id == ids::AES_SETTINGS_CIPHER_MODE {
            s = Some(read_uint(d, body, h.size)?);
            pos = body + h.size;
        } else {
            pos = skip(body, h.size)?;
        }
    }
    Ok((s, pos))
}

/// What each child of a ContentCompression adds.
pub open spec fn compression_step(
    d: Seq<u8>,
) -> spec_fn(CompressionView, ElementHeader, int) -> Result<
    (CompressionView, int),
    MkvError,
> {
    |s: CompressionView, h: ElementHeader, b: int|
        if h.id == ids::CONTENT_COMP_ALGO {
            on_uint(d, h, b, |v: u64| CompressionView { algo: v, ..s })
        } else if h.id == ids::CONTENT_COMP_SETTINGS {
            on_bytes(d, h, b, |v: Seq<u8>| CompressionView { settings: v, ..s })
        } else {
            passed(s, b, h.size)
        }
}

/// Reads the children of a ContentCompression.
pub fn parse_content_compression(
    d: &[u8],
    start: u64,
    end: u64,
) -> (r: Result<(Compression, u64), MkvError>)
    ensures
        read_view(r) == walk(
            d@,
            start as int,
            end as int,
            default_compression(),
            compression_step(d@),
        ),
        r matches Ok((_, next)) ==> next >= start,
{
    let mut s: Compression = Compression {
        algo: ids::CONTENT_COMP_ALGO_ZLIB,
        settings: Vec::new(),
    };
    assert(s@ =~= default_compression());
    let mut pos: u64 = start;
    let ghost step = compression_step(d@);
    while pos < end
        invariant
            step == compression_step(d@),
            walk(d@, start as int, end as int, default_compression(), step) == walk(
                d@,
                pos as int,
                end as int,
                s@,
                step,
            ),
            pos >= start,
        decreases left_of(d@, pos as int),
    {
        let h: ElementHeader = read_element_header(d, pos)?;
        let body: u64 = pos + h.header_len;
        if h.id == ids::CONTENT_COMP_ALGO {
            s.algo = read_uint(d, body, h.size)?;
            pos = body + h.size;
        } else if h.id == ids::CONTENT_COMP_SETTINGS {
            s.settings = read_bytes(d, body, h.size)?;
            pos = body + h.size;
        } else {
            pos = skip(body, h.size)?;
        }
    }
    Ok((s, pos))
}

/// What each child of a ContentEncryption adds.
pub open spec fn encryption_step(
    d: Seq<u8>,
) -> spec_fn(EncryptionView, ElementHeader, int) -> Result<
    (EncryptionView, int),
    MkvError,
> {
    |s: EncryptionView, h: ElementHeader, b: int|
        if h.id == ids::CONTENT_ENC_ALGO {
            on_uint(d, h, b, |v: u64| EncryptionView { algo: v, ..s })
        } else if h.id == ids::CONTENT_ENC_KEY_ID {
            on_bytes(d, h, b, |v: Seq<u8>| EncryptionView { key_id: v, ..s })
        } else if h.id == ids::CONTENT_ENC_AES_SETTINGS {
            on_master(
                walk(d, b, end_of(b, h.size), None::<u64>, aes_settings_step(d)),
                |m: Option<u64>| EncryptionView { cipher_mode: m, ..s },
            )
        } else {
            passed(s, b, h.size)
        }
}

/// Reads the children of a ContentEncryption.
pub fn parse_content_encryption(
    d: &[u8],
    start: u64,
    end: u64,
) -> (r: Result<(Encryption, u64), MkvError>)
    ensures
        read_view(r) == walk(
            d@,
            start as int,
            end as int,
            default_encryption(),
            encryption_step(d@),
        ),
        r matches Ok((_, next)) ==> next >= start,
{
    let mut s: Encryption = Encryption {
        algo: ids::CONTENT_ENC_ALGO_NONE,
        key_id: Vec::new(),
        cipher_mode: None,
    };
    assert(s@ =~= default_encryption());
    let mut pos: u64 = start;
    let ghost step = encryption_step(d@);
    while pos < end
        invariant
            step == encryption_step(d@),
            walk(d@, start as int, end as int, default_encryption(), step) == walk(
                d@,
                pos as int,
                end as int,
                s@,
                step,
            ),
            pos >= start,
        decreases left_of(d@, pos as int),
    {
        let h: ElementHeader = read_element_header(d, pos)?;
        let body: u64 = pos + h.header_len;
        if h.id == ids::CONTENT_ENC_ALGO {
            s.algo = read_uint(d, body, h.size)?;
            pos = body + h.size;
        } else if h.id == ids::CONTENT_ENC_KEY_ID {
            s.key_id = read_bytes(d, body, h.size)?;
            pos = body + h.size;
        } else if h.id == ids::CONTENT_ENC_AES_SETTINGS {
            let (m, next) = parse_aes_settings(d, body, body.saturating_add(h.size))?;
            s.cipher_mode = m;
            pos = next;
        } else {
            pos = skip(body, h.size)?;
        }
    }
    Ok((s, pos))
}

/// What each child of a ContentEncoding adds.
pub open spec fn encoding_step(
    d: Seq<u8>,
) -> spec_fn(EncodingPartsView, ElementHeader, int) -> Result<
    (EncodingPartsView, int),
    MkvError,
> {
    |s: EncodingPartsView, h: ElementHeader, b: int|
        if h.id == ids::CONTENT_ENCODING_ORDER {
            on_uint(d, h, b, |v: u64| EncodingPartsView { order: v, ..s })
        } else if h.id == ids::CONTENT_ENCODING_SCOPE {
            on_uint(d, h, b, |v: u64| EncodingPartsView { scope: v, ..s })
        } else if h.id == ids::CONTENT_ENCODING_TYPE {
            on_uint(d, h, b, |v: u64| EncodingPartsView { enc_type: v, ..s })
        } else if h.id == ids::CONTENT_COMPRESSION {
            on_master(
                walk(d, b, end_of(b, h.size), default_compression(), compression_step(d)),
                |c: CompressionView| EncodingPartsView { compression: c, ..s },
            )
        } else if h.id == ids::CONTENT_ENCRYPTION {
            on_master(
                walk(d, b, end_of(b, h.size), default_encryption(), encryption_step(d)),
                |c: EncryptionView| EncodingPartsView { encryption: c, ..s },
            )
        } else {
            passed(s, b, h.size)
        }
}

/// Reads the children of a ContentEncoding.
fn parse_encoding_parts(
    d: &[u8],
    start: u64,
    end: u64,
) -> (r: Result<(EncodingParts, u64), MkvError>)
    ensures
        read_view(r) == walk(d@, start as int, end as int, default_encoding(), encoding_step(d@)),
        r matches Ok((_, next)) ==> next >= start,
{
    let mut s: EncodingParts = EncodingParts {
        order: 0,
        scope: ids::CONTENT_ENCODING_SCOPE_BLOCK,
        enc_type: ids::CONTENT_ENCODING_TYPE_COMPRESSION,
        compression: Compression { algo: ids::CONTENT_COMP_ALGO_ZLIB, settings: Vec::new() },
        encryption: Encryption {
            algo: ids::CONTENT_ENC_ALGO_NONE,
            key_id: Vec::new(),
            cipher_mode: None,
        },
    };
    assert(s@ =~= default_encoding());
    let mut pos: u64 = start;
    let ghost step = encoding_step(d@);
    while pos < end
        invariant
            step == encoding_step(d@),
            walk(d@, start as int, end as int, default_encoding(), step) == walk(
                d@,
                pos as int,
                end as int,
                s@,
                step,
            ),
            pos >= start,
        decreases left_of(d@, pos as int),
    {
        let h: ElementHeader = read_element_header(d, pos)?;
        let body: u64 = pos + h.header_len;
        if h.id == ids::CONTENT_ENCODING_ORDER {
            s.order = read_uint(d, body, h.size)?;
            pos = body + h.size;
        } else if h.id == ids::CONTENT_ENCODING_SCOPE {
            s.scope = read_uint(d, body, h.size)?;
            pos = body + h.size;
        } else if h.id == ids::CONTENT_ENCODING_TYPE {
            s.enc_type = read_uint(d, body, h.size)?;
            pos = body + h.size;
        } else if h.id == ids::CONTENT_COMPRESSION {
            let (c, next) = parse_content_compression(d, body, body.saturating_add(h.size))?;
            s.compression = c;
            pos = next;
        } else if h.id == ids::CONTENT_ENCRYPTION {
            let (c, next) = parse_content_encryption(d, body, body.saturating_add(h.size))?;
            s.encryption = c;
            pos = next;
        } else {
            pos = skip(body, h.size)?;
        }
    }
    Ok((s, pos))
}

/// The encoding that the children of a ContentEncoding make. What is not declared an
/// encryption is a compression.
pub open spec fn encoding_of(p: EncodingPartsView) -> ContentEncodingView {
    ContentEncodingView {
        order: p.order,
        scope: ContentEncodingScope(p.scope),
        transform: if p.enc_type == ids::CONTENT_ENCODING_TYPE_ENCRYPTION {
            TransformView::Encryption {
                algo: ContentEncAlgo::of_raw(p.encryption.algo),
                key_id: p.encryption.key_id,
                aes_cipher_mode: match p.encryption.cipher_mode {
                    Some(m) => Some(AesCipherMode::of_raw(m)),
                    None => None,
                },
            }
        } else {
            TransformView::Compression {
                algo: ContentCompAlgo::of_raw(p.compression.algo),
                settings: p.compression.settings,
            }
        },
    }
}

/// The ContentEncoding whose children start at `start`.
pub open spec fn read_encoding(d: Seq<u8>, start: int, end: int) -> Result<
    (ContentEncodingView, int),
    MkvError,
> {
    on_master(
        walk(d, start, end, default_encoding(), encoding_step(d)),
        |p: EncodingPartsView| encoding_of(p),
    )
}

/// Reads the ContentEncoding whose children start at `start`.
pub fn parse_content_encoding(d: &[u8], start: u64, end: u64) -> (r: Result<
    (ContentEncoding, u64),
    MkvError,
>)
    ensures
        read_view(r) == read_encoding(d@, start as int, end as int),
        r matches Ok((_, next)) ==> next >= start,
{
    let (p, next) = parse_encoding_parts(d, start, end)?;
    let transform: ContentEncodingTransform = if p.enc_type
        == ids::CONTENT_ENCODING_TYPE_ENCRYPTION {
        ContentEncodingTransform::Encryption {
            algo: ContentEncAlgo::from_raw(p.encryption.algo),
            key_id: p.encryption.key_id,
            aes_cipher_mode: match p.encryption.cipher_mode {
                Some(m) => Some(AesCipherMode::from_raw(m)),
                None => None,
            },
        }
    } else {
        ContentEncodingTransform::Compression {
            algo: ContentCompAlgo::from_raw(p.compression.algo),
            settings: p.compression.settings,
        }
    };
    Ok((ContentEncoding { order: p.order, scope: ContentEncodingScope(p.scope), transform }, next))
}

/// What each child of a ContentEncodings element adds.
pub open spec fn encodings_step(
    d: Seq<u8>,
) -> spec_fn(Seq<ContentEncodingView>, ElementHeader, int) -> Result<
    (Seq<ContentEncodingView>, int),
    MkvError,
> {
    |s: Seq<ContentEncodingView>, h: ElementHeader, b: int|
        if h.id == ids::CONTENT_ENCODING {
            on_master(read_encoding(d, b, end_of(b, h.size)), |c: ContentEncodingView| s.push(c))
        } else {
            passed(s, b, h.size)
        }
}

/// Reads the children of a ContentEncodings element in document order.
fn parse_encoding_list(
    d: &[u8],
    start: u64,
    end: u64,
) -> (r: Result<(Vec<ContentEncoding>, u64), MkvError>)
    ensures
        read_views(r) == walk(
            d@,
            start as int,
            end as int,
            Seq::<ContentEncodingView>::empty(),
            encodings_step(d@),
        ),
        r matches Ok((_, next)) ==> next >= start,
{
    let mut s: Vec<ContentEncoding> = Vec::new();
    assert(views(s@) =~= Seq::<ContentEncodingView>::empty());
    let mut pos: u64 = start;
    let ghost step = encodings_step(d@);
    while pos < end
        invariant
            step == encodings_step(d@),
            walk(d@, start as int, end as int, Seq::<ContentEncodingView>::empty(), step) == walk(
                d@,
                pos as int,
                end as int,
                views(s@),
                step,
            ),
            pos >= start,
        decreases left_of(d@, pos as int),
    {
        let h: ElementHeader = read_element_header(d, pos)?;
        let body: u64 = pos + h.header_len;
        if h.id == ids::CONTENT_ENCODING {
            let (c, next) = parse_content_encoding(d, body, body.saturating_add(h.size))?;
            s.push(c);
            pos = next;
        } else {
            pos = skip(body, h.size)?;
        }
    }
    Ok((s, pos))
}

/// Encodings are undone from the highest order to the lowest.
pub open spec fn decode_order() -> spec_fn(ContentEncodingView, ContentEncodingView) -> bool {
    |a: ContentEncodingView, b: ContentEncodingView| a.order >= b.order
}

/// The ContentEncodings element whose children start at `start`, in decode order.
pub open spec fn read_encodings(d: Seq<u8>, start: int, end: int) -> Result<
    (Seq<ContentEncodingView>, int),
    MkvError,
> {
    on_master(
        walk(d, start, end, Seq::<ContentEncodingView>::empty(), encodings_step(d)),
        |s: Seq<ContentEncodingView>| stable_sorted(s, decode_order()),
    )
}

/// Sorts encodings into decode order.
fn sort_encodings(list: Vec<ContentEncoding>) -> (r: Vec<ContentEncoding>)
    ensures
        views(r@) == stable_sorted(views(list@), decode_order()),
{
    let ghost all = views(list@);
    let ghost n = all.len();
    let mut todo: Vec<ContentEncoding> = reversed(list);
    assert forall|k: int| 0 <= k < todo@.len() implies (#[trigger] todo@[k])@ == all[n - 1 - k] by {
        assert(todo@[k] == list@[n - 1 - k]);
    }
    let mut out: Vec<ContentEncoding> = Vec::new();
    assert(all.take(0) =~= Seq::<ContentEncodingView>::empty());
    while todo.len() > 0
        invariant
            n == all.len(),
            out@.len() + todo@.len() == n,
            forall|k: int| 0 <= k < todo@.len() ==> (#[trigger] todo@[k])@ == all[n - 1 - k],
            views(out@) == stable_sorted(all.take(n - todo@.len()), decode_order()),
        decreases todo@.len(),
    {
        let ghost done = n - todo@.len();
        let ghost held = todo@;
        if let Some(e) = todo.pop() {
            let ghost sorted = views(out@);
            let ghost next = all.take(done + 1);
            assert(held[held.len() - 1]@ == all[done]);
            assert(next.drop_last() =~= all.take(done));
            assert(next.last() == e@);
            let mut i: usize = out.len();
            while i > 0 && out[i - 1].order < e.order
                invariant
                    i <= out@.len(),
                    sorted == views(out@),
                    forall|k: int| i <= k < sorted.len() ==> !decode_order()(sorted[k], e@),
                decreases i,
            {
                i = i - 1;
            }
            proof {
                lemma_inserted_at(sorted, e@, decode_order(), i as int);
            }
            let ghost old_out = out@;
            out.insert(i, e);
            assert(views(out@) =~= sorted.insert(i as int, e@));
        }
    }
    assert(all.take(n as int) =~= all);
    out
}

/// Reads the ContentEncodings element whose children start at `start`.
pub fn parse_content_encodings(d: &[u8], start: u64, end: u64) -> (r: Result<
    (ContentEncodings, u64),
    MkvError,
>)
    ensures
        read_view(r) == read_encodings(d@, start as int, end as int),
        r matches Ok((_, next)) ==> next >= start,
{
    let (list, next) = parse_encoding_list(d, start, end)?;
    Ok((ContentEncodings { encodings: sort_encodings(list) }, next))
}

/// The encodings of a track come in decode order, with none added and none dropped,
/// and those of equal order as in the document.
pub proof fn lemma_encodings_in_decode_order(list: Seq<ContentEncodingView>, order: u64)
    ensures
        is_sorted(stable_sorted(list, decode_order()), decode_order()),
        stable_sorted(list, decode_order()).to_multiset() == list.to_multiset(),
        stable_sorted(list, decode_order()).filter(|e: ContentEncodingView| e.order == order)
            == list.filter(|e: ContentEncodingView| e.order == order),
{
    lemma_stable_sorted_is_sorted(list, decode_order());
    lemma_stable_sorted_multiset(list, decode_order());
    lemma_stable_sorted_keeps(list, decode_order(), |e: ContentEncodingView| e.order == order);
}

// ---------------------------------------------------------------------------
// Undoing header stripping.

/// The bytes that an encoding took off the front of every frame, if it did that.
pub open spec fn stripped_by(e: ContentEncodingView) -> Option<Seq<u8>> {
    match e.transform {
        TransformView::Compression { algo: ContentCompAlgo::HeaderStripping, settings } => Some(
            settings,
        ),
        _ => None,
    }
}

/// Whether an encoding of the frames is among `s`.
pub open spec fn encodes_frames(s: Seq<ContentEncodingView>) -> bool {
    exists|i: int| 0 <= i < s.len() && (#[trigger] s[i]).scope.spec_block()
}

/// Whether every encoding of the frames in `s` is header stripping.
pub open spec fn only_strips(s: Seq<ContentEncodingView>) -> bool {
    forall|i: int|
        0 <= i < s.len() && (#[trigger] s[i]).scope.spec_block() ==> stripped_by(s[i]) is Some
}

/// The bytes that all of `s` together took off the front of every frame.
pub open spec fn stripped_bytes(s: Seq<ContentEncodingView>) -> Seq<u8>
    decreases s.len(),
{
    if s.len() == 0 {
        Seq::empty()
    } else if s.last().scope.spec_block() {
        stripped_by(s.last())->0 + stripped_bytes(s.drop_last())
    } else {
        stripped_bytes(s.drop_last())
    }
}

/// What to put in front of every frame to undo the encodings `s`: nothing where the
/// frames are not encoded, or are encoded in another way.
pub open spec fn header_strip_prefix(s: Seq<ContentEncodingView>) -> Option<Seq<u8>> {
    if encodes_frames(s) && only_strips(s) {
        Some(stripped_bytes(s))
    } else {
        None
    }
}

/// What to put in front of every frame to undo header stripping, where nothing else
/// was done to the frames.
pub fn compute_header_strip_prefix(enc: &ContentEncodings) -> (r: Option<Vec<u8>>)
    ensures
        opt_view(r) == header_strip_prefix(enc@),
{
    let ghost s = enc@;
    let mut prefix: Vec<u8> = Vec::new();
    let mut saw_strip: bool = false;
    let mut i: usize = 0;
    while i < enc.encodings.len()
        invariant
            i <= enc.encodings@.len(),
            s == views(enc.encodings@),
            saw_strip == encodes_frames(s.take(i as int)),
            only_strips(s.take(i as int)),
            prefix@ == stripped_bytes(s.take(i as int)),
        decreases enc.encodings@.len() - i,
    {
        let ghost before = s.take(i as int);
        let ghost after = s.take(i + 1);
        proof {
            assert(after.drop_last() =~= before);
            assert(after.last() == s[i as int]);
            assert(forall|k: int| 0 <= k < i ==> after[k] == before[k]);
        }
        let e: &ContentEncoding = &enc.encodings[i];
        assert(e@ == s[i as int]);
        if e.scope.block() {
            assert(after[i as int].scope.spec_block());
            match &e.transform {
                ContentEncodingTransform::Compression {
                    algo: ContentCompAlgo::HeaderStripping,
                    settings,
                } => {
                    let mut combined: Vec<u8> = settings.clone();
                    combined.extend_from_slice(prefix.as_slice());
                    assert(combined@ =~= settings@ + prefix@);
                    prefix = combined;
                    saw_strip = true;
                    assert(encodes_frames(after));
                },
                _ => {
                    assert(stripped_by(s[i as int]) is None);
                    return None;
                },
            }
        } else {
            assert(encodes_frames(after) == encodes_frames(before)) by {
                if encodes_frames(after) {
                    let k = choose|k: int|
                        0 <= k < after.len() && (#[trigger] after[k]).scope.spec_block();
                    assert(before[k].scope.spec_block());
                }
                if encodes_frames(before) {
                    let k = choose|k: int|
                        0 <= k < before.len() && (#[trigger] before[k]).scope.spec_block();
                    assert(after[k].scope.spec_block());
                }
            }
        }
        i = i + 1;
    }
    assert(s.take(i as int) =~= s);
    if saw_strip {
        Some(prefix)
    } else {
        None
    }
}

/// What is left of a frame once the encodings `s` have been undone one after the
/// other, each by putting back the bytes that it took off.
pub open spec fn undo_strips(s: Seq<ContentEncodingView>, frame: Seq<u8>) -> Seq<u8>
    decreases s.len(),
{
    if s.len() == 0 {
        frame
    } else if s.last().scope.spec_block() {
        stripped_by(s.last())->0 + undo_strips(s.drop_last(), frame)
    } else {
        undo_strips(s.drop_last(), frame)
    }
}

/// Putting the prefix in front of a frame undoes all the encodings in decode order.
pub proof fn lemma_prefix_undoes_strips(s: Seq<ContentEncodingView>, frame: Seq<u8>)
    requires
        header_strip_prefix(s) is Some,
    ensures
        header_strip_prefix(s)->0 + frame == undo_strips(s, frame),
{
    lemma_stripped_bytes(s, frame);
}

proof fn lemma_stripped_bytes(s: Seq<ContentEncodingView>, frame: Seq<u8>)
    ensures
        stripped_bytes(s) + frame == undo_strips(s, frame),
    decreases s.len(),
{
    if s.len() == 0 {
        assert(stripped_bytes(s) + frame =~= frame);
    } else {
        lemma_stripped_bytes(s.drop_last(), frame);
        assert(stripped_bytes(s) + frame =~= undo_strips(s, frame));
    }
}

} // verus!
