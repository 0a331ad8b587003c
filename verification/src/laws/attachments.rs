//! What the attachments of a document say.

use vstd::prelude::*;
use super::document::{
    document_with, first_body, lemma_document_opens, lemma_first_there, lemma_no_tags, opened,
};
use super::pieces::{all_plain, leads, lemma_piece, lemma_pieces_walked, pieces, Piece};
use crate::demux::attachments::{
    attached_file_step, attachment_metadata, attachment_of, attachments_step, empty_attached,
    read_attached_file, read_attachments, AttachedPartsView, AttachmentView, AttachmentsState,
    AttachmentsWalk,
};
use crate::demux::demuxer::{attachment_bytes, attachment_with, DemuxerView};
use crate::demux::info::InfoView;
use crate::demux::segment::{checked, document_of, empty_segment, segment_child, SegmentView};
use crate::ebml::{walk, ElementHeader};
use crate::error::MkvError;
use crate::ids;
use crate::mux::header::{DocType, MuxStreamView};
use crate::round_trip::elements::{
    header, holds, lemma_holds_split, lemma_walk_step, no_nul, MAX_LEN,
};
use crate::round_trip::tracks::codecs_plain;
use crate::text::decimal;
use crate::write::element;

verus! {

/// A file to attach.
pub struct FileFacts {
    pub name: Seq<char>,
    pub mime: Seq<char>,
    pub description: Seq<char>,
    pub uid: u64,
    pub data: Seq<u8>,
}

impl FileFacts {
    /// Whether the UID is one and all texts are there, without zero characters.
    pub open spec fn plain(self) -> bool {
        &&& self.uid != 0
        &&& self.name.len() > 0 && self.mime.len() > 0 && self.description.len() > 0
        &&& no_nul(self.name) && no_nul(self.mime) && no_nul(self.description)
    }

    /// The children in front of the data.
    pub open spec fn label(self) -> Seq<Piece> {
        seq![
            Piece::Text(ids::FILE_NAME, self.name),
            Piece::Text(ids::FILE_MIME_TYPE, self.mime),
            Piece::Text(ids::FILE_DESCRIPTION, self.description),
            Piece::Number(ids::FILE_UID, self.uid),
        ]
    }

    /// The children of the AttachedFile.
    pub open spec fn bytes(self) -> Seq<u8> {
        pieces(self.label()) + element(ids::FILE_DATA, self.data)
    }

    /// Where the data are, if the children start at `pos`.
    pub open spec fn data_at(self, pos: int) -> int {
        pos + pieces(self.label()).len() + header(ids::FILE_DATA, self.data.len()).header_len
    }
}

/// The children of such an AttachedFile that starts at `pos`.
spec fn parts_of(f: FileFacts, pos: int) -> AttachedPartsView {
    AttachedPartsView {
        filename: Some(f.name),
        mime_type: Some(f.mime),
        description: Some(f.description),
        uid: f.uid,
        data_offset: f.data_at(pos) as u64,
        data_size: f.data.len() as u64,
        has_data: true,
        uids: Map::empty().insert(f.uid, 1u32),
    }
}

proof fn lemma_file_says(d: Seq<u8>, pos: int, f: FileFacts)
    requires
        f.plain(),
        holds(d, pos, f.bytes()),
        d.len() <= MAX_LEN,
    ensures
        walk(
            d,
            pos,
            pos + f.bytes().len(),
            empty_attached(Map::empty()),
            attached_file_step(d, 1),
        ) == Ok::<(AttachedPartsView, int), MkvError>((parts_of(f, pos), pos + f.bytes().len())),
        holds(d, f.data_at(pos), f.data),
{
    lemma_file_behind(d, pos, f, 1, Map::empty());
    assert(next_parts(f, pos, 1, Map::empty()) == parts_of(f, pos));
}

/// The data of the Attachments with one file.
pub open spec fn attachments_body(f: FileFacts) -> Seq<u8> {
    element(ids::ATTACHED_FILE, f.bytes())
}

/// Where the children of the file are, if the data of the Attachments start at `pos`.
pub open spec fn file_at(f: FileFacts, pos: int) -> int {
    pos + header(ids::ATTACHED_FILE, f.bytes().len()).header_len
}

spec fn no_attachments() -> AttachmentsState {
    AttachmentsState { attachments: Seq::empty(), metadata: Seq::empty(), uids: Map::empty() }
}

/// What is read of the Attachments with one file.
spec fn attached(f: FileFacts, pos: int) -> AttachmentsState {
    let p = parts_of(f, file_at(f, pos));
    AttachmentsState {
        attachments: seq![attachment_of(1, p)],
        metadata: attachment_metadata(1, p),
        uids: Map::empty().insert(f.uid, 1u32),
    }
}

#[verifier::rlimit(40)]
proof fn lemma_attachments_say(d: Seq<u8>, pos: int, f: FileFacts)
    requires
        f.plain(),
        holds(d, pos, attachments_body(f)),
        d.len() <= MAX_LEN,
    ensures
        read_attachments(d, pos, pos + attachments_body(f).len(), no_attachments()) == Ok::<
            (AttachmentsState, int),
            MkvError,
        >((attached(f, pos), pos + attachments_body(f).len())),
        holds(d, f.data_at(file_at(f, pos)), f.data),
{
    let step = attachments_step(d);
    let end = pos + attachments_body(f).len();
    let p = Piece::Bytes(ids::ATTACHED_FILE, f.bytes());
    lemma_piece(d, pos, p);
    let b = file_at(f, pos);
    lemma_file_says(d, b, f);
    let s0 = AttachmentsWalk { state: no_attachments(), index: 0 };
    let s1 = AttachmentsWalk { state: attached(f, pos), index: 1 };
    assert(no_attachments().attachments.push(attachment_of(1, parts_of(f, b)))
        =~= attached(f, pos).attachments);
    assert(no_attachments().metadata + attachment_metadata(1, parts_of(f, b))
        =~= attached(f, pos).metadata);
    assert(read_attached_file(d, b, end, no_attachments(), 1) == Ok::<
        (AttachmentsState, int),
        MkvError,
    >((attached(f, pos), end)));
    lemma_walk_step(d, pos, end, s0, step, p.header(), s1, end);
}

/// What Attachments add to an empty Segment.
proof fn lemma_attachments_child(
    d: Seq<u8>,
    end: int,
    h: ElementHeader,
    b: int,
    a: AttachmentsState,
) -> (r: SegmentView)
    requires
        h.id == ids::ATTACHMENTS,
        0 <= b,
        b + h.size <= d.len() <= MAX_LEN,
        read_attachments(d, b, b + h.size, no_attachments()) == Ok::<
            (AttachmentsState, int),
            MkvError,
        >((a, b + h.size)),
    ensures
        segment_child(d, end, empty_segment(), h, b) == Ok::<(SegmentView, int), MkvError>(
            (r, b + h.size),
        ),
        r.attachments == a.attachments,
        r.info.metadata == a.metadata,
        r.attachment_uids == a.uids,
        r.tags == empty_segment().tags,
        r.tracks == empty_segment().tracks,
{
    reveal(segment_child);
    SegmentView {
        attachments: a.attachments,
        info: InfoView { metadata: a.metadata, ..empty_segment().info },
        attachment_uids: a.uids,
        crc_status: checked(d, Seq::empty(), h, b),
        ..empty_segment()
    }
}

/// A document with an attached file opens with it: the attachment has the name, the type,
/// the description and the UID that its writer gave it, asking for its bytes gives the file,
/// and the metadata have its texts and its length under its number.
#[verifier::rlimit(40)]
pub proof fn lemma_attachment_opens(
    doc_type: DocType,
    ss: Seq<MuxStreamView>,
    rest: Seq<u8>,
    answers: Seq<Option<Seq<char>>>,
    f: FileFacts,
)
    requires
        document_with(doc_type, ids::ATTACHMENTS, attachments_body(f), ss, rest).len() <= MAX_LEN,
        ss.len() > 0,
        codecs_plain(ss),
        f.plain(),
    ensures
        ({
            let d = document_with(doc_type, ids::ATTACHMENTS, attachments_body(f), ss, rest);
            let m = opened(d, answers);
            &&& document_of(d) is Ok
            &&& m.attachments.len() == 1
            &&& m.attachments[0].index == 1
            &&& m.attachments[0].filename == f.name
            &&& m.attachments[0].mime_type == f.mime
            &&& m.attachments[0].description == f.description
            &&& m.attachments[0].uid == f.uid
            &&& m.attachments[0].data_size == f.data.len()
            &&& attachment_bytes(m, 1) == Ok::<Seq<u8>, MkvError>(f.data)
            &&& m.metadata.len() == 4
            &&& m.metadata[0] == ("attachment:1:filename"@, f.name)
            &&& m.metadata[1] == ("attachment:1:mime_type"@, f.mime)
            &&& m.metadata[2] == ("attachment:1:size_bytes"@, decimal(f.data.len()))
            &&& m.metadata[3] == ("attachment:1:description"@, f.description)
        }),
{
    let body = attachments_body(f);
    let d = document_with(doc_type, ids::ATTACHMENTS, body, ss, rest);
    let b = first_body(doc_type, ids::ATTACHMENTS, body);
    lemma_attachment_document(doc_type, ss, rest, f);
    lemma_no_tags(d, document_of(d)->Ok_0, answers);
    lemma_attachment_metadata(f, file_at(f, b));
    lemma_attached_bytes(opened(d, answers), f, b);
}

#[verifier::rlimit(40)]
proof fn lemma_attachment_document(
    doc_type: DocType,
    ss: Seq<MuxStreamView>,
    rest: Seq<u8>,
    f: FileFacts,
)
    requires
        document_with(doc_type, ids::ATTACHMENTS, attachments_body(f), ss, rest).len() <= MAX_LEN,
        ss.len() > 0,
        codecs_plain(ss),
        f.plain(),
    ensures
        ({
            let body = attachments_body(f);
            let d = document_with(doc_type, ids::ATTACHMENTS, body, ss, rest);
            let b = first_body(doc_type, ids::ATTACHMENTS, body);
            &&& document_of(d) matches Ok(doc) && doc.parts.attachments == attached(
                f,
                b,
            ).attachments && doc.parts.info.metadata == attached(f, b).metadata
                && doc.parts.tags.len() == 0
            &&& holds(d, f.data_at(file_at(f, b)), f.data)
            &&& f.data.len() <= MAX_LEN
        }),
{
    let body = attachments_body(f);
    let d = document_with(doc_type, ids::ATTACHMENTS, body, ss, rest);
    let b = first_body(doc_type, ids::ATTACHMENTS, body);
    lemma_first_there(doc_type, ids::ATTACHMENTS, body, ss, rest);
    lemma_attachments_say(d, b, f);
    let h = header(ids::ATTACHMENTS, body.len());
    let s = lemma_attachments_child(d, d.len() as int, h, b, attached(f, b));
    lemma_document_opens(doc_type, ids::ATTACHMENTS, body, ss, rest, s);
}

proof fn lemma_attached_bytes(m: DemuxerView, f: FileFacts, b: int)
    requires
        m.attachments == attached(f, b).attachments,
        holds(m.layout.data, f.data_at(file_at(f, b)), f.data),
        m.layout.data.len() <= MAX_LEN,
    ensures
        attachment_bytes(m, 1) == Ok::<Seq<u8>, MkvError>(f.data),
{
    let q = f.data_at(file_at(f, b));
    assert(m.attachments[0].data_offset == q);
    assert(m.attachments[0].data_size == f.data.len());
    assert(attachment_with(m.attachments, 1) == Some(m.attachments[0]));
    if f.data.len() == 0 {
        assert(f.data =~= Seq::<u8>::empty());
    }
}

proof fn lemma_attachment_metadata(f: FileFacts, pos: int)
    requires
        f.plain(),
        f.data.len() <= MAX_LEN,
    ensures
        ({
            let m = attachment_metadata(1, parts_of(f, pos));
            &&& m.len() == 4
            &&& m[0] == ("attachment:1:filename"@, f.name)
            &&& m[1] == ("attachment:1:mime_type"@, f.mime)
            &&& m[2] == ("attachment:1:size_bytes"@, decimal(f.data.len()))
            &&& m[3] == ("attachment:1:description"@, f.description)
        }),
{
    reveal_strlit("attachment:");
    reveal_strlit(":filename");
    reveal_strlit(":mime_type");
    reveal_strlit(":size_bytes");
    reveal_strlit(":description");
    reveal_strlit("attachment:1:filename");
    reveal_strlit("attachment:1:mime_type");
    reveal_strlit("attachment:1:size_bytes");
    reveal_strlit("attachment:1:description");
    assert(decimal(1) =~= seq!['1']);
    assert("attachment:"@ + decimal(1) + ":filename"@ =~= "attachment:1:filename"@);
    assert("attachment:"@ + decimal(1) + ":mime_type"@ =~= "attachment:1:mime_type"@);
    assert("attachment:"@ + decimal(1) + ":size_bytes"@ =~= "attachment:1:size_bytes"@);
    assert("attachment:"@ + decimal(1) + ":description"@ =~= "attachment:1:description"@);
    assert(decimal(f.data.len()).len() > 0);
}

/// The children of an AttachedFile that starts at `pos`, behind other files.
spec fn next_parts(f: FileFacts, pos: int, index: u32, uids: Map<u64, u32>) -> AttachedPartsView {
    AttachedPartsView { uids: uids.insert(f.uid, index), ..parts_of(f, pos) }
}

/// A file behind others is read, under the next number.
proof fn lemma_next_file(d: Seq<u8>, pos: int, end: int, f: FileFacts, w: AttachmentsWalk)
    requires
        f.plain(),
        holds(d, pos, attachments_body(f)),
        pos + attachments_body(f).len() <= end,
        d.len() <= MAX_LEN,
        w.index < u32::MAX,
    ensures
        ({
            let index = (w.index + 1) as u32;
            let p = next_parts(f, file_at(f, pos), index, w.state.uids);
            walk(d, pos, end, w, attachments_step(d)) == walk(
                d,
                pos + attachments_body(f).len(),
                end,
                AttachmentsWalk {
                    state: AttachmentsState {
                        attachments: w.state.attachments.push(attachment_of(index, p)),
                        metadata: w.state.metadata + attachment_metadata(index, p),
                        uids: p.uids,
                    },
                    index,
                },
                attachments_step(d),
            )
        }),
        holds(d, f.data_at(file_at(f, pos)), f.data),
{
    let index = (w.index + 1) as u32;
    let step = attachments_step(d);
    let piece = Piece::Bytes(ids::ATTACHED_FILE, f.bytes());
    lemma_piece(d, pos, piece);
    let b = file_at(f, pos);
    let next = pos + attachments_body(f).len();
    lemma_file_behind(d, b, f, index, w.state.uids);
    let p = next_parts(f, b, index, w.state.uids);
    let t = AttachmentsWalk {
        state: AttachmentsState {
            attachments: w.state.attachments.push(attachment_of(index, p)),
            metadata: w.state.metadata + attachment_metadata(index, p),
            uids: p.uids,
        },
        index,
    };
    lemma_walk_step(d, pos, end, w, step, piece.header(), t, next);
}

#[verifier::rlimit(40)]
proof fn lemma_file_behind(d: Seq<u8>, pos: int, f: FileFacts, index: u32, uids: Map<u64, u32>)
    requires
        f.plain(),
        holds(d, pos, f.bytes()),
        d.len() <= MAX_LEN,
    ensures
        walk(
            d,
            pos,
            pos + f.bytes().len(),
            empty_attached(uids),
            attached_file_step(d, index),
        ) == Ok::<(AttachedPartsView, int), MkvError>(
            (next_parts(f, pos, index, uids), pos + f.bytes().len()),
        ),
        holds(d, f.data_at(pos), f.data),
{
    let ps = f.label();
    let step = attached_file_step(d, index);
    let end = pos + f.bytes().len();
    let s0 = empty_attached(uids);
    let s1 = AttachedPartsView { filename: Some(f.name), ..s0 };
    let s2 = AttachedPartsView { mime_type: Some(f.mime), ..s1 };
    let s3 = AttachedPartsView { description: Some(f.description), ..s2 };
    let s4 = AttachedPartsView { uid: f.uid, uids: s3.uids.insert(f.uid, index), ..s3 };
    let states = seq![s0, s1, s2, s3, s4];
    assert(all_plain(ps));
    assert(leads(d, ps, 0, states, step));
    lemma_holds_split(d, pos, pieces(ps), element(ids::FILE_DATA, f.data));
    lemma_pieces_walked(d, pos, end, ps, 0, states, step);
    let q = pos + pieces(ps).len();
    let last = Piece::Bytes(ids::FILE_DATA, f.data);
    lemma_piece(d, q, last);
    lemma_walk_step(
        d,
        q,
        end,
        s4,
        step,
        last.header(),
        next_parts(f, pos, index, uids),
        end,
    );
}

/// Files are numbered from 1 in the order in which they come, and each is found by its number
/// and by no other.
pub proof fn lemma_files_in_order(
    doc_type: DocType,
    ss: Seq<MuxStreamView>,
    rest: Seq<u8>,
    answers: Seq<Option<Seq<char>>>,
    f: FileFacts,
    g: FileFacts,
    other: u32,
)
    requires
        document_with(
            doc_type,
            ids::ATTACHMENTS,
            attachments_body(f) + attachments_body(g),
            ss,
            rest,
        ).len() <= MAX_LEN,
        ss.len() > 0,
        codecs_plain(ss),
        f.plain(),
        g.plain(),
        other != 1 && other != 2,
    ensures
        ({
            let body = attachments_body(f) + attachments_body(g);
            let d = document_with(doc_type, ids::ATTACHMENTS, body, ss, rest);
            let m = opened(d, answers);
            &&& document_of(d) is Ok
            &&& m.attachments.len() == 2
            &&& m.attachments[0].index == 1 && m.attachments[0].filename == f.name
            &&& m.attachments[1].index == 2 && m.attachments[1].filename == g.name
            &&& attachment_bytes(m, 1) == Ok::<Seq<u8>, MkvError>(f.data)
            &&& attachment_bytes(m, 2) == Ok::<Seq<u8>, MkvError>(g.data)
            &&& attachment_bytes(m, other) == Err::<Seq<u8>, MkvError>(
                MkvError::AttachmentIndexOutOfRange,
            )
        }),
{
    let body = attachments_body(f) + attachments_body(g);
    let d = document_with(doc_type, ids::ATTACHMENTS, body, ss, rest);
    let b = first_body(doc_type, ids::ATTACHMENTS, body);
    lemma_pair_document(doc_type, ss, rest, f, g);
    let m = opened(d, answers);
    lemma_two_bytes(m, f, g, b, b + attachments_body(f).len(), other);
}

#[verifier::rlimit(40)]
proof fn lemma_pair_document(
    doc_type: DocType,
    ss: Seq<MuxStreamView>,
    rest: Seq<u8>,
    f: FileFacts,
    g: FileFacts,
)
    requires
        document_with(
            doc_type,
            ids::ATTACHMENTS,
            attachments_body(f) + attachments_body(g),
            ss,
            rest,
        ).len() <= MAX_LEN,
        ss.len() > 0,
        codecs_plain(ss),
        f.plain(),
        g.plain(),
    ensures
        ({
            let body = attachments_body(f) + attachments_body(g);
            let d = document_with(doc_type, ids::ATTACHMENTS, body, ss, rest);
            let b = first_body(doc_type, ids::ATTACHMENTS, body);
            let c = b + attachments_body(f).len();
            &&& document_of(d) matches Ok(doc) && doc.parts.attachments == pair_of(f, g, b, c)
            &&& holds(d, f.data_at(file_at(f, b)), f.data)
            &&& holds(d, g.data_at(file_at(g, c)), g.data)
        }),
{
    let body = attachments_body(f) + attachments_body(g);
    let d = document_with(doc_type, ids::ATTACHMENTS, body, ss, rest);
    let b = first_body(doc_type, ids::ATTACHMENTS, body);
    lemma_first_there(doc_type, ids::ATTACHMENTS, body, ss, rest);
    let a = lemma_two_files(d, b, f, g);
    let h = header(ids::ATTACHMENTS, body.len());
    let s = lemma_attachments_child(d, d.len() as int, h, b, a);
    lemma_document_opens(doc_type, ids::ATTACHMENTS, body, ss, rest, s);
}

/// The attachments that two files become, the children of the AttachedFiles at `b` and `c`.
spec fn pair_of(f: FileFacts, g: FileFacts, b: int, c: int) -> Seq<AttachmentView> {
    let uids = Map::<u64, u32>::empty();
    seq![
        attachment_of(1, next_parts(f, file_at(f, b), 1, uids)),
        attachment_of(2, next_parts(g, file_at(g, c), 2, uids.insert(f.uid, 1u32))),
    ]
}

#[verifier::rlimit(40)]
proof fn lemma_two_files(d: Seq<u8>, pos: int, f: FileFacts, g: FileFacts) -> (a: AttachmentsState)
    requires
        f.plain(),
        g.plain(),
        holds(d, pos, attachments_body(f) + attachments_body(g)),
        d.len() <= MAX_LEN,
    ensures
        ({
            let c = pos + attachments_body(f).len();
            let end = c + attachments_body(g).len();
            &&& read_attachments(d, pos, end, no_attachments()) == Ok::<
                (AttachmentsState, int),
                MkvError,
            >((a, end))
            &&& a.attachments == pair_of(f, g, pos, c)
            &&& holds(d, f.data_at(file_at(f, pos)), f.data)
            &&& holds(d, g.data_at(file_at(g, c)), g.data)
        }),
{
    let c = pos + attachments_body(f).len();
    let end = c + attachments_body(g).len();
    let uids = Map::<u64, u32>::empty();
    lemma_holds_split(d, pos, attachments_body(f), attachments_body(g));
    let w0 = AttachmentsWalk { state: no_attachments(), index: 0 };
    lemma_next_file(d, pos, end, f, w0);
    let p = next_parts(f, file_at(f, pos), 1, uids);
    let w1 = AttachmentsWalk {
        state: AttachmentsState {
            attachments: no_attachments().attachments.push(attachment_of(1, p)),
            metadata: no_attachments().metadata + attachment_metadata(1, p),
            uids: p.uids,
        },
        index: 1,
    };
    lemma_next_file(d, c, end, g, w1);
    let q = next_parts(g, file_at(g, c), 2, p.uids);
    let a = AttachmentsState {
        attachments: w1.state.attachments.push(attachment_of(2, q)),
        metadata: w1.state.metadata + attachment_metadata(2, q),
        uids: q.uids,
    };
    assert(a.attachments =~= seq![attachment_of(1, p), attachment_of(2, q)]);
    a
}

#[verifier::rlimit(40)]
proof fn lemma_two_bytes(m: DemuxerView, f: FileFacts, g: FileFacts, b: int, c: int, other: u32)
    requires
        m.attachments == pair_of(f, g, b, c),
        holds(m.layout.data, f.data_at(file_at(f, b)), f.data),
        holds(m.layout.data, g.data_at(file_at(g, c)), g.data),
        m.layout.data.len() <= MAX_LEN,
        other != 1 && other != 2,
    ensures
        m.attachments.len() == 2,
        m.attachments[0].index == 1 && m.attachments[0].filename == f.name,
        m.attachments[1].index == 2 && m.attachments[1].filename == g.name,
        attachment_bytes(m, 1) == Ok::<Seq<u8>, MkvError>(f.data),
        attachment_bytes(m, 2) == Ok::<Seq<u8>, MkvError>(g.data),
        attachment_bytes(m, other) == Err::<Seq<u8>, MkvError>(
            MkvError::AttachmentIndexOutOfRange,
        ),
{
    let x = m.attachments[0];
    let y = m.attachments[1];
    assert(m.attachments.skip(1) =~= seq![y]);
    assert(seq![y].skip(1) =~= Seq::<AttachmentView>::empty());
    assert(attachment_with(Seq::<AttachmentView>::empty(), other) is None);
    assert(attachment_with(seq![y], 2) == Some(y));
    assert(attachment_with(seq![y], other) is None);
    assert(attachment_with(m.attachments, 1) == Some(x));
    assert(attachment_with(m.attachments, 2) == Some(y));
    assert(attachment_with(m.attachments, other) is None);
    assert(x.data_offset == f.data_at(file_at(f, b)) && x.data_size == f.data.len());
    assert(y.data_offset == g.data_at(file_at(g, c)) && y.data_size == g.data.len());
    if f.data.len() == 0 {
        assert(f.data =~= Seq::<u8>::empty());
    }
    if g.data.len() == 0 {
        assert(g.data =~= Seq::<u8>::empty());
    }
}

} // verus!
