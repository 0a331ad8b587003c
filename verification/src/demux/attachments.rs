//! Attachments: files packed into the document.

use vstd::prelude::*;
use crate::ebml::{
    end_of, left_of, on_master, on_string, on_uint, passed, read_element_header, read_string,
    read_uint, skip, walk, ElementHeader,
};
use crate::error::MkvError;
use crate::ids;
use super::chapters::next_index;
use crate::text::{decimal, decimal_string, numbered};
use crate::views::{group_views, opt_view, read_view, views};
use std::collections::HashMap;

verus! {

broadcast use {group_views, vstd::std_specs::hash::group_hash_axioms};

/// A file packed into the document.
#[derive(Clone, Debug, PartialEq, Eq)]
pub struct Attachment {
    /// The number of the attachment in its Attachments element, from 1.
    pub index: u32,
    pub filename: String,
    pub mime_type: String,
    pub description: String,
    /// The UID; 0 where the document has none.
    pub uid: u64,
    /// Where the file's bytes start in the document.
    pub data_offset: u64,
    /// How many bytes the file has.
    pub data_size: u64,
}

/// The view of an [`Attachment`].
#[verifier::ext_equal]
pub struct AttachmentView {
    pub index: u32,
    pub filename: Seq<char>,
    pub mime_type: Seq<char>,
    pub description: Seq<char>,
    pub uid: u64,
    pub data_offset: u64,
    pub data_size: u64,
}

impl View for Attachment {
    type V = AttachmentView;

    open spec fn view(&self) -> AttachmentView {
        AttachmentView {
            index: self.index,
            filename: self.filename@,
            mime_type: self.mime_type@,
            description: self.description@,
            uid: self.uid,
            data_offset: self.data_offset,
            data_size: self.data_size,
        }
    }
}

/// The children of an AttachedFile, and which UID belongs to which attachment.
pub struct AttachedParts {
    pub filename: Option<String>,
    pub mime_type: Option<String>,
    pub description: Option<String>,
    pub uid: u64,
    pub data_offset: u64,
    pub data_size: u64,
    pub has_data: bool,
    pub uids: HashMap<u64, u32>,
}

/// The view of [`AttachedParts`].
#[verifier::ext_equal]
pub struct AttachedPartsView {
    pub filename: Option<Seq<char>>,
    pub mime_type: Option<Seq<char>>,
    pub description: Option<Seq<char>>,
    pub uid: u64,
    pub data_offset: u64,
    pub data_size: u64,
    pub has_data: bool,
    pub uids: Map<u64, u32>,
}

impl View for AttachedParts {
    type V = AttachedPartsView;

    open spec fn view(&self) -> AttachedPartsView {
        AttachedPartsView {
            filename: opt_view(self.filename),
            mime_type: opt_view(self.mime_type),
            description: opt_view(self.description),
            uid: self.uid,
            data_offset: self.data_offset,
            data_size: self.data_size,
            has_data: self.has_data,
            uids: self.uids@,
        }
    }
}

/// An AttachedFile without children.
pub open spec fn empty_attached(uids: Map<u64, u32>) -> AttachedPartsView {
    AttachedPartsView {
        filename: None,
        mime_type: None,
        description: None,
        uid: 0,
        data_offset: 0,
        data_size: 0,
        has_data: false,
        uids,
    }
}

/// What each child of the AttachedFile with the given index adds.
pub open spec fn attached_file_step(
    d: Seq<u8>,
    index: u32,
) -> spec_fn(AttachedPartsView, ElementHeader, int) -> Result<
    (AttachedPartsView, int),
    MkvError,
> {
    |s: AttachedPartsView, h: ElementHeader, b: int|
        if h.id == ids::FILE_NAME {
            on_string(d, h, b, |v: Seq<char>| AttachedPartsView { filename: Some(v), ..s })
        } else if h.id == ids::FILE_MIME_TYPE {
            on_string(d, h, b, |v: Seq<char>| AttachedPartsView { mime_type: Some(v), ..s })
        } else if h.id == ids::FILE_DESCRIPTION {
            on_string(d, h, b, |v: Seq<char>| AttachedPartsView { description: Some(v), ..s })
        } else if h.id == ids::FILE_UID {
            on_uint(
                d,
                h,
                b,
                |v: u64| if v != 0 {
                    AttachedPartsView { uid: v, uids: s.uids.insert(v, index), ..s }
                } else {
                    s
                },
            )
        } else if h.id == ids::FILE_DATA {
            passed(
                AttachedPartsView { data_offset: b as u64, data_size: h.size, has_data: true, ..s },
                b,
                h.size,
            )
        } else {
            passed(s, b, h.size)
        }
}

/// Reads the children of the AttachedFile with the given index.
fn parse_attached_parts(
    d: &[u8],
    start: u64,
    end: u64,
    index: u32,
    parts: AttachedParts,
) -> (r: Result<(AttachedParts, u64), MkvError>)
    ensures
        read_view(r) == walk(d@, start as int, end as int, parts@, attached_file_step(d@, index)),
        r matches Ok((_, next)) ==> next >= start,
{
    let mut s: AttachedParts = parts;
    let mut pos: u64 = start;
    let ghost step = attached_file_step(d@, index);
    while pos < end
        invariant
            step == attached_file_step(d@, index),
            walk(d@, start as int, end as int, parts@, step) == walk(
                d@,
                pos as int,
                end as int,
                s@,
                step,
            ),
            pos >= start,
        decreases left_of(d@, pos as int),
    {
        let h: ElementHeader = read_element_header(d, pos)?;
        let body: u64 = pos + h.header_len;
        if h.id == ids::FILE_NAME {
            s.filename = Some(read_string(d, body, h.size)?);
            pos = body + h.size;
        } else if h.id == ids::FILE_MIME_TYPE {
            s.mime_type = Some(read_string(d, body, h.size)?);
            pos = body + h.size;
        } else if h.id == ids::FILE_DESCRIPTION {
            s.description = Some(read_string(d, body, h.size)?);
            pos = body + h.size;
        } else if h.id == ids::FILE_UID {
            let v: u64 = read_uint(d, body, h.size)?;
            if v != 0 {
                s.uid = v;
                s.uids.insert(v, index);
            }
            pos = body + h.size;
        } else if h.id == ids::FILE_DATA {
            s.data_offset = body;
            s.data_size = h.size;
            s.has_data = true;
            pos = skip(body, h.size)?;
        } else {
            pos = skip(body, h.size)?;
        }
    }
    Ok((s, pos))
}

/// The text, or none where there is no text.
pub open spec fn or_empty(o: Option<Seq<char>>) -> Seq<char> {
    match o {
        Some(s) => s,
        None => Seq::empty(),
    }
}

/// The metadata entry with the given suffix, where there is text for it.
pub open spec fn attachment_entry(index: u32, suffix: Seq<char>, o: Option<Seq<char>>) -> Seq<
    (Seq<char>, Seq<char>),
> {
    if or_empty(o).len() > 0 {
        seq![("attachment:"@ + decimal(index as nat) + suffix, or_empty(o))]
    } else {
        Seq::empty()
    }
}

/// The metadata entries of an attachment.
pub open spec fn attachment_metadata(index: u32, p: AttachedPartsView) -> Seq<
    (Seq<char>, Seq<char>),
> {
    attachment_entry(index, ":filename"@, p.filename) + attachment_entry(
        index,
        ":mime_type"@,
        p.mime_type,
    ) + attachment_entry(
        index,
        ":size_bytes"@,
        if p.has_data {
            Some(decimal(p.data_size as nat))
        } else {
            None
        },
    ) + attachment_entry(index, ":description"@, p.description)
}

/// The attachment that the children of an AttachedFile make.
pub open spec fn attachment_of(index: u32, p: AttachedPartsView) -> AttachmentView {
    AttachmentView {
        index,
        filename: or_empty(p.filename),
        mime_type: or_empty(p.mime_type),
        description: or_empty(p.description),
        uid: p.uid,
        data_offset: p.data_offset,
        data_size: p.data_size,
    }
}

/// What has been gathered of the attachments of a document.
#[verifier::ext_equal]
pub struct AttachmentsState {
    pub attachments: Seq<AttachmentView>,
    pub metadata: Seq<(Seq<char>, Seq<char>)>,
    pub uids: Map<u64, u32>,
}

/// The attachments of a document and what comes with them.
pub struct ParsedAttachments {
    pub attachments: Vec<Attachment>,
    pub metadata: Vec<(String, String)>,
    pub uids: HashMap<u64, u32>,
}

impl View for ParsedAttachments {
    type V = AttachmentsState;

    open spec fn view(&self) -> AttachmentsState {
        AttachmentsState {
            attachments: views(self.attachments@),
            metadata: views(self.metadata@),
            uids: self.uids@,
        }
    }
}

/// The AttachedFile whose children start at `start`, behind what `s` holds.
pub open spec fn read_attached_file(
    d: Seq<u8>,
    start: int,
    end: int,
    s: AttachmentsState,
    index: u32,
) -> Result<(AttachmentsState, int), MkvError> {
    on_master(
        walk(d, start, end, empty_attached(s.uids), attached_file_step(d, index)),
        |p: AttachedPartsView|
            AttachmentsState {
                attachments: s.attachments.push(attachment_of(index, p)),
                metadata: s.metadata + attachment_metadata(index, p),
                uids: p.uids,
            },
    )
}

/// Appends the metadata entry with the given suffix, where there is text for it.
fn append_attachment_entry(
    metadata: &mut Vec<(String, String)>,
    index: u32,
    suffix: &str,
    text: &Option<String>,
)
    ensures
        views(final(metadata)@) == views(old(metadata)@) + attachment_entry(
            index,
            suffix@,
            opt_view(*text),
        ),
{
    if let Some(t) = text {
        if !t.as_str().is_empty() {
            metadata.push((numbered("attachment:", index, suffix), t.clone()));
        }
    }
    assert(views(metadata@) =~= views(old(metadata)@) + attachment_entry(
        index,
        suffix@,
        opt_view(*text),
    ));
}

fn text_or_empty(o: Option<String>) -> (s: String)
    ensures
        s@ == or_empty(opt_view(o)),
{
    match o {
        Some(s) => s,
        None => String::new(),
    }
}

/// Reads the AttachedFile whose children start at `start` behind what `parsed` holds.
pub fn parse_attached_file(
    d: &[u8],
    start: u64,
    end: u64,
    parsed: ParsedAttachments,
    index: u32,
) -> (r: Result<(ParsedAttachments, u64), MkvError>)
    ensures
        read_view(r) == read_attached_file(d@, start as int, end as int, parsed@, index),
        r matches Ok((_, next)) ==> next >= start,
{
    let empty = AttachedParts {
        filename: None,
        mime_type: None,
        description: None,
        uid: 0,
        data_offset: 0,
        data_size: 0,
        has_data: false,
        uids: parsed.uids,
    };
    let (p, next) = parse_attached_parts(d, start, end, index, empty)?;
    let ghost pv = p@;
    let mut metadata: Vec<(String, String)> = parsed.metadata;
    append_attachment_entry(&mut metadata, index, ":filename", &p.filename);
    append_attachment_entry(&mut metadata, index, ":mime_type", &p.mime_type);
    let size: Option<String> = if p.has_data {
        Some(decimal_string(p.data_size))
    } else {
        None
    };
    append_attachment_entry(&mut metadata, index, ":size_bytes", &size);
    append_attachment_entry(&mut metadata, index, ":description", &p.description);
    assert(views(metadata@) =~= parsed@.metadata + attachment_metadata(index, pv));
    let mut attachments: Vec<Attachment> = parsed.attachments;
    attachments.push(
        Attachment {
            index,
            filename: text_or_empty(p.filename),
            mime_type: text_or_empty(p.mime_type),
            description: text_or_empty(p.description),
            uid: p.uid,
            data_offset: p.data_offset,
            data_size: p.data_size,
        },
    );
    Ok((ParsedAttachments { attachments, metadata, uids: p.uids }, next))
}

/// What has been gathered of one Attachments element, and the number given out last.
#[verifier::ext_equal]
pub struct AttachmentsWalk {
    pub state: AttachmentsState,
    pub index: u32,
}

/// What each child of an Attachments element adds.
pub open spec fn attachments_step(d: Seq<u8>) -> spec_fn(
    AttachmentsWalk,
    ElementHeader,
    int,
) -> Result<(AttachmentsWalk, int), MkvError> {
    |s: AttachmentsWalk, h: ElementHeader, b: int|
        if h.id == ids::ATTACHED_FILE {
            on_master(
                read_attached_file(d, b, end_of(b, h.size), s.state, next_index(s.index)),
                |t: AttachmentsState| AttachmentsWalk { state: t, index: next_index(s.index) },
            )
        } else {
            passed(s, b, h.size)
        }
}

/// The Attachments element whose children start at `start`, behind what `s` holds.
/// Attachments are numbered from 1 in it.
pub open spec fn read_attachments(d: Seq<u8>, start: int, end: int, s: AttachmentsState) -> Result<
    (AttachmentsState, int),
    MkvError,
> {
    on_master(
        walk(d, start, end, AttachmentsWalk { state: s, index: 0 }, attachments_step(d)),
        |w: AttachmentsWalk| w.state,
    )
}

/// Reads the children of an Attachments element behind what `parsed` holds.
pub fn parse_attachments(d: &[u8], start: u64, end: u64, parsed: ParsedAttachments) -> (r: Result<
    (ParsedAttachments, u64),
    MkvError,
>)
    ensures
        read_view(r) == read_attachments(d@, start as int, end as int, parsed@),
        r matches Ok((_, next)) ==> next >= start,
{
    let mut s: ParsedAttachments = parsed;
    let mut index: u32 = 0;
    let mut pos: u64 = start;
    let ghost step = attachments_step(d@);
    let ghost init = AttachmentsWalk { state: parsed@, index: 0 };
    while pos < end
        invariant
            step == attachments_step(d@),
            init == (AttachmentsWalk { state: parsed@, index: 0 }),
            walk(d@, start as int, end as int, init, step) == walk(
                d@,
                pos as int,
                end as int,
                (AttachmentsWalk { state: s@, index }),
                step,
            ),
            pos >= start,
        decreases left_of(d@, pos as int),
    {
        let h: ElementHeader = read_element_header(d, pos)?;
        let body: u64 = pos + h.header_len;
        if h.id == ids::ATTACHED_FILE {
            index = index.wrapping_add(1);
            let (t, next) = parse_attached_file(d, body, body.saturating_add(h.size), s, index)?;
            s = t;
            pos = next;
        } else {
            pos = skip(body, h.size)?;
        }
    }
    Ok((s, pos))
}

} // verus!
