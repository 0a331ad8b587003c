//! Tags: names and values attached to the whole document or to parts of it.

use vstd::prelude::*;
use crate::ebml::{
    end_of, left_of, on_bytes, on_master, on_string, on_uint, passed, read_bytes,
    read_element_header, read_string, read_uint, skip, walk, ElementHeader,
};
use super::target_level::TargetLevel;
use crate::error::MkvError;
use crate::ids;
use crate::sort::reversed;
use crate::text::{ascii_lower_all, decimal, numbered, to_ascii_lowercase};
use crate::views::{group_views, opt_view, read_view, read_views, views};
use std::collections::HashMap;
use vstd::string::StringExecFns;

verus! {

broadcast use {group_views, vstd::std_specs::hash::group_hash_axioms};

/// The value of a [`SimpleTag`].
#[derive(Clone, Debug, PartialEq, Eq)]
pub enum SimpleTagValue {
    /// Text.
    String(String),
    /// Bytes.
    Binary(Vec<u8>),
    /// Neither was present.
    Absent,
}

/// The view of a [`SimpleTagValue`].
#[verifier::ext_equal]
pub enum SimpleTagValueView {
    String(Seq<char>),
    Binary(Seq<u8>),
    Absent,
}

impl View for SimpleTagValue {
    type V = SimpleTagValueView;

    open spec fn view(&self) -> SimpleTagValueView {
        match self {
            SimpleTagValue::String(s) => SimpleTagValueView::String(s@),
            SimpleTagValue::Binary(b) => SimpleTagValueView::Binary(b@),
            SimpleTagValue::Absent => SimpleTagValueView::Absent,
        }
    }
}

/// One name and value.
#[derive(Clone, Debug, PartialEq)]
pub struct SimpleTag {
    /// The name, as written.
    pub name: String,
    /// The value.
    pub value: SimpleTagValue,
    /// The three-letter language code, `und` where the document has none.
    pub language: String,
    /// The BCP 47 language tag.
    pub language_bcp47: Option<String>,
    /// Whether this is the default for its language.
    pub default: bool,
}

/// The view of a [`SimpleTag`].
#[verifier::ext_equal]
pub struct SimpleTagView {
    pub name: Seq<char>,
    pub value: SimpleTagValueView,
    pub language: Seq<char>,
    pub language_bcp47: Option<Seq<char>>,
    pub default: bool,
}

impl View for SimpleTag {
    type V = SimpleTagView;

    open spec fn view(&self) -> SimpleTagView {
        SimpleTagView {
            name: self.name@,
            value: self.value@,
            language: self.language@,
            language_bcp47: opt_view(self.language_bcp47),
            default: self.default,
        }
    }
}

/// A Tag element before its references are resolved.
pub struct RawTag {
    pub track_uids: Vec<u64>,
    pub edition_uids: Vec<u64>,
    pub chapter_uids: Vec<u64>,
    pub attachment_uids: Vec<u64>,
    pub target_type_value: Option<u64>,
    pub target_type: Option<String>,
    pub simple_tags: Vec<SimpleTag>,
}

/// The view of a [`RawTag`].
#[verifier::ext_equal]
pub struct RawTagView {
    pub track_uids: Seq<u64>,
    pub edition_uids: Seq<u64>,
    pub chapter_uids: Seq<u64>,
    pub attachment_uids: Seq<u64>,
    pub target_type_value: Option<u64>,
    pub target_type: Option<Seq<char>>,
    pub simple_tags: Seq<SimpleTagView>,
}

impl View for RawTag {
    type V = RawTagView;

    open spec fn view(&self) -> RawTagView {
        RawTagView {
            track_uids: self.track_uids@,
            edition_uids: self.edition_uids@,
            chapter_uids: self.chapter_uids@,
            attachment_uids: self.attachment_uids@,
            target_type_value: self.target_type_value,
            target_type: opt_view(self.target_type),
            simple_tags: views(self.simple_tags@),
        }
    }
}

/// A Tag without children.
pub open spec fn empty_raw_tag() -> RawTagView {
    RawTagView {
        track_uids: Seq::empty(),
        edition_uids: Seq::empty(),
        chapter_uids: Seq::empty(),
        attachment_uids: Seq::empty(),
        target_type_value: None,
        target_type: None,
        simple_tags: Seq::empty(),
    }
}

/// A SimpleTag without children.
pub open spec fn empty_simple_tag() -> SimpleTagView {
    SimpleTagView {
        name: Seq::empty(),
        value: SimpleTagValueView::Absent,
        language: "und"@,
        language_bcp47: None,
        default: true,
    }
}

/// What each child of a SimpleTag adds. The last of several values counts; empty
/// languages do not.
pub open spec fn simple_tag_step(
    d: Seq<u8>,
) -> spec_fn(SimpleTagView, ElementHeader, int) -> Result<
    (SimpleTagView, int),
    MkvError,
> {
    |s: SimpleTagView, h: ElementHeader, b: int|
        if h.id == ids::TAG_NAME {
            on_string(d, h, b, |v: Seq<char>| SimpleTagView { name: v, ..s })
        } else if h.id == ids::TAG_STRING {
            on_string(
                d,
                h,
                b,
                |v: Seq<char>| SimpleTagView { value: SimpleTagValueView::String(v), ..s },
            )
        } else if h.id == ids::TAG_BINARY {
            on_bytes(
                d,
                h,
                b,
                |v: Seq<u8>| SimpleTagView { value: SimpleTagValueView::Binary(v), ..s },
            )
        } else if h.id == ids::TAG_LANGUAGE {
            on_string(
                d,
                h,
                b,
                |v: Seq<char>|
                    if v.len() > 0 {
                        SimpleTagView { language: v, ..s }
                    } else {
                        s
                    },
            )
        } else if h.id == ids::TAG_LANGUAGE_BCP47 {
            on_string(
                d,
                h,
                b,
                |v: Seq<char>|
                    if v.len() > 0 {
                        SimpleTagView { language_bcp47: Some(v), ..s }
                    } else {
                        s
                    },
            )
        } else if h.id == ids::TAG_DEFAULT {
            on_uint(d, h, b, |v: u64| SimpleTagView { default: v != 0, ..s })
        } else {
            passed(s, b, h.size)
        }
}

/// Reads the children of a SimpleTag from `start` up to `end`.
pub fn parse_simple_tag(d: &[u8], start: u64, end: u64) -> (r: Result<(SimpleTag, u64), MkvError>)
    ensures
        read_view(r) == walk(
            d@,
            start as int,
            end as int,
            empty_simple_tag(),
            simple_tag_step(d@),
        ),
        r matches Ok((_, next)) ==> next >= start,
{
    let mut s = SimpleTag {
        name: String::new(),
        value: SimpleTagValue::Absent,
        language: "und".to_owned(),
        language_bcp47: None,
        default: true,
    };
    let mut pos: u64 = start;
    let ghost step = simple_tag_step(d@);
    assert(s@ == empty_simple_tag());
    while pos < end
        invariant
            step == simple_tag_step(d@),
            walk(d@, start as int, end as int, empty_simple_tag(), step) == walk(
                d@,
                pos as int,
                end as int,
                s@,
                step,
            ),
            pos >= start,
        decreases left_of(d@, pos as int),
    {
        let h: ElementHeader = read_element_header(d, pos)?;
        let body: u64 = pos + h.header_len;
        if h.id == ids::TAG_NAME {
            s.name = read_string(d, body, h.size)?;
            pos = body + h.size;
        } else if h.id == ids::TAG_STRING {
            s.value = SimpleTagValue::String(read_string(d, body, h.size)?);
            pos = body + h.size;
        } else if h.id == ids::TAG_BINARY {
            s.value = SimpleTagValue::Binary(read_bytes(d, body, h.size)?);
            pos = body + h.size;
        } else if h.id == ids::TAG_LANGUAGE {
            let v: String = read_string(d, body, h.size)?;
            if !v.as_str().is_empty() {
                s.language = v;
            }
            pos = body + h.size;
        } else if h.id == ids::TAG_LANGUAGE_BCP47 {
            let v: String = read_string(d, body, h.size)?;
            if !v.as_str().is_empty() {
                s.language_bcp47 = Some(v);
            }
            pos = body + h.size;
        } else if h.id == ids::TAG_DEFAULT {
            s.default = read_uint(d, body, h.size)? != 0;
            pos = body + h.size;
        } else {
            pos = skip(body, h.size)?;
        }
    }
    Ok((s, pos))
}

/// What each child of a Targets element adds.
pub open spec fn targets_step(d: Seq<u8>) -> spec_fn(RawTagView, ElementHeader, int) -> Result<
    (RawTagView, int),
    MkvError,
> {
    |t: RawTagView, h: ElementHeader, b: int|
        if h.id == ids::TAG_TRACK_UID {
            on_uint(d, h, b, |v: u64| RawTagView { track_uids: t.track_uids.push(v), ..t })
        } else if h.id == ids::TAG_EDITION_UID {
            on_uint(d, h, b, |v: u64| RawTagView { edition_uids: t.edition_uids.push(v), ..t })
        } else if h.id == ids::TAG_CHAPTER_UID {
            on_uint(d, h, b, |v: u64| RawTagView { chapter_uids: t.chapter_uids.push(v), ..t })
        } else if h.id == ids::TAG_ATTACHMENT_UID {
            on_uint(
                d,
                h,
                b,
                |v: u64| RawTagView { attachment_uids: t.attachment_uids.push(v), ..t },
            )
        } else if h.id == ids::TARGET_TYPE_VALUE {
            on_uint(d, h, b, |v: u64| RawTagView { target_type_value: Some(v), ..t })
        } else if h.id == ids::TARGET_TYPE {
            on_string(
                d,
                h,
                b,
                |v: Seq<char>|
                    if v.len() > 0 {
                        RawTagView { target_type: Some(v), ..t }
                    } else {
                        t
                    },
            )
        } else {
            passed(t, b, h.size)
        }
}

/// Reads the children of a Targets element into `tag`.
pub fn parse_targets(d: &[u8], start: u64, end: u64, tag: RawTag) -> (r: Result<
    (RawTag, u64),
    MkvError,
>)
    ensures
        read_view(r) == walk(d@, start as int, end as int, tag@, targets_step(d@)),
        r matches Ok((_, next)) ==> next >= start,
{
    let mut t: RawTag = tag;
    let mut pos: u64 = start;
    let ghost step = targets_step(d@);
    while pos < end
        invariant
            step == targets_step(d@),
            walk(d@, start as int, end as int, tag@, step) == walk(
                d@,
                pos as int,
                end as int,
                t@,
                step,
            ),
            pos >= start,
        decreases left_of(d@, pos as int),
    {
        let h: ElementHeader = read_element_header(d, pos)?;
        let body: u64 = pos + h.header_len;
        if h.id == ids::TAG_TRACK_UID {
            t.track_uids.push(read_uint(d, body, h.size)?);
            pos = body + h.size;
        } else if h.id == ids::TAG_EDITION_UID {
            t.edition_uids.push(read_uint(d, body, h.size)?);
            pos = body + h.size;
        } else if h.id == ids::TAG_CHAPTER_UID {
            t.chapter_uids.push(read_uint(d, body, h.size)?);
            pos = body + h.size;
        } else if h.id == ids::TAG_ATTACHMENT_UID {
            t.attachment_uids.push(read_uint(d, body, h.size)?);
            pos = body + h.size;
        } else if h.id == ids::TARGET_TYPE_VALUE {
            t.target_type_value = Some(read_uint(d, body, h.size)?);
            pos = body + h.size;
        } else if h.id == ids::TARGET_TYPE {
            let v: String = read_string(d, body, h.size)?;
            if !v.as_str().is_empty() {
                t.target_type = Some(v);
            }
            pos = body + h.size;
        } else {
            pos = skip(body, h.size)?;
        }
    }
    Ok((t, pos))
}

/// What each child of a Tag adds. A SimpleTag without a name adds nothing.
pub open spec fn tag_step(d: Seq<u8>) -> spec_fn(RawTagView, ElementHeader, int) -> Result<
    (RawTagView, int),
    MkvError,
> {
    |t: RawTagView, h: ElementHeader, b: int|
        if h.id == ids::TARGETS {
            walk(d, b, end_of(b, h.size), t, targets_step(d))
        } else if h.id == ids::SIMPLE_TAG {
            on_master(
                walk(d, b, end_of(b, h.size), empty_simple_tag(), simple_tag_step(d)),
                |s: SimpleTagView|
                    if s.name.len() > 0 {
                        RawTagView { simple_tags: t.simple_tags.push(s), ..t }
                    } else {
                        t
                    },
            )
        } else {
            passed(t, b, h.size)
        }
}

/// Reads the children of a Tag from `start` up to `end`.
pub fn parse_tag(d: &[u8], start: u64, end: u64) -> (r: Result<(RawTag, u64), MkvError>)
    ensures
        read_view(r) == walk(d@, start as int, end as int, empty_raw_tag(), tag_step(d@)),
        r matches Ok((_, next)) ==> next >= start,
{
    let mut t = RawTag {
        track_uids: Vec::new(),
        edition_uids: Vec::new(),
        chapter_uids: Vec::new(),
        attachment_uids: Vec::new(),
        target_type_value: None,
        target_type: None,
        simple_tags: Vec::new(),
    };
    assert(t@ =~= empty_raw_tag());
    let mut pos: u64 = start;
    let ghost step = tag_step(d@);
    while pos < end
        invariant
            step == tag_step(d@),
            walk(d@, start as int, end as int, empty_raw_tag(), step) == walk(
                d@,
                pos as int,
                end as int,
                t@,
                step,
            ),
            pos >= start,
        decreases left_of(d@, pos as int),
    {
        let h: ElementHeader = read_element_header(d, pos)?;
        let body: u64 = pos + h.header_len;
        if h.id == ids::TARGETS {
            let (u, next) = parse_targets(d, body, body.saturating_add(h.size), t)?;
            t = u;
            pos = next;
        } else if h.id == ids::SIMPLE_TAG {
            let (s, next) = parse_simple_tag(d, body, body.saturating_add(h.size))?;
            if !s.name.as_str().is_empty() {
                t.simple_tags.push(s);
            }
            pos = next;
        } else {
            pos = skip(body, h.size)?;
        }
    }
    Ok((t, pos))
}

/// What each child of a Tags element adds. A Tag without SimpleTags adds nothing.
pub open spec fn tags_step(d: Seq<u8>) -> spec_fn(Seq<RawTagView>, ElementHeader, int) -> Result<
    (Seq<RawTagView>, int),
    MkvError,
> {
    |s: Seq<RawTagView>, h: ElementHeader, b: int|
        if h.id == ids::TAG {
            on_master(
                walk(d, b, end_of(b, h.size), empty_raw_tag(), tag_step(d)),
                |t: RawTagView|
                    if t.simple_tags.len() > 0 {
                        s.push(t)
                    } else {
                        s
                    },
            )
        } else {
            passed(s, b, h.size)
        }
}

/// Reads the children of a Tags element behind those already in `tags`.
pub fn parse_tags(d: &[u8], start: u64, end: u64, tags: Vec<RawTag>) -> (r: Result<
    (Vec<RawTag>, u64),
    MkvError,
>)
    ensures
        read_views(r) == walk(d@, start as int, end as int, views(tags@), tags_step(d@)),
        r matches Ok((_, next)) ==> next >= start,
{
    let mut out: Vec<RawTag> = tags;
    let mut pos: u64 = start;
    let ghost step = tags_step(d@);
    while pos < end
        invariant
            step == tags_step(d@),
            walk(d@, start as int, end as int, views(tags@), step) == walk(
                d@,
                pos as int,
                end as int,
                views(out@),
                step,
            ),
            pos >= start,
        decreases left_of(d@, pos as int),
    {
        let h: ElementHeader = read_element_header(d, pos)?;
        let body: u64 = pos + h.header_len;
        if h.id == ids::TAG {
            let (t, next) = parse_tag(d, body, body.saturating_add(h.size))?;
            if !t.simple_tags.is_empty() {
                out.push(t);
            }
            pos = next;
        } else {
            pos = skip(body, h.size)?;
        }
    }
    Ok((out, pos))
}

/// A part of the document that a tag refers to.
#[derive(Clone, Copy, Debug, PartialEq, Eq, Structural)]
pub enum TargetUid {
    /// A track, by stream index from 0.
    Track { stream_index: u32, track_uid: u64 },
    /// An edition, counted from 1.
    Edition { edition_index: u32, edition_uid: u64 },
    /// A chapter, counted from 1.
    Chapter { chapter_index: u32, chapter_uid: u64 },
    /// An attachment, counted from 1.
    Attachment { attachment_index: u32, attachment_uid: u64 },
}

/// What a tag describes.
#[derive(Clone, Debug, PartialEq)]
pub struct Targets {
    /// The number of the level.
    pub target_type_value: Option<u64>,
    /// The name of the level.
    pub target_type: Option<String>,
    /// The parts of this document; none of them for the whole document.
    pub uids: Vec<TargetUid>,
}

/// The view of [`Targets`].
#[verifier::ext_equal]
pub struct TargetsView {
    pub target_type_value: Option<u64>,
    pub target_type: Option<Seq<char>>,
    pub uids: Seq<TargetUid>,
}

impl View for Targets {
    type V = TargetsView;

    open spec fn view(&self) -> TargetsView {
        TargetsView {
            target_type_value: self.target_type_value,
            target_type: opt_view(self.target_type),
            uids: self.uids@,
        }
    }
}

impl Targets {
    /// The level, where the document gives its number.
    pub fn target_level(&self) -> (r: Option<TargetLevel>)
        ensures
            r == match self.target_type_value {
                Some(v) => Some(TargetLevel::of_raw(v)),
                None => None,
            },
    {
        match self.target_type_value {
            Some(v) => Some(TargetLevel::from_raw(v)),
            None => None,
        }
    }
}

/// A Tag with its references resolved.
#[derive(Clone, Debug, PartialEq)]
pub struct Tag {
    pub targets: Targets,
    pub simple_tags: Vec<SimpleTag>,
}

/// The view of a [`Tag`].
#[verifier::ext_equal]
pub struct TagView {
    pub targets: TargetsView,
    pub simple_tags: Seq<SimpleTagView>,
}

impl View for Tag {
    type V = TagView;

    open spec fn view(&self) -> TagView {
        TagView { targets: self.targets@, simple_tags: views(self.simple_tags@) }
    }
}

/// What the UIDs of a document's parts stand for.
pub struct UidMaps {
    pub tracks: HashMap<u64, u32>,
    pub editions: HashMap<u64, u32>,
    pub chapters: HashMap<u64, u32>,
    pub attachments: HashMap<u64, u32>,
}

/// The view of [`UidMaps`].
pub struct UidMapsView {
    pub tracks: Map<u64, u32>,
    pub editions: Map<u64, u32>,
    pub chapters: Map<u64, u32>,
    pub attachments: Map<u64, u32>,
}

impl View for UidMaps {
    type V = UidMapsView;

    open spec fn view(&self) -> UidMapsView {
        UidMapsView {
            tracks: self.tracks@,
            editions: self.editions@,
            chapters: self.chapters@,
            attachments: self.attachments@,
        }
    }
}

/// What kind of part a UID belongs to.
#[derive(Clone, Copy, Debug, PartialEq, Eq, Structural)]
pub enum UidKind {
    Track,
    Edition,
    Chapter,
    Attachment,
}

/// The reference to the part of kind `kind` with the given index and UID.
pub open spec fn target_uid(kind: UidKind, index: u32, uid: u64) -> TargetUid {
    match kind {
        UidKind::Track => TargetUid::Track { stream_index: index, track_uid: uid },
        UidKind::Edition => TargetUid::Edition { edition_index: index, edition_uid: uid },
        UidKind::Chapter => TargetUid::Chapter { chapter_index: index, chapter_uid: uid },
        UidKind::Attachment => TargetUid::Attachment {
            attachment_index: index,
            attachment_uid: uid,
        },
    }
}

fn make_target_uid(kind: UidKind, index: u32, uid: u64) -> (r: TargetUid)
    ensures
        r == target_uid(kind, index, uid),
{
    match kind {
        UidKind::Track => TargetUid::Track { stream_index: index, track_uid: uid },
        UidKind::Edition => TargetUid::Edition { edition_index: index, edition_uid: uid },
        UidKind::Chapter => TargetUid::Chapter { chapter_index: index, chapter_uid: uid },
        UidKind::Attachment => TargetUid::Attachment {
            attachment_index: index,
            attachment_uid: uid,
        },
    }
}

/// Those of `uids` that are not zero and known to `map`, in order.
pub open spec fn resolved(uids: Seq<u64>, map: Map<u64, u32>, kind: UidKind) -> Seq<TargetUid>
    decreases uids.len(),
{
    if uids.len() == 0 {
        Seq::empty()
    } else {
        let r = resolved(uids.drop_last(), map, kind);
        let uid = uids.last();
        if uid != 0 && map.contains_key(uid) {
            r.push(target_uid(kind, map[uid], uid))
        } else {
            r
        }
    }
}

/// The parts of the document that `t` refers to: tracks, editions, chapters and
/// attachments, in this order.
pub open spec fn resolved_all(t: RawTagView, m: UidMapsView) -> Seq<TargetUid> {
    resolved(t.track_uids, m.tracks, UidKind::Track) + resolved(
        t.edition_uids,
        m.editions,
        UidKind::Edition,
    ) + resolved(t.chapter_uids, m.chapters, UidKind::Chapter) + resolved(
        t.attachment_uids,
        m.attachments,
        UidKind::Attachment,
    )
}

/// All the UIDs that `t` mentions.
pub open spec fn all_uids(t: RawTagView) -> Seq<u64> {
    t.track_uids + t.edition_uids + t.chapter_uids + t.attachment_uids
}

/// Whether `t` mentions UIDs, all of them other than zero and none of them known: it
/// then describes nothing in this document.
pub open spec fn dangling(t: RawTagView, m: UidMapsView) -> bool {
    &&& all_uids(t).len() > 0
    &&& !all_uids(t).contains(0)
    &&& resolved_all(t, m).len() == 0
}

proof fn lemma_resolved_empty(uids: Seq<u64>, map: Map<u64, u32>, kind: UidKind)
    ensures
        (resolved(uids, map, kind).len() == 0) == (forall|i: int|
            0 <= i < uids.len() ==> (#[trigger] uids[i]) == 0 || !map.contains_key(uids[i])),
    decreases uids.len(),
{
    if uids.len() > 0 {
        let rest = uids.drop_last();
        lemma_resolved_empty(rest, map, kind);
        if resolved(uids, map, kind).len() == 0 {
            assert forall|i: int| 0 <= i < uids.len() implies (#[trigger] uids[i]) == 0
                || !map.contains_key(uids[i]) by {
                if i < rest.len() {
                    assert(rest[i] == uids[i]);
                }
            }
        } else if resolved(rest, map, kind).len() > 0 {
            let i = choose|i: int|
                0 <= i < rest.len() && !((#[trigger] rest[i]) == 0 || !map.contains_key(rest[i]));
            assert(uids[i] == rest[i]);
        } else {
            assert(uids[uids.len() - 1] == uids.last());
        }
    }
}

/// Whether none of `uids` is known to `map`.
pub open spec fn unknown_to(uids: Seq<u64>, map: Map<u64, u32>) -> bool {
    forall|i: int| 0 <= i < uids.len() ==> !map.contains_key(#[trigger] uids[i])
}

/// Only a tag that mentions UIDs, none of them zero and each unknown to the parts that it
/// is for, is dropped.
pub proof fn lemma_dangling(t: RawTagView, m: UidMapsView)
    ensures
        dangling(t, m) == (all_uids(t).len() > 0 && !all_uids(t).contains(0) && unknown_to(
            t.track_uids,
            m.tracks,
        ) && unknown_to(t.edition_uids, m.editions) && unknown_to(t.chapter_uids, m.chapters)
            && unknown_to(t.attachment_uids, m.attachments)),
{
    lemma_resolved_empty(t.track_uids, m.tracks, UidKind::Track);
    lemma_resolved_empty(t.edition_uids, m.editions, UidKind::Edition);
    lemma_resolved_empty(t.chapter_uids, m.chapters, UidKind::Chapter);
    lemma_resolved_empty(t.attachment_uids, m.attachments, UidKind::Attachment);
    lemma_contains_concat(t.track_uids, t.edition_uids, 0);
    lemma_contains_concat(t.track_uids + t.edition_uids, t.chapter_uids, 0);
    lemma_contains_concat(
        t.track_uids + t.edition_uids + t.chapter_uids,
        t.attachment_uids,
        0,
    );
}

/// Every part that a resolved tag refers to is one of the document's, under the UID that
/// the tag mentions.
pub proof fn lemma_resolved_known(uids: Seq<u64>, map: Map<u64, u32>, kind: UidKind, i: int)
    requires
        0 <= i < resolved(uids, map, kind).len(),
    ensures
        exists|k: int|
            0 <= k < uids.len() && (#[trigger] uids[k]) != 0 && map.contains_key(uids[k])
                && resolved(uids, map, kind)[i] == target_uid(kind, map[uids[k]], uids[k]),
    decreases uids.len(),
{
    let rest = uids.drop_last();
    let before = resolved(rest, map, kind);
    if i < before.len() {
        lemma_resolved_known(rest, map, kind, i);
        let k = choose|k: int|
            0 <= k < rest.len() && (#[trigger] rest[k]) != 0 && map.contains_key(rest[k])
                && before[i] == target_uid(kind, map[rest[k]], rest[k]);
        assert(uids[k] == rest[k]);
    } else {
        assert(uids[uids.len() - 1] == uids.last());
    }
}

/// What the key of a metadata entry starts with: the first part that a tag refers to.
pub open spec fn scope_prefix(uids: Seq<TargetUid>) -> Seq<char> {
    if uids.len() == 0 {
        Seq::empty()
    } else {
        match uids[0] {
            TargetUid::Track { stream_index, .. } => "tag:track:"@ + decimal(stream_index as nat)
                + ":"@,
            TargetUid::Edition { edition_index, .. } => "tag:edition:"@ + decimal(
                edition_index as nat,
            ) + ":"@,
            TargetUid::Chapter { chapter_index, .. } => "tag:chapter:"@ + decimal(
                chapter_index as nat,
            ) + ":"@,
            TargetUid::Attachment { attachment_index, .. } => "tag:attachment:"@ + decimal(
                attachment_index as nat,
            ) + ":"@,
        }
    }
}

/// The metadata entries of the SimpleTags `s`: those with a name and with text.
pub open spec fn flat_entries(prefix: Seq<char>, s: Seq<SimpleTagView>) -> Seq<
    (Seq<char>, Seq<char>),
>
    decreases s.len(),
{
    if s.len() == 0 {
        Seq::empty()
    } else {
        let r = flat_entries(prefix, s.drop_last());
        match s.last().value {
            SimpleTagValueView::String(v) => if s.last().name.len() > 0 && v.len() > 0 {
                r.push((prefix + ascii_lower_all(s.last().name), v))
            } else {
                r
            },
            _ => r,
        }
    }
}

/// The tag that `t` becomes.
pub open spec fn resolved_tag(t: RawTagView, m: UidMapsView) -> TagView {
    TagView {
        targets: TargetsView {
            target_type_value: t.target_type_value,
            target_type: t.target_type,
            uids: resolved_all(t, m),
        },
        simple_tags: t.simple_tags,
    }
}

/// The tags that `raw` becomes: all but the dangling ones.
pub open spec fn resolved_tags(raw: Seq<RawTagView>, m: UidMapsView) -> Seq<TagView>
    decreases raw.len(),
{
    if raw.len() == 0 {
        Seq::empty()
    } else {
        let r = resolved_tags(raw.drop_last(), m);
        if dangling(raw.last(), m) {
            r
        } else {
            r.push(resolved_tag(raw.last(), m))
        }
    }
}

/// The metadata entries of `raw`: those of all but the dangling tags.
pub open spec fn tag_metadata(raw: Seq<RawTagView>, m: UidMapsView) -> Seq<(Seq<char>, Seq<char>)>
    decreases raw.len(),
{
    if raw.len() == 0 {
        Seq::empty()
    } else {
        let r = tag_metadata(raw.drop_last(), m);
        if dangling(raw.last(), m) {
            r
        } else {
            r + flat_entries(scope_prefix(resolved_all(raw.last(), m)), raw.last().simple_tags)
        }
    }
}

/// Appends to `out` those of `uids` that are not zero and known to `map`. Tells
/// whether a zero is among them.
fn resolve_uids(
    uids: &Vec<u64>,
    map: &HashMap<u64, u32>,
    kind: UidKind,
    out: &mut Vec<TargetUid>,
) -> (zero: bool)
    ensures
        final(out)@ == old(out)@ + resolved(uids@, map@, kind),
        zero == uids@.contains(0),
{
    let mut zero: bool = false;
    let mut i: usize = 0;
    assert(uids@.take(0) =~= Seq::<u64>::empty());
    assert(out@ =~= old(out)@ + resolved(uids@.take(0), map@, kind));
    while i < uids.len()
        invariant
            i <= uids@.len(),
            out@ == old(out)@ + resolved(uids@.take(i as int), map@, kind),
            zero == uids@.take(i as int).contains(0),
        decreases uids@.len() - i,
    {
        let uid: u64 = uids[i];
        let ghost before = uids@.take(i as int);
        let ghost after = uids@.take(i + 1);
        proof {
            assert(after.drop_last() =~= before);
            assert(after.last() == uid);
            assert(after =~= before.push(uid));
        }
        if uid == 0 {
            zero = true;
            assert(after[i as int] == 0);
        } else {
            assert(after.contains(0) ==> before.contains(0)) by {
                if after.contains(0) {
                    let k = choose|k: int| 0 <= k < after.len() && after[k] == 0;
                    assert(before[k] == 0);
                }
            }
            assert(before.contains(0) ==> after.contains(0)) by {
                if before.contains(0) {
                    let k = choose|k: int| 0 <= k < before.len() && before[k] == 0;
                    assert(after[k] == 0);
                }
            }
            if let Some(index) = map.get(&uid) {
                out.push(make_target_uid(kind, *index, uid));
            }
        }
        assert(out@ =~= old(out)@ + resolved(after, map@, kind));
        i = i + 1;
    }
    assert(uids@.take(i as int) =~= uids@);
    zero
}

/// The text that the keys of a tag's metadata entries start with.
fn make_scope_prefix(uids: &Vec<TargetUid>) -> (r: String)
    ensures
        r@ == scope_prefix(uids@),
{
    if uids.len() == 0 {
        return String::new();
    }
    match uids[0] {
        TargetUid::Track { stream_index, .. } => numbered("tag:track:", stream_index, ":"),
        TargetUid::Edition { edition_index, .. } => numbered("tag:edition:", edition_index, ":"),
        TargetUid::Chapter { chapter_index, .. } => numbered("tag:chapter:", chapter_index, ":"),
        TargetUid::Attachment { attachment_index, .. } => numbered(
            "tag:attachment:",
            attachment_index,
            ":",
        ),
    }
}

/// Appends the metadata entries of the SimpleTags `s`.
fn append_flat_entries(
    prefix: &String,
    s: &Vec<SimpleTag>,
    metadata: &mut Vec<(String, String)>,
)
    ensures
        views(final(metadata)@) == views(old(metadata)@) + flat_entries(prefix@, views(s@)),
{
    let mut i: usize = 0;
    assert(views(s@).take(0) =~= Seq::<SimpleTagView>::empty());
    assert(views(metadata@) =~= views(old(metadata)@) + flat_entries(
        prefix@,
        views(s@).take(0),
    ));
    while i < s.len()
        invariant
            i <= s@.len(),
            views(metadata@) == views(old(metadata)@) + flat_entries(
                prefix@,
                views(s@).take(i as int),
            ),
        decreases s@.len() - i,
    {
        let ghost before = views(s@).take(i as int);
        let ghost after = views(s@).take(i + 1);
        assert(after.drop_last() =~= before);
        assert(after.last() == s@[i as int]@);
        if let SimpleTagValue::String(v) = &s[i].value {
            if !s[i].name.as_str().is_empty() && !v.as_str().is_empty() {
                let mut key: String = prefix.clone();
                key.append(to_ascii_lowercase(s[i].name.as_str()).as_str());
                metadata.push((key, v.clone()));
            }
        }
        assert(views(metadata@) =~= views(old(metadata)@) + flat_entries(prefix@, after));
        i = i + 1;
    }
    assert(views(s@).take(i as int) =~= views(s@));
}

/// Resolves the references of `raw`. Gives the tags, and appends their metadata
/// entries.
pub fn resolve_tags(
    raw: Vec<RawTag>,
    maps: &UidMaps,
    metadata: &mut Vec<(String, String)>,
) -> (tags: Vec<Tag>)
    ensures
        views(tags@) == resolved_tags(views(raw@), maps@),
        views(final(metadata)@) == views(old(metadata)@) + tag_metadata(views(raw@), maps@),
{
    let ghost rv = views(raw@);
    let ghost n = raw@.len();
    let mut rest: Vec<RawTag> = reversed(raw);
    assert forall|k: int| 0 <= k < rest@.len() implies (#[trigger] rest@[k])@ == rv[n - 1 - k] by {
        assert(rest@[k] == raw@[n - 1 - k]);
    }
    let mut tags: Vec<Tag> = Vec::new();
    let ghost mut i: int = 0;
    assert(rv.take(0) =~= Seq::<RawTagView>::empty());
    assert(views(metadata@) =~= views(old(metadata)@) + tag_metadata(rv.take(0), maps@));
    while rest.len() > 0
        invariant
            n == rv.len(),
            i + rest@.len() == n,
            0 <= i,
            forall|k: int|
                0 <= k < rest@.len() ==> (#[trigger] rest@[k])@ == rv[n - 1 - k],
            views(tags@) == resolved_tags(rv.take(i), maps@),
            views(metadata@) == views(old(metadata)@) + tag_metadata(rv.take(i), maps@),
        decreases rest@.len(),
    {
        let ghost after = rv.take(i + 1);
        let ghost held = rest@;
        if let Some(t) = rest.pop() {
            proof {
                assert(held[held.len() - 1]@ == rv[i]);
                assert(t@ == rv[i]);
                assert(after.drop_last() =~= rv.take(i));
                assert(after.last() == t@);
            }
            let mut uids: Vec<TargetUid> = Vec::new();
            let zero_track: bool = resolve_uids(
                &t.track_uids,
                &maps.tracks,
                UidKind::Track,
                &mut uids,
            );
            let zero_edition: bool = resolve_uids(
                &t.edition_uids,
                &maps.editions,
                UidKind::Edition,
                &mut uids,
            );
            let zero_chapter: bool = resolve_uids(
                &t.chapter_uids,
                &maps.chapters,
                UidKind::Chapter,
                &mut uids,
            );
            let zero_attachment: bool = resolve_uids(
                &t.attachment_uids,
                &maps.attachments,
                UidKind::Attachment,
                &mut uids,
            );
            let mentions: bool = t.track_uids.len() > 0 || t.edition_uids.len() > 0
                || t.chapter_uids.len() > 0 || t.attachment_uids.len() > 0;
            let zero: bool = zero_track || zero_edition || zero_chapter || zero_attachment;
            proof {
                assert(uids@ =~= resolved_all(t@, maps@));
                lemma_contains_concat(t@.track_uids, t@.edition_uids, 0);
                lemma_contains_concat(t@.track_uids + t@.edition_uids, t@.chapter_uids, 0);
                lemma_contains_concat(
                    t@.track_uids + t@.edition_uids + t@.chapter_uids,
                    t@.attachment_uids,
                    0,
                );
                assert(zero == all_uids(t@).contains(0));
            }
            if !mentions || zero || uids.len() > 0 {
                let prefix: String = make_scope_prefix(&uids);
                append_flat_entries(&prefix, &t.simple_tags, metadata);
                tags.push(
                    Tag {
                        targets: Targets {
                            target_type_value: t.target_type_value,
                            target_type: t.target_type,
                            uids,
                        },
                        simple_tags: t.simple_tags,
                    },
                );
                assert(views(metadata@) =~= views(old(metadata)@) + tag_metadata(after, maps@));
            }
        }
        proof {
            i = i + 1;
        }
    }
    assert(rv.take(i) =~= rv);
    tags
}

proof fn lemma_contains_concat(a: Seq<u64>, b: Seq<u64>, x: u64)
    ensures
        (a + b).contains(x) == (a.contains(x) || b.contains(x)),
{
    if a.contains(x) {
        let k = choose|k: int| 0 <= k < a.len() && a[k] == x;
        assert((a + b)[k] == x);
    }
    if b.contains(x) {
        let k = choose|k: int| 0 <= k < b.len() && b[k] == x;
        assert((a + b)[a.len() + k] == x);
    }
}

} // verus!
