//! What the tags of a document say.

use vstd::prelude::*;
use super::chapters::flag;
use super::document::{document_with, first_body, lemma_document_opens, lemma_first_there, opened};
use super::pieces::{leads, lemma_pieces_read, pieces, there, Piece};
use crate::demux::demuxer::{demuxer_of, maps_of};
use crate::demux::segment::{checked, document_of, empty_segment, segment_child, SegmentView};
use crate::demux::streams::index_by_uid;
use crate::demux::tags::{
    all_uids, dangling, empty_raw_tag, empty_simple_tag, flat_entries, resolved, resolved_all,
    resolved_tag, resolved_tags, scope_prefix, simple_tag_step, tag_metadata, tag_step, tags_step,
    target_uid, targets_step, RawTagView, SimpleTagValueView, SimpleTagView, TargetUid, UidKind,
    UidMapsView,
};
use crate::ebml::{walk, ElementHeader};
use crate::error::MkvError;
use crate::ids;
use crate::mux::header::{DocType, MuxStreamView};
use crate::round_trip::elements::{header, holds, no_nul, MAX_LEN};
use crate::round_trip::tracks::{codecs_plain, tracks_read};
use crate::text::{ascii_lower_all, decimal};

verus! {

/// A tag as its writer means it: what it describes, one text and one binary value.
pub struct TagFacts {
    pub track_uid: u64,
    pub edition_uid: u64,
    pub chapter_uid: u64,
    pub attachment_uid: u64,
    pub level: u64,
    pub level_name: Seq<char>,
    pub name: Seq<char>,
    pub text: Seq<char>,
    pub language: Seq<char>,
    pub language_tag: Seq<char>,
    pub default: bool,
    pub blob_name: Seq<char>,
    pub blob: Seq<u8>,
}

impl TagFacts {
    /// Whether all texts are there, without zero characters.
    pub open spec fn plain(self) -> bool {
        &&& self.level_name.len() > 0 && self.name.len() > 0 && self.text.len() > 0
        &&& self.language.len() > 0 && self.language_tag.len() > 0 && self.blob_name.len() > 0
        &&& no_nul(self.level_name) && no_nul(self.name) && no_nul(self.text) && no_nul(
            self.language,
        ) && no_nul(self.language_tag) && no_nul(self.blob_name)
    }

    pub open spec fn targets_pieces(self) -> Seq<Piece> {
        seq![
            Piece::Number(ids::TARGET_TYPE_VALUE, self.level),
            Piece::Text(ids::TARGET_TYPE, self.level_name),
            Piece::Number(ids::TAG_TRACK_UID, self.track_uid),
            Piece::Number(ids::TAG_EDITION_UID, self.edition_uid),
            Piece::Number(ids::TAG_CHAPTER_UID, self.chapter_uid),
            Piece::Number(ids::TAG_ATTACHMENT_UID, self.attachment_uid),
        ]
    }

    pub open spec fn text_pieces(self) -> Seq<Piece> {
        seq![
            Piece::Text(ids::TAG_NAME, self.name),
            Piece::Text(ids::TAG_STRING, self.text),
            Piece::Text(ids::TAG_LANGUAGE, self.language),
            Piece::Text(ids::TAG_LANGUAGE_BCP47, self.language_tag),
            Piece::Number(ids::TAG_DEFAULT, flag(self.default)),
        ]
    }

    pub open spec fn blob_pieces(self) -> Seq<Piece> {
        seq![
            Piece::Text(ids::TAG_NAME, self.blob_name),
            Piece::Bytes(ids::TAG_BINARY, self.blob),
        ]
    }

    /// The children of the Tag.
    pub open spec fn pieces(self) -> Seq<Piece> {
        seq![
            Piece::Bytes(ids::TARGETS, pieces(self.targets_pieces())),
            Piece::Bytes(ids::SIMPLE_TAG, pieces(self.text_pieces())),
            Piece::Bytes(ids::SIMPLE_TAG, pieces(self.blob_pieces())),
        ]
    }
}

/// The Tags with one tag.
pub open spec fn tags_pieces(f: TagFacts) -> Seq<Piece> {
    seq![Piece::Bytes(ids::TAG, pieces(f.pieces()))]
}

/// How the Targets are read.
pub open spec fn targets_of(f: TagFacts) -> RawTagView {
    RawTagView {
        track_uids: seq![f.track_uid],
        edition_uids: seq![f.edition_uid],
        chapter_uids: seq![f.chapter_uid],
        attachment_uids: seq![f.attachment_uid],
        target_type_value: Some(f.level),
        target_type: Some(f.level_name),
        simple_tags: Seq::empty(),
    }
}

/// How the text is read.
pub open spec fn text_of(f: TagFacts) -> SimpleTagView {
    SimpleTagView {
        name: f.name,
        value: SimpleTagValueView::String(f.text),
        language: f.language,
        language_bcp47: Some(f.language_tag),
        default: f.default,
    }
}

/// How the binary value is read.
pub open spec fn blob_of(f: TagFacts) -> SimpleTagView {
    SimpleTagView {
        name: f.blob_name,
        value: SimpleTagValueView::Binary(f.blob),
        language: "und"@,
        language_bcp47: None,
        default: true,
    }
}

/// How the Tag is read.
pub open spec fn tag_of(f: TagFacts) -> RawTagView {
    RawTagView { simple_tags: seq![text_of(f), blob_of(f)], ..targets_of(f) }
}

#[verifier::rlimit(60)]
proof fn lemma_targets_say(d: Seq<u8>, pos: int, f: TagFacts)
    requires
        f.plain(),
        holds(d, pos, pieces(f.targets_pieces())),
        d.len() <= MAX_LEN,
    ensures
        walk(d, pos, pos + pieces(f.targets_pieces()).len(), empty_raw_tag(), targets_step(d))
            == Ok::<(RawTagView, int), MkvError>(
            (targets_of(f), pos + pieces(f.targets_pieces()).len()),
        ),
{
    let ps = f.targets_pieces();
    let step = targets_step(d);
    let s0 = empty_raw_tag();
    let s1 = RawTagView { target_type_value: Some(f.level), ..s0 };
    let s2 = RawTagView { target_type: Some(f.level_name), ..s1 };
    let s3 = RawTagView { track_uids: s2.track_uids.push(f.track_uid), ..s2 };
    let s4 = RawTagView { edition_uids: s3.edition_uids.push(f.edition_uid), ..s3 };
    let s5 = RawTagView { chapter_uids: s4.chapter_uids.push(f.chapter_uid), ..s4 };
    let s6 = RawTagView { attachment_uids: s5.attachment_uids.push(f.attachment_uid), ..s5 };
    let states = seq![s0, s1, s2, s3, s4, s5, s6];
    assert(leads(d, ps, 0, states, step));
    lemma_pieces_read(d, pos, ps, states, step);
    assert(s6 =~= targets_of(f));
}

proof fn lemma_text_says(d: Seq<u8>, pos: int, f: TagFacts)
    requires
        f.plain(),
        holds(d, pos, pieces(f.text_pieces())),
        d.len() <= MAX_LEN,
    ensures
        walk(d, pos, pos + pieces(f.text_pieces()).len(), empty_simple_tag(), simple_tag_step(d))
            == Ok::<(SimpleTagView, int), MkvError>(
            (text_of(f), pos + pieces(f.text_pieces()).len()),
        ),
{
    let ps = f.text_pieces();
    let step = simple_tag_step(d);
    let s0 = empty_simple_tag();
    let s1 = SimpleTagView { name: f.name, ..s0 };
    let s2 = SimpleTagView { value: SimpleTagValueView::String(f.text), ..s1 };
    let s3 = SimpleTagView { language: f.language, ..s2 };
    let s4 = SimpleTagView { language_bcp47: Some(f.language_tag), ..s3 };
    let s5 = SimpleTagView { default: f.default, ..s4 };
    let states = seq![s0, s1, s2, s3, s4, s5];
    assert(leads(d, ps, 0, states, step));
    lemma_pieces_read(d, pos, ps, states, step);
}

proof fn lemma_blob_says(d: Seq<u8>, pos: int, f: TagFacts)
    requires
        f.plain(),
        holds(d, pos, pieces(f.blob_pieces())),
        d.len() <= MAX_LEN,
    ensures
        walk(d, pos, pos + pieces(f.blob_pieces()).len(), empty_simple_tag(), simple_tag_step(d))
            == Ok::<(SimpleTagView, int), MkvError>(
            (blob_of(f), pos + pieces(f.blob_pieces()).len()),
        ),
{
    let ps = f.blob_pieces();
    let step = simple_tag_step(d);
    let s0 = empty_simple_tag();
    let s1 = SimpleTagView { name: f.blob_name, ..s0 };
    let s2 = SimpleTagView { value: SimpleTagValueView::Binary(f.blob), ..s1 };
    let states = seq![s0, s1, s2];
    assert(leads(d, ps, 0, states, step));
    lemma_pieces_read(d, pos, ps, states, step);
}

#[verifier::rlimit(40)]
proof fn lemma_tag_says(d: Seq<u8>, pos: int, f: TagFacts)
    requires
        f.plain(),
        holds(d, pos, pieces(f.pieces())),
        d.len() <= MAX_LEN,
    ensures
        walk(d, pos, pos + pieces(f.pieces()).len(), empty_raw_tag(), tag_step(d)) == Ok::<
            (RawTagView, int),
            MkvError,
        >((tag_of(f), pos + pieces(f.pieces()).len())),
{
    let ps = f.pieces();
    let step = tag_step(d);
    let s0 = empty_raw_tag();
    let s1 = targets_of(f);
    let s2 = RawTagView { simple_tags: s1.simple_tags.push(text_of(f)), ..s1 };
    let s3 = RawTagView { simple_tags: s2.simple_tags.push(blob_of(f)), ..s2 };
    let states = seq![s0, s1, s2, s3];
    assert forall|i: int, b: int|
        0 <= i < ps.len() && #[trigger] there(d, ps[i], b) implies step(
        states[i],
        ps[i].header(),
        b,
    ) == Ok::<(RawTagView, int), MkvError>((states[i + 1], b + ps[i].header().size)) by {
        if i == 0 {
            lemma_targets_say(d, b, f);
        } else if i == 1 {
            lemma_text_says(d, b, f);
        } else {
            lemma_blob_says(d, b, f);
        }
    }
    lemma_pieces_read(d, pos, ps, states, step);
    assert(s3 =~= tag_of(f));
}

proof fn lemma_tags_say(d: Seq<u8>, pos: int, f: TagFacts)
    requires
        f.plain(),
        holds(d, pos, pieces(tags_pieces(f))),
        d.len() <= MAX_LEN,
    ensures
        walk(
            d,
            pos,
            pos + pieces(tags_pieces(f)).len(),
            Seq::<RawTagView>::empty(),
            tags_step(d),
        ) == Ok::<(Seq<RawTagView>, int), MkvError>(
            (seq![tag_of(f)], pos + pieces(tags_pieces(f)).len()),
        ),
{
    let ps = tags_pieces(f);
    let step = tags_step(d);
    let s0 = Seq::<RawTagView>::empty();
    let states = seq![s0, s0.push(tag_of(f))];
    assert forall|i: int, b: int|
        0 <= i < ps.len() && #[trigger] there(d, ps[i], b) implies step(
        states[i],
        ps[i].header(),
        b,
    ) == Ok::<(Seq<RawTagView>, int), MkvError>((states[i + 1], b + ps[i].header().size)) by {
        lemma_tag_says(d, b, f);
    }
    lemma_pieces_read(d, pos, ps, states, step);
    assert(states[1] =~= seq![tag_of(f)]);
}

/// What Tags add to an empty Segment.
proof fn lemma_tags_child(d: Seq<u8>, end: int, h: ElementHeader, b: int, t: Seq<RawTagView>) -> (r:
    SegmentView)
    requires
        h.id == ids::TAGS,
        0 <= b,
        b + h.size <= d.len() <= MAX_LEN,
        walk(d, b, b + h.size, Seq::<RawTagView>::empty(), tags_step(d)) == Ok::<
            (Seq<RawTagView>, int),
            MkvError,
        >((t, b + h.size)),
    ensures
        segment_child(d, end, empty_segment(), h, b) == Ok::<(SegmentView, int), MkvError>(
            (r, b + h.size),
        ),
        r == (SegmentView { tags: t, crc_status: r.crc_status, ..empty_segment() }),
{
    reveal(segment_child);
    assert(empty_segment().tags =~= Seq::<RawTagView>::empty());
    SegmentView { tags: t, crc_status: checked(d, Seq::empty(), h, b), ..empty_segment() }
}

/// The streams that were written have their numbers as UIDs.
proof fn lemma_uids(ss: Seq<MuxStreamView>, n: int, u: u64)
    requires
        0 <= n <= ss.len() <= u32::MAX,
    ensures
        index_by_uid(tracks_read(ss).take(n)).contains_key(u) == (1 <= u <= n),
        1 <= u <= n ==> index_by_uid(tracks_read(ss).take(n))[u] == u - 1,
    decreases n,
{
    let t = tracks_read(ss).take(n);
    if n > 0 {
        assert(t.drop_last() =~= tracks_read(ss).take(n - 1));
        lemma_uids(ss, n - 1, u);
    }
}

/// Whether `low` is `name` with the capital letters A to Z in lower case.
pub open spec fn is_lower(low: Seq<char>, name: Seq<char>) -> bool {
    &&& low.len() == name.len()
    &&& forall|i: int|
        0 <= i < name.len() ==> (if 65 <= #[trigger] name[i] as int && name[i] as int <= 90 {
            low[i] as int == name[i] as int + 32
        } else {
            low[i] == name[i]
        })
}

proof fn lemma_lower(name: Seq<char>)
    ensures
        is_lower(ascii_lower_all(name), name),
{
}

/// Whether the first of the simple tags is the text of `f` and the second its binary value.
pub open spec fn says_tag(f: TagFacts, s: Seq<SimpleTagView>) -> bool {
    &&& s.len() == 2
    &&& s[0].name == f.name
    &&& s[0].value == SimpleTagValueView::String(f.text)
    &&& s[0].language == f.language
    &&& s[0].language_bcp47 == Some(f.language_tag)
    &&& s[0].default == f.default
    &&& s[1].name == f.blob_name
    &&& s[1].value == SimpleTagValueView::Binary(f.blob)
    &&& s[1].language == "und"@
    &&& s[1].language_bcp47 is None
    &&& s[1].default
}

/// The only metadata entry of the tag `f` has the text under the name in lower case, behind
/// the given prefix.
pub open spec fn says_entry(
    f: TagFacts,
    m: Seq<(Seq<char>, Seq<char>)>,
    prefix: Seq<char>,
) -> bool {
    &&& m.len() == 1
    &&& m[0].1 == f.text
    &&& exists|low: Seq<char>| #[trigger] is_lower(low, f.name) && m[0].0 == prefix + low
}

proof fn lemma_flat(f: TagFacts, prefix: Seq<char>)
    requires
        f.plain(),
    ensures
        says_entry(f, flat_entries(prefix, seq![text_of(f), blob_of(f)]), prefix),
{
    let s = seq![text_of(f), blob_of(f)];
    assert(s.drop_last() =~= seq![text_of(f)]);
    assert(seq![text_of(f)].drop_last() =~= Seq::<SimpleTagView>::empty());
    reveal_with_fuel(flat_entries, 3);
    lemma_lower(f.name);
}

/// A document with a tag, and without editions, chapters and attachments. The tag is for the
/// stream whose UID it has, and its text then is in the metadata under that stream's number.
/// If there is no such stream, the tag is for the whole document if it mentions a zero, and
/// is not there at all otherwise.
#[verifier::rlimit(40)]
pub proof fn lemma_tag_opens(
    doc_type: DocType,
    ss: Seq<MuxStreamView>,
    rest: Seq<u8>,
    answers: Seq<Option<Seq<char>>>,
    f: TagFacts,
)
    requires
        document_with(doc_type, ids::TAGS, pieces(tags_pieces(f)), ss, rest).len() <= MAX_LEN,
        0 < ss.len() <= u32::MAX,
        codecs_plain(ss),
        f.plain(),
    ensures
        ({
            let d = document_with(doc_type, ids::TAGS, pieces(tags_pieces(f)), ss, rest);
            let m = opened(d, answers);
            let known = 1 <= f.track_uid <= ss.len();
            let zero = f.track_uid == 0 || f.edition_uid == 0 || f.chapter_uid == 0
                || f.attachment_uid == 0;
            &&& document_of(d) is Ok
            &&& (!known && !zero ==> m.tags.len() == 0 && m.metadata.len() == 0)
            &&& (known || zero ==> {
                &&& m.tags.len() == 1
                &&& m.tags[0].targets.target_type_value == Some(f.level)
                &&& m.tags[0].targets.target_type == Some(f.level_name)
                &&& says_tag(f, m.tags[0].simple_tags)
            })
            &&& (known ==> {
                &&& m.tags[0].targets.uids.len() == 1
                &&& m.tags[0].targets.uids[0] is Track
                &&& m.tags[0].targets.uids[0]->track_uid == f.track_uid
                &&& m.tags[0].targets.uids[0]->stream_index == f.track_uid - 1
                &&& says_entry(
                    f,
                    m.metadata,
                    "tag:track:"@ + decimal((f.track_uid - 1) as nat) + ":"@,
                )
            })
            &&& (!known && zero ==> {
                &&& m.tags[0].targets.uids.len() == 0
                &&& says_entry(f, m.metadata, Seq::empty())
            })
        }),
{
    let d = document_with(doc_type, ids::TAGS, pieces(tags_pieces(f)), ss, rest);
    lemma_tag_document(doc_type, ss, rest, f);
    let doc = document_of(d)->Ok_0;
    let m = maps_of(doc);
    lemma_uids(ss, ss.len() as int, f.track_uid);
    assert(tracks_read(ss).take(ss.len() as int) =~= tracks_read(ss));
    lemma_resolving(f, ss.len(), m);
    assert(demuxer_of(d, doc, answers).metadata =~= tag_metadata(seq![tag_of(f)], m));
}

#[verifier::rlimit(40)]
proof fn lemma_tag_document(
    doc_type: DocType,
    ss: Seq<MuxStreamView>,
    rest: Seq<u8>,
    f: TagFacts,
)
    requires
        document_with(doc_type, ids::TAGS, pieces(tags_pieces(f)), ss, rest).len() <= MAX_LEN,
        0 < ss.len(),
        codecs_plain(ss),
        f.plain(),
    ensures
        ({
            let d = document_with(doc_type, ids::TAGS, pieces(tags_pieces(f)), ss, rest);
            document_of(d) matches Ok(doc) && {
                &&& doc.parts.tags == seq![tag_of(f)]
                &&& doc.parts.tracks == tracks_read(ss)
                &&& doc.parts.info.metadata.len() == 0
                &&& doc.parts.edition_uids == Map::<u64, u32>::empty()
                &&& doc.parts.chapter_uids == Map::<u64, u32>::empty()
                &&& doc.parts.attachment_uids == Map::<u64, u32>::empty()
            }
        }),
{
    let body = pieces(tags_pieces(f));
    let d = document_with(doc_type, ids::TAGS, body, ss, rest);
    let b = first_body(doc_type, ids::TAGS, body);
    lemma_first_there(doc_type, ids::TAGS, body, ss, rest);
    lemma_tags_say(d, b, f);
    let h = header(ids::TAGS, body.len());
    let s = lemma_tags_child(d, d.len() as int, h, b, seq![tag_of(f)]);
    lemma_document_opens(doc_type, ids::TAGS, body, ss, rest, s);
}

proof fn lemma_single(u: u64, map: Map<u64, u32>, kind: UidKind)
    ensures
        u != 0 && map.contains_key(u) ==> resolved(seq![u], map, kind) == seq![
            target_uid(kind, map[u], u),
        ],
        u == 0 || !map.contains_key(u) ==> resolved(seq![u], map, kind).len() == 0,
{
    assert(seq![u].drop_last() =~= Seq::<u64>::empty());
    assert(seq![u].last() == u);
    reveal_with_fuel(resolved, 2);
    if u != 0 && map.contains_key(u) {
        assert(resolved(seq![u], map, kind) =~= seq![target_uid(kind, map[u], u)]);
    }
}

#[verifier::rlimit(40)]
proof fn lemma_resolving(f: TagFacts, n: nat, m: UidMapsView)
    requires
        f.plain(),
        m.tracks.contains_key(f.track_uid) == (1 <= f.track_uid <= n),
        1 <= f.track_uid <= n ==> m.tracks[f.track_uid] == f.track_uid - 1,
        m.editions == Map::<u64, u32>::empty(),
        m.chapters == Map::<u64, u32>::empty(),
        m.attachments == Map::<u64, u32>::empty(),
    ensures
        ({
            let raw = seq![tag_of(f)];
            let tags = resolved_tags(raw, m);
            let known = 1 <= f.track_uid <= n;
            let zero = f.track_uid == 0 || f.edition_uid == 0 || f.chapter_uid == 0
                || f.attachment_uid == 0;
            &&& (!known && !zero ==> tags.len() == 0 && tag_metadata(raw, m).len() == 0)
            &&& (known || zero ==> tags.len() == 1 && tags[0] == resolved_tag(tag_of(f), m))
            &&& (known ==> {
                &&& tags[0].targets.uids == seq![
                    TargetUid::Track {
                        stream_index: (f.track_uid - 1) as u32,
                        track_uid: f.track_uid,
                    },
                ]
                &&& says_entry(
                    f,
                    tag_metadata(raw, m),
                    "tag:track:"@ + decimal((f.track_uid - 1) as nat) + ":"@,
                )
            })
            &&& (!known && zero ==> {
                &&& tags[0].targets.uids.len() == 0
                &&& says_entry(f, tag_metadata(raw, m), Seq::empty())
            })
        }),
{
    let t = tag_of(f);
    let raw = seq![t];
    let known = 1 <= f.track_uid <= n;
    lemma_single(f.track_uid, m.tracks, UidKind::Track);
    lemma_single(f.edition_uid, m.editions, UidKind::Edition);
    lemma_single(f.chapter_uid, m.chapters, UidKind::Chapter);
    lemma_single(f.attachment_uid, m.attachments, UidKind::Attachment);
    let r = resolved_all(t, m);
    if known {
        assert(r =~= seq![
            TargetUid::Track { stream_index: (f.track_uid - 1) as u32, track_uid: f.track_uid },
        ]);
    } else {
        assert(r =~= Seq::<TargetUid>::empty());
    }
    let all = all_uids(t);
    assert(all =~= seq![f.track_uid, f.edition_uid, f.chapter_uid, f.attachment_uid]);
    assert(all.len() == 4 && all[0] == f.track_uid && all[1] == f.edition_uid && all[2]
        == f.chapter_uid && all[3] == f.attachment_uid);
    let zero = f.track_uid == 0 || f.edition_uid == 0 || f.chapter_uid == 0 || f.attachment_uid
        == 0;
    assert(all.contains(0) == zero);
    assert(dangling(t, m) == (!known && !zero));
    assert(raw.drop_last() =~= Seq::<RawTagView>::empty());
    assert(raw.last() == t);
    reveal_with_fuel(resolved_tags, 2);
    reveal_with_fuel(tag_metadata, 2);
    let prefix = scope_prefix(r);
    lemma_flat(f, prefix);
    if known || zero {
        assert(tag_metadata(raw, m) =~= flat_entries(prefix, t.simple_tags));
    }
}

/// The metadata entries of a tag are named after the first part that it is for: a track by its
/// index, and an edition, a chapter or an attachment by its number.
pub proof fn lemma_tag_keys(i: u32, uid: u64, more: Seq<TargetUid>)
    ensures
        scope_prefix(seq![TargetUid::Track { stream_index: i, track_uid: uid }] + more)
            == "tag:track:"@ + decimal(i as nat) + ":"@,
        scope_prefix(seq![TargetUid::Edition { edition_index: i, edition_uid: uid }] + more)
            == "tag:edition:"@ + decimal(i as nat) + ":"@,
        scope_prefix(seq![TargetUid::Chapter { chapter_index: i, chapter_uid: uid }] + more)
            == "tag:chapter:"@ + decimal(i as nat) + ":"@,
        scope_prefix(
            seq![TargetUid::Attachment { attachment_index: i, attachment_uid: uid }] + more,
        ) == "tag:attachment:"@ + decimal(i as nat) + ":"@,
        scope_prefix(Seq::empty()).len() == 0,
{
}

/// A tag for parts of each kind that the document has is for them all, the tracks first, then
/// the editions, the chapters and the attachments.
pub proof fn lemma_tag_parts(f: TagFacts, m: UidMapsView)
    requires
        f.track_uid != 0 && m.tracks.contains_key(f.track_uid),
        f.edition_uid != 0 && m.editions.contains_key(f.edition_uid),
        f.chapter_uid != 0 && m.chapters.contains_key(f.chapter_uid),
        f.attachment_uid != 0 && m.attachments.contains_key(f.attachment_uid),
    ensures
        resolved_all(tag_of(f), m) == seq![
            TargetUid::Track { stream_index: m.tracks[f.track_uid], track_uid: f.track_uid },
            TargetUid::Edition {
                edition_index: m.editions[f.edition_uid],
                edition_uid: f.edition_uid,
            },
            TargetUid::Chapter {
                chapter_index: m.chapters[f.chapter_uid],
                chapter_uid: f.chapter_uid,
            },
            TargetUid::Attachment {
                attachment_index: m.attachments[f.attachment_uid],
                attachment_uid: f.attachment_uid,
            },
        ],
{
    lemma_single(f.track_uid, m.tracks, UidKind::Track);
    lemma_single(f.edition_uid, m.editions, UidKind::Edition);
    lemma_single(f.chapter_uid, m.chapters, UidKind::Chapter);
    lemma_single(f.attachment_uid, m.attachments, UidKind::Attachment);
}

} // verus!
