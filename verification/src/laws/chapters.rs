//! What the chapters of a document say.

use vstd::prelude::*;
use super::document::{
    document_with, first_body, lemma_document_opens, lemma_first_there, lemma_no_tags, opened,
};
use super::pieces::{all_plain, leads, lemma_pieces_read, pieces, there, Piece};
use crate::demux::chapter_types::{
    new_chapter, ChapProcessCommandView, ChapProcessView, ChapterDisplayView, ChapterView,
    EditionView, MAX_CHAPTER_NESTING,
};
use crate::demux::chapters::{
    chap_process_command_step, chap_process_step, chapter_atom_step, chapter_display_step,
    chapter_metadata, chapters_step, edition_step, empty_command, empty_display, empty_edition,
    empty_process, next_index, read_atom, read_chapters, read_display, read_edition, AtomState,
    ChapterWalkView, ChaptersState, ChaptersWalk, DisplayPartsView, EditionState,
};
use crate::demux::info::InfoView;
use crate::demux::segment::{checked, document_of, empty_segment, segment_child, SegmentView};
use crate::ebml::{walk, ElementHeader};
use crate::error::MkvError;
use crate::ids;
use crate::mux::header::{DocType, MuxStreamView};
use crate::round_trip::elements::{header, holds, no_nul, MAX_LEN};
use crate::round_trip::tracks::codecs_plain;
use crate::text::decimal;

verus! {

/// A flag as a number.
pub open spec fn flag(b: bool) -> u64 {
    if b {
        1
    } else {
        0
    }
}

/// A chapter as its writer means it.
pub struct ChapterFacts {
    pub uid: u64,
    pub name: Seq<char>,
    pub start_ns: u64,
    pub end_ns: u64,
    pub hidden: bool,
    pub enabled: bool,
    pub segment: Seq<u8>,
    pub segment_edition: u64,
    pub physical: u64,
    pub title: Seq<char>,
    pub language: Seq<char>,
    pub language_tag: Seq<char>,
    pub country: Seq<char>,
    pub process_codec: u64,
    pub process_private: Seq<u8>,
    pub command_time: u64,
    pub command: Seq<u8>,
}

impl ChapterFacts {
    /// Whether the UIDs are some, there is a title, and no text has a zero character.
    pub open spec fn plain(self) -> bool {
        &&& self.uid != 0
        &&& self.segment_edition != 0
        &&& self.title.len() > 0
        &&& no_nul(self.name) && no_nul(self.title) && no_nul(self.language) && no_nul(
            self.language_tag,
        ) && no_nul(self.country)
    }

    pub open spec fn display_pieces(self) -> Seq<Piece> {
        seq![
            Piece::Text(ids::CHAP_STRING, self.title),
            Piece::Text(ids::CHAP_LANGUAGE, self.language),
            Piece::Text(ids::CHAP_LANGUAGE_BCP47, self.language_tag),
            Piece::Text(ids::CHAP_COUNTRY, self.country),
        ]
    }

    pub open spec fn command_pieces(self) -> Seq<Piece> {
        seq![
            Piece::Number(ids::CHAP_PROCESS_TIME, self.command_time),
            Piece::Bytes(ids::CHAP_PROCESS_DATA, self.command),
        ]
    }

    pub open spec fn process_pieces(self) -> Seq<Piece> {
        seq![
            Piece::Number(ids::CHAP_PROCESS_CODEC_ID, self.process_codec),
            Piece::Bytes(ids::CHAP_PROCESS_PRIVATE, self.process_private),
            Piece::Bytes(ids::CHAP_PROCESS_COMMAND, pieces(self.command_pieces())),
        ]
    }

    /// The children of the ChapterAtom, with all flags spelt out.
    pub open spec fn pieces(self) -> Seq<Piece> {
        seq![
            Piece::Number(ids::CHAPTER_UID, self.uid),
            Piece::Text(ids::CHAPTER_STRING_UID, self.name),
            Piece::Number(ids::CHAPTER_TIME_START, self.start_ns),
            Piece::Number(ids::CHAPTER_TIME_END, self.end_ns),
            Piece::Number(ids::CHAPTER_FLAG_HIDDEN, flag(self.hidden)),
            Piece::Number(ids::CHAPTER_FLAG_ENABLED, flag(self.enabled)),
            Piece::Bytes(ids::CHAPTER_SEGMENT_UUID, self.segment),
            Piece::Number(ids::CHAPTER_SEGMENT_EDITION_UID, self.segment_edition),
            Piece::Number(ids::CHAPTER_PHYSICAL_EQUIV, self.physical),
            Piece::Bytes(ids::CHAPTER_DISPLAY, pieces(self.display_pieces())),
            Piece::Bytes(ids::CHAP_PROCESS, pieces(self.process_pieces())),
        ]
    }

    /// Whether a chapter of a document is this one, under the number `index` and without
    /// chapters in it.
    pub open spec fn is_read_as(self, c: ChapterView, index: u32) -> bool {
        &&& c.index == index
        &&& c.uid == Some(self.uid)
        &&& c.string_uid == Some(self.name)
        &&& c.time_start_ns == self.start_ns
        &&& c.time_end_ns == Some(self.end_ns)
        &&& c.hidden == self.hidden
        &&& c.enabled == self.enabled
        &&& c.segment_uuid == Some(self.segment)
        &&& c.segment_edition_uid == Some(self.segment_edition)
        &&& c.physical_equiv == Some(self.physical)
        &&& c.displays.len() == 1
        &&& c.displays[0].string == self.title
        &&& c.displays[0].language == self.language
        &&& c.displays[0].language_bcp47 == Some(self.language_tag)
        &&& c.displays[0].country == Some(self.country)
        &&& c.chap_processes.len() == 1
        &&& c.chap_processes[0].codec_id == self.process_codec
        &&& c.chap_processes[0].private == Some(self.process_private)
        &&& c.chap_processes[0].commands.len() == 1
        &&& c.chap_processes[0].commands[0].time == self.command_time
        &&& c.chap_processes[0].commands[0].data == self.command
        &&& c.children.len() == 0
    }
}

proof fn lemma_display_says(d: Seq<u8>, pos: int, c: ChapterFacts)
    requires
        c.plain(),
        holds(d, pos, pieces(c.display_pieces())),
        d.len() <= MAX_LEN,
    ensures
        read_display(d, pos, pos + pieces(c.display_pieces()).len()) == Ok::<
            (Option<ChapterDisplayView>, int),
            MkvError,
        >(
            (
                Some(
                    ChapterDisplayView {
                        string: c.title,
                        language: c.language,
                        language_bcp47: Some(c.language_tag),
                        country: Some(c.country),
                    },
                ),
                pos + pieces(c.display_pieces()).len(),
            ),
        ),
{
    let ps = c.display_pieces();
    let step = chapter_display_step(d);
    let s0 = empty_display();
    let s1 = DisplayPartsView { string: Some(c.title), ..s0 };
    let s2 = DisplayPartsView { language: Some(c.language), ..s1 };
    let s3 = DisplayPartsView { language_bcp47: Some(c.language_tag), ..s2 };
    let s4 = DisplayPartsView { country: Some(c.country), ..s3 };
    let states = seq![s0, s1, s2, s3, s4];
    assert(leads(d, ps, 0, states, step));
    lemma_pieces_read(d, pos, ps, states, step);
}

proof fn lemma_process_says(d: Seq<u8>, pos: int, c: ChapterFacts)
    requires
        holds(d, pos, pieces(c.process_pieces())),
        d.len() <= MAX_LEN,
    ensures
        walk(
            d,
            pos,
            pos + pieces(c.process_pieces()).len(),
            empty_process(),
            chap_process_step(d),
        ) == Ok::<(ChapProcessView, int), MkvError>(
            (
                ChapProcessView {
                    codec_id: c.process_codec,
                    private: Some(c.process_private),
                    commands: seq![
                        ChapProcessCommandView { time: c.command_time, data: c.command },
                    ],
                },
                pos + pieces(c.process_pieces()).len(),
            ),
        ),
{
    let ps = c.process_pieces();
    let step = chap_process_step(d);
    let inner = c.command_pieces();
    let k0 = empty_command();
    let k1 = ChapProcessCommandView { time: c.command_time, ..k0 };
    let k2 = ChapProcessCommandView { data: c.command, ..k1 };
    let ks = seq![k0, k1, k2];
    assert(leads(d, inner, 0, ks, chap_process_command_step(d)));
    let s0 = empty_process();
    let s1 = ChapProcessView { codec_id: c.process_codec, ..s0 };
    let s2 = ChapProcessView { private: Some(c.process_private), ..s1 };
    let s3 = ChapProcessView { commands: s2.commands.push(k2), ..s2 };
    let states = seq![s0, s1, s2, s3];
    assert(s3.commands =~= seq![k2]);
    assert forall|i: int, b: int|
        0 <= i < ps.len() && #[trigger] there(d, ps[i], b) implies step(
        states[i],
        ps[i].header(),
        b,
    ) == Ok::<(ChapProcessView, int), MkvError>((states[i + 1], b + ps[i].header().size)) by {
        if i == 2 {
            lemma_pieces_read(d, b, inner, ks, chap_process_command_step(d));
        }
    }
    lemma_pieces_read(d, pos, ps, states, step);
}

/// The chapter that is read where `c` was written, under the number `index`.
spec fn chapter_of(c: ChapterFacts, index: u32) -> ChapterView {
    ChapterView {
        index,
        uid: Some(c.uid),
        string_uid: Some(c.name),
        time_start_ns: c.start_ns,
        time_end_ns: Some(c.end_ns),
        hidden: c.hidden,
        enabled: c.enabled,
        segment_uuid: Some(c.segment),
        segment_edition_uid: Some(c.segment_edition),
        physical_equiv: Some(c.physical),
        displays: seq![
            ChapterDisplayView {
                string: c.title,
                language: c.language,
                language_bcp47: Some(c.language_tag),
                country: Some(c.country),
            },
        ],
        chap_processes: seq![
            ChapProcessView {
                codec_id: c.process_codec,
                private: Some(c.process_private),
                commands: seq![ChapProcessCommandView { time: c.command_time, data: c.command }],
            },
        ],
        children: Seq::empty(),
    }
}

/// The chapter behind its first `k` children.
spec fn chapter_so_far(c: ChapterFacts, index: u32, k: int) -> ChapterView {
    let n = new_chapter(index);
    let t = chapter_of(c, index);
    ChapterView {
        index,
        uid: if k > 0 { t.uid } else { n.uid },
        string_uid: if k > 1 { t.string_uid } else { n.string_uid },
        time_start_ns: if k > 2 { t.time_start_ns } else { n.time_start_ns },
        time_end_ns: if k > 3 { t.time_end_ns } else { n.time_end_ns },
        hidden: if k > 4 { t.hidden } else { n.hidden },
        enabled: if k > 5 { t.enabled } else { n.enabled },
        segment_uuid: if k > 6 { t.segment_uuid } else { n.segment_uuid },
        segment_edition_uid: if k > 7 { t.segment_edition_uid } else { n.segment_edition_uid },
        physical_equiv: if k > 8 { t.physical_equiv } else { n.physical_equiv },
        displays: if k > 9 { t.displays } else { n.displays },
        chap_processes: if k > 10 { t.chap_processes } else { n.chap_processes },
        children: Seq::empty(),
    }
}

spec fn atom_so_far(c: ChapterFacts, w: ChapterWalkView, k: int) -> AtomState {
    let index = next_index(w.index);
    AtomState {
        atom: chapter_so_far(c, index, k),
        walk: ChapterWalkView {
            index,
            uids: if k > 0 {
                w.uids.insert(c.uid, index)
            } else {
                w.uids
            },
            ..w
        },
    }
}

#[verifier::rlimit(60)]
proof fn lemma_atom_piece(
    d: Seq<u8>,
    c: ChapterFacts,
    w: ChapterWalkView,
    left: nat,
    i: int,
    b: int,
)
    requires
        c.plain(),
        0 <= i < 11,
        there(d, c.pieces()[i], b),
    ensures
        chapter_atom_step(d, left)(atom_so_far(c, w, i), c.pieces()[i].header(), b) == Ok::<
            (AtomState, int),
            MkvError,
        >((atom_so_far(c, w, i + 1), b + c.pieces()[i].header().size)),
{
    reveal(chapter_atom_step);
    let s = atom_so_far(c, w, i);
    let t = atom_so_far(c, w, i + 1);
    let index = next_index(w.index);
    if i == 9 {
        lemma_display_says(d, b, c);
        assert(s.atom.displays.push(chapter_of(c, index).displays[0]) =~= t.atom.displays);
    } else if i == 10 {
        lemma_process_says(d, b, c);
        assert(s.atom.chap_processes.push(chapter_of(c, index).chap_processes[0])
            =~= t.atom.chap_processes);
    }
}

#[verifier::rlimit(40)]
proof fn lemma_atom_says(d: Seq<u8>, pos: int, c: ChapterFacts, w: ChapterWalkView, left: nat)
    requires
        c.plain(),
        left > 0,
        holds(d, pos, pieces(c.pieces())),
        d.len() <= MAX_LEN,
    ensures
        ({
            let index = next_index(w.index);
            let t = chapter_of(c, index);
            read_atom(d, pos, pos + pieces(c.pieces()).len(), w, left) == Ok::<
                (AtomState, int),
                MkvError,
            >(
                (
                    AtomState {
                        atom: t,
                        walk: ChapterWalkView {
                            metadata: w.metadata + chapter_metadata(t),
                            index,
                            uids: w.uids.insert(c.uid, index),
                        },
                    },
                    pos + pieces(c.pieces()).len(),
                ),
            )
        }),
{
    let ps = c.pieces();
    let l = (left - 1) as nat;
    let step = chapter_atom_step(d, l);
    let states = Seq::new(12, |k: int| atom_so_far(c, w, k));
    let index = next_index(w.index);
    assert(all_plain(ps));
    assert(leads(d, ps, 0, states, step)) by {
        assert forall|i: int, b: int|
            0 <= i < ps.len() && #[trigger] there(d, ps[i], b) implies step(
            states[i],
            ps[i].header(),
            b,
        ) == Ok::<(AtomState, int), MkvError>((states[i + 1], b + ps[i].header().size)) by {
            lemma_atom_piece(d, c, w, l, i, b);
        }
    }
    lemma_pieces_read(d, pos, ps, states, step);
    assert(states[0] == AtomState {
        atom: new_chapter(index),
        walk: ChapterWalkView { index, ..w },
    });
    assert(states[11].atom =~= chapter_of(c, index));
}

/// An edition with the ChapterAtom `atom`.
pub open spec fn edition_pieces(uid: u64, default: bool, ordered: bool, atom: Seq<u8>) -> Seq<
    Piece,
> {
    seq![
        Piece::Number(ids::EDITION_UID, uid),
        Piece::Number(ids::EDITION_FLAG_DEFAULT, flag(default)),
        Piece::Number(ids::EDITION_FLAG_ORDERED, flag(ordered)),
        Piece::Bytes(ids::CHAPTER_ATOM, atom),
    ]
}

/// The walk over the chapters before the first of them.
spec fn no_chapters() -> ChapterWalkView {
    ChapterWalkView { metadata: Seq::empty(), index: 0, uids: Map::empty() }
}

#[verifier::rlimit(40)]
proof fn lemma_edition_says(
    d: Seq<u8>,
    pos: int,
    uid: u64,
    default: bool,
    ordered: bool,
    atom: Seq<u8>,
    a: AtomState,
)
    requires
        uid != 0,
        forall|b: int| #[trigger] holds(d, b, atom) ==> read_atom(
            d,
            b,
            b + atom.len(),
            no_chapters(),
            MAX_CHAPTER_NESTING as nat,
        ) == Ok::<(AtomState, int), MkvError>((a, b + atom.len())),
        holds(d, pos, pieces(edition_pieces(uid, default, ordered, atom))),
        d.len() <= MAX_LEN,
    ensures
        ({
            let n = pieces(edition_pieces(uid, default, ordered, atom)).len();
            read_edition(d, pos, pos + n, no_chapters(), 1, Map::empty()) == Ok::<
                (EditionState, int),
                MkvError,
            >(
                (
                    EditionState {
                        edition: EditionView {
                            uid: Some(uid),
                            default,
                            ordered,
                            chapters: seq![a.atom],
                        },
                        walk: a.walk,
                        edition_uids: Map::empty().insert(uid, 1u32),
                    },
                    pos + n,
                ),
            )
        }),
{
    let ps = edition_pieces(uid, default, ordered, atom);
    let step = edition_step(d, 1);
    let s0 = EditionState {
        edition: empty_edition(),
        walk: no_chapters(),
        edition_uids: Map::empty(),
    };
    let s1 = EditionState {
        edition: EditionView { uid: Some(uid), ..s0.edition },
        edition_uids: s0.edition_uids.insert(uid, 1),
        ..s0
    };
    let s2 = EditionState { edition: EditionView { default, ..s1.edition }, ..s1 };
    let s3 = EditionState { edition: EditionView { ordered, ..s2.edition }, ..s2 };
    let s4 = EditionState {
        edition: EditionView { chapters: s3.edition.chapters.push(a.atom), ..s3.edition },
        walk: a.walk,
        ..s3
    };
    let states = seq![s0, s1, s2, s3, s4];
    assert(leads(d, ps, 0, states, step));
    lemma_pieces_read(d, pos, ps, states, step);
    assert(s4.edition.chapters =~= seq![a.atom]);
}

/// The Chapters with one edition.
pub open spec fn chapters_pieces(uid: u64, default: bool, ordered: bool, c: ChapterFacts) -> Seq<
    Piece,
> {
    seq![
        Piece::Bytes(
            ids::EDITION_ENTRY,
            pieces(edition_pieces(uid, default, ordered, pieces(c.pieces()))),
        ),
    ]
}

#[verifier::rlimit(40)]
proof fn lemma_chapters_say(
    d: Seq<u8>,
    pos: int,
    uid: u64,
    default: bool,
    ordered: bool,
    c: ChapterFacts,
)
    requires
        uid != 0,
        c.plain(),
        holds(d, pos, pieces(chapters_pieces(uid, default, ordered, c))),
        d.len() <= MAX_LEN,
    ensures
        ({
            let n = pieces(chapters_pieces(uid, default, ordered, c)).len();
            let none = ChaptersState {
                editions: Seq::empty(),
                metadata: Seq::empty(),
                chapter_uids: Map::empty(),
                edition_uids: Map::empty(),
            };
            read_chapters(d, pos, pos + n, none) == Ok::<(ChaptersState, int), MkvError>(
                (
                    ChaptersState {
                        editions: seq![
                            EditionView {
                                uid: Some(uid),
                                default,
                                ordered,
                                chapters: seq![chapter_of(c, 1)],
                            },
                        ],
                        metadata: chapter_metadata(chapter_of(c, 1)),
                        chapter_uids: Map::empty().insert(c.uid, 1u32),
                        edition_uids: Map::empty().insert(uid, 1u32),
                    },
                    pos + n,
                ),
            )
        }),
{
    let ps = chapters_pieces(uid, default, ordered, c);
    let step = chapters_step(d);
    let none = ChaptersState {
        editions: Seq::empty(),
        metadata: Seq::empty(),
        chapter_uids: Map::empty(),
        edition_uids: Map::empty(),
    };
    let e = EditionView { uid: Some(uid), default, ordered, chapters: seq![chapter_of(c, 1)] };
    let a = AtomState {
        atom: chapter_of(c, 1),
        walk: ChapterWalkView {
            metadata: chapter_metadata(chapter_of(c, 1)),
            index: 1,
            uids: Map::empty().insert(c.uid, 1u32),
        },
    };
    let s0 = ChaptersWalk { state: none, chapter_index: 0, edition_index: 0 };
    let s1 = ChaptersWalk {
        state: ChaptersState {
            editions: none.editions.push(e),
            metadata: chapter_metadata(chapter_of(c, 1)),
            chapter_uids: Map::empty().insert(c.uid, 1u32),
            edition_uids: Map::empty().insert(uid, 1u32),
        },
        chapter_index: 1,
        edition_index: 1,
    };
    let states = seq![s0, s1];
    assert forall|i: int, b: int|
        0 <= i < ps.len() && #[trigger] there(d, ps[i], b) implies step(
        states[i],
        ps[i].header(),
        b,
    ) == Ok::<(ChaptersWalk, int), MkvError>((states[i + 1], b + ps[i].header().size)) by {
        let atom = pieces(c.pieces());
        assert forall|e: int| #[trigger] holds(d, e, atom) implies read_atom(
            d,
            e,
            e + atom.len(),
            no_chapters(),
            MAX_CHAPTER_NESTING as nat,
        ) == Ok::<(AtomState, int), MkvError>((a, e + atom.len())) by {
            lemma_atom_says(d, e, c, no_chapters(), MAX_CHAPTER_NESTING as nat);
            assert(no_chapters().metadata + chapter_metadata(chapter_of(c, 1))
                =~= chapter_metadata(chapter_of(c, 1)));
        }
        lemma_edition_says(d, b, uid, default, ordered, atom, a);
    }
    lemma_pieces_read(d, pos, ps, states, step);
    assert(s1.state.editions =~= seq![e]);
}

/// What Chapters add to an empty Segment.
proof fn lemma_chapters_child(d: Seq<u8>, end: int, h: ElementHeader, b: int, c: ChaptersState) -> (
    r: SegmentView)
    requires
        h.id == ids::CHAPTERS,
        0 <= b,
        b + h.size <= d.len() <= MAX_LEN,
        read_chapters(
            d,
            b,
            b + h.size,
            ChaptersState {
                editions: Seq::empty(),
                metadata: Seq::empty(),
                chapter_uids: Map::empty(),
                edition_uids: Map::empty(),
            },
        ) == Ok::<(ChaptersState, int), MkvError>((c, b + h.size)),
    ensures
        segment_child(d, end, empty_segment(), h, b) == Ok::<(SegmentView, int), MkvError>(
            (r, b + h.size),
        ),
        r.editions == c.editions,
        r.info.metadata == c.metadata,
        r.chapter_uids == c.chapter_uids,
        r.edition_uids == c.edition_uids,
        r.tags == empty_segment().tags,
        r.tracks == empty_segment().tracks,
{
    reveal(segment_child);
    SegmentView {
        editions: c.editions,
        info: InfoView { metadata: c.metadata, ..empty_segment().info },
        chapter_uids: c.chapter_uids,
        edition_uids: c.edition_uids,
        crc_status: checked(d, Seq::empty(), h, b),
        ..empty_segment()
    }
}

/// A document with an edition and a chapter opens with them: the chapter has the times, the
/// flags, the title and all else that its writer gave it, and so does the edition. The
/// metadata have the times in whole milliseconds and the title under the chapter's number.
#[verifier::rlimit(40)]
pub proof fn lemma_chapter_opens(
    doc_type: DocType,
    ss: Seq<MuxStreamView>,
    rest: Seq<u8>,
    answers: Seq<Option<Seq<char>>>,
    uid: u64,
    default: bool,
    ordered: bool,
    c: ChapterFacts,
)
    requires
        document_with(
            doc_type,
            ids::CHAPTERS,
            pieces(chapters_pieces(uid, default, ordered, c)),
            ss,
            rest,
        ).len() <= MAX_LEN,
        ss.len() > 0,
        codecs_plain(ss),
        uid != 0,
        c.plain(),
    ensures
        ({
            let body = pieces(chapters_pieces(uid, default, ordered, c));
            let d = document_with(doc_type, ids::CHAPTERS, body, ss, rest);
            let m = opened(d, answers);
            &&& document_of(d) is Ok
            &&& m.editions.len() == 1
            &&& m.editions[0].uid == Some(uid)
            &&& m.editions[0].default == default
            &&& m.editions[0].ordered == ordered
            &&& m.editions[0].chapters.len() == 1
            &&& c.is_read_as(m.editions[0].chapters[0], 1)
            &&& m.metadata.len() == 3
            &&& m.metadata[0].0 == "chapter:1:start_ms"@
            &&& spells_ms(m.metadata[0].1, c.start_ns)
            &&& m.metadata[1].0 == "chapter:1:end_ms"@
            &&& spells_ms(m.metadata[1].1, c.end_ns)
            &&& m.metadata[2] == ("chapter:1:title"@, c.title)
        }),
{
    let body = pieces(chapters_pieces(uid, default, ordered, c));
    let d = document_with(doc_type, ids::CHAPTERS, body, ss, rest);
    let b = first_body(doc_type, ids::CHAPTERS, body);
    lemma_first_there(doc_type, ids::CHAPTERS, body, ss, rest);
    lemma_chapters_say(d, b, uid, default, ordered, c);
    let x = chapter_of(c, 1);
    let r = ChaptersState {
        editions: seq![EditionView { uid: Some(uid), default, ordered, chapters: seq![x] }],
        metadata: chapter_metadata(x),
        chapter_uids: Map::empty().insert(c.uid, 1u32),
        edition_uids: Map::empty().insert(uid, 1u32),
    };
    let s = lemma_chapters_child(d, d.len() as int, header(ids::CHAPTERS, body.len()), b, r);
    lemma_document_opens(doc_type, ids::CHAPTERS, body, ss, rest, s);
    lemma_no_tags(d, document_of(d)->Ok_0, answers);
    lemma_first_metadata(c);
}

/// Whether the text `t` spells the time `ns` in milliseconds, cut down to a whole number.
pub open spec fn spells_ms(t: Seq<char>, ns: u64) -> bool {
    exists|ms: nat|
        #![trigger decimal(ms)]
        t == decimal(ms) && ms * 1_000_000 <= ns < (ms + 1) * 1_000_000
}

proof fn lemma_first_metadata(c: ChapterFacts)
    requires
        c.plain(),
    ensures
        ({
            let m = chapter_metadata(chapter_of(c, 1));
            &&& m.len() == 3
            &&& m[0].0 == "chapter:1:start_ms"@
            &&& spells_ms(m[0].1, c.start_ns)
            &&& m[1].0 == "chapter:1:end_ms"@
            &&& spells_ms(m[1].1, c.end_ns)
            &&& m[2] == ("chapter:1:title"@, c.title)
        }),
{
    reveal_strlit("chapter:");
    reveal_strlit(":start_ms");
    reveal_strlit(":end_ms");
    reveal_strlit(":title");
    reveal_strlit("chapter:1:start_ms");
    reveal_strlit("chapter:1:end_ms");
    reveal_strlit("chapter:1:title");
    assert(decimal(1) =~= seq!['1']);
    assert("chapter:"@ + decimal(1) + ":start_ms"@ =~= "chapter:1:start_ms"@);
    assert("chapter:"@ + decimal(1) + ":end_ms"@ =~= "chapter:1:end_ms"@);
    assert("chapter:"@ + decimal(1) + ":title"@ =~= "chapter:1:title"@);
    assert(spells_ms(decimal((c.start_ns / 1_000_000) as nat), c.start_ns));
    assert(spells_ms(decimal((c.end_ns / 1_000_000) as nat), c.end_ns));
}

/// The children of a ChapterDisplay with a title alone.
pub open spec fn plain_display(title: Seq<char>) -> Seq<Piece> {
    seq![Piece::Text(ids::CHAP_STRING, title)]
}

/// A chapter of which only the start and the title are written, with the chapter `inner` in it.
pub open spec fn outer_pieces(start_ns: u64, title: Seq<char>, inner: ChapterFacts) -> Seq<Piece> {
    seq![
        Piece::Number(ids::CHAPTER_TIME_START, start_ns),
        Piece::Bytes(ids::CHAPTER_DISPLAY, pieces(plain_display(title))),
        Piece::Bytes(ids::CHAPTER_ATOM, pieces(inner.pieces())),
    ]
}

proof fn lemma_plain_display(d: Seq<u8>, pos: int, title: Seq<char>)
    requires
        no_nul(title) && title.len() > 0,
        holds(d, pos, pieces(plain_display(title))),
        d.len() <= MAX_LEN,
    ensures
        read_display(d, pos, pos + pieces(plain_display(title)).len()) == Ok::<
            (Option<ChapterDisplayView>, int),
            MkvError,
        >(
            (
                Some(
                    ChapterDisplayView {
                        string: title,
                        language: "eng"@,
                        language_bcp47: None,
                        country: None,
                    },
                ),
                pos + pieces(plain_display(title)).len(),
            ),
        ),
{
    let ps = plain_display(title);
    let step = chapter_display_step(d);
    let s0 = empty_display();
    let s1 = DisplayPartsView { string: Some(title), ..s0 };
    let states = seq![s0, s1];
    assert(leads(d, ps, 0, states, step));
    lemma_pieces_read(d, pos, ps, states, step);
}

/// How the outer chapter is read before the inner one.
spec fn outer_chapter(start_ns: u64, title: Seq<char>, index: u32) -> ChapterView {
    ChapterView {
        time_start_ns: start_ns,
        displays: seq![
            ChapterDisplayView {
                string: title,
                language: "eng"@,
                language_bcp47: None,
                country: None,
            },
        ],
        ..new_chapter(index)
    }
}

/// A chapter of which only the start and the title are written is shown, is in use, has no end
/// and no UIDs, and its title is in English. A chapter in it is one of its children, as it was
/// meant, and has the next number.
#[verifier::rlimit(60)]
pub proof fn lemma_nested_chapters(
    d: Seq<u8>,
    pos: int,
    w: ChapterWalkView,
    left: nat,
    start_ns: u64,
    title: Seq<char>,
    inner: ChapterFacts,
)
    requires
        left > 1,
        w.index < u32::MAX - 1,
        no_nul(title) && title.len() > 0,
        inner.plain(),
        holds(d, pos, pieces(outer_pieces(start_ns, title, inner))),
        d.len() <= MAX_LEN,
    ensures
        ({
            let end = pos + pieces(outer_pieces(start_ns, title, inner)).len();
            read_atom(d, pos, end, w, left) matches Ok((a, next)) && {
                &&& next == end
                &&& a.atom.index == w.index + 1
                &&& a.atom.uid is None
                &&& a.atom.string_uid is None
                &&& a.atom.time_start_ns == start_ns
                &&& a.atom.time_end_ns is None
                &&& !a.atom.hidden
                &&& a.atom.enabled
                &&& a.atom.segment_uuid is None
                &&& a.atom.segment_edition_uid is None
                &&& a.atom.physical_equiv is None
                &&& a.atom.chap_processes.len() == 0
                &&& a.atom.displays.len() == 1
                &&& a.atom.displays[0].string == title
                &&& a.atom.displays[0].language == "eng"@
                &&& a.atom.displays[0].language_bcp47 is None
                &&& a.atom.displays[0].country is None
                &&& a.atom.children.len() == 1
                &&& inner.is_read_as(a.atom.children[0], (w.index + 2) as u32)
                &&& a.walk.index == w.index + 2
                &&& a.walk.uids == w.uids.insert(inner.uid, (w.index + 2) as u32)
            }
        }),
{
    let ps = outer_pieces(start_ns, title, inner);
    let l = (left - 1) as nat;
    let step = chapter_atom_step(d, l);
    let index = next_index(w.index);
    let after = next_index(index);
    let x = chapter_of(inner, after);
    let s0 = AtomState { atom: new_chapter(index), walk: ChapterWalkView { index, ..w } };
    let s1 = AtomState {
        atom: ChapterView { time_start_ns: start_ns, ..s0.atom },
        ..s0
    };
    let s2 = AtomState { atom: outer_chapter(start_ns, title, index), ..s0 };
    let s3 = AtomState {
        atom: ChapterView { children: s2.atom.children.push(x), ..s2.atom },
        walk: ChapterWalkView {
            metadata: w.metadata + chapter_metadata(x),
            index: after,
            uids: w.uids.insert(inner.uid, after),
        },
    };
    let states = seq![s0, s1, s2, s3];
    assert forall|i: int, b: int|
        0 <= i < ps.len() && #[trigger] there(d, ps[i], b) implies step(
        states[i],
        ps[i].header(),
        b,
    ) == Ok::<(AtomState, int), MkvError>((states[i + 1], b + ps[i].header().size)) by {
        reveal(chapter_atom_step);
        if i == 1 {
            lemma_plain_display(d, b, title);
            assert(s1.atom.displays.push(s2.atom.displays[0]) =~= s2.atom.displays);
        } else if i == 2 {
            lemma_atom_says(d, b, inner, s2.walk, l);
        }
    }
    lemma_pieces_read(d, pos, ps, states, step);
}

} // verus!
