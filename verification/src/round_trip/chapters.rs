//! Chapters that were written are read back.

use vstd::prelude::*;
use super::elements::{
    header, holds, lemma_crc_read, lemma_element_read, lemma_holds_split, lemma_string_read,
    lemma_uint_read, lemma_walk_step, no_nul, MAX_LEN,
};
use crate::demux::chapter_types::{
    new_chapter, ChapterDisplayView, ChapterView, EditionView, MAX_CHAPTER_NESTING,
};
use crate::demux::chapters::{
    chapter_atom_step, chapter_display_step, chapter_metadata, chapters_step, edition_step,
    empty_display, empty_edition, next_index, read_atom, read_chapters, read_display, read_edition,
    AtomState, ChapterWalkView, ChaptersState, ChaptersWalk, DisplayPartsView, EditionState,
};
use crate::ebml::{crc32, uint_at, walk, ElementHeader};
use crate::error::MkvError;
use crate::ids;
use crate::mux::chapters::{
    atom_body, atoms, chapters_body, display_body, displays, MkvChapterView, EDITION_UID_DEFAULT,
};
use crate::write::{crc_element, element, le_bytes4, string_element, uint_element, uint_len};

verus! {

// ---------------------------------------------------------------------------
// Titles.

/// Whether a title has no zero characters.
pub open spec fn display_plain(d: crate::mux::chapters::ChapterDisplayView) -> bool {
    no_nul(d.title) && no_nul(d.language) && (d.country matches Some(c) ==> no_nul(c))
}

/// What is read of a title that was written.
pub open spec fn display_read(d: crate::mux::chapters::ChapterDisplayView) -> Option<
    ChapterDisplayView,
> {
    if d.title.len() > 0 {
        Some(
            ChapterDisplayView {
                string: d.title,
                language: d.language,
                language_bcp47: None,
                country: d.country,
            },
        )
    } else {
        None
    }
}

/// What is read of titles that were written: those with text.
pub open spec fn displays_read(ds: Seq<crate::mux::chapters::ChapterDisplayView>) -> Seq<
    ChapterDisplayView,
>
    decreases ds.len(),
{
    if ds.len() == 0 {
        Seq::empty()
    } else {
        match display_read(ds.last()) {
            Some(x) => displays_read(ds.drop_last()).push(x),
            None => displays_read(ds.drop_last()),
        }
    }
}

/// A title that was written is read back.
proof fn lemma_display_read(d: Seq<u8>, pos: int, x: crate::mux::chapters::ChapterDisplayView)
    requires
        holds(d, pos, display_body(x)),
        d.len() <= MAX_LEN,
        display_plain(x),
    ensures
        read_display(d, pos, pos + display_body(x).len()) == Ok::<
            (Option<ChapterDisplayView>, int),
            MkvError,
        >((display_read(x), pos + display_body(x).len())),
{
    let end = pos + display_body(x).len();
    let step = chapter_display_step(d);
    let a = string_element(ids::CHAP_STRING, x.title);
    let b = string_element(ids::CHAP_LANGUAGE, x.language);
    let c = match x.country {
        Some(c) => string_element(ids::CHAP_COUNTRY, c),
        None => Seq::empty(),
    };
    lemma_holds_split(d, pos, a + b, c);
    lemma_holds_split(d, pos, a, b);
    let p1 = pos + a.len();
    let p2 = p1 + b.len();
    let s0 = empty_display();
    let s1 = DisplayPartsView { string: Some(x.title), ..s0 };
    let s2 = DisplayPartsView { language: Some(x.language), ..s1 };
    let s3 = DisplayPartsView { country: x.country, ..s2 };
    assert(walk(d, pos, end, s0, step) == walk(d, p1, end, s1, step)) by {
        lemma_string_read(d, pos, ids::CHAP_STRING, x.title);
    }
    assert(walk(d, p1, end, s1, step) == walk(d, p2, end, s2, step)) by {
        lemma_string_read(d, p1, ids::CHAP_LANGUAGE, x.language);
    }
    assert(walk(d, p2, end, s2, step) == walk(d, end, end, s3, step)) by {
        if let Some(c) = x.country {
            lemma_string_read(d, p2, ids::CHAP_COUNTRY, c);
        }
    }
}

/// ChapterDisplays from the one with index `k` on.
spec fn displays_from(ds: Seq<crate::mux::chapters::ChapterDisplayView>, k: int) -> Seq<u8>
    decreases ds.len() - k,
{
    if k < 0 || k >= ds.len() {
        Seq::empty()
    } else {
        element(ids::CHAPTER_DISPLAY, display_body(ds[k])) + displays_from(ds, k + 1)
    }
}

proof fn lemma_displays_from(ds: Seq<crate::mux::chapters::ChapterDisplayView>, k: int)
    requires
        0 <= k <= ds.len(),
    ensures
        displays(ds.take(k)) + displays_from(ds, k) == displays(ds),
    decreases ds.len() - k,
{
    if k == ds.len() {
        assert(ds.take(k) =~= ds);
        assert(displays(ds) + Seq::<u8>::empty() =~= displays(ds));
    } else {
        lemma_displays_from(ds, k + 1);
        assert(ds.take(k + 1).drop_last() =~= ds.take(k));
        let e = element(ids::CHAPTER_DISPLAY, display_body(ds[k]));
        assert(displays(ds.take(k)) + (e + displays_from(ds, k + 1)) =~= displays(ds.take(k)) + e
            + displays_from(ds, k + 1));
    }
}

// ---------------------------------------------------------------------------
// Chapters.

/// Whether no title of a chapter has zero characters.
pub open spec fn chapter_plain(c: MkvChapterView) -> bool {
    forall|i: int| 0 <= i < c.display.len() ==> display_plain(#[trigger] c.display[i])
}

/// Whether no title has zero characters.
pub open spec fn chapters_plain(cs: Seq<MkvChapterView>) -> bool {
    forall|i: int| 0 <= i < cs.len() ==> chapter_plain(#[trigger] cs[i])
}

/// The number of the chapter with index `k`, from 1.
pub open spec fn number_of(k: int) -> u32 {
    ((k + 1) % 0x1_0000_0000) as u32
}

/// What is read of a chapter that was written with the UID `uid`.
pub open spec fn chapter_read(index: u32, uid: u64, c: MkvChapterView) -> ChapterView {
    ChapterView {
        uid: if uid != 0 {
            Some(uid)
        } else {
            None
        },
        time_start_ns: c.time_start_ns,
        time_end_ns: c.time_end_ns,
        displays: displays_read(c.display),
        ..new_chapter(index)
    }
}

/// What the numbers of a ChapterAtom add.
proof fn lemma_atom_uint_step(
    d: Seq<u8>,
    left: nat,
    s: AtomState,
    h: ElementHeader,
    b: int,
    v: u64,
)
    requires
        uint_at(d, b, h.size) == Ok::<u64, MkvError>(v),
    ensures
        h.id == ids::CHAPTER_UID && v != 0 ==> chapter_atom_step(d, left)(s, h, b) == Ok::<
            (AtomState, int),
            MkvError,
        >(
            (
                AtomState {
                    atom: ChapterView { uid: Some(v), ..s.atom },
                    walk: ChapterWalkView {
                        uids: s.walk.uids.insert(v, s.atom.index),
                        ..s.walk
                    },
                },
                b + h.size,
            ),
        ),
        h.id == ids::CHAPTER_TIME_START ==> chapter_atom_step(d, left)(s, h, b) == Ok::<
            (AtomState, int),
            MkvError,
        >((AtomState { atom: ChapterView { time_start_ns: v, ..s.atom }, ..s }, b + h.size)),
        h.id == ids::CHAPTER_TIME_END ==> chapter_atom_step(d, left)(s, h, b) == Ok::<
            (AtomState, int),
            MkvError,
        >((AtomState { atom: ChapterView { time_end_ns: Some(v), ..s.atom }, ..s }, b + h.size)),
{
    reveal(chapter_atom_step);
}

/// What a title adds to a ChapterAtom.
proof fn lemma_atom_display_step(
    d: Seq<u8>,
    left: nat,
    s: AtomState,
    h: ElementHeader,
    b: int,
    x: crate::mux::chapters::ChapterDisplayView,
)
    requires
        holds(d, b, display_body(x)),
        d.len() <= MAX_LEN,
        display_plain(x),
        h.size == display_body(x).len(),
        h.id == ids::CHAPTER_DISPLAY,
    ensures
        chapter_atom_step(d, left)(s, h, b) == Ok::<(AtomState, int), MkvError>(
            (
                match display_read(x) {
                    Some(y) => AtomState {
                        atom: ChapterView { displays: s.atom.displays.push(y), ..s.atom },
                        ..s
                    },
                    None => s,
                },
                b + h.size,
            ),
        ),
{
    reveal(chapter_atom_step);
    lemma_display_read(d, b, x);
}

/// The state of a walk over a ChapterAtom with the first `k` titles.
spec fn with_displays(s: AtomState, c: MkvChapterView, k: int) -> AtomState {
    AtomState {
        atom: ChapterView { displays: displays_read(c.display.take(k)), ..s.atom },
        ..s
    }
}

proof fn lemma_displays_read(
    d: Seq<u8>,
    pos: int,
    left: nat,
    s: AtomState,
    c: MkvChapterView,
    k: int,
)
    requires
        0 <= k <= c.display.len(),
        holds(d, pos, displays_from(c.display, k)),
        d.len() <= MAX_LEN,
        chapter_plain(c),
    ensures
        walk(
            d,
            pos,
            pos + displays_from(c.display, k).len(),
            with_displays(s, c, k),
            chapter_atom_step(d, left),
        ) == Ok::<(AtomState, int), MkvError>(
            (
                with_displays(s, c, c.display.len() as int),
                pos + displays_from(c.display, k).len(),
            ),
        ),
    decreases c.display.len() - k,
{
    if k < c.display.len() {
        let x = c.display[k];
        let body = display_body(x);
        let e = element(ids::CHAPTER_DISPLAY, body);
        let rest = displays_from(c.display, k + 1);
        let end = pos + displays_from(c.display, k).len();
        assert(display_plain(c.display[k]));
        lemma_holds_split(d, pos, e, rest);
        lemma_element_read(d, pos, ids::CHAPTER_DISPLAY, body);
        let h = header(ids::CHAPTER_DISPLAY, body.len());
        lemma_atom_display_step(d, left, with_displays(s, c, k), h, pos + h.header_len, x);
        assert(c.display.take(k + 1).drop_last() =~= c.display.take(k));
        lemma_walk_step(
            d,
            pos,
            end,
            with_displays(s, c, k),
            chapter_atom_step(d, left),
            h,
            with_displays(s, c, k + 1),
            pos + e.len(),
        );
        lemma_displays_read(d, pos + e.len(), left, s, c, k + 1);
    }
}

/// A number of a ChapterAtom is read back.
proof fn lemma_atom_uint(
    d: Seq<u8>,
    pos: int,
    end: int,
    left: nat,
    s: AtomState,
    id: u32,
    v: u64,
)
    requires
        holds(d, pos, uint_element(id, v)),
        pos + uint_element(id, v).len() <= end,
        d.len() <= MAX_LEN,
        id == ids::CHAPTER_UID && v != 0 || id == ids::CHAPTER_TIME_START || id
            == ids::CHAPTER_TIME_END,
    ensures
        ({
            let t = if id == ids::CHAPTER_UID {
                AtomState {
                    atom: ChapterView { uid: Some(v), ..s.atom },
                    walk: ChapterWalkView { uids: s.walk.uids.insert(v, s.atom.index), ..s.walk },
                }
            } else if id == ids::CHAPTER_TIME_START {
                AtomState { atom: ChapterView { time_start_ns: v, ..s.atom }, ..s }
            } else {
                AtomState { atom: ChapterView { time_end_ns: Some(v), ..s.atom }, ..s }
            };
            walk(d, pos, end, s, chapter_atom_step(d, left)) == walk(
                d,
                pos + uint_element(id, v).len(),
                end,
                t,
                chapter_atom_step(d, left),
            )
        }),
{
    lemma_uint_read(d, pos, id, v);
    let h = header(id, uint_len(v));
    lemma_atom_uint_step(d, left, s, h, pos + h.header_len, v);
}

/// What is gathered across chapters, with one more.
pub open spec fn walked(w: ChapterWalkView, uid: u64, c: ChapterView) -> ChapterWalkView {
    ChapterWalkView {
        metadata: w.metadata + chapter_metadata(c),
        index: c.index,
        uids: w.uids.insert(uid, c.index),
    }
}

/// The state at the start of a ChapterAtom.
spec fn atom_start(index: u32, w: ChapterWalkView) -> AtomState {
    AtomState { atom: new_chapter(index), walk: ChapterWalkView { index, ..w } }
}

/// The state of a walk over a ChapterAtom behind its numbers.
spec fn after_numbers(index: u32, w: ChapterWalkView, uid: u64, c: MkvChapterView) -> AtomState {
    AtomState {
        atom: ChapterView {
            uid: Some(uid),
            time_start_ns: c.time_start_ns,
            time_end_ns: c.time_end_ns,
            ..new_chapter(index)
        },
        walk: ChapterWalkView { index, uids: w.uids.insert(uid, index), ..w },
    }
}

/// The numbers of a ChapterAtom, one after the other.
spec fn atom_numbers(uid: u64, c: MkvChapterView) -> Seq<u8> {
    uint_element(ids::CHAPTER_UID, uid) + uint_element(ids::CHAPTER_TIME_START, c.time_start_ns) + (
    match c.time_end_ns {
        Some(end) => uint_element(ids::CHAPTER_TIME_END, end),
        None => Seq::empty(),
    })
}

/// The numbers of a ChapterAtom are read back.
#[verifier::rlimit(60)]
proof fn lemma_numbers_read(
    d: Seq<u8>,
    pos: int,
    end: int,
    left: nat,
    index: u32,
    w: ChapterWalkView,
    uid: u64,
    c: MkvChapterView,
)
    requires
        holds(d, pos, atom_numbers(uid, c)),
        pos + atom_numbers(uid, c).len() <= end,
        d.len() <= MAX_LEN,
        uid != 0,
    ensures
        walk(d, pos, end, atom_start(index, w), chapter_atom_step(d, left)) == walk(
            d,
            pos + atom_numbers(uid, c).len(),
            end,
            after_numbers(index, w, uid, c),
            chapter_atom_step(d, left),
        ),
{
    let s0 = atom_start(index, w);
    let a = uint_element(ids::CHAPTER_UID, uid);
    let b = uint_element(ids::CHAPTER_TIME_START, c.time_start_ns);
    let e = match c.time_end_ns {
        Some(x) => uint_element(ids::CHAPTER_TIME_END, x),
        None => Seq::empty(),
    };
    lemma_holds_split(d, pos, a + b, e);
    lemma_holds_split(d, pos, a, b);
    let p1 = pos + a.len();
    let p2 = p1 + b.len();
    let s1 = AtomState {
        atom: ChapterView { uid: Some(uid), ..s0.atom },
        walk: ChapterWalkView { uids: w.uids.insert(uid, index), ..s0.walk },
    };
    let s2 = AtomState { atom: ChapterView { time_start_ns: c.time_start_ns, ..s1.atom }, ..s1 };
    lemma_atom_uint(d, pos, end, left, s0, ids::CHAPTER_UID, uid);
    lemma_atom_uint(d, p1, end, left, s1, ids::CHAPTER_TIME_START, c.time_start_ns);
    if let Some(x) = c.time_end_ns {
        lemma_atom_uint(d, p2, end, left, s2, ids::CHAPTER_TIME_END, x);
    }
}

/// The children of a ChapterAtom are read back.
proof fn lemma_atom_read(
    d: Seq<u8>,
    pos: int,
    left: nat,
    index: u32,
    w: ChapterWalkView,
    uid: u64,
    c: MkvChapterView,
)
    requires
        holds(d, pos, atom_body(uid, c)),
        d.len() <= MAX_LEN,
        chapter_plain(c),
        uid != 0,
    ensures
        walk(
            d,
            pos,
            pos + atom_body(uid, c).len(),
            atom_start(index, w),
            chapter_atom_step(d, left),
        ) == Ok::<(AtomState, int), MkvError>(
            (
                AtomState {
                    atom: chapter_read(index, uid, c),
                    walk: ChapterWalkView { index, uids: w.uids.insert(uid, index), ..w },
                },
                pos + atom_body(uid, c).len(),
            ),
        ),
{
    let end = pos + atom_body(uid, c).len();
    let a = atom_numbers(uid, c);
    let f = displays(c.display);
    lemma_holds_split(d, pos, a, f);
    lemma_numbers_read(d, pos, end, left, index, w, uid, c);
    let s3 = after_numbers(index, w, uid, c);
    lemma_displays_from(c.display, 0);
    assert(c.display.take(0) =~= Seq::<crate::mux::chapters::ChapterDisplayView>::empty());
    assert(displays(c.display.take(0)) + displays_from(c.display, 0) =~= displays_from(
        c.display,
        0,
    ));
    assert(with_displays(s3, c, 0) =~= s3);
    lemma_displays_read(d, pos + a.len(), left, s3, c, 0);
    assert(c.display.take(c.display.len() as int) =~= c.display);
    assert(with_displays(s3, c, c.display.len() as int).atom =~= chapter_read(index, uid, c));
}

/// A chapter that was written is read back.
proof fn lemma_chapter_read(
    d: Seq<u8>,
    pos: int,
    left: nat,
    w: ChapterWalkView,
    uid: u64,
    c: MkvChapterView,
)
    requires
        holds(d, pos, atom_body(uid, c)),
        d.len() <= MAX_LEN,
        chapter_plain(c),
        uid != 0,
        left > 0,
    ensures
        ({
            let x = chapter_read(next_index(w.index), uid, c);
            read_atom(d, pos, pos + atom_body(uid, c).len(), w, left) == Ok::<
                (AtomState, int),
                MkvError,
            >(
                (
                    AtomState { atom: x, walk: walked(w, uid, x) },
                    pos + atom_body(uid, c).len(),
                ),
            )
        }),
{
    lemma_atom_read(d, pos, (left - 1) as nat, next_index(w.index), w, uid, c);
}

/// ChapterAtoms from the one with index `k` on.
spec fn atoms_from(cs: Seq<MkvChapterView>, k: int) -> Seq<u8>
    decreases cs.len() - k,
{
    if k < 0 || k >= cs.len() {
        Seq::empty()
    } else {
        element(ids::CHAPTER_ATOM, atom_body((k + 1) as u64, cs[k])) + atoms_from(cs, k + 1)
    }
}

proof fn lemma_atoms_from(cs: Seq<MkvChapterView>, k: int)
    requires
        0 <= k <= cs.len(),
    ensures
        atoms(cs.take(k)) + atoms_from(cs, k) == atoms(cs),
    decreases cs.len() - k,
{
    if k == cs.len() {
        assert(cs.take(k) =~= cs);
        assert(atoms(cs) + Seq::<u8>::empty() =~= atoms(cs));
    } else {
        lemma_atoms_from(cs, k + 1);
        assert(cs.take(k + 1).drop_last() =~= cs.take(k));
        let e = element(ids::CHAPTER_ATOM, atom_body((k + 1) as u64, cs[k]));
        assert(atoms(cs.take(k)) + (e + atoms_from(cs, k + 1)) =~= atoms(cs.take(k)) + e
            + atoms_from(cs, k + 1));
    }
}

/// What is read of chapters that were written.
pub open spec fn chapters_read(cs: Seq<MkvChapterView>) -> Seq<ChapterView> {
    Seq::new(cs.len(), |i: int| chapter_read(number_of(i), (i + 1) as u64, cs[i]))
}

/// What is gathered across the first `k` chapters that were written.
pub open spec fn walked_over(w: ChapterWalkView, cs: Seq<MkvChapterView>, k: int) -> ChapterWalkView
    decreases k,
{
    if k <= 0 {
        w
    } else {
        walked(walked_over(w, cs, k - 1), k as u64, chapters_read(cs)[k - 1])
    }
}

/// The state of a walk over the edition with the first `k` chapters.
spec fn edition_with(
    w: ChapterWalkView,
    uids: Map<u64, u32>,
    cs: Seq<MkvChapterView>,
    k: int,
) -> EditionState {
    EditionState {
        edition: EditionView {
            uid: Some(EDITION_UID_DEFAULT),
            chapters: chapters_read(cs).take(k),
            ..empty_edition()
        },
        walk: walked_over(w, cs, k),
        edition_uids: uids.insert(EDITION_UID_DEFAULT, 1),
    }
}

proof fn lemma_walked_index(w: ChapterWalkView, cs: Seq<MkvChapterView>, k: int)
    requires
        0 <= k <= cs.len(),
        w.index == 0,
    ensures
        walked_over(w, cs, k).index == (k % 0x1_0000_0000) as u32,
        next_index(walked_over(w, cs, k).index) == number_of(k),
{
}

/// What a chapter adds to an EditionEntry.
proof fn lemma_edition_atom_step(
    d: Seq<u8>,
    s: EditionState,
    h: ElementHeader,
    b: int,
    uid: u64,
    c: MkvChapterView,
)
    requires
        holds(d, b, atom_body(uid, c)),
        d.len() <= MAX_LEN,
        chapter_plain(c),
        uid != 0,
        h.size == atom_body(uid, c).len(),
        h.id == ids::CHAPTER_ATOM,
    ensures
        ({
            let x = chapter_read(next_index(s.walk.index), uid, c);
            edition_step(d, 1)(s, h, b) == Ok::<(EditionState, int), MkvError>(
                (
                    EditionState {
                        edition: EditionView {
                            chapters: s.edition.chapters.push(x),
                            ..s.edition
                        },
                        walk: walked(s.walk, uid, x),
                        ..s
                    },
                    b + h.size,
                ),
            )
        }),
{
    lemma_chapter_read(d, b, MAX_CHAPTER_NESTING as nat, s.walk, uid, c);
}

#[verifier::rlimit(60)]

proof fn lemma_atoms_read(
    d: Seq<u8>,
    pos: int,
    w: ChapterWalkView,
    uids: Map<u64, u32>,
    cs: Seq<MkvChapterView>,
    k: int,
)
    requires
        0 <= k <= cs.len() <= MAX_LEN,
        w.index == 0,
        holds(d, pos, atoms_from(cs, k)),
        d.len() <= MAX_LEN,
        chapters_plain(cs),
    ensures
        walk(
            d,
            pos,
            pos + atoms_from(cs, k).len(),
            edition_with(w, uids, cs, k),
            edition_step(d, 1),
        ) == Ok::<(EditionState, int), MkvError>(
            (edition_with(w, uids, cs, cs.len() as int), pos + atoms_from(cs, k).len()),
        ),
    decreases cs.len() - k,
{
    if k < cs.len() {
        let uid = (k + 1) as u64;
        let body = atom_body(uid, cs[k]);
        let e = element(ids::CHAPTER_ATOM, body);
        let rest = atoms_from(cs, k + 1);
        let end = pos + atoms_from(cs, k).len();
        assert(chapter_plain(cs[k]));
        lemma_holds_split(d, pos, e, rest);
        lemma_element_read(d, pos, ids::CHAPTER_ATOM, body);
        let h = header(ids::CHAPTER_ATOM, body.len());
        let s = edition_with(w, uids, cs, k);
        lemma_walked_index(w, cs, k);
        lemma_edition_atom_step(d, s, h, pos + h.header_len, uid, cs[k]);
        let all = chapters_read(cs);
        assert(all[k] == chapter_read(number_of(k), uid, cs[k]));
        assert(all.take(k).push(all[k]) =~= all.take(k + 1));
        lemma_walk_step(
            d,
            pos,
            end,
            s,
            edition_step(d, 1),
            h,
            edition_with(w, uids, cs, k + 1),
            pos + e.len(),
        );
        lemma_atoms_read(d, pos + e.len(), w, uids, cs, k + 1);
    }
}

/// The state with the chapters that were written behind it.
pub open spec fn with_chapters(s: ChaptersState, cs: Seq<MkvChapterView>) -> ChaptersState {
    let w = ChapterWalkView { metadata: s.metadata, index: 0, uids: s.chapter_uids };
    let end = walked_over(w, cs, cs.len() as int);
    ChaptersState {
        editions: s.editions.push(
            EditionView {
                uid: Some(EDITION_UID_DEFAULT),
                default: false,
                ordered: false,
                chapters: chapters_read(cs),
            },
        ),
        metadata: end.metadata,
        chapter_uids: end.uids,
        edition_uids: s.edition_uids.insert(EDITION_UID_DEFAULT, 1),
    }
}

/// The edition that was written is read back.
proof fn lemma_edition_read(
    d: Seq<u8>,
    pos: int,
    w: ChapterWalkView,
    uids: Map<u64, u32>,
    cs: Seq<MkvChapterView>,
)
    requires
        holds(d, pos, uint_element(ids::EDITION_UID, EDITION_UID_DEFAULT) + atoms(cs)),
        d.len() <= MAX_LEN,
        chapters_plain(cs),
        cs.len() <= MAX_LEN,
        w.index == 0,
    ensures
        ({
            let end = pos + (uint_element(ids::EDITION_UID, EDITION_UID_DEFAULT) + atoms(cs)).len();
            read_edition(d, pos, end, w, 1, uids) == Ok::<(EditionState, int), MkvError>(
                (edition_with(w, uids, cs, cs.len() as int), end),
            )
        }),
{
    let a = uint_element(ids::EDITION_UID, EDITION_UID_DEFAULT);
    let end = pos + (a + atoms(cs)).len();
    lemma_holds_split(d, pos, a, atoms(cs));
    lemma_uint_read(d, pos, ids::EDITION_UID, EDITION_UID_DEFAULT);
    let s0 = EditionState { edition: empty_edition(), walk: w, edition_uids: uids };
    let s1 = edition_with(w, uids, cs, 0);
    assert(chapters_read(cs).take(0) =~= Seq::<ChapterView>::empty());
    let h = header(ids::EDITION_UID, uint_len(EDITION_UID_DEFAULT));
    lemma_walk_step(d, pos, end, s0, edition_step(d, 1), h, s1, pos + a.len());
    lemma_atoms_from(cs, 0);
    assert(cs.take(0) =~= Seq::<MkvChapterView>::empty());
    assert(atoms(cs.take(0)) + atoms_from(cs, 0) =~= atoms_from(cs, 0));
    lemma_atoms_read(d, pos + a.len(), w, uids, cs, 0);
}

/// The chapters that were written are read back, behind the checksum.
pub proof fn lemma_chapters_read(d: Seq<u8>, pos: int, s: ChaptersState, cs: Seq<MkvChapterView>)
    requires
        holds(d, pos, crc_element(chapters_body(cs)) + chapters_body(cs)),
        d.len() <= MAX_LEN,
        chapters_plain(cs),
        cs.len() <= MAX_LEN,
    ensures
        read_chapters(d, pos, pos + 6 + chapters_body(cs).len(), s) == Ok::<
            (ChaptersState, int),
            MkvError,
        >((with_chapters(s, cs), pos + 6 + chapters_body(cs).len())),
{
    let body = chapters_body(cs);
    let end = pos + 6 + body.len();
    let step = chapters_step(d);
    lemma_crc_read(d, pos, ids::CHAPTERS, body);
    lemma_holds_split(d, pos, crc_element(body), body);
    lemma_element_read(d, pos, ids::CRC32, le_bytes4(crc32(body)));
    let s0 = ChaptersWalk { state: s, chapter_index: 0, edition_index: 0 };
    lemma_walk_step(d, pos, end, s0, step, header(ids::CRC32, 4), s0, pos + 6);
    let inner = uint_element(ids::EDITION_UID, EDITION_UID_DEFAULT) + atoms(cs);
    lemma_element_read(d, pos + 6, ids::EDITION_ENTRY, inner);
    let h = header(ids::EDITION_ENTRY, inner.len());
    let w = ChapterWalkView { metadata: s.metadata, index: 0, uids: s.chapter_uids };
    lemma_edition_read(d, pos + 6 + h.header_len, w, s.edition_uids, cs);
    assert(chapters_read(cs).take(cs.len() as int) =~= chapters_read(cs));
    let s1 = ChaptersWalk {
        state: with_chapters(s, cs),
        chapter_index: walked_over(w, cs, cs.len() as int).index,
        edition_index: 1,
    };
    lemma_walk_step(d, pos + 6, end, s0, step, h, s1, end);
}

} // verus!
