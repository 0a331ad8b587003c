//! Chapters: editions of named points in time.

use vstd::prelude::*;
use crate::ebml::{
    end_of, left_of, lemma_walk_keeps, on_bytes, on_master, on_string, on_uint, passed, read_bytes,
    read_element_header, read_string, read_uint, skip, walk, ElementHeader,
};
use crate::error::MkvError;
use crate::ids;
use super::chapter_types::{
    lemma_chapter_views_push, new_chapter, shallow_view, ChapProcess, ChapProcessCommand,
    ChapProcessCommandView, ChapProcessView, Chapter, ChapterDisplay, ChapterDisplayView,
    ChapterView, Edition, EditionView, MAX_CHAPTER_NESTING,
};
use crate::text::{decimal, decimal_string, numbered};
use crate::views::{group_views, opt_view, read_view, views};
use std::collections::HashMap;

verus! {

broadcast use {group_views, lemma_chapter_views_push, vstd::std_specs::hash::group_hash_axioms};

/// The children of a ChapterDisplay.
pub struct DisplayParts {
    pub string: Option<String>,
    pub language: Option<String>,
    pub language_bcp47: Option<String>,
    pub country: Option<String>,
}

/// What has been gathered of a ChapterDisplay.
#[verifier::ext_equal]
pub struct DisplayPartsView {
    pub string: Option<Seq<char>>,
    pub language: Option<Seq<char>>,
    pub language_bcp47: Option<Seq<char>>,
    pub country: Option<Seq<char>>,
}

impl View for DisplayParts {
    type V = DisplayPartsView;

    open spec fn view(&self) -> DisplayPartsView {
        DisplayPartsView {
            string: opt_view(self.string),
            language: opt_view(self.language),
            language_bcp47: opt_view(self.language_bcp47),
            country: opt_view(self.country),
        }
    }
}

/// A ChapterDisplay without children.
pub open spec fn empty_display() -> DisplayPartsView {
    DisplayPartsView { string: None, language: None, language_bcp47: None, country: None }
}

/// A ChapProcess without children.
pub open spec fn empty_process() -> ChapProcessView {
    ChapProcessView { codec_id: 0, private: None, commands: Seq::empty() }
}

/// A ChapProcessCommand without children.
pub open spec fn empty_command() -> ChapProcessCommandView {
    ChapProcessCommandView { time: 0, data: Seq::empty() }
}

/// What is gathered across the chapters of a document: their metadata, how many there
/// have been, and which UID belongs to which.
pub struct ChapterWalk {
    pub metadata: Vec<(String, String)>,
    pub index: u32,
    pub uids: HashMap<u64, u32>,
}

/// The view of a [`ChapterWalk`].
#[verifier::ext_equal]
pub struct ChapterWalkView {
    pub metadata: Seq<(Seq<char>, Seq<char>)>,
    pub index: u32,
    pub uids: Map<u64, u32>,
}

impl View for ChapterWalk {
    type V = ChapterWalkView;

    open spec fn view(&self) -> ChapterWalkView {
        ChapterWalkView {
            metadata: views(self.metadata@),
            index: self.index,
            uids: self.uids@,
        }
    }
}

/// What has been gathered of a ChapterAtom.
#[verifier::ext_equal]
pub struct AtomState {
    pub atom: ChapterView,
    pub walk: ChapterWalkView,
}

/// What each child of a ChapterDisplay adds. The first of several strings counts.
pub open spec fn chapter_display_step(
    d: Seq<u8>,
) -> spec_fn(DisplayPartsView, ElementHeader, int) -> Result<
    (DisplayPartsView, int),
    MkvError,
> {
    |s: DisplayPartsView, h: ElementHeader, b: int|
        if h.id == ids::CHAP_STRING {
            on_string(
                d,
                h,
                b,
                |v: Seq<char>| DisplayPartsView {
                    string: if s.string is None { Some(v) } else { s.string },
                    ..s
                },
            )
        } else if h.id == ids::CHAP_LANGUAGE {
            on_string(d, h, b, |v: Seq<char>| DisplayPartsView { language: Some(v), ..s })
        } else if h.id == ids::CHAP_LANGUAGE_BCP47 {
            on_string(d, h, b, |v: Seq<char>| DisplayPartsView { language_bcp47: Some(v), ..s })
        } else if h.id == ids::CHAP_COUNTRY {
            on_string(d, h, b, |v: Seq<char>| DisplayPartsView { country: Some(v), ..s })
        } else {
            passed(s, b, h.size)
        }
}

/// Reads the children of a ChapterDisplay.
fn parse_display_parts(d: &[u8], start: u64, end: u64) -> (r: Result<(DisplayParts, u64), MkvError>)
    ensures
        read_view(r) == walk(
            d@,
            start as int,
            end as int,
            empty_display(),
            chapter_display_step(d@),
        ),
        r matches Ok((_, next)) ==> next >= start,
{
    let mut s: DisplayParts = DisplayParts {
        string: None,
        language: None,
        language_bcp47: None,
        country: None,
    };
    assert(s@ =~= empty_display());
    let mut pos: u64 = start;
    let ghost step = chapter_display_step(d@);
    while pos < end
        invariant
            step == chapter_display_step(d@),
            walk(d@, start as int, end as int, empty_display(), step) == walk(
                d@,
                pos as int,
                end as int,
                s@,
                step,
            ),
            pos >= start,
        decreases left_of(d@, pos as int),
    {
        let h: ElementHeader = read_element_header(d, pos)?;
        let body: u64 = pos + h.header_len;
        if h.id == ids::CHAP_STRING {
            let v: String = read_string(d, body, h.size)?;
            if s.string.is_none() {
                s.string = Some(v);
            }
            pos = body + h.size;
        } else if h.id == ids::CHAP_LANGUAGE {
            s.language = Some(read_string(d, body, h.size)?);
            pos = body + h.size;
        } else if h.id == ids::CHAP_LANGUAGE_BCP47 {
            s.language_bcp47 = Some(read_string(d, body, h.size)?);
            pos = body + h.size;
        } else if h.id == ids::CHAP_COUNTRY {
            s.country = Some(read_string(d, body, h.size)?);
            pos = body + h.size;
        } else {
            pos = skip(body, h.size)?;
        }
    }
    Ok((s, pos))
}

/// The title that the children of a ChapterDisplay make; none without text.
pub open spec fn display_of(p: DisplayPartsView) -> Option<ChapterDisplayView> {
    match p.string {
        Some(s) => if s.len() > 0 {
            Some(
                ChapterDisplayView {
                    string: s,
                    language: match p.language {
                        Some(l) => l,
                        None => "eng"@,
                    },
                    language_bcp47: p.language_bcp47,
                    country: p.country,
                },
            )
        } else {
            None
        },
        None => None,
    }
}

/// The ChapterDisplay whose children start at `start`.
pub open spec fn read_display(d: Seq<u8>, start: int, end: int) -> Result<
    (Option<ChapterDisplayView>, int),
    MkvError,
> {
    match walk(d, start, end, empty_display(), chapter_display_step(d)) {
        Ok((p, next)) => Ok((display_of(p), next)),
        Err(e) => Err(e),
    }
}

/// Reads the ChapterDisplay whose children start at `start`. Gives nothing for one
/// without text.
pub fn parse_chapter_display(d: &[u8], start: u64, end: u64) -> (r: Result<
    (Option<ChapterDisplay>, u64),
    MkvError,
>)
    ensures
        match r {
            Ok((c, next)) => read_display(d@, start as int, end as int) == Ok::<
                (Option<ChapterDisplayView>, int),
                MkvError,
            >((opt_view(c), next as int)) && next >= start,
            Err(e) => read_display(d@, start as int, end as int) == Err::<
                (Option<ChapterDisplayView>, int),
                MkvError,
            >(e),
        },
{
    let (p, next) = parse_display_parts(d, start, end)?;
    match p.string {
        Some(string) => {
            if string.as_str().is_empty() {
                return Ok((None, next));
            }
            let language: String = match p.language {
                Some(l) => l,
                None => "eng".to_owned(),
            };
            Ok(
                (
                    Some(
                        ChapterDisplay {
                            string,
                            language,
                            language_bcp47: p.language_bcp47,
                            country: p.country,
                        },
                    ),
                    next,
                ),
            )
        },
        None => Ok((None, next)),
    }
}

/// What each child of a ChapProcessCommand adds.
pub open spec fn chap_process_command_step(
    d: Seq<u8>,
) -> spec_fn(ChapProcessCommandView, ElementHeader, int) -> Result<
    (ChapProcessCommandView, int),
    MkvError,
> {
    |s: ChapProcessCommandView, h: ElementHeader, b: int|
        if h.id == ids::CHAP_PROCESS_TIME {
            on_uint(d, h, b, |v: u64| ChapProcessCommandView { time: v, ..s })
        } else if h.id == ids::CHAP_PROCESS_DATA {
            on_bytes(d, h, b, |v: Seq<u8>| ChapProcessCommandView { data: v, ..s })
        } else {
            passed(s, b, h.size)
        }
}

/// Reads the children of a ChapProcessCommand.
pub fn parse_chap_process_command(
    d: &[u8],
    start: u64,
    end: u64,
) -> (r: Result<(ChapProcessCommand, u64), MkvError>)
    ensures
        read_view(r) == walk(
            d@,
            start as int,
            end as int,
            empty_command(),
            chap_process_command_step(d@),
        ),
        r matches Ok((_, next)) ==> next >= start,
{
    let mut s: ChapProcessCommand = ChapProcessCommand { time: 0, data: Vec::new() };
    assert(s@ =~= empty_command());
    let mut pos: u64 = start;
    let ghost step = chap_process_command_step(d@);
    while pos < end
        invariant
            step == chap_process_command_step(d@),
            walk(d@, start as int, end as int, empty_command(), step) == walk(
                d@,
                pos as int,
                end as int,
                s@,
                step,
            ),
            pos >= start,
        decreases left_of(d@, pos as int),
    {
        let h: ElementHeader = read_element_header(d, pos)?;
        let body: u64 = pos + h.header_len;
        if h.id == ids::CHAP_PROCESS_TIME {
            s.time = read_uint(d, body, h.size)?;
            pos = body + h.size;
        } else if h.id == ids::CHAP_PROCESS_DATA {
            s.data = read_bytes(d, body, h.size)?;
            pos = body + h.size;
        } else {
            pos = skip(body, h.size)?;
        }
    }
    Ok((s, pos))
}

/// What each child of a ChapProcess adds.
pub open spec fn chap_process_step(
    d: Seq<u8>,
) -> spec_fn(ChapProcessView, ElementHeader, int) -> Result<
    (ChapProcessView, int),
    MkvError,
> {
    |s: ChapProcessView, h: ElementHeader, b: int|
        if h.id == ids::CHAP_PROCESS_CODEC_ID {
            on_uint(d, h, b, |v: u64| ChapProcessView { codec_id: v, ..s })
        } else if h.id == ids::CHAP_PROCESS_PRIVATE {
            on_bytes(d, h, b, |v: Seq<u8>| ChapProcessView { private: Some(v), ..s })
        } else if h.id == ids::CHAP_PROCESS_COMMAND {
            on_master(
                walk(d, b, end_of(b, h.size), empty_command(), chap_process_command_step(d)),
                |c: ChapProcessCommandView| ChapProcessView { commands: s.commands.push(c), ..s },
            )
        } else {
            passed(s, b, h.size)
        }
}

/// Reads the children of a ChapProcess.
pub fn parse_chap_process(
    d: &[u8],
    start: u64,
    end: u64,
) -> (r: Result<(ChapProcess, u64), MkvError>)
    ensures
        read_view(r) == walk(d@, start as int, end as int, empty_process(), chap_process_step(d@)),
        r matches Ok((_, next)) ==> next >= start,
{
    let mut s: ChapProcess = ChapProcess { codec_id: 0, private: None, commands: Vec::new() };
    assert(s@ =~= empty_process());
    let mut pos: u64 = start;
    let ghost step = chap_process_step(d@);
    while pos < end
        invariant
            step == chap_process_step(d@),
            walk(d@, start as int, end as int, empty_process(), step) == walk(
                d@,
                pos as int,
                end as int,
                s@,
                step,
            ),
            pos >= start,
        decreases left_of(d@, pos as int),
    {
        let h: ElementHeader = read_element_header(d, pos)?;
        let body: u64 = pos + h.header_len;
        if h.id == ids::CHAP_PROCESS_CODEC_ID {
            s.codec_id = read_uint(d, body, h.size)?;
            pos = body + h.size;
        } else if h.id == ids::CHAP_PROCESS_PRIVATE {
            s.private = Some(read_bytes(d, body, h.size)?);
            pos = body + h.size;
        } else if h.id == ids::CHAP_PROCESS_COMMAND {
            let (c, next) = parse_chap_process_command(d, body, body.saturating_add(h.size))?;
            s.commands.push(c);
            pos = next;
        } else {
            pos = skip(body, h.size)?;
        }
    }
    Ok((s, pos))
}

/// What each child of a ChapterAtom adds, with room for `left` further levels.
pub open spec fn chapter_atom_step(
    d: Seq<u8>,
    left: nat,
) -> spec_fn(AtomState, ElementHeader, int) -> Result<
    (AtomState, int),
    MkvError,
>
    decreases left, 1int,
{
    |s: AtomState, h: ElementHeader, b: int|
        if h.id == ids::CHAPTER_UID {
            on_uint(
                d,
                h,
                b,
                |v: u64| if v != 0 {
                    AtomState {
                        atom: ChapterView { uid: Some(v), ..s.atom },
                        walk: ChapterWalkView {
                            uids: s.walk.uids.insert(v, s.atom.index),
                            ..s.walk
                        },
                    }
                } else {
                    s
                },
            )
        } else if h.id == ids::CHAPTER_STRING_UID {
            on_string(
                d,
                h,
                b,
                |v: Seq<char>| AtomState {
                    atom: ChapterView { string_uid: Some(v), ..s.atom },
                    ..s
                },
            )
        } else if h.id == ids::CHAPTER_TIME_START {
            on_uint(
                d,
                h,
                b,
                |v: u64| AtomState { atom: ChapterView { time_start_ns: v, ..s.atom }, ..s },
            )
        } else if h.id == ids::CHAPTER_TIME_END {
            on_uint(
                d,
                h,
                b,
                |v: u64| AtomState { atom: ChapterView { time_end_ns: Some(v), ..s.atom }, ..s },
            )
        } else if h.id == ids::CHAPTER_FLAG_HIDDEN {
            on_uint(
                d,
                h,
                b,
                |v: u64| AtomState { atom: ChapterView { hidden: v != 0, ..s.atom }, ..s },
            )
        } else if h.id == ids::CHAPTER_FLAG_ENABLED {
            on_uint(
                d,
                h,
                b,
                |v: u64| AtomState { atom: ChapterView { enabled: v != 0, ..s.atom }, ..s },
            )
        } else if h.id == ids::CHAPTER_SEGMENT_UUID {
            on_bytes(
                d,
                h,
                b,
                |v: Seq<u8>| AtomState {
                    atom: ChapterView { segment_uuid: Some(v), ..s.atom },
                    ..s
                },
            )
        } else if h.id == ids::CHAPTER_SEGMENT_EDITION_UID {
            on_uint(
                d,
                h,
                b,
                |v: u64| if v != 0 {
                    AtomState { atom: ChapterView { segment_edition_uid: Some(v), ..s.atom }, ..s }
                } else {
                    s
                },
            )
        } else if h.id == ids::CHAPTER_PHYSICAL_EQUIV {
            on_uint(
                d,
                h,
                b,
                |v: u64| AtomState { atom: ChapterView { physical_equiv: Some(v), ..s.atom }, ..s },
            )
        } else if h.id == ids::CHAPTER_DISPLAY {
            on_master(
                read_display(d, b, end_of(b, h.size)),
                |v: Option<ChapterDisplayView>| match v {
                    Some(x) => AtomState {
                        atom: ChapterView { displays: s.atom.displays.push(x), ..s.atom },
                        ..s
                    },
                    None => s,
                },
            )
        } else if h.id == ids::CHAP_PROCESS {
            on_master(
                walk(d, b, end_of(b, h.size), empty_process(), chap_process_step(d)),
                |v: ChapProcessView| AtomState {
                    atom: ChapterView { chap_processes: s.atom.chap_processes.push(v), ..s.atom },
                    ..s
                },
            )
        } else if h.id == ids::CHAPTER_ATOM {
            on_master(
                read_atom(d, b, end_of(b, h.size), s.walk, left),
                |c: AtomState| AtomState {
                    atom: ChapterView { children: s.atom.children.push(c.atom), ..s.atom },
                    walk: c.walk,
                },
            )
        } else {
            passed(s, b, h.size)
        }
}

/// The number after `i`.
pub open spec fn next_index(i: u32) -> u32 {
    if i == u32::MAX {
        0
    } else {
        (i + 1) as u32
    }
}

/// The ChapterAtom whose children start at `start`, and what comes with it: its
/// number, and its metadata behind that of the chapters nested in it.
pub open spec fn read_atom(
    d: Seq<u8>,
    start: int,
    end: int,
    w: ChapterWalkView,
    left: nat,
) -> Result<
    (AtomState, int),
    MkvError,
>
    decreases left, 0int,
{
    if left == 0 {
        Err(MkvError::ChapterNesting)
    } else {
        let index = next_index(w.index);
        let init = AtomState { atom: new_chapter(index), walk: ChapterWalkView { index, ..w } };
        match walk(d, start, end, init, chapter_atom_step(d, (left - 1) as nat)) {
            Err(e) => Err(e),
            Ok((s, next)) => Ok(
                (
                    AtomState {
                        atom: s.atom,
                        walk: ChapterWalkView {
                            metadata: s.walk.metadata + chapter_metadata(s.atom),
                            ..s.walk
                        },
                    },
                    next,
                ),
            ),
        }
    }
}

/// How deep chapters are nested in a chapter, itself included.
pub open spec fn depth_of(c: ChapterView) -> nat
    decreases c,
{
    1 + depth_of_all(c.children)
}

/// How deep chapters are nested in any of `s`.
pub open spec fn depth_of_all(s: Seq<ChapterView>) -> nat
    decreases s,
{
    if s.len() == 0 {
        0
    } else {
        let before = depth_of_all(s.drop_last());
        let last = depth_of(s.last());
        if before < last {
            last
        } else {
            before
        }
    }
}

/// The numbers of a chapter and of those nested in it, a chapter before its own.
pub open spec fn numbers_of(c: ChapterView) -> Seq<u32>
    decreases c,
{
    seq![c.index] + numbers_of_all(c.children)
}

/// The numbers of chapters and of those nested in them.
pub open spec fn numbers_of_all(s: Seq<ChapterView>) -> Seq<u32>
    decreases s,
{
    if s.len() == 0 {
        Seq::empty()
    } else {
        numbers_of_all(s.drop_last()) + numbers_of(s.last())
    }
}

/// The number `n` places after `i`; the numbers start again at 0 when they run out.
pub open spec fn index_after(i: u32, n: nat) -> u32 {
    ((i + n) % 0x1_0000_0000) as u32
}

/// Whether `s` are the numbers after `i`, in order.
pub open spec fn counts_from(s: Seq<u32>, i: u32) -> bool {
    forall|k: int| 0 <= k < s.len() ==> #[trigger] s[k] == index_after(i, (k + 1) as nat)
}

/// What holds while the children of a chapter are read.
spec fn atom_keeps(s: AtomState, start: u32, left: nat) -> bool {
    &&& depth_of_all(s.atom.children) <= left
    &&& counts_from(seq![s.atom.index] + numbers_of_all(s.atom.children), start)
    &&& s.walk.index == index_after(start, 1 + numbers_of_all(s.atom.children).len())
}

proof fn lemma_counts_join(a: Seq<u32>, b: Seq<u32>, i: u32)
    requires
        counts_from(a, i),
        counts_from(b, index_after(i, a.len())),
    ensures
        counts_from(a + b, i),
        index_after(i, (a + b).len()) == index_after(index_after(i, a.len()), b.len()),
{
    assert forall|k: int| 0 <= k < (a + b).len() implies #[trigger] (a + b)[k] == index_after(
        i,
        (k + 1) as nat,
    ) by {
        if k < a.len() {
            assert((a + b)[k] == a[k]);
        } else {
            assert((a + b)[k] == b[k - a.len()]);
        }
    }
}

/// A chapter that was read is nested at most as deep as there was room for, and it and
/// those nested in it are numbered in document order.
pub proof fn lemma_atom_numbers(
    d: Seq<u8>,
    start: int,
    end: int,
    w: ChapterWalkView,
    left: nat,
)
    ensures
        read_atom(d, start, end, w, left) matches Ok((s, _)) ==> depth_of(s.atom) <= left
            && counts_from(numbers_of(s.atom), w.index) && s.walk.index == index_after(
            w.index,
            numbers_of(s.atom).len(),
        ),
    decreases left, 0int,
{
    if left > 0 {
        let inner = (left - 1) as nat;
        let index = next_index(w.index);
        let init = AtomState { atom: new_chapter(index), walk: ChapterWalkView { index, ..w } };
        let step = chapter_atom_step(d, inner);
        let inv = |s: AtomState| atom_keeps(s, w.index, inner);
        assert(inv(init)) by {
            assert(numbers_of_all(init.atom.children) =~= Seq::<u32>::empty());
            assert(index == index_after(w.index, 1));
        }
        assert forall|t: AtomState, h: ElementHeader, b: int| inv(t) implies ((#[trigger] step(
            t,
            h,
            b,
        )) matches Ok((u, _)) ==> inv(u)) by {
            lemma_atom_step_keeps(d, t, h, b, w.index, inner);
        }
        lemma_walk_keeps(d, start, end, init, step, inv);
    }
}

proof fn lemma_atom_step_keeps(
    d: Seq<u8>,
    t: AtomState,
    h: ElementHeader,
    b: int,
    start: u32,
    left: nat,
)
    requires
        atom_keeps(t, start, left),
    ensures
        chapter_atom_step(d, left)(t, h, b) matches Ok((u, _)) ==> atom_keeps(u, start, left),
    decreases left, 1int,
{
    if h.id == ids::CHAPTER_ATOM {
        lemma_atom_numbers(d, b, end_of(b, h.size), t.walk, left);
        if let Ok((c, next)) = read_atom(d, b, end_of(b, h.size), t.walk, left) {
            let children = t.atom.children.push(c.atom);
            assert(children.drop_last() =~= t.atom.children);
            let a = seq![t.atom.index] + numbers_of_all(t.atom.children);
            lemma_counts_join(a, numbers_of(c.atom), start);
            assert(seq![t.atom.index] + numbers_of_all(children) =~= a + numbers_of(c.atom));
        }
    }
}

/// The text of the first title with text.
pub open spec fn first_title(s: Seq<ChapterDisplayView>) -> Option<Seq<char>>
    decreases s.len(),
{
    if s.len() == 0 {
        None
    } else if s[0].string.len() > 0 {
        Some(s[0].string)
    } else {
        first_title(s.skip(1))
    }
}

/// The metadata entries of a chapter: start and end in milliseconds, and the title.
pub open spec fn chapter_metadata(c: ChapterView) -> Seq<(Seq<char>, Seq<char>)> {
    let start = seq![
        (
            "chapter:"@ + decimal(c.index as nat) + ":start_ms"@,
            decimal(c.time_start_ns as nat / 1_000_000),
        ),
    ];
    let end = match c.time_end_ns {
        Some(ns) => seq![
            (
                "chapter:"@ + decimal(c.index as nat) + ":end_ms"@,
                decimal(ns as nat / 1_000_000),
            ),
        ],
        None => Seq::empty(),
    };
    let title = match first_title(c.displays) {
        Some(t) => seq![("chapter:"@ + decimal(c.index as nat) + ":title"@, t)],
        None => Seq::empty(),
    };
    start + end + title
}

/// Appends the metadata entries of a chapter.
fn append_chapter_metadata(c: &Chapter, metadata: &mut Vec<(String, String)>)
    ensures
        views(final(metadata)@) == views(old(metadata)@) + chapter_metadata(c@),
{
    metadata.push(
        (numbered("chapter:", c.index, ":start_ms"), decimal_string(c.time_start_ns / 1_000_000)),
    );
    if let Some(ns) = c.time_end_ns {
        metadata.push((numbered("chapter:", c.index, ":end_ms"), decimal_string(ns / 1_000_000)));
    }
    let ghost mid = views(metadata@);
    let mut i: usize = 0;
    let ghost all = views(c.displays@);
    assert(all.skip(0) =~= all);
    while i < c.displays.len() && c.displays[i].string.as_str().is_empty()
        invariant
            i <= c.displays@.len(),
            all == views(c.displays@),
            first_title(all) == first_title(all.skip(i as int)),
        decreases c.displays@.len() - i,
    {
        assert(all.skip(i as int).skip(1) =~= all.skip(i + 1));
        i = i + 1;
    }
    if i < c.displays.len() {
        assert(all.skip(i as int)[0] == c.displays@[i as int]@);
        metadata.push((numbered("chapter:", c.index, ":title"), c.displays[i].string.clone()));
    } else {
        assert(all.skip(i as int).len() == 0);
    }
    assert(views(metadata@) =~= views(old(metadata)@) + chapter_metadata(c@));
}

/// A chapter and what has been gathered with it.
pub struct ParsedAtom {
    pub atom: Chapter,
    pub walk: ChapterWalk,
}

impl View for ParsedAtom {
    type V = AtomState;

    open spec fn view(&self) -> AtomState {
        AtomState { atom: self.atom@, walk: self.walk@ }
    }
}

/// How many levels of chapters there is room for at nesting level `depth`.
pub open spec fn levels_left(depth: u32) -> nat {
    if depth >= MAX_CHAPTER_NESTING {
        0
    } else {
        (MAX_CHAPTER_NESTING - depth) as nat
    }
}

/// Reads the ChapterAtom whose children start at `start`, at nesting level `depth`.
pub fn parse_chapter_atom(d: &[u8], start: u64, end: u64, walk_in: ChapterWalk, depth: u32) -> (r:
    Result<(ParsedAtom, u64), MkvError>)
    ensures
        read_view(r) == read_atom(d@, start as int, end as int, walk_in@, levels_left(depth)),
        r matches Ok((_, next)) ==> next >= start,
    decreases levels_left(depth),
{
    if depth >= MAX_CHAPTER_NESTING {
        return Err(MkvError::ChapterNesting);
    }
    let mut w: ChapterWalk = walk_in;
    let index: u32 = w.index.wrapping_add(1);
    w.index = index;
    let mut s: Chapter = Chapter::default();
    s.index = index;
    let mut pos: u64 = start;
    let ghost left = (MAX_CHAPTER_NESTING - depth - 1) as nat;
    let ghost step = chapter_atom_step(d@, left);
    let ghost init = AtomState {
        atom: new_chapter(index),
        walk: ChapterWalkView { index, ..walk_in@ },
    };
    assert(shallow_view(s) =~= new_chapter(index));
    assert(w@ =~= init.walk);
    while pos < end
        invariant
            step == chapter_atom_step(d@, left),
            walk(d@, start as int, end as int, init, step) == walk(
                d@,
                pos as int,
                end as int,
                (AtomState { atom: shallow_view(s), walk: w@ }),
                step,
            ),
            pos >= start,
            depth < MAX_CHAPTER_NESTING,
            left == MAX_CHAPTER_NESTING - depth - 1,
            s.index == index,
            index == next_index(walk_in@.index),
            init == (AtomState {
                atom: new_chapter(index),
                walk: ChapterWalkView { index, ..walk_in@ },
            }),
        decreases left_of(d@, pos as int),
    {
        let h: ElementHeader = read_element_header(d, pos)?;
        let body: u64 = pos + h.header_len;
        if h.id == ids::CHAPTER_UID {
            let v: u64 = read_uint(d, body, h.size)?;
            if v != 0 {
                w.uids.insert(v, index);
                s.uid = Some(v);
            }
            pos = body + h.size;
        } else if h.id == ids::CHAPTER_STRING_UID {
            s.string_uid = Some(read_string(d, body, h.size)?);
            pos = body + h.size;
        } else if h.id == ids::CHAPTER_TIME_START {
            s.time_start_ns = read_uint(d, body, h.size)?;
            pos = body + h.size;
        } else if h.id == ids::CHAPTER_TIME_END {
            s.time_end_ns = Some(read_uint(d, body, h.size)?);
            pos = body + h.size;
        } else if h.id == ids::CHAPTER_FLAG_HIDDEN {
            let v: u64 = read_uint(d, body, h.size)?;
            s.hidden = v != 0;
            pos = body + h.size;
        } else if h.id == ids::CHAPTER_FLAG_ENABLED {
            let v: u64 = read_uint(d, body, h.size)?;
            s.enabled = v != 0;
            pos = body + h.size;
        } else if h.id == ids::CHAPTER_SEGMENT_UUID {
            s.segment_uuid = Some(read_bytes(d, body, h.size)?);
            pos = body + h.size;
        } else if h.id == ids::CHAPTER_SEGMENT_EDITION_UID {
            let v: u64 = read_uint(d, body, h.size)?;
            if v != 0 {
                s.segment_edition_uid = Some(v);
            }
            pos = body + h.size;
        } else if h.id == ids::CHAPTER_PHYSICAL_EQUIV {
            s.physical_equiv = Some(read_uint(d, body, h.size)?);
            pos = body + h.size;
        } else if h.id == ids::CHAPTER_DISPLAY {
            let (v, next) = parse_chapter_display(d, body, body.saturating_add(h.size))?;
            if let Some(x) = v {
                s.displays.push(x);
            }
            pos = next;
        } else if h.id == ids::CHAP_PROCESS {
            let (v, next) = parse_chap_process(d, body, body.saturating_add(h.size))?;
            s.chap_processes.push(v);
            pos = next;
        } else if h.id == ids::CHAPTER_ATOM {
            let (c, next) = parse_chapter_atom(d, body, body.saturating_add(h.size), w, depth + 1)?;
            s.children.push(c.atom);
            w = c.walk;
            pos = next;
        } else {
            pos = skip(body, h.size)?;
        }
    }
    assert(s@ == shallow_view(s));
    append_chapter_metadata(&s, &mut w.metadata);
    Ok((ParsedAtom { atom: s, walk: w }, pos))
}

/// What has been gathered of an EditionEntry.
#[verifier::ext_equal]
pub struct EditionState {
    pub edition: EditionView,
    pub walk: ChapterWalkView,
    pub edition_uids: Map<u64, u32>,
}

/// What each child of the EditionEntry with the given index adds.
pub open spec fn edition_step(
    d: Seq<u8>,
    index: u32,
) -> spec_fn(EditionState, ElementHeader, int) -> Result<
    (EditionState, int),
    MkvError,
> {
    |s: EditionState, h: ElementHeader, b: int|
        if h.id == ids::EDITION_UID {
            on_uint(
                d,
                h,
                b,
                |v: u64| if v != 0 {
                    EditionState {
                        edition: EditionView { uid: Some(v), ..s.edition },
                        edition_uids: s.edition_uids.insert(v, index),
                        ..s
                    }
                } else {
                    s
                },
            )
        } else if h.id == ids::EDITION_FLAG_DEFAULT {
            on_uint(
                d,
                h,
                b,
                |v: u64| EditionState {
                    edition: EditionView { default: v != 0, ..s.edition },
                    ..s
                },
            )
        } else if h.id == ids::EDITION_FLAG_ORDERED {
            on_uint(
                d,
                h,
                b,
                |v: u64| EditionState {
                    edition: EditionView { ordered: v != 0, ..s.edition },
                    ..s
                },
            )
        } else if h.id == ids::CHAPTER_ATOM {
            on_master(
                read_atom(d, b, end_of(b, h.size), s.walk, MAX_CHAPTER_NESTING as nat),
                |c: AtomState| EditionState {
                    edition: EditionView {
                        chapters: s.edition.chapters.push(c.atom),
                        ..s.edition
                    },
                    walk: c.walk,
                    ..s
                },
            )
        } else {
            passed(s, b, h.size)
        }
}

/// An edition and what has been gathered with it.
pub struct ParsedEdition {
    pub edition: Edition,
    pub walk: ChapterWalk,
    pub edition_uids: HashMap<u64, u32>,
}

impl View for ParsedEdition {
    type V = EditionState;

    open spec fn view(&self) -> EditionState {
        EditionState {
            edition: self.edition@,
            walk: self.walk@,
            edition_uids: self.edition_uids@,
        }
    }
}

/// An EditionEntry without children.
pub open spec fn empty_edition() -> EditionView {
    EditionView { uid: None, default: false, ordered: false, chapters: Seq::empty() }
}

/// The EditionEntry whose children start at `start`.
pub open spec fn read_edition(
    d: Seq<u8>,
    start: int,
    end: int,
    w: ChapterWalkView,
    index: u32,
    edition_uids: Map<u64, u32>,
) -> Result<(EditionState, int), MkvError> {
    walk(
        d,
        start,
        end,
        EditionState { edition: empty_edition(), walk: w, edition_uids },
        edition_step(d, index),
    )
}

/// Reads the EditionEntry whose children start at `start`.
pub fn parse_edition_entry(
    d: &[u8],
    start: u64,
    end: u64,
    walk_in: ChapterWalk,
    index: u32,
    edition_uids: HashMap<u64, u32>,
) -> (r: Result<(ParsedEdition, u64), MkvError>)
    ensures
        read_view(r) == read_edition(
            d@,
            start as int,
            end as int,
            walk_in@,
            index,
            edition_uids@,
        ),
        r matches Ok((_, next)) ==> next >= start,
{
    let mut w: ChapterWalk = walk_in;
    let mut u: HashMap<u64, u32> = edition_uids;
    let mut s = Edition { uid: None, default: false, ordered: false, chapters: Vec::new() };
    let mut pos: u64 = start;
    let ghost step = edition_step(d@, index);
    let ghost init = EditionState {
        edition: empty_edition(),
        walk: walk_in@,
        edition_uids: edition_uids@,
    };
    assert(s@ =~= empty_edition());
    while pos < end
        invariant
            step == edition_step(d@, index),
            walk(d@, start as int, end as int, init, step) == walk(
                d@,
                pos as int,
                end as int,
                (EditionState { edition: s@, walk: w@, edition_uids: u@ }),
                step,
            ),
            pos >= start,
            init == (EditionState {
                edition: empty_edition(),
                walk: walk_in@,
                edition_uids: edition_uids@,
            }),
        decreases left_of(d@, pos as int),
    {
        let h: ElementHeader = read_element_header(d, pos)?;
        let body: u64 = pos + h.header_len;
        if h.id == ids::EDITION_UID {
            let v: u64 = read_uint(d, body, h.size)?;
            if v != 0 {
                u.insert(v, index);
                s.uid = Some(v);
            }
            pos = body + h.size;
        } else if h.id == ids::EDITION_FLAG_DEFAULT {
            let v: u64 = read_uint(d, body, h.size)?;
            s.default = v != 0;
            pos = body + h.size;
        } else if h.id == ids::EDITION_FLAG_ORDERED {
            let v: u64 = read_uint(d, body, h.size)?;
            s.ordered = v != 0;
            pos = body + h.size;
        } else if h.id == ids::CHAPTER_ATOM {
            let (c, next) = parse_chapter_atom(d, body, body.saturating_add(h.size), w, 0)?;
            s.chapters.push(c.atom);
            w = c.walk;
            pos = next;
        } else {
            pos = skip(body, h.size)?;
        }
    }
    Ok((ParsedEdition { edition: s, walk: w, edition_uids: u }, pos))
}

/// What has been gathered of the chapters of a document.
#[verifier::ext_equal]
pub struct ChaptersState {
    pub editions: Seq<EditionView>,
    pub metadata: Seq<(Seq<char>, Seq<char>)>,
    pub chapter_uids: Map<u64, u32>,
    pub edition_uids: Map<u64, u32>,
}

/// What has been gathered of one Chapters element, and the numbers given out in it.
#[verifier::ext_equal]
pub struct ChaptersWalk {
    pub state: ChaptersState,
    pub chapter_index: u32,
    pub edition_index: u32,
}

/// What each child of a Chapters element adds.
pub open spec fn chapters_step(d: Seq<u8>) -> spec_fn(ChaptersWalk, ElementHeader, int) -> Result<
    (ChaptersWalk, int),
    MkvError,
> {
    |s: ChaptersWalk, h: ElementHeader, b: int|
        if h.id == ids::EDITION_ENTRY {
            let index = next_index(s.edition_index);
            on_master(
                read_edition(
                    d,
                    b,
                    end_of(b, h.size),
                    ChapterWalkView {
                        metadata: s.state.metadata,
                        index: s.chapter_index,
                        uids: s.state.chapter_uids,
                    },
                    index,
                    s.state.edition_uids,
                ),
                |e: EditionState|
                    ChaptersWalk {
                        state: ChaptersState {
                            editions: s.state.editions.push(e.edition),
                            metadata: e.walk.metadata,
                            chapter_uids: e.walk.uids,
                            edition_uids: e.edition_uids,
                        },
                        chapter_index: e.walk.index,
                        edition_index: index,
                    },
            )
        } else {
            passed(s, b, h.size)
        }
}

/// The Chapters element whose children start at `start`, behind what `s` holds.
/// Chapters and editions are numbered from 1 in it.
pub open spec fn read_chapters(d: Seq<u8>, start: int, end: int, s: ChaptersState) -> Result<
    (ChaptersState, int),
    MkvError,
> {
    match walk(
        d,
        start,
        end,
        ChaptersWalk { state: s, chapter_index: 0, edition_index: 0 },
        chapters_step(d),
    ) {
        Ok((w, next)) => Ok((w.state, next)),
        Err(e) => Err(e),
    }
}

/// What holds while the children of an edition are read.
spec fn edition_keeps(s: EditionState, start: u32) -> bool {
    &&& depth_of_all(s.edition.chapters) <= MAX_CHAPTER_NESTING
    &&& counts_from(numbers_of_all(s.edition.chapters), start)
    &&& s.walk.index == index_after(start, numbers_of_all(s.edition.chapters).len())
}

/// The chapters of an edition that was read are nested no deeper than they may be, and
/// numbered in document order.
pub proof fn lemma_edition_numbers(
    d: Seq<u8>,
    start: int,
    end: int,
    w: ChapterWalkView,
    index: u32,
    edition_uids: Map<u64, u32>,
)
    ensures
        read_edition(d, start, end, w, index, edition_uids) matches Ok((s, _)) ==> depth_of_all(
            s.edition.chapters,
        ) <= MAX_CHAPTER_NESTING && counts_from(numbers_of_all(s.edition.chapters), w.index)
            && s.walk.index == index_after(w.index, numbers_of_all(s.edition.chapters).len()),
{
    let init = EditionState { edition: empty_edition(), walk: w, edition_uids };
    let step = edition_step(d, index);
    let inv = |s: EditionState| edition_keeps(s, w.index);
    assert(inv(init)) by {
        assert(numbers_of_all(init.edition.chapters) =~= Seq::<u32>::empty());
    }
    assert forall|t: EditionState, h: ElementHeader, b: int| inv(t) implies ((#[trigger] step(
        t,
        h,
        b,
    )) matches Ok((u, _)) ==> inv(u)) by {
        if h.id == ids::CHAPTER_ATOM {
            let left = MAX_CHAPTER_NESTING as nat;
            lemma_atom_numbers(d, b, end_of(b, h.size), t.walk, left);
            if let Ok((c, next)) = read_atom(d, b, end_of(b, h.size), t.walk, left) {
                let chapters = t.edition.chapters.push(c.atom);
                assert(chapters.drop_last() =~= t.edition.chapters);
                lemma_counts_join(
                    numbers_of_all(t.edition.chapters),
                    numbers_of(c.atom),
                    w.index,
                );
            }
        }
    }
    lemma_walk_keeps(d, start, end, init, step, inv);
}

/// The chapters of a document and what comes with them.
pub struct ParsedChapters {
    pub editions: Vec<Edition>,
    pub metadata: Vec<(String, String)>,
    pub chapter_uids: HashMap<u64, u32>,
    pub edition_uids: HashMap<u64, u32>,
}

impl View for ParsedChapters {
    type V = ChaptersState;

    open spec fn view(&self) -> ChaptersState {
        ChaptersState {
            editions: views(self.editions@),
            metadata: views(self.metadata@),
            chapter_uids: self.chapter_uids@,
            edition_uids: self.edition_uids@,
        }
    }
}

/// Reads the children of a Chapters element behind what `parsed` holds.
pub fn parse_chapters_typed(d: &[u8], start: u64, end: u64, parsed: ParsedChapters) -> (r: Result<
    (ParsedChapters, u64),
    MkvError,
>)
    ensures
        read_view(r) == read_chapters(d@, start as int, end as int, parsed@),
        r matches Ok((_, next)) ==> next >= start,
{
    let mut s: ParsedChapters = parsed;
    let mut chapter_index: u32 = 0;
    let mut edition_index: u32 = 0;
    let mut pos: u64 = start;
    let ghost step = chapters_step(d@);
    let ghost init = ChaptersWalk { state: parsed@, chapter_index: 0, edition_index: 0 };
    while pos < end
        invariant
            step == chapters_step(d@),
            walk(d@, start as int, end as int, init, step) == walk(
                d@,
                pos as int,
                end as int,
                (ChaptersWalk { state: s@, chapter_index, edition_index }),
                step,
            ),
            pos >= start,
            init == (ChaptersWalk { state: parsed@, chapter_index: 0, edition_index: 0 }),
        decreases left_of(d@, pos as int),
    {
        let h: ElementHeader = read_element_header(d, pos)?;
        let body: u64 = pos + h.header_len;
        if h.id == ids::EDITION_ENTRY {
            edition_index = edition_index.wrapping_add(1);
            let w = ChapterWalk {
                metadata: s.metadata,
                index: chapter_index,
                uids: s.chapter_uids,
            };
            let (e, next) = parse_edition_entry(
                d,
                body,
                body.saturating_add(h.size),
                w,
                edition_index,
                s.edition_uids,
            )?;
            let mut editions: Vec<Edition> = s.editions;
            editions.push(e.edition);
            chapter_index = e.walk.index;
            s =
            ParsedChapters {
                editions,
                metadata: e.walk.metadata,
                chapter_uids: e.walk.uids,
                edition_uids: e.edition_uids,
            };
            pos = next;
        } else {
            pos = skip(body, h.size)?;
        }
    }
    Ok((s, pos))
}

} // verus!
