//! Chapters that are to be written.

use vstd::prelude::*;
use crate::ids;
use crate::views::{group_views, opt_view, views};
use crate::write::{
    crc_master, element, string_element, uint_element, write_crc_master_element,
    write_master_element, write_string_element, write_uint_element,
};

verus! {

broadcast use group_views;

/// A chapter, with times in nanoseconds.
#[derive(Clone, Debug, Default)]
pub struct MkvChapter {
    pub time_start_ns: u64,
    /// The end, if there is one to write.
    pub time_end_ns: Option<u64>,
    /// The chapter's titles.
    pub display: Vec<ChapterDisplay>,
}

/// A chapter's title in one language.
#[derive(Clone, Debug)]
pub struct ChapterDisplay {
    pub title: String,
    /// The three-letter code of the language; `und` where there is none.
    pub language: String,
    /// The code of the country, if there is one to write.
    pub country: Option<String>,
}

/// The view of an [`MkvChapter`].
#[verifier::ext_equal]
pub struct MkvChapterView {
    pub time_start_ns: u64,
    pub time_end_ns: Option<u64>,
    pub display: Seq<ChapterDisplayView>,
}

/// The view of a [`ChapterDisplay`].
#[verifier::ext_equal]
pub struct ChapterDisplayView {
    pub title: Seq<char>,
    pub language: Seq<char>,
    pub country: Option<Seq<char>>,
}

impl View for ChapterDisplay {
    type V = ChapterDisplayView;

    open spec fn view(&self) -> ChapterDisplayView {
        ChapterDisplayView {
            title: self.title@,
            language: self.language@,
            country: opt_view(self.country),
        }
    }
}

impl View for MkvChapter {
    type V = MkvChapterView;

    open spec fn view(&self) -> MkvChapterView {
        MkvChapterView {
            time_start_ns: self.time_start_ns,
            time_end_ns: self.time_end_ns,
            display: views(self.display@),
        }
    }
}

impl ChapterDisplay {
    /// An empty title in no language in particular, whichever is given, without a country.
    pub fn untitled_in(_language: String) -> (r: Self)
        ensures
            r@ == (ChapterDisplayView {
                title: Seq::empty(),
                language: "und"@,
                country: None,
            }),
    {
        let r: ChapterDisplay = ChapterDisplay {
            title: String::new(),
            language: "und".to_owned(),
            country: None,
        };
        assert(r.title@ =~= Seq::<char>::empty());
        r
    }
}

/// The UID of the edition that holds the chapters.
pub const EDITION_UID_DEFAULT: u64 = 1;

/// The children of a ChapterDisplay.
pub open spec fn display_body(d: ChapterDisplayView) -> Seq<u8> {
    string_element(ids::CHAP_STRING, d.title) + string_element(ids::CHAP_LANGUAGE, d.language) + (
    match d.country {
        Some(c) => string_element(ids::CHAP_COUNTRY, c),
        None => Seq::empty(),
    })
}

/// ChapterDisplays, one after the other.
pub open spec fn displays(ds: Seq<ChapterDisplayView>) -> Seq<u8>
    decreases ds.len(),
{
    if ds.len() == 0 {
        Seq::empty()
    } else {
        displays(ds.drop_last()) + element(ids::CHAPTER_DISPLAY, display_body(ds.last()))
    }
}

/// The children of a ChapterAtom.
pub open spec fn atom_body(uid: u64, c: MkvChapterView) -> Seq<u8> {
    uint_element(ids::CHAPTER_UID, uid) + uint_element(ids::CHAPTER_TIME_START, c.time_start_ns) + (
    match c.time_end_ns {
        Some(end) => uint_element(ids::CHAPTER_TIME_END, end),
        None => Seq::empty(),
    }) + displays(c.display)
}

/// ChapterAtoms, one after the other, with the UIDs from 1.
pub open spec fn atoms(cs: Seq<MkvChapterView>) -> Seq<u8>
    decreases cs.len(),
{
    if cs.len() == 0 {
        Seq::empty()
    } else {
        atoms(cs.drop_last()) + element(
            ids::CHAPTER_ATOM,
            atom_body(cs.len() as u64, cs.last()),
        )
    }
}

/// The children of the Chapters: one edition.
pub open spec fn chapters_body(cs: Seq<MkvChapterView>) -> Seq<u8> {
    element(
        ids::EDITION_ENTRY,
        uint_element(ids::EDITION_UID, EDITION_UID_DEFAULT) + atoms(cs),
    )
}

/// The Chapters.
pub open spec fn chapters_element(cs: Seq<MkvChapterView>) -> Seq<u8> {
    crc_master(ids::CHAPTERS, chapters_body(cs))
}

/// Builds the children of a ChapterAtom.
pub fn build_chapter_atom(uid: u64, chapter: &MkvChapter) -> (r: Vec<u8>)
    ensures
        r@ == atom_body(uid, chapter@),
{
    let mut body: Vec<u8> = Vec::new();
    write_uint_element(&mut body, ids::CHAPTER_UID, uid);
    write_uint_element(&mut body, ids::CHAPTER_TIME_START, chapter.time_start_ns);
    if let Some(end) = chapter.time_end_ns {
        write_uint_element(&mut body, ids::CHAPTER_TIME_END, end);
    }
    let ghost head = body@;
    let ghost all = chapter@.display;
    assert(all.take(0) =~= Seq::<ChapterDisplayView>::empty());
    assert(head + displays(all.take(0)) =~= head);
    let mut i: usize = 0;
    while i < chapter.display.len()
        invariant
            i <= chapter.display@.len(),
            all == views(chapter.display@),
            body@ == head + displays(all.take(i as int)),
        decreases chapter.display@.len() - i,
    {
        let d: &ChapterDisplay = &chapter.display[i];
        let mut inner: Vec<u8> = Vec::new();
        write_string_element(&mut inner, ids::CHAP_STRING, d.title.as_str());
        write_string_element(&mut inner, ids::CHAP_LANGUAGE, d.language.as_str());
        if let Some(c) = &d.country {
            write_string_element(&mut inner, ids::CHAP_COUNTRY, c.as_str());
        }
        assert(inner@ =~= display_body(d@));
        write_master_element(&mut body, ids::CHAPTER_DISPLAY, &inner);
        assert(all.take(i + 1).drop_last() =~= all.take(i as int));
        assert(body@ =~= head + displays(all.take(i + 1)));
        i = i + 1;
    }
    assert(all.take(i as int) =~= all);
    assert(body@ =~= atom_body(uid, chapter@));
    body
}

/// Builds the Chapters.
pub fn build_chapters_element(chapters: &Vec<MkvChapter>) -> (r: Vec<u8>)
    ensures
        r@ == chapters_element(views(chapters@)),
{
    let mut edition: Vec<u8> = Vec::new();
    write_uint_element(&mut edition, ids::EDITION_UID, EDITION_UID_DEFAULT);
    let ghost head = edition@;
    let ghost all = views(chapters@);
    assert(all.take(0) =~= Seq::<MkvChapterView>::empty());
    assert(head + atoms(all.take(0)) =~= head);
    let mut i: usize = 0;
    while i < chapters.len()
        invariant
            i <= chapters@.len(),
            all == views(chapters@),
            edition@ == head + atoms(all.take(i as int)),
        decreases chapters@.len() - i,
    {
        let atom: Vec<u8> = build_chapter_atom(i as u64 + 1, &chapters[i]);
        write_master_element(&mut edition, ids::CHAPTER_ATOM, &atom);
        assert(all.take(i + 1).drop_last() =~= all.take(i as int));
        assert(edition@ =~= head + atoms(all.take(i + 1)));
        i = i + 1;
    }
    assert(all.take(i as int) =~= all);
    assert(edition@ =~= uint_element(ids::EDITION_UID, EDITION_UID_DEFAULT) + atoms(all));
    let mut body: Vec<u8> = Vec::new();
    write_master_element(&mut body, ids::EDITION_ENTRY, &edition);
    assert(body@ =~= chapters_body(all));
    let mut out: Vec<u8> = Vec::new();
    write_crc_master_element(&mut out, ids::CHAPTERS, &body);
    assert(out@ =~= chapters_element(all));
    out
}

} // verus!
