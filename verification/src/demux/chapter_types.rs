//! Editions, chapters and their titles and commands.

use vstd::prelude::*;
use crate::views::{group_views, opt_view, views};

verus! {

/// How deep ChapterAtoms may be nested.
pub const MAX_CHAPTER_NESTING: u32 = 64;

/// A set of chapters.
#[derive(Debug, PartialEq)]
pub struct Edition {
    /// The UID, where it is not zero.
    pub uid: Option<u64>,
    /// Whether this is the edition to use.
    pub default: bool,
    /// Whether playing follows the order of the chapters.
    pub ordered: bool,
    /// The chapters, in document order.
    pub chapters: Vec<Chapter>,
}

/// The view of an [`Edition`].
#[verifier::ext_equal]
pub struct EditionView {
    pub uid: Option<u64>,
    pub default: bool,
    pub ordered: bool,
    pub chapters: Seq<ChapterView>,
}

impl View for Edition {
    type V = EditionView;

    open spec fn view(&self) -> EditionView {
        EditionView {
            uid: self.uid,
            default: self.default,
            ordered: self.ordered,
            chapters: chapter_views(self.chapters@),
        }
    }
}

/// A chapter.
#[derive(Debug, PartialEq)]
pub struct Chapter {
    /// The number of the chapter, from 1, a chapter before those nested in it.
    pub index: u32,
    /// The UID, where it is not zero.
    pub uid: Option<u64>,
    pub string_uid: Option<String>,
    /// Where the chapter starts, in nanoseconds.
    pub time_start_ns: u64,
    /// Where the chapter ends, in nanoseconds.
    pub time_end_ns: Option<u64>,
    pub hidden: bool,
    pub enabled: bool,
    pub segment_uuid: Option<Vec<u8>>,
    pub segment_edition_uid: Option<u64>,
    pub physical_equiv: Option<u64>,
    /// The titles.
    pub displays: Vec<ChapterDisplay>,
    /// The commands to run.
    pub chap_processes: Vec<ChapProcess>,
    /// The chapters nested in this one.
    pub children: Vec<Chapter>,
}

/// The view of a [`Chapter`].
#[verifier::ext_equal]
pub struct ChapterView {
    pub index: u32,
    pub uid: Option<u64>,
    pub string_uid: Option<Seq<char>>,
    pub time_start_ns: u64,
    pub time_end_ns: Option<u64>,
    pub hidden: bool,
    pub enabled: bool,
    pub segment_uuid: Option<Seq<u8>>,
    pub segment_edition_uid: Option<u64>,
    pub physical_equiv: Option<u64>,
    pub displays: Seq<ChapterDisplayView>,
    pub chap_processes: Seq<ChapProcessView>,
    pub children: Seq<ChapterView>,
}

/// The view of a chapter.
pub open spec fn chapter_view(c: Chapter) -> ChapterView
    decreases c,
{
    ChapterView {
        index: c.index,
        uid: c.uid,
        string_uid: opt_view(c.string_uid),
        time_start_ns: c.time_start_ns,
        time_end_ns: c.time_end_ns,
        hidden: c.hidden,
        enabled: c.enabled,
        segment_uuid: opt_view(c.segment_uuid),
        segment_edition_uid: c.segment_edition_uid,
        physical_equiv: c.physical_equiv,
        displays: views(c.displays@),
        chap_processes: views(c.chap_processes@),
        children: chapter_views(c.children@),
    }
}

/// The views of chapters.
pub open spec fn chapter_views(s: Seq<Chapter>) -> Seq<ChapterView>
    decreases s,
{
    if s.len() == 0 {
        Seq::empty()
    } else {
        chapter_views(s.drop_last()).push(chapter_view(s.last()))
    }
}

pub broadcast proof fn lemma_chapter_views_push(s: Seq<Chapter>, c: Chapter)
    ensures
        #[trigger] chapter_views(s.push(c)) == chapter_views(s).push(chapter_view(c)),
{
    assert(s.push(c).drop_last() =~= s);
}

/// The view of a chapter, by those of its parts.
pub open spec fn shallow_view(c: Chapter) -> ChapterView {
    ChapterView {
        index: c.index,
        uid: c.uid,
        string_uid: opt_view(c.string_uid),
        time_start_ns: c.time_start_ns,
        time_end_ns: c.time_end_ns,
        hidden: c.hidden,
        enabled: c.enabled,
        segment_uuid: opt_view(c.segment_uuid),
        segment_edition_uid: c.segment_edition_uid,
        physical_equiv: c.physical_equiv,
        displays: views(c.displays@),
        chap_processes: views(c.chap_processes@),
        children: chapter_views(c.children@),
    }
}

impl View for Chapter {
    type V = ChapterView;

    open spec fn view(&self) -> ChapterView {
        chapter_view(*self)
    }
}

/// A chapter without children.
pub open spec fn new_chapter(index: u32) -> ChapterView {
    ChapterView {
        index,
        uid: None,
        string_uid: None,
        time_start_ns: 0,
        time_end_ns: None,
        hidden: false,
        enabled: true,
        segment_uuid: None,
        segment_edition_uid: None,
        physical_equiv: None,
        displays: Seq::empty(),
        chap_processes: Seq::empty(),
        children: Seq::empty(),
    }
}

impl Default for Chapter {
    fn default() -> (c: Chapter)
        ensures
            c@ == new_chapter(0),
    {
        broadcast use group_views;

        let c = Chapter {
            index: 0,
            uid: None,
            string_uid: None,
            time_start_ns: 0,
            time_end_ns: None,
            hidden: false,
            enabled: true,
            segment_uuid: None,
            segment_edition_uid: None,
            physical_equiv: None,
            displays: Vec::new(),
            chap_processes: Vec::new(),
            children: Vec::new(),
        };
        assert(c@ =~= new_chapter(0));
        c
    }
}

/// A title of a chapter.
#[derive(Clone, Debug, PartialEq, Eq)]
pub struct ChapterDisplay {
    pub string: String,
    /// The three-letter language code, `eng` where the document has none.
    pub language: String,
    pub language_bcp47: Option<String>,
    pub country: Option<String>,
}

/// The view of a [`ChapterDisplay`].
#[verifier::ext_equal]
pub struct ChapterDisplayView {
    pub string: Seq<char>,
    pub language: Seq<char>,
    pub language_bcp47: Option<Seq<char>>,
    pub country: Option<Seq<char>>,
}

impl View for ChapterDisplay {
    type V = ChapterDisplayView;

    open spec fn view(&self) -> ChapterDisplayView {
        ChapterDisplayView {
            string: self.string@,
            language: self.language@,
            language_bcp47: opt_view(self.language_bcp47),
            country: opt_view(self.country),
        }
    }
}

/// The commands of one chapter codec.
#[derive(Clone, Debug, PartialEq, Eq)]
pub struct ChapProcess {
    pub codec_id: u64,
    pub private: Option<Vec<u8>>,
    pub commands: Vec<ChapProcessCommand>,
}

/// The view of a [`ChapProcess`].
#[verifier::ext_equal]
pub struct ChapProcessView {
    pub codec_id: u64,
    pub private: Option<Seq<u8>>,
    pub commands: Seq<ChapProcessCommandView>,
}

impl View for ChapProcess {
    type V = ChapProcessView;

    open spec fn view(&self) -> ChapProcessView {
        ChapProcessView {
            codec_id: self.codec_id,
            private: opt_view(self.private),
            commands: views(self.commands@),
        }
    }
}

/// A command, and when to run it.
#[derive(Clone, Debug, PartialEq, Eq)]
pub struct ChapProcessCommand {
    pub time: u64,
    pub data: Vec<u8>,
}

/// The view of a [`ChapProcessCommand`].
#[verifier::ext_equal]
pub struct ChapProcessCommandView {
    pub time: u64,
    pub data: Seq<u8>,
}

impl View for ChapProcessCommand {
    type V = ChapProcessCommandView;

    open spec fn view(&self) -> ChapProcessCommandView {
        ChapProcessCommandView { time: self.time, data: self.data@ }
    }
}

} // verus!
