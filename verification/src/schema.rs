//! What each element of a Matroska document is: its name, its place, its type and how
//! often it may occur.

pub mod table;

use vstd::prelude::*;
use crate::ids;
use self::table::{
    find_1, find_10, find_11, find_2, find_3, find_4, find_5, find_6, find_7, find_8, find_9,
    find_supplement, ids_1, ids_10, ids_11, ids_2, ids_3, ids_4, ids_5, ids_6, ids_7, ids_8, ids_9,
    lemma_ids_1, lemma_ids_10, lemma_ids_11, lemma_ids_2, lemma_ids_3, lemma_ids_4, lemma_ids_5,
    lemma_ids_6, lemma_ids_7, lemma_ids_8, lemma_ids_9, lemma_supplement_ids, list_1, list_10,
    list_11, list_2, list_3, list_4, list_5, list_6, list_7, list_8, list_9, list_supplement,
    rows_1, rows_10, rows_11, rows_2, rows_3, rows_4, rows_5, rows_6, rows_7, rows_8, rows_9,
    supplement_rows,
};

verus! {

/// The type of an element's value.
#[derive(Clone, Copy, Debug, PartialEq, Eq, Hash, Structural)]
pub enum ElementType {
    /// Other elements.
    Master,
    /// A number, most significant byte first, in at most eight bytes.
    Uinteger,
    /// A signed number in at most eight bytes.
    Integer,
    /// An IEEE float in none, four or eight bytes.
    Float,
    /// Printable ASCII.
    AsciiString,
    /// UTF-8.
    Utf8,
    /// Nanoseconds since the start of 2001, signed, in none or eight bytes.
    Date,
    /// Bytes of any kind.
    Binary,
}

/// The last version of an element that is still current.
pub const NO_MAX_VER: u8 = 0xFF;

/// What an element is.
#[derive(Clone, Copy, Debug)]
pub struct ElementDef {
    /// The ID, marker bits included.
    pub id: u32,
    pub name: &'static str,
    /// The names of the elements around it, from the outermost on, and its own. A `+`
    /// stands in front of one that can hold itself.
    pub path: &'static str,
    /// The ID of the element that holds it. A root has none, nor has an element that can
    /// stand anywhere.
    pub parent_id: Option<u32>,
    pub element_type: ElementType,
    /// How often it has to occur in its parent.
    pub min_occurs: u32,
    /// How often it may occur in its parent, if there is a limit.
    pub max_occurs: Option<u32>,
    /// The values that are allowed.
    pub range: Option<&'static str>,
    /// The lengths that are allowed.
    pub length: Option<&'static str>,
    /// The value of an element that is missing.
    pub default: Option<&'static str>,
    /// The first version that has the element.
    pub min_ver: u8,
    /// The last version that has the element, or [`NO_MAX_VER`].
    pub max_ver: u8,
    /// Whether it can hold itself.
    pub recursive: bool,
    /// Whether a document can repeat it unchanged.
    pub recurring: bool,
    /// Whether its size can be left open.
    pub unknown_size_allowed: bool,
    /// Whether WebM has it.
    pub webm: bool,
}

/// An element. The pairs and triples hold what belongs together: how often it occurs,
/// its values, its versions and its marks.
pub open spec fn row(
    id: u32,
    name: &'static str,
    path: &'static str,
    parent_id: Option<u32>,
    element_type: ElementType,
    occurs: (u32, Option<u32>),
    values: (Option<&'static str>, Option<&'static str>, Option<&'static str>),
    versions: (u8, u8),
    marks: (bool, bool, bool, bool),
) -> ElementDef {
    ElementDef {
        id: id,
        name: name,
        path: path,
        parent_id: parent_id,
        element_type: element_type,
        min_occurs: occurs.0,
        max_occurs: occurs.1,
        range: values.0,
        length: values.1,
        default: values.2,
        min_ver: versions.0,
        max_ver: versions.1,
        recursive: marks.0,
        recurring: marks.1,
        unknown_size_allowed: marks.2,
        webm: marks.3,
    }
}

fn def(
    id: u32,
    name: &'static str,
    path: &'static str,
    parent_id: Option<u32>,
    element_type: ElementType,
    occurs: (u32, Option<u32>),
    values: (Option<&'static str>, Option<&'static str>, Option<&'static str>),
    versions: (u8, u8),
    marks: (bool, bool, bool, bool),
) -> (r: ElementDef)
    ensures
        r == row(
            id,
            name,
            path,
            parent_id,
            element_type,
            occurs,
            values,
            versions,
            marks,
        ),
{
    ElementDef {
        id,
        name,
        path,
        parent_id,
        element_type,
        min_occurs: occurs.0,
        max_occurs: occurs.1,
        range: values.0,
        length: values.1,
        default: values.2,
        min_ver: versions.0,
        max_ver: versions.1,
        recursive: marks.0,
        recurring: marks.1,
        unknown_size_allowed: marks.2,
        webm: marks.3,
    }
}

impl ElementDef {
    /// Whether its parent has to hold it, or a reader to supply its default.
    pub fn is_mandatory(&self) -> (r: bool)
        ensures
            r == (self.min_occurs >= 1),
    {
        self.min_occurs >= 1
    }

    /// Whether the current version no longer has it.
    pub fn is_deprecated(&self) -> (r: bool)
        ensures
            r == (self.max_ver != NO_MAX_VER && self.max_ver < 4),
    {
        self.max_ver != NO_MAX_VER && self.max_ver < 4
    }

    /// The last version that has the element, unless it is current.
    pub fn max_ver_opt(&self) -> (r: Option<u8>)
        ensures
            match r {
                Some(v) => self.max_ver != NO_MAX_VER && v == self.max_ver,
                None => self.max_ver == NO_MAX_VER,
            },
    {
        if self.max_ver == NO_MAX_VER {
            None
        } else {
            Some(self.max_ver)
        }
    }
}

/// The Matroska element with the ID `id`.
pub open spec fn schema_row(id: u32) -> Option<ElementDef> {
    if id <= 0xA5 {
        rows_1(id)
    } else if id <= 0xCB {
        rows_2(id)
    } else if id <= 0xFA {
        rows_3(id)
    } else if id <= 0x450D {
        rows_4(id)
    } else if id <= 0x47E5 {
        rows_5(id)
    } else if id <= 0x54B3 {
        rows_6(id)
    } else if id <= 0x55BD {
        rows_7(id)
    } else if id <= 0x63C3 {
        rows_8(id)
    } else if id <= 0x6DF8 {
        rows_9(id)
    } else if id <= 0x234E7A {
        rows_10(id)
    } else {
        rows_11(id)
    }
}

/// The element with the ID `id`: of Matroska, or else of EBML.
pub open spec fn element_row(id: u32) -> Option<ElementDef> {
    match schema_row(id) {
        Some(r) => Some(r),
        None => supplement_rows(id),
    }
}

fn find_row(id: u32) -> (r: Option<ElementDef>)
    ensures
        r == schema_row(id),
{
    if id <= 0xA5 {
        find_1(id)
    } else if id <= 0xCB {
        find_2(id)
    } else if id <= 0xFA {
        find_3(id)
    } else if id <= 0x450D {
        find_4(id)
    } else if id <= 0x47E5 {
        find_5(id)
    } else if id <= 0x54B3 {
        find_6(id)
    } else if id <= 0x55BD {
        find_7(id)
    } else if id <= 0x63C3 {
        find_8(id)
    } else if id <= 0x6DF8 {
        find_9(id)
    } else if id <= 0x234E7A {
        find_10(id)
    } else {
        find_11(id)
    }
}

/// What the element with the ID `id` is.
pub fn element_def(id: u32) -> (r: Option<ElementDef>)
    ensures
        r == element_row(id),
{
    match find_row(id) {
        Some(r) => Some(r),
        None => find_supplement(id),
    }
}

// ---------------------------------------------------------------------------
// Listing.

/// Whether numbers come in order, each of them once.
pub open spec fn in_order(s: Seq<u32>) -> bool {
    forall|i: int, j: int| 0 <= i < j < s.len() ==> s[i] < s[j]
}

/// The IDs of elements.
pub open spec fn ids_of(rows: Seq<ElementDef>) -> Seq<u32> {
    rows.map_values(|r: ElementDef| r.id)
}

/// The IDs of the Matroska elements, in order.
pub open spec fn schema_ids() -> Seq<u32> {
    ids_1() + ids_2() + ids_3() + ids_4() + ids_5() + ids_6() + ids_7() + ids_8() + ids_9()
        + ids_10() + ids_11()
}

/// Appends the elements with the given IDs.
fn append_rows(out: &mut Vec<ElementDef>, ids: &Vec<u32>)
    requires
        forall|i: int|
            0 <= i < ids@.len() ==> (schema_row(#[trigger] ids@[i]) matches Some(r) && r.id
                == ids@[i]),
        forall|i: int|
            0 <= i < old(out)@.len() ==> schema_row((#[trigger] old(out)@[i]).id) == Some(
                old(out)@[i],
            ),
    ensures
        ids_of(final(out)@) == ids_of(old(out)@) + ids@,
        forall|i: int|
            0 <= i < final(out)@.len() ==> schema_row((#[trigger] final(out)@[i]).id) == Some(
                final(out)@[i],
            ),
{
    let mut k: usize = 0;
    assert(ids@.take(0) =~= Seq::<u32>::empty());
    assert(ids_of(out@) =~= ids_of(old(out)@) + ids@.take(0));
    while k < ids.len()
        invariant
            k <= ids@.len(),
            forall|i: int|
                0 <= i < ids@.len() ==> (schema_row(#[trigger] ids@[i]) matches Some(r) && r.id
                    == ids@[i]),
            forall|i: int|
                0 <= i < out@.len() ==> schema_row((#[trigger] out@[i]).id) == Some(out@[i]),
            ids_of(out@) == ids_of(old(out)@) + ids@.take(k as int),
        decreases ids@.len() - k,
    {
        let ghost before = out@;
        if let Some(r) = find_row(ids[k]) {
            out.push(r);
            assert(ids_of(out@) =~= ids_of(before).push(ids@[k as int]));
        }
        assert(ids@.take(k + 1) =~= ids@.take(k as int).push(ids@[k as int]));
        k = k + 1;
        assert(ids_of(out@) =~= ids_of(old(out)@) + ids@.take(k as int));
    }
    assert(ids@.take(k as int) =~= ids@);
}

/// Whether `s` holds the IDs of the Matroska elements up to `last`.
spec fn lists_up_to(s: Seq<u32>, last: u32) -> bool {
    &&& in_order(s)
    &&& forall|i: int| 0 <= i < s.len() ==> #[trigger] s[i] <= last
    &&& forall|i: int|
        0 <= i < s.len() ==> (schema_row(#[trigger] s[i]) matches Some(r) && r.id == s[i])
    &&& forall|id: u32| id <= last && (#[trigger] schema_row(id)) is Some ==> s.contains(id)
}

proof fn lemma_lists_on(s: Seq<u32>, last: u32, t: Seq<u32>, end: u32)
    requires
        lists_up_to(s, last),
        last <= end,
        in_order(t),
        forall|i: int| 0 <= i < t.len() ==> last < #[trigger] t[i] <= end,
        forall|i: int|
            0 <= i < t.len() ==> (schema_row(#[trigger] t[i]) matches Some(r) && r.id == t[i]),
        forall|id: u32|
            last < id <= end && (#[trigger] schema_row(id)) is Some ==> t.contains(id),
    ensures
        lists_up_to(s + t, end),
{
    let u = s + t;
    assert forall|id: u32| id <= end && (#[trigger] schema_row(id)) is Some implies u.contains(
        id,
    ) by {
        if id <= last {
            let i = choose|i: int| 0 <= i < s.len() && s[i] == id;
            assert(u[i] == id);
        } else {
            let i = choose|i: int| 0 <= i < t.len() && t[i] == id;
            assert(u[s.len() + i] == id);
        }
    }
}

proof fn lemma_schema_ids()
    ensures
        lists_up_to(schema_ids(), u32::MAX),
{
    let none = Seq::<u32>::empty();
    assert(schema_row(0) is None);
    assert(lists_up_to(none, 0));
    lemma_ids_1();
    lemma_lists_on(none, 0, ids_1(), 0xA5);
    let s1 = none + ids_1();
    lemma_ids_2();
    lemma_lists_on(s1, 0xA5, ids_2(), 0xCB);
    let s2 = s1 + ids_2();
    lemma_ids_3();
    lemma_lists_on(s2, 0xCB, ids_3(), 0xFA);
    let s3 = s2 + ids_3();
    lemma_ids_4();
    lemma_lists_on(s3, 0xFA, ids_4(), 0x450D);
    let s4 = s3 + ids_4();
    lemma_ids_5();
    lemma_lists_on(s4, 0x450D, ids_5(), 0x47E5);
    let s5 = s4 + ids_5();
    lemma_ids_6();
    lemma_lists_on(s5, 0x47E5, ids_6(), 0x54B3);
    let s6 = s5 + ids_6();
    lemma_ids_7();
    lemma_lists_on(s6, 0x54B3, ids_7(), 0x55BD);
    let s7 = s6 + ids_7();
    lemma_ids_8();
    lemma_lists_on(s7, 0x55BD, ids_8(), 0x63C3);
    let s8 = s7 + ids_8();
    lemma_ids_9();
    lemma_lists_on(s8, 0x63C3, ids_9(), 0x6DF8);
    let s9 = s8 + ids_9();
    lemma_ids_10();
    lemma_lists_on(s9, 0x6DF8, ids_10(), 0x234E7A);
    let s10 = s9 + ids_10();
    lemma_ids_11();
    lemma_lists_on(s10, 0x234E7A, ids_11(), u32::MAX);
    let s11 = s10 + ids_11();
    assert(s11 =~= schema_ids());
}

/// All Matroska elements, in the order of their IDs.
pub fn schema() -> (r: Vec<ElementDef>)
    ensures
        in_order(ids_of(r@)),
        forall|i: int|
            0 <= i < r@.len() ==> schema_row((#[trigger] r@[i]).id) == Some(r@[i]) && element_row(
                r@[i].id,
            ) == Some(r@[i]),
        forall|id: u32| (#[trigger] schema_row(id)) is Some ==> ids_of(r@).contains(id),
{
    let mut r: Vec<ElementDef> = Vec::new();
    proof {
        lemma_ids_1();
    }
    append_rows(&mut r, &list_1());
    proof {
        lemma_ids_2();
    }
    append_rows(&mut r, &list_2());
    proof {
        lemma_ids_3();
    }
    append_rows(&mut r, &list_3());
    proof {
        lemma_ids_4();
    }
    append_rows(&mut r, &list_4());
    proof {
        lemma_ids_5();
    }
    append_rows(&mut r, &list_5());
    proof {
        lemma_ids_6();
    }
    append_rows(&mut r, &list_6());
    proof {
        lemma_ids_7();
    }
    append_rows(&mut r, &list_7());
    proof {
        lemma_ids_8();
    }
    append_rows(&mut r, &list_8());
    proof {
        lemma_ids_9();
    }
    append_rows(&mut r, &list_9());
    proof {
        lemma_ids_10();
    }
    append_rows(&mut r, &list_10());
    proof {
        lemma_ids_11();
    }
    append_rows(&mut r, &list_11());
    proof {
        lemma_schema_ids();
        assert(ids_of(r@) =~= schema_ids());
    }
    r
}

/// All elements of EBML, in the order of their IDs.
pub fn ebml_supplement() -> (r: Vec<ElementDef>)
    ensures
        in_order(ids_of(r@)),
        forall|i: int|
            0 <= i < r@.len() ==> supplement_rows((#[trigger] r@[i]).id) == Some(r@[i])
                && element_row(r@[i].id) == Some(r@[i]),
        forall|id: u32| (#[trigger] supplement_rows(id)) is Some ==> ids_of(r@).contains(id),
{
    let ids: Vec<u32> = list_supplement();
    let mut r: Vec<ElementDef> = Vec::new();
    let mut k: usize = 0;
    proof {
        lemma_supplement_ids();
    }
    assert(ids@.take(0) =~= Seq::<u32>::empty());
    assert(ids_of(r@) =~= ids@.take(0));
    while k < ids.len()
        invariant
            k <= ids@.len(),
            forall|i: int|
                0 <= i < ids@.len() ==> (supplement_rows(#[trigger] ids@[i]) matches Some(x)
                    && x.id == ids@[i]),
            forall|i: int|
                0 <= i < r@.len() ==> supplement_rows((#[trigger] r@[i]).id) == Some(r@[i]),
            ids_of(r@) == ids@.take(k as int),
        decreases ids@.len() - k,
    {
        let ghost before = r@;
        if let Some(x) = find_supplement(ids[k]) {
            r.push(x);
            assert(ids_of(r@) =~= ids_of(before).push(ids@[k as int]));
        }
        assert(ids@.take(k + 1) =~= ids@.take(k as int).push(ids@[k as int]));
        k = k + 1;
    }
    proof {
        assert(ids@.take(k as int) =~= ids@);
        assert forall|i: int| 0 <= i < r@.len() implies element_row((#[trigger] r@[i]).id) == Some(
            r@[i],
        ) by {
            lemma_supplement_apart(r@[i].id);
        }
    }
    r
}

/// An element of EBML is none of Matroska.
pub proof fn lemma_supplement_apart(id: u32)
    requires
        supplement_rows(id) is Some,
    ensures
        schema_row(id) is None,
{
}

// ---------------------------------------------------------------------------
// Laws.

/// Whether the element with the ID `id` holds other elements.
pub open spec fn is_master(id: u32) -> bool {
    element_row(id) matches Some(r) && r.element_type == ElementType::Master
}

/// The elements that came with the newest version: EditionDisplay, EditionString,
/// EditionLanguageIETF, ChapterSkipType, Emphasis and TagBlockAddIDValue.
pub open spec fn is_new(id: u32) -> bool {
    id == 0x4520 || id == 0x4521 || id == 0x4588 || id == 0x45E4 || id == 0x52F1 || id == 0x63C7
}

/// What holds of every element: it is found under its own ID; its parent is one that
/// holds elements, and none has no parent but the two roots and the two elements that can
/// stand anywhere; what it has to occur it may occur; only chapters and tags hold
/// themselves; only the Segment and the Cluster leave their size open; only elements
/// that hold others do either; and an element is current, or gone after version 4 at the
/// latest.
pub open spec fn row_ok(id: u32, r: ElementDef) -> bool {
    &&& r.id == id
    &&& match r.parent_id {
        Some(p) => is_master(p),
        None => id == ids::SEGMENT || id == ids::EBML_HEADER || id == ids::VOID || id == ids::CRC32,
    }
    &&& match r.max_occurs {
        Some(m) => r.min_occurs <= m,
        None => true,
    }
    &&& r.recursive == (id == ids::CHAPTER_ATOM || id == ids::SIMPLE_TAG)
    &&& r.unknown_size_allowed == (id == ids::SEGMENT || id == ids::CLUSTER)
    &&& r.recursive || r.unknown_size_allowed ==> r.element_type == ElementType::Master
    &&& (r.min_ver == 5) == is_new(id)
    &&& r.min_ver <= 5 && (r.max_ver <= 4 || r.max_ver == NO_MAX_VER)
}

proof fn lemma_parents()
    ensures
        is_master(0x80),
        is_master(0x8E),
        is_master(0x8F),
        is_master(0xA0),
        is_master(0xA6),
        is_master(0xAE),
        is_master(0xB6),
        is_master(0xB7),
        is_master(0xBB),
        is_master(0xC8),
        is_master(0xDB),
        is_master(0xE0),
        is_master(0xE1),
        is_master(0xE2),
        is_master(0xE3),
        is_master(0xE4),
        is_master(0xE8),
        is_master(0xE9),
        is_master(0x41E4),
        is_master(0x4281),
        is_master(0x4520),
        is_master(0x45B9),
        is_master(0x47E7),
        is_master(0x4DBB),
        is_master(0x5034),
        is_master(0x5035),
        is_master(0x55B0),
        is_master(0x55D0),
        is_master(0x5854),
        is_master(0x61A7),
        is_master(0x6240),
        is_master(0x63C0),
        is_master(0x6624),
        is_master(0x67C8),
        is_master(0x6911),
        is_master(0x6924),
        is_master(0x6944),
        is_master(0x6D80),
        is_master(0x7373),
        is_master(0x75A1),
        is_master(0x7670),
        is_master(0x1043A770),
        is_master(0x114D9B74),
        is_master(0x1254C367),
        is_master(0x1549A966),
        is_master(0x1654AE6B),
        is_master(0x18538067),
        is_master(0x1941A469),
        is_master(0x1A45DFA3),
        is_master(0x1C53BB6B),
        is_master(0x1F43B675),
{
}

proof fn lemma_rows_1(id: u32)
    requires
        rows_1(id) is Some,
    ensures
        row_ok(id, rows_1(id)->0),
{
    lemma_parents();
}

proof fn lemma_rows_2(id: u32)
    requires
        rows_2(id) is Some,
    ensures
        row_ok(id, rows_2(id)->0),
{
    lemma_parents();
}

proof fn lemma_rows_3(id: u32)
    requires
        rows_3(id) is Some,
    ensures
        row_ok(id, rows_3(id)->0),
{
    lemma_parents();
}

proof fn lemma_rows_4(id: u32)
    requires
        rows_4(id) is Some,
    ensures
        row_ok(id, rows_4(id)->0),
{
    lemma_parents();
}

proof fn lemma_rows_5(id: u32)
    requires
        rows_5(id) is Some,
    ensures
        row_ok(id, rows_5(id)->0),
{
    lemma_parents();
}

proof fn lemma_rows_6(id: u32)
    requires
        rows_6(id) is Some,
    ensures
        row_ok(id, rows_6(id)->0),
{
    lemma_parents();
}

proof fn lemma_rows_7(id: u32)
    requires
        rows_7(id) is Some,
    ensures
        row_ok(id, rows_7(id)->0),
{
    lemma_parents();
}

proof fn lemma_rows_8(id: u32)
    requires
        rows_8(id) is Some,
    ensures
        row_ok(id, rows_8(id)->0),
{
    lemma_parents();
}

proof fn lemma_rows_9(id: u32)
    requires
        rows_9(id) is Some,
    ensures
        row_ok(id, rows_9(id)->0),
{
    lemma_parents();
}

proof fn lemma_rows_10(id: u32)
    requires
        rows_10(id) is Some,
    ensures
        row_ok(id, rows_10(id)->0),
{
    lemma_parents();
}

proof fn lemma_rows_11(id: u32)
    requires
        rows_11(id) is Some,
    ensures
        row_ok(id, rows_11(id)->0),
{
    lemma_parents();
}

proof fn lemma_supplement_rows(id: u32)
    requires
        supplement_rows(id) is Some,
    ensures
        row_ok(id, supplement_rows(id)->0),
{
    lemma_parents();
}

/// The table is sound: see [`row_ok`].
pub proof fn lemma_element_rows(id: u32)
    ensures
        element_row(id) matches Some(r) ==> row_ok(id, r),
{
    if element_row(id) is Some {
        if schema_row(id) is None {
            lemma_supplement_rows(id);
        } else if id <= 0xA5 {
            lemma_rows_1(id);
        } else if id <= 0xCB {
            lemma_rows_2(id);
        } else if id <= 0xFA {
            lemma_rows_3(id);
        } else if id <= 0x450D {
            lemma_rows_4(id);
        } else if id <= 0x47E5 {
            lemma_rows_5(id);
        } else if id <= 0x54B3 {
            lemma_rows_6(id);
        } else if id <= 0x55BD {
            lemma_rows_7(id);
        } else if id <= 0x63C3 {
            lemma_rows_8(id);
        } else if id <= 0x6DF8 {
            lemma_rows_9(id);
        } else if id <= 0x234E7A {
            lemma_rows_10(id);
        } else {
            lemma_rows_11(id);
        }
    }
}

} // verus!
