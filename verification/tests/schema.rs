//! The table of elements.

use oxideav_mkv::schema::{ebml_supplement, element_def, schema, ElementType, NO_MAX_VER};

#[test]
fn segment_is_a_root() {
    let d = element_def(0x18538067).unwrap();
    assert_eq!(d.name, "Segment");
    assert_eq!(d.path, "\\Segment");
    assert_eq!(d.parent_id, None);
    assert_eq!(d.element_type, ElementType::Master);
    assert!(d.unknown_size_allowed);
    assert!(d.is_mandatory());
    assert!(!d.is_deprecated());
    assert_eq!(d.max_ver_opt(), None);
}

#[test]
fn first_and_last_rows() {
    assert_eq!(element_def(0x80).unwrap().name, "ChapterDisplay");
    assert_eq!(element_def(0x1F43B675).unwrap().name, "Cluster");
}

#[test]
fn details_of_a_row() {
    let d = element_def(0x88).unwrap();
    assert_eq!(d.name, "FlagDefault");
    assert_eq!(d.path, "\\Segment\\Tracks\\TrackEntry\\FlagDefault");
    assert_eq!(d.parent_id, Some(0xAE));
    assert_eq!(d.element_type, ElementType::Uinteger);
    assert_eq!((d.min_occurs, d.max_occurs), (1, Some(1)));
    assert_eq!(d.range, Some("0-1"));
    assert_eq!(d.length, None);
    assert_eq!(d.default, Some("1"));
    assert_eq!((d.min_ver, d.max_ver), (1, NO_MAX_VER));
    assert!(d.webm);
}

#[test]
fn elements_of_the_ebml_header() {
    let d = element_def(0x1A45DFA3).unwrap();
    assert_eq!(d.name, "EBML");
    assert_eq!(d.parent_id, None);
    assert_eq!(element_def(0x4282).unwrap().name, "DocType");
    assert_eq!(element_def(0xBF).unwrap().name, "CRC-32");
    assert_eq!(element_def(0xEC).unwrap().name, "Void");
    assert_eq!(element_def(0x42F2).unwrap().parent_id, Some(0x1A45DFA3));
}

#[test]
fn deprecated_elements() {
    let d = element_def(0x8E).unwrap();
    assert_eq!(d.name, "Slices");
    assert!(d.is_deprecated());
    assert_eq!(d.max_ver_opt(), Some(0));
}

#[test]
fn unknown_elements() {
    assert!(element_def(0).is_none());
    assert!(element_def(0x81).is_none());
    assert!(element_def(u32::MAX).is_none());
}

#[test]
fn all_rows_are_found_under_their_own_id() {
    let mut n = 0;
    let mut masters = 0;
    let ranges = [0x80u32..0x100, 0x4000..0x8000, 0x20_0000..0x40_0000];
    for r in ranges {
        for id in r {
            if let Some(d) = element_def(id) {
                assert_eq!(d.id, id);
                n += 1;
                if d.element_type == ElementType::Master {
                    masters += 1;
                }
                if let Some(p) = d.parent_id {
                    assert_eq!(element_def(p).unwrap().element_type, ElementType::Master);
                }
            }
        }
    }
    for id in [
        0x1043A770u32, 0x114D9B74, 0x1254C367, 0x1549A966, 0x1654AE6B, 0x18538067, 0x1941A469,
        0x1A45DFA3, 0x1C53BB6B, 0x1F43B675,
    ] {
        assert_eq!(element_def(id).unwrap().id, id);
        assert_eq!(element_def(id).unwrap().element_type, ElementType::Master);
        n += 1;
        masters += 1;
    }
    assert_eq!(n, 273);
    assert_eq!(masters, 51);
}

#[test]
fn newest_elements() {
    let new = [0x4520u32, 0x4521, 0x4588, 0x45E4, 0x52F1, 0x63C7];
    for id in 0x4000u32..0x8000 {
        if let Some(d) = element_def(id) {
            assert_eq!(d.min_ver == 5, new.contains(&id));
        }
    }
}

#[test]
fn tables_are_listed() {
    let rows = schema();
    assert_eq!(rows.len(), 262);
    assert_eq!((rows[0].id, rows[0].name), (0x80, "ChapterDisplay"));
    assert_eq!((rows[261].id, rows[261].name), (0x1F43B675, "Cluster"));
    let more = ebml_supplement();
    assert_eq!(more.len(), 11);
    assert_eq!((more[0].id, more[0].name), (0xBF, "CRC-32"));
    for list in [&rows, &more] {
        for i in 0..list.len() {
            assert_eq!(element_def(list[i].id).unwrap().name, list[i].name);
            assert!(i == 0 || list[i - 1].id < list[i].id);
        }
    }
}
