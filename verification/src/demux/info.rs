//! The Info element.

use vstd::prelude::*;
use crate::ebml::{
    left_of, on_float, on_string, on_uint, passed, read_element_header, read_float, read_string,
    read_uint, skip, walk, ElementHeader, Float,
};
use crate::error::MkvError;
use crate::ids;
use crate::date::{format_iso8601, iso8601};
use crate::views::{group_views, read_view, views};

verus! {

broadcast use group_views;

/// What the Info element says, and the metadata gathered so far.
pub struct SegmentInfo {
    /// Nanoseconds per tick; 0 where the document does not say.
    pub timecode_scale: u64,
    /// The duration in ticks.
    pub duration: Float,
    /// Keys and values.
    pub metadata: Vec<(String, String)>,
}

/// The view of a [`SegmentInfo`].
#[verifier::ext_equal]
pub struct InfoView {
    pub timecode_scale: u64,
    pub duration: Float,
    pub metadata: Seq<(Seq<char>, Seq<char>)>,
}

impl View for SegmentInfo {
    type V = InfoView;

    open spec fn view(&self) -> InfoView {
        InfoView {
            timecode_scale: self.timecode_scale,
            duration: self.duration,
            metadata: views(self.metadata@),
        }
    }
}

/// The Unix time of 2001-01-01 00:00:00 UTC.
pub const EPOCH_2001: i64 = 978_307_200;

/// The Unix time of a date element, whose bits are nanoseconds since 2001 as a
/// signed number. Parts of a second are cut off towards 2001.
pub open spec fn date_seconds(bits: u64) -> int {
    if bits < 0x8000_0000_0000_0000 {
        EPOCH_2001 + bits as int / 1_000_000_000
    } else {
        EPOCH_2001 - (0x1_0000_0000_0000_0000 - bits) / 1_000_000_000
    }
}

fn unix_seconds(bits: u64) -> (r: i64)
    ensures
        r == date_seconds(bits),
{
    if bits < 0x8000_0000_0000_0000 {
        EPOCH_2001 + (bits / 1_000_000_000) as i64
    } else {
        let back: u64 = (0xFFFF_FFFF_FFFF_FFFF - bits) + 1;
        EPOCH_2001 - (back / 1_000_000_000) as i64
    }
}

/// What each child of an Info element adds.
pub open spec fn info_step(d: Seq<u8>) -> spec_fn(InfoView, ElementHeader, int) -> Result<
    (InfoView, int),
    MkvError,
> {
    |s: InfoView, h: ElementHeader, b: int|
        if h.id == ids::TIMECODE_SCALE {
            on_uint(d, h, b, |v: u64| InfoView { timecode_scale: v, ..s })
        } else if h.id == ids::DURATION {
            on_float(d, h, b, |v: Float| InfoView { duration: v, ..s })
        } else if h.id == ids::TITLE {
            on_string(
                d,
                h,
                b,
                |v: Seq<char>| if v.len() > 0 {
                    InfoView { metadata: s.metadata.push(("title"@, v)), ..s }
                } else {
                    s
                },
            )
        } else if h.id == ids::MUXING_APP {
            on_string(
                d,
                h,
                b,
                |v: Seq<char>| if v.len() > 0 {
                    InfoView { metadata: s.metadata.push(("muxer"@, v)), ..s }
                } else {
                    s
                },
            )
        } else if h.id == ids::WRITING_APP {
            on_string(
                d,
                h,
                b,
                |v: Seq<char>| if v.len() > 0 {
                    InfoView { metadata: s.metadata.push(("encoder"@, v)), ..s }
                } else {
                    s
                },
            )
        } else if h.id == ids::DATE_UTC {
            if h.size == 8 {
                on_uint(
                    d,
                    h,
                    b,
                    |v: u64| InfoView {
                        metadata: s.metadata.push(("date"@, iso8601(date_seconds(v)))),
                        ..s
                    },
                )
            } else {
                passed(s, b, h.size)
            }
        } else {
            passed(s, b, h.size)
        }
}

/// Reads the children of an Info element into `info`.
pub fn parse_info(
    d: &[u8],
    start: u64,
    end: u64,
    info: SegmentInfo,
) -> (r: Result<(SegmentInfo, u64), MkvError>)
    ensures
        read_view(r) == walk(d@, start as int, end as int, info@, info_step(d@)),
        r matches Ok((_, next)) ==> next >= start,
{
    let mut s: SegmentInfo = info;
    let mut pos: u64 = start;
    let ghost step = info_step(d@);
    while pos < end
        invariant
            step == info_step(d@),
            walk(d@, start as int, end as int, info@, step) == walk(
                d@,
                pos as int,
                end as int,
                s@,
                step,
            ),
            pos >= start,
        decreases left_of(d@, pos as int),
    {
        let h: ElementHeader = read_element_header(d, pos)?;
        let body: u64 = pos + h.header_len;
        if h.id == ids::TIMECODE_SCALE {
            s.timecode_scale = read_uint(d, body, h.size)?;
            pos = body + h.size;
        } else if h.id == ids::DURATION {
            s.duration = read_float(d, body, h.size)?;
            pos = body + h.size;
        } else if h.id == ids::TITLE {
            let v: String = read_string(d, body, h.size)?;
            if !v.as_str().is_empty() {
                s.metadata.push(("title".to_owned(), v));
            }
            pos = body + h.size;
        } else if h.id == ids::MUXING_APP {
            let v: String = read_string(d, body, h.size)?;
            if !v.as_str().is_empty() {
                s.metadata.push(("muxer".to_owned(), v));
            }
            pos = body + h.size;
        } else if h.id == ids::WRITING_APP {
            let v: String = read_string(d, body, h.size)?;
            if !v.as_str().is_empty() {
                s.metadata.push(("encoder".to_owned(), v));
            }
            pos = body + h.size;
        } else if h.id == ids::DATE_UTC {
            if h.size == 8 {
                let v: u64 = read_uint(d, body, 8)?;
                s.metadata.push(("date".to_owned(), format_iso8601(unix_seconds(v))));
                pos = body + 8;
            } else {
                pos = skip(body, h.size)?;
            }
        } else {
            pos = skip(body, h.size)?;
        }
    }
    Ok((s, pos))
}

} // verus!
