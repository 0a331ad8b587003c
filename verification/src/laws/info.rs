//! What the Info of a document says.

use vstd::prelude::*;
use super::pieces::{all_plain, leads, lemma_pieces_read, pieces, there, Piece};
use crate::date::{civil_time, iso8601, lemma_civil_exists, CivilTime};
use crate::demux::info::{date_seconds, info_step, InfoView};
use crate::ebml::{
    be_bytes, be_value, lemma_be_bytes_len, lemma_be_round_trip, lemma_pow256_values, walk, Float,
};
use crate::error::MkvError;
use crate::ids;
use crate::round_trip::elements::{holds, no_nul, MAX_LEN};

verus! {

/// The 64 bits of the signed number `n`.
pub open spec fn bits_of(n: int) -> u64 {
    if n < 0 {
        (n + 0x1_0000_0000_0000_0000) as u64
    } else {
        n as u64
    }
}

/// Whether the Unix time `u` is that of a date `n` nanoseconds after the start of 2001, with
/// the part of a second between the two cut off. Dates grow with `n`.
pub open spec fn is_date(u: int, n: int) -> bool {
    let since = u - 978_307_200;
    if n >= 0 {
        since * 1_000_000_000 <= n < (since + 1) * 1_000_000_000
    } else {
        (since - 1) * 1_000_000_000 < n <= since * 1_000_000_000
    }
}

/// The Unix time behind a date lies as many seconds from 2001 as the date says, later for
/// later dates.
pub proof fn lemma_date_counts(n: int, m: int)
    requires
        i64::MIN <= n <= m <= i64::MAX,
    ensures
        is_date(date_seconds(bits_of(n)), n),
        date_seconds(bits_of(n)) <= date_seconds(bits_of(m)),
{
}

/// What the metadata call the date `n` nanoseconds after the start of 2001: the spelling of a
/// day and a time of the calendar that lie as far from 1970 as that date does.
pub open spec fn spells_date(t: Seq<char>, n: int) -> bool {
    exists|c: CivilTime|
        #![trigger c.text()]
        c.valid() && is_date(c.unix_seconds(), n) && t == c.text()
}

/// The children of an Info.
pub open spec fn info_pieces(
    scale: u64,
    duration: u64,
    title: Seq<char>,
    muxer: Seq<char>,
    writer: Seq<char>,
    date: int,
) -> Seq<Piece> {
    seq![
        Piece::Number(ids::TIMECODE_SCALE, scale),
        Piece::Real(ids::DURATION, duration),
        Piece::Text(ids::TITLE, title),
        Piece::Text(ids::MUXING_APP, muxer),
        Piece::Text(ids::WRITING_APP, writer),
        Piece::Bytes(ids::DATE_UTC, be_bytes(bits_of(date) as nat, 8)),
    ]
}

/// What is read of the Info with all its children: the length of a tick, the duration in
/// ticks, and under their keys the title, the programs and the date.
#[verifier::rlimit(40)]
pub proof fn lemma_info_says(
    d: Seq<u8>,
    pos: int,
    scale: u64,
    duration: u64,
    title: Seq<char>,
    muxer: Seq<char>,
    writer: Seq<char>,
    date: int,
)
    requires
        holds(d, pos, pieces(info_pieces(scale, duration, title, muxer, writer, date))),
        d.len() <= MAX_LEN,
        no_nul(title) && title.len() > 0,
        no_nul(muxer) && muxer.len() > 0,
        no_nul(writer) && writer.len() > 0,
        i64::MIN <= date <= i64::MAX,
    ensures
        ({
            let ps = info_pieces(scale, duration, title, muxer, writer, date);
            let init = InfoView {
                timecode_scale: 0,
                duration: Float::Double(0),
                metadata: Seq::empty(),
            };
            walk(d, pos, pos + pieces(ps).len(), init, info_step(d)) matches Ok((i, next)) && {
                &&& next == pos + pieces(ps).len()
                &&& i.timecode_scale == scale
                &&& i.duration == Float::Double(duration)
                &&& i.metadata.len() == 4
                &&& i.metadata[0] == ("title"@, title)
                &&& i.metadata[1] == ("muxer"@, muxer)
                &&& i.metadata[2] == ("encoder"@, writer)
                &&& i.metadata[3].0 == "date"@
                &&& spells_date(i.metadata[3].1, date)
            }
        }),
{
    let ps = info_pieces(scale, duration, title, muxer, writer, date);
    let s0 = InfoView { timecode_scale: 0, duration: Float::Double(0), metadata: Seq::empty() };
    let s1 = InfoView { timecode_scale: scale, ..s0 };
    let s2 = InfoView { duration: Float::Double(duration), ..s1 };
    let s3 = InfoView { metadata: s2.metadata.push(("title"@, title)), ..s2 };
    let s4 = InfoView { metadata: s3.metadata.push(("muxer"@, muxer)), ..s3 };
    let s5 = InfoView { metadata: s4.metadata.push(("encoder"@, writer)), ..s4 };
    let u = date_seconds(bits_of(date));
    let s6 = InfoView { metadata: s5.metadata.push(("date"@, iso8601(u))), ..s5 };
    let states = seq![s0, s1, s2, s3, s4, s5, s6];
    assert(all_plain(ps));
    assert(leads(d, ps, 0, states, info_step(d))) by {
        let bits = bits_of(date);
        lemma_pow256_values();
        lemma_be_round_trip(bits as nat, 8);
        lemma_be_bytes_len(bits as nat, 8);
        assert forall|i: int, b: int|
            0 <= i < ps.len() && #[trigger] there(d, ps[i], b) implies info_step(d)(
            states[i],
            ps[i].header(),
            b,
        ) == Ok::<(InfoView, int), MkvError>((states[i + 1], b + ps[i].header().size)) by {
            if i == 5 {
                assert(be_value(be_bytes(bits as nat, 8)) == bits);
            }
        }
    }
    lemma_pieces_read(d, pos, ps, states, info_step(d));
    lemma_date_counts(date, date);
    lemma_civil_exists(u);
    let c = civil_time(u);
    assert(c.text() == iso8601(u));
}

} // verus!
