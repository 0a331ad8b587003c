//! Elements in a row, as a writer of any kind puts them down.

use vstd::prelude::*;
use vstd::utf8::encode_utf8;
use crate::ebml::{
    bytes_at, end_of, float_at, header_at, string_at, uint_at, walk, ElementHeader, Float,
};
use crate::error::MkvError;
use crate::round_trip::elements::{
    header, holds, is_id, lemma_element_read, lemma_float_read, lemma_holds_split,
    lemma_string_read, lemma_uint_read, lemma_walk_step, no_nul, MAX_LEN,
};
use crate::write::{element, float_element, string_element, uint_element, uint_len};

verus! {

/// An element: its ID and its value.
pub enum Piece {
    Number(u32, u64),
    Text(u32, Seq<char>),
    Bytes(u32, Seq<u8>),
    Real(u32, u64),
}

impl Piece {
    pub open spec fn id(self) -> u32 {
        match self {
            Piece::Number(id, _) => id,
            Piece::Text(id, _) => id,
            Piece::Bytes(id, _) => id,
            Piece::Real(id, _) => id,
        }
    }

    /// The element as a document holds it.
    pub open spec fn bytes(self) -> Seq<u8> {
        match self {
            Piece::Number(id, v) => uint_element(id, v),
            Piece::Text(id, s) => string_element(id, s),
            Piece::Bytes(id, b) => element(id, b),
            Piece::Real(id, bits) => float_element(id, bits),
        }
    }

    /// Whether the ID is one, and no text is ended by a zero character.
    pub open spec fn plain(self) -> bool {
        is_id(self.id()) && (self matches Piece::Text(_, s) ==> no_nul(s))
    }

    /// The header of the element.
    pub open spec fn header(self) -> ElementHeader {
        match self {
            Piece::Number(id, v) => header(id, uint_len(v)),
            Piece::Text(id, s) => header(id, encode_utf8(s).len()),
            Piece::Bytes(id, b) => header(id, b.len()),
            Piece::Real(id, _) => header(id, 8),
        }
    }
}

/// What is known of the document `d` where the data of the element `p` starts.
pub open spec fn there(d: Seq<u8>, p: Piece, b: int) -> bool {
    let h = p.header();
    &&& 0 <= b
    &&& b + h.size <= d.len() <= MAX_LEN
    &&& h.id == p.id()
    &&& end_of(b, h.size) == b + h.size
    &&& match p {
        Piece::Number(_, v) => uint_at(d, b, h.size) == Ok::<u64, MkvError>(v),
        Piece::Text(_, s) => string_at(d, b, h.size) == Ok::<Seq<char>, MkvError>(s),
        Piece::Bytes(_, s) => holds(d, b, s) && h.size == s.len() && bytes_at(d, b, h.size)
            == Ok::<Seq<u8>, MkvError>(s),
        Piece::Real(_, bits) => float_at(d, b, h.size) == Ok::<Float, MkvError>(
            Float::Double(bits),
        ),
    }
}

/// The elements of `ps` from the one with index `k` on, one after the other.
pub open spec fn pieces_from(ps: Seq<Piece>, k: int) -> Seq<u8>
    decreases ps.len() - k,
{
    if k < 0 || k >= ps.len() {
        Seq::empty()
    } else {
        ps[k].bytes() + pieces_from(ps, k + 1)
    }
}

/// The elements of `ps`, one after the other.
pub open spec fn pieces(ps: Seq<Piece>) -> Seq<u8> {
    pieces_from(ps, 0)
}

/// Whether all elements of `ps` are plain.
pub open spec fn all_plain(ps: Seq<Piece>) -> bool {
    forall|i: int| 0 <= i < ps.len() ==> (#[trigger] ps[i]).plain()
}

/// An element that is there is read: its header, and then its value.
pub proof fn lemma_piece(d: Seq<u8>, pos: int, p: Piece)
    requires
        holds(d, pos, p.bytes()),
        p.plain(),
        d.len() <= MAX_LEN,
    ensures
        header_at(d, pos) == Ok::<ElementHeader, MkvError>(p.header()),
        there(d, p, pos + p.header().header_len),
        p.header().header_len >= 2,
        pos + p.header().header_len + p.header().size == pos + p.bytes().len(),
{
    match p {
        Piece::Number(id, v) => lemma_uint_read(d, pos, id, v),
        Piece::Text(id, s) => lemma_string_read(d, pos, id, s),
        Piece::Bytes(id, b) => lemma_element_read(d, pos, id, b),
        Piece::Real(id, bits) => lemma_float_read(d, pos, id, bits),
    }
}

/// Whether each element of `ps` from index `k` on takes a walk from its state to the next.
pub open spec fn leads<S>(
    d: Seq<u8>,
    ps: Seq<Piece>,
    k: int,
    states: Seq<S>,
    step: spec_fn(S, ElementHeader, int) -> Result<(S, int), MkvError>,
) -> bool {
    forall|i: int, b: int|
        k <= i < ps.len() && #[trigger] there(d, ps[i], b) ==> step(
            states[i],
            ps[i].header(),
            b,
        ) == Ok::<(S, int), MkvError>((states[i + 1], b + ps[i].header().size))
}

/// A walk over elements that lead from state to state ends in the last of them.
pub proof fn lemma_pieces_walked<S>(
    d: Seq<u8>,
    pos: int,
    end: int,
    ps: Seq<Piece>,
    k: int,
    states: Seq<S>,
    step: spec_fn(S, ElementHeader, int) -> Result<(S, int), MkvError>,
)
    requires
        0 <= k <= ps.len(),
        states.len() == ps.len() + 1,
        holds(d, pos, pieces_from(ps, k)),
        pos + pieces_from(ps, k).len() <= end,
        d.len() <= MAX_LEN,
        all_plain(ps),
        leads(d, ps, k, states, step),
    ensures
        walk(d, pos, end, states[k], step) == walk(
            d,
            pos + pieces_from(ps, k).len(),
            end,
            states[ps.len() as int],
            step,
        ),
    decreases ps.len() - k,
{
    if k < ps.len() {
        let p = ps[k];
        let rest = pieces_from(ps, k + 1);
        lemma_holds_split(d, pos, p.bytes(), rest);
        lemma_piece(d, pos, p);
        let h = p.header();
        let next = pos + p.bytes().len();
        lemma_walk_step(d, pos, end, states[k], step, h, states[k + 1], next);
        lemma_pieces_walked(d, next, end, ps, k + 1, states, step);
    }
}

/// A walk over exactly the elements `ps` ends in the last state, at their end.
pub proof fn lemma_pieces_read<S>(
    d: Seq<u8>,
    pos: int,
    ps: Seq<Piece>,
    states: Seq<S>,
    step: spec_fn(S, ElementHeader, int) -> Result<(S, int), MkvError>,
)
    requires
        states.len() == ps.len() + 1,
        holds(d, pos, pieces(ps)),
        d.len() <= MAX_LEN,
        all_plain(ps),
        leads(d, ps, 0, states, step),
    ensures
        walk(d, pos, pos + pieces(ps).len(), states[0], step) == Ok::<(S, int), MkvError>(
            (states[ps.len() as int], pos + pieces(ps).len()),
        ),
{
    lemma_pieces_walked(d, pos, pos + pieces(ps).len(), ps, 0, states, step);
}

} // verus!
