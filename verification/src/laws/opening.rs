//! Which documents open.

use vstd::prelude::*;
use super::document::{bare_document, lemma_only_there};
use super::pieces::{leads, lemma_pieces_read, pieces, Piece};
use crate::demux::segment::{
    checked, document_of, ebml_header_step, empty_segment, segment_bounds, segment_child,
    SegmentView,
};
use crate::error::MkvError;
use crate::ids;
use crate::mux::header::{opening, tracks_element, DocType, MuxStreamView};
use crate::round_trip::elements::{
    header, is_id, lemma_element_read, lemma_header_read, lemma_holds_split, no_nul, MAX_LEN,
};
use crate::round_trip::header::{lemma_opening_read, lemma_segment_step, lemma_tracks_taken};
use crate::round_trip::tracks::codecs_plain;
use crate::write::{element, header_bytes};

verus! {

/// The children of an EBML header that names a document type.
pub open spec fn type_pieces(doc_type: Seq<char>) -> Seq<Piece> {
    seq![Piece::Text(ids::EBML_DOC_TYPE, doc_type)]
}

/// A file: an element, the header of another one with a size, and what follows.
pub open spec fn file_of(first: u32, doc_type: Seq<char>, second: u32, rest: Seq<u8>) -> Seq<u8> {
    element(first, pieces(type_pieces(doc_type))) + header_bytes(second, rest.len()) + rest
}

/// A file is read if it starts with an EBML header that names Matroska or WebM and goes on
/// with a Segment, whose data are then all that is read. Files of other types, and those with
/// other elements at these two places, are refused for that reason.
#[verifier::rlimit(40)]
pub proof fn lemma_file_found(first: u32, doc_type: Seq<char>, second: u32, rest: Seq<u8>)
    requires
        file_of(first, doc_type, second, rest).len() <= MAX_LEN,
        is_id(first),
        is_id(second),
        no_nul(doc_type),
    ensures
        ({
            let d = file_of(first, doc_type, second, rest);
            let known = doc_type == "matroska"@ || doc_type == "webm"@;
            &&& first != ids::EBML_HEADER ==> segment_bounds(d) == Err::<(int, int), MkvError>(
                MkvError::NotEbml { id: first },
            )
            &&& first == ids::EBML_HEADER && !known ==> segment_bounds(d) == Err::<
                (int, int),
                MkvError,
            >(MkvError::UnsupportedDocType)
            &&& first == ids::EBML_HEADER && known && second != ids::SEGMENT ==> segment_bounds(d)
                == Err::<(int, int), MkvError>(MkvError::NotSegment { id: second })
            &&& first == ids::EBML_HEADER && known && second == ids::SEGMENT ==> segment_bounds(d)
                == Ok::<(int, int), MkvError>((d.len() - rest.len(), d.len() as int))
        }),
{
    let d = file_of(first, doc_type, second, rest);
    let ps = type_pieces(doc_type);
    let body = pieces(ps);
    let a = element(first, body);
    let b = header_bytes(second, rest.len());
    assert(d.subrange(0, d.len() as int) =~= d);
    lemma_holds_split(d, 0, a + b, rest);
    lemma_holds_split(d, 0, a, b);
    lemma_element_read(d, 0, first, body);
    lemma_header_read(d, a.len() as int, second, rest.len());
    let q = header(first, body.len()).header_len as int;
    let step = ebml_header_step(d);
    let states = seq!["matroska"@, doc_type];
    assert(leads(d, ps, 0, states, step));
    lemma_pieces_read(d, q, ps, states, step);
}

/// A document without tracks is refused, even if it has Clusters.
#[verifier::rlimit(40)]
pub proof fn lemma_no_tracks(doc_type: DocType, body: Seq<u8>, rest: Seq<u8>)
    requires
        bare_document(doc_type, ids::VOID, body, rest).len() <= MAX_LEN,
    ensures
        document_of(bare_document(doc_type, ids::VOID, body, rest)) is Err,
        document_of(bare_document(doc_type, ids::VOID, body, rest))->Err_0 == MkvError::NoTracks,
{
    let d = bare_document(doc_type, ids::VOID, body, rest);
    let end = d.len() as int;
    lemma_only_there(doc_type, ids::VOID, body, rest);
    lemma_opening_read(d, doc_type);
    let p1 = opening(doc_type).len() as int;
    let p2 = p1 + element(ids::VOID, body).len();
    lemma_element_read(d, p1, ids::VOID, body);
    let h = header(ids::VOID, body.len());
    assert(segment_child(d, end, empty_segment(), h, p1 + h.header_len) == Ok::<
        (SegmentView, int),
        MkvError,
    >((empty_segment(), p2))) by {
        reveal(segment_child);
        assert(checked(d, empty_segment().crc_status, h, p1 + h.header_len)
            == empty_segment().crc_status);
    }
    lemma_segment_step(d, p1, end, empty_segment(), h, empty_segment(), p2);
    lemma_header_read(d, p2, ids::CLUSTER, 0xFFFF_FFFF_FFFF_FFFF);
}

/// A document with tracks and without Clusters is refused.
#[verifier::rlimit(40)]
pub proof fn lemma_no_clusters(doc_type: DocType, ss: Seq<MuxStreamView>)
    requires
        (opening(doc_type) + tracks_element(ss)).len() <= MAX_LEN,
        ss.len() > 0,
        codecs_plain(ss),
    ensures
        document_of(opening(doc_type) + tracks_element(ss)) is Err,
        document_of(opening(doc_type) + tracks_element(ss))->Err_0 == MkvError::NoClusters,
{
    let d = opening(doc_type) + tracks_element(ss);
    let end = d.len() as int;
    assert(d.subrange(0, end) =~= d);
    lemma_holds_split(d, 0, opening(doc_type), tracks_element(ss));
    lemma_opening_read(d, doc_type);
    lemma_tracks_taken(d, opening(doc_type).len() as int, end, empty_segment(), ss);
}

} // verus!
