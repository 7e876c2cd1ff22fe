//! Chunks: type-tagged, length-prefixed sub-records packed back to back in a
//! payload frame's body.
use vstd::prelude::*;
use crate::interface::{PackedDataStruct, StylusFrameHeader, CHUNK_HEADER_SIZE};
use crate::wire::u16_le;

verus! {

pub open spec fn chunk_tag(d: Seq<u8>) -> u16 {
    u16_le(d, 0)
}

pub open spec fn chunk_len(d: Seq<u8>) -> nat {
    u16_le(d, 2) as nat
}

/// `d` starts with a whole chunk: a header and the body that it declares.
pub open spec fn chunk_fits(d: Seq<u8>) -> bool {
    d.len() >= CHUNK_HEADER_SIZE && CHUNK_HEADER_SIZE + chunk_len(d) <= d.len()
}

pub open spec fn chunk_body(d: Seq<u8>) -> Seq<u8> {
    d.subrange(CHUNK_HEADER_SIZE as int, CHUNK_HEADER_SIZE + chunk_len(d))
}

/// What follows the first chunk of `d`.
pub open spec fn chunk_rest(d: Seq<u8>) -> Seq<u8> {
    d.skip(CHUNK_HEADER_SIZE + chunk_len(d))
}

/// Reads the header of the chunk at `off`, if the chunk's header and body
/// both lie within `data`.
pub fn read_chunk(data: &[u8], off: usize) -> (r: Option<StylusFrameHeader>)
    requires
        off <= data@.len(),
    ensures
        r is Some <==> chunk_fits(data@.skip(off as int)),
        r matches Some(h) ==> {
            &&& h.ty == chunk_tag(data@.skip(off as int))
            &&& h.payload_len == chunk_len(data@.skip(off as int))
            &&& off + CHUNK_HEADER_SIZE + h.payload_len <= data@.len()
            &&& data@.subrange(
                off + CHUNK_HEADER_SIZE,
                off + CHUNK_HEADER_SIZE + h.payload_len,
            ) == chunk_body(data@.skip(off as int))
            &&& data@.skip(off + CHUNK_HEADER_SIZE + h.payload_len) == chunk_rest(
                data@.skip(off as int),
            )
        },
{
    let ghost d = data@.skip(off as int);
    if data.len() - off < CHUNK_HEADER_SIZE {
        return None;
    }
    let h = StylusFrameHeader::read_at(data, off);
    assert(data@.subrange(off as int, off + 4) =~= d.subrange(0, 4));
    if data.len() - off - CHUNK_HEADER_SIZE < h.payload_len as usize {
        return None;
    }
    let end: usize = off + CHUNK_HEADER_SIZE + h.payload_len as usize;
    assert(data@.subrange(off + CHUNK_HEADER_SIZE, end as int) =~= chunk_body(d));
    assert(data@.skip(end as int) =~= chunk_rest(d));
    Some(h)
}

} // verus!
