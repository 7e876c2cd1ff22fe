//! The frame dispatcher and the payload decoder: a raw frame's header picks how
//! its body is read, and a payload body is a counted run of payload frames.
use vstd::prelude::*;
use crate::event::{lemma_followed_by_assoc, lemma_followed_by_empty, Decoded, DecodedView, Layer, Notice};
use crate::interface::{
    PackedDataStruct, PayloadFrameHeader, PayloadFrameType, PayloadHeader, TouchDataType,
    TouchRawDataHeader, PAYLOAD_FRAME_HEADER_SIZE, PAYLOAD_HEADER_SIZE, RAW_DATA_HEADER_SIZE,
};
use crate::stylus::{handle_stylus_payload, stylus_payload};
use crate::touch::{handle_touch_payload, touch_payload};
use crate::wire::{u16_le, u32_le};
use vstd::slice::slice_subrange;

verus! {

pub open spec fn frame_type_at(d: Seq<u8>, off: int) -> u16 {
    u16_le(d, off + 2)
}

pub open spec fn frame_len_at(d: Seq<u8>, off: int) -> nat {
    u32_le(d, off + 4) as nat
}

/// The payload frame at `off` lies within `d`, header and declared body.
pub open spec fn frame_fits(d: Seq<u8>, off: int) -> bool {
    0 <= off && off + PAYLOAD_FRAME_HEADER_SIZE + frame_len_at(d, off) <= d.len()
}

/// Where the payload frame after the one at `off` starts.
pub open spec fn next_frame_at(d: Seq<u8>, off: int) -> int {
    off + PAYLOAD_FRAME_HEADER_SIZE + frame_len_at(d, off)
}

/// Where the `k`-th payload frame after the one at `off` starts: `off` plus
/// the header size and the declared `payload_len` of each frame before it,
/// whatever its type.
pub open spec fn frame_offset(d: Seq<u8>, off: int, k: nat) -> int
    decreases k,
{
    if k == 0 {
        off
    } else {
        frame_offset(d, next_frame_at(d, off), (k - 1) as nat)
    }
}

/// The `k` payload frames from `off` on all lie within `d`.
pub open spec fn frames_fit(d: Seq<u8>, off: int, k: nat) -> bool
    decreases k,
{
    k == 0 || (frame_fits(d, off) && frames_fit(d, next_frame_at(d, off), (k - 1) as nat))
}

/// What one payload frame's body yields, by the frame's declared type.
pub open spec fn payload_frame(ty: u16, body: Seq<u8>) -> DecodedView {
    match PayloadFrameType::spec_from_raw(ty) {
        Some(PayloadFrameType::Stylus) => stylus_payload(body),
        Some(PayloadFrameType::Touch) => touch_payload(body),
        None => DecodedView::notice(Notice::UnknownPayloadFrameType(ty)),
    }
}

/// What `n` payload frames from `off` on yield, up to a frame that runs
/// past `d`.
pub open spec fn payload_frames(d: Seq<u8>, off: int, n: nat) -> DecodedView
    decreases n,
{
    if n == 0 {
        DecodedView::empty()
    } else if !frame_fits(d, off) {
        DecodedView::notice(Notice::Truncated(Layer::PayloadFrame))
    } else {
        payload_frame(
            frame_type_at(d, off),
            d.subrange(off + PAYLOAD_FRAME_HEADER_SIZE, next_frame_at(d, off)),
        ).followed_by(payload_frames(d, next_frame_at(d, off), (n - 1) as nat))
    }
}

/// What a payload body yields: the frames that its header counts.
pub open spec fn payload(b: Seq<u8>) -> DecodedView {
    if b.len() < PAYLOAD_HEADER_SIZE {
        DecodedView::notice(Notice::Truncated(Layer::Payload))
    } else {
        payload_frames(b, PAYLOAD_HEADER_SIZE as int, u32_le(b, 4) as nat)
    }
}

pub open spec fn raw_data_size(f: Seq<u8>) -> nat {
    u32_le(f, 4) as nat
}

/// What a raw frame, header and body, yields.
pub open spec fn raw_frame(f: Seq<u8>) -> DecodedView {
    if f.len() < RAW_DATA_HEADER_SIZE || RAW_DATA_HEADER_SIZE + raw_data_size(f) > f.len() {
        DecodedView::notice(Notice::Truncated(Layer::RawFrame))
    } else {
        match TouchDataType::spec_from_raw(u32_le(f, 0)) {
            Some(TouchDataType::Frame) => payload(
                f.subrange(RAW_DATA_HEADER_SIZE as int, RAW_DATA_HEADER_SIZE + raw_data_size(f)),
            ),
            Some(t) => DecodedView::notice(Notice::UnsupportedFrameType(t)),
            None => DecodedView::notice(Notice::UnknownFrameType(u32_le(f, 0))),
        }
    }
}

/// After any `k` of `n` payload frames, whatever their types, decoding goes
/// on at the frame that starts at the sum of header size and declared length
/// over those `k` frames.
pub proof fn lemma_payload_resumes_at_offset(d: Seq<u8>, off: int, n: nat, k: nat)
    requires
        k <= n,
        frames_fit(d, off, k),
    ensures
        payload_frames(d, off, n) == payload_frames(d, off, k).followed_by(
            payload_frames(d, frame_offset(d, off, k), (n - k) as nat),
        ),
    decreases k,
{
    if k == 0 {
        lemma_followed_by_empty(payload_frames(d, off, n));
    } else {
        let nxt = next_frame_at(d, off);
        lemma_payload_resumes_at_offset(d, nxt, (n - 1) as nat, (k - 1) as nat);
        let head = payload_frame(
            frame_type_at(d, off),
            d.subrange(off + PAYLOAD_FRAME_HEADER_SIZE, nxt),
        );
        lemma_followed_by_assoc(
            head,
            payload_frames(d, nxt, (k - 1) as nat),
            payload_frames(d, frame_offset(d, nxt, (k - 1) as nat), (n - k) as nat),
        );
    }
}

/// Decodes one payload frame's body by the frame's type.
fn handle_payload_frame_body(ty: u16, body: &[u8], out: &mut Decoded)
    ensures
        final(out)@ == old(out)@.followed_by(payload_frame(ty, body@)),
{
    match PayloadFrameType::from_raw(ty) {
        Some(PayloadFrameType::Stylus) => handle_stylus_payload(body, out),
        Some(PayloadFrameType::Touch) => handle_touch_payload(body, out),
        None => out.push_notice(Notice::UnknownPayloadFrameType(ty)),
    }
}

/// Decodes a payload body: its header, then each payload frame it counts,
/// each skipped by its declared length whether its type is known or not.
pub fn handle_payload_frame(data: &[u8], out: &mut Decoded)
    ensures
        final(out)@ == old(out)@.followed_by(payload(data@)),
{
    if data.len() < PAYLOAD_HEADER_SIZE {
        out.push_notice(Notice::Truncated(Layer::Payload));
        return ;
    }
    let hdr = PayloadHeader::read_at(data, 0);
    let n = hdr.num_frames;
    let ghost goal = old(out)@.followed_by(payload(data@));
    let mut off: usize = PAYLOAD_HEADER_SIZE;
    let mut i: u32 = 0;
    while i < n
        invariant
            off <= data@.len(),
            i <= n,
            goal == old(out)@.followed_by(payload(data@)),
            out@.followed_by(payload_frames(data@, off as int, (n - i) as nat)) == goal,
        decreases n - i,
    {
        let ghost before = out@;
        let ghost rest = payload_frames(data@, off as int, (n - i) as nat);
        if data.len() - off < PAYLOAD_FRAME_HEADER_SIZE {
            out.push_notice(Notice::Truncated(Layer::PayloadFrame));
            assert(!frame_fits(data@, off as int));
            return ;
        }
        let fh = PayloadFrameHeader::read_at(data, off);
        assert(fh.ty == frame_type_at(data@, off as int));
        assert(fh.payload_len == frame_len_at(data@, off as int));
        if data.len() - off - PAYLOAD_FRAME_HEADER_SIZE < fh.payload_len as usize {
            out.push_notice(Notice::Truncated(Layer::PayloadFrame));
            assert(!frame_fits(data@, off as int));
            return ;
        }
        let start: usize = off + PAYLOAD_FRAME_HEADER_SIZE;
        let end: usize = start + fh.payload_len as usize;
        let body = slice_subrange(data, start, end);
        handle_payload_frame_body(fh.ty, body, out);
        proof {
            lemma_followed_by_assoc(
                before,
                payload_frame(fh.ty, body@),
                payload_frames(data@, end as int, (n - i - 1) as nat),
            );
        }
        off = end;
        i = i + 1;
    }
    proof {
        lemma_followed_by_empty(out@);
    }
}

/// Decodes one raw frame, header and body: a payload frame's body is decoded,
/// a frame of any other type is noted and skipped.
pub fn handle_frame(frame: &[u8], out: &mut Decoded)
    ensures
        final(out)@ == old(out)@.followed_by(raw_frame(frame@)),
{
    if frame.len() < RAW_DATA_HEADER_SIZE {
        out.push_notice(Notice::Truncated(Layer::RawFrame));
        return ;
    }
    let hdr = TouchRawDataHeader::read_at(frame, 0);
    assert(hdr.data_size == raw_data_size(frame@));
    assert(hdr.data_type == u32_le(frame@, 0));
    if frame.len() - RAW_DATA_HEADER_SIZE < hdr.data_size as usize {
        out.push_notice(Notice::Truncated(Layer::RawFrame));
        return ;
    }
    match TouchDataType::from_raw(hdr.data_type) {
        Some(TouchDataType::Frame) => {
            let body = slice_subrange(
                frame,
                RAW_DATA_HEADER_SIZE,
                RAW_DATA_HEADER_SIZE + hdr.data_size as usize,
            );
            handle_payload_frame(body, out);
        },
        Some(t) => out.push_notice(Notice::UnsupportedFrameType(t)),
        None => out.push_notice(Notice::UnknownFrameType(hdr.data_type)),
    }
}

} // verus!
