//! The touch decoder: a dimension chunk and a heatmap chunk of one touch
//! payload frame, turned into a heatmap event.
use vstd::prelude::*;
use crate::chunk::{chunk_body, chunk_fits, chunk_rest, chunk_tag, read_chunk};
use crate::event::{Decoded, DecodedView, Event, EventView, Layer, Notice, TouchData};
use crate::interface::{
    ChunkType, PackedDataStruct, TouchHeatmapDim, CHUNK_HEADER_SIZE, HEATMAP_DIM_SIZE,
};
use crate::wire::copy_range;

verus! {

/// What a scan of a touch frame's chunks keeps: the notices met on the way,
/// and the latest dimensions `(width, height)` and heatmap seen.
pub struct TouchScan {
    pub notices: Seq<Notice>,
    pub dim: Option<(u8, u8)>,
    pub heatmap: Option<Seq<u8>>,
}

/// `b` where it is set, else `a`: a later chunk overrides an earlier one.
pub open spec fn latest<T>(a: Option<T>, b: Option<T>) -> Option<T> {
    if b is Some {
        b
    } else {
        a
    }
}

impl TouchScan {
    pub open spec fn empty() -> TouchScan {
        TouchScan { notices: Seq::empty(), dim: None, heatmap: None }
    }

    /// The scan of `self`'s chunks, then of `o`'s.
    pub open spec fn combine(self, o: TouchScan) -> TouchScan {
        TouchScan {
            notices: self.notices + o.notices,
            dim: latest(self.dim, o.dim),
            heatmap: latest(self.heatmap, o.heatmap),
        }
    }
}

/// What one chunk of a touch payload frame contributes to the scan.
pub open spec fn touch_chunk(tag: u16, body: Seq<u8>) -> TouchScan {
    match ChunkType::spec_from_raw(tag) {
        Some(ChunkType::TouchHeatmapDim) => if body.len() == HEATMAP_DIM_SIZE {
            TouchScan { notices: Seq::empty(), dim: Some((body[1], body[0])), heatmap: None }
        } else {
            TouchScan {
                notices: seq![Notice::Truncated(Layer::HeatmapDim)],
                dim: None,
                heatmap: None,
            }
        },
        Some(ChunkType::TouchHeatmap) => TouchScan {
            notices: Seq::empty(),
            dim: None,
            heatmap: Some(body),
        },
        Some(t) => TouchScan {
            notices: seq![Notice::UnsupportedTouchChunk(t)],
            dim: None,
            heatmap: None,
        },
        None => TouchScan {
            notices: seq![Notice::UnknownTouchChunk(tag)],
            dim: None,
            heatmap: None,
        },
    }
}

/// The scan of a touch frame's chunks, in order, up to a chunk that runs
/// past the body.
pub open spec fn touch_scan(d: Seq<u8>) -> TouchScan
    decreases d.len(),
{
    if d.len() == 0 {
        TouchScan::empty()
    } else if !chunk_fits(d) {
        TouchScan {
            notices: seq![Notice::Truncated(Layer::Chunk)],
            dim: None,
            heatmap: None,
        }
    } else {
        touch_chunk(chunk_tag(d), chunk_body(d)).combine(touch_scan(chunk_rest(d)))
    }
}

/// What a finished scan yields: its notices, then, where a heatmap was seen,
/// one heatmap event if its length is `width * height` and not zero, else
/// one notice. Dimensions default to zero where no dimension chunk was seen.
pub open spec fn touch_result(s: TouchScan) -> DecodedView {
    let (w, h) = match s.dim {
        Some(p) => p,
        None => (0u8, 0u8),
    };
    let seen = DecodedView { events: Seq::empty(), notices: s.notices };
    match s.heatmap {
        None => seen,
        Some(m) => if m.len() == 0 {
            seen.followed_by(DecodedView::notice(Notice::EmptyHeatmap))
        } else if w * h != m.len() {
            seen.followed_by(
                DecodedView::notice(
                    Notice::HeatmapSizeMismatch { width: w, height: h, len: m.len() as usize },
                ),
            )
        } else {
            seen.followed_by(DecodedView::event(EventView::Touch { width: w, height: h, heatmap: m }))
        },
    }
}

/// What a touch payload frame's body yields.
pub open spec fn touch_payload(d: Seq<u8>) -> DecodedView {
    touch_result(touch_scan(d))
}

proof fn lemma_latest_assoc<T>(a: Option<T>, b: Option<T>, c: Option<T>)
    ensures
        latest(a, latest(b, c)) == latest(latest(a, b), c),
{
}

/// Decodes the chunks of a touch payload frame's body.
pub fn handle_touch_payload(data: &[u8], out: &mut Decoded)
    ensures
        final(out)@ == old(out)@.followed_by(touch_payload(data@)),
{
    let ghost whole = touch_scan(data@);
    let ghost pre = out@;
    let mut dim: Option<(u8, u8)> = None;
    let mut heatmap: Option<(usize, usize)> = None;
    let mut off: usize = 0;
    assert(data@.skip(0) =~= data@);
    while off < data.len()
        invariant
            off <= data@.len(),
            out@.events == pre.events,
            out@.notices + touch_scan(data@.skip(off as int)).notices == pre.notices
                + whole.notices,
            latest(dim, touch_scan(data@.skip(off as int)).dim) == whole.dim,
            heatmap matches Some((s, e)) ==> s <= e <= data@.len(),
            latest(
                match heatmap {
                    Some((s, e)) => Some(data@.subrange(s as int, e as int)),
                    None => None,
                },
                touch_scan(data@.skip(off as int)).heatmap,
            ) == whole.heatmap,
        decreases data@.len() - off,
    {
        let ghost d = data@.skip(off as int);
        let ghost cur_map = match heatmap {
            Some((s, e)) => Some(data@.subrange(s as int, e as int)),
            None => None::<Seq<u8>>,
        };
        let ghost before = out@;
        match read_chunk(data, off) {
            None => {
                out.push_notice(Notice::Truncated(Layer::Chunk));
                off = data.len();
                assert(data@.skip(off as int) =~= Seq::<u8>::empty());
                assert(out@.notices =~= before.notices + touch_scan(d).notices);
            },
            Some(h) => {
                let start: usize = off + CHUNK_HEADER_SIZE;
                let end: usize = start + h.payload_len as usize;
                let ghost c = touch_chunk(chunk_tag(d), chunk_body(d));
                let ghost r = touch_scan(chunk_rest(d));
                proof {
                    lemma_latest_assoc(dim, c.dim, r.dim);
                    lemma_latest_assoc(cur_map, c.heatmap, r.heatmap);
                }
                match ChunkType::from_raw(h.ty) {
                    Some(ChunkType::TouchHeatmapDim) => {
                        if h.payload_len as usize == HEATMAP_DIM_SIZE {
                            let v = TouchHeatmapDim::read_at(data, start);
                            dim = Some((v.width, v.height));
                        } else {
                            out.push_notice(Notice::Truncated(Layer::HeatmapDim));
                        }
                    },
                    Some(ChunkType::TouchHeatmap) => {
                        heatmap = Some((start, end));
                    },
                    Some(t) => out.push_notice(Notice::UnsupportedTouchChunk(t)),
                    None => out.push_notice(Notice::UnknownTouchChunk(h.ty)),
                }
                assert(out@.notices + r.notices =~= before.notices + c.notices + r.notices);
                off = end;
            },
        }
    }
    assert(data@.skip(off as int) =~= Seq::<u8>::empty());
    let (w, ht) = match dim {
        Some(p) => p,
        None => (0u8, 0u8),
    };
    match heatmap {
        None => {},
        Some((s, e)) => {
            assert((w as usize) * (ht as usize) <= 255 * 255) by (nonlinear_arith)
                requires
                    w <= 255,
                    ht <= 255,
            ;
            if e == s {
                out.push_notice(Notice::EmptyHeatmap);
            } else if (w as usize) * (ht as usize) != e - s {
                out.push_notice(Notice::HeatmapSizeMismatch { width: w, height: ht, len: e - s });
            } else {
                let grid = copy_range(data, s, e);
                out.push_event(Event::Touch(TouchData { width: w, height: ht, heatmap: grid }));
            }
        },
    }
    assert(out@.events =~= pre.followed_by(touch_payload(data@)).events);
    assert(out@.notices =~= pre.followed_by(touch_payload(data@)).notices);
}

} // verus!
