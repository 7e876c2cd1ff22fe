//! The stylus decoder: stylus report chunks of either generation, turned into
//! normalized stylus events.
use vstd::prelude::*;
use crate::chunk::{chunk_body, chunk_fits, chunk_rest, chunk_tag, read_chunk};
use crate::event::{
    lemma_followed_by_assoc, lemma_followed_by_empty, Decoded, DecodedView, Event, EventView,
    Layer, Notice, StylusData,
};
use crate::interface::{
    ChunkType, PackedDataStruct, StylusFrameType, StylusReportData, StylusReportGen1Data,
    StylusReportHeaderP, StylusReportHeaderU, CHUNK_HEADER_SIZE, STYLUS_REPORT_MODE_PROXIMITY,
};
use crate::wire::u16_le;
use vstd::slice::slice_subrange;

verus! {

pub open spec fn is_stylus_report(t: ChunkType) -> bool {
    t is StylusReportGen1 || t is StylusReportGen2
}

/// Offset of the first report in a chunk body of type `t`: after the header,
/// and in the older generation after four more reserved bytes.
pub open spec fn reports_start(t: ChunkType) -> nat {
    match t {
        ChunkType::StylusReportGen1 => 12,
        ChunkType::StylusReportGen2(StylusFrameType::ReportU) => 8,
        _ => 4,
    }
}

pub open spec fn report_size(t: ChunkType) -> nat {
    match t {
        ChunkType::StylusReportGen1 => 12,
        _ => 16,
    }
}

/// The event that report bytes `r` of a chunk of type `t` describe.
pub open spec fn report_event(t: ChunkType, r: Seq<u8>) -> StylusData {
    match t {
        ChunkType::StylusReportGen1 => StylusData {
            x: u16_le(r, 5),
            y: u16_le(r, 7),
            pressure: u16_le(r, 9),
            proximity: (r[4] as u16 & STYLUS_REPORT_MODE_PROXIMITY) != 0,
        },
        _ => StylusData {
            x: u16_le(r, 4),
            y: u16_le(r, 6),
            pressure: u16_le(r, 8),
            proximity: (u16_le(r, 2) & STYLUS_REPORT_MODE_PROXIMITY) != 0,
        },
    }
}

/// Bytes of the `i`-th report in `body`.
pub open spec fn report_at(t: ChunkType, body: Seq<u8>, i: int) -> Seq<u8> {
    body.subrange(
        reports_start(t) + i * report_size(t),
        reports_start(t) + (i + 1) * report_size(t),
    )
}

/// The header's count of reports; every header shape has it in its first byte.
pub open spec fn num_reports(body: Seq<u8>) -> nat {
    body[0] as nat
}

/// `body` holds its header and all the reports that the header counts.
pub open spec fn reports_fit(t: ChunkType, body: Seq<u8>) -> bool {
    body.len() >= reports_start(t) && reports_start(t) + num_reports(body) * report_size(t)
        <= body.len()
}

/// One event per report, in wire order; nothing but a notice where the
/// reports run past the body.
pub open spec fn stylus_reports(t: ChunkType, body: Seq<u8>) -> DecodedView {
    if reports_fit(t, body) {
        DecodedView {
            events: Seq::new(
                num_reports(body),
                |i: int| EventView::Stylus(report_event(t, report_at(t, body, i))),
            ),
            notices: Seq::empty(),
        }
    } else {
        DecodedView::notice(Notice::Truncated(Layer::StylusReport))
    }
}

/// What one chunk of a stylus payload frame yields.
pub open spec fn stylus_chunk(tag: u16, body: Seq<u8>) -> DecodedView {
    match ChunkType::spec_from_raw(tag) {
        Some(t) => if is_stylus_report(t) {
            stylus_reports(t, body)
        } else {
            DecodedView::notice(Notice::UnsupportedStylusChunk(t))
        },
        None => DecodedView::notice(Notice::UnknownStylusChunk(tag)),
    }
}

/// What a stylus payload frame's body yields: its chunks in order, up to a
/// chunk that runs past the body.
pub open spec fn stylus_payload(d: Seq<u8>) -> DecodedView
    decreases d.len(),
{
    if d.len() == 0 {
        DecodedView::empty()
    } else if !chunk_fits(d) {
        DecodedView::notice(Notice::Truncated(Layer::Chunk))
    } else {
        stylus_chunk(chunk_tag(d), chunk_body(d)).followed_by(stylus_payload(chunk_rest(d)))
    }
}

pub fn emit_stylus_report_gen1(r: &StylusReportGen1Data) -> (e: StylusData)
    ensures
        e == (StylusData {
            x: u16_le(r.x@, 0),
            y: u16_le(r.y@, 0),
            pressure: u16_le(r.pressure@, 0),
            proximity: (r.mode as u16 & STYLUS_REPORT_MODE_PROXIMITY) != 0,
        }),
{
    StylusData {
        x: r.x[0] as u16 + 256 * (r.x[1] as u16),
        y: r.y[0] as u16 + 256 * (r.y[1] as u16),
        pressure: r.pressure[0] as u16 + 256 * (r.pressure[1] as u16),
        proximity: (r.mode as u16 & STYLUS_REPORT_MODE_PROXIMITY) != 0,
    }
}

pub fn emit_stylus_report_gen2(r: &StylusReportData) -> (e: StylusData)
    ensures
        e == (StylusData {
            x: r.x,
            y: r.y,
            pressure: r.pressure,
            proximity: (r.mode & STYLUS_REPORT_MODE_PROXIMITY) != 0,
        }),
{
    StylusData {
        x: r.x,
        y: r.y,
        pressure: r.pressure,
        proximity: (r.mode & STYLUS_REPORT_MODE_PROXIMITY) != 0,
    }
}

/// Reads the report at `off` of `body`, a chunk body of type `t`.
fn read_report(t: ChunkType, body: &[u8], off: usize) -> (e: StylusData)
    requires
        is_stylus_report(t),
        off + report_size(t) <= body@.len(),
    ensures
        e == report_event(t, body@.subrange(off as int, off + report_size(t))),
{
    match t {
        ChunkType::StylusReportGen1 => {
            let rec = StylusReportGen1Data::read_at(body, off);
            emit_stylus_report_gen1(&rec)
        },
        _ => {
            let rec = StylusReportData::read_at(body, off);
            emit_stylus_report_gen2(&rec)
        },
    }
}

/// Emits one event per report of a stylus report chunk of type `t`.
pub fn handle_stylus_report(t: ChunkType, body: &[u8], out: &mut Decoded)
    requires
        is_stylus_report(t),
    ensures
        final(out)@ == old(out)@.followed_by(stylus_reports(t, body@)),
{
    let start: usize = match t {
        ChunkType::StylusReportGen1 => 12,
        ChunkType::StylusReportGen2(StylusFrameType::ReportU) => 8,
        _ => 4,
    };
    let size: usize = match t {
        ChunkType::StylusReportGen1 => 12,
        _ => 16,
    };
    if body.len() < start {
        out.push_notice(Notice::Truncated(Layer::StylusReport));
        return ;
    }
    let n: usize = match t {
        ChunkType::StylusReportGen2(StylusFrameType::ReportP) => StylusReportHeaderP::read_at(
            body,
            0,
        ).num_reports as usize,
        _ => StylusReportHeaderU::read_at(body, 0).num_reports as usize,
    };
    assert(n == num_reports(body@));
    assert(n * size <= 255 * 16) by (nonlinear_arith)
        requires
            n <= 255,
            size <= 16,
    ;
    if body.len() - start < n * size {
        out.push_notice(Notice::Truncated(Layer::StylusReport));
        return ;
    }
    let ghost all = stylus_reports(t, body@);
    let ghost pre = out@;
    let mut i: usize = 0;
    let mut off: usize = start;
    while i < n
        invariant
            is_stylus_report(t),
            start == reports_start(t),
            size == report_size(t),
            n == num_reports(body@),
            reports_fit(t, body@),
            all == stylus_reports(t, body@),
            i <= n,
            off == start + i * size,
            out@.events == pre.events + all.events.take(i as int),
            out@.notices == pre.notices,
        decreases n - i,
    {
        assert(off + size <= start + n * size) by (nonlinear_arith)
            requires
                off == start + i * size,
                i < n,
        ;
        let e = read_report(t, body, off);
        assert((i + 1) * size == i * size + size) by (nonlinear_arith);
        assert(report_at(t, body@, i as int) == body@.subrange(off as int, off + size));
        out.push_event(Event::Stylus(e));
        assert(all.events.take(i + 1) =~= all.events.take(i as int).push(EventView::Stylus(e)));
        assert(out@.events =~= pre.events + all.events.take(i + 1));
        i = i + 1;
        off = off + size;
    }
    assert(all.events.take(n as int) =~= all.events);
    assert(out@.notices =~= pre.notices + all.notices);
}

/// Decodes one chunk of a stylus payload frame.
pub fn handle_stylus_chunk(tag: u16, body: &[u8], out: &mut Decoded)
    ensures
        final(out)@ == old(out)@.followed_by(stylus_chunk(tag, body@)),
{
    match ChunkType::from_raw(tag) {
        Some(t) => {
            if matches!(t, ChunkType::StylusReportGen1 | ChunkType::StylusReportGen2(_)) {
                handle_stylus_report(t, body, out);
            } else {
                out.push_notice(Notice::UnsupportedStylusChunk(t));
            }
        },
        None => out.push_notice(Notice::UnknownStylusChunk(tag)),
    }
}

/// Decodes the chunks of a stylus payload frame's body, in order.
pub fn handle_stylus_payload(data: &[u8], out: &mut Decoded)
    ensures
        final(out)@ == old(out)@.followed_by(stylus_payload(data@)),
{
    let ghost goal = old(out)@.followed_by(stylus_payload(data@));
    let mut off: usize = 0;
    assert(data@.skip(0) =~= data@);
    while off < data.len()
        invariant
            off <= data@.len(),
            out@.followed_by(stylus_payload(data@.skip(off as int))) == goal,
        decreases data@.len() - off,
    {
        let ghost d = data@.skip(off as int);
        let ghost before = out@;
        match read_chunk(data, off) {
            None => {
                out.push_notice(Notice::Truncated(Layer::Chunk));
                off = data.len();
                assert(data@.skip(off as int) =~= Seq::<u8>::empty());
                proof {
                    lemma_followed_by_empty(out@);
                }
            },
            Some(h) => {
                let end: usize = off + CHUNK_HEADER_SIZE + h.payload_len as usize;
                let body = slice_subrange(data, off + CHUNK_HEADER_SIZE, end);
                handle_stylus_chunk(h.ty, body, out);
                proof {
                    lemma_followed_by_assoc(
                        before,
                        stylus_chunk(chunk_tag(d), chunk_body(d)),
                        stylus_payload(chunk_rest(d)),
                    );
                }
                off = end;
            },
        }
    }
    assert(data@.skip(off as int) =~= Seq::<u8>::empty());
    proof {
        lemma_followed_by_empty(out@);
    }
}

} // verus!
