use devtool::event::{Decoded, Event, Layer, Notice, StylusData, TouchData};
use devtool::interface::{ChunkType, StylusFrameType, TouchDataType};
use devtool::payload::{handle_frame, handle_payload_frame};
use devtool::stylus::{handle_stylus_payload, handle_stylus_report};
use devtool::touch::handle_touch_payload;

const STYLUS: u16 = 6;
const TOUCH: u16 = 8;
const DIM: u16 = 0x0403;
const HEATMAP: u16 = 0x0425;
const GEN1: u16 = 0x0410;
const GEN2_U: u16 = 0x0460;
const GEN2_P: u16 = 0x0461;

fn chunk(ty: u16, body: &[u8]) -> Vec<u8> {
    let mut c = Vec::new();
    c.extend_from_slice(&ty.to_le_bytes());
    c.extend_from_slice(&(body.len() as u16).to_le_bytes());
    c.extend_from_slice(body);
    c
}

fn payload(frames: &[(u16, Vec<u8>)]) -> Vec<u8> {
    let mut p = Vec::new();
    p.extend_from_slice(&7u32.to_le_bytes());
    p.extend_from_slice(&(frames.len() as u32).to_le_bytes());
    p.extend_from_slice(&[0u8; 4]);
    for (i, (ty, body)) in frames.iter().enumerate() {
        p.extend_from_slice(&(i as u16).to_le_bytes());
        p.extend_from_slice(&ty.to_le_bytes());
        p.extend_from_slice(&(body.len() as u32).to_le_bytes());
        p.extend_from_slice(&[0u8; 8]);
        p.extend_from_slice(body);
    }
    p
}

fn raw(data_type: u32, body: &[u8]) -> Vec<u8> {
    let mut f = vec![0u8; 64];
    f[0..4].copy_from_slice(&data_type.to_le_bytes());
    f[4..8].copy_from_slice(&(body.len() as u32).to_le_bytes());
    f.extend_from_slice(body);
    f
}

fn gen2_report(mode: u16, x: u16, y: u16, pressure: u16) -> Vec<u8> {
    let mut r = Vec::new();
    for v in [0x1111u16, mode, x, y, pressure, 0x2222, 0x3333, 0] {
        r.extend_from_slice(&v.to_le_bytes());
    }
    r
}

fn gen1_report(mode: u8, x: [u8; 2], y: [u8; 2], pressure: [u8; 2]) -> Vec<u8> {
    let mut r = vec![0xee, 0xee, 0xee, 0xee, mode];
    r.extend_from_slice(&x);
    r.extend_from_slice(&y);
    r.extend_from_slice(&pressure);
    r.push(0xee);
    r
}

fn dim(width: u8, height: u8) -> Vec<u8> {
    vec![height, width, 0, 0, 0, 0, 0, 0]
}

fn stylus(x: u16, y: u16, pressure: u16, proximity: bool) -> Event {
    Event::Stylus(StylusData { x, y, pressure, proximity })
}

#[test]
fn touch_heatmap_of_matching_size_is_one_event() {
    let grid: Vec<u8> = (0..50u8).collect();
    let mut body = chunk(DIM, &dim(10, 5));
    body.extend(chunk(HEATMAP, &grid));
    let mut out = Decoded::new();
    handle_touch_payload(&body, &mut out);
    assert_eq!(out.events, vec![Event::Touch(TouchData { width: 10, height: 5, heatmap: grid })]);
    assert!(out.notices.is_empty());
}

#[test]
fn touch_heatmap_of_wrong_size_is_dropped_with_one_notice() {
    let mut body = chunk(DIM, &dim(10, 5));
    body.extend(chunk(HEATMAP, &[1u8; 49]));
    let mut out = Decoded::new();
    handle_touch_payload(&body, &mut out);
    assert!(out.events.is_empty());
    assert_eq!(out.notices, vec![Notice::HeatmapSizeMismatch { width: 10, height: 5, len: 49 }]);
}

#[test]
fn empty_touch_heatmap_is_dropped() {
    let mut body = chunk(DIM, &dim(0, 0));
    body.extend(chunk(HEATMAP, &[]));
    let mut out = Decoded::new();
    handle_touch_payload(&body, &mut out);
    assert!(out.events.is_empty());
    assert_eq!(out.notices, vec![Notice::EmptyHeatmap]);
}

#[test]
fn touch_chunks_seen_twice_keep_the_latest() {
    let mut body = chunk(HEATMAP, &[9u8; 4]);
    body.extend(chunk(DIM, &dim(9, 9)));
    body.extend(chunk(DIM, &dim(3, 2)));
    body.extend(chunk(HEATMAP, &[5u8; 6]));
    let mut out = Decoded::new();
    handle_touch_payload(&body, &mut out);
    assert_eq!(out.events, vec![Event::Touch(TouchData { width: 3, height: 2, heatmap: vec![5u8; 6] })]);
}

#[test]
fn touch_frame_without_heatmap_yields_nothing() {
    let body = chunk(DIM, &dim(4, 3));
    let mut out = Decoded::new();
    handle_touch_payload(&body, &mut out);
    assert!(out.events.is_empty());
    assert!(out.notices.is_empty());
}

#[test]
fn other_touch_chunks_are_noted_and_skipped() {
    let mut body = chunk(GEN2_P, &[0u8; 4]);
    body.extend(chunk(0x0999, &[1, 2, 3]));
    body.extend(chunk(DIM, &[1, 2, 3]));
    body.extend(chunk(DIM, &dim(2, 1)));
    body.extend(chunk(HEATMAP, &[4, 5]));
    let mut out = Decoded::new();
    handle_touch_payload(&body, &mut out);
    assert_eq!(
        out.notices,
        vec![
            Notice::UnsupportedTouchChunk(ChunkType::StylusReportGen2(StylusFrameType::ReportP)),
            Notice::UnknownTouchChunk(0x0999),
            Notice::Truncated(Layer::HeatmapDim),
        ]
    );
    assert_eq!(out.events, vec![Event::Touch(TouchData { width: 2, height: 1, heatmap: vec![4, 5] })]);
}

#[test]
fn stylus_gen2_without_uuid_passes_fields_and_reads_proximity_bit() {
    let mut body = vec![2u8, 0, 0, 0];
    body.extend(gen2_report(0x0001 | 0x0002, 1000, 2000, 300));
    body.extend(gen2_report(0x0002, 1001, 2001, 0));
    let mut out = Decoded::new();
    handle_stylus_payload(&chunk(GEN2_P, &body), &mut out);
    assert_eq!(out.events, vec![stylus(1000, 2000, 300, true), stylus(1001, 2001, 0, false)]);
    assert!(out.notices.is_empty());
}

#[test]
fn stylus_gen2_with_uuid_skips_the_identifier() {
    let mut body = vec![1u8, 0, 0, 0, 0xde, 0xad, 0xbe, 0xef];
    body.extend(gen2_report(1, 7, 8, 9));
    let mut out = Decoded::new();
    handle_stylus_payload(&chunk(GEN2_U, &body), &mut out);
    assert_eq!(out.events, vec![stylus(7, 8, 9, true)]);
}

#[test]
fn stylus_gen1_decodes_little_endian_byte_pairs() {
    let mut body = vec![1u8, 0, 0, 0, 0, 0, 0, 0, 0xaa, 0xaa, 0xaa, 0xaa];
    body.extend(gen1_report(1, [0x02, 0x01], [0x34, 0x12], [0x00, 0x04]));
    let mut out = Decoded::new();
    handle_stylus_payload(&chunk(GEN1, &body), &mut out);
    assert_eq!(out.events, vec![stylus(258, 0x1234, 1024, true)]);
}

#[test]
fn stylus_gen1_mode_without_proximity_bit() {
    let mut body = vec![1u8, 0, 0, 0, 0, 0, 0, 0, 0, 0, 0, 0];
    body.extend(gen1_report(6, [0x02, 0x01], [0, 0], [0, 0]));
    let mut out = Decoded::new();
    handle_stylus_report(ChunkType::StylusReportGen1, &body, &mut out);
    assert_eq!(out.events, vec![stylus(258, 0, 0, false)]);
}

#[test]
fn stylus_reports_past_the_chunk_are_rejected() {
    let mut body = vec![3u8, 0, 0, 0];
    body.extend(gen2_report(1, 1, 1, 1));
    body.extend(gen2_report(1, 2, 2, 2));
    let mut out = Decoded::new();
    handle_stylus_payload(&chunk(GEN2_P, &body), &mut out);
    assert!(out.events.is_empty());
    assert_eq!(out.notices, vec![Notice::Truncated(Layer::StylusReport)]);
}

#[test]
fn other_stylus_chunks_are_noted_and_skipped() {
    let mut body = chunk(HEATMAP, &[1, 2]);
    body.extend(chunk(0x0777, &[]));
    let mut rep = vec![1u8, 0, 0, 0];
    rep.extend(gen2_report(0, 5, 6, 7));
    body.extend(chunk(GEN2_P, &rep));
    let mut out = Decoded::new();
    handle_stylus_payload(&body, &mut out);
    assert_eq!(
        out.notices,
        vec![Notice::UnsupportedStylusChunk(ChunkType::TouchHeatmap), Notice::UnknownStylusChunk(0x0777)]
    );
    assert_eq!(out.events, vec![stylus(5, 6, 7, false)]);
}

#[test]
fn chunk_running_past_its_frame_stops_the_walk() {
    let mut body = vec![1u8, 0, 0, 0];
    body.extend(gen2_report(1, 1, 2, 3));
    let mut data = chunk(GEN2_P, &body);
    data.extend_from_slice(&GEN2_P.to_le_bytes());
    data.extend_from_slice(&40u16.to_le_bytes());
    data.extend_from_slice(&[0u8; 10]);
    let mut out = Decoded::new();
    handle_stylus_payload(&data, &mut out);
    assert_eq!(out.events, vec![stylus(1, 2, 3, true)]);
    assert_eq!(out.notices, vec![Notice::Truncated(Layer::Chunk)]);
}

#[test]
fn unknown_payload_frame_is_skipped_by_its_length() {
    let mut rep = vec![1u8, 0, 0, 0];
    rep.extend(gen2_report(1, 11, 22, 33));
    let p = payload(&[(7, vec![0xff; 5]), (STYLUS, chunk(GEN2_P, &rep))]);
    let mut out = Decoded::new();
    handle_payload_frame(&p, &mut out);
    assert_eq!(out.notices, vec![Notice::UnknownPayloadFrameType(7)]);
    assert_eq!(out.events, vec![stylus(11, 22, 33, true)]);
}

#[test]
fn payload_frame_running_past_the_body_is_rejected() {
    let mut p = payload(&[(TOUCH, vec![])]);
    p[4] = 2;
    let mut out = Decoded::new();
    handle_payload_frame(&p, &mut out);
    assert_eq!(out.notices, vec![Notice::Truncated(Layer::PayloadFrame)]);

    let mut out = Decoded::new();
    handle_payload_frame(&[0u8; 11], &mut out);
    assert_eq!(out.notices, vec![Notice::Truncated(Layer::Payload)]);
}

#[test]
fn end_to_end_touch_frame() {
    let mut touch = chunk(DIM, &dim(4, 3));
    touch.extend(chunk(HEATMAP, &[0x80; 12]));
    let frame = raw(0, &payload(&[(TOUCH, touch)]));
    let mut out = Decoded::new();
    handle_frame(&frame, &mut out);
    assert_eq!(out.events, vec![Event::Touch(TouchData { width: 4, height: 3, heatmap: vec![0x80; 12] })]);
    assert!(out.notices.is_empty());
}

#[test]
fn frames_of_other_types_are_noted_and_dropped() {
    let mut out = Decoded::new();
    handle_frame(&raw(3, &[1, 2, 3]), &mut out);
    handle_frame(&raw(77, &[]), &mut out);
    handle_frame(&[0u8; 63], &mut out);
    let mut short = raw(0, &[0u8; 20]);
    short.truncate(70);
    handle_frame(&short, &mut out);
    assert!(out.events.is_empty());
    assert_eq!(
        out.notices,
        vec![
            Notice::UnsupportedFrameType(TouchDataType::HidReport),
            Notice::UnknownFrameType(77),
            Notice::Truncated(Layer::RawFrame),
            Notice::Truncated(Layer::RawFrame),
        ]
    );
}
