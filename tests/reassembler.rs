use devtool::event::{Decoded, Event, Notice, StylusData, TouchData};
use devtool::reassembler::{FrameTooLarge, Reassembler};

fn chunk(ty: u16, body: &[u8]) -> Vec<u8> {
    let mut c = Vec::new();
    c.extend_from_slice(&ty.to_le_bytes());
    c.extend_from_slice(&(body.len() as u16).to_le_bytes());
    c.extend_from_slice(body);
    c
}

fn payload_frame(frames: &[(u16, Vec<u8>)]) -> Vec<u8> {
    let mut p = Vec::new();
    p.extend_from_slice(&1u32.to_le_bytes());
    p.extend_from_slice(&(frames.len() as u32).to_le_bytes());
    p.extend_from_slice(&[0u8; 4]);
    for (ty, body) in frames {
        p.extend_from_slice(&0u16.to_le_bytes());
        p.extend_from_slice(&ty.to_le_bytes());
        p.extend_from_slice(&(body.len() as u32).to_le_bytes());
        p.extend_from_slice(&[0u8; 8]);
        p.extend_from_slice(body);
    }
    let mut f = vec![0u8; 64];
    f[4..8].copy_from_slice(&(p.len() as u32).to_le_bytes());
    f.extend(p);
    f
}

fn stylus_frame(x: u16) -> Vec<u8> {
    let mut body = vec![1u8, 0, 0, 0];
    for v in [0u16, 1, x, x + 1, 50, 0, 0, 0] {
        body.extend_from_slice(&v.to_le_bytes());
    }
    payload_frame(&[(6, chunk(0x0461, &body))])
}

fn touch_frame(fill: u8) -> Vec<u8> {
    let mut body = chunk(0x0403, &[2, 3, 0, 0, 0, 0, 0, 0]);
    body.extend(chunk(0x0425, &[fill; 6]));
    payload_frame(&[(8, body)])
}

fn stream() -> Vec<u8> {
    let mut s = stylus_frame(100);
    s.extend(touch_frame(0x40));
    let mut other = vec![0u8; 64];
    other[0] = 2;
    other[4] = 3;
    other.extend_from_slice(&[9, 9, 9]);
    s.extend(other);
    s.extend(stylus_frame(200));
    s
}

fn feed(capacity: usize, data: &[u8], step: usize) -> (Decoded, Result<(), FrameTooLarge>) {
    let mut r = Reassembler::new(capacity);
    let mut out = Decoded::new();
    let mut pos = 0;
    while pos < data.len() {
        let n = step.min(r.free_space()).min(data.len() - pos);
        assert!(n > 0);
        r.receive(&data[pos..pos + n]);
        pos += n;
        if let Err(e) = r.process(&mut out) {
            return (out, Err(e));
        }
    }
    (out, Ok(()))
}

fn expected_events() -> Vec<Event> {
    vec![
        Event::Stylus(StylusData { x: 100, y: 101, pressure: 50, proximity: true }),
        Event::Touch(TouchData { width: 3, height: 2, heatmap: vec![0x40; 6] }),
        Event::Stylus(StylusData { x: 200, y: 201, pressure: 50, proximity: true }),
    ]
}

#[test]
fn one_read_yields_every_frame() {
    let (out, r) = feed(4096, &stream(), usize::MAX);
    assert_eq!(r, Ok(()));
    assert_eq!(out.events, expected_events());
    assert_eq!(out.notices.len(), 1);
    assert!(matches!(out.notices[0], Notice::UnsupportedFrameType(_)));
}

#[test]
fn reads_of_any_size_yield_the_same_frames() {
    let data = stream();
    let (whole, _) = feed(4096, &data, usize::MAX);
    for step in [1usize, 2, 3, 7, 64, 65, 100] {
        let (out, r) = feed(4096, &data, step);
        assert_eq!(r, Ok(()));
        assert_eq!(out.events, whole.events);
        assert_eq!(out.notices, whole.notices);
    }
}

#[test]
fn small_buffer_moves_pending_bytes_to_fit_the_next_frame() {
    let data = stream();
    let biggest = 64 + 12 + 16 + 4 + 4 + 6 + 4 + 8;
    for step in [1usize, 5, 33, 1000] {
        let (out, r) = feed(biggest + 10, &data, step);
        assert_eq!(r, Ok(()));
        assert_eq!(out.events, expected_events());
    }
}

#[test]
fn frame_larger_than_the_buffer_is_fatal() {
    let mut data = stylus_frame(1);
    let mut big = vec![0u8; 64];
    big[4..8].copy_from_slice(&5000u32.to_le_bytes());
    big.extend_from_slice(&[0u8; 10]);
    data.extend(big);
    let (out, r) = feed(4096, &data, usize::MAX);
    assert_eq!(r, Err(FrameTooLarge { data_size: 5000 }));
    assert_eq!(out.events.len(), 1);
}

#[test]
fn frame_of_exactly_the_buffer_size_fits() {
    let mut frame = vec![0u8; 64];
    frame[0] = 1;
    frame[4..8].copy_from_slice(&36u32.to_le_bytes());
    frame.extend_from_slice(&[0u8; 36]);
    let (out, r) = feed(100, &frame, 10);
    assert_eq!(r, Ok(()));
    assert_eq!(out.notices.len(), 1);
}

#[test]
fn next_frame_hands_out_whole_frames_only() {
    let data = touch_frame(1);
    let mut r = Reassembler::new(4096);
    r.receive(&data[..70]);
    assert_eq!(r.next_frame(), Ok(None));
    r.receive(&data[70..]);
    assert_eq!(r.next_frame(), Ok(Some(data.clone())));
    assert_eq!(r.next_frame(), Ok(None));
    assert_eq!(r.free_space(), 4096);
}
