//! What decoding produces: normalized stylus and touch events, and notices of
//! records that were skipped.
use vstd::prelude::*;
use crate::interface::{ChunkType, TouchDataType};

verus! {

/// Position, pressure and proximity of the stylus, from one report.
#[derive(Debug, Clone, Copy, PartialEq, Eq)]
pub struct StylusData {
    pub x: u16,
    pub y: u16,
    pub pressure: u16,
    pub proximity: bool,
}

/// A touch heatmap: `width * height` intensity bytes, row by row.
#[derive(Debug, PartialEq, Eq)]
pub struct TouchData {
    pub width: u8,
    pub height: u8,
    pub heatmap: Vec<u8>,
}

#[derive(Debug, PartialEq, Eq)]
pub enum Event {
    Stylus(StylusData),
    Touch(TouchData),
}

pub enum EventView {
    Stylus(StylusData),
    Touch { width: u8, height: u8, heatmap: Seq<u8> },
}

impl View for Event {
    type V = EventView;

    open spec fn view(&self) -> EventView {
        match self {
            Event::Stylus(s) => EventView::Stylus(*s),
            Event::Touch(t) => EventView::Touch {
                width: t.width,
                height: t.height,
                heatmap: t.heatmap@,
            },
        }
    }
}

/// The record layer at which a declared length ran past its enclosing span.
#[derive(Debug, Clone, Copy, PartialEq, Eq)]
pub enum Layer {
    RawFrame,
    Payload,
    PayloadFrame,
    Chunk,
    StylusReport,
    HeatmapDim,
}

/// A record that was skipped, and why; decoding went on after it.
#[derive(Debug, Clone, Copy, PartialEq, Eq)]
pub enum Notice {
    /// A raw frame of a known type that carries no events.
    UnsupportedFrameType(TouchDataType),
    UnknownFrameType(u32),
    UnknownPayloadFrameType(u16),
    /// A chunk of a known type that does not belong in a stylus frame.
    UnsupportedStylusChunk(ChunkType),
    UnknownStylusChunk(u16),
    /// A chunk of a known type that does not belong in a touch frame.
    UnsupportedTouchChunk(ChunkType),
    UnknownTouchChunk(u16),
    /// A heatmap whose length is not `width * height`.
    HeatmapSizeMismatch { width: u8, height: u8, len: usize },
    EmptyHeatmap,
    Truncated(Layer),
}

/// Events and notices in the order they were produced.
pub struct Decoded {
    pub events: Vec<Event>,
    pub notices: Vec<Notice>,
}

pub struct DecodedView {
    pub events: Seq<EventView>,
    pub notices: Seq<Notice>,
}

impl DecodedView {
    pub open spec fn empty() -> DecodedView {
        DecodedView { events: Seq::empty(), notices: Seq::empty() }
    }

    pub open spec fn event(e: EventView) -> DecodedView {
        DecodedView { events: seq![e], notices: Seq::empty() }
    }

    pub open spec fn notice(n: Notice) -> DecodedView {
        DecodedView { events: Seq::empty(), notices: seq![n] }
    }

    /// `self`, then `o`.
    pub open spec fn followed_by(self, o: DecodedView) -> DecodedView {
        DecodedView { events: self.events + o.events, notices: self.notices + o.notices }
    }
}

pub proof fn lemma_followed_by_assoc(a: DecodedView, b: DecodedView, c: DecodedView)
    ensures
        a.followed_by(b).followed_by(c) == a.followed_by(b.followed_by(c)),
{
    assert(a.followed_by(b).followed_by(c).events =~= a.followed_by(b.followed_by(c)).events);
    assert(a.followed_by(b).followed_by(c).notices =~= a.followed_by(b.followed_by(c)).notices);
}

pub proof fn lemma_followed_by_empty(a: DecodedView)
    ensures
        a.followed_by(DecodedView::empty()) == a,
        DecodedView::empty().followed_by(a) == a,
{
    assert(a.followed_by(DecodedView::empty()).events =~= a.events);
    assert(a.followed_by(DecodedView::empty()).notices =~= a.notices);
    assert(DecodedView::empty().followed_by(a).events =~= a.events);
    assert(DecodedView::empty().followed_by(a).notices =~= a.notices);
}

impl View for Decoded {
    type V = DecodedView;

    open spec fn view(&self) -> DecodedView {
        DecodedView { events: self.events@.map_values(|e: Event| e@), notices: self.notices@ }
    }
}

impl Decoded {
    pub fn new() -> (r: Decoded)
        ensures
            r@ == DecodedView::empty(),
    {
        let r = Decoded { events: Vec::new(), notices: Vec::new() };
        assert(r@.events =~= Seq::<EventView>::empty());
        r
    }

    pub fn push_event(&mut self, e: Event)
        ensures
            final(self)@ == old(self)@.followed_by(DecodedView::event(e@)),
    {
        let ghost pre = self@;
        self.events.push(e);
        assert(self@.events =~= pre.events + seq![e@]);
        assert(self@.notices =~= pre.notices + Seq::<Notice>::empty());
    }

    pub fn push_notice(&mut self, n: Notice)
        ensures
            final(self)@ == old(self)@.followed_by(DecodedView::notice(n)),
    {
        let ghost pre = self@;
        self.notices.push(n);
        assert(self@.events =~= pre.events + Seq::<EventView>::empty());
        assert(self@.notices =~= pre.notices + seq![n]);
    }
}

} // verus!
