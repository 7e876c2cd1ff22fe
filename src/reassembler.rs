//! The frame reassembler: one fixed buffer that collects the device's short
//! reads and cuts whole raw frames out of them.
use vstd::prelude::*;
use crate::event::{lemma_followed_by_assoc, lemma_followed_by_empty, Decoded, DecodedView};
use crate::interface::RAW_DATA_HEADER_SIZE;
use crate::payload::{handle_frame, raw_frame};
use crate::wire::{copy_range, read_u32_le, u32_le};

verus! {

/// Size of the raw frame at the start of `s`: its header and declared body.
pub open spec fn frame_size(s: Seq<u8>) -> nat {
    (RAW_DATA_HEADER_SIZE + u32_le(s, 4)) as nat
}

/// The whole frames at the start of a stream, what follows them, and
/// whether the next frame declares more than `cap` bytes.
pub struct Split {
    pub frames: Seq<Seq<u8>>,
    pub rest: Seq<u8>,
    pub overflow: bool,
}

/// Cuts `s` into frames, front to back, for a buffer of `cap` bytes. A
/// frame is looked at once more bytes than its header are at hand; a frame
/// larger than `cap` stops the cut.
pub open spec fn split_frames(s: Seq<u8>, cap: nat) -> Split
    decreases s.len(),
{
    if s.len() <= RAW_DATA_HEADER_SIZE {
        Split { frames: Seq::empty(), rest: s, overflow: false }
    } else if frame_size(s) > cap {
        Split { frames: Seq::empty(), rest: s, overflow: true }
    } else if s.len() < frame_size(s) {
        Split { frames: Seq::empty(), rest: s, overflow: false }
    } else {
        let r = split_frames(s.skip(frame_size(s) as int), cap);
        Split { frames: seq![s.take(frame_size(s) as int)] + r.frames, rest: r.rest, overflow: r.overflow }
    }
}

/// What a run of raw frames yields, frame by frame.
pub open spec fn decode_frames(fs: Seq<Seq<u8>>) -> DecodedView
    decreases fs.len(),
{
    if fs.len() == 0 {
        DecodedView::empty()
    } else {
        raw_frame(fs[0]).followed_by(decode_frames(fs.skip(1)))
    }
}

/// Decoding a run of frames is decoding its parts in turn.
pub proof fn lemma_decode_frames_concat(a: Seq<Seq<u8>>, b: Seq<Seq<u8>>)
    ensures
        decode_frames(a + b) == decode_frames(a).followed_by(decode_frames(b)),
    decreases a.len(),
{
    if a.len() == 0 {
        assert(a + b =~= b);
        lemma_followed_by_empty(decode_frames(b));
    } else {
        assert((a + b).skip(1) =~= a.skip(1) + b);
        lemma_decode_frames_concat(a.skip(1), b);
        lemma_followed_by_assoc(raw_frame(a[0]), decode_frames(a.skip(1)), decode_frames(b));
    }
}

/// Where the reads end does not change the frames: cutting `a`, then
/// cutting what was left of it followed by `b`, gives the frames of `a + b`,
/// and decoding them gives what decoding the frames of `a + b` gives.
pub proof fn lemma_split_chunking_invariant(a: Seq<u8>, b: Seq<u8>, cap: nat)
    ensures
        !split_frames(a, cap).overflow ==> {
            let second = split_frames(split_frames(a, cap).rest + b, cap);
            &&& split_frames(a + b, cap).frames == split_frames(a, cap).frames + second.frames
            &&& split_frames(a + b, cap).rest == second.rest
            &&& split_frames(a + b, cap).overflow == second.overflow
            &&& decode_frames(split_frames(a + b, cap).frames) == decode_frames(
                split_frames(a, cap).frames,
            ).followed_by(decode_frames(second.frames))
        },
        split_frames(a, cap).overflow ==> {
            &&& split_frames(a + b, cap).frames == split_frames(a, cap).frames
            &&& split_frames(a + b, cap).overflow
        },
    decreases a.len(),
{
    let sa = split_frames(a, cap);
    if a.len() <= RAW_DATA_HEADER_SIZE {
        assert(sa.frames + split_frames(a + b, cap).frames =~= split_frames(a + b, cap).frames);
        lemma_decode_frames_concat(sa.frames, split_frames(a + b, cap).frames);
    } else {
        assert(frame_size(a + b) == frame_size(a));
        if frame_size(a) > cap {
        } else if a.len() < frame_size(a) {
            assert(sa.frames + split_frames(a + b, cap).frames =~= split_frames(a + b, cap).frames);
            lemma_decode_frames_concat(sa.frames, split_frames(a + b, cap).frames);
        } else {
            let fs = frame_size(a) as int;
            assert((a + b).skip(fs) =~= a.skip(fs) + b);
            assert((a + b).take(fs) =~= a.take(fs));
            lemma_split_chunking_invariant(a.skip(fs), b, cap);
            let second = split_frames(sa.rest + b, cap);
            let inner = split_frames(a.skip(fs), cap);
            assert(seq![a.take(fs)] + inner.frames + second.frames =~= seq![a.take(fs)] + (
            inner.frames + second.frames));
            lemma_decode_frames_concat(sa.frames, second.frames);
        }
    }
}

/// No frame is cut short: each frame handed out holds its header and the
/// whole body it declares, and fits the buffer. A frame that declares more
/// than the buffer holds ends the cut as an overflow, with no frame for it.
pub proof fn lemma_frames_are_whole(s: Seq<u8>, cap: nat)
    ensures
        forall|i: int|
            0 <= i < split_frames(s, cap).frames.len() ==> {
                let f = #[trigger] split_frames(s, cap).frames[i];
                &&& f.len() >= RAW_DATA_HEADER_SIZE
                &&& f.len() == frame_size(f)
                &&& f.len() <= cap
            },
        s.len() > RAW_DATA_HEADER_SIZE && frame_size(s) > cap ==> {
            &&& split_frames(s, cap).overflow
            &&& split_frames(s, cap).frames.len() == 0
        },
    decreases s.len(),
{
    if s.len() > RAW_DATA_HEADER_SIZE && frame_size(s) <= cap && s.len() >= frame_size(s) {
        let fs = frame_size(s) as int;
        lemma_frames_are_whole(s.skip(fs), cap);
        let f = s.take(fs);
        assert(frame_size(f) == frame_size(s));
        let r = split_frames(s.skip(fs), cap);
        assert(split_frames(s, cap).frames[0] == f);
        assert forall|i: int| 0 < i < split_frames(s, cap).frames.len() implies
            split_frames(s, cap).frames[i] == r.frames[i - 1] by {}
    }
}

/// A frame that declares more bytes than the whole buffer holds.
#[derive(Debug, Clone, Copy, PartialEq, Eq)]
pub struct FrameTooLarge {
    pub data_size: u32,
}

/// A fixed buffer: bytes `head..tail` are read and not yet handed out as a
/// frame, bytes after `tail` are free for the next read.
pub struct Reassembler {
    buf: Vec<u8>,
    head: usize,
    tail: usize,
}

impl Reassembler {
    pub closed spec fn wf(&self) -> bool {
        &&& self.head <= self.tail <= self.buf@.len()
        &&& self.buf@.len() > RAW_DATA_HEADER_SIZE
    }

    /// The bytes read and not yet handed out.
    pub closed spec fn pending(&self) -> Seq<u8> {
        self.buf@.subrange(self.head as int, self.tail as int)
    }

    pub closed spec fn capacity(&self) -> nat {
        self.buf@.len()
    }

    /// How many bytes the next read may bring.
    pub closed spec fn free(&self) -> nat {
        (self.buf@.len() - self.tail) as nat
    }

    pub fn new(capacity: usize) -> (r: Reassembler)
        requires
            capacity > RAW_DATA_HEADER_SIZE,
        ensures
            r.wf(),
            r.pending() == Seq::<u8>::empty(),
            r.capacity() == capacity,
            r.free() == capacity,
    {
        let r = Reassembler { buf: vec![0u8; capacity], head: 0, tail: 0 };
        assert(r.pending() =~= Seq::<u8>::empty());
        r
    }

    pub fn free_space(&self) -> (r: usize)
        requires
            self.wf(),
        ensures
            r == self.free(),
    {
        self.buf.len() - self.tail
    }

    /// Appends the bytes of one read.
    pub fn receive(&mut self, data: &[u8])
        requires
            old(self).wf(),
            data@.len() <= old(self).free(),
        ensures
            final(self).wf(),
            final(self).pending() == old(self).pending() + data@,
            final(self).capacity() == old(self).capacity(),
            final(self).free() == old(self).free() - data@.len(),
    {
        let ghost before = self.buf@;
        let cap: usize = self.buf.len();
        let mut i: usize = 0;
        while i < data.len()
            invariant
                self.head == old(self).head,
                self.tail == old(self).tail,
                self.head <= self.tail,
                self.tail + data@.len() <= self.buf@.len() == before.len() == cap,
                i <= data@.len(),
                forall|j: int| 0 <= j < self.tail ==> self.buf@[j] == before[j],
                forall|j: int| 0 <= j < i ==> self.buf@[self.tail + j] == data@[j],
            decreases data@.len() - i,
        {
            let pos: usize = self.tail + i;
            self.buf[pos] = data[i];
            i = i + 1;
        }
        let ghost old_pending = before.subrange(self.head as int, self.tail as int);
        self.tail = self.tail + data.len();
        assert(self.pending() =~= old_pending + data@);
    }

    /// Moves the pending bytes to the front of the buffer.
    fn compact(&mut self)
        requires
            old(self).wf(),
        ensures
            final(self).wf(),
            final(self).pending() == old(self).pending(),
            final(self).capacity() == old(self).capacity(),
            final(self).head == 0,
    {
        let ghost p = self.pending();
        let n: usize = self.tail - self.head;
        let mut i: usize = 0;
        while i < n
            invariant
                self.wf(),
                n == self.tail - self.head,
                p.len() == n,
                self.buf@.len() == old(self).buf@.len(),
                i <= n,
                forall|j: int| 0 <= j < i ==> self.buf@[j] == p[j],
                forall|j: int| i <= j < n ==> self.buf@[self.head + j] == p[j],
            decreases n - i,
        {
            let b = self.buf[self.head + i];
            self.buf[i] = b;
            i = i + 1;
        }
        self.head = 0;
        self.tail = n;
        assert(self.pending() =~= p);
    }

    /// One step of the cut: hands out the frame at the front of the pending
    /// bytes once it is whole; moves the pending bytes to the front of the
    /// buffer where no frame is pending or where the frame would not fit
    /// behind them; fails where the frame can never fit.
    pub fn next_frame(&mut self) -> (r: Result<Option<Vec<u8>>, FrameTooLarge>)
        requires
            old(self).wf(),
        ensures
            final(self).wf(),
            final(self).capacity() == old(self).capacity(),
            ({
                let sp = split_frames(old(self).pending(), old(self).capacity());
                match r {
                    Err(e) => {
                        &&& sp.overflow
                        &&& sp.frames.len() == 0
                        &&& e.data_size == u32_le(old(self).pending(), 4)
                        &&& final(self).pending() == old(self).pending()
                    },
                    Ok(Some(f)) => {
                        &&& sp.frames.len() > 0
                        &&& f@ == sp.frames[0]
                        &&& final(self).pending() == old(self).pending().skip(f@.len() as int)
                    },
                    Ok(None) => {
                        &&& sp.frames.len() == 0
                        &&& !sp.overflow
                        &&& final(self).pending() == old(self).pending()
                        &&& final(self).free() > 0
                    },
                }
            }),
    {
        let ghost p = self.pending();
        let n: usize = self.tail - self.head;
        if n <= RAW_DATA_HEADER_SIZE {
            self.compact();
            return Ok(None);
        }
        let ds = read_u32_le(self.buf.as_slice(), self.head + 4);
        assert(ds == u32_le(p, 4));
        let cap = self.buf.len();
        if ds as usize > cap - RAW_DATA_HEADER_SIZE {
            return Err(FrameTooLarge { data_size: ds });
        }
        let fs: usize = RAW_DATA_HEADER_SIZE + ds as usize;
        if fs > cap - self.head {
            self.compact();
        }
        assert(self.pending().len() == self.tail - self.head);
        if n < fs {
            return Ok(None);
        }
        let frame = copy_range(self.buf.as_slice(), self.head, self.head + fs);
        assert(frame@ =~= p.take(fs as int));
        self.head = self.head + fs;
        assert(self.pending() =~= p.skip(fs as int));
        Ok(Some(frame))
    }

    /// Hands every whole frame of the pending bytes to the frame dispatcher,
    /// in order, and stops at the first that is not whole or can never fit.
    pub fn process(&mut self, out: &mut Decoded) -> (r: Result<(), FrameTooLarge>)
        requires
            old(self).wf(),
        ensures
            final(self).wf(),
            final(self).capacity() == old(self).capacity(),
            ({
                let sp = split_frames(old(self).pending(), old(self).capacity());
                &&& final(out)@ == old(out)@.followed_by(decode_frames(sp.frames))
                &&& final(self).pending() == sp.rest
                &&& (r is Err <==> sp.overflow)
                &&& r is Ok ==> final(self).free() > 0
            }),
    {
        let ghost cap = self.capacity();
        let ghost sp0 = split_frames(self.pending(), cap);
        let ghost goal = old(out)@.followed_by(decode_frames(sp0.frames));
        loop
            invariant
                self.wf(),
                self.capacity() == cap,
                cap == old(self).capacity(),
                sp0 == split_frames(old(self).pending(), old(self).capacity()),
                goal == old(out)@.followed_by(decode_frames(sp0.frames)),
                out@.followed_by(decode_frames(split_frames(self.pending(), cap).frames)) == goal,
                split_frames(self.pending(), cap).rest == sp0.rest,
                split_frames(self.pending(), cap).overflow == sp0.overflow,
            decreases self.pending().len(),
        {
            let ghost sp = split_frames(self.pending(), cap);
            let ghost before = out@;
            match self.next_frame() {
                Err(e) => {
                    proof {
                        lemma_followed_by_empty(out@);
                    }
                    return Err(e);
                },
                Ok(None) => {
                    proof {
                        lemma_followed_by_empty(out@);
                    }
                    return Ok(());
                },
                Ok(Some(f)) => {
                    handle_frame(f.as_slice(), out);
                    proof {
                        assert(sp.frames.skip(1) =~= split_frames(self.pending(), cap).frames);
                        lemma_followed_by_assoc(
                            before,
                            raw_frame(f@),
                            decode_frames(sp.frames.skip(1)),
                        );
                    }
                },
            }
        }
    }
}

} // verus!
