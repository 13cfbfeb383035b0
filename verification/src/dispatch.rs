//! Frame dispatch policy.
//!
//! Display-ready frames are handed off through a fixed-capacity queue with
//! non-blocking, drop-if-full semantics: when the consumer is behind, the
//! newest frame is dropped rather than stalling the network and decode
//! path, and the frames already queued keep their order.

use vstd::prelude::*;
use crate::RgbFrame;

verus! {

/// Number of slots in the hand-off queue.
pub const FRAME_QUEUE_CAPACITY: usize = 4;

/// Bounded FIFO hand-off queue for decoded frames.
pub struct FrameQueue {
    frames: Vec<RgbFrame>,
}

impl View for FrameQueue {
    type V = Seq<RgbFrame>;

    closed spec fn view(&self) -> Seq<RgbFrame> {
        self.frames@
    }
}

impl FrameQueue {
    /// The queue never holds more frames than it has slots.
    pub open spec fn wf(&self) -> bool {
        self@.len() <= FRAME_QUEUE_CAPACITY
    }

    /// An empty queue.
    pub fn new() -> (q: FrameQueue)
        ensures
            q@ == Seq::<RgbFrame>::empty(),
            q.wf(),
    {
        FrameQueue { frames: Vec::new() }
    }

    /// Number of frames currently queued.
    pub fn len(&self) -> (n: usize)
        ensures
            n == self@.len(),
    {
        self.frames.len()
    }

    /// Offer a frame without blocking: it is appended when a slot is free,
    /// and dropped when the queue is full — the frames already queued are
    /// left exactly as they were, in order.
    pub fn offer(&mut self, frame: RgbFrame) -> (accepted: bool)
        requires
            old(self).wf(),
        ensures
            final(self).wf(),
            accepted <==> old(self)@.len() < FRAME_QUEUE_CAPACITY,
            accepted ==> final(self)@ == old(self)@.push(frame),
            !accepted ==> final(self)@ == old(self)@,
    {
        if self.frames.len() < FRAME_QUEUE_CAPACITY {
            self.frames.push(frame);
            true
        } else {
            false
        }
    }

    /// Take the oldest queued frame, if any.
    pub fn take(&mut self) -> (r: Option<RgbFrame>)
        requires
            old(self).wf(),
        ensures
            final(self).wf(),
            old(self)@.len() == 0 ==> r is None && final(self)@ == old(self)@,
            old(self)@.len() > 0 ==> {
                &&& r is Some
                &&& r->Some_0 == old(self)@[0]
                &&& final(self)@ == old(self)@.skip(1)
            },
    {
        if self.frames.len() == 0 {
            None
        } else {
            let frame = self.frames.remove(0);
            proof {
                assert(self.frames@ =~= old(self)@.skip(1));
            }
            Some(frame)
        }
    }
}

} // verus!
