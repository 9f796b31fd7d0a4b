use vstd::prelude::*;

verus! {

/// Hands packed frames from the capture thread to the display layer, first
/// in, first out. It holds at most `capacity` frames; a frame pushed when it
/// is full makes the oldest one leave, so the producer never waits.
pub struct FrameQueue {
    frames: Vec<Vec<u8>>,
    capacity: usize,
}

impl View for FrameQueue {
    type V = Seq<Vec<u8>>;

    closed spec fn view(&self) -> Seq<Vec<u8>> {
        self.frames@
    }
}

impl FrameQueue {
    pub closed spec fn spec_capacity(&self) -> nat {
        self.capacity as nat
    }

    pub open spec fn wf(&self) -> bool {
        0 < self.spec_capacity() && self@.len() <= self.spec_capacity()
    }

    /// An empty queue that holds up to `capacity` frames.
    pub fn new(capacity: usize) -> (r: Self)
        requires
            capacity > 0,
        ensures
            r.wf(),
            r@.len() == 0,
            r.spec_capacity() == capacity,
    {
        FrameQueue { frames: Vec::new(), capacity }
    }

    pub fn len(&self) -> (r: usize)
        ensures
            r == self@.len(),
    {
        self.frames.len()
    }

    /// Appends `frame`; when the queue is full the oldest frame is dropped
    /// first, and the result says so.
    pub fn push(&mut self, frame: Vec<u8>) -> (dropped: bool)
        requires
            old(self).wf(),
        ensures
            final(self).wf(),
            final(self).spec_capacity() == old(self).spec_capacity(),
            dropped == (old(self)@.len() == old(self).spec_capacity()),
            dropped ==> final(self)@ == old(self)@.drop_first().push(frame),
            !dropped ==> final(self)@ == old(self)@.push(frame),
    {
        let dropped = self.frames.len() == self.capacity;
        if dropped {
            self.frames.remove(0);
            assert(self.frames@ =~= old(self)@.drop_first());
        }
        self.frames.push(frame);
        dropped
    }

    /// Takes the oldest frame, if any.
    pub fn pop(&mut self) -> (r: Option<Vec<u8>>)
        requires
            old(self).wf(),
        ensures
            final(self).wf(),
            final(self).spec_capacity() == old(self).spec_capacity(),
            old(self)@.len() == 0 ==> r is None && final(self)@ == old(self)@,
            old(self)@.len() > 0 ==> r == Some(old(self)@[0]) && final(self)@ == old(
                self,
            )@.drop_first(),
    {
        if self.frames.len() == 0 {
            return None;
        }
        let f = self.frames.remove(0);
        assert(self.frames@ =~= old(self)@.drop_first());
        Some(f)
    }
}

} // verus!
