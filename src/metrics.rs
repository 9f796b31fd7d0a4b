use vstd::prelude::*;

verus! {

/// Length of one frame-rate window, in milliseconds.
pub const WINDOW_MS: u64 = 1000;

/// Counts delivered frames and reports the count once more than a second
/// has passed since the window began; for observation only.
pub struct FrameRateCounter {
    frames: u32,
    window_start_ms: u64,
}

impl FrameRateCounter {
    pub closed spec fn spec_frames(&self) -> nat {
        self.frames as nat
    }

    pub closed spec fn spec_window_start(&self) -> nat {
        self.window_start_ms as nat
    }

    /// A counter whose first window begins at `now_ms`.
    pub fn new(now_ms: u64) -> (r: Self)
        ensures
            r.spec_frames() == 0,
            r.spec_window_start() == now_ms,
    {
        FrameRateCounter { frames: 0, window_start_ms: now_ms }
    }

    /// Counts one frame at `now_ms`. When more than a second has passed since
    /// the window began, returns the frames counted in it, this one included,
    /// and starts a new window at `now_ms`.
    pub fn record_frame(&mut self, now_ms: u64) -> (r: Option<u32>)
        ensures
            ({
                let count = if old(self).spec_frames() < u32::MAX {
                    old(self).spec_frames() + 1
                } else {
                    old(self).spec_frames()
                };
                if now_ms > old(self).spec_window_start() + WINDOW_MS {
                    &&& r == Some(count as u32)
                    &&& final(self).spec_frames() == 0
                    &&& final(self).spec_window_start() == now_ms
                } else {
                    &&& r is None
                    &&& final(self).spec_frames() == count
                    &&& final(self).spec_window_start() == old(self).spec_window_start()
                }
            }),
    {
        let count = if self.frames < u32::MAX {
            self.frames + 1
        } else {
            self.frames
        };
        if now_ms > self.window_start_ms && now_ms - self.window_start_ms > WINDOW_MS {
            self.frames = 0;
            self.window_start_ms = now_ms;
            Some(count)
        } else {
            self.frames = count;
            None
        }
    }
}

} // verus!
