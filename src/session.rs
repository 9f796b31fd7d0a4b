use vstd::prelude::*;

use crate::error::PipelineError;

verus! {

/// Where a capture session stands.
#[derive(Debug, Clone, Copy, PartialEq, Eq, Structural)]
pub enum SessionState {
    Closed,
    Opening,
    Open,
    Configuring,
    Streaming,
    Error,
}

/// A native object that the capture session creates and must release.
#[derive(Debug, Clone, Copy, PartialEq, Eq, Structural)]
pub enum NativeResource {
    CameraDevice,
    ImageReader,
    CaptureRequest,
    OutputTarget,
    SessionOutput,
    OutputContainer,
    CaptureSession,
}

/// A capture session as a mathematical value.
pub struct SessionView {
    pub state: SessionState,
    /// Whether the camera device is open; it is created before anything else.
    pub device: bool,
    /// Capture objects held, in the order they were created.
    pub capture: Seq<NativeResource>,
    /// Whether frame callbacks may still deliver frames.
    pub live: bool,
    pub camera: Option<nat>,
}

/// The decisions of a camera capture session: which transitions its events
/// allow, which native objects it holds and in what order they were created,
/// and whether an arriving frame may be processed. The native calls are made
/// by the caller, which reports their outcome here and performs the releases
/// this object hands back.
pub struct CaptureSession {
    state: SessionState,
    device: bool,
    capture: Vec<NativeResource>,
    live: bool,
    camera: Option<usize>,
}

/// Every native object held, in the order they were created.
pub open spec fn held(s: SessionView) -> Seq<NativeResource> {
    (if s.device {
        seq![NativeResource::CameraDevice]
    } else {
        Seq::empty()
    }) + s.capture
}

/// A closed session, holding nothing.
pub open spec fn closed_view() -> SessionView {
    SessionView {
        state: SessionState::Closed,
        device: false,
        capture: Seq::empty(),
        live: false,
        camera: None,
    }
}

/// The session after `close`, and the objects to release, newest first.
pub open spec fn after_close(s: SessionView) -> (SessionView, Seq<NativeResource>) {
    (closed_view(), held(s).reverse())
}

/// Each native object is held at most once; nothing is held before the
/// device opens, and frames are accepted only while streaming.
pub open spec fn session_wf(s: SessionView) -> bool {
    &&& s.capture.no_duplicates()
    &&& !s.capture.contains(NativeResource::CameraDevice)
    &&& s.live ==> s.state == SessionState::Streaming
    &&& (s.state == SessionState::Closed || s.state == SessionState::Opening) ==> !s.device
    &&& (s.state == SessionState::Closed || s.state == SessionState::Opening || s.state
        == SessionState::Open) ==> s.capture.len() == 0
    &&& (s.state == SessionState::Open || s.state == SessionState::Configuring || s.state
        == SessionState::Streaming) ==> s.device
}

/// A frame may be processed only while streaming and not torn down.
pub open spec fn accepts(s: SessionView) -> bool {
    s.state == SessionState::Streaming && s.live
}

/// A release step hands back only objects that were held, each once, and
/// none of them is held afterwards: over any sequence of steps, each native
/// object is released at most once for each time it was created.
pub open spec fn released_once(before: SessionView, after: SessionView, released: Seq<NativeResource>) -> bool {
    &&& released.no_duplicates()
    &&& forall|x: NativeResource| #[trigger] released.contains(x) ==> held(before).contains(x) && !held(after).contains(x)
}

/// Handing back all capture objects, keeping the device, releases each once.
proof fn lemma_capture_release(before: SessionView, after: SessionView)
    requires
        session_wf(before),
        after.device == before.device,
        after.capture.len() == 0,
    ensures
        released_once(before, after, before.capture.reverse()),
{
    let r = before.capture.reverse();
    let c = before.capture;
    assert forall|a: int, b: int| 0 <= a < b < r.len() implies r[a] != r[b] by {
        assert(r[a] == c[c.len() - 1 - a]);
        assert(r[b] == c[c.len() - 1 - b]);
    }
    assert forall|x: NativeResource| #[trigger] r.contains(x) implies held(before).contains(x) && !held(after).contains(x) by {
        let k = choose|k: int| 0 <= k < r.len() && r[k] == x;
        let i = c.len() - 1 - k;
        assert(c[i] == x);
        let off = if before.device { 1int } else { 0int };
        assert(held(before)[i + off] == x);
        assert(x != NativeResource::CameraDevice);
        if after.device {
            assert(held(after) =~= seq![NativeResource::CameraDevice]);
        } else {
            assert(held(after) =~= Seq::<NativeResource>::empty());
        }
    }
}

/// Closing releases every object held exactly once, newest first; closing
/// again releases nothing and leaves the session as it was, closed.
pub proof fn lemma_close_twice(s: SessionView)
    requires
        session_wf(s),
    ensures
        session_wf(after_close(s).0),
        after_close(s).1.no_duplicates(),
        after_close(s).1.len() == held(s).len(),
        after_close(after_close(s).0).1.len() == 0,
        after_close(after_close(s).0).0 == after_close(s).0,
{
    let h = held(s);
    let r = h.reverse();
    assert(h.no_duplicates()) by {
        assert forall|a: int, b: int| 0 <= a < b < h.len() implies h[a] != h[b] by {
            if s.device {
                if a == 0 {
                    assert(h[b] == s.capture[b - 1]);
                } else {
                    assert(h[a] == s.capture[a - 1]);
                    assert(h[b] == s.capture[b - 1]);
                }
            } else {
                assert(h[a] == s.capture[a]);
                assert(h[b] == s.capture[b]);
            }
        }
    }
    assert forall|a: int, b: int| 0 <= a < b < r.len() implies r[a] != r[b] by {
        assert(r[a] == h[h.len() - 1 - a]);
        assert(r[b] == h[h.len() - 1 - b]);
    }
    assert(held(closed_view()) =~= Seq::<NativeResource>::empty());
}

/// A session on which no preview was started holds at most the device, and
/// closing it releases that alone.
pub proof fn lemma_close_before_preview(s: SessionView)
    requires
        session_wf(s),
        s.state == SessionState::Closed || s.state == SessionState::Opening || s.state
            == SessionState::Open,
    ensures
        after_close(s).1 == (if s.device {
            seq![NativeResource::CameraDevice]
        } else {
            Seq::<NativeResource>::empty()
        }),
{
    assert(after_close(s).1 =~= (if s.device {
        seq![NativeResource::CameraDevice]
    } else {
        Seq::<NativeResource>::empty()
    }));
}

/// Once the session is torn down no arriving frame is processed, until a
/// new session has been opened and configured and has become ready.
pub proof fn lemma_no_frames_after_close(s: SessionView)
    ensures
        !accepts(after_close(s).0),
{
}

/// Finds the first camera id in `ids` equal to `wanted`.
pub fn find_camera(ids: &Vec<String>, wanted: &String) -> (r: Option<usize>)
    ensures
        r matches Some(i) ==> i < ids@.len() && ids@[i as int]@ == wanted@ && forall|j: int|
            0 <= j < i ==> ids@[j]@ != wanted@,
        r is None ==> forall|j: int| 0 <= j < ids@.len() ==> ids@[j]@ != wanted@,
{
    let mut i: usize = 0;
    while i < ids.len()
        invariant
            i <= ids@.len(),
            forall|j: int| 0 <= j < i ==> ids@[j]@ != wanted@,
        decreases ids@.len() - i,
    {
        if ids[i] == *wanted {
            return Some(i);
        }
        i = i + 1;
    }
    None
}

/// The items of `v`, last first.
fn newest_first(v: &Vec<NativeResource>) -> (r: Vec<NativeResource>)
    ensures
        r@ == v@.reverse(),
{
    let mut r: Vec<NativeResource> = Vec::new();
    let mut i: usize = v.len();
    while i > 0
        invariant
            i <= v@.len(),
            r@ == v@.subrange(i as int, v@.len() as int).reverse(),
        decreases i,
    {
        i = i - 1;
        r.push(v[i]);
        proof {
            assert(v@.subrange(i as int, v@.len() as int) =~= seq![v@[i as int]] + v@.subrange(
                i as int + 1,
                v@.len() as int,
            ));
            assert(r@ =~= v@.subrange(i as int, v@.len() as int).reverse());
        }
    }
    assert(v@.subrange(0, v@.len() as int) =~= v@);
    r
}

impl View for CaptureSession {
    type V = SessionView;

    closed spec fn view(&self) -> SessionView {
        SessionView {
            state: self.state,
            device: self.device,
            capture: self.capture@,
            live: self.live,
            camera: match self.camera {
                Some(i) => Some(i as nat),
                None => None,
            },
        }
    }
}

impl CaptureSession {
    /// Each native object is held at most once, and frames are accepted
    /// only while streaming.
    pub open spec fn wf(&self) -> bool {
        session_wf(self@)
    }

    /// A closed session that holds nothing.
    pub fn new() -> (r: Self)
        ensures
            r.wf(),
            r@ == closed_view(),
    {
        let r = CaptureSession {
            state: SessionState::Closed,
            device: false,
            capture: Vec::new(),
            live: false,
            camera: None,
        };
        assert(r@.capture =~= Seq::<NativeResource>::empty());
        r
    }

    pub fn state(&self) -> (r: SessionState)
        ensures
            r == self@.state,
    {
        self.state
    }

    /// Index of the camera this session was opened for.
    pub fn camera(&self) -> (r: Option<usize>)
        ensures
            r matches Some(i) ==> self@.camera == Some(i as nat),
            r is None ==> self@.camera is None,
    {
        self.camera
    }

    /// Whether `r` is held.
    pub fn holds(&self, r: NativeResource) -> (b: bool)
        requires
            self.wf(),
        ensures
            b == held(self@).contains(r),
    {
        let ghost h = held(self@);
        proof {
            assert(h.contains(NativeResource::CameraDevice) == self.device) by {
                if self.device {
                    assert(h[0] == NativeResource::CameraDevice);
                }
            }
        }
        if r == NativeResource::CameraDevice {
            return self.device;
        }
        let mut i: usize = 0;
        while i < self.capture.len()
            invariant
                i <= self@.capture.len(),
                h == held(self@),
                forall|j: int| 0 <= j < i ==> self@.capture[j] != r,
            decreases self@.capture.len() - i,
        {
            if self.capture[i] == r {
                proof {
                    let k = if self.device {
                        i as int + 1
                    } else {
                        i as int
                    };
                    assert(h.len() == self@.capture.len() + (if self.device {
                        1int
                    } else {
                        0int
                    }));
                    assert(h[k] == self@.capture[i as int]);
                }
                return true;
            }
            i = i + 1;
        }
        proof {
            if h.contains(r) {
                let k = choose|k: int| 0 <= k < h.len() && h[k] == r;
                if self.device {
                    assert(self@.capture[k - 1] == r);
                } else {
                    assert(self@.capture[k] == r);
                }
            }
        }
        false
    }

    /// Starts opening the camera whose id is `wanted` among `camera_ids`.
    /// Fails, and changes nothing, when the session is not closed, when
    /// camera access is not `permitted`, or when no id matches; otherwise the
    /// session is opening and the index of the matching id is returned.
    pub fn open(&mut self, camera_ids: &Vec<String>, wanted: &String, permitted: bool) -> (r: Result<
        usize,
        PipelineError,
    >)
        requires
            old(self).wf(),
        ensures
            final(self).wf(),
            old(self)@.state != SessionState::Closed ==> r == Err::<usize, PipelineError>(
                PipelineError::DeviceOpenFailed,
            ),
            old(self)@.state == SessionState::Closed && !permitted ==> r == Err::<
                usize,
                PipelineError,
            >(PipelineError::PermissionDenied),
            old(self)@.state == SessionState::Closed && permitted ==> (r is Ok <==> exists|j: int|
                0 <= j < camera_ids@.len() && camera_ids@[j]@ == wanted@),
            old(self)@.state == SessionState::Closed && permitted && (forall|j: int|
                0 <= j < camera_ids@.len() ==> camera_ids@[j]@ != wanted@) ==> r == Err::<
                usize,
                PipelineError,
            >(PipelineError::DeviceNotFound),
            r matches Err(e) ==> final(self)@ == old(self)@ && (e == PipelineError::DeviceOpenFailed
                || e == PipelineError::PermissionDenied || e == PipelineError::DeviceNotFound),
            r matches Ok(i) ==> {
                &&& i < camera_ids@.len()
                &&& camera_ids@[i as int]@ == wanted@
                &&& forall|j: int| 0 <= j < i ==> camera_ids@[j]@ != wanted@
                &&& final(self)@ == (SessionView {
                    state: SessionState::Opening,
                    camera: Some(i as nat),
                    ..old(self)@
                })
            },
    {
        if self.state != SessionState::Closed {
            return Err(PipelineError::DeviceOpenFailed);
        }
        if !permitted {
            return Err(PipelineError::PermissionDenied);
        }
        match find_camera(camera_ids, wanted) {
            None => Err(PipelineError::DeviceNotFound),
            Some(i) => {
                self.state = SessionState::Opening;
                self.camera = Some(i);
                Ok(i)
            },
        }
    }

    /// Records a capture object the caller has just created while
    /// configuring. Returns false, and changes nothing, when it is already
    /// held, when it is the device (see `device_opened`), or when the session
    /// is not configuring.
    pub fn acquired(&mut self, r: NativeResource) -> (added: bool)
        requires
            old(self).wf(),
        ensures
            final(self).wf(),
            added == (!held(old(self)@).contains(r) && r != NativeResource::CameraDevice
                && old(self)@.state == SessionState::Configuring),
            added ==> held(final(self)@) == held(old(self)@).push(r) && final(self)@ == (
            SessionView { capture: old(self)@.capture.push(r), ..old(self)@ }),
            !added ==> final(self)@ == old(self)@,
    {
        if r == NativeResource::CameraDevice || self.state != SessionState::Configuring {
            return false;
        }
        if self.holds(r) {
            return false;
        }
        self.capture.push(r);
        proof {
            assert(self@.capture == old(self)@.capture.push(r));
            assert(!old(self)@.capture.contains(r)) by {
                if old(self)@.capture.contains(r) {
                    let k = choose|k: int|
                        0 <= k < old(self)@.capture.len() && old(self)@.capture[k] == r;
                    let off = if old(self)@.device {
                        1int
                    } else {
                        0int
                    };
                    assert(held(old(self)@)[k + off] == old(self)@.capture[k]);
                }
            }
            assert forall|a: int, b: int|
                0 <= a < b < self@.capture.len() implies self@.capture[a] != self@.capture[b] by {
                if b == self@.capture.len() - 1 {
                    assert(old(self)@.capture[a] != r);
                }
            }
            assert(!self@.capture.contains(NativeResource::CameraDevice)) by {
                if self@.capture.contains(NativeResource::CameraDevice) {
                    let k = choose|k: int|
                        0 <= k < self@.capture.len() && self@.capture[k]
                            == NativeResource::CameraDevice;
                    if k < old(self)@.capture.len() {
                        assert(old(self)@.capture[k] == NativeResource::CameraDevice);
                    }
                }
            }
            assert(held(self@) =~= held(old(self)@).push(r));
        }
        true
    }

    /// The camera service has opened the device: the session holds it and is open.
    pub fn device_opened(&mut self) -> (r: Result<(), PipelineError>)
        requires
            old(self).wf(),
        ensures
            final(self).wf(),
            r is Ok <==> old(self)@.state == SessionState::Opening,
            r is Ok ==> final(self)@ == (SessionView {
                state: SessionState::Open,
                device: true,
                ..old(self)@
            }),
            r matches Err(e) ==> e == PipelineError::DeviceOpenFailed && final(self)@ == old(
                self,
            )@,
    {
        if self.state != SessionState::Opening {
            return Err(PipelineError::DeviceOpenFailed);
        }
        self.state = SessionState::Open;
        self.device = true;
        Ok(())
    }

    /// Starts configuring a preview stream. Allowed while open or streaming;
    /// a stream already set up is replaced, so its capture objects are handed
    /// back for release, newest first, and frames stop until the new session
    /// is ready. The device stays open.
    pub fn begin_preview(&mut self) -> (r: Result<Vec<NativeResource>, PipelineError>)
        requires
            old(self).wf(),
        ensures
            final(self).wf(),
            r is Ok <==> (old(self)@.state == SessionState::Open || old(self)@.state
                == SessionState::Streaming),
            r matches Err(e) ==> e == PipelineError::SessionConfigurationFailed && final(self)@
                == old(self)@,
            r matches Ok(released) ==> released@ == old(self)@.capture.reverse() && final(self)@
                == (SessionView {
                state: SessionState::Configuring,
                capture: Seq::empty(),
                live: false,
                ..old(self)@
            }),
            r matches Ok(released) ==> released_once(old(self)@, final(self)@, released@),
    {
        if self.state != SessionState::Open && self.state != SessionState::Streaming {
            return Err(PipelineError::SessionConfigurationFailed);
        }
        let released = newest_first(&self.capture);
        self.capture = Vec::new();
        self.state = SessionState::Configuring;
        self.live = false;
        proof {
            assert(self@.capture =~= Seq::<NativeResource>::empty());
            lemma_capture_release(old(self)@, self@);
        }
        Ok(released)
    }

    /// Abandons a configuration that failed part-way: hands back the capture
    /// objects created so far, newest first, and returns to the open device,
    /// so that a preview can be started again. Allowed while configuring, and
    /// after an error while the device is still held.
    pub fn abort_preview(&mut self) -> (r: Result<Vec<NativeResource>, PipelineError>)
        requires
            old(self).wf(),
        ensures
            final(self).wf(),
            r is Ok <==> (old(self)@.state == SessionState::Configuring || (old(self)@.state
                == SessionState::Error && old(self)@.device)),
            r matches Err(e) ==> e == PipelineError::SessionConfigurationFailed && final(self)@
                == old(self)@,
            r matches Ok(released) ==> released@ == old(self)@.capture.reverse() && final(self)@
                == (SessionView {
                state: SessionState::Open,
                capture: Seq::empty(),
                live: false,
                ..old(self)@
            }),
            r matches Ok(released) ==> released_once(old(self)@, final(self)@, released@),
    {
        if !(self.state == SessionState::Configuring || (self.state == SessionState::Error
            && self.device)) {
            return Err(PipelineError::SessionConfigurationFailed);
        }
        let released = newest_first(&self.capture);
        self.capture = Vec::new();
        self.state = SessionState::Open;
        self.live = false;
        proof {
            assert(self@.capture =~= Seq::<NativeResource>::empty());
            lemma_capture_release(old(self)@, self@);
        }
        Ok(released)
    }

    /// The capture session reports itself ready: frames may now arrive.
    pub fn session_ready(&mut self) -> (r: Result<(), PipelineError>)
        requires
            old(self).wf(),
        ensures
            final(self).wf(),
            r is Ok <==> old(self)@.state == SessionState::Configuring,
            r is Ok ==> final(self)@ == (SessionView {
                state: SessionState::Streaming,
                live: true,
                ..old(self)@
            }),
            r matches Err(e) ==> e == PipelineError::SessionConfigurationFailed && final(self)@
                == old(self)@,
    {
        if self.state != SessionState::Configuring {
            return Err(PipelineError::SessionConfigurationFailed);
        }
        self.state = SessionState::Streaming;
        self.live = true;
        Ok(())
    }

    /// The device or the capture session reports an error: frames stop and
    /// only `close` is left to do.
    pub fn fail(&mut self)
        requires
            old(self).wf(),
        ensures
            final(self).wf(),
            final(self)@ == (SessionView { state: SessionState::Error, live: false, ..old(self)@ }),
    {
        self.state = SessionState::Error;
        self.live = false;
    }

    /// Tears the session down from any state: returns every native object
    /// held, newest first, each exactly once, and leaves the session closed,
    /// holding nothing and refusing frames. Closing again hands back nothing.
    pub fn close(&mut self) -> (released: Vec<NativeResource>)
        requires
            old(self).wf(),
        ensures
            final(self).wf(),
            (final(self)@, released@) == after_close(old(self)@),
            released_once(old(self)@, final(self)@, released@),
    {
        let mut released = newest_first(&self.capture);
        if self.device {
            released.push(NativeResource::CameraDevice);
        }
        proof {
            let s = old(self)@;
            if s.device {
                assert(held(s) =~= seq![NativeResource::CameraDevice] + s.capture);
                assert((seq![NativeResource::CameraDevice] + s.capture).reverse() =~= s.capture.reverse().push(NativeResource::CameraDevice));
            } else {
                assert(held(s) =~= s.capture);
            }
        }
        self.capture = Vec::new();
        self.device = false;
        self.state = SessionState::Closed;
        self.live = false;
        self.camera = None;
        proof {
            assert(self@.capture =~= Seq::<NativeResource>::empty());
            lemma_close_twice(old(self)@);
            assert(held(self@) =~= Seq::<NativeResource>::empty());
            assert forall|x: NativeResource| #[trigger] released@.contains(x) implies held(old(self)@).contains(x) by {
                let k = choose|k: int| 0 <= k < released@.len() && released@[k] == x;
                assert(held(old(self)@)[held(old(self)@).len() - 1 - k] == x);
            }
        }
        released
    }

    /// Whether a frame that has just arrived may be processed and delivered.
    pub fn accepts_frames(&self) -> (r: bool)
        ensures
            r == accepts(self@),
    {
        self.state == SessionState::Streaming && self.live
    }

    /// Decides what follows a failure while processing one frame: true when
    /// the stream goes on. A frame that was discarded, could not be read or
    /// failed on the GPU is skipped; a vanished consumer stops delivery.
    pub fn frame_failed(&mut self, e: PipelineError) -> (go_on: bool)
        requires
            old(self).wf(),
        ensures
            final(self).wf(),
            go_on == (e != PipelineError::ChannelClosed),
            go_on ==> final(self)@ == old(self)@,
            !go_on ==> final(self)@ == (SessionView { live: false, ..old(self)@ }),
    {
        if e == PipelineError::ChannelClosed {
            self.live = false;
            false
        } else {
            true
        }
    }
}

} // verus!
