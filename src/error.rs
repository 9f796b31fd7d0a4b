use vstd::prelude::*;

verus! {

/// What can go wrong while opening a camera, configuring a stream or
/// processing a frame.
#[derive(Debug, Clone, Copy, PartialEq, Eq, Structural)]
pub enum PipelineError {
    /// The process lacks camera authorization.
    PermissionDenied,
    /// No camera with the requested identity is present.
    DeviceNotFound,
    /// The camera service refused to open the device.
    DeviceOpenFailed,
    /// The capture target, request or session could not be set up, or the
    /// session was not in a state that allows it.
    SessionConfigurationFailed,
    /// A frame could not be acquired, or its planes do not cover its size.
    FrameAcquisitionFailed,
    /// The platform dropped the frame before it could be read; not fatal.
    FrameDiscarded,
    /// The frame's layout is not one the converter understands.
    UnsupportedPixelFormat,
    /// The GPU device or its programs could not be created.
    GpuInitializationFailed,
    /// Submitting or reading back one frame's GPU work failed.
    GpuSubmissionFailed,
    /// The consumer of delivered frames is gone.
    ChannelClosed,
}

} // verus!
