use vstd::prelude::*;

use crate::error::PipelineError;
use crate::rotate::{rotate_rgba, rotated, rotated_dims, rotated_size};
use crate::yuv::{convert_planar, converted, planes_cover, supported_pixel_stride, PlanarFrame};

verus! {

/// A tightly packed RGBA frame, ready for display.
pub struct OutputFrame {
    pub width: u32,
    pub height: u32,
    pub pixels: Vec<u8>,
}

/// Converts a planar YUV 4:2:0 frame to RGBA and turns it upright by
/// `turns` clockwise quarter turns, on the CPU: the reference for what the
/// GPU stages compute.
pub fn convert_and_rotate(frame: &PlanarFrame, turns: u32) -> (r: Result<OutputFrame, PipelineError>)
    requires
        turns < 4,
        frame.width <= u32::MAX,
        frame.height <= u32::MAX,
    ensures
        !supported_pixel_stride(frame@.uv_pixel_stride) ==> r == Err::<OutputFrame, PipelineError>(
            PipelineError::UnsupportedPixelFormat,
        ),
        supported_pixel_stride(frame@.uv_pixel_stride) && !planes_cover(frame@) ==> r == Err::<
            OutputFrame,
            PipelineError,
        >(PipelineError::FrameAcquisitionFailed),
        supported_pixel_stride(frame@.uv_pixel_stride) && planes_cover(frame@) ==> r is Ok,
        r matches Ok(out) ==> {
            &&& (out.width as nat, out.height as nat) == rotated_dims(
                frame@.width,
                frame@.height,
                turns as nat,
            )
            &&& out.pixels@ == rotated(converted(frame@), frame@.width, frame@.height, turns as nat)
        },
{
    let rgba = match convert_planar(frame) {
        Ok(v) => v,
        Err(e) => return Err(e),
    };
    let pixels = rotate_rgba(&rgba, frame.width, frame.height, turns);
    let (width, height) = rotated_size(frame.width as u32, frame.height as u32, turns);
    Ok(OutputFrame { width, height, pixels })
}

} // verus!
