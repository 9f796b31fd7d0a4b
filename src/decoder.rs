use vstd::prelude::*;

use crate::error::PipelineError;
use crate::readback::{padded_row_spec, strip_padding, stripped, ROW_ALIGNMENT};
use crate::rotate::{rotated_dims, rotated_size};

verus! {

/// Largest texture side the GPU device is asked to support (wgpu's default
/// `max_texture_dimension_2d`).
pub const MAX_TEXTURE_SIDE: u32 = 8192;

/// Side of the square tile that one workgroup of the conversion program covers.
pub const CONVERT_TILE: u32 = 8;

/// Side of the square tile that one workgroup of the rotation program covers.
pub const ROTATE_TILE: u32 = 16;

/// The cached output of the rotation stage: built for one quarter-turn count.
#[derive(Debug, Clone, Copy, PartialEq, Eq, Structural)]
pub struct RotationTarget {
    pub turns: u32,
    pub width: u32,
    pub height: u32,
}

/// The host-side state of the GPU decode pipeline for frames of one size:
/// texture sizes, the staging buffer's row layout, and which rotation output
/// is currently built. The GPU objects themselves live beside it, with the
/// caller that owns the device.
pub struct YuvGpuDecoder {
    width: u32,
    height: u32,
    padded_bytes_per_row: usize,
    unpadded_bytes_per_row: usize,
    rotation: Option<RotationTarget>,
}

/// `ceil(n / d)`.
pub open spec fn div_ceil(n: nat, d: nat) -> nat {
    ((n + d - 1) / d as int) as nat
}

impl YuvGpuDecoder {
    /// Width of the luma texture.
    pub closed spec fn spec_width(&self) -> nat {
        self.width as nat
    }

    /// Height of the luma texture.
    pub closed spec fn spec_height(&self) -> nat {
        self.height as nat
    }

    /// The rotation output that is built, if any.
    pub closed spec fn spec_rotation(&self) -> Option<RotationTarget> {
        self.rotation
    }

    pub closed spec fn wf(&self) -> bool {
        &&& 0 < self.width <= MAX_TEXTURE_SIDE
        &&& 0 < self.height <= MAX_TEXTURE_SIDE
        &&& self.padded_bytes_per_row == padded_row_spec(self.width as nat)
        &&& self.unpadded_bytes_per_row == self.width * 4
        &&& self.rotation matches Some(t) ==> {
            &&& 1 <= t.turns < 4
            &&& (t.width as nat, t.height as nat) == rotated_dims(
                self.width as nat,
                self.height as nat,
                t.turns as nat,
            )
        }
    }

    /// Width and height of the frames that leave the pipeline.
    pub open spec fn spec_output_size(&self) -> (nat, nat) {
        match self.spec_rotation() {
            Some(t) => (t.width as nat, t.height as nat),
            None => (self.spec_width(), self.spec_height()),
        }
    }

    /// Sets up the pipeline state for `width` by `height` frames; fails when
    /// either side is zero or beyond what the device supports.
    pub fn new(width: u32, height: u32) -> (r: Result<Self, PipelineError>)
        ensures
            (0 < width <= MAX_TEXTURE_SIDE && 0 < height <= MAX_TEXTURE_SIDE) <==> r.is_ok(),
            r matches Ok(d) ==> {
                &&& d.wf()
                &&& d.spec_width() == width
                &&& d.spec_height() == height
                &&& d.spec_rotation() is None
            },
            r matches Err(e) ==> e == PipelineError::GpuInitializationFailed,
    {
        if width == 0 || height == 0 || width > MAX_TEXTURE_SIDE || height > MAX_TEXTURE_SIDE {
            return Err(PipelineError::GpuInitializationFailed);
        }
        Ok(YuvGpuDecoder {
            width,
            height,
            padded_bytes_per_row: Self::padded_bytes_per_row(width),
            unpadded_bytes_per_row: width as usize * 4,
            rotation: None,
        })
    }

    /// Bytes per row of the staging buffer that receives a texture `width`
    /// pixels wide: the packed row rounded up to the next multiple of 256.
    pub fn padded_bytes_per_row(width: u32) -> (r: usize)
        requires
            width as nat * 4 + 255 <= usize::MAX,
        ensures
            r == padded_row_spec(width as nat),
            r >= width as nat * 4,
            r % 256 == 0,
            r < width as nat * 4 + 256,
    {
        let bytes_per_row: usize = width as usize * 4;
        let padding: usize = (ROW_ALIGNMENT - bytes_per_row % ROW_ALIGNMENT) % ROW_ALIGNMENT;
        bytes_per_row + padding
    }

    pub fn width(&self) -> (r: u32)
        ensures
            r == self.spec_width(),
    {
        self.width
    }

    pub fn height(&self) -> (r: u32)
        ensures
            r == self.spec_height(),
    {
        self.height
    }

    /// Size of the chroma texture: half the luma size in each dimension.
    pub fn chroma_size(&self) -> (r: (u32, u32))
        ensures
            r.0 == self.spec_width() / 2,
            r.1 == self.spec_height() / 2,
    {
        (self.width / 2, self.height / 2)
    }

    /// Workgroups that cover the full-resolution grid in tiles of eight by eight.
    pub fn convert_workgroups(&self) -> (r: (u32, u32))
        requires
            self.wf(),
        ensures
            r.0 == div_ceil(self.spec_width(), CONVERT_TILE as nat),
            r.1 == div_ceil(self.spec_height(), CONVERT_TILE as nat),
    {
        ((self.width + CONVERT_TILE - 1) / CONVERT_TILE, (self.height + CONVERT_TILE - 1)
            / CONVERT_TILE)
    }

    /// Workgroups of the rotation program, in tiles of sixteen by sixteen over
    /// the converted texture.
    pub fn rotate_workgroups(&self) -> (r: (u32, u32))
        requires
            self.wf(),
        ensures
            r.0 == div_ceil(self.spec_width(), ROTATE_TILE as nat),
            r.1 == div_ceil(self.spec_height(), ROTATE_TILE as nat),
    {
        ((self.width + ROTATE_TILE - 1) / ROTATE_TILE, (self.height + ROTATE_TILE - 1)
            / ROTATE_TILE)
    }

    /// Makes the rotation stage match `turns` quarter turns. Returns whether
    /// the rotation output texture and its binding must be built now: only
    /// when a rotation is needed and the one built is for another angle.
    pub fn prepare_rotation(&mut self, turns: u32) -> (rebuild: bool)
        requires
            old(self).wf(),
            turns < 4,
        ensures
            final(self).wf(),
            final(self).spec_width() == old(self).spec_width(),
            final(self).spec_height() == old(self).spec_height(),
            turns == 0 ==> final(self).spec_rotation() is None && !rebuild,
            turns != 0 ==> final(self).spec_rotation() == Some(
                RotationTarget {
                    turns,
                    width: rotated_dims(
                        old(self).spec_width(),
                        old(self).spec_height(),
                        turns as nat,
                    ).0 as u32,
                    height: rotated_dims(
                        old(self).spec_width(),
                        old(self).spec_height(),
                        turns as nat,
                    ).1 as u32,
                },
            ),
            turns != 0 ==> (rebuild <==> !(old(self).spec_rotation() matches Some(t)
                && t.turns == turns)),
    {
        if turns == 0 {
            self.rotation = None;
            return false;
        }
        let rebuild = match self.rotation {
            Some(t) => t.turns != turns,
            None => true,
        };
        if rebuild {
            let (w, h) = rotated_size(self.width, self.height, turns);
            self.rotation = Some(RotationTarget { turns, width: w, height: h });
        }
        rebuild
    }

    /// Width and height of the frames that leave the pipeline.
    pub fn output_size(&self) -> (r: (u32, u32))
        requires
            self.wf(),
        ensures
            (r.0 as nat, r.1 as nat) == self.spec_output_size(),
    {
        match self.rotation {
            Some(t) => (t.width, t.height),
            None => (self.width, self.height),
        }
    }

    /// Bytes per row and total bytes of the staging buffer for the output texture.
    pub fn staging_layout(&self) -> (r: (usize, usize))
        requires
            self.wf(),
        ensures
            r.0 == padded_row_spec(self.spec_output_size().0),
            r.1 == r.0 * self.spec_output_size().1,
    {
        let (w, h) = self.output_size();
        let row = Self::padded_bytes_per_row(w);
        assert(row * h <= (8192 * 4 + 256) * 8192) by (nonlinear_arith)
            requires
                row < w * 4 + 256,
                w <= 8192,
                h <= 8192,
        ;
        (row, row * h as usize)
    }

    /// Clockwise angle in degrees that the rotation program applies: 0 when
    /// no rotation output is built.
    pub fn rotation_degrees(&self) -> (r: i32)
        requires
            self.wf(),
        ensures
            r == (match self.spec_rotation() {
                Some(t) => t.turns * 90,
                None => 0,
            }),
    {
        match self.rotation {
            Some(t) => t.turns as i32 * 90,
            None => 0,
        }
    }

    /// Contents of the rotation program's parameter buffer: the angle in
    /// degrees as one little-endian `i32`, as the GPU reads it.
    pub fn rotation_uniform(&self) -> (r: Vec<u8>)
        requires
            self.wf(),
        ensures
            ({
                let d = match self.spec_rotation() {
                    Some(t) => t.turns * 90,
                    None => 0,
                };
                r@ == seq![(d % 256) as u8, (d / 256) as u8, 0u8, 0u8]
            }),
    {
        let d = self.rotation_degrees();
        let mut r: Vec<u8> = Vec::new();
        r.push((d % 256) as u8);
        r.push((d / 256) as u8);
        r.push(0u8);
        r.push(0u8);
        assert(r@ =~= seq![(d % 256) as u8, (d / 256) as u8, 0u8, 0u8]);
        r
    }

    /// Strips the row padding from the staging buffer's contents, giving the
    /// output frame as packed RGBA. Fails when the buffer is shorter than the
    /// staging layout.
    pub fn readback(&self, padded_data: &Vec<u8>) -> (r: Result<Vec<u8>, PipelineError>)
        requires
            self.wf(),
        ensures
            ({
                let (w, h) = self.spec_output_size();
                let stride = padded_row_spec(w);
                &&& r is Ok <==> stride * h <= padded_data@.len()
                &&& r matches Ok(out) ==> out@ == stripped(padded_data@, w * 4, stride, h)
                &&& r matches Err(e) ==> e == PipelineError::GpuSubmissionFailed
            }),
    {
        let (w, h) = self.output_size();
        let (stride, total) = self.staging_layout();
        if padded_data.len() < total {
            return Err(PipelineError::GpuSubmissionFailed);
        }
        Ok(strip_padding(padded_data, w as usize * 4, stride, h as usize))
    }
}

} // verus!
