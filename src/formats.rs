use vstd::prelude::*;

use crate::error::PipelineError;
use crate::rotate::{quarter_turns, turns_of_degrees};

verus! {

/// Pixel-format tag of the camera's planar YUV 4:2:0 output.
pub const FORMAT_YUV_420_888: i32 = 0x23;

/// One output stream configuration that a camera advertises.
#[derive(Debug, Clone, Copy, PartialEq, Eq, Structural)]
pub struct StreamFormat {
    pub width: i32,
    pub height: i32,
    pub format: i32,
}

/// The YUV 4:2:0 output configurations among the first `n` records of a
/// stream-configuration list, in order; each record is four integers:
/// format, width, height, and whether it is an input stream.
pub open spec fn yuv_outputs(entries: Seq<i32>, n: nat) -> Seq<StreamFormat>
    decreases n,
{
    if n == 0 {
        Seq::empty()
    } else {
        let prev = yuv_outputs(entries, (n - 1) as nat);
        let b = (n - 1) * 4;
        if entries[b + 3] == 0 && entries[b] == FORMAT_YUV_420_888 {
            prev.push(StreamFormat { width: entries[b + 1], height: entries[b + 2], format: entries[b] })
        } else {
            prev
        }
    }
}

/// The YUV 4:2:0 output sizes that a camera's stream-configuration list
/// advertises, in the order listed; a trailing partial record is ignored.
pub fn yuv_stream_formats(entries: &Vec<i32>) -> (r: Vec<StreamFormat>)
    ensures
        r@ == yuv_outputs(entries@, entries@.len() / 4),
{
    let len: usize = entries.len();
    let n: usize = len / 4;
    let mut out: Vec<StreamFormat> = Vec::new();
    let mut i: usize = 0;
    while i < n
        invariant
            len == entries@.len(),
            n == len / 4,
            i <= n,
            out@ == yuv_outputs(entries@, i as nat),
        decreases n - i,
    {
        assert(i * 4 + 3 < len);
        let b: usize = i * 4;
        let format = entries[b];
        let input = entries[b + 3];
        if input == 0 && format == FORMAT_YUV_420_888 {
            out.push(StreamFormat { width: entries[b + 1], height: entries[b + 2], format });
        }
        i = i + 1;
    }
    out
}

/// Which way a camera faces.
#[derive(Debug, Clone, Copy, PartialEq, Eq, Structural)]
pub enum LensFacing {
    Front,
    Back,
    External,
}

/// The lens-facing value that camera metadata reports.
pub open spec fn facing_of(v: u8) -> Option<LensFacing> {
    if v == 0 {
        Some(LensFacing::Front)
    } else if v == 1 {
        Some(LensFacing::Back)
    } else if v == 2 {
        Some(LensFacing::External)
    } else {
        None
    }
}

/// A camera as found when it is opened: its position in the camera list,
/// which way it faces, and the clockwise quarter turns its sensor needs.
#[derive(Debug, Clone, Copy, PartialEq, Eq, Structural)]
pub struct CameraIdentity {
    pub index: usize,
    pub facing: LensFacing,
    pub orientation_turns: u32,
}

/// Builds a camera's identity from its metadata entries for lens facing and
/// sensor orientation (the first value of each counts). Fails when either
/// entry is empty or holds a value that no camera reports.
pub fn camera_identity(index: usize, lens_facing: &Vec<u8>, sensor_orientation: &Vec<i32>) -> (r:
    Result<CameraIdentity, PipelineError>)
    ensures
        r is Ok <==> (lens_facing@.len() > 0 && sensor_orientation@.len() > 0 && facing_of(
            lens_facing@[0],
        ) is Some && turns_of_degrees(sensor_orientation@[0] as int) is Some),
        r matches Ok(c) ==> c.index == index && Some(c.facing) == facing_of(lens_facing@[0])
            && turns_of_degrees(sensor_orientation@[0] as int) == Some(c.orientation_turns as nat),
        r matches Err(e) ==> e == PipelineError::DeviceOpenFailed,
{
    if lens_facing.len() == 0 || sensor_orientation.len() == 0 {
        return Err(PipelineError::DeviceOpenFailed);
    }
    let v = lens_facing[0];
    let facing = if v == 0 {
        LensFacing::Front
    } else if v == 1 {
        LensFacing::Back
    } else if v == 2 {
        LensFacing::External
    } else {
        return Err(PipelineError::DeviceOpenFailed);
    };
    match quarter_turns(sensor_orientation[0]) {
        Some(t) => Ok(CameraIdentity { index, facing, orientation_turns: t }),
        None => Err(PipelineError::DeviceOpenFailed),
    }
}

} // verus!
