//! Verified core of a live camera preview: YUV 4:2:0 to RGBA conversion,
//! quarter-turn rotation, row-padded readback, the capture-session state
//! machine, and frame delivery.

pub mod decoder;
pub mod delivery;
pub mod error;
pub mod formats;
pub mod metrics;
pub mod packed;
pub mod pipeline;
pub mod readback;
pub mod rotate;
pub mod session;
pub mod yuv;
