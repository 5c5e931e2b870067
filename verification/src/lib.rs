//! Capture logic for wlroots-style screen copy: output discovery, the
//! per-frame protocol state machine, pixel-format conversion, region geometry
//! and image composition.

pub mod compose;
pub mod convert;
pub mod dispatch;
pub mod error;
pub mod image_util;
pub mod output;
pub mod region;
pub mod screencopy;
pub mod utils;

pub use crate::error::Error;
pub use crate::region::CaptureRegion;
