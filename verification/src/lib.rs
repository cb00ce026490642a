//! Verified planning and bookkeeping for a GPU debanding filter.
//!
//! The crate holds everything the filter decides: which planes are
//! processed, how textures are described, how shader recordings move through
//! their life cycle, in which order device operations are requested for a
//! frame, and that every texture handed to a frame is released again. The
//! device itself is driven by the caller, which performs each requested
//! operation and reports its outcome.
//!
//! - `planes`, `deband`: the filter's arguments and what it is created from.
//! - `colorspace`, `gpu`, `shaders_root`, `dispatch`, `vulkan`, `log`: the
//!   device's objects as the filter sees them.
//! - `pipeline`: the course of one frame, step by step.
//! - `trace`, `outcome`: what is proved of every course a frame can take.
//! - `blit`: copying a plane; `text`: numerals for messages.
pub mod blit;
pub mod colorspace;
pub mod deband;
pub mod dispatch;
pub mod gpu;
pub mod log;
pub mod outcome;
pub mod pipeline;
pub mod planes;
pub mod shaders_root;
pub mod text;
pub mod trace;
pub mod vulkan;

use vstd::prelude::*;

verus! {

/// Major version of the device library that the descriptions follow.
pub const PL_MAJOR_VER: u32 = 7;

/// Version of the device library's interface that a diagnostic sink is
/// created for.
pub const PL_API_VER: u32 = 349;

} // verus!
