//! Deployment constants: analysis block geometry, LED layout and the
//! cadence and standby settings of the coordinator.

use vstd::prelude::*;

verus! {

/// Samples per analysis block.
pub const BLOCK_LEN: usize = 512;

/// Sample rate of the mono input stream, in Hz.
pub const SAMP_RATE: u64 = 48000;

/// Fresh samples read per analysis update (half a block overlaps).
pub const SAMPLES_PER_UPDATE: usize = BLOCK_LEN / 2;

/// LED layout.
pub const NUM_STRIPS: usize = 1;

pub const NUM_LEDS_PER_STRIP: usize = 322;

pub const NUM_LEDS_TOTAL: usize = NUM_STRIPS * NUM_LEDS_PER_STRIP;

/// Consecutive silent samples after which the engine enters standby.
pub const STANDBY_MAX_SILENT_SAMPLES: u64 = 48000;

/// Target LED refresh rate, in frames per second.
pub const FPS_LEDS: u64 = 30;

} // verus!
