//! An adaptive audio-reactive LED animation engine: spectral band
//! energies are normalized by adaptive ceiling/floor trackers and drive
//! one of three generative algorithms — stochastic particle diffusion,
//! traveling decaying sparks, or traveling reflecting racers — whose
//! color grid is serialized into network frames on an independent
//! emission cadence with standby gating and bounded-lag recovery.
//!
//! All quantities are 16.16 fixed point.  Randomness enters only through
//! the narrow wrappers in `rng`; every algorithm is specified for every
//! outcome of those draws.

pub mod animation;
pub mod config;
pub mod coordinator;
pub mod fixed;
pub mod particles;
pub mod racers;
pub(crate) mod rng;
pub mod signal_processing;
pub mod sparkles;
pub mod tracker;
pub mod udpproto;
