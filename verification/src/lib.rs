//! Verified core of a VLF radio-monitoring ("SuperSID") pipeline.
//!
//! The library covers the hardware-independent logic of the pipeline:
//! device configuration, 24-bit sample packing, the frame bookkeeping of a
//! capture/playback session (de-interleaving, truncation, interleaving),
//! the statistics derived from a power-spectral-density estimate (peak,
//! noise floor, degeneracy flags), and the mapping of known station
//! frequencies onto spectrum bins.
//!
//! Spectral measurements (frequencies and power densities) are carried as
//! fixed-point integers in caller-chosen units; the floating-point Welch
//! estimator itself and the hardware driver are external collaborators.

pub mod config;
pub mod math;
pub mod spectral_density;
pub mod sound_card;
pub mod station;
