//! Real-time lip-sync analysis core.
//!
//! The crate holds the bookkeeping of a lip-sync engine: the circular capture
//! buffer, the selection of the analysis window, the calibrated vowel profile,
//! the choice of the nearest vowel, and the per-tick sequence that hands
//! snapshots to a background analysis job and adopts its results.
//!
//! Samples and feature values are carried as an opaque `Copy` type `T`; the
//! numeric stages (spectral analysis, distances, volume scaling) belong to the
//! host, which instantiates `T` with its own sample type.

pub mod classifier;
pub mod common;
pub mod frame;
pub mod lip_sync;
pub mod lip_sync_job;
pub mod profile;
pub mod ring;
