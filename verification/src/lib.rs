//! Verified core of a conservative loudspeaker room-correction workflow:
//! capture bookkeeping, calibration-file scanning, FFT sizing and the
//! command-line and source-integrity rules around the DSP pipeline.

pub mod analysis;
pub mod audio;
pub mod calibration;
pub mod cli;
pub mod cancellation;
pub mod devices;
pub mod error;
pub mod harness;
pub mod phase;
pub mod scan;
pub mod secs;
pub mod sources;
pub mod stream;
pub mod text;
