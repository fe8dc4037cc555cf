//! Verification states, channel identifiers and native FFT sizes shared by
//! the 48 kHz offline replay and the multi-rate export.

use vstd::prelude::*;

verus! {

/// The only verification state the offline measured-response replay can
/// reach: it predicts, it never claims hardware verification.
#[derive(Debug, Clone, Copy, PartialEq, Eq)]
pub enum OfflineVerificationState {
    PredictedOnlyMeasured,
}

pub open spec fn verification_state_text(state: OfflineVerificationState) -> Seq<char> {
    match state {
        OfflineVerificationState::PredictedOnlyMeasured => "predicted-only-measured"@,
    }
}

impl OfflineVerificationState {
    /// The persisted spelling of the state.
    pub fn as_str(self) -> (text: &'static str)
        ensures
            text@ == verification_state_text(self),
    {
        match self {
            OfflineVerificationState::PredictedOnlyMeasured => "predicted-only-measured",
        }
    }
}

/// One side of a stereo pair.
#[derive(Debug, Clone, Copy, PartialEq, Eq)]
pub enum StereoChannel {
    Left,
    Right,
}

/// The FFT length used to design a filter natively at each supported rate;
/// every length keeps a bin spacing of 48000 / 16320 Hz.
pub open spec fn spec_native_fft_size(sample_rate_hz: u32) -> Option<usize> {
    if sample_rate_hz == 44_100 {
        Some(14_994usize)
    } else if sample_rate_hz == 48_000 {
        Some(16_320usize)
    } else if sample_rate_hz == 88_200 {
        Some(29_988usize)
    } else if sample_rate_hz == 96_000 {
        Some(32_640usize)
    } else if sample_rate_hz == 176_400 {
        Some(59_976usize)
    } else if sample_rate_hz == 192_000 {
        Some(65_280usize)
    } else {
        None
    }
}

pub fn native_fft_size(sample_rate_hz: u32) -> (size: Option<usize>)
    ensures
        size == spec_native_fft_size(sample_rate_hz),
{
    match sample_rate_hz {
        44_100 => Some(14_994),
        48_000 => Some(16_320),
        88_200 => Some(29_988),
        96_000 => Some(32_640),
        176_400 => Some(59_976),
        192_000 => Some(65_280),
        _ => None,
    }
}

/// Every supported rate gets the same frequency resolution: the native FFT
/// length is the rate times 16320 / 48000, so the bin width never changes.
pub proof fn lemma_native_fft_size_keeps_bin_spacing(sample_rate_hz: u32)
    requires
        spec_native_fft_size(sample_rate_hz) is Some,
    ensures
        spec_native_fft_size(sample_rate_hz)->0 * 48_000 == sample_rate_hz * 16_320,
{
}

} // verus!
