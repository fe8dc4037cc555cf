//! Bookkeeping of the 48 kHz measurement capture and the optional sweep
//! playback: request validation, sample/duration conversions, timestamp-gap
//! accounting and the verdict flags reported after a stream ends.
//!
//! The streams themselves are opened by the host application; everything
//! here is computed from the plain values it hands back.

use vstd::prelude::*;
use crate::text::{decimal, is_blank, is_blank_str, push_decimal, push_str};

verus! {

/// The only project rate admitted by the measurement path.
pub const PROJECT_SAMPLE_RATE_HZ: u32 = 48_000;
/// Lowest playback rate accepted for in-app sweep playback.
pub const MINIMUM_PLAYBACK_RATE_HZ: u32 = 8_000;
/// Highest playback rate accepted for in-app sweep playback.
pub const MAXIMUM_PLAYBACK_RATE_HZ: u32 = 768_000;
/// Widest interleaved buffer accepted for playback.
pub const MAXIMUM_PLAYBACK_CHANNELS: usize = 8;
/// Ten minutes of 8-channel 48 kHz audio: the most a caller may hand over.
pub const MAXIMUM_PLAYBACK_SAMPLES: usize = 230_400_000;
/// Callback timestamps may drift by this many frames before a gap is counted.
pub const TIMESTAMP_GAP_TOLERANCE_FRAMES: u64 = 2;

// ---------------------------------------------------------------------------
// Device inventory records
// ---------------------------------------------------------------------------

#[derive(Clone, Debug, PartialEq, Eq)]
pub struct AudioDeviceInventory {
    pub host: String,
    pub sample_rate_hz: u32,
    pub inputs: Vec<AudioDeviceDescriptor>,
    pub outputs: Vec<AudioDeviceDescriptor>,
    pub warnings: Vec<AudioScanWarning>,
}

#[derive(Clone, Debug, PartialEq, Eq)]
pub struct AudioDeviceDescriptor {
    /// The host-qualified device ID; a saved project revalidates it before use.
    pub id: String,
    pub name: String,
    pub manufacturer: Option<String>,
    pub device_type: String,
    pub interface_type: String,
    pub is_default: bool,
    /// The rate the device runs at right now, when the host reports one.
    pub current_sample_rate_hz: Option<u32>,
    /// Only configurations that contain the project rate are retained.
    pub configurations: Vec<ProjectStreamConfig>,
}

#[derive(Clone, Debug, PartialEq, Eq, PartialOrd, Ord)]
pub struct ProjectStreamConfig {
    pub sample_rate_hz: u32,
    pub channels: u16,
    pub sample_format: String,
    pub minimum_buffer_size_frames: Option<u32>,
    pub maximum_buffer_size_frames: Option<u32>,
}

#[derive(Clone, Copy, Debug, PartialEq, Eq)]
pub enum AudioDirection {
    Input,
    Output,
}

#[derive(Clone, Debug, PartialEq, Eq)]
pub struct AudioScanWarning {
    pub device_id: Option<String>,
    pub direction: Option<AudioDirection>,
    pub message: String,
}

/// A bounded, synchronous capture request. `maximum_samples` is an explicit
/// memory ceiling that must hold `duration_ms` at 48 kHz.
#[derive(Clone, Debug, PartialEq, Eq)]
pub struct MonoInputCaptureRequest {
    pub device_id: String,
    /// Zero-based channel extracted from the native interleaved stream.
    pub input_channel_index: u16,
    pub duration_ms: u64,
    pub maximum_samples: usize,
}

#[derive(Clone, Debug, PartialEq, Eq)]
pub struct OutputPlaybackReport {
    pub host: String,
    pub device_id: String,
    pub device_name: Option<String>,
    pub sample_rate_hz: u32,
    /// The device's own rate before the sweep, as the host reported it.
    pub device_rate_before_hz: Option<u32>,
    /// Whether the sweep moved the device off that rate.
    pub device_rate_forced: bool,
    /// Whether the device was put back on `device_rate_before_hz` afterwards.
    pub device_rate_restored: bool,
    pub device_rate_restore_error: Option<String>,
    pub source_channels: u16,
    pub device_channels: u16,
    pub sample_format: String,
    pub frame_count: usize,
    pub frames_written: usize,
    pub elapsed_ms: u64,
    pub completed: bool,
    pub cancelled: bool,
    pub timed_out: bool,
    pub callback_format_error: bool,
    pub stream_error_count: u64,
    pub first_stream_error: Option<String>,
}

#[derive(Clone, Debug, PartialEq, Eq)]
pub struct InputStreamErrorReport {
    pub kind: String,
    pub message: String,
}

/// An audio I/O failure, described by its message.
#[derive(Clone, Debug, PartialEq, Eq)]
pub struct AudioIoError {
    message: String,
}

impl View for AudioIoError {
    type V = Seq<char>;

    closed spec fn view(&self) -> Seq<char> {
        self.message@
    }
}

impl AudioIoError {
    fn new(message: String) -> (error: AudioIoError)
        ensures
            error@ == message@,
    {
        AudioIoError { message }
    }

    /// An error carrying `message`.
    pub fn from_message(message: String) -> (error: AudioIoError)
        ensures
            error@ == message@,
    {
        AudioIoError::new(message)
    }

    /// The human-readable message, as the error is displayed.
    pub fn to_string(&self) -> (message: String)
        ensures
            message@ == self@,
    {
        self.message.clone()
    }
}

// ---------------------------------------------------------------------------
// Durations and sample counts
// ---------------------------------------------------------------------------

/// Samples needed to hold `duration_ms` at 48 kHz, rounded up.
pub open spec fn spec_samples_for_duration_ms(duration_ms: nat) -> nat {
    (duration_ms * 48_000 + 999) / 1000
}

/// The requested duration in samples, or `None` when it does not fit in `usize`.
pub fn samples_for_duration_ms(duration_ms: u64) -> (samples: Option<usize>)
    ensures
        match samples {
            Some(n) => n == spec_samples_for_duration_ms(duration_ms as nat),
            None => spec_samples_for_duration_ms(duration_ms as nat) > usize::MAX,
        },
{
    let numerator: u128 = (duration_ms as u128) * 48_000 + 999;
    let samples: u128 = numerator / 1000;
    if samples <= usize::MAX as u128 {
        Some(samples as usize)
    } else {
        None
    }
}

/// Milliseconds `frame_count` frames last at `sample_rate_hz`, rounded up
/// and saturated at `u64::MAX`.
pub open spec fn spec_playback_duration_ms(frame_count: nat, sample_rate_hz: nat) -> nat
    recommends
        sample_rate_hz > 0,
{
    let ms = (frame_count * 1000 + sample_rate_hz - 1) / (sample_rate_hz as int);
    if ms > u64::MAX {
        u64::MAX as nat
    } else {
        ms as nat
    }
}

pub fn playback_duration_ms(frame_count: usize, sample_rate_hz: u32) -> (ms: u64)
    requires
        sample_rate_hz > 0,
    ensures
        ms == spec_playback_duration_ms(frame_count as nat, sample_rate_hz as nat),
{
    let numerator: u128 = (frame_count as u128) * 1000 + (sample_rate_hz as u128 - 1);
    let ms: u128 = numerator / (sample_rate_hz as u128);
    if ms <= u64::MAX as u128 {
        ms as u64
    } else {
        u64::MAX
    }
}

/// Whole 48 kHz frames in `nanos` nanoseconds, rounded to nearest; the
/// intermediate products saturate at `u128::MAX` and the result at `u64::MAX`.
pub open spec fn spec_duration_to_nearest_frames(nanos: nat) -> nat {
    let scaled = if nanos * 48_000 > u128::MAX {
        u128::MAX as nat
    } else {
        nanos * 48_000
    };
    let rounded = if scaled + 500_000_000 > u128::MAX {
        u128::MAX as nat
    } else {
        scaled + 500_000_000
    };
    let frames = rounded / 1_000_000_000;
    if frames > u64::MAX {
        u64::MAX as nat
    } else {
        frames
    }
}

pub fn duration_to_nearest_frames(nanos: u128) -> (frames: u64)
    ensures
        frames == spec_duration_to_nearest_frames(nanos as nat),
{
    let scaled: u128 = if nanos <= u128::MAX / 48_000 {
        nanos * 48_000
    } else {
        u128::MAX
    };
    let rounded: u128 = if scaled <= u128::MAX - 500_000_000 {
        scaled + 500_000_000
    } else {
        u128::MAX
    };
    let frames: u128 = rounded / 1_000_000_000;
    if frames <= u64::MAX as u128 {
        frames as u64
    } else {
        u64::MAX
    }
}

/// Frames missing between two capture callbacks: the elapsed time in frames,
/// minus the frames the earlier callback delivered, minus a small rounding
/// tolerance, never below zero. `None` when the later timestamp is earlier.
pub open spec fn spec_timestamp_gap_frames(elapsed_nanos: Option<u128>, previous_callback_frames: nat) -> Option<nat> {
    match elapsed_nanos {
        None => None,
        Some(nanos) => {
            let elapsed = spec_duration_to_nearest_frames(nanos as nat);
            let expected = if previous_callback_frames > u64::MAX {
                u64::MAX as nat
            } else {
                previous_callback_frames
            };
            let gap = elapsed - expected - 2;
            Some(
                if gap < 0 {
                    0
                } else {
                    gap as nat
                },
            )
        },
    }
}

/// The gap between the callback that delivered `previous_callback_frames`
/// and the next one, from the time elapsed between their capture
/// timestamps (`None` when the clock went backwards).
pub fn estimate_timestamp_gap_frames(elapsed_nanos: Option<u128>, previous_callback_frames: usize) -> (gap: Option<u64>)
    ensures
        match gap {
            Some(g) => spec_timestamp_gap_frames(elapsed_nanos, previous_callback_frames as nat) == Some(g as nat),
            None => spec_timestamp_gap_frames(elapsed_nanos, previous_callback_frames as nat) is None,
        },
{
    match elapsed_nanos {
        None => None,
        Some(nanos) => {
            let elapsed_frames = duration_to_nearest_frames(nanos);
            let expected_frames: u64 = if previous_callback_frames as u128 <= u64::MAX as u128 {
                previous_callback_frames as u64
            } else {
                u64::MAX
            };
            Some(elapsed_frames.saturating_sub(expected_frames).saturating_sub(TIMESTAMP_GAP_TOLERANCE_FRAMES))
        },
    }
}

/// Running timestamp accounting of a capture: the total gap and the number
/// of callbacks whose timestamps went backwards.
#[derive(Clone, Copy, Debug, PartialEq, Eq)]
pub struct TimestampTally {
    pub gap_frames: u64,
    pub discontinuity_count: u64,
}

pub open spec fn saturating_add_u64(a: nat, b: nat) -> nat {
    if a + b > u64::MAX {
        u64::MAX as nat
    } else {
        a + b
    }
}

/// Adds one callback's timestamp evidence to the tally: a measured gap is
/// accumulated, an unmeasurable one counts as a discontinuity; both saturate.
pub fn record_timestamp_gap(tally: &mut TimestampTally, gap: Option<u64>)
    ensures
        match gap {
            Some(g) => final(tally).gap_frames == saturating_add_u64(old(tally).gap_frames as nat, g as nat)
                && final(tally).discontinuity_count == old(tally).discontinuity_count,
            None => final(tally).gap_frames == old(tally).gap_frames
                && final(tally).discontinuity_count == saturating_add_u64(old(tally).discontinuity_count as nat, 1),
        },
{
    match gap {
        Some(g) => {
            tally.gap_frames = tally.gap_frames.saturating_add(g);
        },
        None => {
            tally.discontinuity_count = tally.discontinuity_count.saturating_add(1);
        },
    }
}

/// PCM is known to be missing only when the backend reported an xrun, a
/// callback dropped frames, or requested samples never arrived without the
/// user cancelling. Timestamp irregularity alone is not PCM loss.
pub fn known_pcm_loss(
    xrun_count: u64,
    callback_lock_drop_frames: u64,
    missing_samples_at_end: usize,
    cancelled: bool,
) -> (lost: bool)
    ensures
        lost == (xrun_count > 0 || callback_lock_drop_frames > 0 || (missing_samples_at_end > 0 && !cancelled)),
{
    xrun_count > 0 || callback_lock_drop_frames > 0 || (missing_samples_at_end > 0 && !cancelled)
}

// ---------------------------------------------------------------------------
// Capture request validation
// ---------------------------------------------------------------------------

pub open spec fn capture_bound_message(maximum_samples: nat, requested: nat, duration_ms: nat) -> Seq<char> {
    "maximumSamples "@ + decimal(maximum_samples) + " is smaller than the "@ + decimal(requested)
        + " samples required for "@ + decimal(duration_ms) + " ms at 48 kHz"@
}

/// What validating a capture request yields: the sample count to capture,
/// or the message of the first violated rule.
pub open spec fn capture_request_verdict(device_id: Seq<char>, duration_ms: nat, maximum_samples: nat) -> Result<nat, Seq<char>> {
    if is_blank(device_id) {
        Err("input capture requires a non-empty host-qualified device ID"@)
    } else if duration_ms == 0 {
        Err("input capture duration must be greater than zero milliseconds"@)
    } else if spec_samples_for_duration_ms(duration_ms) > usize::MAX {
        Err("input capture duration is too large to represent at 48 kHz"@)
    } else if maximum_samples < spec_samples_for_duration_ms(duration_ms) {
        Err(capture_bound_message(maximum_samples, spec_samples_for_duration_ms(duration_ms), duration_ms))
    } else {
        Ok(spec_samples_for_duration_ms(duration_ms))
    }
}

pub open spec fn usize_result_view(r: Result<usize, AudioIoError>) -> Result<nat, Seq<char>> {
    match r {
        Ok(n) => Ok(n as nat),
        Err(e) => Err(e@),
    }
}

/// A validated capture request asks for exactly the samples its duration
/// needs at 48 kHz, rounded up, and never more than the caller's ceiling.
pub proof fn lemma_validated_capture_covers_duration_within_ceiling(
    device_id: Seq<char>,
    duration_ms: nat,
    maximum_samples: nat,
)
    requires
        capture_request_verdict(device_id, duration_ms, maximum_samples) is Ok,
    ensures
        ({
            let n = capture_request_verdict(device_id, duration_ms, maximum_samples)->Ok_0;
            &&& n * 1000 >= duration_ms * 48_000
            &&& (n - 1) * 1000 < duration_ms * 48_000
            &&& n <= maximum_samples
            &&& duration_ms > 0
        }),
{
    let n = spec_samples_for_duration_ms(duration_ms);
    assert(n * 1000 >= duration_ms * 48_000 && (n - 1) * 1000 < duration_ms * 48_000) by (nonlinear_arith)
        requires
            n == (duration_ms * 48_000 + 999) / 1000,
    ;
}

/// Checks a capture request before any device is opened and returns the
/// number of samples to capture.
pub fn validate_capture_request(request: &MonoInputCaptureRequest) -> (r: Result<usize, AudioIoError>)
    ensures
        usize_result_view(r) == capture_request_verdict(
            request.device_id@,
            request.duration_ms as nat,
            request.maximum_samples as nat,
        ),
{
    if is_blank_str(request.device_id.as_str()) {
        return Err(AudioIoError::new("input capture requires a non-empty host-qualified device ID".to_owned()));
    }
    if request.duration_ms == 0 {
        return Err(AudioIoError::new("input capture duration must be greater than zero milliseconds".to_owned()));
    }
    let requested_samples = match samples_for_duration_ms(request.duration_ms) {
        Some(n) => n,
        None => {
            return Err(AudioIoError::new("input capture duration is too large to represent at 48 kHz".to_owned()));
        },
    };
    if request.maximum_samples < requested_samples {
        let mut message = String::new();
        push_str(&mut message, "maximumSamples ");
        push_decimal(&mut message, request.maximum_samples as u128);
        push_str(&mut message, " is smaller than the ");
        push_decimal(&mut message, requested_samples as u128);
        push_str(&mut message, " samples required for ");
        push_decimal(&mut message, request.duration_ms as u128);
        push_str(&mut message, " ms at 48 kHz");
        return Err(AudioIoError::new(message));
    }
    Ok(requested_samples)
}


// ---------------------------------------------------------------------------
// Capture verdict
// ---------------------------------------------------------------------------

/// The verdict flags of a finished capture.
#[derive(Clone, Copy, Debug, PartialEq, Eq)]
pub struct CaptureOutcome {
    /// Requested samples that never arrived (zero after automatic completion).
    pub missing_samples_at_end: usize,
    /// The deadline passed before the requested samples arrived, without an
    /// automatic endpoint or a cancel.
    pub timed_out: bool,
    /// Every requested sample arrived (or the endpoint detector ended the
    /// stream), with no format error and no cancel.
    pub capture_complete: bool,
    /// PCM is known to be missing (see [`known_pcm_loss`]).
    pub sample_drop_detected: bool,
}

pub open spec fn spec_capture_outcome(
    requested_samples: nat,
    captured_samples: nat,
    automatic_completion_detected: bool,
    deadline_reached: bool,
    cancelled: bool,
    callback_format_error: bool,
    xrun_count: nat,
    callback_lock_drop_frames: nat,
) -> CaptureOutcome {
    let missing: int = if automatic_completion_detected || captured_samples >= requested_samples {
        0
    } else {
        requested_samples - captured_samples
    };
    CaptureOutcome {
        missing_samples_at_end: missing as usize,
        timed_out: deadline_reached && captured_samples < requested_samples && !automatic_completion_detected
            && !cancelled,
        capture_complete: (captured_samples == requested_samples || automatic_completion_detected)
            && !callback_format_error && !cancelled,
        sample_drop_detected: xrun_count > 0 || callback_lock_drop_frames > 0 || (missing > 0 && !cancelled),
    }
}

/// A cancelled capture is rejected, never mistaken for a timeout, and its
/// missing samples are not counted as lost PCM.
pub proof fn lemma_cancelled_capture_is_neither_complete_nor_timed_out(
    requested_samples: nat,
    captured_samples: nat,
    automatic_completion_detected: bool,
    deadline_reached: bool,
    callback_format_error: bool,
)
    ensures
        ({
            let outcome = spec_capture_outcome(
                requested_samples,
                captured_samples,
                automatic_completion_detected,
                deadline_reached,
                true,
                callback_format_error,
                0,
                0,
            );
            !outcome.capture_complete && !outcome.timed_out && !outcome.sample_drop_detected
        }),
{
}

/// What a finished capture reports, from its counts alone: the samples that
/// never arrived are the shortfall against the request (none once the
/// endpoint detector ended the stream), and PCM counts as lost exactly when
/// the backend reported an xrun, a callback dropped frames, or samples are
/// missing without a cancel. A full capture is complete unless it was
/// cancelled or saw a format error.
pub proof fn lemma_capture_verdict_follows_the_counts(
    requested_samples: nat,
    captured_samples: nat,
    automatic_completion_detected: bool,
    deadline_reached: bool,
    cancelled: bool,
    callback_format_error: bool,
    xrun_count: nat,
    callback_lock_drop_frames: nat,
)
    requires
        requested_samples <= usize::MAX,
    ensures
        ({
            let outcome = spec_capture_outcome(
                requested_samples,
                captured_samples,
                automatic_completion_detected,
                deadline_reached,
                cancelled,
                callback_format_error,
                xrun_count,
                callback_lock_drop_frames,
            );
            let missing: nat = if automatic_completion_detected || captured_samples >= requested_samples {
                0
            } else {
                (requested_samples - captured_samples) as nat
            };
            &&& outcome.missing_samples_at_end as nat == missing
            &&& outcome.sample_drop_detected == (xrun_count > 0 || callback_lock_drop_frames > 0 || (missing > 0
                && !cancelled))
            &&& xrun_count > 0 ==> outcome.sample_drop_detected
            &&& callback_lock_drop_frames > 0 ==> outcome.sample_drop_detected
            &&& (captured_samples == requested_samples && !cancelled && !callback_format_error)
                ==> outcome.capture_complete
            &&& outcome.timed_out ==> deadline_reached && captured_samples < requested_samples
        }),
{
}

/// Classifies a capture once its stream has been dropped.
pub fn capture_outcome(
    requested_samples: usize,
    captured_samples: usize,
    automatic_completion_detected: bool,
    deadline_reached: bool,
    cancelled: bool,
    callback_format_error: bool,
    xrun_count: u64,
    callback_lock_drop_frames: u64,
) -> (outcome: CaptureOutcome)
    ensures
        outcome == spec_capture_outcome(
            requested_samples as nat,
            captured_samples as nat,
            automatic_completion_detected,
            deadline_reached,
            cancelled,
            callback_format_error,
            xrun_count as nat,
            callback_lock_drop_frames as nat,
        ),
{
    let missing_samples_at_end = if automatic_completion_detected {
        0
    } else {
        requested_samples.saturating_sub(captured_samples)
    };
    CaptureOutcome {
        missing_samples_at_end,
        timed_out: deadline_reached && captured_samples < requested_samples && !automatic_completion_detected
            && !cancelled,
        capture_complete: (captured_samples == requested_samples || automatic_completion_detected)
            && !callback_format_error && !cancelled,
        sample_drop_detected: known_pcm_loss(xrun_count, callback_lock_drop_frames, missing_samples_at_end, cancelled),
    }
}

// ---------------------------------------------------------------------------
// Sweep playback
// ---------------------------------------------------------------------------

pub open spec fn playback_request_verdict(
    device_id: Seq<char>,
    channels: nat,
    sample_rate_hz: nat,
    sample_count: nat,
    first_non_finite: Option<usize>,
) -> Result<nat, Seq<char>> {
    if is_blank(device_id) {
        Err("sweep playback requires a non-empty host-qualified output device ID"@)
    } else if channels == 0 || channels > 8 {
        Err("sweep playback supports 1 to 8 channels, not "@ + decimal(channels))
    } else if sample_rate_hz < 8_000 || sample_rate_hz > 768_000 {
        Err("sweep playback supports 8000 to 768000 Hz, not "@ + decimal(sample_rate_hz))
    } else if sample_count == 0 || sample_count % channels != 0 {
        Err("sweep playback buffer must be a non-empty whole number of interleaved frames"@)
    } else if sample_count > 230_400_000 {
        Err("sweep playback buffer of "@ + decimal(sample_count) + " samples exceeds the 230400000-sample safety limit"@)
    } else if first_non_finite is Some {
        Err("sweep playback buffer sample "@ + decimal(first_non_finite->0 as nat) + " is not a finite value"@)
    } else {
        Ok(channels)
    }
}

/// Every request a device could honour is accepted with its channel count:
/// a non-blank device ID, one to eight channels, a rate from 8 kHz to
/// 768 kHz, a non-empty buffer of whole frames within the sample limit and
/// no non-finite sample. Any other request is refused.
pub proof fn lemma_playback_accepts_every_honourable_request(
    device_id: Seq<char>,
    channels: nat,
    sample_rate_hz: nat,
    sample_count: nat,
    first_non_finite: Option<usize>,
)
    ensures
        ({
            let honourable = !is_blank(device_id) && 1 <= channels <= 8 && 8_000 <= sample_rate_hz <= 768_000
                && sample_count > 0 && sample_count % channels == 0 && sample_count <= 230_400_000
                && first_non_finite is None;
            &&& honourable ==> playback_request_verdict(device_id, channels, sample_rate_hz, sample_count, first_non_finite)
                == Ok::<nat, Seq<char>>(channels)
            &&& !honourable ==> playback_request_verdict(
                device_id,
                channels,
                sample_rate_hz,
                sample_count,
                first_non_finite,
            ) is Err
        }),
{
}

/// Checks an interleaved playback request before any device is opened and
/// returns its channel count. `sample_count` is the buffer length and
/// `first_non_finite` the index of its first non-finite sample, if any.
pub fn validate_playback_request(
    device_id: &str,
    channels: u16,
    sample_rate_hz: u32,
    sample_count: usize,
    first_non_finite: Option<usize>,
) -> (r: Result<usize, AudioIoError>)
    ensures
        usize_result_view(r) == playback_request_verdict(
            device_id@,
            channels as nat,
            sample_rate_hz as nat,
            sample_count as nat,
            first_non_finite,
        ),
{
    if is_blank_str(device_id) {
        return Err(AudioIoError::new("sweep playback requires a non-empty host-qualified output device ID".to_owned()));
    }
    let channel_count = channels as usize;
    if channel_count == 0 || channel_count > MAXIMUM_PLAYBACK_CHANNELS {
        let mut message = "sweep playback supports 1 to 8 channels, not ".to_owned();
        push_decimal(&mut message, channels as u128);
        return Err(AudioIoError::new(message));
    }
    if sample_rate_hz < MINIMUM_PLAYBACK_RATE_HZ || sample_rate_hz > MAXIMUM_PLAYBACK_RATE_HZ {
        let mut message = "sweep playback supports 8000 to 768000 Hz, not ".to_owned();
        push_decimal(&mut message, sample_rate_hz as u128);
        return Err(AudioIoError::new(message));
    }
    if sample_count == 0 || sample_count % channel_count != 0 {
        return Err(AudioIoError::new("sweep playback buffer must be a non-empty whole number of interleaved frames".to_owned()));
    }
    if sample_count > MAXIMUM_PLAYBACK_SAMPLES {
        let mut message = "sweep playback buffer of ".to_owned();
        push_decimal(&mut message, sample_count as u128);
        push_str(&mut message, " samples exceeds the 230400000-sample safety limit");
        return Err(AudioIoError::new(message));
    }
    if let Some(index) = first_non_finite {
        let mut message = "sweep playback buffer sample ".to_owned();
        push_decimal(&mut message, index as u128);
        push_str(&mut message, " is not a finite value");
        return Err(AudioIoError::new(message));
    }
    Ok(channel_count)
}

/// The verdict flags of a finished playback.
#[derive(Clone, Copy, Debug, PartialEq, Eq)]
pub struct PlaybackOutcome {
    pub frames_written: usize,
    pub completed: bool,
    pub timed_out: bool,
}

/// Classifies a playback once its stream has been dropped: frames written
/// never exceed the source, and only a full, uncancelled, well-formed run
/// completes.
pub fn playback_outcome(
    next_frame: u64,
    frame_count: usize,
    cancelled: bool,
    callback_format_error: bool,
    deadline_reached: bool,
) -> (outcome: PlaybackOutcome)
    ensures
        outcome.frames_written == (if next_frame < frame_count { next_frame as usize } else { frame_count }),
        outcome.completed == (outcome.frames_written == frame_count && !cancelled && !callback_format_error),
        outcome.timed_out == (deadline_reached && !cancelled),
{
    let frames_written = if (next_frame as u128) < (frame_count as u128) {
        next_frame as usize
    } else {
        frame_count
    };
    PlaybackOutcome {
        frames_written,
        completed: frames_written == frame_count && !cancelled && !callback_format_error,
        timed_out: deadline_reached && !cancelled,
    }
}

/// Whether playing at `played_rate_hz` moved the device off the rate it
/// reported before the sweep.
pub fn device_rate_forced(rate_before_hz: Option<u32>, played_rate_hz: u32) -> (forced: bool)
    ensures
        forced == (rate_before_hz is Some && rate_before_hz->0 != played_rate_hz),
{
    match rate_before_hz {
        Some(rate) => rate != played_rate_hz,
        None => false,
    }
}

/// What restoring an output device's rate after a sweep has to do next.
#[derive(Clone, Copy, Debug, PartialEq, Eq)]
pub enum RestoreStep {
    /// Nothing moved: report that no restore happened.
    NothingToRestore,
    /// Read the device's rate back before deciding.
    ReadCurrentRate,
    /// The device is off its old rate: rebuild a stream at the old rate.
    RebuildAtPreviousRate,
}

/// The first decision: with no recorded rate, or when the sweep played at
/// the device's own rate, there is nothing to undo.
pub fn restore_first_step(previous_rate_hz: Option<u32>, played_rate_hz: u32) -> (step: RestoreStep)
    ensures
        step == (if previous_rate_hz is None || previous_rate_hz->0 == played_rate_hz {
            RestoreStep::NothingToRestore
        } else {
            RestoreStep::ReadCurrentRate
        }),
{
    match previous_rate_hz {
        None => RestoreStep::NothingToRestore,
        Some(rate) => if rate == played_rate_hz {
            RestoreStep::NothingToRestore
        } else {
            RestoreStep::ReadCurrentRate
        },
    }
}

/// The second decision, once the current rate has been read back: only a
/// device that actually moved has anything to undo.
pub fn restore_after_reading(previous_rate_hz: u32, current_rate_hz: u32) -> (step: RestoreStep)
    ensures
        step == (if current_rate_hz == previous_rate_hz {
            RestoreStep::NothingToRestore
        } else {
            RestoreStep::RebuildAtPreviousRate
        }),
{
    if current_rate_hz == previous_rate_hz {
        RestoreStep::NothingToRestore
    } else {
        RestoreStep::RebuildAtPreviousRate
    }
}

pub open spec fn restore_failure_text(previous_rate_hz: nat, build_error: Option<Seq<char>>) -> Seq<char> {
    match build_error {
        Some(e) => "could not restore the output device to "@ + decimal(previous_rate_hz) + " Hz after the sweep: "@ + e,
        None => "the output device did not return to "@ + decimal(previous_rate_hz) + " Hz after the sweep"@,
    }
}

/// The error reported when the device never came back to its old rate,
/// quoting the stream-build failure when there was one.
pub fn restore_failure(previous_rate_hz: u32, build_error: Option<String>) -> (error: AudioIoError)
    ensures
        error@ == restore_failure_text(
            previous_rate_hz as nat,
            match build_error {
                Some(e) => Some(e@),
                None => None,
            },
        ),
{
    match build_error {
        Some(e) => {
            let mut message = "could not restore the output device to ".to_owned();
            push_decimal(&mut message, previous_rate_hz as u128);
            push_str(&mut message, " Hz after the sweep: ");
            push_str(&mut message, e.as_str());
            AudioIoError::new(message)
        },
        None => {
            let mut message = "the output device did not return to ".to_owned();
            push_decimal(&mut message, previous_rate_hz as u128);
            push_str(&mut message, " Hz after the sweep");
            AudioIoError::new(message)
        },
    }
}

} // verus!
