use eqforbeginner::audio::{
    capture_outcome, device_rate_forced, duration_to_nearest_frames, estimate_timestamp_gap_frames,
    known_pcm_loss, playback_duration_ms, playback_outcome, record_timestamp_gap, restore_after_reading,
    restore_failure, restore_first_step, samples_for_duration_ms, validate_capture_request,
    validate_playback_request, AudioIoError, MonoInputCaptureRequest, RestoreStep, TimestampTally,
    MAXIMUM_PLAYBACK_RATE_HZ, MINIMUM_PLAYBACK_RATE_HZ, PROJECT_SAMPLE_RATE_HZ,
};
use eqforbeginner::cancellation::{InputCaptureCancellation, OutputPlaybackCancellation};
use std::sync::atomic::{AtomicBool, AtomicU64};
use std::time::Duration;

#[test]
fn capture_duration_is_rounded_up_and_must_fit_the_explicit_bound() {
    assert_eq!(samples_for_duration_ms(1), Some(48));
    assert_eq!(samples_for_duration_ms(1_001), Some(48_048));

    let too_small = MonoInputCaptureRequest {
        device_id: "coreaudio:measurement-mic".to_string(),
        input_channel_index: 0,
        duration_ms: 1_000,
        maximum_samples: 47_999,
    };
    let error = validate_capture_request(&too_small).expect_err("bound must be enforced");
    assert!(error.to_string().contains("48000 samples"));

    let valid = MonoInputCaptureRequest {
        maximum_samples: 48_000,
        ..too_small
    };
    assert_eq!(validate_capture_request(&valid), Ok(48_000));
}

#[test]
fn capture_request_requires_a_device_and_positive_duration() {
    let missing_device = MonoInputCaptureRequest {
        device_id: " ".to_string(),
        input_channel_index: 0,
        duration_ms: 100,
        maximum_samples: 4_800,
    };
    assert!(validate_capture_request(&missing_device)
        .expect_err("device ID is required")
        .to_string()
        .contains("host-qualified"));

    let zero_duration = MonoInputCaptureRequest {
        device_id: "coreaudio:measurement-mic".to_string(),
        input_channel_index: 0,
        duration_ms: 0,
        maximum_samples: 0,
    };
    assert!(validate_capture_request(&zero_duration)
        .expect_err("zero duration is invalid")
        .to_string()
        .contains("greater than zero"));
}

#[test]
fn capture_bound_message_names_every_number() {
    let request = MonoInputCaptureRequest {
        device_id: "coreaudio:mic".to_string(),
        input_channel_index: 1,
        duration_ms: 2_500,
        maximum_samples: 7,
    };
    assert_eq!(
        validate_capture_request(&request).unwrap_err().to_string(),
        "maximumSamples 7 is smaller than the 120000 samples required for 2500 ms at 48 kHz"
    );
}

#[test]
fn capture_duration_too_large_for_usize_is_rejected_only_when_it_overflows() {
    // u64::MAX milliseconds need about 8.9e20 samples.
    let result = samples_for_duration_ms(u64::MAX);
    if usize::BITS == 64 {
        assert_eq!(result, None);
        let request = MonoInputCaptureRequest {
            device_id: "coreaudio:mic".to_string(),
            input_channel_index: 0,
            duration_ms: u64::MAX,
            maximum_samples: usize::MAX,
        };
        assert_eq!(
            validate_capture_request(&request).unwrap_err().to_string(),
            "input capture duration is too large to represent at 48 kHz"
        );
    }
    assert_eq!(samples_for_duration_ms(0), Some(0));
}

#[test]
fn capture_timestamp_gap_uses_a_small_rounding_tolerance() {
    assert_eq!(estimate_timestamp_gap_frames(Some(2_666_667), 128), Some(0));
    assert_eq!(estimate_timestamp_gap_frames(Some(2_916_667), 128), Some(10));
    assert_eq!(estimate_timestamp_gap_frames(None, 128), None);
}

#[test]
fn nearest_frame_rounding_and_saturation() {
    assert_eq!(duration_to_nearest_frames(1_000_000_000), 48_000);
    // 10.4 ns is half a frame at 48 kHz: 10_416 ns rounds down, 10_417 rounds up.
    assert_eq!(duration_to_nearest_frames(10_416), 0);
    assert_eq!(duration_to_nearest_frames(10_417), 1);
    assert_eq!(duration_to_nearest_frames(u128::MAX), u64::MAX);
}

#[test]
fn timestamp_tally_accumulates_gaps_and_discontinuities() {
    let mut tally = TimestampTally { gap_frames: 5, discontinuity_count: 0 };
    record_timestamp_gap(&mut tally, Some(7));
    record_timestamp_gap(&mut tally, None);
    assert_eq!(tally, TimestampTally { gap_frames: 12, discontinuity_count: 1 });
    tally.gap_frames = u64::MAX - 1;
    record_timestamp_gap(&mut tally, Some(10));
    assert_eq!(tally.gap_frames, u64::MAX);
}

#[test]
fn timestamp_irregularity_alone_is_not_pcm_loss() {
    assert!(!known_pcm_loss(0, 0, 0, false));
    assert!(known_pcm_loss(1, 0, 0, false));
    assert!(known_pcm_loss(0, 128, 0, false));
    assert!(known_pcm_loss(0, 0, 128, false));
    assert!(!known_pcm_loss(0, 0, 128, true));
}

#[test]
fn capture_outcome_flags() {
    let complete = capture_outcome(4_800, 4_800, false, false, false, false, 0, 0);
    assert!(complete.capture_complete);
    assert!(!complete.timed_out);
    assert_eq!(complete.missing_samples_at_end, 0);
    assert!(!complete.sample_drop_detected);

    let short = capture_outcome(4_800, 4_000, false, true, false, false, 0, 0);
    assert!(!short.capture_complete);
    assert!(short.timed_out);
    assert_eq!(short.missing_samples_at_end, 800);
    assert!(short.sample_drop_detected);

    let automatic = capture_outcome(4_800, 4_000, true, false, false, false, 0, 0);
    assert!(automatic.capture_complete);
    assert_eq!(automatic.missing_samples_at_end, 0);

    let cancelled = capture_outcome(4_800, 4_000, false, true, true, false, 0, 0);
    assert!(!cancelled.capture_complete);
    assert!(!cancelled.timed_out);
    assert!(!cancelled.sample_drop_detected);

    let format_error = capture_outcome(4_800, 4_800, false, false, false, true, 0, 0);
    assert!(!format_error.capture_complete);
}

#[test]
fn cancellation_is_shared_between_control_and_capture_handles() {
    let capture_handle = InputCaptureCancellation::new();
    let control_handle = capture_handle.clone();
    assert!(!capture_handle.is_cancelled());

    control_handle.cancel();

    assert!(capture_handle.is_cancelled());
}

#[test]
fn playback_cancellation_is_shared_between_clones() {
    let playback_handle = OutputPlaybackCancellation::new();
    let control_handle = playback_handle.clone();
    assert!(!playback_handle.is_cancelled());
    control_handle.cancel();
    assert!(playback_handle.is_cancelled());
}

fn first_non_finite(frames: &[f32]) -> Option<usize> {
    frames.iter().position(|sample| !sample.is_finite())
}

fn validate(device_id: &str, frames: &[f32], channels: u16, rate: u32) -> Result<usize, AudioIoError> {
    validate_playback_request(device_id, channels, rate, frames.len(), first_non_finite(frames))
}

#[test]
fn playback_rejects_a_request_no_device_could_honour() {
    let base: Vec<f32> = vec![0.0, 0.0];
    assert_eq!(validate("coreaudio:speaker", &base, 2, PROJECT_SAMPLE_RATE_HZ).unwrap(), 2);

    let cases: Vec<(Result<usize, AudioIoError>, &str)> = vec![
        (validate("   ", &base, 2, PROJECT_SAMPLE_RATE_HZ), "host-qualified output device ID"),
        (validate("coreaudio:speaker", &base, 0, PROJECT_SAMPLE_RATE_HZ), "1 to 8 channels"),
        (
            validate("coreaudio:speaker", &[0.0, 0.0, 0.0], 2, PROJECT_SAMPLE_RATE_HZ),
            "whole number of interleaved frames",
        ),
        (validate("coreaudio:speaker", &[], 2, PROJECT_SAMPLE_RATE_HZ), "whole number of interleaved frames"),
        (
            validate("coreaudio:speaker", &[0.0, f32::NAN], 2, PROJECT_SAMPLE_RATE_HZ),
            "sample 1 is not a finite value",
        ),
    ];
    for (result, expected) in cases {
        let error = result.expect_err(expected);
        assert!(error.to_string().contains(expected), "{}", error.to_string());
    }
}

#[test]
fn playback_rejects_an_implausible_rate() {
    let base: Vec<f32> = vec![0.0, 0.0];
    assert_eq!(validate("coreaudio:speaker", &base, 2, 44_100).unwrap(), 2);

    for rate in [0, MINIMUM_PLAYBACK_RATE_HZ - 1, MAXIMUM_PLAYBACK_RATE_HZ + 1] {
        let error = validate("coreaudio:speaker", &base, 2, rate).expect_err("an out-of-range rate must be rejected");
        assert!(error.to_string().contains("Hz"), "{}", error.to_string());
    }
}

#[test]
fn playback_rejects_too_many_channels_and_oversized_buffers() {
    let error = validate_playback_request("coreaudio:speaker", 9, 48_000, 18, None).unwrap_err();
    assert_eq!(error.to_string(), "sweep playback supports 1 to 8 channels, not 9");
    let error = validate_playback_request("coreaudio:speaker", 1, 48_000, 230_400_001, None).unwrap_err();
    assert_eq!(
        error.to_string(),
        "sweep playback buffer of 230400001 samples exceeds the 230400000-sample safety limit"
    );
    assert_eq!(validate_playback_request("coreaudio:speaker", 1, 48_000, 230_400_000, None), Ok(1));
}

#[test]
fn playback_duration_follows_the_requested_rate() {
    assert_eq!(playback_duration_ms(48_000, 48_000), 1_000);
    assert_eq!(playback_duration_ms(44_100, 44_100), 1_000);
    // A buffer authored at 44.1 kHz lasts longer than 48 kHz would suggest.
    assert_eq!(playback_duration_ms(48_000, 44_100), 1_089);
}

#[test]
fn playback_outcome_never_reports_more_frames_than_the_source() {
    let outcome = playback_outcome(10, 4, false, false, false);
    assert_eq!(outcome.frames_written, 4);
    assert!(outcome.completed);
    let partial = playback_outcome(2, 4, false, false, true);
    assert_eq!(partial.frames_written, 2);
    assert!(!partial.completed);
    assert!(partial.timed_out);
    let cancelled = playback_outcome(4, 4, true, false, true);
    assert!(!cancelled.completed);
    assert!(!cancelled.timed_out);
}

#[test]
fn the_playback_rate_restore_only_undoes_a_real_move() {
    assert!(device_rate_forced(Some(44_100), 48_000));
    assert!(!device_rate_forced(Some(48_000), 48_000));
    assert!(!device_rate_forced(None, 48_000));

    assert_eq!(restore_first_step(None, 48_000), RestoreStep::NothingToRestore);
    assert_eq!(restore_first_step(Some(48_000), 48_000), RestoreStep::NothingToRestore);
    assert_eq!(restore_first_step(Some(44_100), 48_000), RestoreStep::ReadCurrentRate);
    assert_eq!(restore_after_reading(44_100, 44_100), RestoreStep::NothingToRestore);
    assert_eq!(restore_after_reading(44_100, 48_000), RestoreStep::RebuildAtPreviousRate);

    assert_eq!(
        restore_failure(44_100, None).to_string(),
        "the output device did not return to 44100 Hz after the sweep"
    );
    assert_eq!(
        restore_failure(44_100, Some("busy".to_string())).to_string(),
        "could not restore the output device to 44100 Hz after the sweep: busy"
    );
}

#[test]
fn a_capture_wait_reads_progress_and_parks_only_with_time_left() {
    let token = InputCaptureCancellation::new();
    let captured = AtomicU64::new(10);
    let terminal = AtomicBool::new(false);
    let format_error = AtomicBool::new(false);

    let waiting = token.wait_for_capture_event(&captured, 48, &terminal, &format_error, None).unwrap();
    assert_eq!(waiting.captured_samples, 10);
    assert!(!waiting.over && !waiting.parked && !waiting.timed_out);

    let parked = token
        .wait_for_capture_event(&captured, 48, &terminal, &format_error, Some(Duration::from_millis(1)))
        .unwrap();
    assert!(!parked.over && parked.parked);

    captured.store(48, std::sync::atomic::Ordering::Release);
    let done = token
        .wait_for_capture_event(&captured, 48, &terminal, &format_error, Some(Duration::from_secs(60)))
        .unwrap();
    assert!(done.over && !done.parked);

    let fresh = InputCaptureCancellation::new();
    fresh.cancel();
    let cancelled = fresh
        .wait_for_capture_event(&AtomicU64::new(0), 48, &terminal, &format_error, Some(Duration::from_secs(60)))
        .unwrap();
    assert!(cancelled.over && cancelled.cancelled);
}
