use eqforbeginner::stream::{
    callback_frame_count, capture_wait_is_over, check_snapshot_length, is_terminal_stream_error,
    keeps_stream_error_details, plan_channel_extraction, plan_playback_write, snapshot_start, PlaybackWritePlan,
    StreamErrorKind,
};

/// Copies the planned source samples into an output buffer, silence elsewhere.
fn apply(plan: &PlaybackWritePlan, source: &[f32], output: &mut [f32]) {
    for (slot, planned) in output.iter_mut().zip(plan.slots.iter()) {
        *slot = match planned {
            Some(index) => source[*index],
            None => 0.0,
        };
    }
}

#[test]
fn playback_writes_source_channels_in_order_and_silences_the_rest() {
    // Two source channels onto a four-channel device: 3 and 4 stay silent.
    let source = [0.25_f32, -0.5, 0.75, -1.0];
    let mut output = [0.9_f32; 12];

    let plan = plan_playback_write(output.len(), 4, 2, 2, 0).expect("whole device frames");
    apply(&plan, &source, &mut output);

    assert_eq!(
        output[..8],
        [0.25, -0.5, 0.0, 0.0, 0.75, -1.0, 0.0, 0.0],
        "source channel i must land on device channel i"
    );
    // The buffer outlives the source, so the tail is silence, not a repeat.
    assert_eq!(output[8..], [0.0; 4]);
    assert!(plan.source_exhausted);
    assert_eq!(plan.next_frame, 2);
}

#[test]
fn playback_resumes_where_the_previous_callback_stopped() {
    let source = [0.1_f32, 0.2, 0.3, 0.4, 0.5, 0.6];
    let mut first = [0.0_f32; 4];
    let mut second = [0.0_f32; 4];

    let first_plan = plan_playback_write(first.len(), 1, 1, 6, 0).unwrap();
    apply(&first_plan, &source, &mut first);
    let second_plan = plan_playback_write(second.len(), 1, 1, 6, first_plan.next_frame as u64).unwrap();
    apply(&second_plan, &source, &mut second);

    assert_eq!(first, [0.1, 0.2, 0.3, 0.4]);
    assert_eq!(second[..2], [0.5, 0.6]);
    assert_eq!(second[2..], [0.0, 0.0]);
    assert!(!first_plan.source_exhausted);
    assert!(second_plan.source_exhausted);
}

#[test]
fn playback_plan_rejects_partial_device_frames() {
    assert_eq!(plan_playback_write(5, 2, 2, 10, 0), None);
    assert_eq!(plan_playback_write(4, 0, 2, 10, 0), None);
}

#[test]
fn playback_plan_clamps_a_start_past_the_source() {
    let plan = plan_playback_write(2, 1, 1, 3, 99).unwrap();
    assert_eq!(plan.slots, vec![None, None]);
    assert_eq!(plan.next_frame, 3);
    assert!(plan.source_exhausted);
}

#[test]
fn automatic_completion_requires_a_bounded_nonempty_snapshot() {
    let error = check_snapshot_length(0).unwrap_err();
    assert!(error.to_string().contains("snapshot length must be greater than zero"));
    assert!(check_snapshot_length(1).is_ok());
}

#[test]
fn snapshot_is_the_tail_of_the_capture() {
    assert_eq!(snapshot_start(10, 4), 6);
    assert_eq!(snapshot_start(3, 4), 0);
    assert_eq!(snapshot_start(4, 4), 0);
}

#[test]
fn capture_callbacks_take_whole_frames_of_a_present_channel() {
    assert_eq!(callback_frame_count(6, 2, 1), Some(3));
    assert_eq!(callback_frame_count(6, 2, 2), None);
    assert_eq!(callback_frame_count(5, 2, 0), None);
    assert_eq!(callback_frame_count(6, 0, 0), None);
}

#[test]
fn channel_extraction_stops_at_the_bound() {
    // Channel 1 of a stereo buffer of three frames.
    assert_eq!(plan_channel_extraction(6, 2, 1, 0, 3), Some(vec![1, 3, 5]));
    // Only two samples fit below the bound.
    assert_eq!(plan_channel_extraction(6, 2, 0, 1, 3), Some(vec![0, 2]));
    // Nothing fits once the capture is full.
    assert_eq!(plan_channel_extraction(6, 2, 0, 3, 3), Some(vec![]));
    assert_eq!(plan_channel_extraction(6, 2, 2, 0, 3), None);
}

#[test]
fn a_capture_waits_for_samples_failure_or_cancellation() {
    assert!(!capture_wait_is_over(10, 48, false, false, false));
    assert!(capture_wait_is_over(48, 48, false, false, false));
    assert!(capture_wait_is_over(0, 48, true, false, false));
    assert!(capture_wait_is_over(0, 48, false, true, false));
    assert!(capture_wait_is_over(0, 48, false, false, true));
}

#[test]
fn only_unrecoverable_stream_errors_end_a_capture() {
    assert!(!is_terminal_stream_error(StreamErrorKind::DeviceChanged));
    assert!(!is_terminal_stream_error(StreamErrorKind::RealtimeDenied));
    assert!(!is_terminal_stream_error(StreamErrorKind::Xrun));
    assert!(is_terminal_stream_error(StreamErrorKind::Other));
}

#[test]
fn stream_error_details_are_bounded() {
    assert!(keeps_stream_error_details(0, true));
    assert!(keeps_stream_error_details(15, true));
    assert!(!keeps_stream_error_details(16, true));
    assert!(!keeps_stream_error_details(0, false));
}

#[test]
fn extracts_and_normalizes_one_interleaved_channel_without_exceeding_bound() {
    // Channel 1 of a stereo buffer, bounded at two samples.
    let input = [9.0_f32, 0.25, 9.0, 0.5, 9.0, 0.75];
    let indices = plan_channel_extraction(input.len(), 2, 1, 0, 2).unwrap();
    assert_eq!(indices, vec![1, 3]);
    let bounded: Vec<f32> = indices.iter().map(|&index| input[index]).collect();
    assert_eq!(bounded, vec![0.25, 0.5]);

    // A partial frame is a format mismatch.
    assert_eq!(plan_channel_extraction(3, 2, 1, 0, 2), None);
}
