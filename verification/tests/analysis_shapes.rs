use eqforbeginner::analysis::{
    check_fft_request, check_percentile_shapes, check_position_count, check_response_shapes, is_power_of_two,
};
use eqforbeginner::error::DspError;

#[test]
fn rejects_an_fft_shorter_than_the_ir() {
    let error = check_fft_request(9, 48_000, 8).unwrap_err();
    assert!(error.to_string().contains("at least the impulse length"));
    assert_eq!(
        error,
        DspError::InvalidArgument("FFT size 8 must be a power of two and at least the impulse length 9".to_string())
    );
    assert_eq!(check_fft_request(64, 48_000, 128), Ok(()));
}

#[test]
fn rejects_invalid_fft_and_sample_rate_ranges() {
    assert!(matches!(check_fft_request(1, 0, 2), Err(DspError::InvalidArgument(_))));
    assert!(matches!(check_fft_request(1, 48_000, 3), Err(DspError::InvalidArgument(_))));
    assert!(matches!(check_fft_request(1, 48_000, 1), Err(DspError::InvalidArgument(_))));
    assert_eq!(check_fft_request(0, 48_000, 2), Err(DspError::EmptyInput("impulse response")));
    assert_eq!(
        check_fft_request(1, 0, 2).unwrap_err().to_string(),
        "sample rate must be greater than zero"
    );
}

#[test]
fn powers_of_two_are_recognized() {
    assert!(is_power_of_two(1));
    assert!(is_power_of_two(2));
    assert!(is_power_of_two(1_024));
    assert!(!is_power_of_two(0));
    assert!(!is_power_of_two(6));
    assert!(!is_power_of_two(16_320));
}

#[test]
fn spatial_responses_share_one_grid_and_one_weight_each() {
    assert_eq!(check_response_shapes(&vec![], 0), Err(DspError::EmptyInput("spatial responses")));
    assert_eq!(
        check_response_shapes(&vec![3, 3], 3),
        Err(DspError::ShapeMismatch("2 responses require the same number of weights, got 3".to_string()))
    );
    assert_eq!(check_response_shapes(&vec![0, 0], 2), Err(DspError::EmptyInput("frequency bins")));
    assert_eq!(
        check_response_shapes(&vec![3, 4], 2),
        Err(DspError::ShapeMismatch("all spatial responses must share one frequency grid".to_string()))
    );
    assert_eq!(check_response_shapes(&vec![3, 3, 3], 3), Ok(3));
}

#[test]
fn percentiles_need_one_weight_per_value() {
    assert_eq!(check_percentile_shapes(0, 0), Err(DspError::EmptyInput("percentile values")));
    assert_eq!(
        check_percentile_shapes(2, 3),
        Err(DspError::ShapeMismatch("percentile values and weights must have equal lengths".to_string()))
    );
    assert_eq!(check_percentile_shapes(2, 2), Ok(()));
}

#[test]
fn position_weights_need_a_position() {
    assert_eq!(check_position_count(0), Err(DspError::EmptyInput("measurement positions")));
    assert_eq!(check_position_count(1), Ok(()));
}
