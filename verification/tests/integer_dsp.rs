use eqforbeginner::phase::{native_fft_size, OfflineVerificationState};
use eqforbeginner::secs::{centered_distance, gcd, secs_next_fast_len};

#[test]
fn next_fast_len_is_the_smallest_five_smooth_length() {
    assert_eq!(secs_next_fast_len(0), 1);
    assert_eq!(secs_next_fast_len(1), 1);
    assert_eq!(secs_next_fast_len(7), 8);
    assert_eq!(secs_next_fast_len(11), 12);
    assert_eq!(secs_next_fast_len(13), 15);
    assert_eq!(secs_next_fast_len(17), 18);
    assert_eq!(secs_next_fast_len(8_193), 8_640);
    assert_eq!(secs_next_fast_len(48_000), 48_000);
    assert_eq!(secs_next_fast_len(48_001), 48_600);
    assert_eq!(secs_next_fast_len(usize::MAX), usize::MAX);
}

#[test]
fn next_fast_len_of_a_smooth_length_is_itself() {
    for n in [1usize, 2, 3, 5, 6, 1_024, 16_320 * 3, 59_049] {
        let once = secs_next_fast_len(n);
        assert_eq!(secs_next_fast_len(once), once);
    }
}

#[test]
fn gcd_reduces_resampling_ratios() {
    assert_eq!(gcd(48_000, 44_100), 300);
    assert_eq!(gcd(96_000, 48_000), 48_000);
    assert_eq!(gcd(7, 0), 7);
    assert_eq!(gcd(0, 7), 7);
    assert_eq!(gcd(0, 0), 0);
}

#[test]
fn centered_distance_counts_the_upper_half_as_negative() {
    assert_eq!(centered_distance(5), vec![0, 1, 2, -2, -1]);
    assert_eq!(centered_distance(4), vec![0, 1, -2, -1]);
    assert_eq!(centered_distance(1), vec![0]);
    assert_eq!(centered_distance(0), Vec::<isize>::new());
}

#[test]
fn native_fft_sizes_keep_one_bin_spacing() {
    assert_eq!(native_fft_size(48_000), Some(16_320));
    assert_eq!(native_fft_size(44_100), Some(14_994));
    assert_eq!(native_fft_size(192_000), Some(65_280));
    assert_eq!(native_fft_size(32_000), None);
    for rate in [44_100u32, 48_000, 88_200, 96_000, 176_400, 192_000] {
        let size = native_fft_size(rate).unwrap();
        assert_eq!(size as u64 * 48_000, rate as u64 * 16_320);
    }
}

#[test]
fn offline_state_is_persisted_as_predicted_only() {
    assert_eq!(OfflineVerificationState::PredictedOnlyMeasured.as_str(), "predicted-only-measured");
}
