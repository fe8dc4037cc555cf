//! The shape rules checked before spectral analysis and multi-position
//! statistics run: which lengths, rates and FFT sizes are accepted, and the
//! error each rejected shape is reported with. The numeric work itself is
//! done by the caller once these checks pass.

use vstd::prelude::*;
use crate::error::{DspError, DspErrorView};
use crate::text::{decimal, push_decimal, push_str};

verus! {

/// `n` is one, or an even number whose half is a power of two.
pub open spec fn power_of_two(n: nat) -> bool
    decreases n,
{
    if n == 1 {
        true
    } else if n < 2 || n % 2 != 0 {
        false
    } else {
        power_of_two(n / 2)
    }
}

/// Whether `n` is a power of two.
pub fn is_power_of_two(n: usize) -> (b: bool)
    ensures
        b == power_of_two(n as nat),
{
    let mut m = n;
    while m >= 2 && m % 2 == 0
        invariant
            power_of_two(m as nat) == power_of_two(n as nat),
        decreases m,
    {
        m = m / 2;
    }
    m == 1
}

// ---------------------------------------------------------------------------
// Spectral analysis
// ---------------------------------------------------------------------------

pub open spec fn fft_request_verdict(impulse_len: nat, sample_rate_hz: nat, fft_size: nat) -> Result<(), DspErrorView> {
    if impulse_len == 0 {
        Err(DspErrorView::EmptyInput("impulse response"@))
    } else if sample_rate_hz == 0 {
        Err(DspErrorView::InvalidArgument("sample rate must be greater than zero"@))
    } else if !power_of_two(fft_size) || fft_size < impulse_len || fft_size < 2 {
        Err(
            DspErrorView::InvalidArgument(
                "FFT size "@ + decimal(fft_size) + " must be a power of two and at least the impulse length "@
                    + decimal(impulse_len),
            ),
        )
    } else {
        Ok(())
    }
}

pub open spec fn unit_view(r: Result<(), DspError>) -> Result<(), DspErrorView> {
    match r {
        Ok(()) => Ok(()),
        Err(e) => Err(e@),
    }
}

/// An impulse response can be analysed on an FFT grid when it is non-empty,
/// the rate is non-zero, and the FFT is a power of two of at least two
/// points that holds the whole impulse.
pub fn check_fft_request(impulse_len: usize, sample_rate_hz: u32, fft_size: usize) -> (r: Result<(), DspError>)
    ensures
        unit_view(r) == fft_request_verdict(impulse_len as nat, sample_rate_hz as nat, fft_size as nat),
{
    if impulse_len == 0 {
        return Err(DspError::EmptyInput("impulse response"));
    }
    if sample_rate_hz == 0 {
        return Err(DspError::InvalidArgument("sample rate must be greater than zero".to_owned()));
    }
    if !is_power_of_two(fft_size) || fft_size < impulse_len || fft_size < 2 {
        let mut message = "FFT size ".to_owned();
        push_decimal(&mut message, fft_size as u128);
        push_str(&mut message, " must be a power of two and at least the impulse length ");
        push_decimal(&mut message, impulse_len as u128);
        return Err(DspError::InvalidArgument(message));
    }
    Ok(())
}

// ---------------------------------------------------------------------------
// Multi-position statistics
// ---------------------------------------------------------------------------

/// Every response has the same number of bins as the first.
pub open spec fn one_grid(lengths: Seq<usize>) -> bool {
    forall|i: int| 0 <= i < lengths.len() ==> #[trigger] lengths[i] == lengths[0]
}

pub open spec fn response_shape_verdict(lengths: Seq<usize>, weight_count: nat) -> Result<nat, DspErrorView> {
    if lengths.len() == 0 {
        Err(DspErrorView::EmptyInput("spatial responses"@))
    } else if lengths.len() != weight_count {
        Err(
            DspErrorView::ShapeMismatch(
                decimal(lengths.len()) + " responses require the same number of weights, got "@ + decimal(
                    weight_count,
                ),
            ),
        )
    } else if lengths[0] == 0 {
        Err(DspErrorView::EmptyInput("frequency bins"@))
    } else if !one_grid(lengths) {
        Err(DspErrorView::ShapeMismatch("all spatial responses must share one frequency grid"@))
    } else {
        Ok(lengths[0] as nat)
    }
}

pub open spec fn count_view(r: Result<usize, DspError>) -> Result<nat, DspErrorView> {
    match r {
        Ok(n) => Ok(n as nat),
        Err(e) => Err(e@),
    }
}

/// Responses measured at several positions must be at least one, come with
/// one weight each, and share one non-empty frequency grid; the result is
/// the number of bins. `lengths` holds the bin count of each response.
pub fn check_response_shapes(lengths: &Vec<usize>, weight_count: usize) -> (r: Result<usize, DspError>)
    ensures
        count_view(r) == response_shape_verdict(lengths@, weight_count as nat),
{
    if lengths.len() == 0 {
        return Err(DspError::EmptyInput("spatial responses"));
    }
    if lengths.len() != weight_count {
        let mut message = String::new();
        push_decimal(&mut message, lengths.len() as u128);
        push_str(&mut message, " responses require the same number of weights, got ");
        push_decimal(&mut message, weight_count as u128);
        proof {
            assert(Seq::<char>::empty() + decimal(lengths@.len() as nat) == decimal(lengths@.len() as nat));
        }
        return Err(DspError::ShapeMismatch(message));
    }
    let bins = lengths[0];
    if bins == 0 {
        return Err(DspError::EmptyInput("frequency bins"));
    }
    let mut i: usize = 1;
    while i < lengths.len()
        invariant
            1 <= i <= lengths@.len(),
            lengths@.len() == weight_count,
            bins == lengths@[0],
            bins > 0,
            forall|j: int| 0 <= j < i ==> #[trigger] lengths@[j] == bins,
        decreases lengths@.len() - i,
    {
        if lengths[i] != bins {
            proof {
                assert(lengths@[i as int] != lengths@[0]);
            }
            return Err(DspError::ShapeMismatch("all spatial responses must share one frequency grid".to_owned()));
        }
        i += 1;
    }
    Ok(bins)
}

pub open spec fn percentile_shape_verdict(value_count: nat, weight_count: nat) -> Result<(), DspErrorView> {
    if value_count == 0 {
        Err(DspErrorView::EmptyInput("percentile values"@))
    } else if value_count != weight_count {
        Err(DspErrorView::ShapeMismatch("percentile values and weights must have equal lengths"@))
    } else {
        Ok(())
    }
}

/// A weighted percentile needs at least one value and one weight per value.
pub fn check_percentile_shapes(value_count: usize, weight_count: usize) -> (r: Result<(), DspError>)
    ensures
        unit_view(r) == percentile_shape_verdict(value_count as nat, weight_count as nat),
{
    if value_count == 0 {
        return Err(DspError::EmptyInput("percentile values"));
    }
    if value_count != weight_count {
        return Err(DspError::ShapeMismatch("percentile values and weights must have equal lengths".to_owned()));
    }
    Ok(())
}

/// Position weights exist only for at least one measurement position.
pub fn check_position_count(position_count: usize) -> (r: Result<(), DspError>)
    ensures
        r is Ok <==> position_count > 0,
        r matches Err(e) ==> e@ == DspErrorView::EmptyInput("measurement positions"@),
{
    if position_count == 0 {
        return Err(DspError::EmptyInput("measurement positions"));
    }
    Ok(())
}

} // verus!
