//! Integer helpers of the SECS filter design: resolution modes, the
//! greatest common divisor used for polyphase resampling ratios, FFT-ordered
//! bin distances and the 5-smooth FFT length used for zero padding.

use vstd::prelude::*;

verus! {

/// Frequency-resolution mode: how aggressively narrow structure is corrected.
#[derive(Debug, Clone, Copy, PartialEq, Eq)]
pub enum SecsResolutionMode {
    /// Gentlest smoothing.
    Gentle,
    /// The default balance between detail and robustness.
    Balanced,
    /// Sharpest correction of narrow structure.
    Precise,
}

// ---------------------------------------------------------------------------
// Greatest common divisor
// ---------------------------------------------------------------------------

/// Euclid's recursion, the mathematical definition of the gcd used here.
pub open spec fn spec_gcd(a: nat, b: nat) -> nat
    decreases b,
{
    if b == 0 {
        a
    } else {
        spec_gcd(b, a % b)
    }
}

pub open spec fn divides(d: nat, n: nat) -> bool {
    exists|k: nat| #[trigger] (d * k) == n
}

proof fn lemma_divides_mod(d: nat, a: nat, b: nat)
    requires
        b > 0,
        divides(d, b),
    ensures
        divides(d, a % b) <==> divides(d, a),
{
    let kb = choose|k: nat| #[trigger] (d * k) == b;
    let q = a / b;
    let r = a % b;
    assert(a == b * q + r) by (nonlinear_arith)
        requires
            b > 0,
            q == a / b,
            r == a % b,
    ;
    if divides(d, r) {
        let kr = choose|k: nat| #[trigger] (d * k) == r;
        let k = kb * q + kr;
        assert(d * k == a) by (nonlinear_arith)
            requires
                k == kb * q + kr,
                d * kb == b,
                d * kr == r,
                a == b * q + r,
        ;
        assert(divides(d, a));
    }
    if divides(d, a) {
        let ka = choose|k: nat| #[trigger] (d * k) == a;
        assert(ka >= kb * q) by (nonlinear_arith)
            requires
                d * ka == a,
                d * kb == b,
                a == b * q + r,
                r >= 0,
                b > 0,
        ;
        let k = (ka - kb * q) as nat;
        assert(d * k == r) by (nonlinear_arith)
            requires
                k == ka - kb * q,
                d * kb == b,
                d * ka == a,
                a == b * q + r,
        ;
        assert(divides(d, r));
    }
}

/// The gcd divides both arguments, and every common divisor divides it.
pub proof fn lemma_gcd_is_greatest_common_divisor(a: nat, b: nat)
    ensures
        divides(spec_gcd(a, b), a),
        divides(spec_gcd(a, b), b),
        forall|d: nat| divides(d, a) && divides(d, b) ==> divides(d, #[trigger] spec_gcd(a, b)),
    decreases b,
{
    if b == 0 {
        assert(spec_gcd(a, b) * 1 == a);
        assert(spec_gcd(a, b) * 0 == b);
    } else {
        lemma_gcd_is_greatest_common_divisor(b, a % b);
        let g = spec_gcd(a, b);
        assert(g == spec_gcd(b, a % b));
        lemma_divides_mod(g, a, b);
        assert forall|d: nat| divides(d, a) && divides(d, b) implies divides(d, #[trigger] spec_gcd(a, b)) by {
            lemma_divides_mod(d, a, b);
        }
    }
}

/// Greatest common divisor by Euclid's algorithm; `gcd(0, 0) == 0`.
pub fn gcd(a: u32, b: u32) -> (g: u32)
    ensures
        g == spec_gcd(a as nat, b as nat),
{
    let mut x = a;
    let mut y = b;
    while y != 0
        invariant
            spec_gcd(x as nat, y as nat) == spec_gcd(a as nat, b as nat),
        decreases y,
    {
        let remainder = x % y;
        x = y;
        y = remainder;
    }
    x
}


// ---------------------------------------------------------------------------
// FFT-ordered distances
// ---------------------------------------------------------------------------

/// Signed distance of FFT bin `i` from bin 0 when the spectrum is read in
/// centred order: the upper half of the bins counts as negative.
pub open spec fn spec_centered_distance(n: nat, i: nat) -> int {
    (((i + n / 2) as int) % (n as int)) - (n / 2) as int
}

pub fn centered_distance(n: usize) -> (distances: Vec<isize>)
    requires
        n <= isize::MAX,
    ensures
        distances@.len() == n,
        forall|i: int| 0 <= i < n ==> #[trigger] distances@[i] == spec_centered_distance(n as nat, i as nat),
{
    let half = n / 2;
    let mut distances: Vec<isize> = Vec::with_capacity(n);
    let mut i: usize = 0;
    while i < n
        invariant
            i <= n,
            n <= isize::MAX,
            half == n / 2,
            distances@.len() == i,
            forall|j: int| 0 <= j < i ==> #[trigger] distances@[j] == spec_centered_distance(n as nat, j as nat),
        decreases n - i,
    {
        let wrapped = (i + half) % n;
        let value = wrapped as isize - half as isize;
        distances.push(value);
        i += 1;
    }
    distances
}

/// Each centred distance is congruent to its bin index modulo `n` and lies
/// in `[-(n / 2), n - n / 2)`: bin 0 is 0 and the upper half is negative.
pub proof fn lemma_centered_distance_range(n: nat, i: nat)
    requires
        i < n,
    ensures
        -((n / 2) as int) <= spec_centered_distance(n, i) < n - n / 2,
        (spec_centered_distance(n, i) - i) % (n as int) == 0,
        i == 0 ==> spec_centered_distance(n, i) == 0,
{
    let h = (n / 2) as int;
    let x = (i + n / 2) as int;
    let r = x % (n as int);
    assert(0 <= r < n);
    vstd::arithmetic::div_mod::lemma_fundamental_div_mod(x, n as int);
    let q = x / (n as int);
    assert(r - h - i == (-q) * (n as int)) by (nonlinear_arith)
        requires
            x == (n as int) * q + r,
            x == i + h,
    ;
    vstd::arithmetic::div_mod::lemma_mod_multiples_basic(-q, n as int);
    if i == 0 {
        vstd::arithmetic::div_mod::lemma_small_mod(h as nat, n);
    }
}

// ---------------------------------------------------------------------------
// 5-smooth FFT lengths
// ---------------------------------------------------------------------------

pub open spec fn power(base: nat, exponent: nat) -> nat
    decreases exponent,
{
    if exponent == 0 {
        1
    } else {
        base * power(base, (exponent - 1) as nat)
    }
}

/// `2^a * 3^b * 5^c`.
pub open spec fn smooth_value(a: nat, b: nat, c: nat) -> nat {
    power(2, a) * (power(3, b) * power(5, c))
}

/// A length whose only prime factors are 2, 3 and 5.
pub open spec fn is_five_smooth(n: nat) -> bool {
    exists|a: nat, b: nat, c: nat| #[trigger] smooth_value(a, b, c) == n
}

proof fn lemma_power_positive(base: nat, exponent: nat)
    requires
        base >= 1,
    ensures
        power(base, exponent) >= 1,
    decreases exponent,
{
    if exponent > 0 {
        lemma_power_positive(base, (exponent - 1) as nat);
        assert(base * power(base, (exponent - 1) as nat) >= 1) by (nonlinear_arith)
            requires
                base >= 1,
                power(base, (exponent - 1) as nat) >= 1,
        ;
    }
}

/// Raising the exponent by at least one multiplies the power by at least `base`.
proof fn lemma_power_grows(base: nat, low: nat, high: nat)
    requires
        base >= 1,
        low < high,
    ensures
        power(base, high) >= base * power(base, low),
    decreases high - low,
{
    lemma_power_positive(base, low);
    if high == low + 1 {
    } else {
        lemma_power_grows(base, low, (high - 1) as nat);
        lemma_power_positive(base, (high - 1) as nat);
        let p = power(base, (high - 1) as nat);
        let q = power(base, low);
        assert(base * p >= base * q) by (nonlinear_arith)
            requires
                p >= base * q,
                base >= 1,
                q >= 1,
        ;
    }
}

proof fn lemma_power_monotone(base: nat, low: nat, high: nat)
    requires
        base >= 1,
        low <= high,
    ensures
        power(base, high) >= power(base, low),
{
    if low < high {
        lemma_power_grows(base, low, high);
        lemma_power_positive(base, low);
        let q = power(base, low);
        assert(base * q >= q) by (nonlinear_arith)
            requires
                base >= 1,
                q >= 1,
        ;
    }
}

proof fn lemma_smooth_value_positive(a: nat, b: nat, c: nat)
    ensures
        smooth_value(a, b, c) >= 1,
{
    lemma_power_positive(2, a);
    lemma_power_positive(3, b);
    lemma_power_positive(5, c);
    let x = power(2, a);
    let y = power(3, b);
    let z = power(5, c);
    assert(x * (y * z) >= 1) by (nonlinear_arith)
        requires
            x >= 1,
            y >= 1,
            z >= 1,
    ;
}

/// Any 5-smooth value with at least the exponents `(a, b, c)` is at least
/// as large as `2^a 3^b 5^c`, and each extra factor multiplies it.
proof fn lemma_smooth_value_bounds(a: nat, b: nat, c: nat, a2: nat, b2: nat, c2: nat)
    requires
        a <= a2,
        b <= b2,
        c <= c2,
    ensures
        smooth_value(a2, b2, c2) >= smooth_value(a, b, c),
        a < a2 ==> smooth_value(a2, b2, c2) >= 2 * smooth_value(a, b, c),
        b < b2 ==> smooth_value(a2, b2, c2) >= 3 * smooth_value(a, b, c),
        c < c2 ==> smooth_value(a2, b2, c2) >= 5 * smooth_value(a, b, c),
{
    lemma_power_monotone(2, a, a2);
    lemma_power_monotone(3, b, b2);
    lemma_power_monotone(5, c, c2);
    lemma_power_positive(2, a);
    lemma_power_positive(3, b);
    lemma_power_positive(5, c);
    let x = power(2, a);
    let y = power(3, b);
    let z = power(5, c);
    let x2 = power(2, a2);
    let y2 = power(3, b2);
    let z2 = power(5, c2);
    if a < a2 {
        lemma_power_grows(2, a, a2);
    }
    if b < b2 {
        lemma_power_grows(3, b, b2);
    }
    if c < c2 {
        lemma_power_grows(5, c, c2);
    }
    assert(x2 * (y2 * z2) >= x * (y * z)) by (nonlinear_arith)
        requires
            x2 >= x,
            y2 >= y,
            z2 >= z,
            x >= 1,
            y >= 1,
            z >= 1,
    ;
    assert(a < a2 ==> x2 * (y2 * z2) >= 2 * (x * (y * z))) by (nonlinear_arith)
        requires
            a < a2 ==> x2 >= 2 * x,
            y2 >= y,
            z2 >= z,
            x >= 1,
            y >= 1,
            z >= 1,
    ;
    assert(b < b2 ==> x2 * (y2 * z2) >= 3 * (x * (y * z))) by (nonlinear_arith)
        requires
            x2 >= x,
            b < b2 ==> y2 >= 3 * y,
            z2 >= z,
            x >= 1,
            y >= 1,
            z >= 1,
    ;
    assert(c < c2 ==> x2 * (y2 * z2) >= 5 * (x * (y * z))) by (nonlinear_arith)
        requires
            x2 >= x,
            y2 >= y,
            c < c2 ==> z2 >= 5 * z,
            x >= 1,
            y >= 1,
            z >= 1,
    ;
}

/// `length` is the least 5-smooth number at least `minimum`, or `usize::MAX`
/// when no 5-smooth number in `minimum..=usize::MAX` exists.
pub open spec fn is_next_fast_len(minimum: nat, length: nat) -> bool {
    &&& length == usize::MAX || (is_five_smooth(length) && minimum <= length)
    &&& forall|n: nat| #[trigger] is_five_smooth(n) && minimum <= n <= usize::MAX ==> length <= n
}

/// A 5-smooth length is already fast: padding it changes nothing.
pub proof fn lemma_smooth_length_is_its_own_fast_len(n: nat, length: nat)
    requires
        is_five_smooth(n),
        n <= usize::MAX,
        is_next_fast_len(n, length),
    ensures
        length == n,
{
    assert(length <= n);
}

/// Smallest 5-smooth length (`2^a * 3^b * 5^c`) that is at least `minimum`,
/// used to zero-pad an impulse before the SECS design. When no 5-smooth
/// length at least `minimum` fits in `usize`, the result is `usize::MAX`.
pub fn secs_next_fast_len(minimum: usize) -> (length: usize)
    ensures
        is_next_fast_len(minimum as nat, length as nat),
{
    if minimum <= 1 {
        proof {
            assert(smooth_value(0, 0, 0) == 1) by {
                reveal_with_fuel(power, 1);
            }
            assert forall|n: nat| #[trigger] is_five_smooth(n) && minimum <= n <= usize::MAX implies 1 <= n by {
                let (a, b, c) = choose|a: nat, b: nat, c: nat| #[trigger] smooth_value(a, b, c) == n;
                lemma_smooth_value_positive(a, b, c);
            }
        }
        return 1;
    }
    let mut best = usize::MAX;
    let ghost mut best_exponents: (nat, nat, nat) = (0, 0, 0);
    let mut power5: usize = 1;
    let ghost mut c: nat = 0;
    proof {
        assert(power(5, 0) == 1);
        assert(power(3, 0) == 1);
    }
    loop
        invariant_except_break
            power5 == power(5, c),
            power5 >= 1,
            power5 < best,
        invariant
            minimum > 1,
            best == usize::MAX || (best == smooth_value(best_exponents.0, best_exponents.1, best_exponents.2)
                && minimum <= best),
            forall|a: nat, b: nat, c2: nat|
                c2 < c && minimum <= #[trigger] smooth_value(a, b, c2) <= usize::MAX ==> best <= smooth_value(a, b, c2),
        ensures
            best == usize::MAX || (best == smooth_value(best_exponents.0, best_exponents.1, best_exponents.2)
                && minimum <= best),
            forall|a: nat, b: nat, c2: nat|
                minimum <= #[trigger] smooth_value(a, b, c2) <= usize::MAX ==> best <= smooth_value(a, b, c2),
        decreases best - power5,
    {
        let mut with_three = power5;
        let ghost mut b: nat = 0;
        let ghost best_before = best;
        proof {
            lemma_power_positive(3, 0);
            assert(with_three == power(3, 0) * power(5, c)) by (nonlinear_arith)
                requires
                    power(3, 0) == 1,
                    with_three == power(5, c),
            ;
        }
        loop
            invariant_except_break
                with_three == power(3, b) * power(5, c),
                with_three >= 1,
                with_three < best,
            invariant
                minimum > 1,
                best <= best_before,
                power5 == power(5, c),
                power5 >= 1,
                best == usize::MAX || (best == smooth_value(best_exponents.0, best_exponents.1, best_exponents.2)
                    && minimum <= best),
                forall|a: nat, b2: nat, c2: nat|
                    c2 < c && minimum <= #[trigger] smooth_value(a, b2, c2) <= usize::MAX ==> best <= smooth_value(a, b2, c2),
                forall|a: nat, b2: nat|
                    b2 < b && minimum <= #[trigger] smooth_value(a, b2, c) <= usize::MAX ==> best <= smooth_value(a, b2, c),
            ensures
                forall|a: nat, b2: nat, c2: nat|
                    c2 <= c && minimum <= #[trigger] smooth_value(a, b2, c2) <= usize::MAX ==> best <= smooth_value(a, b2, c2),
                best == usize::MAX || (best == smooth_value(best_exponents.0, best_exponents.1, best_exponents.2)
                    && minimum <= best),
            decreases best - with_three,
        {
            let mut candidate = with_three;
            let ghost mut a: nat = 0;
            proof {
                assert(power(2, 0) == 1);
                assert(candidate == smooth_value(0, b, c));
            }
            while candidate < minimum
                invariant
                    candidate == smooth_value(a, b, c),
                    candidate >= 1,
                    with_three == power(3, b) * power(5, c),
                    forall|a2: nat| a2 < a ==> #[trigger] smooth_value(a2, b, c) < minimum,
                ensures
                    candidate == smooth_value(a, b, c),
                    forall|a2: nat| a2 < a ==> #[trigger] smooth_value(a2, b, c) < minimum,
                    candidate < minimum ==> 2 * candidate > usize::MAX,
                decreases usize::MAX - candidate,
            {
                match candidate.checked_mul(2) {
                    Some(next) => {
                        assert(next == candidate * 2);
                        proof {
                            assert(power(2, a + 1) == 2 * power(2, a));
                            assert(next == smooth_value(a + 1, b, c)) by (nonlinear_arith)
                                requires
                                    next == 2 * candidate,
                                    candidate == power(2, a) * (power(3, b) * power(5, c)),
                                    power(2, a + 1) == 2 * power(2, a),
                            ;
                            a = a + 1;
                        }
                        candidate = next;
                    },
                    None => {
                        break;
                    },
                }
            }
            let old_best = best;
            if candidate >= minimum && candidate < best {
                best = candidate;
                proof {
                    best_exponents = (a, b, c);
                }
            }
            proof {
                assert forall|a2: nat| minimum <= #[trigger] smooth_value(a2, b, c) <= usize::MAX implies best
                    <= smooth_value(a2, b, c) by {
                    if a2 < a {
                    } else if candidate >= minimum {
                        lemma_smooth_value_bounds(a, b, c, a2, b, c);
                    } else {
                        lemma_smooth_value_bounds(a, b, c, a2, b, c);
                    }
                }
            }
            match with_three.checked_mul(3) {
                Some(next) => {
                    proof {
                        assert(power(3, b + 1) == 3 * power(3, b));
                        assert(next == power(3, b + 1) * power(5, c)) by (nonlinear_arith)
                            requires
                                next == 3 * with_three,
                                with_three == power(3, b) * power(5, c),
                                power(3, b + 1) == 3 * power(3, b),
                        ;
                        b = b + 1;
                    }
                    with_three = next;
                    if with_three >= best {
                        proof {
                            assert forall|a2: nat, b2: nat, c2: nat|
                                c2 <= c && minimum <= #[trigger] smooth_value(a2, b2, c2) <= usize::MAX implies best
                                <= smooth_value(a2, b2, c2) by {
                                if c2 < c {
                                } else if b2 < b {
                                } else {
                                    lemma_smooth_value_bounds(0, b, c, a2, b2, c2);
                                    assert(power(2, 0) == 1);
                                    assert(smooth_value(0, b, c) == with_three) by (nonlinear_arith)
                                        requires
                                            power(2, 0) == 1,
                                            with_three == power(3, b) * power(5, c),
                                    ;
                                }
                            }
                        }
                        break;
                    }
                },
                None => {
                    proof {
                        assert forall|a2: nat, b2: nat, c2: nat|
                            c2 <= c && minimum <= #[trigger] smooth_value(a2, b2, c2) <= usize::MAX implies best
                            <= smooth_value(a2, b2, c2) by {
                            if c2 < c {
                            } else if b2 <= b {
                            } else {
                                lemma_smooth_value_bounds(0, b, c, a2, b2, c2);
                                assert(power(2, 0) == 1);
                                assert(smooth_value(0, b, c) == with_three) by (nonlinear_arith)
                                    requires
                                        power(2, 0) == 1,
                                        with_three == power(3, b) * power(5, c),
                                ;
                            }
                        }
                    }
                    break;
                },
            }
        }
        match power5.checked_mul(5) {
            Some(next) => {
                proof {
                    assert(power(5, c + 1) == 5 * power(5, c));
                    c = c + 1;
                }
                power5 = next;
                if power5 >= best {
                    proof {
                        assert forall|a2: nat, b2: nat, c2: nat|
                            minimum <= #[trigger] smooth_value(a2, b2, c2) <= usize::MAX implies best
                            <= smooth_value(a2, b2, c2) by {
                            if c2 < c {
                            } else {
                                lemma_smooth_value_bounds(0, 0, c, a2, b2, c2);
                                assert(power(2, 0) == 1);
                                assert(power(3, 0) == 1);
                                assert(smooth_value(0, 0, c) == power5) by (nonlinear_arith)
                                    requires
                                        power(2, 0) == 1,
                                        power(3, 0) == 1,
                                        power5 == power(5, c),
                                ;
                            }
                        }
                    }
                    break;
                }
            },
            None => {
                proof {
                    assert forall|a2: nat, b2: nat, c2: nat|
                        minimum <= #[trigger] smooth_value(a2, b2, c2) <= usize::MAX implies best
                        <= smooth_value(a2, b2, c2) by {
                        if c2 <= c {
                        } else {
                            lemma_smooth_value_bounds(0, 0, c, a2, b2, c2);
                            assert(power(2, 0) == 1);
                            assert(power(3, 0) == 1);
                            assert(smooth_value(0, 0, c) == power5) by (nonlinear_arith)
                                requires
                                    power(2, 0) == 1,
                                    power(3, 0) == 1,
                                    power5 == power(5, c),
                            ;
                        }
                    }
                }
                break;
            },
        }
    }
    proof {
        if best != usize::MAX {
            assert(is_five_smooth(best as nat));
        }
    }
    best
}

} // verus!
