//! Calibration data and the echo-duration-to-height interpolation.
//!
//! The sensor is calibrated against two physical reference positions: a
//! (height, echo duration) anchor at the desk's bottom and one at its top.
//! A measured average echo duration is mapped to a height by linear
//! interpolation between the anchors, rounded to the nearest centimeter
//! (ties round away from zero) and saturated into the representable
//! height range.  Echo durations are held in whole microseconds.

use vstd::arithmetic::div_mod::{
    lemma_basic_div, lemma_div_is_ordered, lemma_div_multiples_vanish_fancy, lemma_div_pos_is_pos,
};
use vstd::prelude::*;

use crate::errors::SensorError;
use crate::units::Centimeter;

verus! {

/// The four calibration numbers of the distance sensor.
///
/// Mutated in place by the calibration operations; persisting it back to
/// durable storage is a caller's responsibility.
#[derive(Clone, Copy, Debug, PartialEq, Eq, Structural)]
pub struct SensorCalibrationData {
    /// The minimum height that can be observed.
    pub min_height: Centimeter,
    /// The echo duration in microseconds at minimum height.
    pub min_height_echo_us: u64,
    /// The maximum height that can be observed.
    pub max_height: Centimeter,
    /// The echo duration in microseconds at maximum height.
    pub max_height_echo_us: u64,
}

impl SensorCalibrationData {
    /// Well-formed calibration: the height anchors are properly ordered
    /// and the echo anchors differ, so interpolation never divides by zero.
    pub open spec fn wf(self) -> bool {
        &&& self.min_height.0 < self.max_height.0
        &&& self.min_height_echo_us != self.max_height_echo_us
    }

    /// Whether the echo anchors coincide, making interpolation impossible.
    pub open spec fn degenerate(self) -> bool {
        self.min_height_echo_us == self.max_height_echo_us
    }
}

/// A quotient of non-negative integers is at most the dividend.
proof fn lemma_div_le_self(x: int, d: int)
    requires
        0 <= x,
        1 <= d,
    ensures
        0 <= x / d <= x,
{
    lemma_div_pos_is_pos(x, d);
    vstd::arithmetic::div_mod::lemma_fundamental_div_mod(x, d);
    vstd::arithmetic::div_mod::lemma_mod_bound(x, d);
    assert(d * (x / d) >= x / d) by (nonlinear_arith)
        requires
            d >= 1,
            x / d >= 0,
    ;
}

/// Division rounded to the nearest integer, ties away from zero.
pub open spec fn round_div(n: int, d: int) -> int
    recommends
        d != 0,
{
    let nn = if d < 0 { -n } else { n };
    let dd = if d < 0 { -d } else { d };
    if nn >= 0 {
        (2 * nn + dd) / (2 * dd)
    } else {
        -((dd - 2 * nn) / (2 * dd))
    }
}

/// The interpolated height, before saturation, for an average echo
/// duration of `avg` microseconds:
/// `round((avg - min_echo) / (max_echo - min_echo) * (max_height - min_height)) + min_height`.
pub open spec fn interpolated(cal: SensorCalibrationData, avg: int) -> int
    recommends
        !cal.degenerate(),
{
    let num = (avg - cal.min_height_echo_us) * (cal.max_height.0 - cal.min_height.0);
    let den = cal.max_height_echo_us - cal.min_height_echo_us;
    round_div(num, den) + cal.min_height.0
}

/// Saturation of an interpolated height into the representable range.
pub open spec fn saturate_height(h: int) -> int {
    if h < 0 {
        0
    } else if h > 255 {
        255
    } else {
        h
    }
}

/// What mapping an average echo duration through a calibration yields:
/// a dedicated error on degenerate calibration, otherwise the saturated
/// rounded interpolation.
pub open spec fn interp_result(cal: SensorCalibrationData, avg: int) -> Result<
    Centimeter,
    SensorError,
> {
    if cal.degenerate() {
        Err(SensorError::DegenerateCalibration)
    } else {
        Ok(Centimeter(saturate_height(interpolated(cal, avg)) as u8))
    }
}

/// Rounded division with a positive divisor is monotonic in the dividend.
proof fn lemma_round_div_mono(n1: int, n2: int, d: int)
    requires
        0 < d,
        n1 <= n2,
    ensures
        round_div(n1, d) <= round_div(n2, d),
{
    if n1 >= 0 {
        lemma_div_is_ordered(2 * n1 + d, 2 * n2 + d, 2 * d);
    } else if n2 < 0 {
        lemma_div_is_ordered(d - 2 * n2, d - 2 * n1, 2 * d);
    } else {
        lemma_div_pos_is_pos(d - 2 * n1, 2 * d);
        lemma_div_pos_is_pos(2 * n2 + d, 2 * d);
    }
}

/// Law: for a well-formed calibration the height is monotonic in the
/// averaged echo duration.  A longer average echo moves the height toward
/// `max_height` when `max_height_echo_us` exceeds `min_height_echo_us`,
/// and away from it when the echo anchors are reversed.  This holds both
/// before and after saturation.
pub proof fn lemma_height_monotonic(cal: SensorCalibrationData, a1: int, a2: int)
    requires
        cal.wf(),
        a1 <= a2,
    ensures
        cal.min_height_echo_us < cal.max_height_echo_us ==> interpolated(cal, a1)
            <= interpolated(cal, a2),
        cal.max_height_echo_us < cal.min_height_echo_us ==> interpolated(cal, a2)
            <= interpolated(cal, a1),
        cal.min_height_echo_us < cal.max_height_echo_us ==> interp_result(cal, a1)->Ok_0.0
            <= interp_result(cal, a2)->Ok_0.0,
        cal.max_height_echo_us < cal.min_height_echo_us ==> interp_result(cal, a2)->Ok_0.0
            <= interp_result(cal, a1)->Ok_0.0,
{
    let min_e = cal.min_height_echo_us as int;
    let max_e = cal.max_height_echo_us as int;
    let sh = cal.max_height.0 - cal.min_height.0;
    let den = max_e - min_e;
    let num1 = (a1 - min_e) * sh;
    let num2 = (a2 - min_e) * sh;
    assert(num1 <= num2) by (nonlinear_arith)
        requires
            a1 <= a2,
            sh >= 0,
            num1 == (a1 - min_e) * sh,
            num2 == (a2 - min_e) * sh,
    ;
    if min_e < max_e {
        lemma_round_div_mono(num1, num2, den);
    } else {
        lemma_round_div_mono(-num2, -num1, -den);
        assert(round_div(num1, den) == round_div(-num1, -den));
        assert(round_div(num2, den) == round_div(-num2, -den));
    }
}

/// Law: interpolating an exact calibration anchor returns that anchor's
/// height.  The `min_height_echo_us` anchor yields `min_height` and the
/// `max_height_echo_us` anchor yields `max_height`, after rounding and
/// saturation.
pub proof fn lemma_anchor_round_trip(cal: SensorCalibrationData)
    requires
        cal.wf(),
    ensures
        interp_result(cal, cal.min_height_echo_us as int) == Ok::<Centimeter, SensorError>(
            cal.min_height,
        ),
        interp_result(cal, cal.max_height_echo_us as int) == Ok::<Centimeter, SensorError>(
            cal.max_height,
        ),
{
    let min_e = cal.min_height_echo_us as int;
    let max_e = cal.max_height_echo_us as int;
    let sh = cal.max_height.0 - cal.min_height.0;
    let den = max_e - min_e;
    let dd = if den < 0 {
        -den
    } else {
        den
    };
    // At the minimum anchor the numerator is zero, and a zero numerator
    // rounds to a zero quotient.
    assert((min_e - min_e) * sh == 0) by (nonlinear_arith);
    lemma_basic_div(dd, 2 * dd);
    assert(round_div(0, den) == 0);
    // At the maximum anchor the numerator is exactly `den * sh`, whose
    // rounded quotient is exactly `sh`.
    let num_max = (max_e - min_e) * sh;
    assert(num_max == den * sh);
    if den > 0 {
        assert(2 * (den * sh) + den == (2 * den) * sh + den) by (nonlinear_arith);
        assert(den * sh >= 0) by (nonlinear_arith)
            requires
                den > 0,
                sh >= 0,
        ;
        lemma_div_multiples_vanish_fancy(sh as int, den, 2 * den);
        assert(round_div(num_max, den) == sh);
    } else {
        assert(-(den * sh) == (-den) * sh) by (nonlinear_arith);
        assert((-den) * sh >= 0) by (nonlinear_arith)
            requires
                -den > 0,
                sh >= 0,
        ;
        assert(2 * ((-den) * sh) + (-den) == (2 * (-den)) * sh + (-den)) by (nonlinear_arith);
        lemma_div_multiples_vanish_fancy(sh as int, -den, 2 * (-den));
        assert(round_div(num_max, den) == sh);
    }
}

/// Maps an average echo duration through the calibration to a height.
///
/// Fails on degenerate calibration (equal echo anchors) rather than
/// dividing by zero; heights outside the representable range saturate.
pub fn interpolate_height(cal: &SensorCalibrationData, avg_us: u64) -> (r: Result<
    Centimeter,
    SensorError,
>)
    ensures
        r == interp_result(*cal, avg_us as int),
        cal.degenerate() <==> r == Err::<Centimeter, SensorError>(
            SensorError::DegenerateCalibration,
        ),
{
    if cal.max_height_echo_us == cal.min_height_echo_us {
        return Err(SensorError::DegenerateCalibration);
    }
    let avg = avg_us as i128;
    let min_e = cal.min_height_echo_us as i128;
    let max_e = cal.max_height_echo_us as i128;
    let span_h = (cal.max_height.0 as i128) - (cal.min_height.0 as i128);
    let de: i128 = avg - min_e;
    proof {
        assert(-0x1_0000_0000_0000_0000_0000 < de * span_h
            < 0x1_0000_0000_0000_0000_0000) by (nonlinear_arith)
            requires
                -0x1_0000_0000_0000_0000 < de < 0x1_0000_0000_0000_0000,
                -256 < span_h < 256,
        ;
    }
    let num: i128 = de * span_h;
    let den: i128 = max_e - min_e;
    // Normalize so the divisor is positive; round-to-nearest then works on
    // the numerator's magnitude.
    let nn: i128 = if den < 0 {
        -num
    } else {
        num
    };
    let dd: i128 = if den < 0 {
        -den
    } else {
        den
    };
    let dd_mag: u128 = dd as u128;
    let q: i128 = if nn >= 0 {
        let t: u128 = 2 * (nn as u128) + dd_mag;
        proof {
            lemma_div_le_self(t as int, 2 * dd_mag as int);
        }
        ((t / (2 * dd_mag)) as i128)
    } else {
        let m = (-nn) as u128;
        let t: u128 = 2 * m + dd_mag;
        proof {
            lemma_div_le_self(t as int, 2 * dd_mag as int);
        }
        -(((t / (2 * dd_mag)) as i128))
    };
    proof {
        assert(q == round_div(num as int, den as int));
    }
    let h: i128 = q + cal.min_height.0 as i128;
    let rounded: u8 = if h < 0 {
        0
    } else if h > 255 {
        255
    } else {
        h as u8
    };
    Ok(Centimeter(rounded))
}

} // verus!
