use standing_desk::interpolate_height;
use standing_desk::Centimeter;
use standing_desk::SensorCalibrationData;
use standing_desk::SensorError;

fn reference_calibration() -> SensorCalibrationData {
    SensorCalibrationData {
        min_height: Centimeter(60),
        min_height_echo_us: 3000,
        max_height: Centimeter(120),
        max_height_echo_us: 9000,
    }
}

#[test]
fn midpoint_echo_yields_midpoint_height() {
    let cal = reference_calibration();
    assert_eq!(interpolate_height(&cal, 6000), Ok(Centimeter(90)));
}

#[test]
fn min_anchor_round_trips_to_min_height() {
    let cal = reference_calibration();
    assert_eq!(interpolate_height(&cal, 3000), Ok(Centimeter(60)));
}

#[test]
fn max_anchor_round_trips_to_max_height() {
    let cal = reference_calibration();
    assert_eq!(interpolate_height(&cal, 9000), Ok(Centimeter(120)));
}

#[test]
fn degenerate_calibration_fails_with_dedicated_error() {
    let cal = SensorCalibrationData {
        min_height: Centimeter(60),
        min_height_echo_us: 5000,
        max_height: Centimeter(120),
        max_height_echo_us: 5000,
    };
    assert_eq!(
        interpolate_height(&cal, 6000),
        Err(SensorError::DegenerateCalibration)
    );
}

#[test]
fn height_is_monotonic_in_echo_duration() {
    let cal = reference_calibration();
    let mut last = interpolate_height(&cal, 2000).unwrap().0;
    for avg in [2500, 3000, 4000, 5500, 6000, 8000, 9000, 12_000] {
        let h = interpolate_height(&cal, avg).unwrap().0;
        assert!(h >= last);
        last = h;
    }
}

#[test]
fn reversed_echo_anchors_invert_the_slope() {
    let cal = SensorCalibrationData {
        min_height: Centimeter(60),
        min_height_echo_us: 9000,
        max_height: Centimeter(120),
        max_height_echo_us: 3000,
    };
    assert_eq!(interpolate_height(&cal, 9000), Ok(Centimeter(60)));
    assert_eq!(interpolate_height(&cal, 3000), Ok(Centimeter(120)));
    let low = interpolate_height(&cal, 8000).unwrap().0;
    let high = interpolate_height(&cal, 4000).unwrap().0;
    assert!(low < high);
}

#[test]
fn rounding_is_to_nearest_with_ties_away_from_zero() {
    let cal = reference_calibration();
    // 6050 us is exactly halfway between 90 and 91 cm: ties round away.
    assert_eq!(interpolate_height(&cal, 6050), Ok(Centimeter(91)));
    // 6049 us is just under the midpoint and rounds down.
    assert_eq!(interpolate_height(&cal, 6049), Ok(Centimeter(90)));
}

#[test]
fn heights_above_the_representable_range_saturate() {
    let cal = reference_calibration();
    // An average echo of 30000 us interpolates to 330 cm.
    assert_eq!(interpolate_height(&cal, 30_000), Ok(Centimeter(255)));
}

#[test]
fn heights_below_zero_saturate_to_zero() {
    let cal = SensorCalibrationData {
        min_height: Centimeter(5),
        min_height_echo_us: 9000,
        max_height: Centimeter(120),
        max_height_echo_us: 9600,
    };
    // An average echo of 3000 us interpolates to -1145 cm.
    assert_eq!(interpolate_height(&cal, 3000), Ok(Centimeter(0)));
}
