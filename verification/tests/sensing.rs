use standing_desk::classify_burst;
use standing_desk::classify_echo;
use standing_desk::Centimeter;
use standing_desk::DistanceSensor;
use standing_desk::EchoSample;
use standing_desk::EdgeLevel;
use standing_desk::SensorCalibrationData;
use standing_desk::SensorError;
use standing_desk::SimulatedSensor;
use standing_desk::ECHO_CEILING_US;

fn ok_sample(duration_us: u64) -> EchoSample {
    EchoSample {
        start_edge: Some(EdgeLevel::High),
        duration_us,
    }
}

fn timeout_sample() -> EchoSample {
    EchoSample {
        start_edge: None,
        duration_us: 0,
    }
}

fn reference_calibration() -> SensorCalibrationData {
    SensorCalibrationData {
        min_height: Centimeter(60),
        min_height_echo_us: 3000,
        max_height: Centimeter(120),
        max_height_echo_us: 9000,
    }
}

fn sensor_with(samples: Vec<EchoSample>) -> SimulatedSensor {
    SimulatedSensor::new(
        samples,
        reference_calibration(),
        String::from("calibration.toml"),
    )
}

#[test]
fn classify_rejects_a_timed_out_trigger() {
    assert_eq!(
        classify_echo(&timeout_sample()),
        Err(SensorError::TriggerTimeout)
    );
}

#[test]
fn classify_rejects_a_low_start_edge() {
    let s = EchoSample {
        start_edge: Some(EdgeLevel::Low),
        duration_us: 1000,
    };
    assert_eq!(classify_echo(&s), Err(SensorError::SpuriousLowTrigger));
}

#[test]
fn classify_rejects_durations_at_the_ceiling() {
    assert_eq!(
        classify_echo(&ok_sample(ECHO_CEILING_US)),
        Err(SensorError::OutOfRange)
    );
    assert_eq!(
        classify_echo(&ok_sample(ECHO_CEILING_US + 1)),
        Err(SensorError::OutOfRange)
    );
}

#[test]
fn classify_accepts_a_duration_under_the_ceiling() {
    assert_eq!(classify_echo(&ok_sample(ECHO_CEILING_US - 1)), Ok(ECHO_CEILING_US - 1));
    assert_eq!(classify_echo(&ok_sample(6000)), Ok(6000));
}

#[test]
fn a_clean_burst_averages_and_interpolates() {
    let mut sensor = sensor_with(vec![ok_sample(6000), ok_sample(6000), ok_sample(6000)]);
    assert_eq!(sensor.current_height(), Ok(Centimeter(90)));
    assert_eq!(sensor.samples.len(), 0);
}

#[test]
fn burst_averaging_smooths_noisy_samples() {
    let mut sensor = sensor_with(vec![ok_sample(5999), ok_sample(6000), ok_sample(6001)]);
    assert_eq!(sensor.current_height(), Ok(Centimeter(90)));
}

#[test]
fn sequential_trigger_timeouts_fail_the_reading() {
    let mut sensor = sensor_with(vec![timeout_sample(), timeout_sample(), timeout_sample()]);
    assert_eq!(sensor.current_height(), Err(SensorError::TriggerTimeout));
}

#[test]
fn a_burst_fails_fast_on_the_first_bad_sample() {
    let bad = EchoSample {
        start_edge: Some(EdgeLevel::Low),
        duration_us: 5000,
    };
    let mut sensor = sensor_with(vec![ok_sample(6000), bad, ok_sample(6000)]);
    assert_eq!(
        sensor.current_height(),
        Err(SensorError::SpuriousLowTrigger)
    );
    // The failing sample is consumed; the one after it is not.
    assert_eq!(sensor.samples.len(), 1);
}

#[test]
fn an_exhausted_script_reads_as_a_trigger_timeout() {
    let mut sensor = sensor_with(vec![ok_sample(6000), ok_sample(6000)]);
    assert_eq!(sensor.current_height(), Err(SensorError::TriggerTimeout));
}

#[test]
fn degenerate_calibration_fails_the_reading() {
    let mut sensor = SimulatedSensor::new(
        vec![ok_sample(6000), ok_sample(6000), ok_sample(6000)],
        SensorCalibrationData {
            min_height: Centimeter(60),
            min_height_echo_us: 5000,
            max_height: Centimeter(120),
            max_height_echo_us: 5000,
        },
        String::from("calibration.toml"),
    );
    assert_eq!(
        sensor.current_height(),
        Err(SensorError::DegenerateCalibration)
    );
}

#[test]
fn set_min_height_stores_the_measured_anchor() {
    let mut sensor = sensor_with(vec![ok_sample(3200), ok_sample(3400), ok_sample(3600)]);
    assert_eq!(sensor.set_min_height(Centimeter(62)), Ok(()));
    assert_eq!(sensor.calibration.min_height, Centimeter(62));
    assert_eq!(sensor.calibration.min_height_echo_us, 3400);
    // The high anchor is untouched.
    assert_eq!(sensor.calibration.max_height, Centimeter(120));
    assert_eq!(sensor.calibration.max_height_echo_us, 9000);
}

#[test]
fn set_max_height_stores_the_measured_anchor() {
    let mut sensor = sensor_with(vec![ok_sample(9300), ok_sample(9300), ok_sample(9301)]);
    assert_eq!(sensor.set_max_height(Centimeter(121)), Ok(()));
    assert_eq!(sensor.calibration.max_height, Centimeter(121));
    // 9300 + 9300 + 9301 averages to 9300 after rounding down.
    assert_eq!(sensor.calibration.max_height_echo_us, 9300);
    assert_eq!(sensor.calibration.min_height, Centimeter(60));
}

#[test]
fn a_failed_burst_leaves_the_calibration_alone() {
    let mut sensor = sensor_with(vec![timeout_sample()]);
    assert_eq!(
        sensor.set_min_height(Centimeter(50)),
        Err(SensorError::TriggerTimeout)
    );
    assert_eq!(sensor.calibration, reference_calibration());
}

#[test]
fn classify_burst_averages_a_clean_burst() {
    let samples = vec![ok_sample(5999), ok_sample(6000), ok_sample(6001)];
    assert_eq!(classify_burst(&samples), Ok(6000));
}

#[test]
fn classify_burst_fails_with_the_first_bad_sample() {
    let bad = EchoSample {
        start_edge: Some(EdgeLevel::Low),
        duration_us: 5000,
    };
    let samples = vec![ok_sample(6000), bad, timeout_sample()];
    assert_eq!(classify_burst(&samples), Err(SensorError::SpuriousLowTrigger));
}

#[test]
fn classify_burst_needs_a_full_burst() {
    let samples = vec![ok_sample(6000), ok_sample(6000)];
    assert_eq!(classify_burst(&samples), Err(SensorError::TriggerTimeout));
}

#[test]
fn sensor_errors_carry_their_exact_messages() {
    assert_eq!(
        SensorError::TriggerTimeout.message(),
        "unsuccessful measurement, echo trigger timed out"
    );
    assert_eq!(
        SensorError::DegenerateCalibration.message(),
        "calibration echo anchors are equal, cannot interpolate"
    );
}

#[test]
fn the_sensor_exposes_its_calibration_for_persistence() {
    let sensor = sensor_with(vec![]);
    assert_eq!(sensor.calibration_file(), "calibration.toml");
    assert_eq!(*sensor.calibration_data(), reference_calibration());
}
