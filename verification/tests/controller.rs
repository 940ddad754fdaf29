use standing_desk::Centimeter;
use standing_desk::EchoSample;
use standing_desk::EdgeLevel;
use standing_desk::MotorCmd;
use standing_desk::NoDelay;
use standing_desk::SensorCalibrationData;
use standing_desk::SensorError;
use standing_desk::SimulatedMotor;
use standing_desk::SimulatedSensor;
use standing_desk::StandingDesk;
use standing_desk::TableConfig;
use standing_desk::TableError;
use standing_desk::MAX_POLLS;

fn ok_sample(duration_us: u64) -> EchoSample {
    EchoSample {
        start_edge: Some(EdgeLevel::High),
        duration_us,
    }
}

fn timeout_sample() -> EchoSample {
    EchoSample {
        start_edge: None,
        duration_us: 0,
    }
}

fn reference_calibration() -> SensorCalibrationData {
    SensorCalibrationData {
        min_height: Centimeter(60),
        min_height_echo_us: 3000,
        max_height: Centimeter(120),
        max_height_echo_us: 9000,
    }
}

fn reference_config() -> TableConfig {
    TableConfig {
        standing_height: Centimeter(110),
        sitting_height: Centimeter(70),
        min_table_height: Centimeter(60),
        max_table_height: Centimeter(120),
    }
}

/// The echo duration, in microseconds, that the reference calibration
/// maps to `height` centimeters: the inverse of the interpolation.
fn echo_for(height: u8) -> u64 {
    3000 + (height as u64 - 60) * 100
}

/// A burst of three identical clean samples reading as `height`.
fn burst_reading(height: u8) -> Vec<EchoSample> {
    let us = echo_for(height);
    vec![ok_sample(us), ok_sample(us), ok_sample(us)]
}

fn desk_with(
    script: Vec<EchoSample>,
) -> StandingDesk<SimulatedSensor, SimulatedMotor, NoDelay> {
    let sensor = SimulatedSensor::new(
        script,
        reference_calibration(),
        String::from("calibration.toml"),
    );
    StandingDesk::new(reference_config(), sensor, SimulatedMotor::new(), NoDelay::new())
}

#[test]
fn a_target_above_the_maximum_is_rejected_without_motor_commands() {
    let mut desk = desk_with(burst_reading(90));
    let r = desk.move_to_height(Centimeter(130));
    assert_eq!(r, Err(TableError::TooHigh(Centimeter(120))));
    assert!(desk.motor.log.is_empty());
    // The sensor was never read either: bounds are validated first.
    assert_eq!(desk.sensor.samples.len(), 3);
}

#[test]
fn a_target_below_the_minimum_is_rejected_without_motor_commands() {
    let mut desk = desk_with(burst_reading(90));
    let r = desk.move_to_height(Centimeter(50));
    assert_eq!(r, Err(TableError::TooLow(Centimeter(60))));
    assert!(desk.motor.log.is_empty());
    assert_eq!(desk.sensor.samples.len(), 3);
}

#[test]
fn a_desk_already_at_the_target_is_left_uncommanded() {
    let mut desk = desk_with(burst_reading(90));
    assert_eq!(desk.move_to_height(Centimeter(90)), Ok(()));
    assert!(desk.motor.log.is_empty());
}

#[test]
fn a_desk_within_tolerance_is_left_uncommanded() {
    let mut desk = desk_with(burst_reading(89));
    assert_eq!(desk.move_to_height(Centimeter(90)), Ok(()));
    assert!(desk.motor.log.is_empty());
    let mut desk = desk_with(burst_reading(91));
    assert_eq!(desk.move_to_height(Centimeter(90)), Ok(()));
    assert!(desk.motor.log.is_empty());
}

#[test]
fn moving_up_polls_until_the_target_is_passed() {
    let mut script = burst_reading(90);
    script.extend(burst_reading(100));
    script.extend(burst_reading(110));
    let mut desk = desk_with(script);
    assert_eq!(desk.move_to_height(Centimeter(110)), Ok(()));
    assert_eq!(desk.motor.log, vec![MotorCmd::Up, MotorCmd::Stop]);
    assert_eq!(desk.sensor.samples.len(), 0);
}

#[test]
fn moving_down_polls_until_the_target_is_passed() {
    let mut script = burst_reading(90);
    script.extend(burst_reading(80));
    script.extend(burst_reading(70));
    let mut desk = desk_with(script);
    assert_eq!(desk.move_to_height(Centimeter(70)), Ok(()));
    assert_eq!(desk.motor.log, vec![MotorCmd::Down, MotorCmd::Stop]);
}

#[test]
fn a_sensor_error_mid_movement_leaves_the_motor_running() {
    let mut script = burst_reading(90);
    script.push(timeout_sample());
    let mut desk = desk_with(script);
    assert_eq!(
        desk.move_to_height(Centimeter(110)),
        Err(TableError::Sensor(SensorError::TriggerTimeout))
    );
    assert_eq!(desk.motor.log, vec![MotorCmd::Up]);
}

#[test]
fn move_to_standing_targets_the_configured_standing_height() {
    let mut script = burst_reading(90);
    script.extend(burst_reading(110));
    let mut desk = desk_with(script);
    assert_eq!(desk.move_to_standing(), Ok(()));
    assert_eq!(desk.motor.log, vec![MotorCmd::Up, MotorCmd::Stop]);
}

#[test]
fn move_to_sitting_targets_the_configured_sitting_height() {
    let mut script = burst_reading(90);
    script.extend(burst_reading(70));
    let mut desk = desk_with(script);
    assert_eq!(desk.move_to_sitting(), Ok(()));
    assert_eq!(desk.motor.log, vec![MotorCmd::Down, MotorCmd::Stop]);
}

#[test]
fn calibration_sweeps_up_then_down_and_sets_both_anchors() {
    let mut script = Vec::new();
    // Upward sweep: rising (90 cm, 100 cm), then flat at the top.
    script.extend(burst_reading(90));
    script.extend(burst_reading(100));
    script.extend(burst_reading(100));
    // The high anchor measurement at the top: stored as (120 cm, 9500 us).
    script.extend(vec![ok_sample(9500), ok_sample(9500), ok_sample(9500)]);
    // Downward sweep under the updated calibration: 5000 us reads as
    // 78 cm and 4000 us as 69 cm — falling, then flat at the bottom.
    script.extend(vec![ok_sample(5000), ok_sample(5000), ok_sample(5000)]);
    script.extend(vec![ok_sample(4000), ok_sample(4000), ok_sample(4000)]);
    script.extend(vec![ok_sample(4000), ok_sample(4000), ok_sample(4000)]);
    // The low anchor measurement at the bottom: stored as (60 cm, 3100 us).
    script.extend(vec![ok_sample(3100), ok_sample(3100), ok_sample(3100)]);
    // The trailing move to the sitting height: under the final anchors,
    // 4167 us reads as 70 cm, already in tolerance.
    script.extend(vec![ok_sample(4167), ok_sample(4167), ok_sample(4167)]);
    let mut desk = desk_with(script);
    assert_eq!(desk.calibrate(), Ok(()));
    assert_eq!(
        desk.motor.log,
        vec![MotorCmd::Up, MotorCmd::Stop, MotorCmd::Down, MotorCmd::Stop]
    );
    assert_eq!(desk.sensor.calibration.max_height, Centimeter(120));
    assert_eq!(desk.sensor.calibration.max_height_echo_us, 9500);
    assert_eq!(desk.sensor.calibration.min_height, Centimeter(60));
    assert_eq!(desk.sensor.calibration.min_height_echo_us, 3100);
    assert_eq!(desk.sensor.samples.len(), 0);
}

#[test]
fn a_sensor_error_during_calibration_aborts_the_sequence() {
    let mut desk = desk_with(vec![timeout_sample()]);
    assert_eq!(
        desk.calibrate(),
        Err(TableError::Sensor(SensorError::TriggerTimeout))
    );
    // The error surfaced after the upward command: the motor is left in
    // its last commanded state.
    assert_eq!(desk.motor.log, vec![MotorCmd::Up]);
    assert_eq!(desk.sensor.calibration, reference_calibration());
}

#[test]
fn seek_from_a_reading_at_the_target_commands_nothing() {
    let mut desk = desk_with(Vec::new());
    assert_eq!(desk.seek_from(Centimeter(90), Centimeter(90)), Ok(()));
    assert!(desk.motor.log.is_empty());
}

#[test]
fn a_movement_that_never_settles_times_out_and_stops_the_motor() {
    // One decision burst, then enough unchanging polled readings to
    // exhaust the polling budget without reaching the target.
    let script = vec![ok_sample(6000); 3 * (MAX_POLLS as usize + 2)];
    let mut desk = desk_with(script);
    assert_eq!(
        desk.move_to_height(Centimeter(110)),
        Err(TableError::PollTimeout)
    );
    assert_eq!(desk.motor.log, vec![MotorCmd::Up, MotorCmd::Stop]);
}

#[test]
fn bounds_errors_carry_descriptive_messages() {
    let mut desk = desk_with(Vec::new());
    let e = desk.move_to_height(Centimeter(130)).unwrap_err();
    assert!(e.message().contains("higher"));
    let e = desk.move_to_height(Centimeter(10)).unwrap_err();
    assert!(e.message().contains("lower"));
}
