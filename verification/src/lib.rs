//! Control logic for a height-adjustable standing desk.
//!
//! The desk measures its own height with an ultrasonic distance sensor:
//! an echo duration is acquired by pulse timing, several samples are
//! averaged, and the average is mapped through a two-anchor linear
//! calibration to a height in centimeters.  A controller consumes those
//! readings and commands a motor to seek a target height within a
//! one-centimeter tolerance band.
//!
//! Hardware access (GPIO pins, the motor driver, real delays, and the
//! calibration file on disk) lives behind the `DistanceSensor`, `Motor`
//! and `Delay` traits, so the verified logic here is independent of it.

mod calibration;
mod errors;
mod motor;
mod sensor;
mod table;
mod units;

pub use calibration::interp_result;
pub use calibration::interpolate_height;
pub use calibration::interpolated;
pub use calibration::round_div;
pub use calibration::saturate_height;
pub use calibration::SensorCalibrationData;
pub use calibration::lemma_anchor_round_trip;
pub use calibration::lemma_height_monotonic;
pub use errors::SensorError;
pub use sensor::average_duration;
pub use sensor::burst_take;
pub use sensor::classify_burst;
pub use sensor::classify_echo;
pub use sensor::classify_result;
pub use sensor::sum_durations;
pub use sensor::DistanceSensor;
pub use sensor::EchoSample;
pub use sensor::EdgeLevel;
pub use sensor::SimulatedSensor;
pub use sensor::ECHO_CEILING_US;
pub use sensor::MEASUREMENT_BURST;
pub use errors::TableError;
pub use motor::Delay;
pub use motor::Motor;
pub use motor::MotorCmd;
pub use motor::NoDelay;
pub use motor::SimulatedMotor;
pub use table::bounds_check;
pub use table::calibrate_err_trace;
pub use table::calibrate_ok_obs;
pub use table::calibrate_ok_trace;
pub use table::in_tolerance;
pub use table::lemma_stay_at_target;
pub use table::move_err_trace;
pub use table::move_ok_trace;
pub use table::move_outcome;
pub use table::plan_step;
pub use table::poll_chain;
pub use table::poll_value;
pub use table::reading_reaches;
pub use table::reading_short_of;
pub use table::seek_obs;
pub use table::seek_trace;
pub use table::step_for;
pub use table::MoveStep;
pub use table::StandingDesk;
pub use table::TableConfig;
pub use table::HEIGHT_TOLERANCE_CM;
pub use table::MAX_POLLS;
pub use table::POLL_INTERVAL_MS;
pub use units::Centimeter;
