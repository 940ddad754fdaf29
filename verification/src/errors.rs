//! The error taxonomy of the desk.

use vstd::prelude::*;

use crate::units::Centimeter;

verus! {

/// An error from the distance-sensing pipeline: echo acquisition or
/// calibration-based interpolation.
#[derive(Clone, Copy, Debug, PartialEq, Eq, Structural)]
pub enum SensorError {
    /// No start edge arrived on the echo line before the trigger-wait
    /// timeout: the measurement never began.
    TriggerTimeout,
    /// The first observed edge left the echo line low, so no real rising
    /// edge started a measurement.
    SpuriousLowTrigger,
    /// The echo duration reached the sensor's ceiling: no object is close
    /// enough to range against.
    OutOfRange,
    /// The two calibration anchors share one echo duration, so the linear
    /// interpolation would divide by zero.
    DegenerateCalibration,
}

impl SensorError {
    /// The description `message` returns for each variant.
    pub open spec fn message_spec(&self) -> Seq<char> {
        match self {
            SensorError::TriggerTimeout => "unsuccessful measurement, echo trigger timed out"@,
            SensorError::SpuriousLowTrigger => {
                "unsuccessful measurement, echo triggered on low signal"@
            },
            SensorError::OutOfRange => {
                "unsuccessful measurement, probably no object close enough"@
            },
            SensorError::DegenerateCalibration => {
                "calibration echo anchors are equal, cannot interpolate"@
            },
        }
    }

    /// A short description of the error.
    pub fn message(&self) -> (r: &'static str)
        ensures
            r@ == self.message_spec(),
    {
        match self {
            SensorError::TriggerTimeout => "unsuccessful measurement, echo trigger timed out",
            SensorError::SpuriousLowTrigger => {
                "unsuccessful measurement, echo triggered on low signal"
            },
            SensorError::OutOfRange => {
                "unsuccessful measurement, probably no object close enough"
            },
            SensorError::DegenerateCalibration => {
                "calibration echo anchors are equal, cannot interpolate"
            },
        }
    }
}

/// An error from the desk-movement controller.
#[derive(Clone, Copy, Debug, PartialEq, Eq, Structural)]
pub enum TableError {
    /// The requested height lies above the configured maximum; the field
    /// holds that maximum.
    TooHigh(Centimeter),
    /// The requested height lies below the configured minimum; the field
    /// holds that minimum.
    TooLow(Centimeter),
    /// A sensor reading failed while the controller needed it; the
    /// in-progress operation was aborted.
    Sensor(SensorError),
    /// The height being polled did not reach the expected condition within
    /// the controller's maximum number of polls.
    PollTimeout,
}

impl TableError {
    /// The description `message` returns for each variant.
    pub open spec fn message_spec(&self) -> Seq<char> {
        match self {
            TableError::TooHigh(_) => "cannot move table higher than the configured maximum"@,
            TableError::TooLow(_) => "cannot move table lower than the configured minimum"@,
            TableError::Sensor(e) => e.message_spec(),
            TableError::PollTimeout => {
                "table movement did not settle within the polling budget"@
            },
        }
    }

    /// A short description of the error.
    pub fn message(&self) -> (r: &'static str)
        ensures
            r@ == self.message_spec(),
    {
        match self {
            TableError::TooHigh(_) => "cannot move table higher than the configured maximum",
            TableError::TooLow(_) => "cannot move table lower than the configured minimum",
            TableError::Sensor(e) => e.message(),
            TableError::PollTimeout => "table movement did not settle within the polling budget",
        }
    }
}

} // verus!
