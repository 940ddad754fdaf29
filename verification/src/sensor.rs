//! The distance-sensing pipeline: raw echo validation, burst averaging,
//! and the sensor capability trait.
//!
//! One reading is a burst of a fixed number of raw echo acquisitions.
//! Each acquisition is validated against the pulse protocol, the valid
//! durations are averaged, and the average is mapped through the current
//! calibration to a height.  A burst fails as a whole as soon as one
//! acquisition fails: there is no partial-success policy.

use vstd::arithmetic::div_mod::{lemma_div_is_ordered, lemma_div_pos_is_pos};
use vstd::prelude::*;

use crate::calibration::{interp_result, interpolate_height, SensorCalibrationData};
use crate::errors::SensorError;
use crate::units::Centimeter;

verus! {

/// The number of echo samples averaged per reading.
pub const MEASUREMENT_BURST: usize = 3;

/// Echo durations at or above this ceiling, in microseconds, mean no
/// object is close enough to range against.
pub const ECHO_CEILING_US: u64 = 200_000;

/// The level the echo line transitioned to at an observed edge.
#[derive(Clone, Copy, Debug, PartialEq, Eq, Structural)]
pub enum EdgeLevel {
    Low,
    High,
}

/// One raw acquisition from the pulse timer: the level of the first edge
/// observed after the trigger (`None` if the wait timed out), and the
/// elapsed time from that edge to the next one, in microseconds.
#[derive(Clone, Copy, Debug)]
pub struct EchoSample {
    /// The level the first observed edge transitioned to, if any arrived
    /// before the trigger-wait timeout.
    pub start_edge: Option<EdgeLevel>,
    /// The elapsed time between the two observed edges, in microseconds.
    pub duration_us: u64,
}

/// What validating one raw acquisition yields under the pulse protocol.
pub open spec fn classify_result(s: EchoSample) -> Result<u64, SensorError> {
    if s.start_edge is None {
        Err(SensorError::TriggerTimeout)
    } else if s.start_edge == Some(EdgeLevel::Low) {
        Err(SensorError::SpuriousLowTrigger)
    } else if s.duration_us >= ECHO_CEILING_US {
        Err(SensorError::OutOfRange)
    } else {
        Ok(s.duration_us)
    }
}

/// Validates one raw acquisition: the start wait must not have timed out,
/// the first edge must have gone high (a low level means no real rising
/// edge started the measurement), and the duration must lie under the
/// out-of-range ceiling.
pub fn classify_echo(sample: &EchoSample) -> (r: Result<u64, SensorError>)
    ensures
        r == classify_result(*sample),
        r matches Ok(d) ==> d < ECHO_CEILING_US,
{
    match sample.start_edge {
        None => Err(SensorError::TriggerTimeout),
        Some(EdgeLevel::Low) => Err(SensorError::SpuriousLowTrigger),
        Some(EdgeLevel::High) => {
            if sample.duration_us >= ECHO_CEILING_US {
                Err(SensorError::OutOfRange)
            } else {
                Ok(sample.duration_us)
            }
        },
    }
}

/// The outcome of drawing a burst of `n` acquisitions from the front of
/// `s`: the classified durations on success, or the first failure, paired
/// with what remains of `s` after the draw.  The burst fails fast: the
/// failing acquisition is consumed and nothing after it.  Running out of
/// acquisitions reads as a trigger that never answered.
pub open spec fn burst_take(s: Seq<EchoSample>, n: nat) -> (Result<Seq<u64>, SensorError>, Seq<
    EchoSample,
>)
    decreases n,
{
    if n == 0 {
        (Ok::<Seq<u64>, SensorError>(Seq::<u64>::empty()), s)
    } else if s.len() == 0 {
        (Err::<Seq<u64>, SensorError>(SensorError::TriggerTimeout), s)
    } else {
        match classify_result(s[0]) {
            Err(e) => (Err::<Seq<u64>, SensorError>(e), s.skip(1)),
            Ok(d) => {
                let rec = burst_take(s.skip(1), (n - 1) as nat);
                match rec.0 {
                    Ok(ds) => (Ok::<Seq<u64>, SensorError>(seq![d] + ds), rec.1),
                    Err(e) => (Err::<Seq<u64>, SensorError>(e), rec.1),
                }
            },
        }
    }
}

/// Validates a full burst of raw acquisitions and averages the validated
/// durations: exactly what one reading needs between acquiring raw pulse
/// timings and interpolating a height.  The burst fails with the first
/// invalid sample's error, or with a trigger timeout when fewer than
/// `MEASUREMENT_BURST` acquisitions are at hand.
pub fn classify_burst(samples: &Vec<EchoSample>) -> (r: Result<u64, SensorError>)
    ensures
        ({
            let take = burst_take(samples@, MEASUREMENT_BURST as nat);
            match take.0 {
                Ok(ds) => r == Ok::<u64, SensorError>(average_duration(ds) as u64) && 0
                    <= average_duration(ds) < ECHO_CEILING_US,
                Err(e) => r == Err::<u64, SensorError>(e),
            }
        }),
{
    let ghost s0 = samples@;
    if samples.len() == 0 {
        proof {
            lemma_burst_take_err_step(s0, MEASUREMENT_BURST as nat, SensorError::TriggerTimeout);
        }
        return Err(SensorError::TriggerTimeout);
    }
    let a = match classify_echo(&samples[0]) {
        Ok(v) => v,
        Err(e) => {
            proof {
                lemma_burst_take_err_step(s0, MEASUREMENT_BURST as nat, e);
            }
            return Err(e);
        },
    };
    let ghost s1 = s0.skip(1);
    if samples.len() == 1 {
        proof {
            lemma_burst_take_err_step(s1, (MEASUREMENT_BURST - 1) as nat, SensorError::TriggerTimeout);
        }
        return Err(SensorError::TriggerTimeout);
    }
    let b = match classify_echo(&samples[1]) {
        Ok(v) => v,
        Err(e) => {
            proof {
                assert(s1[0] == s0[1]);
                lemma_burst_take_err_step(s1, (MEASUREMENT_BURST - 1) as nat, e);
            }
            return Err(e);
        },
    };
    let ghost s2 = s1.skip(1);
    if samples.len() == 2 {
        proof {
            assert(s1[0] == s0[1]);
            lemma_burst_take_err_step(s2, (MEASUREMENT_BURST - 2) as nat, SensorError::TriggerTimeout);
        }
        return Err(SensorError::TriggerTimeout);
    }
    let c = match classify_echo(&samples[2]) {
        Ok(v) => v,
        Err(e) => {
            proof {
                assert(s1[0] == s0[1]);
                assert(s2[0] == s0[2]);
                lemma_burst_take_err_step(s2, (MEASUREMENT_BURST - 2) as nat, e);
            }
            return Err(e);
        },
    };
    let avg: u64 = (a + b + c) / 3;
    proof {
        let ds = seq![a, b, c];
        assert(s1[0] == s0[1]);
        assert(s2[0] == s0[2]);
        assert(burst_take(s2.skip(1), 0).0 == Ok::<Seq<u64>, SensorError>(Seq::<u64>::empty()));
        assert(burst_take(s2, 1).0 == Ok::<Seq<u64>, SensorError>(seq![c] + Seq::<u64>::empty()));
        assert(burst_take(s1, 2).0 == Ok::<Seq<u64>, SensorError>(
            seq![b] + (seq![c] + Seq::<u64>::empty()),
        ));
        assert(burst_take(s0, 3).0 == Ok::<Seq<u64>, SensorError>(
            seq![a] + (seq![b] + (seq![c] + Seq::<u64>::empty())),
        ));
        assert(seq![a] + (seq![b] + (seq![c] + Seq::<u64>::empty())) =~= ds);
        assert(ds.skip(1) =~= seq![b, c]);
        assert(seq![b, c].skip(1) =~= seq![c]);
        assert(seq![c].skip(1) =~= Seq::<u64>::empty());
        assert(sum_durations(Seq::<u64>::empty()) == 0);
        assert(sum_durations(seq![c]) == c);
        assert(sum_durations(seq![b, c]) == b + c);
        assert(sum_durations(ds) == a + b + c);
        assert(0 <= average_duration(ds) < ECHO_CEILING_US) by {
            lemma_div_pos_is_pos((a + b + c) as int, 3);
            lemma_div_is_ordered((a + b + c) as int, 3 * (ECHO_CEILING_US - 1), 3);
            vstd::arithmetic::div_mod::lemma_div_multiples_vanish((ECHO_CEILING_US - 1) as int, 3);
        }
    }
    Ok(avg)
}

/// A burst whose first acquisition fails (or that finds the script empty)
/// fails as a whole with that error and consumes at most that acquisition.
proof fn lemma_burst_take_err_step(s: Seq<EchoSample>, n: nat, e: SensorError)
    requires
        n > 0,
        s.len() == 0 ==> e == SensorError::TriggerTimeout,
        s.len() > 0 ==> classify_result(s[0]) == Err::<u64, SensorError>(e),
    ensures
        burst_take(s, n).0 == Err::<Seq<u64>, SensorError>(e),
        s.len() == 0 ==> burst_take(s, n).1 == s,
        s.len() > 0 ==> burst_take(s, n).1 == s.skip(1),
{
}

/// The sum of a sequence of echo durations.
pub open spec fn sum_durations(ds: Seq<u64>) -> int
    decreases ds.len(),
{
    if ds.len() == 0 {
        0
    } else {
        ds[0] + sum_durations(ds.skip(1))
    }
}

/// The arithmetic average (rounded down) of a burst of echo durations.
pub open spec fn average_duration(ds: Seq<u64>) -> int
    recommends
        ds.len() > 0,
{
    sum_durations(ds) / (ds.len() as int)
}

/// The capability set of a distance sensor: calibrated height readings
/// and calibration-anchor setting.  Hardware-backed implementations live
/// outside the verified library; `SimulatedSensor` implements it here so
/// the controller can be exercised without hardware.
///
/// The trait carries a specification-level model: the history of height
/// readings the sensor has served (`observations`) and the calibration it
/// holds (`calibration_view`), so that the controller's contracts can
/// speak about what was read and which anchors were stored.
pub trait DistanceSensor {
    /// The height readings this sensor has served, oldest first.  A
    /// verified implementation gives this its own meaning; the default
    /// stands for hardware implementations outside the verified library,
    /// of which nothing is proved.
    open spec fn observations(&self) -> Seq<Result<Centimeter, SensorError>> {
        Seq::<Result<Centimeter, SensorError>>::empty()
    }

    /// The calibration this sensor holds.  A verified implementation
    /// gives this its own meaning; the default stands for hardware
    /// implementations outside the verified library.
    open spec fn calibration_view(&self) -> SensorCalibrationData {
        SensorCalibrationData {
            min_height: Centimeter(0),
            min_height_echo_us: 0,
            max_height: Centimeter(0),
            max_height_echo_us: 0,
        }
    }

    /// Takes a height measurement in centimeters.  The outcome, success
    /// or error, is appended to the observation history; the calibration
    /// is left alone.
    fn current_height(&mut self) -> (r: Result<Centimeter, SensorError>)
        ensures
            final(self).observations() == old(self).observations().push(r),
            final(self).calibration_view() == old(self).calibration_view(),
    ;

    /// Takes a fresh burst measurement and stores its average together
    /// with `height` as the low calibration anchor.  On success the low
    /// anchor's height is exactly `height` and the high anchor is left
    /// alone; on failure the calibration is untouched.  No height reading
    /// is served.
    fn set_min_height(&mut self, height: Centimeter) -> (r: Result<(), SensorError>)
        ensures
            final(self).observations() == old(self).observations(),
            ({
                let pre = old(self).calibration_view();
                let post = final(self).calibration_view();
                &&& (r is Ok ==> post.min_height == height && post.max_height == pre.max_height
                    && post.max_height_echo_us == pre.max_height_echo_us)
                &&& (r is Err ==> post == pre)
            }),
    ;

    /// Takes a fresh burst measurement and stores its average together
    /// with `height` as the high calibration anchor.  On success the high
    /// anchor's height is exactly `height` and the low anchor is left
    /// alone; on failure the calibration is untouched.  No height reading
    /// is served.
    fn set_max_height(&mut self, height: Centimeter) -> (r: Result<(), SensorError>)
        ensures
            final(self).observations() == old(self).observations(),
            ({
                let pre = old(self).calibration_view();
                let post = final(self).calibration_view();
                &&& (r is Ok ==> post.max_height == height && post.min_height == pre.min_height
                    && post.min_height_echo_us == pre.min_height_echo_us)
                &&& (r is Err ==> post == pre)
            }),
    ;

    /// The path of the file the calibration was loaded from, for the
    /// external persistence logic.
    fn calibration_file(&self) -> &str;

    /// The calibration currently in effect, for external persistence.
    fn calibration_data(&self) -> (r: &SensorCalibrationData)
        ensures
            *r == self.calibration_view(),
    ;
}

/// A scripted stand-in for a hardware sensor: raw acquisitions are drawn
/// from the front of a fixed script and then validated, averaged and
/// interpolated exactly as readings from real pins would be.  An
/// exhausted script behaves like a sensor whose trigger never answers.
pub struct SimulatedSensor {
    /// The raw acquisitions still to be served, front first.
    pub samples: Vec<EchoSample>,
    /// The calibration in effect.
    pub calibration: SensorCalibrationData,
    /// Where the calibration notionally came from, kept so the external
    /// persistence logic has a destination.
    pub file: String,
    /// The height readings served so far, oldest first: the sensor's
    /// observation model.
    pub history: Ghost<Seq<Result<Centimeter, SensorError>>>,
}

impl SimulatedSensor {
    /// A simulated sensor that will serve `samples` in order, with an
    /// empty observation history.
    pub fn new(samples: Vec<EchoSample>, calibration: SensorCalibrationData, file: String) -> (s:
        Self)
        ensures
            s.samples == samples,
            s.calibration == calibration,
            s.file == file,
            s.observations() == Seq::<Result<Centimeter, SensorError>>::empty(),
    {
        SimulatedSensor {
            samples,
            calibration,
            file,
            history: Ghost(Seq::<Result<Centimeter, SensorError>>::empty()),
        }
    }

    /// Draws and validates the single acquisition at the front of the
    /// script; an empty script reads as a trigger timeout.
    fn take_one(&mut self) -> (r: Result<u64, SensorError>)
        ensures
            old(self).samples@.len() == 0 ==> *final(self) == *old(self) && r == Err::<
                u64,
                SensorError,
            >(SensorError::TriggerTimeout),
            old(self).samples@.len() > 0 ==> {
                &&& r == classify_result(old(self).samples@[0])
                &&& final(self).samples@ == old(self).samples@.skip(1)
                &&& final(self).calibration == old(self).calibration
                &&& final(self).file == old(self).file
                &&& final(self).history == old(self).history
            },
            r matches Ok(d) ==> d < ECHO_CEILING_US,
    {
        if self.samples.len() == 0 {
            Err(SensorError::TriggerTimeout)
        } else {
            let s = self.samples.remove(0);
            proof {
                assert(self.samples@ =~= old(self).samples@.skip(1));
            }
            classify_echo(&s)
        }
    }

    /// Draws a full burst from the script and returns the average of the
    /// validated durations, failing as soon as one acquisition fails.
    pub fn take_burst(&mut self) -> (r: Result<u64, SensorError>)
        ensures
            ({
                let take = burst_take(old(self).samples@, MEASUREMENT_BURST as nat);
                &&& match take.0 {
                    Ok(ds) => r == Ok::<u64, SensorError>(average_duration(ds) as u64) && 0
                        <= average_duration(ds) < ECHO_CEILING_US,
                    Err(e) => r == Err::<u64, SensorError>(e),
                }
                &&& final(self).samples@ == take.1
                &&& final(self).calibration == old(self).calibration
                &&& final(self).file == old(self).file
                &&& final(self).history == old(self).history
            }),
    {
        let ghost s0 = self.samples@;
        let a = match self.take_one() {
            Ok(v) => v,
            Err(e) => {
                proof {
                    lemma_burst_take_err_step(s0, MEASUREMENT_BURST as nat, e);
                }
                return Err(e);
            },
        };
        let ghost s1 = self.samples@;
        let b = match self.take_one() {
            Ok(v) => v,
            Err(e) => {
                proof {
                    lemma_burst_take_err_step(s1, (MEASUREMENT_BURST - 1) as nat, e);
                    assert(burst_take(s0, MEASUREMENT_BURST as nat) == burst_take(
                        s1,
                        (MEASUREMENT_BURST - 1) as nat,
                    ));
                }
                return Err(e);
            },
        };
        let ghost s2 = self.samples@;
        let c = match self.take_one() {
            Ok(v) => v,
            Err(e) => {
                proof {
                    lemma_burst_take_err_step(s2, (MEASUREMENT_BURST - 2) as nat, e);
                    assert(burst_take(s1, (MEASUREMENT_BURST - 1) as nat) == burst_take(
                        s2,
                        (MEASUREMENT_BURST - 2) as nat,
                    ));
                    assert(burst_take(s0, MEASUREMENT_BURST as nat) == burst_take(
                        s1,
                        (MEASUREMENT_BURST - 1) as nat,
                    ));
                }
                return Err(e);
            },
        };
        let avg = (a + b + c) / 3;
        proof {
            let ds = seq![a, b, c];
            assert(burst_take(s2.skip(1), 0) == (
                Ok::<Seq<u64>, SensorError>(Seq::<u64>::empty()),
                s2.skip(1),
            ));
            assert(burst_take(s2, 1) == (
                Ok::<Seq<u64>, SensorError>(seq![c] + Seq::<u64>::empty()),
                s2.skip(1),
            ));
            assert(burst_take(s1, 2) == (
                Ok::<Seq<u64>, SensorError>(seq![b] + (seq![c] + Seq::<u64>::empty())),
                s2.skip(1),
            ));
            assert(burst_take(s0, 3) == (
                Ok::<Seq<u64>, SensorError>(seq![a] + (seq![b] + (seq![c] + Seq::<u64>::empty()))),
                s2.skip(1),
            ));
            assert(seq![a] + (seq![b] + (seq![c] + Seq::<u64>::empty())) =~= ds);
            assert(ds.skip(1) =~= seq![b, c]);
            assert(seq![b, c].skip(1) =~= seq![c]);
            assert(seq![c].skip(1) =~= Seq::<u64>::empty());
            assert(sum_durations(Seq::<u64>::empty()) == 0);
            assert(sum_durations(seq![c]) == c);
            assert(sum_durations(seq![b, c]) == b + c);
            assert(sum_durations(ds) == a + b + c);
            assert(0 <= average_duration(ds) < ECHO_CEILING_US) by {
                lemma_div_pos_is_pos((a + b + c) as int, 3);
                lemma_div_is_ordered((a + b + c) as int, 3 * (ECHO_CEILING_US - 1), 3);
                vstd::arithmetic::div_mod::lemma_div_multiples_vanish(
                    (ECHO_CEILING_US - 1) as int,
                    3,
                );
            }
        }
        Ok(avg)
    }
}

impl DistanceSensor for SimulatedSensor {
    open spec fn observations(&self) -> Seq<Result<Centimeter, SensorError>> {
        self.history@
    }

    open spec fn calibration_view(&self) -> SensorCalibrationData {
        self.calibration
    }

    fn current_height(&mut self) -> (r: Result<Centimeter, SensorError>)
        ensures
            ({
                let take = burst_take(old(self).samples@, MEASUREMENT_BURST as nat);
                &&& match take.0 {
                    Ok(ds) => r == interp_result(old(self).calibration, average_duration(ds)),
                    Err(e) => r == Err::<Centimeter, SensorError>(e),
                }
                &&& final(self).samples@ == take.1
                &&& final(self).calibration == old(self).calibration
                &&& final(self).file == old(self).file
            }),
    {
        let r = match self.take_burst() {
            Ok(avg) => interpolate_height(&self.calibration, avg),
            Err(e) => Err(e),
        };
        proof {
            self.history@ = self.history@.push(r);
        }
        r
    }

    fn set_min_height(&mut self, height: Centimeter) -> (r: Result<(), SensorError>)
        ensures
            ({
                let take = burst_take(old(self).samples@, MEASUREMENT_BURST as nat);
                &&& match take.0 {
                    Ok(ds) => r == Ok::<(), SensorError>(()) && final(self).calibration == (
                    SensorCalibrationData {
                        min_height: height,
                        min_height_echo_us: average_duration(ds) as u64,
                        ..old(self).calibration
                    }),
                    Err(e) => r == Err::<(), SensorError>(e) && final(self).calibration == old(
                        self,
                    ).calibration,
                }
                &&& final(self).samples@ == take.1
                &&& final(self).file == old(self).file
            }),
    {
        let avg = match self.take_burst() {
            Ok(v) => v,
            Err(e) => {
                return Err(e);
            },
        };
        self.calibration.min_height_echo_us = avg;
        self.calibration.min_height = height;
        Ok(())
    }

    fn set_max_height(&mut self, height: Centimeter) -> (r: Result<(), SensorError>)
        ensures
            ({
                let take = burst_take(old(self).samples@, MEASUREMENT_BURST as nat);
                &&& match take.0 {
                    Ok(ds) => r == Ok::<(), SensorError>(()) && final(self).calibration == (
                    SensorCalibrationData {
                        max_height: height,
                        max_height_echo_us: average_duration(ds) as u64,
                        ..old(self).calibration
                    }),
                    Err(e) => r == Err::<(), SensorError>(e) && final(self).calibration == old(
                        self,
                    ).calibration,
                }
                &&& final(self).samples@ == take.1
                &&& final(self).file == old(self).file
            }),
    {
        let avg = match self.take_burst() {
            Ok(v) => v,
            Err(e) => {
                return Err(e);
            },
        };
        self.calibration.max_height_echo_us = avg;
        self.calibration.max_height = height;
        Ok(())
    }

    fn calibration_file(&self) -> (r: &str)
        ensures
            r@ == self.file@,
    {
        self.file.as_str()
    }

    fn calibration_data(&self) -> (r: &SensorCalibrationData)
        ensures
            *r == self.calibration,
    {
        &self.calibration
    }
}

} // verus!
