//! The desk-movement controller: bounds policy, the height-seeking
//! control loop, and the calibration sequence.
//!
//! The controller's contracts are stated over the motor's command
//! history: which commands a movement may issue, in which order, and
//! that nothing is commanded when the request is rejected or the desk is
//! already at its target.

use vstd::prelude::*;

use crate::errors::{SensorError, TableError};
use crate::motor::{Delay, Motor, MotorCmd};
use crate::sensor::DistanceSensor;
use crate::units::Centimeter;

verus! {

/// Milliseconds the controller waits between height polls while the desk
/// is moving.
pub const POLL_INTERVAL_MS: u64 = 200;

/// The most height polls one movement or calibration phase may take
/// before the controller stops the motor and gives up with
/// `TableError::PollTimeout`.  A desk or sensor that never settles would
/// otherwise hang the control thread forever.
pub const MAX_POLLS: u64 = 600;

/// The tolerance, in centimeters, within which the desk counts as being
/// at a target height without further movement.
pub const HEIGHT_TOLERANCE_CM: u8 = 1;

/// The static policy bounds of the desk, loaded once and immutable for
/// the controller's lifetime.
#[derive(Clone, Copy, Debug, PartialEq, Eq, Structural)]
pub struct TableConfig {
    /// The height the desk moves to for standing.
    pub standing_height: Centimeter,
    /// The height the desk moves to for sitting.
    pub sitting_height: Centimeter,
    /// The lowest height a movement may target.
    pub min_table_height: Centimeter,
    /// The highest height a movement may target.
    pub max_table_height: Centimeter,
}

/// Whether `current` lies within the tolerance band around `target`.
pub open spec fn in_tolerance(target: Centimeter, current: Centimeter) -> bool {
    target.0 - HEIGHT_TOLERANCE_CM <= current.0 <= target.0 + HEIGHT_TOLERANCE_CM
}

/// The single motion step the controller takes for one reading.
#[derive(Clone, Copy, Debug, PartialEq, Eq, Structural)]
pub enum MoveStep {
    /// The desk is close enough: leave the motor uncommanded.
    Stay,
    /// The desk is too low: move up toward the target.
    Up,
    /// The desk is too high: move down toward the target.
    Down,
}

/// The step planned for a reading: stay inside the tolerance band,
/// otherwise move toward the target.  Direction is decided once, from
/// this one reading; no correction pass follows an overshoot.
pub open spec fn step_for(target: Centimeter, current: Centimeter) -> MoveStep {
    if in_tolerance(target, current) {
        MoveStep::Stay
    } else if current.0 < target.0 {
        MoveStep::Up
    } else {
        MoveStep::Down
    }
}

/// What validating a target height against the policy bounds yields.
pub open spec fn bounds_check(config: TableConfig, target: Centimeter) -> Result<(), TableError> {
    if target.0 > config.max_table_height.0 {
        Err(TableError::TooHigh(config.max_table_height))
    } else if target.0 < config.min_table_height.0 {
        Err(TableError::TooLow(config.min_table_height))
    } else {
        Ok(())
    }
}

/// Decides the single motion step for one reading.
pub fn plan_step(target: Centimeter, current: Centimeter) -> (s: MoveStep)
    ensures
        s == step_for(target, current),
{
    let t = target.0 as i32;
    let c = current.0 as i32;
    let tol = HEIGHT_TOLERANCE_CM as i32;
    if t - tol <= c && c <= t + tol {
        MoveStep::Stay
    } else if c < t {
        MoveStep::Up
    } else {
        MoveStep::Down
    }
}

/// Law: a desk already at the target is left uncommanded — the step
/// planned when the current reading equals the target is `Stay`.
pub proof fn lemma_stay_at_target(target: Centimeter)
    ensures
        step_for(target, target) == MoveStep::Stay,
{
}

/// The motor histories a completed movement can leave behind: untouched
/// when the desk was already in tolerance, else one direction command
/// followed by a stop.
pub open spec fn move_ok_trace(pre: Seq<MotorCmd>, post: Seq<MotorCmd>) -> bool {
    ||| post == pre
    ||| post == pre.push(MotorCmd::Up).push(MotorCmd::Stop)
    ||| post == pre.push(MotorCmd::Down).push(MotorCmd::Stop)
}

/// The motor histories an aborted movement can leave behind.  A rejected
/// target commands nothing; a sensor error aborts with the motor left in
/// its last commanded state; a polling timeout stops the motor before
/// failing.
pub open spec fn move_err_trace(pre: Seq<MotorCmd>, post: Seq<MotorCmd>, e: TableError) -> bool {
    if e is Sensor {
        ||| post == pre
        ||| post == pre.push(MotorCmd::Up)
        ||| post == pre.push(MotorCmd::Down)
    } else if e is PollTimeout {
        ||| post == pre.push(MotorCmd::Up).push(MotorCmd::Stop)
        ||| post == pre.push(MotorCmd::Down).push(MotorCmd::Stop)
    } else {
        post == pre
    }
}

/// Whether a reading succeeded but still falls short of `target` in the
/// direction of travel: strictly below it when moving up, strictly above
/// it when moving down.  Such a reading keeps a seeking loop polling.
pub open spec fn reading_short_of(
    o: Result<Centimeter, SensorError>,
    target: Centimeter,
    dir: MotorCmd,
) -> bool {
    o matches Ok(h) && (if dir == MotorCmd::Up {
        h.0 < target.0
    } else {
        h.0 > target.0
    })
}

/// Whether a reading succeeded and has passed `target` in the direction
/// of travel: at or above it when moving up, at or below it when moving
/// down.  Such a reading stops a seeking loop.
pub open spec fn reading_reaches(
    o: Result<Centimeter, SensorError>,
    target: Centimeter,
    dir: MotorCmd,
) -> bool {
    o matches Ok(h) && (if dir == MotorCmd::Up {
        h.0 >= target.0
    } else {
        h.0 <= target.0
    })
}

/// The readings one height-seeking phase takes, by outcome.  Every
/// reading but the last falls short of the target in the direction of
/// travel; the phase ends at the first reading that does not: a reading
/// past the target on success, the failing reading (after which nothing
/// more is read) on a sensor error, or — when the polling budget is
/// exhausted, after exactly `MAX_POLLS + 1` readings — one more reading
/// still short of the target.
pub open spec fn seek_obs(
    pre: Seq<Result<Centimeter, SensorError>>,
    post: Seq<Result<Centimeter, SensorError>>,
    target: Centimeter,
    dir: MotorCmd,
    r: Result<(), TableError>,
) -> bool {
    &&& pre.is_prefix_of(post)
    &&& post.len() > pre.len()
    &&& (forall|i: int|
        pre.len() <= i < post.len() - 1 ==> reading_short_of(#[trigger] post[i], target, dir))
    &&& (r is Ok ==> reading_reaches(post.last(), target, dir))
    &&& (r matches Err(e) ==> {
        ||| (e matches TableError::Sensor(se) && post.last() == Err::<Centimeter, SensorError>(se))
        ||| (e == TableError::PollTimeout && reading_short_of(post.last(), target, dir)
            && post.len() - pre.len() == MAX_POLLS + 1)
    })
}

/// The reading at position `i` of a poll chain, where position `-1` is
/// the reading the poll started from.
pub open spec fn poll_value(
    new: Seq<Result<Centimeter, SensorError>>,
    first: int,
    i: int,
) -> int {
    if i < 0 {
        first
    } else {
        new[i]->Ok_0.0 as int
    }
}

/// The shape of a stall-detection poll's readings `new`, starting from
/// the reading `first`: every reading succeeded and lies strictly beyond
/// its predecessor (above it when rising, below it when falling), except
/// that when `stalled` the final reading does not — it is the one that
/// detected the mechanical stop.
pub open spec fn poll_chain(
    new: Seq<Result<Centimeter, SensorError>>,
    first: int,
    rising: bool,
    stalled: bool,
) -> bool {
    &&& (stalled ==> new.len() >= 1)
    &&& (forall|i: int| 0 <= i < new.len() ==> (#[trigger] new[i]) is Ok)
    &&& (forall|i: int|
        -1 <= i < new.len() - 2 ==> (if rising {
            #[trigger] poll_value(new, first, i) < poll_value(new, first, i + 1)
        } else {
            poll_value(new, first, i) > poll_value(new, first, i + 1)
        }))
    &&& (new.len() >= 1 ==> {
        let a = poll_value(new, first, new.len() - 2);
        let b = poll_value(new, first, new.len() - 1);
        if stalled {
            if rising {
                a >= b
            } else {
                a <= b
            }
        } else {
            if rising {
                a < b
            } else {
                a > b
            }
        }
    })
}

/// The readings a successful calibration takes, split at `k1` and `k2`:
/// an initial reading, then a rising poll chain that stalls — the first
/// stop is issued only once a reading is not strictly greater than its
/// predecessor, the mechanical top — ending at `k1`, then a falling poll
/// chain from the top reading that stalls at the mechanical bottom,
/// ending at `k2`.  What follows belongs to the trailing move to the
/// sitting height.
pub open spec fn calibrate_ok_obs(
    pre: Seq<Result<Centimeter, SensorError>>,
    post: Seq<Result<Centimeter, SensorError>>,
    k1: int,
    k2: int,
) -> bool {
    &&& pre.is_prefix_of(post)
    &&& pre.len() + 2 <= k1 && k1 + 1 <= k2 && k2 <= post.len()
    &&& (#[trigger] post[pre.len() as int]) is Ok
    &&& poll_chain(
        post.subrange(pre.len() as int + 1, k1),
        post[pre.len() as int]->Ok_0.0 as int,
        true,
        true,
    )
    &&& poll_chain(post.subrange(k1, k2), post[k1 - 1]->Ok_0.0 as int, false, true)
}

/// Everything one height-seeking movement does once the policy bounds
/// have admitted the target, stated over the first reading taken: a
/// failed first reading aborts with that error and no motor command; a
/// first reading inside the tolerance band succeeds with nothing further
/// read and no motor command; otherwise that one reading decides the
/// direction — there is no correction pass — and the motor commands and
/// subsequent readings follow `seek_trace` and `seek_obs`.
pub open spec fn move_outcome(
    pre_cmds: Seq<MotorCmd>,
    post_cmds: Seq<MotorCmd>,
    pre_obs: Seq<Result<Centimeter, SensorError>>,
    post_obs: Seq<Result<Centimeter, SensorError>>,
    target: Centimeter,
    r: Result<(), TableError>,
) -> bool {
    &&& pre_obs.is_prefix_of(post_obs)
    &&& post_obs.len() > pre_obs.len()
    &&& ({
        let first = post_obs[pre_obs.len() as int];
        &&& (first matches Err(se) ==> r == Err::<(), TableError>(TableError::Sensor(se))
            && post_obs == pre_obs.push(Err::<Centimeter, SensorError>(se)) && post_cmds
            == pre_cmds)
        &&& (first matches Ok(h) ==> {
            &&& (in_tolerance(target, h) ==> r is Ok && post_obs == pre_obs.push(
                Ok::<Centimeter, SensorError>(h),
            ) && post_cmds == pre_cmds)
            &&& (!in_tolerance(target, h) && h.0 < target.0 ==> seek_trace(
                pre_cmds,
                post_cmds,
                MotorCmd::Up,
                r,
            ) && seek_obs(
                pre_obs.push(Ok::<Centimeter, SensorError>(h)),
                post_obs,
                target,
                MotorCmd::Up,
                r,
            ))
            &&& (!in_tolerance(target, h) && h.0 > target.0 ==> seek_trace(
                pre_cmds,
                post_cmds,
                MotorCmd::Down,
                r,
            ) && seek_obs(
                pre_obs.push(Ok::<Centimeter, SensorError>(h)),
                post_obs,
                target,
                MotorCmd::Down,
                r,
            ))
        })
    })
}

/// Every sequence is a prefix of itself.
proof fn lemma_prefix_refl<A>(s: Seq<A>)
    ensures
        s.is_prefix_of(s),
{
    assert(s =~= s.subrange(0, s.len() as int));
}

/// Pushing one element onto a sequence preserves any prefix of it.
proof fn lemma_prefix_push<A>(pre: Seq<A>, s: Seq<A>, x: A)
    requires
        pre.is_prefix_of(s),
    ensures
        pre.is_prefix_of(s.push(x)),
{
    assert(pre =~= s.push(x).subrange(0, pre.len() as int));
}

/// Being a prefix is transitive.
proof fn lemma_prefix_trans<A>(a: Seq<A>, b: Seq<A>, c: Seq<A>)
    requires
        a.is_prefix_of(b),
        b.is_prefix_of(c),
    ensures
        a.is_prefix_of(c),
{
    assert(a =~= c.subrange(0, a.len() as int));
}

/// The motor history one height-seeking phase in direction `dir` leaves
/// behind, by outcome: the direction command and a stop on success, the
/// direction command alone when a sensor error aborts the phase (the
/// motor is left in its last commanded state), and the direction command
/// and a stop when the polling budget runs out.
pub open spec fn seek_trace(
    pre: Seq<MotorCmd>,
    post: Seq<MotorCmd>,
    dir: MotorCmd,
    r: Result<(), TableError>,
) -> bool {
    &&& (r is Ok ==> post == pre.push(dir).push(MotorCmd::Stop))
    &&& (r matches Err(e) ==> {
        ||| (e is Sensor && post == pre.push(dir))
        ||| (e == TableError::PollTimeout && post == pre.push(dir).push(MotorCmd::Stop))
    })
}

/// The motor histories a completed calibration leaves behind: up to the
/// mechanical top and stop, down to the mechanical bottom and stop, then
/// whatever the trailing move to the sitting height issues.
pub open spec fn calibrate_ok_trace(pre: Seq<MotorCmd>, post: Seq<MotorCmd>) -> bool {
    move_ok_trace(
        pre.push(MotorCmd::Up).push(MotorCmd::Stop).push(MotorCmd::Down).push(MotorCmd::Stop),
        post,
    )
}

/// The motor histories an aborted calibration can leave behind: a prefix
/// of the full up-stop-down-stop sequence (the motor is left running when
/// a sensor read fails, and is stopped on a polling timeout), or that
/// sequence followed by an aborted trailing move to the sitting height
/// (which is the only place a bounds error can arise).
pub open spec fn calibrate_err_trace(
    pre: Seq<MotorCmd>,
    post: Seq<MotorCmd>,
    e: TableError,
) -> bool {
    let base = pre.push(MotorCmd::Up).push(MotorCmd::Stop).push(MotorCmd::Down).push(
        MotorCmd::Stop,
    );
    if e is Sensor {
        ||| post == pre.push(MotorCmd::Up)
        ||| post == pre.push(MotorCmd::Up).push(MotorCmd::Stop)
        ||| post == pre.push(MotorCmd::Up).push(MotorCmd::Stop).push(MotorCmd::Down)
        ||| post == base
        ||| post == base.push(MotorCmd::Up)
        ||| post == base.push(MotorCmd::Down)
    } else if e is PollTimeout {
        ||| post == pre.push(MotorCmd::Up).push(MotorCmd::Stop)
        ||| post == base
        ||| post == base.push(MotorCmd::Up).push(MotorCmd::Stop)
        ||| post == base.push(MotorCmd::Down).push(MotorCmd::Stop)
    } else {
        post == base
    }
}

/// The standing desk: a controller that composes a distance sensor, a
/// motor and a delay, owning all three exclusively.
pub struct StandingDesk<S, M, D> {
    /// The policy bounds in effect.
    pub config: TableConfig,
    /// The height sensor.
    pub sensor: S,
    /// The motor being commanded.
    pub motor: M,
    /// The pause taken between height polls.
    pub delay: D,
}

impl<S: DistanceSensor, M: Motor, D: Delay> StandingDesk<S, M, D> {
    /// A desk controller over the given parts.
    pub fn new(config: TableConfig, sensor: S, motor: M, delay: D) -> (desk: Self)
        ensures
            desk.config == config,
            desk.sensor == sensor,
            desk.motor == motor,
            desk.delay == delay,
    {
        StandingDesk { config, sensor, motor, delay }
    }

    /// Moves the desk to `height_cm`.
    ///
    /// The target is validated against the policy bounds before anything
    /// else: an out-of-bounds target fails with the violated bound, and
    /// neither the sensor nor the motor is touched.  Otherwise, if the
    /// current reading already lies within the tolerance band the motor
    /// is left uncommanded; else it is started toward the target, the
    /// height is re-polled every `POLL_INTERVAL_MS` milliseconds until it
    /// passes the target, and the motor is stopped.  A sensor error
    /// aborts the movement with the motor left in its last commanded
    /// state; a movement that does not pass the target within `MAX_POLLS`
    /// polls stops the motor and fails with `PollTimeout`.
    pub fn move_to_height(&mut self, height_cm: Centimeter) -> (r: Result<(), TableError>)
        ensures
            r is Ok ==> move_ok_trace(old(self).motor.cmds(), final(self).motor.cmds()),
            r matches Err(e) ==> move_err_trace(
                old(self).motor.cmds(),
                final(self).motor.cmds(),
                e,
            ),
            bounds_check(old(self).config, height_cm) matches Err(e) ==> r == Err::<
                (),
                TableError,
            >(e) && *final(self) == *old(self),
            bounds_check(old(self).config, height_cm) is Ok ==> (r matches Err(e) ==> e
                is Sensor || e is PollTimeout),
            bounds_check(old(self).config, height_cm) is Ok ==> move_outcome(
                old(self).motor.cmds(),
                final(self).motor.cmds(),
                old(self).sensor.observations(),
                final(self).sensor.observations(),
                height_cm,
                r,
            ),
            final(self).config == old(self).config,
            final(self).sensor.calibration_view() == old(self).sensor.calibration_view(),
    {
        if height_cm.0 > self.config.max_table_height.0 {
            return Err(TableError::TooHigh(self.config.max_table_height));
        }
        if height_cm.0 < self.config.min_table_height.0 {
            return Err(TableError::TooLow(self.config.min_table_height));
        }
        let ghost pre_o = self.sensor.observations();
        let current = match self.sensor.current_height() {
            Ok(h) => h,
            Err(e) => {
                proof {
                    lemma_prefix_refl(pre_o);
                    lemma_prefix_push(pre_o, pre_o, Err::<Centimeter, SensorError>(e));
                }
                return Err(TableError::Sensor(e));
            },
        };
        proof {
            lemma_prefix_refl(pre_o);
            lemma_prefix_push(pre_o, pre_o, Ok::<Centimeter, SensorError>(current));
        }
        let ghost pre_c = self.motor.cmds();
        let r = self.seek_from(height_cm, current);
        proof {
            let obs1 = pre_o.push(Ok::<Centimeter, SensorError>(current));
            let post = self.sensor.observations();
            assert(obs1[pre_o.len() as int] == Ok::<Centimeter, SensorError>(current));
            if !in_tolerance(height_cm, current) {
                assert(obs1.is_prefix_of(post));
                assert(post.len() > obs1.len());
                assert(post[pre_o.len() as int] == post.subrange(0, obs1.len() as int)[pre_o.len()
                    as int]);
                lemma_prefix_trans(pre_o, obs1, post);
            }
        }
        r
    }

    /// Acts on a single height reading toward `height_cm`.
    ///
    /// Law: a reading already within the tolerance band — in particular
    /// one equal to the target — returns success with the desk untouched
    /// and the motor uncommanded.  Otherwise the motor is started in the
    /// direction this one reading decides, and the target is sought as
    /// `move_to_height` describes.
    pub fn seek_from(&mut self, height_cm: Centimeter, current: Centimeter) -> (r: Result<
        (),
        TableError,
    >)
        ensures
            in_tolerance(height_cm, current) ==> r is Ok && *final(self) == *old(self),
            !in_tolerance(height_cm, current) && current.0 < height_cm.0 ==> seek_trace(
                old(self).motor.cmds(),
                final(self).motor.cmds(),
                MotorCmd::Up,
                r,
            ) && seek_obs(
                old(self).sensor.observations(),
                final(self).sensor.observations(),
                height_cm,
                MotorCmd::Up,
                r,
            ),
            !in_tolerance(height_cm, current) && current.0 > height_cm.0 ==> seek_trace(
                old(self).motor.cmds(),
                final(self).motor.cmds(),
                MotorCmd::Down,
                r,
            ) && seek_obs(
                old(self).sensor.observations(),
                final(self).sensor.observations(),
                height_cm,
                MotorCmd::Down,
                r,
            ),
            r is Ok ==> move_ok_trace(old(self).motor.cmds(), final(self).motor.cmds()),
            r matches Err(e) ==> (e is Sensor || e is PollTimeout) && move_err_trace(
                old(self).motor.cmds(),
                final(self).motor.cmds(),
                e,
            ),
            final(self).config == old(self).config,
            final(self).sensor.calibration_view() == old(self).sensor.calibration_view(),
    {
        match plan_step(height_cm, current) {
            MoveStep::Stay => Ok(()),
            MoveStep::Up => self.seek_up(height_cm),
            MoveStep::Down => self.seek_down(height_cm),
        }
    }

    /// Moves the desk to the configured standing height.
    pub fn move_to_standing(&mut self) -> (r: Result<(), TableError>)
        ensures
            r is Ok ==> move_ok_trace(old(self).motor.cmds(), final(self).motor.cmds()),
            r matches Err(e) ==> move_err_trace(
                old(self).motor.cmds(),
                final(self).motor.cmds(),
                e,
            ),
            bounds_check(old(self).config, old(self).config.standing_height) matches Err(e) ==> r
                == Err::<(), TableError>(e) && *final(self) == *old(self),
            bounds_check(old(self).config, old(self).config.standing_height) is Ok ==> (r matches
                Err(e) ==> e is Sensor || e is PollTimeout),
            bounds_check(old(self).config, old(self).config.standing_height) is Ok
                ==> move_outcome(
                old(self).motor.cmds(),
                final(self).motor.cmds(),
                old(self).sensor.observations(),
                final(self).sensor.observations(),
                old(self).config.standing_height,
                r,
            ),
            final(self).config == old(self).config,
            final(self).sensor.calibration_view() == old(self).sensor.calibration_view(),
    {
        let h = self.config.standing_height;
        self.move_to_height(h)
    }

    /// Moves the desk to the configured sitting height.
    pub fn move_to_sitting(&mut self) -> (r: Result<(), TableError>)
        ensures
            r is Ok ==> move_ok_trace(old(self).motor.cmds(), final(self).motor.cmds()),
            r matches Err(e) ==> move_err_trace(
                old(self).motor.cmds(),
                final(self).motor.cmds(),
                e,
            ),
            bounds_check(old(self).config, old(self).config.sitting_height) matches Err(e) ==> r
                == Err::<(), TableError>(e) && *final(self) == *old(self),
            bounds_check(old(self).config, old(self).config.sitting_height) is Ok ==> (r matches
                Err(e) ==> e is Sensor || e is PollTimeout),
            bounds_check(old(self).config, old(self).config.sitting_height) is Ok
                ==> move_outcome(
                old(self).motor.cmds(),
                final(self).motor.cmds(),
                old(self).sensor.observations(),
                final(self).sensor.observations(),
                old(self).config.sitting_height,
                r,
            ),
            final(self).config == old(self).config,
            final(self).sensor.calibration_view() == old(self).sensor.calibration_view(),
    {
        let h = self.config.sitting_height;
        self.move_to_height(h)
    }

    /// Calibrates the sensor against the desk's mechanical travel.
    ///
    /// The desk is driven up until the height stops strictly increasing
    /// (the mechanical top), the motor is stopped and the high anchor is
    /// set to the configured maximum table height; then symmetrically
    /// down for the low anchor at the configured minimum; finally the
    /// desk moves to the sitting height.  Any sensor error aborts the
    /// sequence with the motor left in its last commanded state; a phase
    /// that does not settle within `MAX_POLLS` polls stops the motor and
    /// fails with `PollTimeout`.  Persisting the new calibration is the
    /// caller's responsibility.
    pub fn calibrate(&mut self) -> (r: Result<(), TableError>)
        ensures
            r is Ok ==> calibrate_ok_trace(old(self).motor.cmds(), final(self).motor.cmds()),
            r matches Err(e) ==> calibrate_err_trace(
                old(self).motor.cmds(),
                final(self).motor.cmds(),
                e,
            ),
            final(self).config == old(self).config,
            old(self).sensor.observations().is_prefix_of(final(self).sensor.observations()),
            r is Ok ==> final(self).sensor.calibration_view().max_height == old(
                self,
            ).config.max_table_height && final(self).sensor.calibration_view().min_height == old(
                self,
            ).config.min_table_height,
            r is Err ==> ({
                let v0 = old(self).sensor.calibration_view();
                let v1 = final(self).sensor.calibration_view();
                let cfg = old(self).config;
                ||| v1 == v0
                ||| (v1.max_height == cfg.max_table_height && v1.min_height == v0.min_height
                    && v1.min_height_echo_us == v0.min_height_echo_us)
                ||| (v1.max_height == cfg.max_table_height && v1.min_height
                    == cfg.min_table_height)
            }),
            r is Ok ==> (exists|k1: int, k2: int|
                #[trigger] calibrate_ok_obs(
                    old(self).sensor.observations(),
                    final(self).sensor.observations(),
                    k1,
                    k2,
                ) && move_outcome(
                    old(self).motor.cmds().push(MotorCmd::Up).push(MotorCmd::Stop).push(
                        MotorCmd::Down,
                    ).push(MotorCmd::Stop),
                    final(self).motor.cmds(),
                    final(self).sensor.observations().take(k2),
                    final(self).sensor.observations(),
                    old(self).config.sitting_height,
                    r,
                )),
            r matches Err(e) ==> ((e is TooHigh || e is TooLow) ==> Err::<(), TableError>(e)
                == bounds_check(old(self).config, old(self).config.sitting_height)),
            r matches Err(TableError::Sensor(se)) ==> ({
                let pre_c = old(self).motor.cmds();
                ||| (final(self).sensor.observations().len() > old(
                    self,
                ).sensor.observations().len() && final(self).sensor.observations().last() == Err::<
                    Centimeter,
                    SensorError,
                >(se))
                ||| final(self).motor.cmds() == pre_c.push(MotorCmd::Up).push(MotorCmd::Stop)
                ||| final(self).motor.cmds() == pre_c.push(MotorCmd::Up).push(MotorCmd::Stop).push(
                    MotorCmd::Down,
                ).push(MotorCmd::Stop)
            }),
    {
        let ghost pre_c = self.motor.cmds();
        let ghost pre_o = self.sensor.observations();
        self.motor.up();
        let first = match self.sensor.current_height() {
            Ok(h) => h,
            Err(e) => {
                proof {
                    lemma_prefix_refl(pre_o);
                    lemma_prefix_push(pre_o, pre_o, Err::<Centimeter, SensorError>(e));
                }
                return Err(TableError::Sensor(e));
            },
        };
        proof {
            lemma_prefix_refl(pre_o);
            lemma_prefix_push(pre_o, pre_o, Ok::<Centimeter, SensorError>(first));
        }
        let ghost obs1 = self.sensor.observations();
        let top = match self.poll_stall(first, true) {
            Ok(c) => c,
            Err(TableError::PollTimeout) => {
                self.motor.stop();
                proof {
                    lemma_prefix_trans(pre_o, obs1, self.sensor.observations());
                }
                return Err(TableError::PollTimeout);
            },
            Err(e) => {
                proof {
                    lemma_prefix_trans(pre_o, obs1, self.sensor.observations());
                }
                return Err(e);
            },
        };
        self.motor.stop();
        let ghost obs2 = self.sensor.observations();
        let ghost k1 = obs2.len() as int;
        proof {
            lemma_prefix_trans(pre_o, obs1, obs2);
        }
        match self.sensor.set_max_height(self.config.max_table_height) {
            Ok(_) => (),
            Err(e) => {
                return Err(TableError::Sensor(e));
            },
        };
        self.motor.down();
        // The down phase needs no carried-over reading afterwards: the
        // trailing move takes its own.
        let _ = match self.poll_stall(top, false) {
            Ok(c) => c,
            Err(TableError::PollTimeout) => {
                self.motor.stop();
                proof {
                    lemma_prefix_trans(pre_o, obs2, self.sensor.observations());
                }
                return Err(TableError::PollTimeout);
            },
            Err(e) => {
                proof {
                    lemma_prefix_trans(pre_o, obs2, self.sensor.observations());
                }
                return Err(e);
            },
        };
        self.motor.stop();
        let ghost obs3 = self.sensor.observations();
        let ghost k2 = obs3.len() as int;
        proof {
            lemma_prefix_trans(pre_o, obs2, obs3);
        }
        match self.sensor.set_min_height(self.config.min_table_height) {
            Ok(_) => (),
            Err(e) => {
                return Err(TableError::Sensor(e));
            },
        };
        let r = self.move_to_sitting();
        proof {
            let post = self.sensor.observations();
            lemma_prefix_trans(pre_o, obs3, post);
            if r is Ok {
                assert(post.take(k2) =~= obs3);
                assert(post.subrange(pre_o.len() as int + 1, k1) =~= obs2.skip(
                    obs1.len() as int,
                ));
                assert(post.subrange(k1, k2) =~= obs3.skip(obs2.len() as int));
                assert(obs1[pre_o.len() as int] == Ok::<Centimeter, SensorError>(first));
                assert(obs2[pre_o.len() as int] == obs2.subrange(0, obs1.len() as int)[pre_o.len()
                    as int]);
                assert(obs3[pre_o.len() as int] == obs3.subrange(0, obs2.len() as int)[pre_o.len()
                    as int]);
                assert(post[pre_o.len() as int] == post.subrange(0, obs3.len() as int)[pre_o.len()
                    as int]);
                assert(post[pre_o.len() as int] == Ok::<Centimeter, SensorError>(first));
                assert(obs2[k1 - 1] == Ok::<Centimeter, SensorError>(top));
                assert(obs3[k1 - 1] == obs3.subrange(0, obs2.len() as int)[k1 - 1]);
                assert(post[k1 - 1] == post.subrange(0, obs3.len() as int)[k1 - 1]);
                assert(post[k1 - 1] == Ok::<Centimeter, SensorError>(top));
                assert(calibrate_ok_obs(pre_o, post, k1, k2));
            }
        }
        r
    }

    /// One stall-detection poll of the calibration sequence: starting
    /// from the reading `first`, re-reads the height until a reading is
    /// no longer strictly greater (when `rising`) or strictly smaller
    /// (when falling) than its predecessor, and returns that final
    /// reading.  Commands no motor; the caller owns the motor protocol.
    #[verifier::loop_isolation(false)]
    fn poll_stall(&mut self, first: Centimeter, rising: bool) -> (r: Result<
        Centimeter,
        TableError,
    >)
        ensures
            final(self).motor.cmds() == old(self).motor.cmds(),
            final(self).config == old(self).config,
            final(self).sensor.calibration_view() == old(self).sensor.calibration_view(),
            ({
                let pre = old(self).sensor.observations();
                let post = final(self).sensor.observations();
                let new = post.skip(pre.len() as int);
                &&& pre.is_prefix_of(post)
                &&& (r matches Ok(c) ==> post.len() > pre.len() && poll_chain(
                    new,
                    first.0 as int,
                    rising,
                    true,
                ) && post.last() == Ok::<Centimeter, SensorError>(c))
                &&& (r matches Err(e) ==> {
                    ||| (e matches TableError::Sensor(se) && post.len() > pre.len() && post.last()
                        == Err::<Centimeter, SensorError>(se) && poll_chain(
                        new.drop_last(),
                        first.0 as int,
                        rising,
                        false,
                    ))
                    ||| (e == TableError::PollTimeout && poll_chain(
                        new,
                        first.0 as int,
                        rising,
                        false,
                    ) && new.len() == MAX_POLLS)
                })
            }),
    {
        let ghost pre_o = self.sensor.observations();
        let mut prev: i32 = first.0 as i32;
        let mut polls: u64 = 0;
        proof {
            lemma_prefix_refl(pre_o);
            assert(self.sensor.observations().skip(pre_o.len() as int) =~= Seq::<
                Result<Centimeter, SensorError>,
            >::empty());
        }
        loop
            invariant
                self.motor.cmds() == old(self).motor.cmds(),
                self.config == old(self).config,
                self.sensor.calibration_view() == old(self).sensor.calibration_view(),
                pre_o == old(self).sensor.observations(),
                pre_o.is_prefix_of(self.sensor.observations()),
                ({
                    let new = self.sensor.observations().skip(pre_o.len() as int);
                    &&& new.len() == polls
                    &&& poll_chain(new, first.0 as int, rising, false)
                    &&& prev as int == poll_value(new, first.0 as int, new.len() - 1)
                }),
                0 <= prev <= 255,
                polls <= MAX_POLLS,
            decreases MAX_POLLS - polls,
        {
            if polls == MAX_POLLS {
                return Err(TableError::PollTimeout);
            }
            polls = polls + 1;
            self.delay.pause_ms(POLL_INTERVAL_MS);
            let ghost seen = self.sensor.observations();
            let ghost new0 = seen.skip(pre_o.len() as int);
            let cur = match self.sensor.current_height() {
                Ok(h) => h,
                Err(e) => {
                    proof {
                        lemma_prefix_push(pre_o, seen, Err::<Centimeter, SensorError>(e));
                        let post = self.sensor.observations();
                        let new = post.skip(pre_o.len() as int);
                        assert(new =~= new0.push(Err::<Centimeter, SensorError>(e)));
                        assert(new.drop_last() =~= new0);
                    }
                    return Err(TableError::Sensor(e));
                },
            };
            let c = cur.0 as i32;
            proof {
                lemma_prefix_push(pre_o, seen, Ok::<Centimeter, SensorError>(cur));
                let post = self.sensor.observations();
                let new = post.skip(pre_o.len() as int);
                assert(new =~= new0.push(Ok::<Centimeter, SensorError>(cur)));
                assert forall|i: int| -1 <= i < new.len() - 2 implies (if rising {
                    #[trigger] poll_value(new, first.0 as int, i) < poll_value(
                        new,
                        first.0 as int,
                        i + 1,
                    )
                } else {
                    poll_value(new, first.0 as int, i) > poll_value(new, first.0 as int, i + 1)
                }) by {
                    assert(poll_value(new, first.0 as int, i) == poll_value(
                        new0,
                        first.0 as int,
                        i,
                    ));
                    assert(poll_value(new, first.0 as int, i + 1) == poll_value(
                        new0,
                        first.0 as int,
                        i + 1,
                    ));
                }
                assert(poll_value(new, first.0 as int, new.len() - 2) == prev as int);
                assert(poll_value(new, first.0 as int, new.len() - 1) == cur.0 as int);
            }
            let stalled = if rising {
                prev >= c
            } else {
                prev <= c
            };
            if stalled {
                return Ok(cur);
            }
            prev = c;
        }
    }

    /// Raises the desk until a reading reaches `height_cm`, then stops:
    /// the stop comes at the first polled reading at or above the target.
    #[verifier::loop_isolation(false)]
    fn seek_up(&mut self, height_cm: Centimeter) -> (r: Result<(), TableError>)
        ensures
            seek_trace(old(self).motor.cmds(), final(self).motor.cmds(), MotorCmd::Up, r),
            seek_obs(
                old(self).sensor.observations(),
                final(self).sensor.observations(),
                height_cm,
                MotorCmd::Up,
                r,
            ),
            final(self).config == old(self).config,
            final(self).sensor.calibration_view() == old(self).sensor.calibration_view(),
    {
        self.motor.up();
        let mut polls: u64 = 0;
        loop
            invariant
                self.motor.cmds() == old(self).motor.cmds().push(MotorCmd::Up),
                self.config == old(self).config,
                self.sensor.calibration_view() == old(self).sensor.calibration_view(),
                old(self).sensor.observations().is_prefix_of(self.sensor.observations()),
                self.sensor.observations().len() == old(self).sensor.observations().len() + polls,
                forall|i: int|
                    old(self).sensor.observations().len() <= i < self.sensor.observations().len()
                        ==> reading_short_of(
                        #[trigger] self.sensor.observations()[i],
                        height_cm,
                        MotorCmd::Up,
                    ),
                polls <= MAX_POLLS,
            decreases MAX_POLLS - polls,
        {
            let ghost seen = self.sensor.observations();
            let h = match self.sensor.current_height() {
                Ok(h) => h,
                Err(e) => {
                    proof {
                        lemma_prefix_push(
                            old(self).sensor.observations(),
                            seen,
                            Err::<Centimeter, SensorError>(e),
                        );
                    }
                    return Err(TableError::Sensor(e));
                },
            };
            proof {
                lemma_prefix_push(
                    old(self).sensor.observations(),
                    seen,
                    Ok::<Centimeter, SensorError>(h),
                );
            }
            if h.0 >= height_cm.0 {
                break;
            }
            if polls == MAX_POLLS {
                self.motor.stop();
                return Err(TableError::PollTimeout);
            }
            polls = polls + 1;
            self.delay.pause_ms(POLL_INTERVAL_MS);
        }
        self.motor.stop();
        Ok(())
    }

    /// Lowers the desk until a reading reaches `height_cm`, then stops:
    /// the stop comes at the first polled reading at or below the target.
    #[verifier::loop_isolation(false)]
    fn seek_down(&mut self, height_cm: Centimeter) -> (r: Result<(), TableError>)
        ensures
            seek_trace(old(self).motor.cmds(), final(self).motor.cmds(), MotorCmd::Down, r),
            seek_obs(
                old(self).sensor.observations(),
                final(self).sensor.observations(),
                height_cm,
                MotorCmd::Down,
                r,
            ),
            final(self).config == old(self).config,
            final(self).sensor.calibration_view() == old(self).sensor.calibration_view(),
    {
        self.motor.down();
        let mut polls: u64 = 0;
        loop
            invariant
                self.motor.cmds() == old(self).motor.cmds().push(MotorCmd::Down),
                self.config == old(self).config,
                self.sensor.calibration_view() == old(self).sensor.calibration_view(),
                old(self).sensor.observations().is_prefix_of(self.sensor.observations()),
                self.sensor.observations().len() == old(self).sensor.observations().len() + polls,
                forall|i: int|
                    old(self).sensor.observations().len() <= i < self.sensor.observations().len()
                        ==> reading_short_of(
                        #[trigger] self.sensor.observations()[i],
                        height_cm,
                        MotorCmd::Down,
                    ),
                polls <= MAX_POLLS,
            decreases MAX_POLLS - polls,
        {
            let ghost seen = self.sensor.observations();
            let h = match self.sensor.current_height() {
                Ok(h) => h,
                Err(e) => {
                    proof {
                        lemma_prefix_push(
                            old(self).sensor.observations(),
                            seen,
                            Err::<Centimeter, SensorError>(e),
                        );
                    }
                    return Err(TableError::Sensor(e));
                },
            };
            proof {
                lemma_prefix_push(
                    old(self).sensor.observations(),
                    seen,
                    Ok::<Centimeter, SensorError>(h),
                );
            }
            if h.0 <= height_cm.0 {
                break;
            }
            if polls == MAX_POLLS {
                self.motor.stop();
                return Err(TableError::PollTimeout);
            }
            polls = polls + 1;
            self.delay.pause_ms(POLL_INTERVAL_MS);
        }
        self.motor.stop();
        Ok(())
    }
}

} // verus!
