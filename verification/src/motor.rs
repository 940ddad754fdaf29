//! The motor capability and a command-logging stand-in.
//!
//! The controller's contracts speak about the sequence of commands a
//! motor has received, so the trait carries that sequence as its
//! specification-level model.  A hardware-backed motor implements the
//! trait outside the verified library; `SimulatedMotor` implements it
//! here and records the commands it receives.

use vstd::prelude::*;

verus! {

/// A command issued to the desk motor.
#[derive(Clone, Copy, Debug, PartialEq, Eq, Structural)]
pub enum MotorCmd {
    /// Start moving the desk upward.
    Up,
    /// Start moving the desk downward.
    Down,
    /// Stop moving.
    Stop,
}

/// The capability set of the desk motor.  Each method appends exactly one
/// command to the motor's command history `cmds`.
pub trait Motor {
    /// The commands this motor has received, oldest first.  A verified
    /// implementation gives this its own meaning; the default stands for
    /// hardware implementations outside the verified library, of which
    /// nothing is proved.
    open spec fn cmds(&self) -> Seq<MotorCmd> {
        Seq::<MotorCmd>::empty()
    }

    /// Starts moving the desk upward.
    fn up(&mut self)
        ensures
            final(self).cmds() == old(self).cmds().push(MotorCmd::Up),
    ;

    /// Starts moving the desk downward.
    fn down(&mut self)
        ensures
            final(self).cmds() == old(self).cmds().push(MotorCmd::Down),
    ;

    /// Stops the desk.
    fn stop(&mut self)
        ensures
            final(self).cmds() == old(self).cmds().push(MotorCmd::Stop),
    ;
}

/// A motor that moves nothing and records every command it receives, for
/// exercising the controller without hardware.
pub struct SimulatedMotor {
    /// The commands received so far, oldest first.
    pub log: Vec<MotorCmd>,
}

impl SimulatedMotor {
    /// A simulated motor with an empty command history.
    pub fn new() -> (m: Self)
        ensures
            m.cmds() == Seq::<MotorCmd>::empty(),
    {
        SimulatedMotor { log: Vec::new() }
    }
}

impl Motor for SimulatedMotor {
    open spec fn cmds(&self) -> Seq<MotorCmd> {
        self.log@
    }

    fn up(&mut self) {
        self.log.push(MotorCmd::Up);
    }

    fn down(&mut self) {
        self.log.push(MotorCmd::Down);
    }

    fn stop(&mut self) {
        self.log.push(MotorCmd::Stop);
    }
}

/// The capability to wait: the controller pauses between polls of the
/// height, and a hardware-backed implementation sleeps for real.  Nothing
/// is specified of it; the simulated `NoDelay` returns at once.
pub trait Delay {
    /// Pauses the calling thread for `ms` milliseconds.
    fn pause_ms(&mut self, ms: u64);
}

/// A delay that does not wait, for exercising the controller without
/// hardware.
pub struct NoDelay {
}

impl NoDelay {
    /// A no-op delay.
    pub fn new() -> Self {
        NoDelay {  }
    }
}

impl Delay for NoDelay {
    fn pause_ms(&mut self, _ms: u64) {
    }
}

} // verus!
