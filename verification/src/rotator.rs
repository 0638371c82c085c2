//! The motion planner: keeps the angle of both axes and turns a target into
//! step counts for the two coil sequencers.
//!
//! A move is planned here and carried out by the caller: the planner returns
//! the drives, the caller puts their signals on the lines. The angles on
//! record change when the move is planned.
//!
//! Position is dead reckoning. The planner believes that the motors did what
//! the signals said; nothing is read back. A move rounds the angle to go to
//! the nearest whole step and then takes the target as reached, so each move
//! may leave the antenna up to half a step away from the angle on record, and
//! these remainders add up over many moves. Nothing here corrects that drift.

use crate::angle::Angle;
use crate::hardware::{Axis, HardwareError, HardwareStatus};
use crate::sequencer::{
    direction_of, lemma_same_phase_same_sequencer, phase_after, CoilSequencer, Drive,
    StepDirection, PHASE_COUNT,
};
use vstd::prelude::*;

verus! {

/// Lines of the elevation motor, in the order A, B, A', B'.
pub const MOTOR_ELE_GPIO: [u8; 4] = [6, 13, 19, 26];

/// Lines of the azimuth motor, in the order A, B, A', B'.
pub const MOTOR_AZ_GPIO: [u8; 4] = [9, 11, 0, 5];

/// Steps in one full turn of an axis.
pub const STEPS_PER_ROT: i64 = 512;

/// Angle units in one full turn.
pub const UNITS_PER_ROT: i64 = 360_000_000;

/// Elevation of the home position, in angle units.
pub const HOME_ELEVATION: i64 = 20_000_000;

/// Azimuth of the home position, in angle units.
pub const HOME_AZIMUTH: i64 = 0;

/// A rotator: where each axis is, where it was last told to go, and the
/// sequencer of each motor.
#[derive(Clone, Copy, Debug, PartialEq, Eq)]
pub struct Rotator {
    /// Elevation
    pub ele: Angle,
    /// Azimuth
    pub az: Angle,
    /// Elevation target
    pub ele_target: Angle,
    /// Azimuth target
    pub az_target: Angle,
    /// Number of raw steps of the next step test
    pub num_steps: i32,
    /// Sequencer of the elevation motor
    pub ele_sequencer: CoilSequencer,
    /// Sequencer of the azimuth motor
    pub az_sequencer: CoilSequencer,
}

/// The integer nearest to `n / d`, for a positive `d`; a half rounds away
/// from zero.
pub open spec fn round_ratio(n: int, d: int) -> int {
    if n >= 0 {
        (2 * n + d) / (2 * d)
    } else {
        -((2 * (-n) + d) / (2 * d))
    }
}

/// The signed number of steps that takes an axis from `from` to `to`.
pub open spec fn steps_between(from: Angle, to: Angle) -> int {
    round_ratio(
        (to.microdegrees - from.microdegrees) * (STEPS_PER_ROT as int),
        UNITS_PER_ROT as int,
    )
}

/// The size of a signed step count.
pub open spec fn step_count(steps: int) -> nat {
    if steps >= 0 {
        steps as nat
    } else {
        (-steps) as nat
    }
}

/// The lines of `axis`.
pub open spec fn axis_lines(axis: Axis) -> [u8; 4] {
    match axis {
        Axis::Elevation => MOTOR_ELE_GPIO,
        Axis::Azimuth => MOTOR_AZ_GPIO,
    }
}

/// The drive of `steps` signed steps on `axis`, from where `sequencer` stands.
pub open spec fn axis_drive(sequencer: CoilSequencer, steps: int, axis: Axis) -> Drive {
    Drive {
        lines: axis_lines(axis),
        direction: direction_of(steps),
        sequencer,
        remaining: step_count(steps) as u64,
        released: false,
    }
}

/// The drives that `steps` signed steps on `axis` take: none at all for no
/// step, else one.
pub open spec fn axis_drives(sequencer: CoilSequencer, steps: int, axis: Axis) -> Seq<Drive> {
    if steps == 0 {
        Seq::empty()
    } else {
        seq![axis_drive(sequencer, steps, axis)]
    }
}

/// The phase index of a sequencer at `start` after `steps` signed steps.
pub open spec fn axis_phase(start: int, steps: int) -> int {
    if steps == 0 {
        start
    } else {
        phase_after(start, step_count(steps) as int, direction_of(steps))
    }
}

/// The hardware fault that stops a drive of `elevation` steps on the one
/// motor and `azimuth` steps on the other, if there is one. Only what a
/// motor with steps to go needs is asked for.
pub open spec fn drive_fault(elevation: int, azimuth: int, hardware: HardwareStatus) -> Option<
    HardwareError,
> {
    if (elevation != 0 || azimuth != 0) && !hardware.device_readable {
        Some(HardwareError::DeviceUnreadable)
    } else if elevation != 0 && !hardware.elevation_lines {
        Some(HardwareError::LinesUnavailable(Axis::Elevation))
    } else if azimuth != 0 && !hardware.azimuth_lines {
        Some(HardwareError::LinesUnavailable(Axis::Azimuth))
    } else {
        None
    }
}

impl Rotator {
    /// Steps that the elevation motor has to go to reach its target.
    pub open spec fn elevation_steps(self) -> int {
        steps_between(self.ele, self.ele_target)
    }

    /// Steps that the azimuth motor has to go to reach its target.
    pub open spec fn azimuth_steps(self) -> int {
        steps_between(self.az, self.az_target)
    }

    /// Whether both axes are on record at their targets.
    pub open spec fn at_target(self) -> bool {
        self.ele == self.ele_target && self.az == self.az_target
    }

    /// Whether both axes are on record at the home position.
    pub open spec fn at_home(self) -> bool {
        self.ele.microdegrees == HOME_ELEVATION && self.az.microdegrees == HOME_AZIMUTH
    }

    /// The sequencer of `axis`.
    pub open spec fn sequencer(self, axis: Axis) -> CoilSequencer {
        match axis {
            Axis::Elevation => self.ele_sequencer,
            Axis::Azimuth => self.az_sequencer,
        }
    }

    /// The rotator with another sequencer for `axis` and nothing else
    /// changed.
    pub open spec fn with_sequencer(self, axis: Axis, sequencer: CoilSequencer) -> Rotator {
        match axis {
            Axis::Elevation => Rotator { ele_sequencer: sequencer, ..self },
            Axis::Azimuth => Rotator { az_sequencer: sequencer, ..self },
        }
    }

    /// The rotator with new targets and nothing else changed.
    pub open spec fn with_target(self, azimuth: Angle, elevation: Angle) -> Rotator {
        Rotator { az_target: azimuth, ele_target: elevation, ..self }
    }

    /// The rotator with the home position as its target.
    pub open spec fn homeward(self) -> Rotator {
        self.with_target(
            Angle { microdegrees: HOME_AZIMUTH },
            Angle { microdegrees: HOME_ELEVATION },
        )
    }

    /// The rotator with a new step count for the step test.
    pub open spec fn with_steps(self, steps: i32) -> Rotator {
        Rotator { num_steps: steps, ..self }
    }

    /// The hardware fault that stops the move to the targets, if any.
    pub open spec fn move_fault(self, hardware: HardwareStatus) -> Option<HardwareError> {
        drive_fault(self.elevation_steps(), self.azimuth_steps(), hardware)
    }

    /// The drives of the move to the targets: the elevation drive, then the
    /// azimuth drive, each only if its axis has steps to go.
    pub open spec fn move_drives(self) -> Seq<Drive> {
        axis_drives(self.ele_sequencer, self.elevation_steps(), Axis::Elevation) + axis_drives(
            self.az_sequencer,
            self.azimuth_steps(),
            Axis::Azimuth,
        )
    }

    /// Whether `after` is this rotator once the move to the targets is done:
    /// both axes are on record at their targets and each sequencer has gone
    /// its steps.
    pub open spec fn moved(self, after: Rotator) -> bool {
        &&& after.ele == self.ele_target
        &&& after.az == self.az_target
        &&& after.ele_target == self.ele_target
        &&& after.az_target == self.az_target
        &&& after.num_steps == self.num_steps
        &&& after.ele_sequencer.phase_index() == axis_phase(
            self.ele_sequencer.phase_index(),
            self.elevation_steps(),
        )
        &&& after.az_sequencer.phase_index() == axis_phase(
            self.az_sequencer.phase_index(),
            self.azimuth_steps(),
        )
    }

    /// The hardware fault that stops the step test, if any. The test reads
    /// the device model even for no steps.
    pub open spec fn test_fault(self, hardware: HardwareStatus) -> Option<HardwareError> {
        if !hardware.device_readable {
            Some(HardwareError::DeviceUnreadable)
        } else if self.num_steps != 0 && !hardware.elevation_lines {
            Some(HardwareError::LinesUnavailable(Axis::Elevation))
        } else {
            None
        }
    }

    /// The drives of the step test: one on the elevation motor, or none for
    /// no steps.
    pub open spec fn test_drives(self) -> Seq<Drive> {
        axis_drives(self.ele_sequencer, self.num_steps as int, Axis::Elevation)
    }

    /// Whether `after` is this rotator once the step test is done: the
    /// elevation sequencer has gone its steps and the angles on record are
    /// what they were.
    pub open spec fn tested(self, after: Rotator) -> bool {
        &&& after.ele == self.ele
        &&& after.az == self.az
        &&& after.ele_target == self.ele_target
        &&& after.az_target == self.az_target
        &&& after.num_steps == self.num_steps
        &&& after.ele_sequencer.phase_index() == axis_phase(
            self.ele_sequencer.phase_index(),
            self.num_steps as int,
        )
        &&& after.az_sequencer == self.az_sequencer
    }

    /// A rotator on record at the home position, with both targets there too.
    pub fn new() -> (rotator: Rotator)
        ensures
            rotator.at_home(),
            rotator.at_target(),
            rotator.num_steps == 0,
            rotator.ele_sequencer.phase_index() == PHASE_COUNT - 1,
            rotator.az_sequencer.phase_index() == PHASE_COUNT - 1,
    {
        Rotator {
            ele: Angle { microdegrees: HOME_ELEVATION },
            az: Angle { microdegrees: HOME_AZIMUTH },
            ele_target: Angle { microdegrees: HOME_ELEVATION },
            az_target: Angle { microdegrees: HOME_AZIMUTH },
            num_steps: 0,
            ele_sequencer: CoilSequencer::new(),
            az_sequencer: CoilSequencer::new(),
        }
    }

    /// The position on record: azimuth, then elevation.
    pub fn get_position(&self) -> (position: (Angle, Angle))
        ensures
            position == (self.az, self.ele),
    {
        (self.az, self.ele)
    }

    /// Stores both targets and moves there.
    ///
    /// On `Ok` both axes are on record at the new targets and the drives
    /// are the whole move. On `Err` the targets are stored, nothing else has
    /// changed and there is nothing to drive.
    pub fn set_target(&mut self, azimuth: Angle, elevation: Angle, hardware: &HardwareStatus) -> (result:
        Result<Vec<Drive>, HardwareError>)
        ensures
            match result {
                Ok(drives) => {
                    &&& old(self).with_target(azimuth, elevation).move_fault(*hardware) is None
                    &&& old(self).with_target(azimuth, elevation).moved(*final(self))
                    &&& drives@ == old(self).with_target(azimuth, elevation).move_drives()
                    &&& final(self).az == azimuth
                    &&& final(self).ele == elevation
                },
                Err(fault) => {
                    &&& old(self).with_target(azimuth, elevation).move_fault(*hardware) == Some(
                        fault,
                    )
                    &&& *final(self) == old(self).with_target(azimuth, elevation)
                },
            },
    {
        self.az_target = azimuth;
        self.ele_target = elevation;
        self.mv(hardware)
    }

    /// Moves both axes to their targets, elevation first.
    ///
    /// An axis with no step to go is left alone: it gets no drive and its
    /// hardware is not asked for. On `Ok` both axes are on record at their
    /// targets. On `Err` nothing has changed and there is nothing to drive.
    pub fn mv(&mut self, hardware: &HardwareStatus) -> (result: Result<Vec<Drive>, HardwareError>)
        ensures
            match result {
                Ok(drives) => {
                    &&& old(self).move_fault(*hardware) is None
                    &&& old(self).moved(*final(self))
                    &&& drives@ == old(self).move_drives()
                },
                Err(fault) => {
                    &&& old(self).move_fault(*hardware) == Some(fault)
                    &&& *final(self) == *old(self)
                },
            },
            old(self).at_target() ==> result is Ok && result->Ok_0@.len() == 0 && *final(self)
                == *old(self),
    {
        let ele_steps = count_steps(self.ele, self.ele_target);
        let az_steps = count_steps(self.az, self.az_target);
        if (ele_steps != 0 || az_steps != 0) && !hardware.device_readable {
            return Err(HardwareError::DeviceUnreadable);
        }
        if ele_steps != 0 && !hardware.elevation_lines {
            return Err(HardwareError::LinesUnavailable(Axis::Elevation));
        }
        if az_steps != 0 && !hardware.azimuth_lines {
            return Err(HardwareError::LinesUnavailable(Axis::Azimuth));
        }
        let mut drives: Vec<Drive> = Vec::new();
        if ele_steps != 0 {
            let drive = self.move_steppers(ele_steps, Axis::Elevation);
            drives.push(drive);
        }
        if az_steps != 0 {
            let drive = self.move_steppers(az_steps, Axis::Azimuth);
            drives.push(drive);
        }
        self.ele = self.ele_target;
        self.az = self.az_target;
        assert(drives@ =~= old(self).move_drives());
        proof {
            lemma_no_distance_no_steps(old(self).ele);
            lemma_no_distance_no_steps(old(self).az);
        }
        Ok(drives)
    }

    /// Returns to the home position: sets both targets there and moves.
    pub fn zero(&mut self, hardware: &HardwareStatus) -> (result: Result<Vec<Drive>, HardwareError>)
        ensures
            match result {
                Ok(drives) => {
                    &&& old(self).homeward().move_fault(*hardware) is None
                    &&& old(self).homeward().moved(*final(self))
                    &&& drives@ == old(self).homeward().move_drives()
                    &&& final(self).at_home()
                },
                Err(fault) => {
                    &&& old(self).homeward().move_fault(*hardware) == Some(fault)
                    &&& *final(self) == old(self).homeward()
                },
            },
    {
        self.set_target(
            Angle { microdegrees: HOME_AZIMUTH },
            Angle { microdegrees: HOME_ELEVATION },
            hardware,
        )
    }

    /// Stores a step count and runs the step test with it.
    pub fn step_test(&mut self, steps: i32, hardware: &HardwareStatus) -> (result: Result<
        Vec<Drive>,
        HardwareError,
    >)
        ensures
            match result {
                Ok(drives) => {
                    &&& old(self).with_steps(steps).test_fault(*hardware) is None
                    &&& old(self).with_steps(steps).tested(*final(self))
                    &&& drives@ == old(self).with_steps(steps).test_drives()
                },
                Err(fault) => {
                    &&& old(self).with_steps(steps).test_fault(*hardware) == Some(fault)
                    &&& *final(self) == old(self).with_steps(steps)
                },
            },
    {
        self.num_steps = steps;
        self.test_steppers(hardware)
    }

    /// Drives the elevation motor the stored number of raw steps, forward for
    /// a positive count and backward for a negative one. The angles on record
    /// stay as they are.
    pub fn test_steppers(&mut self, hardware: &HardwareStatus) -> (result: Result<
        Vec<Drive>,
        HardwareError,
    >)
        ensures
            match result {
                Ok(drives) => {
                    &&& old(self).test_fault(*hardware) is None
                    &&& old(self).tested(*final(self))
                    &&& drives@ == old(self).test_drives()
                },
                Err(fault) => {
                    &&& old(self).test_fault(*hardware) == Some(fault)
                    &&& *final(self) == *old(self)
                },
            },
    {
        if !hardware.device_readable {
            return Err(HardwareError::DeviceUnreadable);
        }
        let mut drives: Vec<Drive> = Vec::new();
        if self.num_steps == 0 {
            return Ok(drives);
        }
        if !hardware.elevation_lines {
            return Err(HardwareError::LinesUnavailable(Axis::Elevation));
        }
        let drive = self.move_steppers(self.num_steps as i64, Axis::Elevation);
        drives.push(drive);
        assert(drives@ =~= old(self).test_drives());
        Ok(drives)
    }

    /// Starts a drive of `steps` signed steps on the motor of `axis`: forward
    /// for a positive count, backward for a negative one.
    pub fn move_steppers(&mut self, steps: i64, axis: Axis) -> (drive: Drive)
        ensures
            drive == axis_drive(old(self).sequencer(axis), steps as int, axis),
            final(self).sequencer(axis).phase_index() == phase_after(
                old(self).sequencer(axis).phase_index(),
                step_count(steps as int) as int,
                direction_of(steps as int),
            ),
            *final(self) == old(self).with_sequencer(axis, final(self).sequencer(axis)),
    {
        let count: u64 = if steps >= 0 {
            steps as u64
        } else {
            (-(steps as i128)) as u64
        };
        let direction = if steps >= 0 {
            StepDirection::Forward
        } else {
            StepDirection::Backward
        };
        match axis {
            Axis::Elevation => self.ele_sequencer.drive(count, direction, MOTOR_ELE_GPIO),
            Axis::Azimuth => self.az_sequencer.drive(count, direction, MOTOR_AZ_GPIO),
        }
    }
}

/// Counts the steps from one angle to another.
pub fn count_steps(from: Angle, to: Angle) -> (steps: i64)
    ensures
        steps == steps_between(from, to),
{
    let delta: i128 = to.microdegrees as i128 - from.microdegrees as i128;
    let scaled: i128 = delta * 512;
    let rounded: i128 = if scaled >= 0 {
        (2 * scaled + 360_000_000) / 720_000_000
    } else {
        -((2 * (-scaled) + 360_000_000) / 720_000_000)
    };
    rounded as i64
}

/// The angle that the counted steps turn an axis by differs from the angle
/// asked for by at most half a step.
pub proof fn lemma_steps_within_half_a_step(from: Angle, to: Angle)
    ensures
        ({
            let asked = (to.microdegrees - from.microdegrees) * (STEPS_PER_ROT as int);
            let turned = steps_between(from, to) * (UNITS_PER_ROT as int);
            -(UNITS_PER_ROT as int) <= 2 * (turned - asked) <= (UNITS_PER_ROT as int)
        }),
{
    let asked = (to.microdegrees - from.microdegrees) * 512;
    if asked >= 0 {
        let steps = (2 * asked + 360_000_000) / 720_000_000;
        assert(steps_between(from, to) == steps);
    } else {
        let steps = (2 * (-asked) + 360_000_000) / 720_000_000;
        assert(steps_between(from, to) == -steps);
    }
}

/// No angle to go is no step to go.
pub proof fn lemma_no_distance_no_steps(at: Angle)
    ensures
        steps_between(at, at) == 0,
{
}

/// A move starts one drive for each axis that has steps to go, and none for
/// the others.
pub proof fn lemma_one_drive_per_moving_axis(rotator: Rotator)
    ensures
        rotator.move_drives().len() == (if rotator.elevation_steps() != 0 {
            1nat
        } else {
            0nat
        }) + (if rotator.azimuth_steps() != 0 {
            1nat
        } else {
            0nat
        }),
{
}

/// A rotator that is on record at its targets moves without a single drive
/// and without asking for any hardware.
pub proof fn lemma_no_motion_no_drive(rotator: Rotator, hardware: HardwareStatus)
    requires
        rotator.at_target(),
    ensures
        rotator.move_drives() == Seq::<Drive>::empty(),
        rotator.move_fault(hardware) is None,
        rotator.elevation_steps() == 0,
        rotator.azimuth_steps() == 0,
{
    lemma_no_distance_no_steps(rotator.ele);
    lemma_no_distance_no_steps(rotator.az);
    assert(rotator.move_drives() =~= Seq::<Drive>::empty());
}

/// After a completed move the position on record is exactly the target.
pub proof fn lemma_target_reached(before: Rotator, azimuth: Angle, elevation: Angle, after: Rotator)
    requires
        before.with_target(azimuth, elevation).moved(after),
    ensures
        after.az == azimuth,
        after.ele == elevation,
        after.at_target(),
{
}

/// Going home twice is going home once: the second move finds the rotator
/// where the first one left it, starts no drive, asks for no hardware and
/// changes nothing.
pub proof fn lemma_zero_is_idempotent(
    start: Rotator,
    once: Rotator,
    twice: Rotator,
    hardware: HardwareStatus,
)
    requires
        start.homeward().moved(once),
        once.homeward().moved(twice),
    ensures
        once.at_home(),
        once.homeward().move_fault(hardware) is None,
        once.homeward().move_drives() == Seq::<Drive>::empty(),
        twice == once,
{
    assert(once.homeward() == once);
    lemma_no_motion_no_drive(once, hardware);
    lemma_same_phase_same_sequencer(once.ele_sequencer, twice.ele_sequencer);
    lemma_same_phase_same_sequencer(once.az_sequencer, twice.az_sequencer);
}

} // verus!
