//! Moves by raw step counts: one count per stepper, in the order of the
//! steppers on the board.
//!
//! A step here is one full pass through the pulse table, which walks a pulse
//! from the last line over each pair of neighbours back to the first. A move
//! is planned as one [`StepperRun`] per stepper; the caller makes the steps
//! of each run, one [`step_pins`] at a time.

use crate::hardware::{Axis, HardwareError, HardwareStatus};
use crate::sequencer::{release_signal, CoilSequencer, Signal};
use vstd::prelude::*;

verus! {

/// The lines of all steppers, four to a stepper.
pub const GPIO_PINS: [u8; 8] = [6, 13, 19, 26, 9, 11, 0, 5];

/// Number of steppers that the lines suffice for.
pub const STEPPERS: usize = 2;

/// Milliseconds for which each pulse is held.
pub const PULSE_MS: u64 = 1;

/// Number of pulses in one step.
pub const PULSES_PER_STEP: usize = 8;

/// The pulses of one step, one row per pulse, one column per line.
pub const PULSE_TABLE: [[bool; 4]; 8] = [
    [false, false, false, true],
    [true, true, false, false],
    [false, true, false, false],
    [false, true, true, false],
    [false, false, true, false],
    [false, false, true, true],
    [false, false, false, true],
    [true, false, false, true],
];

/// The steps that one stepper has to make.
#[derive(Clone, Copy, Debug, PartialEq, Eq)]
pub struct StepperRun {
    /// The four lines of the stepper.
    pub lines: [u8; 4],
    /// Number of steps to make.
    pub steps: usize,
}

/// Why a move was refused.
#[derive(Clone, Copy, Debug, PartialEq, Eq, Structural)]
pub enum MoveError {
    /// A step count was below one.
    StepsLessThanOne,
    /// There are more step counts than steppers.
    NoNextStepper,
    /// A part of the hardware could not be reached.
    Hardware(HardwareError),
}

impl MoveError {
    /// The line that tells the operator why the move was refused.
    pub open spec fn text(self) -> Seq<char> {
        match self {
            MoveError::StepsLessThanOne => "Number of steps cannot be less than one."@,
            MoveError::NoNextStepper => "No next stepper! Ensure you did not add an extra step number!"@,
            MoveError::Hardware(fault) => fault.text(),
        }
    }

    /// A line for the operator.
    pub fn describe(&self) -> (text: &'static str)
        ensures
            text@ == self.text(),
    {
        match self {
            MoveError::StepsLessThanOne => "Number of steps cannot be less than one.",
            MoveError::NoNextStepper => "No next stepper! Ensure you did not add an extra step number!",
            MoveError::Hardware(fault) => fault.describe(),
        }
    }
}

/// The four lines of stepper number `index`.
pub open spec fn stepper_lines(index: int) -> [u8; 4] {
    [
        GPIO_PINS[4 * index],
        GPIO_PINS[4 * index + 1],
        GPIO_PINS[4 * index + 2],
        GPIO_PINS[4 * index + 3],
    ]
}

/// What one step puts on `lines`: the eight pulses, then the release.
pub open spec fn step_signals(lines: [u8; 4]) -> Seq<Signal> {
    Seq::new(
        (PULSES_PER_STEP + 1) as nat,
        |i: int|
            if i < PULSES_PER_STEP {
                Signal { lines, levels: PULSE_TABLE[i], dwell_ms: PULSE_MS }
            } else {
                release_signal(lines)
            },
    )
}

/// Whether a step count is below one.
pub open spec fn has_empty_step(steppers: Seq<usize>) -> bool {
    exists|i: int| 0 <= i < steppers.len() && #[trigger] steppers[i] < 1
}

/// The fault that stops the steppers from moving, if any: the device model
/// is read first, then each stepper in turn needs its lines, and a third
/// count finds no stepper.
pub open spec fn steppers_fault(steppers: Seq<usize>, hardware: HardwareStatus) -> Option<
    MoveError,
> {
    if !hardware.device_readable {
        Some(MoveError::Hardware(HardwareError::DeviceUnreadable))
    } else if steppers.len() >= 1 && !hardware.elevation_lines {
        Some(MoveError::Hardware(HardwareError::LinesUnavailable(Axis::Elevation)))
    } else if steppers.len() >= 2 && !hardware.azimuth_lines {
        Some(MoveError::Hardware(HardwareError::LinesUnavailable(Axis::Azimuth)))
    } else if steppers.len() > STEPPERS {
        Some(MoveError::NoNextStepper)
    } else {
        None
    }
}

/// The fault that stops a custom move, if any: a count below one comes
/// before any fault of the steppers.
pub open spec fn custom_fault(steppers: Seq<usize>, hardware: HardwareStatus) -> Option<
    MoveError,
> {
    if has_empty_step(steppers) {
        Some(MoveError::StepsLessThanOne)
    } else {
        steppers_fault(steppers, hardware)
    }
}

/// The runs of the steppers, the first stepper first.
pub open spec fn steppers_runs(steppers: Seq<usize>) -> Seq<StepperRun> {
    Seq::new(
        steppers.len(),
        |i: int| StepperRun { lines: stepper_lines(i), steps: steppers[i] },
    )
}

/// The lines of stepper number `index`, if there is such a stepper.
pub fn stepper_pins(index: usize) -> (pins: Option<[u8; 4]>)
    ensures
        pins == if index < STEPPERS {
            Some(stepper_lines(index as int))
        } else {
            None
        },
{
    if index < STEPPERS {
        let base: usize = 4 * index;
        let pins = [GPIO_PINS[base], GPIO_PINS[base + 1], GPIO_PINS[base + 2], GPIO_PINS[base + 3]];
        assert(pins =~= stepper_lines(index as int));
        Some(pins)
    } else {
        None
    }
}

/// Makes one step on `pins_list`.
pub fn step_pins(pins_list: [u8; 4]) -> (signals: Vec<Signal>)
    ensures
        signals@ == step_signals(pins_list),
{
    let mut signals: Vec<Signal> = Vec::new();
    let mut pulse: usize = 0;
    while pulse < PULSES_PER_STEP
        invariant
            pulse <= PULSES_PER_STEP,
            signals@.len() == pulse,
            forall|k: int|
                0 <= k < pulse ==> signals@[k] == (Signal {
                    lines: pins_list,
                    levels: PULSE_TABLE[k],
                    dwell_ms: PULSE_MS,
                }),
        decreases PULSES_PER_STEP - pulse,
    {
        signals.push(Signal { lines: pins_list, levels: PULSE_TABLE[pulse], dwell_ms: PULSE_MS });
        pulse = pulse + 1;
    }
    signals.push(CoilSequencer::release(pins_list));
    assert(signals@ =~= step_signals(pins_list));
    signals
}

/// Plans the move of each stepper by its count, the first stepper first.
///
/// On `Ok` the runs are the whole move, one per count. A fault refuses the
/// move as a whole: there is then nothing to run.
pub fn move_steppers(steppers: &Vec<usize>, hardware: &HardwareStatus) -> (result: Result<
    Vec<StepperRun>,
    MoveError,
>)
    ensures
        match result {
            Ok(runs) => steppers_fault(steppers@, *hardware) is None && runs@ == steppers_runs(
                steppers@,
            ),
            Err(fault) => steppers_fault(steppers@, *hardware) == Some(fault),
        },
{
    if !hardware.device_readable {
        return Err(MoveError::Hardware(HardwareError::DeviceUnreadable));
    }
    let count = steppers.len();
    if count >= 1 && !hardware.elevation_lines {
        return Err(MoveError::Hardware(HardwareError::LinesUnavailable(Axis::Elevation)));
    }
    if count >= 2 && !hardware.azimuth_lines {
        return Err(MoveError::Hardware(HardwareError::LinesUnavailable(Axis::Azimuth)));
    }
    let mut runs: Vec<StepperRun> = Vec::new();
    let mut index: usize = 0;
    while index < count
        invariant
            index <= count,
            index <= STEPPERS,
            count == steppers@.len(),
            hardware.device_readable,
            count >= 1 ==> hardware.elevation_lines,
            count >= 2 ==> hardware.azimuth_lines,
            runs@ == steppers_runs(steppers@.take(index as int)),
        decreases count - index,
    {
        let lines = match stepper_pins(index) {
            Some(lines) => lines,
            None => {
                return Err(MoveError::NoNextStepper);
            },
        };
        runs.push(StepperRun { lines, steps: steppers[index] });
        index = index + 1;
        assert(runs@ =~= steppers_runs(steppers@.take(index as int)));
    }
    assert(steppers@.take(count as int) =~= steppers@);
    Ok(runs)
}

/// Plans the move of each stepper by its count after checking the counts: a
/// count below one refuses the move before anything else is looked at.
pub fn custom_move(option: &Vec<usize>, hardware: &HardwareStatus) -> (result: Result<
    Vec<StepperRun>,
    MoveError,
>)
    ensures
        match result {
            Ok(runs) => custom_fault(option@, *hardware) is None && runs@ == steppers_runs(
                option@,
            ),
            Err(fault) => custom_fault(option@, *hardware) == Some(fault),
        },
{
    let count = option.len();
    let mut index: usize = 0;
    while index < count
        invariant
            index <= count,
            count == option@.len(),
            forall|k: int| 0 <= k < index ==> option@[k] >= 1,
        decreases count - index,
    {
        if option[index] < 1 {
            return Err(MoveError::StepsLessThanOne);
        }
        index = index + 1;
    }
    move_steppers(option, hardware)
}

} // verus!
