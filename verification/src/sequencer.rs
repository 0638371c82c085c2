//! The coil sequencer: turns a step count and a direction into the ordered
//! phase vectors that a four-line unipolar stepper expects.
//!
//! The sequencer knows nothing of angles or commands. It keeps one number, the
//! index of the phase that was energized last, and walks the fixed phase table
//! from there: up for a forward step, down for a backward step, wrapping at
//! both ends.
//!
//! A drive is handed out as a [`Drive`], which yields its signals one at a
//! time. Whoever owns the lines takes a signal, applies it, waits for its
//! dwell time and asks for the next, until the drive has nothing left. A long
//! drive therefore costs no more memory than a short one.

use vstd::prelude::*;

verus! {

/// Number of entries in the phase table.
pub const PHASE_COUNT: usize = 4;

/// Milliseconds for which each phase is held before the next one is applied.
pub const DWELL_MS: u64 = 2;

/// The full-step sequence, one row per phase, one column per line in the
/// order A, B, A', B'. The rows must stay in this order: the motor follows
/// the field only if neighbouring rows are applied one after the other.
pub const PHASE_TABLE: [[bool; 4]; 4] = [
    [true, false, false, true],
    [true, true, false, false],
    [false, true, true, false],
    [false, false, true, true],
];

/// The row that switches every coil off.
pub const ALL_OFF: [bool; 4] = [false, false, false, false];

/// The way a motor turns.
#[derive(Clone, Copy, Debug, PartialEq, Eq, Structural)]
pub enum StepDirection {
    Forward,
    Backward,
}

/// One write to the four lines of a motor: the level of each line, and how
/// long the levels are held before the next signal may follow.
#[derive(Clone, Copy, Debug, PartialEq, Eq)]
pub struct Signal {
    /// The four line identifiers, in the order A, B, A', B'.
    pub lines: [u8; 4],
    /// The level of each line, `true` for energized.
    pub levels: [bool; 4],
    /// Milliseconds to wait after the levels are applied.
    pub dwell_ms: u64,
}

/// The direction that a signed step count asks for.
pub open spec fn direction_of(steps: int) -> StepDirection {
    if steps >= 0 {
        StepDirection::Forward
    } else {
        StepDirection::Backward
    }
}

/// The phase index reached from `start` after `steps` steps in `direction`.
pub open spec fn phase_after(start: int, steps: int, direction: StepDirection) -> int {
    match direction {
        StepDirection::Forward => (start + steps) % (PHASE_COUNT as int),
        StepDirection::Backward => (start - steps) % (PHASE_COUNT as int),
    }
}

/// The signal of step number `k` (counted from 1) of a drive that starts at
/// phase index `start`.
pub open spec fn step_signal(start: int, k: int, direction: StepDirection, lines: [u8; 4]) -> Signal {
    Signal { lines, levels: PHASE_TABLE[phase_after(start, k, direction)], dwell_ms: DWELL_MS }
}

/// The signal that de-energizes all four lines.
pub open spec fn release_signal(lines: [u8; 4]) -> Signal {
    Signal { lines, levels: ALL_OFF, dwell_ms: 0 }
}

/// Everything a drive of `step_count` steps puts on the lines: one signal per
/// step, then the release.
pub open spec fn drive_signals(
    start: int,
    step_count: nat,
    direction: StepDirection,
    lines: [u8; 4],
) -> Seq<Signal> {
    Seq::new(
        step_count + 1,
        |i: int|
            if i < step_count {
                step_signal(start, i + 1, direction, lines)
            } else {
                release_signal(lines)
            },
    )
}

/// The sequencer of one motor.
#[derive(Clone, Copy, Debug, PartialEq, Eq)]
pub struct CoilSequencer {
    phase: usize,
}

/// One drive of a motor: a number of steps in one direction, then the
/// release. The value holds what is still to come and shrinks as signals are
/// taken from it.
#[derive(Clone, Copy, Debug, PartialEq, Eq)]
pub struct Drive {
    /// The four line identifiers, in the order A, B, A', B'.
    pub lines: [u8; 4],
    /// The way the motor turns.
    pub direction: StepDirection,
    /// The sequencer as it stands after the signals taken so far.
    pub sequencer: CoilSequencer,
    /// Steps that are still to come.
    pub remaining: u64,
    /// Whether the release has been taken.
    pub released: bool,
}

impl CoilSequencer {
    #[verifier::type_invariant]
    spec fn phase_in_table(self) -> bool {
        self.phase < PHASE_COUNT
    }

    /// Index into the phase table of the phase that was energized last.
    pub closed spec fn phase_index(self) -> int {
        self.phase as int
    }

    /// A sequencer at rest on the last row of the table, so that its first
    /// forward step energizes the first row.
    pub fn new() -> (sequencer: CoilSequencer)
        ensures
            sequencer.phase_index() == PHASE_COUNT - 1,
    {
        CoilSequencer { phase: PHASE_COUNT - 1 }
    }

    /// Index into the phase table of the phase that was energized last.
    pub fn phase(&self) -> (index: usize)
        ensures
            index == self.phase_index(),
            index < PHASE_COUNT,
    {
        proof {
            use_type_invariant(self);
        }
        self.phase
    }

    /// Advances by one step and returns the phase vector to apply.
    pub fn step(&mut self, direction: StepDirection, lines: [u8; 4]) -> (signal: Signal)
        ensures
            final(self).phase_index() == phase_after(old(self).phase_index(), 1, direction),
            signal == step_signal(old(self).phase_index(), 1, direction, lines),
    {
        proof {
            use_type_invariant(&*self);
        }
        let next: usize = match direction {
            StepDirection::Forward => (self.phase + 1) % PHASE_COUNT,
            StepDirection::Backward => (self.phase + (PHASE_COUNT - 1)) % PHASE_COUNT,
        };
        self.phase = next;
        Signal { lines, levels: PHASE_TABLE[next], dwell_ms: DWELL_MS }
    }

    /// The signal that switches all four lines off.
    pub fn release(lines: [u8; 4]) -> (signal: Signal)
        ensures
            signal == release_signal(lines),
    {
        Signal { lines, levels: ALL_OFF, dwell_ms: 0 }
    }

    /// Starts a drive of `step_count` steps in `direction` on `lines`.
    ///
    /// The sequencer moves on to the phase index that it has when the drive
    /// is done. The drive that comes back starts from where the sequencer
    /// stood: each of its steps applies the neighbouring row of the phase
    /// table and holds it for [`DWELL_MS`], and when the count is used up the
    /// lines are released, so the last signal of every drive switches all
    /// coils off.
    pub fn drive(&mut self, step_count: u64, direction: StepDirection, lines: [u8; 4]) -> (drive:
        Drive)
        ensures
            drive == (Drive {
                lines,
                direction,
                sequencer: *old(self),
                remaining: step_count,
                released: false,
            }),
            final(self).phase_index() == phase_after(
                old(self).phase_index(),
                step_count as int,
                direction,
            ),
    {
        proof {
            use_type_invariant(&*self);
        }
        let drive = Drive {
            lines,
            direction,
            sequencer: *self,
            remaining: step_count,
            released: false,
        };
        let turn: usize = (step_count % 4) as usize;
        let next: usize = match direction {
            StepDirection::Forward => (self.phase + turn) % PHASE_COUNT,
            StepDirection::Backward => (self.phase + (PHASE_COUNT - turn)) % PHASE_COUNT,
        };
        self.phase = next;
        drive
    }
}

impl Drive {
    /// Everything that the drive has still to put on the lines, in order.
    pub open spec fn signals(self) -> Seq<Signal> {
        if self.released {
            Seq::empty()
        } else {
            drive_signals(
                self.sequencer.phase_index(),
                self.remaining as nat,
                self.direction,
                self.lines,
            )
        }
    }

    /// Takes the next signal of the drive, or `None` once the release has
    /// been taken.
    pub fn next_signal(&mut self) -> (signal: Option<Signal>)
        ensures
            match signal {
                Some(next) => {
                    &&& old(self).signals().len() > 0
                    &&& next == old(self).signals()[0]
                    &&& final(self).signals() == old(self).signals().skip(1)
                    &&& final(self).lines == old(self).lines
                    &&& final(self).direction == old(self).direction
                },
                None => old(self).signals().len() == 0 && *final(self) == *old(self),
            },
    {
        if self.released {
            None
        } else if self.remaining == 0 {
            self.released = true;
            assert(self.signals() =~= old(self).signals().skip(1));
            Some(CoilSequencer::release(self.lines))
        } else {
            let ghost start = self.sequencer.phase_index();
            let in_table = self.sequencer.phase();
            let signal = self.sequencer.step(self.direction, self.lines);
            self.remaining = self.remaining - 1;
            assert(self.signals() =~= old(self).signals().skip(1)) by {
                let rest = old(self).signals().skip(1);
                assert(self.signals().len() == rest.len());
                assert forall|i: int| 0 <= i < rest.len() implies self.signals()[i] == rest[i] by {
                    assert(rest[i] == old(self).signals()[i + 1]);
                    assert(phase_after(self.sequencer.phase_index(), i + 1, self.direction)
                        == phase_after(start, i + 2, self.direction));
                }
            }
            Some(signal)
        }
    }
}

/// Every drive ends with the release: whatever the count and the direction,
/// the last signal switches all four lines off.
pub proof fn lemma_drive_ends_released(
    start: int,
    step_count: nat,
    direction: StepDirection,
    lines: [u8; 4],
)
    ensures
        drive_signals(start, step_count, direction, lines).len() == step_count + 1,
        drive_signals(start, step_count, direction, lines).last() == release_signal(lines),
{
}

/// A sequencer holds nothing but its phase index.
pub proof fn lemma_same_phase_same_sequencer(a: CoilSequencer, b: CoilSequencer)
    requires
        a.phase_index() == b.phase_index(),
    ensures
        a == b,
{
}

/// Driving `n` steps forward and then `n` steps backward brings the phase
/// index back to where it started.
pub proof fn lemma_forward_then_backward(start: int, n: nat)
    requires
        0 <= start < PHASE_COUNT,
    ensures
        phase_after(
            phase_after(start, n as int, StepDirection::Forward),
            n as int,
            StepDirection::Backward,
        ) == start,
{
}

/// Driving `n` steps backward and then `n` steps forward brings the phase
/// index back to where it started.
pub proof fn lemma_backward_then_forward(start: int, n: nat)
    requires
        0 <= start < PHASE_COUNT,
    ensures
        phase_after(
            phase_after(start, n as int, StepDirection::Backward),
            n as int,
            StepDirection::Forward,
        ) == start,
{
}

} // verus!
