//! The dispatcher: takes a decoded command to the rotator and says what to
//! answer.
//!
//! A session is idle until the close command arrives; that command sends the
//! rotator home and ends the session. Every other command, known or not,
//! leaves the session idle. The dispatcher touches no line: the drives that
//! have to go out to the motors come back in the [`Reaction`], next to the
//! reply.
//!
//! A command that needs hardware which is not there is refused with a
//! [`HardwareError`]: the position on record stays as it was, there is no
//! reply for the client, and the session goes on with the next command. A
//! line that holds no command is answered, never refused.

use crate::angle::{angle_text, Angle};
use crate::hardware::{HardwareError, HardwareStatus};
use crate::message::Message;
use crate::rotator::Rotator;
use crate::sequencer::Drive;
use vstd::prelude::*;
use vstd::string::StringExecFns;

verus! {

/// Reply to a command that moved the motors.
pub const DONE: &'static str = "\n";

/// Reply to the close command: tells the network layer to end the session.
pub const QUIT: &'static str = "rotctld_quit";

/// Reply to a line that held no command.
pub const NOT_A_COMMAND: &'static str = "Not a command!\n";

/// Where a session stands.
#[derive(Clone, Copy, Debug, PartialEq, Eq, Structural)]
pub enum Session {
    /// Waiting for the next command.
    Idle,
    /// Closed: no further command is taken.
    Terminal,
}

/// What the caller has to do after a command: carry out the drives, in
/// order, then send the reply, then close the session if it is terminal.
#[derive(Debug, PartialEq, Eq)]
pub struct Reaction {
    pub reply: String,
    pub drives: Vec<Drive>,
    pub session: Session,
}

/// Action handler for one rotator.
///
/// The handler borrows the rotator for as long as it lives. Each of its
/// methods says what the rotator is when the method returns, and that the
/// handler still holds the same borrow: when the handler is dropped, the
/// rotator is what the last method left.
#[derive(Debug)]
pub struct ActionHandler<'a> {
    /// The rotator that the commands act on.
    pub rotator: &'a mut Rotator,
}

/// The reply to a position query: azimuth and elevation, one to a line.
pub open spec fn position_text(azimuth: Angle, elevation: Angle) -> Seq<char> {
    angle_text(azimuth.microdegrees as int) + seq!['\n'] + angle_text(
        elevation.microdegrees as int,
    ) + seq!['\n']
}

/// Whether `reaction` holds exactly this reply, these drives and this
/// session state.
pub open spec fn reacts(
    reaction: Reaction,
    reply: Seq<char>,
    drives: Seq<Drive>,
    session: Session,
) -> bool {
    reaction.reply@ == reply && reaction.drives@ == drives && reaction.session == session
}

/// Whether a position command for `azimuth` and `elevation` takes the
/// rotator from `before` to `after` with this result.
pub open spec fn position_set(
    before: Rotator,
    azimuth: Angle,
    elevation: Angle,
    hardware: HardwareStatus,
    result: Result<Reaction, HardwareError>,
    after: Rotator,
) -> bool {
    let aimed = before.with_target(azimuth, elevation);
    match result {
        Ok(reaction) => {
            &&& aimed.move_fault(hardware) is None
            &&& aimed.moved(after)
            &&& reacts(reaction, DONE@, aimed.move_drives(), Session::Idle)
        },
        Err(fault) => aimed.move_fault(hardware) == Some(fault) && after == aimed,
    }
}

/// Whether a step test of `steps` raw steps takes the rotator from `before`
/// to `after` with this result.
pub open spec fn steps_tested(
    before: Rotator,
    steps: i32,
    hardware: HardwareStatus,
    result: Result<Reaction, HardwareError>,
    after: Rotator,
) -> bool {
    let loaded = before.with_steps(steps);
    match result {
        Ok(reaction) => {
            &&& loaded.test_fault(hardware) is None
            &&& loaded.tested(after)
            &&& reacts(reaction, DONE@, loaded.test_drives(), Session::Idle)
        },
        Err(fault) => loaded.test_fault(hardware) == Some(fault) && after == loaded,
    }
}

/// Whether the close command takes the rotator from `before` to `after` with
/// this result.
pub open spec fn closed(
    before: Rotator,
    hardware: HardwareStatus,
    result: Result<Reaction, HardwareError>,
    after: Rotator,
) -> bool {
    let aimed = before.homeward();
    match result {
        Ok(reaction) => {
            &&& aimed.move_fault(hardware) is None
            &&& aimed.moved(after)
            &&& reacts(reaction, QUIT@, aimed.move_drives(), Session::Terminal)
        },
        Err(fault) => aimed.move_fault(hardware) == Some(fault) && after == aimed,
    }
}

/// Whether `message` takes the rotator from `before` to `after` with this
/// result.
pub open spec fn handled(
    before: Rotator,
    message: Message,
    hardware: HardwareStatus,
    result: Result<Reaction, HardwareError>,
    after: Rotator,
) -> bool {
    match message {
        Message::PSet(azimuth, elevation) => position_set(
            before,
            azimuth,
            elevation,
            hardware,
            result,
            after,
        ),
        Message::PGet => {
            &&& result matches Ok(reaction)
            &&& reacts(
                reaction,
                position_text(before.az, before.ele),
                Seq::empty(),
                Session::Idle,
            )
            &&& after == before
        },
        Message::StepTest(steps) => steps_tested(before, steps, hardware, result, after),
        Message::Close => closed(before, hardware, result, after),
        Message::NotACommand => {
            &&& result matches Ok(reaction)
            &&& reacts(reaction, NOT_A_COMMAND@, Seq::empty(), Session::Idle)
            &&& after == before
        },
    }
}

impl<'a> ActionHandler<'a> {
    /// An action handler for `rotator`.
    pub fn new(rotator: &'a mut Rotator) -> (handler: Self)
        ensures
            *handler.rotator == *old(rotator),
            *final(handler.rotator) == *final(rotator),
    {
        Self { rotator }
    }

    /// Sets the target of both axes and moves there.
    pub fn handle_p_set(&mut self, azimuth: Angle, elevation: Angle, hardware: &HardwareStatus) -> (result:
        Result<Reaction, HardwareError>)
        ensures
            position_set(
                *old(self).rotator,
                azimuth,
                elevation,
                *hardware,
                result,
                *final(self).rotator,
            ),
            result is Ok ==> final(self).rotator.az == azimuth && final(self).rotator.ele
                == elevation,
            *final(final(self).rotator) == *final(old(self).rotator),
    {
        match self.rotator.set_target(azimuth, elevation, hardware) {
            Ok(drives) => Ok(
                Reaction { reply: String::from_str(DONE), drives, session: Session::Idle },
            ),
            Err(fault) => Err(fault),
        }
    }

    /// The azimuth and the elevation on record, one to a line.
    pub fn handle_p_get(&self) -> (reply: String)
        ensures
            reply@ == position_text(old(self.rotator).az, old(self.rotator).ele),
    {
        proof {
            reveal_strlit("\n");
        }
        let mut reply = self.rotator.az.to_text();
        reply.append("\n");
        let elevation = self.rotator.ele.to_text();
        reply.append(elevation.as_str());
        reply.append("\n");
        assert(reply@ =~= position_text(self.rotator.az, self.rotator.ele));
        reply
    }

    /// Runs the step test with `quick_rot_steps` raw steps.
    pub fn handle_step_test(&mut self, quick_rot_steps: i32, hardware: &HardwareStatus) -> (result:
        Result<Reaction, HardwareError>)
        ensures
            steps_tested(
                *old(self).rotator,
                quick_rot_steps,
                *hardware,
                result,
                *final(self).rotator,
            ),
            *final(final(self).rotator) == *final(old(self).rotator),
    {
        match self.rotator.step_test(quick_rot_steps, hardware) {
            Ok(drives) => Ok(
                Reaction { reply: String::from_str(DONE), drives, session: Session::Idle },
            ),
            Err(fault) => Err(fault),
        }
    }

    /// Sends the rotator home and ends the session. Where the way home needs
    /// hardware that is not there the close is refused and the session stays
    /// as it is.
    pub fn close_connection(&mut self, hardware: &HardwareStatus) -> (result: Result<
        Reaction,
        HardwareError,
    >)
        ensures
            closed(*old(self).rotator, *hardware, result, *final(self).rotator),
            result is Ok ==> final(self).rotator.at_home(),
            *final(final(self).rotator) == *final(old(self).rotator),
    {
        match self.rotator.zero(hardware) {
            Ok(drives) => Ok(
                Reaction { reply: String::from_str(QUIT), drives, session: Session::Terminal },
            ),
            Err(fault) => Err(fault),
        }
    }

    /// Acts on one decoded command.
    pub fn handle_message(&mut self, msg: Message, hardware: &HardwareStatus) -> (result: Result<
        Reaction,
        HardwareError,
    >)
        ensures
            handled(*old(self).rotator, msg, *hardware, result, *final(self).rotator),
            *final(final(self).rotator) == *final(old(self).rotator),
    {
        match msg {
            Message::PSet(az, ele) => self.handle_p_set(az, ele, hardware),
            Message::PGet => Ok(
                Reaction {
                    reply: self.handle_p_get(),
                    drives: Vec::new(),
                    session: Session::Idle,
                },
            ),
            Message::StepTest(steps) => self.handle_step_test(steps, hardware),
            Message::Close => self.close_connection(hardware),
            Message::NotACommand => Ok(
                Reaction {
                    reply: String::from_str(NOT_A_COMMAND),
                    drives: Vec::new(),
                    session: Session::Idle,
                },
            ),
        }
    }
}

/// A position command that went through is what the next position query
/// reports: the reply holds exactly the azimuth and the elevation that were
/// set.
pub proof fn lemma_set_then_get(
    before: Rotator,
    azimuth: Angle,
    elevation: Angle,
    hardware: HardwareStatus,
    set: Result<Reaction, HardwareError>,
    between: Rotator,
    get: Result<Reaction, HardwareError>,
    after: Rotator,
)
    requires
        handled(before, Message::PSet(azimuth, elevation), hardware, set, between),
        set is Ok,
        handled(between, Message::PGet, hardware, get, after),
    ensures
        get is Ok,
        get->Ok_0.reply@ == position_text(azimuth, elevation),
        after.az == azimuth,
        after.ele == elevation,
{
}

/// A step test leaves the angles on record as they were, whatever the
/// hardware said.
pub proof fn lemma_step_test_keeps_position(
    before: Rotator,
    steps: i32,
    hardware: HardwareStatus,
    result: Result<Reaction, HardwareError>,
    after: Rotator,
)
    requires
        handled(before, Message::StepTest(steps), hardware, result, after),
    ensures
        after.az == before.az,
        after.ele == before.ele,
{
}

/// A close command that went through leaves the rotator on record at the
/// home position and the session terminal.
pub proof fn lemma_close_goes_home(
    before: Rotator,
    hardware: HardwareStatus,
    result: Result<Reaction, HardwareError>,
    after: Rotator,
)
    requires
        handled(before, Message::Close, hardware, result, after),
        result is Ok,
    ensures
        after.at_home(),
        result->Ok_0.session == Session::Terminal,
{
}

/// Only the close command ends a session.
pub proof fn lemma_only_close_ends_session(
    before: Rotator,
    message: Message,
    hardware: HardwareStatus,
    result: Result<Reaction, HardwareError>,
    after: Rotator,
)
    requires
        handled(before, message, hardware, result, after),
        result is Ok,
    ensures
        result->Ok_0.session == Session::Terminal <==> message == Message::Close,
{
}

} // verus!
