//! What the caller found when it reached for the motor hardware.
//!
//! The library never opens a GPIO line itself. Before a command is handled
//! the caller tries to read the device model and to take hold of the lines of
//! both motors, and reports what it got in a [`HardwareStatus`]. A move that
//! needs a part that is missing is refused as a whole, before any line is
//! touched.

use vstd::prelude::*;

verus! {

/// One of the two motors.
#[derive(Clone, Copy, Debug, PartialEq, Eq, Structural)]
pub enum Axis {
    Elevation,
    Azimuth,
}

/// The parts of the hardware that the caller could reach.
#[derive(Clone, Copy, Debug, PartialEq, Eq, Structural)]
pub struct HardwareStatus {
    /// The device model could be read.
    pub device_readable: bool,
    /// All four lines of the elevation motor are held.
    pub elevation_lines: bool,
    /// All four lines of the azimuth motor are held.
    pub azimuth_lines: bool,
}

/// Why a move was refused.
#[derive(Clone, Copy, Debug, PartialEq, Eq, Structural)]
pub enum HardwareError {
    /// The device model could not be read.
    DeviceUnreadable,
    /// A line of this motor could not be taken.
    LinesUnavailable(Axis),
}

impl HardwareStatus {
    /// The status of hardware that is fully there.
    pub fn ready() -> (status: HardwareStatus)
        ensures
            status == (HardwareStatus {
                device_readable: true,
                elevation_lines: true,
                azimuth_lines: true,
            }),
    {
        HardwareStatus { device_readable: true, elevation_lines: true, azimuth_lines: true }
    }
}

impl HardwareError {
    /// The line that tells the operator of the fault.
    pub open spec fn text(self) -> Seq<char> {
        match self {
            HardwareError::DeviceUnreadable => "device model unreadable"@,
            HardwareError::LinesUnavailable(Axis::Elevation) => "elevation lines unavailable"@,
            HardwareError::LinesUnavailable(Axis::Azimuth) => "azimuth lines unavailable"@,
        }
    }

    /// A line for the operator's log.
    pub fn describe(&self) -> (text: &'static str)
        ensures
            text@ == self.text(),
    {
        match self {
            HardwareError::DeviceUnreadable => "device model unreadable",
            HardwareError::LinesUnavailable(Axis::Elevation) => "elevation lines unavailable",
            HardwareError::LinesUnavailable(Axis::Azimuth) => "azimuth lines unavailable",
        }
    }
}

} // verus!
