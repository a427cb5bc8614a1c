//! The BLTouch auto bed leveling sensor.
use vstd::prelude::*;

verus! {

/// A command executable by the BLTouch sensor.
#[derive(Clone, Copy, Debug, PartialEq, Eq, Structural)]
pub enum BLTouchCommand {
    /// Push pin down.
    Deploy,
    /// Pull pin up.
    Stow,
    /// Eventually exits from alarm mode and enters touch switch mode.
    AlarmReleaseAndSwMode,
    /// Do self test (pushes pin down and up a couple of times).
    SelfTest,
    ModeStore,
    V5Mode,
    OdMode,
    /// Eventually exits from alarm mode and pulls pin up.
    AlarmReleaseAndStow,
}

impl BLTouchCommand {
    /// The time, in milliseconds, that the sensor needs to execute the command, for the commands
    /// that need one.
    pub open spec fn spec_required_delay(self) -> Option<u32> {
        match self {
            BLTouchCommand::Deploy | BLTouchCommand::Stow => Some(750),
            BLTouchCommand::ModeStore | BLTouchCommand::V5Mode | BLTouchCommand::OdMode => Some(150),
            BLTouchCommand::AlarmReleaseAndStow => Some(500),
            BLTouchCommand::AlarmReleaseAndSwMode | BLTouchCommand::SelfTest => None,
        }
    }

    /// Returns the time, in milliseconds, that the sensor needs to execute the command, if it
    /// needs one.
    pub fn required_delay(&self) -> (delay: Option<u32>)
        ensures
            delay == self.spec_required_delay(),
    {
        match self {
            BLTouchCommand::Deploy => Some(750),
            BLTouchCommand::Stow => Some(750),
            BLTouchCommand::ModeStore => Some(150),
            BLTouchCommand::V5Mode => Some(150),
            BLTouchCommand::OdMode => Some(150),
            BLTouchCommand::AlarmReleaseAndStow => Some(500),
            _ => None,
        }
    }
}

} // verus!
