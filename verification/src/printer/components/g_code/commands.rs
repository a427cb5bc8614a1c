//! A list of all the G-code commands supported by this firmware.
//!
//! Check the [`RepRap documentation`] for informations on what each command does.
//!
//! [`RepRap documentation`]: <https://reprap.org/wiki/G-code>
use vstd::prelude::*;

use super::execute::{GCodeCommand, GCodeExecuter, PositionMode, Status};
use super::parameters::identifier;
use super::parameters::identifier::{
    spec_is_present, AnyWithoutSpaces, GCodeParameterIdentifierLetter, IdentifierInGroup,
};
use super::parameters::value::NoValue;
use super::parameters::Param;

verus! {

/// The slot of the saved positions used by [`G60`] and G61 when they don't give one.
pub const DEFAULT_MEMORY_SLOT: usize = 0;

/// The index of the fan used by [`M106`] and [`M107`] when they don't give one.
pub const DEFAULT_FAN_INDEX: u8 = 0;

/// The speed of a fan turned on by [`M106`] when it doesn't give one: the full speed.
pub const DEFAULT_FAN_SPEED: u8 = 255;

/// The slot of the saved positions given by the `S` parameter of [`G60`] and G61, or
/// [`DEFAULT_MEMORY_SLOT`] when it has no value.
pub fn position_slot(slot: &Param<identifier::S, usize>) -> (index: usize)
    ensures
        index == match slot.spec_value() {
            Some(value) => value,
            None => DEFAULT_MEMORY_SLOT,
        },
{
    slot.value().unwrap_or(DEFAULT_MEMORY_SLOT)
}

/// The letters of the axes that G61 can restore, in the order X, Y, Z, E.
pub open spec fn spec_axes_letters() -> Seq<u8> {
    <(identifier::X, identifier::Y, identifier::Z, identifier::E) as IdentifierInGroup>::spec_letters()
}

/// Whether G61 restores each axis (X, Y, Z, E) of the saved position: the axes whose letter is
/// present in its `axes` parameter, or all of them when none is present.
pub fn axes_to_restore(
    axes: &Param<AnyWithoutSpaces<(identifier::X, identifier::Y, identifier::Z, identifier::E)>, NoValue>,
) -> (restored: (bool, bool, bool, bool))
    ensures
        ({
            let mask = axes.spec_identifier()@;
            if mask == 0 {
                restored == (true, true, true, true)
            } else {
                restored == (
                    spec_is_present(spec_axes_letters(), identifier::X::LETTER, mask),
                    spec_is_present(spec_axes_letters(), identifier::Y::LETTER, mask),
                    spec_is_present(spec_axes_letters(), identifier::Z::LETTER, mask),
                    spec_is_present(spec_axes_letters(), identifier::E::LETTER, mask),
                )
            }
        }),
{
    let group = axes.identifier();
    if group.is_any_present() {
        (
            group.is_identifier_present::<identifier::X>(),
            group.is_identifier_present::<identifier::Y>(),
            group.is_identifier_present::<identifier::Z>(),
            group.is_identifier_present::<identifier::E>(),
        )
    } else {
        (true, true, true, true)
    }
}

/// The fans that [`M106`] and [`M107`] can control.
#[derive(Clone, Copy, Debug, PartialEq, Eq, Structural)]
pub enum SelectedFan {
    /// The fan with index 0, which cools the layer being printed.
    LayerFan,
    /// The fan with index 1, which cools the hotend.
    HotendFan,
}

/// The fan with the index given by the `P` parameter of [`M106`] and [`M107`]
/// ([`DEFAULT_FAN_INDEX`] when it has no value), or `Err` with that index when this firmware has
/// no fan with it.
pub fn fan_with_index(fan_index: &Param<identifier::P, u8>) -> (fan: Result<SelectedFan, u8>)
    ensures
        ({
            let index = match fan_index.spec_value() {
                Some(value) => value,
                None => DEFAULT_FAN_INDEX,
            };
            fan == if index == 0 {
                Ok::<SelectedFan, u8>(SelectedFan::LayerFan)
            } else if index == 1 {
                Ok(SelectedFan::HotendFan)
            } else {
                Err(index)
            }
        }),
{
    let index = fan_index.value().unwrap_or(DEFAULT_FAN_INDEX);
    if index == 0 {
        Ok(SelectedFan::LayerFan)
    } else if index == 1 {
        Ok(SelectedFan::HotendFan)
    } else {
        Err(index)
    }
}

/// The speed given by the `S` parameter of [`M106`], from 0 (off) to 255 (full speed), or
/// [`DEFAULT_FAN_SPEED`] when it has no value.
pub fn fan_speed(speed_param: &Param<identifier::S, u8>) -> (speed: u8)
    ensures
        speed == match speed_param.spec_value() {
            Some(value) => value,
            None => DEFAULT_FAN_SPEED,
        },
{
    speed_param.value().unwrap_or(DEFAULT_FAN_SPEED)
}

/// Use inches as the unit of the distances.
#[derive(Clone, Copy, Debug, PartialEq)]
pub struct G20;

/// Use millimeters as the unit of the distances.
#[derive(Clone, Copy, Debug, PartialEq)]
pub struct G21;

/// Move to the origin (home) the axes present (all of them when none is present).
#[derive(Clone, Copy, Debug, PartialEq)]
pub struct G28 {
    pub x: Param<identifier::X, NoValue>,
    pub y: Param<identifier::Y, NoValue>,
    pub z: Param<identifier::Z, NoValue>,
}

/// Save the current position in the memory slot.
#[derive(Clone, Copy, Debug, PartialEq)]
pub struct G60 {
    pub slot: Param<identifier::S, usize>,
}

/// Use absolute coordinates for the positions of the moves and of the extruder.
#[derive(Clone, Copy, Debug, PartialEq)]
pub struct G90;

impl<Components, Position: Copy> GCodeCommand<Components, Position> for G90 {
    fn prepare(&mut self, printer_components: &mut Components, g_code_executer: &mut GCodeExecuter<Self, Position>) -> (status: Status)
        ensures
            final(g_code_executer).spec_position_mode() == PositionMode::Absolute,
            final(g_code_executer).spec_extruder_position_mode() == PositionMode::Absolute,
            status is Finished,
    {
        g_code_executer.set_position_mode(PositionMode::Absolute);
        Status::Finished
    }
}

/// Use coordinates relative to the end of the last move for the positions of the moves and of the
/// extruder.
#[derive(Clone, Copy, Debug, PartialEq)]
pub struct G91;

impl<Components, Position: Copy> GCodeCommand<Components, Position> for G91 {
    fn prepare(&mut self, printer_components: &mut Components, g_code_executer: &mut GCodeExecuter<Self, Position>) -> (status: Status)
        ensures
            final(g_code_executer).spec_position_mode() == PositionMode::Relative,
            final(g_code_executer).spec_extruder_position_mode() == PositionMode::Relative,
            status is Finished,
    {
        g_code_executer.set_position_mode(PositionMode::Relative);
        Status::Finished
    }
}

/// Use absolute coordinates for the positions of the extruder.
#[derive(Clone, Copy, Debug, PartialEq)]
pub struct M82;

impl<Components, Position: Copy> GCodeCommand<Components, Position> for M82 {
    fn execute(&mut self, printer_components: &mut Components, g_code_executer: &mut GCodeExecuter<Self, Position>) -> (status: Status)
        ensures
            final(g_code_executer).spec_position_mode() == old(g_code_executer).spec_position_mode(),
            final(g_code_executer).spec_extruder_position_mode() == PositionMode::Absolute,
            status is Finished,
    {
        g_code_executer.set_extruder_position_mode(PositionMode::Absolute);
        Status::Finished
    }
}

/// Use coordinates relative to the end of the last move for the positions of the extruder.
#[derive(Clone, Copy, Debug, PartialEq)]
pub struct M83;

impl<Components, Position: Copy> GCodeCommand<Components, Position> for M83 {
    fn execute(&mut self, printer_components: &mut Components, g_code_executer: &mut GCodeExecuter<Self, Position>) -> (status: Status)
        ensures
            final(g_code_executer).spec_position_mode() == old(g_code_executer).spec_position_mode(),
            final(g_code_executer).spec_extruder_position_mode() == PositionMode::Relative,
            status is Finished,
    {
        g_code_executer.set_extruder_position_mode(PositionMode::Relative);
        Status::Finished
    }
}

/// Set the target temperature of the hotend.
#[derive(Clone, Copy, Debug, PartialEq)]
pub struct M104 {
    pub target_temperature: Param<identifier::S, u16>,
}

/// Set the target temperature of the hotend and wait for it to be reached.
#[derive(Clone, Copy, Debug, PartialEq)]
pub struct M109 {
    pub target_temperature_heating: Param<identifier::S, u16>,
    pub target_temperature_cooling_and_heating: Param<identifier::R, u16>,
}

/// Set the target temperature of the heated bed.
#[derive(Clone, Copy, Debug, PartialEq)]
pub struct M140 {
    pub target_temperature: Param<identifier::S, u16>,
}

/// Set the target temperature of the heated bed and wait for it to be reached.
#[derive(Clone, Copy, Debug, PartialEq)]
pub struct M190 {
    pub target_temperature_heating: Param<identifier::S, u16>,
    pub target_temperature_cooling_and_heating: Param<identifier::R, u16>,
}

/// Turn on a fan, at the provided speed.
#[derive(Clone, Copy, Debug, PartialEq)]
pub struct M106 {
    pub fan_index: Param<identifier::P, u8>,
    pub fan_speed: Param<identifier::S, u8>,
}

/// Turn off a fan.
#[derive(Clone, Copy, Debug, PartialEq)]
pub struct M107 {
    pub fan_index: Param<identifier::P, u8>,
}

} // verus!
