use firmware_core::printer::components::g_code::commands::{
    axes_to_restore, fan_speed, fan_with_index, position_slot, SelectedFan, G90, G91, M82, M83,
};
use firmware_core::printer::components::g_code::execute::{
    GCodeCommand, GCodeExecuter, InvalidPositionSlot, PositionMode, Status, TickError,
};
use firmware_core::printer::components::g_code::parameters::identifier::{
    AnyWithoutSpaces, GCodeParameterIdentifier, E, F, P, S, X, Y, Z,
};
use firmware_core::printer::components::g_code::parameters::value::{GCodeParameterValue, NoValue};
use firmware_core::printer::components::g_code::parameters::Param;

#[test]
fn any_without_spaces_is_this() {
    assert_eq!(AnyWithoutSpaces::<(X, Y, Z)>::default().is_this("XY").unwrap(), 2);
    assert_eq!(AnyWithoutSpaces::<(X, Y, Z)>::default().is_this("AH"), Err(()));
    assert_eq!(AnyWithoutSpaces::<(X, Y, Z)>::default().is_this("Z").unwrap(), 1);
    assert_eq!(AnyWithoutSpaces::<(X, Y, Z)>::default().is_this("ZYX").unwrap(), 3);
    assert_eq!(AnyWithoutSpaces::<(X, Y, Z)>::default().is_this("ZYAHX").unwrap(), 3);
}

#[test]
fn any_without_spaces_presence() {
    let mut identifier = AnyWithoutSpaces::<(X, Y, Z)>::default();
    let _ = identifier.is_this("XY");
    assert!(identifier.is_identifier_present::<X>());
    assert!(identifier.is_identifier_present::<Y>());
    assert!(!identifier.is_identifier_present::<Z>());
    assert!(!identifier.is_identifier_present::<F>());
    assert!(identifier.is_any_present());

    let mut identifier = AnyWithoutSpaces::<(X, Y, Z)>::default();
    let _ = identifier.is_this("AH");
    assert!(!identifier.is_any_present());

    let mut identifier = AnyWithoutSpaces::<(X, Y, Z, E)>::default();
    let _ = identifier.is_this("E");
    assert!(identifier.is_identifier_present::<E>());
    assert!(!identifier.is_identifier_present::<X>());

    let mut single = AnyWithoutSpaces::<X>::default();
    assert_eq!(single.is_this("aXb"), Ok(1));
    assert!(single.is_identifier_present::<X>());
}

#[test]
fn letter_identifiers() {
    assert_eq!(X.is_this("X10"), Ok(1));
    assert_eq!(X.is_this("Y10"), Err(()));
    assert_eq!(F.is_this("F"), Ok(1));
    assert_eq!(E.is_this("e"), Err(()));
}

#[test]
fn bool_values() {
    assert_eq!(bool::from_str("1"), Ok(true));
    assert_eq!(bool::from_str("0"), Ok(false));
    assert_eq!(bool::from_str("HIGH"), Err(()));
    assert_eq!(bool::from_str("true"), Err(()));
    assert_eq!(NoValue::from_str("anything"), Ok(NoValue));
}

#[test]
fn integer_values() {
    assert_eq!(u8::from_str("255"), Ok(255));
    assert_eq!(u8::from_str("256"), Err(()));
    assert_eq!(u8::from_str("+7"), Ok(7));
    assert_eq!(u8::from_str("-0"), Err(()));
    assert_eq!(u8::from_str(""), Err(()));
    assert_eq!(u8::from_str("+"), Err(()));
    assert_eq!(u16::from_str("65535"), Ok(65535));
    assert_eq!(u32::from_str("4294967295"), Ok(u32::MAX));
    assert_eq!(u32::from_str("4294967296"), Err(()));
    assert_eq!(usize::from_str("0012"), Ok(12));
    assert_eq!(i8::from_str("-128"), Ok(-128));
    assert_eq!(i8::from_str("-129"), Err(()));
    assert_eq!(i16::from_str("-"), Err(()));
    assert_eq!(i32::from_str("-2147483648"), Ok(i32::MIN));
    assert_eq!(i32::from_str("12a"), Err(()));
    for text in ["0", "42", "+3", "-9", "300", "x", "1 ", "99999999999"] {
        assert_eq!(i32::from_str(text), text.parse::<i32>().map_err(|_| ()));
        assert_eq!(u16::from_str(text), text.parse::<u16>().map_err(|_| ()));
    }
}

#[test]
fn params() {
    let param: Param<X, u16> = Param::new(None, Some(3));
    assert_eq!(*param.value(), Some(3));
    assert_eq!(*param.identifier(), X);
    let no_value: Param<F, u8> = Param::new(Some(F), None);
    assert_eq!(*no_value.value(), None);
}

#[test]
fn save_and_get_positions() {
    let mut g_code_executer = GCodeExecuter::<G90, [i32; 4]>::default();
    assert!(g_code_executer.save_position([0; 4], 0).is_ok());
    assert!(g_code_executer.save_position([0; 4], 1000).is_err());
    assert_eq!(g_code_executer.get_saved_position(0), Ok([0; 4]));
    g_code_executer.save_position([30; 4], 0).unwrap();
    assert_eq!(g_code_executer.get_saved_position(0), Ok([30; 4]));
    assert_eq!(g_code_executer.get_saved_position(100000), Err(InvalidPositionSlot));
}

/// A command of the tests: it works for `prepare_ticks` calls of prepare, then for `execute_ticks`
/// calls of execute, or fails when `fail` is set.
struct Countdown {
    prepare_ticks: u32,
    execute_ticks: u32,
    fail: bool,
}

impl GCodeCommand<Vec<&'static str>, [i32; 4]> for Countdown {
    fn prepare(&mut self, log: &mut Vec<&'static str>, _: &mut GCodeExecuter<Self, [i32; 4]>) -> Status {
        log.push("prepare");
        if self.prepare_ticks == 0 {
            Status::Finished
        } else {
            self.prepare_ticks -= 1;
            Status::Working
        }
    }

    fn execute(&mut self, log: &mut Vec<&'static str>, _: &mut GCodeExecuter<Self, [i32; 4]>) -> Status {
        log.push("execute");
        if self.fail {
            Status::Error("failed".to_string())
        } else if self.execute_ticks == 0 {
            Status::Finished
        } else {
            self.execute_ticks -= 1;
            Status::Working
        }
    }
}

#[test]
fn executer_runs_commands_in_order() {
    let mut executer = GCodeExecuter::<Countdown, [i32; 4]>::default();
    assert!(!executer.has_command_to_execute());
    executer.add_commands_to_buffer(vec![
        Countdown { prepare_ticks: 0, execute_ticks: 1, fail: false },
        Countdown { prepare_ticks: 0, execute_ticks: 0, fail: false },
    ]);
    assert!(executer.has_command_to_execute());
    let mut log = Vec::new();
    executer.tick(&mut log).unwrap();
    assert_eq!(log, vec!["prepare", "execute", "prepare", "execute", "execute"]);
    assert!(!executer.has_command_to_execute());
}

#[test]
fn executer_reports_errors() {
    let mut executer = GCodeExecuter::<Countdown, [i32; 4]>::default();
    executer.add_command_to_buffer(Countdown { prepare_ticks: 0, execute_ticks: 0, fail: true });
    let mut log = Vec::new();
    assert!(matches!(executer.tick(&mut log), Err(TickError::ExecutingCommand { .. })));
    assert!(!executer.has_command_to_execute());
}

#[test]
fn executer_waits_for_preparation() {
    let mut executer = GCodeExecuter::<Countdown, [i32; 4]>::default();
    executer.add_command_to_buffer(Countdown { prepare_ticks: 1, execute_ticks: 0, fail: false });
    let mut log = Vec::new();
    executer.tick(&mut log).unwrap();
    assert_eq!(log, vec!["prepare"]);
    assert!(executer.has_command_to_execute());
    log.clear();
    executer.tick(&mut log).unwrap();
    assert_eq!(log, vec!["prepare", "execute"]);
    assert!(!executer.has_command_to_execute());
}

#[test]
fn position_mode_commands() {
    let mut executer = GCodeExecuter::<G90, [i32; 4]>::default();
    let mut components = ();
    assert_eq!(G91.prepare(&mut components, &mut GCodeExecuter::<G91, [i32; 4]>::default()), Status::Finished);
    executer.set_position_mode(PositionMode::Relative);
    executer.add_command_to_buffer(G90);
    executer.tick(&mut components).unwrap();
    assert!(!executer.has_command_to_execute());

    let mut extruder = GCodeExecuter::<M83, [i32; 4]>::default();
    assert_eq!(M83.execute(&mut components, &mut extruder), Status::Finished);
    let mut absolute = GCodeExecuter::<M82, [i32; 4]>::default();
    assert_eq!(M82.execute(&mut components, &mut absolute), Status::Finished);
}

#[test]
fn default_steps_of_commands_do_nothing() {
    let mut components = ();
    let mut executer = GCodeExecuter::<G90, [i32; 4]>::default();
    executer.set_position_mode(PositionMode::Relative);
    assert_eq!(G90.execute(&mut components, &mut executer), Status::Finished);
    assert!(!executer.has_command_to_execute());
    let mut extruder = GCodeExecuter::<M82, [i32; 4]>::default();
    assert_eq!(M82.prepare(&mut components, &mut extruder), Status::Finished);
    assert!(!extruder.has_command_to_execute());
}

#[test]
fn command_parameters_defaults() {
    assert_eq!(position_slot(&Param::<S, usize>::new(None, None)), 0);
    assert_eq!(position_slot(&Param::<S, usize>::new(None, Some(3))), 3);

    assert_eq!(fan_with_index(&Param::<P, u8>::new(None, None)), Ok(SelectedFan::LayerFan));
    assert_eq!(fan_with_index(&Param::<P, u8>::new(None, Some(0))), Ok(SelectedFan::LayerFan));
    assert_eq!(fan_with_index(&Param::<P, u8>::new(None, Some(1))), Ok(SelectedFan::HotendFan));
    assert_eq!(fan_with_index(&Param::<P, u8>::new(None, Some(2))), Err(2));

    assert_eq!(fan_speed(&Param::<S, u8>::new(None, None)), 255);
    assert_eq!(fan_speed(&Param::<S, u8>::new(None, Some(128))), 128);
    assert_eq!(fan_speed(&Param::<S, u8>::new(None, Some(0))), 0);
}

#[test]
fn restored_axes() {
    let none = AnyWithoutSpaces::<(X, Y, Z, E)>::default();
    assert_eq!(axes_to_restore(&Param::<_, NoValue>::new(Some(none), None)), (true, true, true, true));

    let mut some = AnyWithoutSpaces::<(X, Y, Z, E)>::default();
    let _ = some.is_this("XE");
    assert_eq!(axes_to_restore(&Param::<_, NoValue>::new(Some(some), None)), (true, false, false, true));

    let mut one = AnyWithoutSpaces::<(X, Y, Z, E)>::default();
    let _ = one.is_this("Z");
    assert_eq!(axes_to_restore(&Param::<_, NoValue>::new(Some(one), None)), (false, false, true, false));
}

/// A command of the tests whose preparation fails.
struct PreparationFails;

impl GCodeCommand<Vec<&'static str>, [i32; 4]> for PreparationFails {
    fn prepare(&mut self, log: &mut Vec<&'static str>, _: &mut GCodeExecuter<Self, [i32; 4]>) -> Status {
        log.push("prepare");
        Status::Error("can't prepare".to_string())
    }

    fn execute(&mut self, log: &mut Vec<&'static str>, _: &mut GCodeExecuter<Self, [i32; 4]>) -> Status {
        log.push("execute");
        Status::Finished
    }
}

#[test]
fn executer_stops_at_a_failed_preparation() {
    let mut executer = GCodeExecuter::<PreparationFails, [i32; 4]>::default();
    executer.add_commands_to_buffer(vec![PreparationFails, PreparationFails]);
    let mut log = Vec::new();
    assert!(matches!(
        executer.tick(&mut log),
        Err(TickError::PreparingCommand { error }) if error == "can't prepare"
    ));
    assert_eq!(log, vec!["prepare"]);
    assert_eq!(executer.commands_in_buffer_count(), 1);
}

#[test]
fn commands_in_buffer_are_counted() {
    let mut executer = GCodeExecuter::<Countdown, [i32; 4]>::default();
    assert_eq!(executer.commands_in_buffer_count(), 0);
    executer.add_commands_to_buffer(vec![
        Countdown { prepare_ticks: 0, execute_ticks: 3, fail: false },
        Countdown { prepare_ticks: 0, execute_ticks: 0, fail: false },
        Countdown { prepare_ticks: 2, execute_ticks: 0, fail: false },
    ]);
    assert_eq!(executer.commands_in_buffer_count(), 3);
    let mut log = Vec::new();
    executer.tick(&mut log).unwrap();
    // The first command is being executed, the second is prepared, the third waits to be prepared.
    assert_eq!(executer.commands_in_buffer_count(), 2);
}
