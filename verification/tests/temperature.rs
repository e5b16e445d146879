use power_states::temperature::{temperature_from_raw, Nrf5xTempStore, Temp, TempCommand};
use power_states::ErrorCode;

#[test]
fn new_sensor_is_off() {
    let t = Temp::new();
    assert_eq!(t.current_state(), Some(Nrf5xTempStore::Off));
}

#[test]
fn reading_starts_a_measurement() {
    let mut t = Temp::new();
    let (r, cmds) = t.read_temperature();
    assert_eq!(r, Ok(()));
    assert_eq!(
        cmds,
        vec![TempCommand::EnableInterrupt, TempCommand::ClearDataReady, TempCommand::StartMeasurement]
    );
    assert_eq!(t.current_state(), Some(Nrf5xTempStore::Reading));
}

#[test]
fn reading_twice_is_already() {
    let mut t = Temp::new();
    let _ = t.read_temperature();
    let (r, cmds) = t.read_temperature();
    assert_eq!(r, Err(ErrorCode::ALREADY));
    assert!(cmds.is_empty());
    assert_eq!(t.current_state(), Some(Nrf5xTempStore::Reading));
}

#[test]
fn interrupt_finishes_the_measurement() {
    let mut t = Temp::new();
    let _ = t.read_temperature();
    let cmds = t.handle_interrupt();
    assert_eq!(
        cmds,
        vec![
            TempCommand::DisableInterrupt,
            TempCommand::ReadTemperature,
            TempCommand::StopMeasurement,
            TempCommand::ReportTemperature,
        ]
    );
    assert_eq!(t.current_state(), Some(Nrf5xTempStore::Off));
    // A second interrupt does nothing.
    assert!(t.handle_interrupt().is_empty());
    assert_eq!(t.current_state(), Some(Nrf5xTempStore::Off));
}

#[test]
fn interrupt_while_off_does_nothing() {
    let mut t = Temp::new();
    assert!(t.handle_interrupt().is_empty());
    assert_eq!(t.current_state(), Some(Nrf5xTempStore::Off));
}

#[test]
fn temperature_is_in_hundredths_of_a_degree() {
    // The register counts quarter degrees.
    assert_eq!(temperature_from_raw(0), 0);
    assert_eq!(temperature_from_raw(1), 25);
    assert_eq!(temperature_from_raw(100), 2500);
    assert_eq!(temperature_from_raw(93), 2325);
    // Two's complement: -16 quarter degrees is -4 degrees.
    assert_eq!(temperature_from_raw((-16i32) as u32), -400);
    assert_eq!(temperature_from_raw((-1i32) as u32), -25);
}
