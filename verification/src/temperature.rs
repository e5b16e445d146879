use vstd::prelude::*;
use crate::error_code::ErrorCode;
use crate::power_manager::{Peripheral, State, StateEnum, Store};

verus! {

/// The power states of the nRF5x temperature sensor: `Off => [Reading]`,
/// `Reading => [Off]`.
#[derive(Clone, Copy, Debug, PartialEq, Eq, Structural)]
pub enum Nrf5xTempStore {
    Off,
    Reading,
}

/// The temperature sensor as a peripheral of the power manager.
pub struct Nrf5xTempPeripheral;

impl Store for Nrf5xTempStore {}

impl StateEnum for Nrf5xTempStore {
    fn copy_store(&self) -> (r: Self) {
        *self
    }
}

impl Peripheral for Nrf5xTempPeripheral {
    type StateEnum = Nrf5xTempStore;
}

/// A temperature-sensor state names exactly one stored state.
impl State for Nrf5xTempStore {
    type StateEnum = Nrf5xTempStore;

    open spec fn admits(&self, s: Nrf5xTempStore) -> bool {
        *self == s
    }

    fn try_from_store(&self, s: Nrf5xTempStore) -> (r: Result<Nrf5xTempStore, (ErrorCode, Nrf5xTempStore)>) {
        if *self == s {
            Ok(s)
        } else {
            Err((ErrorCode::INVAL, s))
        }
    }
}

/// The steps the temperature driver asks of the sensor's registers and of its
/// client, in the order they are to be carried out.
#[derive(Clone, Copy, Debug, PartialEq, Eq, Structural)]
pub enum TempCommand {
    /// Write `DATARDY` to `INTENSET`.
    EnableInterrupt,
    /// Write `DATARDY` to `INTENCLR`.
    DisableInterrupt,
    /// Clear `EVENTS_DATARDY`.
    ClearDataReady,
    /// Trigger `TASKS_START` (the sensor enters `Reading`).
    StartMeasurement,
    /// Read the `TEMP` register.
    ReadTemperature,
    /// Trigger `TASKS_STOP` (the sensor enters `Off`).
    StopMeasurement,
    /// Hand the temperature read last, converted by `temperature_from_raw`,
    /// to the client, if one is set.
    ReportTemperature,
}

/// The `TEMP` register's value in hundredths of a degree Celsius: the register
/// holds a two's-complement count of quarter degrees.
pub open spec fn spec_temperature_from_raw(raw: u32) -> int {
    (raw as i32) * 25
}

/// Converts a `TEMP` register value to hundredths of a degree Celsius,
/// as `(raw as i32 * 100) / 4`.
pub fn temperature_from_raw(raw: u32) -> (t: i32)
    requires
        i32::MIN <= (raw as i32) * 100 <= i32::MAX,
    ensures
        t == spec_temperature_from_raw(raw),
{
    let quarter_degrees: i32 = raw as i32;
    let scaled: i32 = quarter_degrees * 100;
    let t: i32 = scaled / 4;
    assert(t == quarter_degrees * 25) by (nonlinear_arith)
        requires
            scaled == quarter_degrees * 100,
            t == scaled / 4,
    ;
    t
}

/// What handling the interrupt does to the stored state, and the steps it
/// asks for: a measurement in progress is finished (interrupt disabled, value
/// read, sensor stopped, value reported) and the sensor is off again;
/// otherwise nothing happens.
pub open spec fn spec_handle_interrupt(state: Option<Nrf5xTempStore>) -> (Option<Nrf5xTempStore>, Seq<TempCommand>) {
    match state {
        Some(Nrf5xTempStore::Reading) => (
            Some(Nrf5xTempStore::Off),
            seq![
                TempCommand::DisableInterrupt,
                TempCommand::ReadTemperature,
                TempCommand::StopMeasurement,
                TempCommand::ReportTemperature,
            ],
        ),
        _ => (state, Seq::empty()),
    }
}

/// What starting a measurement answers, does to the stored state, and asks
/// for: from `Off` the interrupt is enabled, the ready event cleared and the
/// measurement started; a measurement already running gives `ALREADY`; a
/// taken state gives `BUSY`.
pub open spec fn spec_read_temperature(state: Option<Nrf5xTempStore>) -> (Result<(), ErrorCode>, Option<Nrf5xTempStore>, Seq<TempCommand>) {
    match state {
        Some(Nrf5xTempStore::Off) => (
            Ok(()),
            Some(Nrf5xTempStore::Reading),
            seq![TempCommand::EnableInterrupt, TempCommand::ClearDataReady, TempCommand::StartMeasurement],
        ),
        Some(Nrf5xTempStore::Reading) => (Err(ErrorCode::ALREADY), state, Seq::empty()),
        None => (Err(ErrorCode::BUSY), None, Seq::empty()),
    }
}

/// A measurement started from `Off` ends, at the next interrupt, with the
/// sensor off again and the value reported; a second interrupt then does
/// nothing.
pub proof fn lemma_measurement_round_trip()
    ensures
        spec_read_temperature(Some(Nrf5xTempStore::Off)).1 == Some(Nrf5xTempStore::Reading),
        spec_handle_interrupt(spec_read_temperature(Some(Nrf5xTempStore::Off)).1).0 == Some(Nrf5xTempStore::Off),
        spec_handle_interrupt(spec_read_temperature(Some(Nrf5xTempStore::Off)).1).1.last() == TempCommand::ReportTemperature,
        spec_handle_interrupt(spec_handle_interrupt(Some(Nrf5xTempStore::Reading)).0).1 == Seq::<TempCommand>::empty(),
{
}

/// Neither operation ever empties a stored state or fills an empty one, and
/// a refused measurement request changes nothing.
pub proof fn lemma_temp_state_kept(state: Option<Nrf5xTempStore>)
    ensures
        spec_handle_interrupt(state).0 is Some == state is Some,
        spec_read_temperature(state).1 is Some == state is Some,
        spec_read_temperature(state).0 is Err ==> spec_read_temperature(state).1 == state
            && spec_read_temperature(state).2 == Seq::<TempCommand>::empty(),
{
}

/// The nRF5x temperature sensor driver. It keeps the sensor's power state
/// itself; while an operation runs the state is taken out.
pub struct Temp {
    registers: Option<Nrf5xTempStore>,
}

impl Temp {
    /// The stored power state of the sensor (`None` while taken).
    pub closed spec fn state(&self) -> Option<Nrf5xTempStore> {
        self.registers
    }

    /// A driver for a sensor that is off.
    pub fn new() -> (t: Temp)
        ensures
            t.state() == Some(Nrf5xTempStore::Off),
    {
        Temp { registers: Some(Nrf5xTempStore::Off) }
    }

    /// The stored power state of the sensor (`None` while taken).
    pub fn current_state(&self) -> (s: Option<Nrf5xTempStore>)
        ensures
            s == self.state(),
    {
        self.registers
    }

    /// Handles the sensor's interrupt: a measurement in progress is finished
    /// (interrupt disabled, value read, sensor stopped, value reported) and
    /// the sensor is off again; otherwise nothing happens.
    pub fn handle_interrupt(&mut self) -> (cmds: Vec<TempCommand>)
        ensures
            (final(self).state(), cmds@) == spec_handle_interrupt(old(self).state()),
    {
        let mut cmds: Vec<TempCommand> = Vec::new();
        match self.registers.take() {
            Some(Nrf5xTempStore::Reading) => {
                cmds.push(TempCommand::DisableInterrupt);
                cmds.push(TempCommand::ReadTemperature);
                cmds.push(TempCommand::StopMeasurement);
                cmds.push(TempCommand::ReportTemperature);
                self.registers = Some(Nrf5xTempStore::Off);
            },
            Some(Nrf5xTempStore::Off) => {
                self.registers = Some(Nrf5xTempStore::Off);
            },
            None => {},
        }
        assert(cmds@ =~= seq![
            TempCommand::DisableInterrupt,
            TempCommand::ReadTemperature,
            TempCommand::StopMeasurement,
            TempCommand::ReportTemperature,
        ] || cmds@ =~= Seq::<TempCommand>::empty());
        cmds
    }

    /// Starts a measurement: from `Off` the interrupt is enabled, the ready
    /// event cleared and the measurement started (`Reading`); a measurement
    /// already running gives `ALREADY`; a taken state gives `BUSY`.
    pub fn read_temperature(&mut self) -> (r: (Result<(), ErrorCode>, Vec<TempCommand>))
        ensures
            (r.0, final(self).state(), r.1@) == spec_read_temperature(old(self).state()),
    {
        let mut cmds: Vec<TempCommand> = Vec::new();
        match self.registers.take() {
            None => (Err(ErrorCode::BUSY), cmds),
            Some(Nrf5xTempStore::Off) => {
                cmds.push(TempCommand::EnableInterrupt);
                cmds.push(TempCommand::ClearDataReady);
                cmds.push(TempCommand::StartMeasurement);
                self.registers = Some(Nrf5xTempStore::Reading);
                assert(cmds@ =~= seq![
                    TempCommand::EnableInterrupt,
                    TempCommand::ClearDataReady,
                    TempCommand::StartMeasurement,
                ]);
                (Ok(()), cmds)
            },
            Some(Nrf5xTempStore::Reading) => {
                self.registers = Some(Nrf5xTempStore::Reading);
                (Err(ErrorCode::ALREADY), cmds)
            },
        }
    }
}

} // verus!
