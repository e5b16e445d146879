use vstd::prelude::*;
use crate::error_code::ErrorCode;
use crate::power_manager::{Merge, Peripheral, PowerError, PowerManager, State, StateEnum, Store, SubState};

verus! {

/// Receive substate of an active UARTE.
#[derive(Clone, Copy, Debug, PartialEq, Eq, Structural)]
pub enum RxState {
    RxIdle,
    Rx,
}

/// Transmit substate of an active UARTE.
#[derive(Clone, Copy, Debug, PartialEq, Eq, Structural)]
pub enum TxState {
    TxIdle,
    Tx,
}

impl SubState for RxState {}

impl SubState for TxState {}

/// The stored power state of the nRF52 UARTE, one variant per declared state:
/// `Off`, `Active(RxIdle, TxIdle)` (`ActiveIdle`), `Active(Rx, TxIdle)`
/// (`ActiveRx`), `Active(RxIdle, Tx)` (`ActiveTx`), `Active(Rx, Tx)`
/// (`ActiveRxTx`).
#[derive(Clone, Copy, Debug, PartialEq, Eq, Structural)]
pub enum Nrf52UarteStore {
    Off,
    ActiveIdle,
    ActiveRx,
    ActiveTx,
    ActiveRxTx,
}

impl Nrf52UarteStore {
    /// The substates of an active state; `None` for `Off`.
    pub open spec fn substates(self) -> Option<(RxState, TxState)> {
        match self {
            Nrf52UarteStore::Off => None,
            Nrf52UarteStore::ActiveIdle => Some((RxState::RxIdle, TxState::TxIdle)),
            Nrf52UarteStore::ActiveRx => Some((RxState::Rx, TxState::TxIdle)),
            Nrf52UarteStore::ActiveTx => Some((RxState::RxIdle, TxState::Tx)),
            Nrf52UarteStore::ActiveRxTx => Some((RxState::Rx, TxState::Tx)),
        }
    }

    /// The active state with the given substates.
    pub fn active(rx: RxState, tx: TxState) -> (s: Nrf52UarteStore)
        ensures
            s.substates() == Some((rx, tx)),
    {
        match (rx, tx) {
            (RxState::RxIdle, TxState::TxIdle) => Nrf52UarteStore::ActiveIdle,
            (RxState::Rx, TxState::TxIdle) => Nrf52UarteStore::ActiveRx,
            (RxState::RxIdle, TxState::Tx) => Nrf52UarteStore::ActiveTx,
            (RxState::Rx, TxState::Tx) => Nrf52UarteStore::ActiveRxTx,
        }
    }

    /// The substates of an active state; `None` for `Off`.
    pub fn active_substates(&self) -> (r: Option<(RxState, TxState)>)
        ensures
            r == self.substates(),
    {
        match self {
            Nrf52UarteStore::Off => None,
            Nrf52UarteStore::ActiveIdle => Some((RxState::RxIdle, TxState::TxIdle)),
            Nrf52UarteStore::ActiveRx => Some((RxState::Rx, TxState::TxIdle)),
            Nrf52UarteStore::ActiveTx => Some((RxState::RxIdle, TxState::Tx)),
            Nrf52UarteStore::ActiveRxTx => Some((RxState::Rx, TxState::Tx)),
        }
    }
}

/// The UARTE as a peripheral of the power manager.
pub struct Nrf52UartePeripheral;

impl Store for Nrf52UarteStore {}

impl StateEnum for Nrf52UarteStore {
    fn copy_store(&self) -> (r: Self) {
        *self
    }
}

impl Peripheral for Nrf52UartePeripheral {
    type StateEnum = Nrf52UarteStore;
}

/// One substate position of an expected state: any substate, or exactly one.
#[derive(Clone, Copy, Debug, PartialEq, Eq, Structural)]
pub enum Expect<T> {
    Any,
    Exactly(T),
}

impl<T> Expect<T> {
    /// Whether the substate `t` is the one expected.
    pub open spec fn admits(self, t: T) -> bool {
        match self {
            Expect::Any => true,
            Expect::Exactly(u) => u == t,
        }
    }
}

/// An expected UARTE state: `Off`, or `Active` with each substate either
/// named or `Any`.
#[derive(Clone, Copy, Debug, PartialEq, Eq, Structural)]
pub enum UarteState {
    Off,
    Active(Expect<RxState>, Expect<TxState>),
}

impl UarteState {
    /// Whether the stored state `s` is in this expected state.
    pub open spec fn spec_admits(self, s: Nrf52UarteStore) -> bool {
        match self {
            UarteState::Off => s == Nrf52UarteStore::Off,
            UarteState::Active(rx, tx) => match s.substates() {
                Some((r, t)) => rx.admits(r) && tx.admits(t),
                None => false,
            },
        }
    }

    /// Whether the stored state `s` is in this expected state.
    pub fn admits_store(&self, s: &Nrf52UarteStore) -> (b: bool)
        ensures
            b == self.spec_admits(*s),
    {
        match self {
            UarteState::Off => match s {
                Nrf52UarteStore::Off => true,
                _ => false,
            },
            UarteState::Active(rx, tx) => match s.active_substates() {
                None => false,
                Some((r, t)) => {
                    let rx_ok = match rx {
                        Expect::Any => true,
                        Expect::Exactly(u) => *u == r,
                    };
                    let tx_ok = match tx {
                        Expect::Any => true,
                        Expect::Exactly(u) => *u == t,
                    };
                    rx_ok && tx_ok
                },
            },
        }
    }
}

impl State for UarteState {
    type StateEnum = Nrf52UarteStore;

    open spec fn admits(&self, s: Nrf52UarteStore) -> bool {
        self.spec_admits(s)
    }

    fn try_from_store(&self, s: Nrf52UarteStore) -> (r: Result<Nrf52UarteStore, (ErrorCode, Nrf52UarteStore)>) {
        if self.admits_store(&s) {
            Ok(s)
        } else {
            Err((ErrorCode::INVAL, s))
        }
    }
}

/// Resolving an expected state against the stored one: a stored state of the
/// same kind (both `Off`, or both `Active`) is taken over with its concrete
/// substates; one of the other kind is handed back.
impl Merge<Nrf52UarteStore> for UarteState {
    type Output = Result<Nrf52UarteStore, Nrf52UarteStore>;

    fn merge(self, other: Nrf52UarteStore) -> (r: Result<Nrf52UarteStore, Nrf52UarteStore>)
        ensures
            (self is Off) == (other is Off) ==> r == Ok::<Nrf52UarteStore, Nrf52UarteStore>(other),
            (self is Off) != (other is Off) ==> r == Err::<Nrf52UarteStore, Nrf52UarteStore>(other),
    {
        match (self, other) {
            (UarteState::Off, Nrf52UarteStore::Off) => Ok(other),
            (UarteState::Active(_, _), Nrf52UarteStore::Off) => Err(other),
            (UarteState::Off, _) => Err(other),
            (UarteState::Active(_, _), _) => Ok(other),
        }
    }
}

impl Nrf52UarteStore {
    /// The state after taking in the hardware's end-of-transfer events: a
    /// receive in progress ends when `ENDRX` is set, a transmission in
    /// progress ends when `ENDTX` is set.
    pub open spec fn spec_sync_state(self, endrx: bool, endtx: bool) -> Nrf52UarteStore {
        match self.substates() {
            None => self,
            Some((rx, tx)) => {
                let rx2 = if rx == RxState::Rx && endrx { RxState::RxIdle } else { rx };
                let tx2 = if tx == TxState::Tx && endtx { TxState::TxIdle } else { tx };
                Nrf52UarteStore::spec_active(rx2, tx2)
            },
        }
    }

    /// The active state with the given substates.
    pub open spec fn spec_active(rx: RxState, tx: TxState) -> Nrf52UarteStore {
        match (rx, tx) {
            (RxState::RxIdle, TxState::TxIdle) => Nrf52UarteStore::ActiveIdle,
            (RxState::Rx, TxState::TxIdle) => Nrf52UarteStore::ActiveRx,
            (RxState::RxIdle, TxState::Tx) => Nrf52UarteStore::ActiveTx,
            (RxState::Rx, TxState::Tx) => Nrf52UarteStore::ActiveRxTx,
        }
    }

    /// Takes in the `ENDRX` and `ENDTX` events of the register block.
    pub fn sync_state(self, registers: &UarteRegisters) -> (s: Nrf52UarteStore)
        ensures
            s == self.spec_sync_state(registers.event_endrx, registers.event_endtx),
    {
        let endrx = registers.event_endrx;
        let endtx = registers.event_endtx;
        match self {
            Nrf52UarteStore::Off => self,
            Nrf52UarteStore::ActiveIdle => self,
            Nrf52UarteStore::ActiveRx => if endrx {
                Nrf52UarteStore::ActiveIdle
            } else {
                self
            },
            Nrf52UarteStore::ActiveTx => if endtx {
                Nrf52UarteStore::ActiveIdle
            } else {
                self
            },
            Nrf52UarteStore::ActiveRxTx => if endrx {
                if endtx {
                    Nrf52UarteStore::ActiveIdle
                } else {
                    Nrf52UarteStore::ActiveTx
                }
            } else {
                if endtx {
                    Nrf52UarteStore::ActiveRx
                } else {
                    self
                }
            },
        }
    }
}

/// Taking in the events changes nothing without events, never starts a
/// transfer, never changes whether the UARTE is on, and taking the same
/// events in twice is taking them in once.
pub proof fn lemma_sync_state(s: Nrf52UarteStore, endrx: bool, endtx: bool)
    ensures
        s.spec_sync_state(false, false) == s,
        s.spec_sync_state(endrx, endtx).spec_sync_state(endrx, endtx) == s.spec_sync_state(endrx, endtx),
        (s.spec_sync_state(endrx, endtx) is Off) == (s is Off),
        s.substates() matches Some((rx, tx)) ==> {
            &&& (rx == RxState::RxIdle ==> s.spec_sync_state(endrx, endtx).substates()->Some_0.0 == RxState::RxIdle)
            &&& (tx == TxState::TxIdle ==> s.spec_sync_state(endrx, endtx).substates()->Some_0.1 == TxState::TxIdle)
        },
{
}

/// Every baud rate the UARTE does not offer is set as 115200.
pub proof fn lemma_unknown_baud_rate(baud_rate: u32)
    requires
        !(baud_rate == 1200 || baud_rate == 2400 || baud_rate == 4800 || baud_rate == 9600 || baud_rate == 14400
            || baud_rate == 19200 || baud_rate == 28800 || baud_rate == 38400 || baud_rate == 57600
            || baud_rate == 76800 || baud_rate == 115200 || baud_rate == 230400 || baud_rate == 250000
            || baud_rate == 460800 || baud_rate == 921600 || baud_rate == 1000000),
    ensures
        spec_baud_rate_register(baud_rate) == spec_baud_rate_register(115200),
{
}

/// The baud rates the UARTE offers.
pub open spec fn offered_baud_rate(b: u32) -> bool {
    b == 1200 || b == 2400 || b == 4800 || b == 9600 || b == 14400 || b == 19200 || b == 28800 || b == 38400
        || b == 57600 || b == 76800 || b == 115200 || b == 230400 || b == 250000 || b == 460800 || b == 921600
        || b == 1000000
}

/// The `BAUDRATE` value of an offered rate is that rate in units of
/// 16 MHz / 2^32 (the register's unit), to within 2%; so a faster rate gets
/// a larger value, and no two offered rates share one.
pub proof fn lemma_baud_rate_values(a: u32, b: u32)
    requires
        offered_baud_rate(a),
        offered_baud_rate(b),
    ensures
        50 * (spec_baud_rate_register(a) * 16_000_000int - a * 4_294_967_296int) <= a * 4_294_967_296int,
        50 * (a * 4_294_967_296int - spec_baud_rate_register(a) * 16_000_000int) <= a * 4_294_967_296int,
        a < b ==> spec_baud_rate_register(a) < spec_baud_rate_register(b),
        a != b ==> spec_baud_rate_register(a) != spec_baud_rate_register(b),
{
}

/// The `BAUDRATE` register value for a baud rate; a rate the UARTE does not
/// offer gets the value for 115200.
pub open spec fn spec_baud_rate_register(baud_rate: u32) -> u32 {
    if baud_rate == 1200 { 0x0004F000 }
    else if baud_rate == 2400 { 0x0009D000 }
    else if baud_rate == 4800 { 0x0013B000 }
    else if baud_rate == 9600 { 0x00275000 }
    else if baud_rate == 14400 { 0x003AF000 }
    else if baud_rate == 19200 { 0x004EA000 }
    else if baud_rate == 28800 { 0x0075C000 }
    else if baud_rate == 38400 { 0x009D0000 }
    else if baud_rate == 57600 { 0x00EB0000 }
    else if baud_rate == 76800 { 0x013A9000 }
    else if baud_rate == 115200 { 0x01D60000 }
    else if baud_rate == 230400 { 0x03B00000 }
    else if baud_rate == 250000 { 0x04000000 }
    else if baud_rate == 460800 { 0x07400000 }
    else if baud_rate == 921600 { 0x0F000000 }
    else if baud_rate == 1000000 { 0x10000000 }
    else { 0x01D60000 }
}

/// The `BAUDRATE` register value for a baud rate.
pub fn baud_rate_register(baud_rate: u32) -> (v: u32)
    ensures
        v == spec_baud_rate_register(baud_rate),
{
    match baud_rate {
        1200 => 0x0004F000,
        2400 => 0x0009D000,
        4800 => 0x0013B000,
        9600 => 0x00275000,
        14400 => 0x003AF000,
        19200 => 0x004EA000,
        28800 => 0x0075C000,
        38400 => 0x009D0000,
        57600 => 0x00EB0000,
        76800 => 0x013A9000,
        115200 => 0x01D60000,
        230400 => 0x03B00000,
        250000 => 0x04000000,
        460800 => 0x07400000,
        921600 => 0x0F000000,
        1000000 => 0x10000000,
        _ => 0x01D60000,
    }
}

/// The `PSEL` register value that connects a pin: the pin number in the
/// six-bit `PIN` field, `CONNECT` clear.
pub open spec fn spec_psel_pin(pin: u32) -> u32 {
    pin & 0x3f
}

/// The `PSEL` register value that disconnects the signal: `CONNECT` set.
pub open spec fn psel_disconnected() -> u32 {
    0x8000_0000
}

/// The `PSEL` register value that connects `pin`.
pub fn psel_pin(pin: u32) -> (v: u32)
    ensures
        v == spec_psel_pin(pin),
        v < 64,
{
    assert(pin & 0x3f < 64) by (bit_vector);
    pin & 0x3f
}

/// The `PSEL` value for an optional pin: the pin, or disconnected.
pub fn psel_optional(pin: Option<u32>) -> (v: u32)
    ensures
        v == match pin {
            Some(p) => spec_psel_pin(p),
            None => psel_disconnected(),
        },
{
    match pin {
        Some(p) => psel_pin(p),
        None => 0x8000_0000,
    }
}

/// The largest transfer the UARTE's DMA counters take.
pub const UARTE_MAX_BUFFER_SIZE: u32 = 0xff;

/// The `MAXCNT` register value for `remaining` bytes: at most 255 (the count
/// is taken as a `u32` first, then capped, then fitted into the 8-bit field).
pub open spec fn spec_max_count(remaining: usize) -> u32 {
    let r = remaining as u32;
    if r < 0xff { r } else { 0xff }
}

/// The `MAXCNT` register value for `remaining` bytes.
pub fn max_count(remaining: usize) -> (v: u32)
    ensures
        v == spec_max_count(remaining),
        v <= 0xff,
{
    let r = remaining as u32;
    let m = if r < UARTE_MAX_BUFFER_SIZE { r } else { UARTE_MAX_BUFFER_SIZE };
    assert(m & 0xff == m) by (bit_vector)
        requires
            m <= 0xff,
    ;
    m & 0xff
}

/// `INTEN` bit of the `ENDTX` event.
pub const INTERRUPT_ENDTX: u32 = 0x100;

/// `INTEN` bit of the `ENDRX` event.
pub const INTERRUPT_ENDRX: u32 = 0x10;

/// The value the `ENABLE` register takes to switch the UARTE on.
pub const UART_ENABLE_ON: u32 = 8;

/// The value the `ENABLE` register takes to switch the UARTE off.
pub const UART_ENABLE_OFF: u32 = 0;

/// The steps the UARTE driver asks of the peripheral's registers, in order.
#[derive(Clone, Copy, Debug, PartialEq, Eq, Structural)]
pub enum UarteCommand {
    /// Write the value to `PSELTXD`.
    SelectTxdPin(u32),
    /// Write the value to `PSELRXD`.
    SelectRxdPin(u32),
    /// Write the value to `PSELCTS`.
    SelectCtsPin(u32),
    /// Write the value to `PSELRTS`.
    SelectRtsPin(u32),
    /// Clear `EVENTS_ENDTX`.
    ClearEndTx,
    /// Write the value to `ENABLE`.
    WriteEnable(u32),
    /// Write the value to `INTENSET`.
    SetInterrupts(u32),
    /// Write the value to `INTENCLR`.
    ClearInterrupts(u32),
    /// Point `TXD.PTR` at the transmit buffer from the given offset on.
    PointTxdAtBuffer(usize),
    /// Write the value to `TXD.MAXCNT`.
    SetTxdMaxCount(u32),
    /// Trigger `TASKS_STARTTX`.
    StartTx,
    /// Trigger `TASKS_STOPRX`.
    StopRx,
    /// Clear `EVENTS_ENDRX`.
    ClearEndRx,
    /// Point `RXD.PTR` at the receive buffer from the given offset on.
    PointRxdAtBuffer(usize),
    /// Write the value to `RXD.MAXCNT`.
    SetRxdMaxCount(u32),
    /// Trigger `TASKS_STARTRX`.
    StartRx,
    /// Keep the byte in a place of its own and point `TXD.PTR` at it.
    PointTxdAtByte(u8),
    /// Write the value to `BAUDRATE`.
    SetBaudRate(u32),
    /// Hand the transmit report of the interrupt's outcome to its client.
    ReportTransmitted,
    /// Hand the receive report of the interrupt's outcome to its client.
    ReportReceived,
}

/// The UARTE's register block, as the values the driver reads from it: its
/// end-of-transfer events and the amounts its DMA moved.
#[derive(Clone, Copy, Debug, PartialEq, Eq, Structural)]
pub struct UarteRegisters {
    /// `EVENTS_ENDTX` is set (ready).
    pub event_endtx: bool,
    /// `EVENTS_ENDRX` is set (ready).
    pub event_endrx: bool,
    /// `TXD.AMOUNT`.
    pub txd_amount: u32,
    /// `RXD.AMOUNT`.
    pub rxd_amount: u32,
}

/// The number of stop bits of a UART frame.
#[derive(Clone, Copy, Debug, PartialEq, Eq, Structural)]
pub enum StopBits {
    One,
    Two,
}

/// The parity bit of a UART frame.
#[derive(Clone, Copy, Debug, PartialEq, Eq, Structural)]
pub enum Parity {
    /// No parity bit.
    NoParity,
    Odd,
    Even,
}

/// The number of data bits of a UART frame.
#[derive(Clone, Copy, Debug, PartialEq, Eq, Structural)]
pub enum Width {
    Six,
    Seven,
    Eight,
}

/// The parameters a client asks the UART to be configured with.
#[derive(Clone, Copy, Debug, PartialEq, Eq, Structural)]
pub struct Parameters {
    pub baud_rate: u32,
    pub width: Width,
    pub parity: Parity,
    pub stop_bits: StopBits,
    pub hw_flow_control: bool,
}

/// UART parameters kept by a board.
#[derive(Clone, Copy, Debug, PartialEq, Eq, Structural)]
pub struct UARTParams {
    pub baud_rate: u32,
}

/// The stored UARTE state of a power manager.
pub open spec fn uarte_stored<PM: PowerManager<Nrf52UartePeripheral>>(pm: &PM) -> Option<Nrf52UarteStore> {
    PowerManager::<Nrf52UartePeripheral>::stored(pm)
}

/// The spare UARTE copy of a power manager.
pub open spec fn uarte_copy<PM: PowerManager<Nrf52UartePeripheral>>(pm: &PM) -> Option<Nrf52UarteStore> {
    PowerManager::<Nrf52UartePeripheral>::stored_copy(pm)
}

/// Whether the stored state is one that `expected` admits.
pub open spec fn stored_admitted(stored: Option<Nrf52UarteStore>, expected: UarteState) -> bool {
    stored matches Some(s) && expected.spec_admits(s)
}

/// `Active(Any, TxIdle)`.
pub open spec fn expect_tx_idle() -> UarteState {
    UarteState::Active(Expect::Any, Expect::Exactly(TxState::TxIdle))
}

/// `Active(RxIdle, Any)`.
pub open spec fn expect_rx_idle() -> UarteState {
    UarteState::Active(Expect::Exactly(RxState::RxIdle), Expect::Any)
}

/// `Active(Rx, Any)`.
pub open spec fn expect_rx() -> UarteState {
    UarteState::Active(Expect::Exactly(RxState::Rx), Expect::Any)
}

/// `Active(Any, Any)`.
pub open spec fn expect_active() -> UarteState {
    UarteState::Active(Expect::Any, Expect::Any)
}

/// Starting a transmission: `Active(rx, TxIdle)` becomes `Active(rx, Tx)`.
pub fn into_starttx(s: Nrf52UarteStore) -> (r: Nrf52UarteStore)
    requires
        s.substates() matches Some((_, t)) && t == TxState::TxIdle,
    ensures
        r.substates() == Some((s.substates()->Some_0.0, TxState::Tx)),
{
    match s {
        Nrf52UarteStore::ActiveRx => Nrf52UarteStore::ActiveRxTx,
        _ => Nrf52UarteStore::ActiveTx,
    }
}

/// Stopping a receive: `Active(Rx, tx)` becomes `Active(RxIdle, tx)`.
pub fn into_stoprx(s: Nrf52UarteStore) -> (r: Nrf52UarteStore)
    requires
        s.substates() matches Some((rx, _)) && rx == RxState::Rx,
    ensures
        r.substates() == Some((RxState::RxIdle, s.substates()->Some_0.1)),
{
    match s {
        Nrf52UarteStore::ActiveRxTx => Nrf52UarteStore::ActiveTx,
        _ => Nrf52UarteStore::ActiveIdle,
    }
}

/// A change of the stored state that a UARTE operation makes once the state
/// is the expected one.
#[derive(Clone, Copy, Debug, PartialEq, Eq, Structural)]
pub enum StoreStep {
    /// Start transmitting: `Active(rx, TxIdle)` becomes `Active(rx, Tx)`.
    StartTx,
    /// Start receiving: `Active(RxIdle, tx)` becomes `Active(Rx, tx)`.
    StartRx,
    /// Keep the state as it is.
    Keep,
    /// End of the interrupt's transmit half: transmitting again when asked
    /// (`true`); otherwise a UARTE that is receiving stays as it is and an
    /// idle one is switched off.
    TxEnd(bool),
    /// End of the interrupt's receive half: receiving again when asked
    /// (`true`); otherwise a UARTE that is transmitting stays as it is and an
    /// idle one is switched off.
    RxEnd(bool),
}

/// The state a step leaves an active state `s` in.
pub open spec fn step_store(step: StoreStep, s: Nrf52UarteStore) -> Nrf52UarteStore {
    let x = s.substates()->Some_0.0;
    let y = s.substates()->Some_0.1;
    match step {
        StoreStep::StartTx => Nrf52UarteStore::spec_active(x, TxState::Tx),
        StoreStep::StartRx => Nrf52UarteStore::spec_active(RxState::Rx, y),
        StoreStep::Keep => s,
        StoreStep::TxEnd(restart) => if restart {
            Nrf52UarteStore::spec_active(x, TxState::Tx)
        } else if x == RxState::Rx {
            s
        } else {
            Nrf52UarteStore::Off
        },
        StoreStep::RxEnd(restart) => if restart {
            Nrf52UarteStore::spec_active(RxState::Rx, y)
        } else if y == TxState::Tx {
            s
        } else {
            Nrf52UarteStore::Off
        },
    }
}

/// The state a step leaves an active state `s` in.
fn apply_step(step: StoreStep, s: Nrf52UarteStore) -> (r: Nrf52UarteStore)
    requires
        s.substates() is Some,
    ensures
        r == step_store(step, s),
{
    let (x, y) = match s.active_substates() {
        Some(p) => p,
        None => (RxState::RxIdle, TxState::TxIdle),
    };
    match step {
        StoreStep::StartTx => Nrf52UarteStore::active(x, TxState::Tx),
        StoreStep::StartRx => Nrf52UarteStore::active(RxState::Rx, y),
        StoreStep::Keep => s,
        StoreStep::TxEnd(restart) => if restart {
            Nrf52UarteStore::active(x, TxState::Tx)
        } else if x == RxState::Rx {
            s
        } else {
            Nrf52UarteStore::Off
        },
        StoreStep::RxEnd(restart) => if restart {
            Nrf52UarteStore::active(RxState::Rx, y)
        } else if y == TxState::Tx {
            s
        } else {
            Nrf52UarteStore::Off
        },
    }
}

/// The stored state after an operation that expects `expected` and makes
/// `step`: the step's state when the stored state is admitted, the stored
/// state unchanged otherwise.
pub open spec fn stored_after(stored: Option<Nrf52UarteStore>, expected: UarteState, step: StoreStep) -> Option<Nrf52UarteStore> {
    if stored_admitted(stored, expected) {
        Some(step_store(step, stored->Some_0))
    } else {
        stored
    }
}

/// Runs `step` through the power manager when the stored state is the
/// `expected` active state; tells whether it was.
fn run_step<PM: PowerManager<Nrf52UartePeripheral>>(pm: &mut PM, expected: UarteState, step: StoreStep) -> (ok: bool)
    requires
        expected is Active,
    ensures
        ok == stored_admitted(uarte_stored(old(pm)), expected),
        uarte_stored(final(pm)) == stored_after(uarte_stored(old(pm)), expected, step),
        uarte_copy(final(pm)) == uarte_copy(old(pm)),
{
    let op = |s: Nrf52UarteStore| -> (r: Result<Nrf52UarteStore, PowerError<Nrf52UarteStore>>)
        requires
            expected.spec_admits(s),
        ensures
            r == Ok::<Nrf52UarteStore, PowerError<Nrf52UarteStore>>(step_store(step, s)),
        { Ok(apply_step(step, s)) };
    let r = pm.use_power_expecting(&expected, op);
    proof {
        if stored_admitted(uarte_stored(old(pm)), expected) {
            let s = uarte_stored(old(pm))->Some_0;
            let outcome = choose|outcome: Result<Nrf52UarteStore, PowerError<Nrf52UarteStore>>| {
                &&& call_ensures(op, (s,), outcome)
                &&& (r, uarte_stored(pm)) == crate::power_manager::use_power_outcome(Some(s), true, outcome)
            };
            assert(outcome == Ok::<Nrf52UarteStore, PowerError<Nrf52UarteStore>>(step_store(step, s)));
        }
    }
    r.is_ok()
}

/// The UARTE's stored state in the power manager, left in place.
pub fn current_store<PM: PowerManager<Nrf52UartePeripheral>>(pm: &mut PM) -> (r: Option<Nrf52UarteStore>)
    ensures
        r == uarte_stored(old(pm)),
        uarte_stored(final(pm)) == uarte_stored(old(pm)),
        uarte_copy(final(pm)) == uarte_copy(old(pm)),
{
    match PowerManager::<Nrf52UartePeripheral>::retrieve_power(pm) {
        Ok(s) => {
            PowerManager::<Nrf52UartePeripheral>::store_power(pm, s);
            Some(s)
        },
        Err(_) => None,
    }
}

/// The steps that switch the UARTE off when `off`.
pub open spec fn power_off_steps(off: bool) -> Seq<UarteCommand> {
    if off { seq![UarteCommand::WriteEnable(UART_ENABLE_OFF)] } else { Seq::empty() }
}

/// The transmit half of the interrupt handler for a driver `v`, a stored
/// state `s` and the registers read: the driver after it, the stored state,
/// the steps, and whether the transmit buffer goes back to its client.
///
/// For a UARTE in `Active(rx, TxIdle)`: when `ENDTX` is set, its interrupt is
/// disabled and the event cleared; a transmission with bytes left moves past
/// the bytes sent and restarts (`Active(rx, Tx)`); a finished one hands the
/// buffer to the client (when a client and a buffer are there) and, like a
/// UARTE without the event, stays as it is when receiving (`rx` is `Rx`) or
/// is switched off when idle. In other states nothing happens.
pub open spec fn tx_half(v: UarteView, s: Option<Nrf52UarteStore>, regs: UarteRegisters) -> (UarteView, Option<Nrf52UarteStore>, Seq<UarteCommand>, bool) {
    if !stored_admitted(s, expect_tx_idle()) {
        (v, s, Seq::empty(), false)
    } else {
        let x = s->Some_0.substates()->Some_0.0;
        let off = power_off_steps(x == RxState::RxIdle);
        let restart = regs.event_endtx && (regs.txd_amount as nat) < v.tx_remaining_bytes;
        let store = Some(step_store(StoreStep::TxEnd(restart), s->Some_0));
        if !regs.event_endtx {
            (v, store, off, false)
        } else {
            let head = seq![UarteCommand::ClearInterrupts(INTERRUPT_ENDTX), UarteCommand::ClearEndTx];
            if restart {
                let offset = v.offset + regs.txd_amount;
                let rem = v.tx_remaining_bytes - regs.txd_amount;
                (
                    UarteView { offset: offset as nat, tx_remaining_bytes: rem as nat, ..v },
                    store,
                    head + (if v.tx_busy { seq![UarteCommand::PointTxdAtBuffer(offset as usize)] } else { Seq::empty() })
                        + seq![
                        UarteCommand::SetTxdMaxCount(spec_max_count(rem as usize)),
                        UarteCommand::StartTx,
                        UarteCommand::SetInterrupts(INTERRUPT_ENDTX),
                    ],
                    false,
                )
            } else {
                let report = v.tx_client && v.tx_busy;
                (
                    UarteView { tx_busy: v.tx_busy && !report, ..v },
                    store,
                    head + (if report { seq![UarteCommand::ReportTransmitted] } else { Seq::empty() }) + off,
                    report,
                )
            }
        }
    }
}

/// The inputs on which the transmit half does its work without fault: with
/// `ENDTX` set, no more bytes were sent than remained, and a restart's new
/// offset fits and lies within the buffer.
pub open spec fn tx_half_ok(v: UarteView, s: Option<Nrf52UarteStore>, regs: UarteRegisters) -> bool {
    stored_admitted(s, expect_tx_idle()) && regs.event_endtx ==> {
        &&& regs.txd_amount <= v.tx_remaining_bytes
        &&& (regs.txd_amount as nat) < v.tx_remaining_bytes ==> {
            &&& v.offset + regs.txd_amount <= usize::MAX
            &&& v.tx_busy ==> v.offset + regs.txd_amount <= v.tx_buffer_len
        }
    }
}

/// The receive half of the interrupt handler for a driver `v`, a stored
/// state `s` and the registers read: the driver after it, the stored state,
/// the steps, and the length and result reported with the receive buffer to
/// its client, if it goes back.
///
/// For a UARTE in `Active(RxIdle, tx)` with `ENDRX` set, its interrupt is
/// disabled and the event cleared. An abort in progress ends: the buffer
/// goes back with what was received and `CANCEL`. Otherwise the bytes
/// received are counted: with none left the buffer goes back with `Ok`,
/// with some left the receive restarts for at most 255 of them
/// (`Active(Rx, tx)`). A buffer goes back only when a client and a buffer
/// are there. When not restarting, and without the event, the UARTE stays as
/// it is when transmitting (`tx` is `Tx`) or is switched off when idle. In
/// other states nothing happens.
pub open spec fn rx_half(v: UarteView, s: Option<Nrf52UarteStore>, regs: UarteRegisters) -> (UarteView, Option<Nrf52UarteStore>, Seq<UarteCommand>, Option<(nat, Result<(), ErrorCode>)>) {
    if !stored_admitted(s, expect_rx_idle()) {
        (v, s, Seq::empty(), None)
    } else {
        let y = s->Some_0.substates()->Some_0.1;
        let off = power_off_steps(y == TxState::TxIdle);
        let restart = regs.event_endrx && !v.rx_abort_in_progress && (regs.rxd_amount as nat) < v.rx_remaining_bytes;
        let store = Some(step_store(StoreStep::RxEnd(restart), s->Some_0));
        if !regs.event_endrx {
            (v, store, off, None)
        } else {
            let head = seq![UarteCommand::ClearInterrupts(INTERRUPT_ENDRX), UarteCommand::ClearEndRx];
            let report = v.rx_client && v.rx_busy;
            let report_steps = if report { seq![UarteCommand::ReportReceived] } else { Seq::<UarteCommand>::empty() };
            let offset: nat = (v.offset + regs.rxd_amount) as nat;
            if v.rx_abort_in_progress {
                (
                    UarteView { rx_abort_in_progress: false, rx_busy: v.rx_busy && !report, ..v },
                    store,
                    head + report_steps + off,
                    if report { Some((offset, Err(ErrorCode::CANCEL))) } else { None },
                )
            } else if restart {
                let rem: nat = (v.rx_remaining_bytes - regs.rxd_amount) as nat;
                (
                    UarteView { rx_remaining_bytes: rem, offset, ..v },
                    store,
                    head + seq![UarteCommand::SetRxdMaxCount(if rem < 255 { rem as u32 } else { 255 })]
                        + (if v.rx_busy { seq![UarteCommand::PointRxdAtBuffer(offset as usize)] } else { Seq::empty() })
                        + seq![UarteCommand::StartRx, UarteCommand::SetInterrupts(INTERRUPT_ENDRX)],
                    None,
                )
            } else {
                (
                    UarteView { rx_remaining_bytes: 0, offset, rx_busy: v.rx_busy && !report, ..v },
                    store,
                    head + report_steps + off,
                    if report { Some((offset, Ok(()))) } else { None },
                )
            }
        }
    }
}

/// When the receive half takes `ENDRX` outside an abort, the bytes the DMA
/// moved are added to the offset and taken off what remains (down to 0); a
/// receive with bytes left restarts for them and reports nothing; a finished
/// receive reports, with `Ok`, the whole offset reached: every byte received
/// into the buffer since it was handed over (where the offset was reset),
/// not only the last transfer's. An aborted receive reports the offset
/// reached with `CANCEL` and leaves the counts as they were.
pub proof fn lemma_rx_half_counts(v: UarteView, s: Option<Nrf52UarteStore>, regs: UarteRegisters)
    requires
        stored_admitted(s, expect_rx_idle()),
        regs.event_endrx,
    ensures
        !v.rx_abort_in_progress ==> {
            let u = rx_half(v, s, regs);
            &&& u.0.offset == v.offset + regs.rxd_amount
            &&& u.0.rx_remaining_bytes == if v.rx_remaining_bytes > regs.rxd_amount {
                v.rx_remaining_bytes - regs.rxd_amount
            } else {
                0
            }
            &&& u.0.rx_remaining_bytes > 0 ==> u.3 is None && u.1 == Some(
                Nrf52UarteStore::spec_active(RxState::Rx, s->Some_0.substates()->Some_0.1),
            )
            &&& u.0.rx_remaining_bytes == 0 ==> (u.3 is Some <==> v.rx_client && v.rx_busy)
            &&& u.3 matches Some((len, result)) ==> len == u.0.offset && len == v.offset + regs.rxd_amount
                && result == Ok::<(), ErrorCode>(())
        },
        v.rx_abort_in_progress ==> {
            let u = rx_half(v, s, regs);
            &&& u.0.offset == v.offset
            &&& u.0.rx_remaining_bytes == v.rx_remaining_bytes
            &&& !u.0.rx_abort_in_progress
            &&& (u.3 is Some <==> v.rx_client && v.rx_busy)
            &&& u.3 matches Some((len, result)) ==> len == v.offset + regs.rxd_amount
                && result == Err::<(), ErrorCode>(ErrorCode::CANCEL)
        },
{
}

/// The inputs on which the receive half does its work without fault: with
/// `ENDRX` set, the new offset fits (for an abort, only where it is
/// reported), and a restart's offset lies within the buffer.
pub open spec fn rx_half_ok(v: UarteView, s: Option<Nrf52UarteStore>, regs: UarteRegisters) -> bool {
    stored_admitted(s, expect_rx_idle()) && regs.event_endrx ==> if v.rx_abort_in_progress {
        v.rx_client && v.rx_busy ==> v.offset + regs.rxd_amount <= usize::MAX
    } else {
        &&& v.offset + regs.rxd_amount <= usize::MAX
        &&& (regs.rxd_amount as nat) < v.rx_remaining_bytes && v.rx_busy ==> v.offset + regs.rxd_amount <= v.rx_buffer_len
    }
}

/// A transmit buffer handed back to its client, with the number of bytes
/// the transmission was asked for.
pub struct TxReport<B, C> {
    pub client: C,
    pub buffer: B,
    pub len: usize,
}

/// A receive buffer handed back to its client, with the number of bytes in
/// it and the result.
pub struct RxReport<B, C> {
    pub client: C,
    pub buffer: B,
    pub len: usize,
    pub result: Result<(), ErrorCode>,
}

/// What handling an interrupt asks for: the register steps in order (the
/// reports among them), and the reports.
pub struct InterruptOutcome<B, TC, RC> {
    pub commands: Vec<UarteCommand>,
    pub transmitted: Option<TxReport<B, TC>>,
    pub received: Option<RxReport<B, RC>>,
}

/// The steps that start a transmission of `tx_len` bytes from the start of
/// the buffer, with its interrupt enabled.
pub open spec fn start_tx_steps(tx_len: usize) -> Seq<UarteCommand> {
    seq![
        UarteCommand::PointTxdAtBuffer(0),
        UarteCommand::SetTxdMaxCount(spec_max_count(tx_len)),
        UarteCommand::StartTx,
        UarteCommand::SetInterrupts(INTERRUPT_ENDTX),
    ]
}

/// The steps that start a receive of `count` bytes (at most 255 at a time)
/// into the start of the buffer, stopping any receive first, with its
/// interrupt enabled.
pub open spec fn start_rx_steps(count: nat) -> Seq<UarteCommand> {
    seq![
        UarteCommand::PointRxdAtBuffer(0),
        UarteCommand::SetRxdMaxCount(if count < 255 { count as u32 } else { 255 }),
        UarteCommand::StopRx,
        UarteCommand::StartRx,
        UarteCommand::SetInterrupts(INTERRUPT_ENDRX),
    ]
}

/// The nRF52 UARTE driver. It keeps the transfers in progress and the
/// clients; the buffers (of type `B`) are the client's, held while a transfer
/// uses them; `TC` and `RC` are the transmit and receive clients.
pub struct Uarte<B, TC, RC> {
    tx_client: Option<TC>,
    tx_buffer: Option<B>,
    tx_buffer_len: usize,
    tx_len: usize,
    tx_remaining_bytes: usize,
    rx_client: Option<RC>,
    rx_buffer: Option<B>,
    rx_buffer_len: usize,
    rx_remaining_bytes: usize,
    rx_abort_in_progress: bool,
    offset: usize,
}

/// The driver's counters and flags, as a value.
pub ghost struct UarteView {
    pub tx_client: bool,
    pub tx_busy: bool,
    pub tx_buffer_len: nat,
    pub tx_len: nat,
    pub tx_remaining_bytes: nat,
    pub rx_client: bool,
    pub rx_busy: bool,
    pub rx_buffer_len: nat,
    pub rx_remaining_bytes: nat,
    pub rx_abort_in_progress: bool,
    pub offset: nat,
}

/// The driver with no client and no transfer.
pub open spec fn fresh_view() -> UarteView {
    UarteView {
        tx_client: false,
        tx_busy: false,
        tx_buffer_len: 0,
        tx_len: 0,
        tx_remaining_bytes: 0,
        rx_client: false,
        rx_busy: false,
        rx_buffer_len: 0,
        rx_remaining_bytes: 0,
        rx_abort_in_progress: false,
        offset: 0,
    }
}

impl<B, TC: Copy, RC: Copy> Uarte<B, TC, RC> {
    pub closed spec fn view(&self) -> UarteView {
        UarteView {
            tx_client: self.tx_client is Some,
            tx_busy: self.tx_buffer is Some,
            tx_buffer_len: self.tx_buffer_len as nat,
            tx_len: self.tx_len as nat,
            tx_remaining_bytes: self.tx_remaining_bytes as nat,
            rx_client: self.rx_client is Some,
            rx_busy: self.rx_buffer is Some,
            rx_buffer_len: self.rx_buffer_len as nat,
            rx_remaining_bytes: self.rx_remaining_bytes as nat,
            rx_abort_in_progress: self.rx_abort_in_progress,
            offset: self.offset as nat,
        }
    }

    /// The transmit buffer held, if any.
    pub closed spec fn spec_tx_buffer(&self) -> Option<B> {
        self.tx_buffer
    }

    /// The receive buffer held, if any.
    pub closed spec fn spec_rx_buffer(&self) -> Option<B> {
        self.rx_buffer
    }

    /// The transmit client, if one is set.
    pub closed spec fn spec_tx_client(&self) -> Option<TC> {
        self.tx_client
    }

    /// The receive client, if one is set.
    pub closed spec fn spec_rx_client(&self) -> Option<RC> {
        self.rx_client
    }

    /// The view's flags match the buffers and clients held, and its counts
    /// fit in a `usize`.
    pub proof fn lemma_view_flags(&self)
        ensures
            self@.tx_busy == self.spec_tx_buffer() is Some,
            self@.rx_busy == self.spec_rx_buffer() is Some,
            self@.tx_client == self.spec_tx_client() is Some,
            self@.rx_client == self.spec_rx_client() is Some,
            self@.tx_buffer_len <= usize::MAX,
            self@.tx_len <= usize::MAX,
            self@.tx_remaining_bytes <= usize::MAX,
            self@.rx_buffer_len <= usize::MAX,
            self@.rx_remaining_bytes <= usize::MAX,
            self@.offset <= usize::MAX,
    {
    }

    /// A driver with no client and no transfer in progress.
    pub fn new() -> (u: Uarte<B, TC, RC>)
        ensures
            u@ == fresh_view(),
            u.spec_tx_buffer() is None,
            u.spec_rx_buffer() is None,
            u.spec_tx_client() is None,
            u.spec_rx_client() is None,
    {
        Uarte {
            tx_client: None,
            tx_buffer: None,
            tx_buffer_len: 0,
            tx_len: 0,
            tx_remaining_bytes: 0,
            rx_client: None,
            rx_buffer: None,
            rx_buffer_len: 0,
            rx_remaining_bytes: 0,
            rx_abort_in_progress: false,
            offset: 0,
        }
    }

    /// Sets the client that finished transmissions are handed to.
    pub fn set_transmit_client(&mut self, client: TC)
        ensures
            final(self).spec_tx_client() == Some(client),
            final(self).spec_rx_client() == old(self).spec_rx_client(),
            final(self).spec_tx_buffer() == old(self).spec_tx_buffer(),
            final(self).spec_rx_buffer() == old(self).spec_rx_buffer(),
            final(self)@ == (UarteView { tx_client: true, ..old(self)@ }),
    {
        self.tx_client = Some(client);
    }

    /// Sets the client that finished receives are handed to.
    pub fn set_receive_client(&mut self, client: RC)
        ensures
            final(self).spec_rx_client() == Some(client),
            final(self).spec_tx_client() == old(self).spec_tx_client(),
            final(self).spec_tx_buffer() == old(self).spec_tx_buffer(),
            final(self).spec_rx_buffer() == old(self).spec_rx_buffer(),
            final(self)@ == (UarteView { rx_client: true, ..old(self)@ }),
    {
        self.rx_client = Some(client);
    }

    /// The transmit buffer held, if any.
    pub fn tx_buffer(&self) -> (b: Option<&B>)
        ensures
            b == match self.spec_tx_buffer() {
                Some(x) => Some(&x),
                None => None::<&B>,
            },
    {
        self.tx_buffer.as_ref()
    }

    /// The bytes of the transmission still to send.
    pub fn tx_remaining_bytes(&self) -> (n: usize)
        ensures
            n == self@.tx_remaining_bytes,
    {
        self.tx_remaining_bytes
    }

    /// The bytes of the receive still to come.
    pub fn rx_remaining_bytes(&self) -> (n: usize)
        ensures
            n == self@.rx_remaining_bytes,
    {
        self.rx_remaining_bytes
    }

    /// Whether an abort of the receive is in progress.
    pub fn rx_abort_in_progress(&self) -> (b: bool)
        ensures
            b == self@.rx_abort_in_progress,
    {
        self.rx_abort_in_progress
    }

    /// The offset into the buffer of the transfer in progress.
    pub fn offset(&self) -> (n: usize)
        ensures
            n == self@.offset,
    {
        self.offset
    }

    /// The length of the transmit buffer held.
    pub fn tx_buffer_len(&self) -> (n: usize)
        ensures
            n == self@.tx_buffer_len,
    {
        self.tx_buffer_len
    }

    /// The length of the receive buffer held.
    pub fn rx_buffer_len(&self) -> (n: usize)
        ensures
            n == self@.rx_buffer_len,
    {
        self.rx_buffer_len
    }

    /// Whether a transmit client is set.
    pub fn has_tx_client(&self) -> (b: bool)
        ensures
            b == self@.tx_client,
    {
        self.tx_client.is_some()
    }

    /// Whether a receive client is set.
    pub fn has_rx_client(&self) -> (b: bool)
        ensures
            b == self@.rx_client,
    {
        self.rx_client.is_some()
    }

    /// The receive buffer held, if any.
    pub fn rx_buffer(&self) -> (b: Option<&B>)
        ensures
            b == match self.spec_rx_buffer() {
                Some(x) => Some(&x),
                None => None::<&B>,
            },
    {
        self.rx_buffer.as_ref()
    }

    /// Connects the UARTE to its pins and switches it on: from `Off` the pins
    /// are selected (`CTS` and `RTS` disconnected when not given), the
    /// `ENDTX` event cleared and the UARTE enabled, leaving it
    /// `Active(RxIdle, TxIdle)`. In any other state nothing happens.
    pub fn initialize<PM: PowerManager<Nrf52UartePeripheral>>(
        &self,
        pm: &mut PM,
        txd: u32,
        rxd: u32,
        cts: Option<u32>,
        rts: Option<u32>,
    ) -> (cmds: Vec<UarteCommand>)
        ensures
            PowerManager::<Nrf52UartePeripheral>::stored_copy(final(pm)) == PowerManager::<Nrf52UartePeripheral>::stored_copy(old(pm)),
            PowerManager::<Nrf52UartePeripheral>::stored(old(pm)) == Some(Nrf52UarteStore::Off) ==> {
                &&& PowerManager::<Nrf52UartePeripheral>::stored(final(pm)) == Some(Nrf52UarteStore::ActiveIdle)
                &&& cmds@ == seq![
                    UarteCommand::SelectTxdPin(spec_psel_pin(txd)),
                    UarteCommand::SelectRxdPin(spec_psel_pin(rxd)),
                    UarteCommand::SelectCtsPin(match cts { Some(p) => spec_psel_pin(p), None => psel_disconnected() }),
                    UarteCommand::SelectRtsPin(match rts { Some(p) => spec_psel_pin(p), None => psel_disconnected() }),
                    UarteCommand::ClearEndTx,
                    UarteCommand::WriteEnable(UART_ENABLE_ON),
                ]
            },
            PowerManager::<Nrf52UartePeripheral>::stored(old(pm)) != Some(Nrf52UarteStore::Off) ==> {
                &&& PowerManager::<Nrf52UartePeripheral>::stored(final(pm)) == PowerManager::<Nrf52UartePeripheral>::stored(old(pm))
                &&& cmds@ == Seq::<UarteCommand>::empty()
            },
    {
        let enable = |s: Nrf52UarteStore| -> (r: Result<Nrf52UarteStore, PowerError<Nrf52UarteStore>>)
            ensures
                r matches Ok(n) && n == Nrf52UarteStore::ActiveIdle,
            { Ok(Nrf52UarteStore::ActiveIdle) };
        let r = pm.use_power_expecting(&UarteState::Off, enable);
        let mut cmds: Vec<UarteCommand> = Vec::new();
        if r.is_ok() {
            cmds.push(UarteCommand::SelectTxdPin(psel_pin(txd)));
            cmds.push(UarteCommand::SelectRxdPin(psel_pin(rxd)));
            cmds.push(UarteCommand::SelectCtsPin(psel_optional(cts)));
            cmds.push(UarteCommand::SelectRtsPin(psel_optional(rts)));
            cmds.push(UarteCommand::ClearEndTx);
            cmds.push(UarteCommand::WriteEnable(UART_ENABLE_ON));
        }
        proof {
            match PowerManager::<Nrf52UartePeripheral>::stored(old(pm)) {
                Some(s) => if s == Nrf52UarteStore::Off {
                    let outcome = choose|outcome: Result<Nrf52UarteStore, PowerError<Nrf52UarteStore>>| {
                        &&& call_ensures(enable, (s,), outcome)
                        &&& (r, PowerManager::<Nrf52UartePeripheral>::stored(final(pm))) == crate::power_manager::use_power_outcome(Some(s), true, outcome)
                    };
                    assert(outcome matches Ok(n) && n == Nrf52UarteStore::ActiveIdle);
                },
                None => {},
            }
        }
        assert(cmds@ =~= seq![
            UarteCommand::SelectTxdPin(spec_psel_pin(txd)),
            UarteCommand::SelectRxdPin(spec_psel_pin(rxd)),
            UarteCommand::SelectCtsPin(match cts { Some(p) => spec_psel_pin(p), None => psel_disconnected() }),
            UarteCommand::SelectRtsPin(match rts { Some(p) => spec_psel_pin(p), None => psel_disconnected() }),
            UarteCommand::ClearEndTx,
            UarteCommand::WriteEnable(UART_ENABLE_ON),
        ] || cmds@ =~= Seq::<UarteCommand>::empty());
        cmds
    }

    /// Accepts a buffer to transmit `tx_len` bytes of (`tx_data_len` is the
    /// buffer's length): `SIZE` when `tx_len` is 0 or more than the buffer
    /// holds, `BUSY` while a transmission holds a buffer; otherwise the buffer
    /// is kept, the byte counts set, the offset reset, and for a UARTE in
    /// `Active(rx, TxIdle)` the transmission is started (`Active(rx, Tx)`).
    pub fn transmit_buffer<PM: PowerManager<Nrf52UartePeripheral>>(
        &mut self,
        pm: &mut PM,
        tx_data: B,
        tx_data_len: usize,
        tx_len: usize,
    ) -> (r: (Result<(), (ErrorCode, B)>, Vec<UarteCommand>))
        ensures
            uarte_copy(final(pm)) == uarte_copy(old(pm)),
            final(self).spec_tx_client() == old(self).spec_tx_client(),
            final(self).spec_rx_client() == old(self).spec_rx_client(),
            final(self).spec_rx_buffer() == old(self).spec_rx_buffer(),
            tx_len == 0 || tx_len > tx_data_len ==> {
                &&& r.0 == Err::<(), (ErrorCode, B)>((ErrorCode::SIZE, tx_data))
                &&& r.1@ == Seq::<UarteCommand>::empty()
                &&& *final(self) == *old(self)
                &&& uarte_stored(final(pm)) == uarte_stored(old(pm))
            },
            !(tx_len == 0 || tx_len > tx_data_len) && old(self)@.tx_busy ==> {
                &&& r.0 == Err::<(), (ErrorCode, B)>((ErrorCode::BUSY, tx_data))
                &&& r.1@ == Seq::<UarteCommand>::empty()
                &&& *final(self) == *old(self)
                &&& uarte_stored(final(pm)) == uarte_stored(old(pm))
            },
            !(tx_len == 0 || tx_len > tx_data_len) && !old(self)@.tx_busy ==> {
                &&& r.0 == Ok::<(), (ErrorCode, B)>(())
                &&& final(self).spec_tx_buffer() == Some(tx_data)
                &&& final(self)@ == (UarteView {
                    tx_busy: true,
                    tx_buffer_len: tx_data_len as nat,
                    tx_len: tx_len as nat,
                    tx_remaining_bytes: tx_len as nat,
                    offset: 0,
                    ..old(self)@
                })
                &&& uarte_stored(final(pm)) == stored_after(uarte_stored(old(pm)), expect_tx_idle(), StoreStep::StartTx)
                &&& r.1@ == if stored_admitted(uarte_stored(old(pm)), expect_tx_idle()) {
                    start_tx_steps(tx_len)
                } else {
                    Seq::empty()
                }
            },
    {
        if tx_len == 0 || tx_len > tx_data_len {
            (Err((ErrorCode::SIZE, tx_data)), Vec::new())
        } else if self.tx_buffer.is_some() {
            (Err((ErrorCode::BUSY, tx_data)), Vec::new())
        } else {
            let cmds = self.setup_buffer_transmit(pm, tx_data, tx_data_len, tx_len);
            (Ok(()), cmds)
        }
    }

    fn setup_buffer_transmit<PM: PowerManager<Nrf52UartePeripheral>>(
        &mut self,
        pm: &mut PM,
        buf: B,
        buf_len: usize,
        tx_len: usize,
    ) -> (cmds: Vec<UarteCommand>)
        ensures
            uarte_stored(final(pm)) == stored_after(uarte_stored(old(pm)), expect_tx_idle(), StoreStep::StartTx),
            uarte_copy(final(pm)) == uarte_copy(old(pm)),
            final(self).spec_tx_buffer() == Some(buf),
            final(self).spec_rx_buffer() == old(self).spec_rx_buffer(),
            final(self).spec_tx_client() == old(self).spec_tx_client(),
            final(self).spec_rx_client() == old(self).spec_rx_client(),
            final(self)@ == (UarteView {
                tx_busy: true,
                tx_buffer_len: buf_len as nat,
                tx_len: tx_len as nat,
                tx_remaining_bytes: tx_len as nat,
                offset: 0,
                ..old(self)@
            }),
            cmds@ == if stored_admitted(uarte_stored(old(pm)), expect_tx_idle()) {
                start_tx_steps(tx_len)
            } else {
                Seq::empty()
            },
    {
        self.tx_remaining_bytes = tx_len;
        self.tx_len = tx_len;
        self.offset = 0;
        self.tx_buffer = Some(buf);
        self.tx_buffer_len = buf_len;
        let mut cmds: Vec<UarteCommand> = Vec::new();
        let expected = UarteState::Active(Expect::Any, Expect::Exactly(TxState::TxIdle));
        if run_step(pm, expected, StoreStep::StartTx) {
            cmds.push(UarteCommand::PointTxdAtBuffer(0));
            cmds.push(UarteCommand::SetTxdMaxCount(max_count(tx_len)));
            cmds.push(UarteCommand::StartTx);
            cmds.push(UarteCommand::SetInterrupts(INTERRUPT_ENDTX));
            assert(cmds@ =~= start_tx_steps(tx_len));
        } else {
            assert(cmds@ =~= Seq::<UarteCommand>::empty());
        }
        cmds
    }

    /// Transmitting a single word is not supported.
    pub fn transmit_word(&self, _data: u32) -> (r: Result<(), ErrorCode>)
        ensures
            r == Err::<(), ErrorCode>(ErrorCode::FAIL),
    {
        Err(ErrorCode::FAIL)
    }

    /// Aborting a transmission is not supported.
    pub fn transmit_abort(&self) -> (r: Result<(), ErrorCode>)
        ensures
            r == Err::<(), ErrorCode>(ErrorCode::FAIL),
    {
        Err(ErrorCode::FAIL)
    }

    /// Configures the UART: one stop bit, no parity and no hardware flow
    /// control are the only settings supported (`NOSUPPORT` otherwise). An
    /// active UARTE gets the baud rate written and `Ok`; any other state
    /// gives `INVAL`.
    pub fn configure<PM: PowerManager<Nrf52UartePeripheral>>(&self, pm: &mut PM, params: Parameters) -> (r: (Result<(), ErrorCode>, Vec<UarteCommand>))
        ensures
            uarte_stored(final(pm)) == uarte_stored(old(pm)),
            uarte_copy(final(pm)) == uarte_copy(old(pm)),
            r.0 == if params.stop_bits != StopBits::One || params.parity != Parity::NoParity || params.hw_flow_control {
                Err::<(), ErrorCode>(ErrorCode::NOSUPPORT)
            } else if stored_admitted(uarte_stored(old(pm)), expect_active()) {
                Ok::<(), ErrorCode>(())
            } else {
                Err::<(), ErrorCode>(ErrorCode::INVAL)
            },
            r.1@ == if params.stop_bits == StopBits::One && params.parity == Parity::NoParity && !params.hw_flow_control
                && stored_admitted(uarte_stored(old(pm)), expect_active()) {
                seq![UarteCommand::SetBaudRate(spec_baud_rate_register(params.baud_rate))]
            } else {
                Seq::<UarteCommand>::empty()
            },
    {
        let mut cmds: Vec<UarteCommand> = Vec::new();
        if params.stop_bits != StopBits::One {
            return (Err(ErrorCode::NOSUPPORT), cmds);
        }
        if params.parity != Parity::NoParity {
            return (Err(ErrorCode::NOSUPPORT), cmds);
        }
        if params.hw_flow_control {
            return (Err(ErrorCode::NOSUPPORT), cmds);
        }
        let expected = UarteState::Active(Expect::Any, Expect::Any);
        if run_step(pm, expected, StoreStep::Keep) {
            cmds.push(UarteCommand::SetBaudRate(baud_rate_register(params.baud_rate)));
            assert(cmds@ =~= seq![UarteCommand::SetBaudRate(spec_baud_rate_register(params.baud_rate))]);
            (Ok(()), cmds)
        } else {
            (Err(ErrorCode::INVAL), cmds)
        }
    }

    /// Accepts a buffer to receive up to `rx_len` bytes into (`rx_buf_len` is
    /// the buffer's length): `BUSY` while a receive holds a buffer;
    /// otherwise the buffer is kept, the count to receive set to the smaller
    /// of `rx_len` and the buffer's length, the offset reset, and for a UARTE
    /// in `Active(RxIdle, tx)` the receive is started (`Active(Rx, tx)`).
    pub fn receive_buffer<PM: PowerManager<Nrf52UartePeripheral>>(
        &mut self,
        pm: &mut PM,
        rx_buf: B,
        rx_buf_len: usize,
        rx_len: usize,
    ) -> (r: (Result<(), (ErrorCode, B)>, Vec<UarteCommand>))
        ensures
            uarte_copy(final(pm)) == uarte_copy(old(pm)),
            final(self).spec_tx_client() == old(self).spec_tx_client(),
            final(self).spec_rx_client() == old(self).spec_rx_client(),
            final(self).spec_tx_buffer() == old(self).spec_tx_buffer(),
            old(self)@.rx_busy ==> {
                &&& r.0 == Err::<(), (ErrorCode, B)>((ErrorCode::BUSY, rx_buf))
                &&& r.1@ == Seq::<UarteCommand>::empty()
                &&& *final(self) == *old(self)
                &&& uarte_stored(final(pm)) == uarte_stored(old(pm))
            },
            !old(self)@.rx_busy ==> {
                let count: nat = if rx_len < rx_buf_len { rx_len as nat } else { rx_buf_len as nat };
                &&& r.0 == Ok::<(), (ErrorCode, B)>(())
                &&& final(self).spec_rx_buffer() == Some(rx_buf)
                &&& final(self)@ == (UarteView {
                    rx_busy: true,
                    rx_buffer_len: rx_buf_len as nat,
                    rx_remaining_bytes: count,
                    offset: 0,
                    ..old(self)@
                })
                &&& uarte_stored(final(pm)) == stored_after(uarte_stored(old(pm)), expect_rx_idle(), StoreStep::StartRx)
                &&& r.1@ == if stored_admitted(uarte_stored(old(pm)), expect_rx_idle()) {
                    start_rx_steps(count)
                } else {
                    Seq::empty()
                }
            },
    {
        let mut cmds: Vec<UarteCommand> = Vec::new();
        if self.rx_buffer.is_some() {
            return (Err((ErrorCode::BUSY, rx_buf)), cmds);
        }
        let truncated_length = if rx_len < rx_buf_len { rx_len } else { rx_buf_len };
        self.rx_remaining_bytes = truncated_length;
        self.offset = 0;
        self.rx_buffer = Some(rx_buf);
        self.rx_buffer_len = rx_buf_len;
        let expected = UarteState::Active(Expect::Exactly(RxState::RxIdle), Expect::Any);
        if run_step(pm, expected, StoreStep::StartRx) {
            let to_read: usize = if truncated_length < 255 { truncated_length } else { 255 };
            cmds.push(UarteCommand::PointRxdAtBuffer(0));
            cmds.push(UarteCommand::SetRxdMaxCount(to_read as u32));
            cmds.push(UarteCommand::StopRx);
            cmds.push(UarteCommand::StartRx);
            cmds.push(UarteCommand::SetInterrupts(INTERRUPT_ENDRX));
            assert(cmds@ =~= start_rx_steps(truncated_length as nat));
        } else {
            assert(cmds@ =~= Seq::<UarteCommand>::empty());
        }
        (Ok(()), cmds)
    }

    /// Receiving a single word is not supported.
    pub fn receive_word(&self) -> (r: Result<(), ErrorCode>)
        ensures
            r == Err::<(), ErrorCode>(ErrorCode::FAIL),
    {
        Err(ErrorCode::FAIL)
    }

    /// Aborts a receive: with no receive buffer held there is nothing to
    /// abort (`Ok`); otherwise the abort is marked in progress, a UARTE in
    /// `Active(Rx, tx)` is stopped (`Active(RxIdle, tx)`), and the answer is
    /// `BUSY` (the receive callback comes later).
    pub fn receive_abort<PM: PowerManager<Nrf52UartePeripheral>>(&mut self, pm: &mut PM) -> (r: (Result<(), ErrorCode>, Vec<UarteCommand>))
        ensures
            uarte_copy(final(pm)) == uarte_copy(old(pm)),
            final(self).spec_tx_buffer() == old(self).spec_tx_buffer(),
            final(self).spec_rx_buffer() == old(self).spec_rx_buffer(),
            !old(self)@.rx_busy ==> {
                &&& r.0 == Ok::<(), ErrorCode>(())
                &&& r.1@ == Seq::<UarteCommand>::empty()
                &&& *final(self) == *old(self)
                &&& uarte_stored(final(pm)) == uarte_stored(old(pm))
            },
            old(self)@.rx_busy ==> {
                &&& r.0 == Err::<(), ErrorCode>(ErrorCode::BUSY)
                &&& final(self)@ == (UarteView { rx_abort_in_progress: true, ..old(self)@ })
                &&& if stored_admitted(uarte_stored(old(pm)), expect_rx()) {
                    &&& uarte_stored(final(pm)) matches Some(n)
                    &&& n.substates() == Some((RxState::RxIdle, uarte_stored(old(pm))->Some_0.substates()->Some_0.1))
                    &&& r.1@ == seq![UarteCommand::StopRx]
                } else {
                    &&& uarte_stored(final(pm)) == uarte_stored(old(pm))
                    &&& r.1@ == Seq::<UarteCommand>::empty()
                }
            },
    {
        let mut cmds: Vec<UarteCommand> = Vec::new();
        if self.rx_buffer.is_none() {
            return (Ok(()), cmds);
        }
        self.rx_abort_in_progress = true;
        let stop = |s: Nrf52UarteStore| -> (r: Result<Nrf52UarteStore, PowerError<Nrf52UarteStore>>)
            requires
                s.substates() matches Some((rx, _)) && rx == RxState::Rx,
            ensures
                r matches Ok(n) && n.substates() == Some((RxState::RxIdle, s.substates()->Some_0.1)),
            { Ok(into_stoprx(s)) };
        let expected = UarteState::Active(Expect::Exactly(RxState::Rx), Expect::Any);
        let res = pm.use_power_expecting(&expected, stop);
        if res.is_ok() {
            cmds.push(UarteCommand::StopRx);
        }
        proof {
            if stored_admitted(uarte_stored(old(pm)), expect_rx()) {
                let s = uarte_stored(old(pm))->Some_0;
                let outcome = choose|outcome: Result<Nrf52UarteStore, PowerError<Nrf52UarteStore>>| {
                    &&& call_ensures(stop, (s,), outcome)
                    &&& (res, uarte_stored(final(pm))) == crate::power_manager::use_power_outcome(Some(s), true, outcome)
                };
                assert(outcome is Ok);
            }
        }
        assert(cmds@ =~= seq![UarteCommand::StopRx] || cmds@ =~= Seq::<UarteCommand>::empty());
        (Err(ErrorCode::BUSY), cmds)
    }

    /// Whether the transmission has ended (`EVENTS_ENDTX` is set).
    pub fn tx_ready(&self, registers: &UarteRegisters) -> (b: bool)
        ensures
            b == registers.event_endtx,
    {
        registers.event_endtx
    }

    /// Whether the receive has ended (`EVENTS_ENDRX` is set).
    pub fn rx_ready(&self, registers: &UarteRegisters) -> (b: bool)
        ensures
            b == registers.event_endrx,
    {
        registers.event_endrx
    }

    /// Sends one byte, for the caller to poll `tx_ready`: for a UARTE in
    /// `Active(rx, TxIdle)` one byte remains, the `ENDTX` event is cleared,
    /// the transmit pointer set to the byte, the count to 1, and the
    /// transmission started (`Active(rx, Tx)`); in any other state nothing
    /// happens.
    pub fn send_byte<PM: PowerManager<Nrf52UartePeripheral>>(&mut self, pm: &mut PM, byte: u8) -> (cmds: Vec<UarteCommand>)
        ensures
            uarte_stored(final(pm)) == stored_after(uarte_stored(old(pm)), expect_tx_idle(), StoreStep::StartTx),
            uarte_copy(final(pm)) == uarte_copy(old(pm)),
            final(self).spec_tx_buffer() == old(self).spec_tx_buffer(),
            final(self).spec_rx_buffer() == old(self).spec_rx_buffer(),
            final(self).spec_tx_client() == old(self).spec_tx_client(),
            final(self).spec_rx_client() == old(self).spec_rx_client(),
            stored_admitted(uarte_stored(old(pm)), expect_tx_idle()) ==> {
                &&& final(self)@ == (UarteView { tx_remaining_bytes: 1, ..old(self)@ })
                &&& cmds@ == seq![
                    UarteCommand::ClearEndTx,
                    UarteCommand::PointTxdAtByte(byte),
                    UarteCommand::SetTxdMaxCount(1),
                    UarteCommand::StartTx,
                ]
            },
            !stored_admitted(uarte_stored(old(pm)), expect_tx_idle()) ==> {
                &&& *final(self) == *old(self)
                &&& cmds@ == Seq::<UarteCommand>::empty()
            },
    {
        let mut cmds: Vec<UarteCommand> = Vec::new();
        let expected = UarteState::Active(Expect::Any, Expect::Exactly(TxState::TxIdle));
        if run_step(pm, expected, StoreStep::StartTx) {
            self.tx_remaining_bytes = 1;
            cmds.push(UarteCommand::ClearEndTx);
            cmds.push(UarteCommand::PointTxdAtByte(byte));
            cmds.push(UarteCommand::SetTxdMaxCount(1));
            cmds.push(UarteCommand::StartTx);
            assert(cmds@ =~= seq![
                UarteCommand::ClearEndTx,
                UarteCommand::PointTxdAtByte(byte),
                UarteCommand::SetTxdMaxCount(1),
                UarteCommand::StartTx,
            ]);
        } else {
            assert(cmds@ =~= Seq::<UarteCommand>::empty());
        }
        cmds
    }

    /// The transmit half of the interrupt handler (see `tx_half`).
    fn handle_tx_half<PM: PowerManager<Nrf52UartePeripheral>>(
        &mut self,
        pm: &mut PM,
        registers: UarteRegisters,
    ) -> (r: (Vec<UarteCommand>, Option<TxReport<B, TC>>))
        requires
            tx_half_ok(old(self)@, uarte_stored(old(pm)), registers),
        ensures
            ({
                let t = tx_half(old(self)@, uarte_stored(old(pm)), registers);
                &&& final(self)@ == t.0
                &&& uarte_stored(final(pm)) == t.1
                &&& r.0@ == t.2
                &&& if t.3 {
                    &&& r.1 == Some(TxReport {
                        client: old(self).spec_tx_client()->Some_0,
                        buffer: old(self).spec_tx_buffer()->Some_0,
                        len: old(self)@.tx_len as usize,
                    })
                    &&& final(self).spec_tx_buffer() is None
                } else {
                    &&& r.1 is None
                    &&& final(self).spec_tx_buffer() == old(self).spec_tx_buffer()
                }
            }),
            uarte_copy(final(pm)) == uarte_copy(old(pm)),
            final(self).spec_rx_buffer() == old(self).spec_rx_buffer(),
            final(self).spec_tx_client() == old(self).spec_tx_client(),
            final(self).spec_rx_client() == old(self).spec_rx_client(),
    {
        let ghost v = self@;
        let ghost s0 = uarte_stored(pm);
        let mut cmds: Vec<UarteCommand> = Vec::new();
        let stored = current_store(pm);
        let endtx = registers.event_endtx;
        let tx_bytes = registers.txd_amount as usize;
        let restart = endtx && tx_bytes < self.tx_remaining_bytes;
        let expected = UarteState::Active(Expect::Any, Expect::Exactly(TxState::TxIdle));
        if !run_step(pm, expected, StoreStep::TxEnd(restart)) {
            assert(cmds@ =~= Seq::<UarteCommand>::empty());
            return (cmds, None);
        }
        let idle = match stored {
            Some(s) => match s.active_substates() {
                Some((x, _)) => x == RxState::RxIdle,
                None => false,
            },
            None => false,
        };
        let mut report: Option<TxReport<B, TC>> = None;
        if endtx {
            cmds.push(UarteCommand::ClearInterrupts(INTERRUPT_ENDTX));
            cmds.push(UarteCommand::ClearEndTx);
            if restart {
                let rem = self.tx_remaining_bytes - tx_bytes;
                self.offset = self.offset + tx_bytes;
                self.tx_remaining_bytes = rem;
                if self.tx_buffer.is_some() {
                    cmds.push(UarteCommand::PointTxdAtBuffer(self.offset));
                }
                cmds.push(UarteCommand::SetTxdMaxCount(max_count(rem)));
                cmds.push(UarteCommand::StartTx);
                cmds.push(UarteCommand::SetInterrupts(INTERRUPT_ENDTX));
                proof {
                    let t = tx_half(v, s0, registers);
                    assert(cmds@ =~= t.2);
                }
            } else {
                if self.tx_client.is_some() && self.tx_buffer.is_some() {
                    let client = match self.tx_client {
                        Some(c) => c,
                        None => { return (cmds, None); },
                    };
                    match self.tx_buffer.take() {
                        Some(buffer) => {
                            report = Some(TxReport { client, buffer, len: self.tx_len });
                            cmds.push(UarteCommand::ReportTransmitted);
                        },
                        None => {},
                    }
                }
                if idle {
                    cmds.push(UarteCommand::WriteEnable(UART_ENABLE_OFF));
                }
                proof {
                    let t = tx_half(v, s0, registers);
                    assert(cmds@ =~= t.2);
                }
            }
        } else {
            if idle {
                cmds.push(UarteCommand::WriteEnable(UART_ENABLE_OFF));
            }
            assert(cmds@ =~= tx_half(v, s0, registers).2);
        }
        (cmds, report)
    }

    /// The receive half of the interrupt handler (see `rx_half`).
    fn handle_rx_half<PM: PowerManager<Nrf52UartePeripheral>>(
        &mut self,
        pm: &mut PM,
        registers: UarteRegisters,
    ) -> (r: (Vec<UarteCommand>, Option<RxReport<B, RC>>))
        requires
            rx_half_ok(old(self)@, uarte_stored(old(pm)), registers),
        ensures
            ({
                let t = rx_half(old(self)@, uarte_stored(old(pm)), registers);
                &&& final(self)@ == t.0
                &&& uarte_stored(final(pm)) == t.1
                &&& r.0@ == t.2
                &&& match t.3 {
                    Some((len, result)) => {
                        &&& r.1 == Some(RxReport {
                            client: old(self).spec_rx_client()->Some_0,
                            buffer: old(self).spec_rx_buffer()->Some_0,
                            len: len as usize,
                            result,
                        })
                        &&& final(self).spec_rx_buffer() is None
                    },
                    None => {
                        &&& r.1 is None
                        &&& final(self).spec_rx_buffer() == old(self).spec_rx_buffer()
                    },
                }
            }),
            uarte_copy(final(pm)) == uarte_copy(old(pm)),
            final(self).spec_tx_buffer() == old(self).spec_tx_buffer(),
            final(self).spec_tx_client() == old(self).spec_tx_client(),
            final(self).spec_rx_client() == old(self).spec_rx_client(),
    {
        let ghost v = self@;
        let ghost s0 = uarte_stored(pm);
        let mut cmds: Vec<UarteCommand> = Vec::new();
        let stored = current_store(pm);
        let endrx = registers.event_endrx;
        let rx_bytes = registers.rxd_amount as usize;
        let restart = endrx && !self.rx_abort_in_progress && rx_bytes < self.rx_remaining_bytes;
        let expected = UarteState::Active(Expect::Exactly(RxState::RxIdle), Expect::Any);
        if !run_step(pm, expected, StoreStep::RxEnd(restart)) {
            assert(cmds@ =~= Seq::<UarteCommand>::empty());
            return (cmds, None);
        }
        let idle = match stored {
            Some(s) => match s.active_substates() {
                Some((_, y)) => y == TxState::TxIdle,
                None => false,
            },
            None => false,
        };
        let mut report: Option<RxReport<B, RC>> = None;
        if endrx {
            cmds.push(UarteCommand::ClearInterrupts(INTERRUPT_ENDRX));
            cmds.push(UarteCommand::ClearEndRx);
            if self.rx_abort_in_progress {
                self.rx_abort_in_progress = false;
                if self.rx_client.is_some() && self.rx_buffer.is_some() {
                    let client = match self.rx_client {
                        Some(c) => c,
                        None => { return (cmds, None); },
                    };
                    let len = self.offset + rx_bytes;
                    match self.rx_buffer.take() {
                        Some(buffer) => {
                            report = Some(RxReport { client, buffer, len, result: Err(ErrorCode::CANCEL) });
                            cmds.push(UarteCommand::ReportReceived);
                        },
                        None => {},
                    }
                }
                if idle {
                    cmds.push(UarteCommand::WriteEnable(UART_ENABLE_OFF));
                }
                proof {
                    let t = rx_half(v, s0, registers);
                    assert(cmds@ =~= t.2);
                }
            } else {
                let rem = if self.rx_remaining_bytes > rx_bytes { self.rx_remaining_bytes - rx_bytes } else { 0 };
                self.rx_remaining_bytes = rem;
                self.offset = self.offset + rx_bytes;
                if rem == 0 {
                    if self.rx_client.is_some() && self.rx_buffer.is_some() {
                        let client = match self.rx_client {
                            Some(c) => c,
                            None => { return (cmds, None); },
                        };
                        let len = self.offset;
                        match self.rx_buffer.take() {
                            Some(buffer) => {
                                report = Some(RxReport { client, buffer, len, result: Ok(()) });
                                cmds.push(UarteCommand::ReportReceived);
                            },
                            None => {},
                        }
                    }
                    if idle {
                        cmds.push(UarteCommand::WriteEnable(UART_ENABLE_OFF));
                    }
                    proof {
                        let t = rx_half(v, s0, registers);
                        assert(cmds@ =~= t.2);
                    }
                } else {
                    let to_read: usize = if rem < 255 { rem } else { 255 };
                    cmds.push(UarteCommand::SetRxdMaxCount(to_read as u32));
                    if self.rx_buffer.is_some() {
                        cmds.push(UarteCommand::PointRxdAtBuffer(self.offset));
                    }
                    cmds.push(UarteCommand::StartRx);
                    cmds.push(UarteCommand::SetInterrupts(INTERRUPT_ENDRX));
                    proof {
                        let t = rx_half(v, s0, registers);
                        assert(cmds@ =~= t.2);
                    }
                }
            }
        } else {
            if idle {
                cmds.push(UarteCommand::WriteEnable(UART_ENABLE_OFF));
            }
            assert(cmds@ =~= rx_half(v, s0, registers).2);
        }
        (cmds, report)
    }

    /// Handles the UARTE's interrupt: the transmit half, then the receive
    /// half on the state the first leaves (see `tx_half` and `rx_half`).
    /// The transmit half is not to take more bytes sent than remained, and
    /// neither half an offset that overflows or leaves its buffer.
    pub fn handle_interrupt<PM: PowerManager<Nrf52UartePeripheral>>(
        &mut self,
        pm: &mut PM,
        registers: UarteRegisters,
    ) -> (out: InterruptOutcome<B, TC, RC>)
        requires
            tx_half_ok(old(self)@, uarte_stored(old(pm)), registers),
            rx_half_ok(
                tx_half(old(self)@, uarte_stored(old(pm)), registers).0,
                tx_half(old(self)@, uarte_stored(old(pm)), registers).1,
                registers,
            ),
        ensures
            ({
                let t = tx_half(old(self)@, uarte_stored(old(pm)), registers);
                let u = rx_half(t.0, t.1, registers);
                &&& final(self)@ == u.0
                &&& uarte_stored(final(pm)) == u.1
                &&& out.commands@ == t.2 + u.2
                &&& if t.3 {
                    &&& out.transmitted == Some(TxReport {
                        client: old(self).spec_tx_client()->Some_0,
                        buffer: old(self).spec_tx_buffer()->Some_0,
                        len: old(self)@.tx_len as usize,
                    })
                    &&& final(self).spec_tx_buffer() is None
                } else {
                    &&& out.transmitted is None
                    &&& final(self).spec_tx_buffer() == old(self).spec_tx_buffer()
                }
                &&& match u.3 {
                    Some((len, result)) => {
                        &&& out.received == Some(RxReport {
                            client: old(self).spec_rx_client()->Some_0,
                            buffer: old(self).spec_rx_buffer()->Some_0,
                            len: len as usize,
                            result,
                        })
                        &&& final(self).spec_rx_buffer() is None
                    },
                    None => {
                        &&& out.received is None
                        &&& final(self).spec_rx_buffer() == old(self).spec_rx_buffer()
                    },
                }
            }),
            uarte_copy(final(pm)) == uarte_copy(old(pm)),
            final(self).spec_tx_client() == old(self).spec_tx_client(),
            final(self).spec_rx_client() == old(self).spec_rx_client(),
    {
        let (mut commands, transmitted) = self.handle_tx_half(pm, registers);
        let (mut rx_commands, received) = self.handle_rx_half(pm, registers);
        commands.append(&mut rx_commands);
        InterruptOutcome { commands, transmitted, received }
    }
}

} // verus!
