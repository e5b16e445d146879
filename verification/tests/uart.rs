use power_states::nrf52840_power_manager::Nrf52840PowerManager;
use power_states::power_manager::{Merge, PowerManager};
use power_states::uart::{
    baud_rate_register, max_count, psel_optional, psel_pin, Nrf52UartePeripheral, Nrf52UarteStore,
    Expect, Parameters, Parity, StopBits, Uarte, UarteCommand, UarteRegisters, UarteState, Width,
    INTERRUPT_ENDRX, INTERRUPT_ENDTX,
};
use power_states::ErrorCode;

fn stored(pm: &mut Nrf52840PowerManager) -> Result<Nrf52UarteStore, ErrorCode> {
    let r = PowerManager::<Nrf52UartePeripheral>::retrieve_power(pm);
    if let Ok(s) = r {
        PowerManager::<Nrf52UartePeripheral>::store_power(pm, s);
    }
    r
}

fn set(pm: &mut Nrf52840PowerManager, s: Nrf52UarteStore) {
    PowerManager::<Nrf52UartePeripheral>::store_power(pm, s);
}

fn events(endrx: bool, endtx: bool) -> UarteRegisters {
    UarteRegisters { event_endtx: endtx, event_endrx: endrx, txd_amount: 0, rxd_amount: 0 }
}

#[test]
fn sync_state_ends_finished_transfers() {
    assert_eq!(Nrf52UarteStore::ActiveRx.sync_state(&events(true, false)), Nrf52UarteStore::ActiveIdle);
    assert_eq!(Nrf52UarteStore::ActiveRx.sync_state(&events(false, true)), Nrf52UarteStore::ActiveRx);
    assert_eq!(Nrf52UarteStore::ActiveTx.sync_state(&events(false, true)), Nrf52UarteStore::ActiveIdle);
    assert_eq!(Nrf52UarteStore::ActiveRxTx.sync_state(&events(true, false)), Nrf52UarteStore::ActiveTx);
    assert_eq!(Nrf52UarteStore::ActiveRxTx.sync_state(&events(false, true)), Nrf52UarteStore::ActiveRx);
    assert_eq!(Nrf52UarteStore::ActiveRxTx.sync_state(&events(true, true)), Nrf52UarteStore::ActiveIdle);
    assert_eq!(Nrf52UarteStore::ActiveRxTx.sync_state(&events(false, false)), Nrf52UarteStore::ActiveRxTx);
    assert_eq!(Nrf52UarteStore::Off.sync_state(&events(true, true)), Nrf52UarteStore::Off);
    assert_eq!(Nrf52UarteStore::ActiveIdle.sync_state(&events(true, true)), Nrf52UarteStore::ActiveIdle);
}

#[test]
fn sync_state_twice_is_sync_state_once() {
    for s in [
        Nrf52UarteStore::Off,
        Nrf52UarteStore::ActiveIdle,
        Nrf52UarteStore::ActiveRx,
        Nrf52UarteStore::ActiveTx,
        Nrf52UarteStore::ActiveRxTx,
    ] {
        for (rx, tx) in [(false, false), (true, false), (false, true), (true, true)] {
            let once = s.sync_state(&events(rx, tx));
            assert_eq!(once.sync_state(&events(rx, tx)), once);
        }
    }
}

#[test]
fn baud_rates_map_to_register_values() {
    assert_eq!(baud_rate_register(1200), 0x0004F000);
    assert_eq!(baud_rate_register(9600), 0x00275000);
    assert_eq!(baud_rate_register(115200), 0x01D60000);
    assert_eq!(baud_rate_register(1000000), 0x10000000);
    // An unknown rate is set as 115200.
    assert_eq!(baud_rate_register(300), 0x01D60000);
    assert_eq!(baud_rate_register(0), baud_rate_register(115200));
}

#[test]
fn pin_selection_values() {
    assert_eq!(psel_pin(6), 6);
    assert_eq!(psel_pin(0x47), 0x07);
    assert_eq!(psel_optional(Some(8)), 8);
    assert_eq!(psel_optional(None), 0x8000_0000);
}

#[test]
fn dma_counts_are_capped() {
    assert_eq!(max_count(10), 10);
    assert_eq!(max_count(255), 255);
    assert_eq!(max_count(1000), 255);
}

type U = Uarte<Vec<u8>, u8, u16>;

fn events_with(endtx: bool, txd: u32, endrx: bool, rxd: u32) -> UarteRegisters {
    UarteRegisters { event_endtx: endtx, event_endrx: endrx, txd_amount: txd, rxd_amount: rxd }
}

#[test]
fn initialize_enables_an_off_uarte() {
    let mut pm = Nrf52840PowerManager::new();
    let u: U = Uarte::new();
    let cmds = u.initialize(&mut pm, 6, 8, None, Some(5));
    assert_eq!(
        cmds,
        vec![
            UarteCommand::SelectTxdPin(6),
            UarteCommand::SelectRxdPin(8),
            UarteCommand::SelectCtsPin(0x8000_0000),
            UarteCommand::SelectRtsPin(5),
            UarteCommand::ClearEndTx,
            UarteCommand::WriteEnable(8),
        ]
    );
    assert_eq!(stored(&mut pm), Ok(Nrf52UarteStore::ActiveIdle));
    // Initializing again does nothing.
    assert!(u.initialize(&mut pm, 1, 2, None, None).is_empty());
    assert_eq!(stored(&mut pm), Ok(Nrf52UarteStore::ActiveIdle));
}

#[test]
fn transmit_buffer_checks_the_length() {
    let mut pm = Nrf52840PowerManager::new();
    let mut u: U = Uarte::new();
    let (r, cmds) = u.transmit_buffer(&mut pm, vec![1u8, 2, 3], 3, 0);
    assert_eq!(r, Err((ErrorCode::SIZE, vec![1u8, 2, 3])));
    assert!(cmds.is_empty());
    let (r, _) = u.transmit_buffer(&mut pm, vec![1u8, 2, 3], 3, 4);
    assert_eq!(r, Err((ErrorCode::SIZE, vec![1u8, 2, 3])));
    assert!(u.tx_buffer().is_none());
}

#[test]
fn transmit_buffer_holds_the_buffer_and_refuses_a_second() {
    let mut pm = Nrf52840PowerManager::new();
    let mut u: U = Uarte::new();
    let (r, cmds) = u.transmit_buffer(&mut pm, vec![1u8, 2, 3], 3, 2);
    assert_eq!(r, Ok(()));
    // An off UARTE does not start transmitting.
    assert!(cmds.is_empty());
    assert_eq!(u.tx_buffer(), Some(&vec![1u8, 2, 3]));
    assert_eq!(u.tx_remaining_bytes(), 2);
    let (r, _) = u.transmit_buffer(&mut pm, vec![9u8], 1, 1);
    assert_eq!(r, Err((ErrorCode::BUSY, vec![9u8])));
    assert_eq!(stored(&mut pm), Ok(Nrf52UarteStore::Off));
}

#[test]
fn transmit_buffer_starts_an_idle_transmitter() {
    let mut pm = Nrf52840PowerManager::new();
    let mut u: U = Uarte::new();
    set(&mut pm, Nrf52UarteStore::ActiveRx);
    let (r, cmds) = u.transmit_buffer(&mut pm, vec![0u8; 600], 600, 600);
    assert_eq!(r, Ok(()));
    assert_eq!(
        cmds,
        vec![
            UarteCommand::PointTxdAtBuffer(0),
            UarteCommand::SetTxdMaxCount(255),
            UarteCommand::StartTx,
            UarteCommand::SetInterrupts(INTERRUPT_ENDTX),
        ]
    );
    assert_eq!(stored(&mut pm), Ok(Nrf52UarteStore::ActiveRxTx));
}

#[test]
fn word_transfers_are_not_supported() {
    let u: U = Uarte::new();
    assert_eq!(u.transmit_word(7), Err(ErrorCode::FAIL));
    assert_eq!(u.transmit_abort(), Err(ErrorCode::FAIL));
    assert_eq!(u.receive_word(), Err(ErrorCode::FAIL));
}

#[test]
fn configure_rejects_unsupported_settings() {
    let mut pm = Nrf52840PowerManager::new();
    let u: U = Uarte::new();
    let ok = Parameters {
        baud_rate: 115200,
        width: Width::Eight,
        parity: Parity::NoParity,
        stop_bits: StopBits::One,
        hw_flow_control: false,
    };
    assert_eq!(u.configure(&mut pm, Parameters { stop_bits: StopBits::Two, ..ok }), (Err(ErrorCode::NOSUPPORT), vec![]));
    assert_eq!(u.configure(&mut pm, Parameters { parity: Parity::Even, ..ok }), (Err(ErrorCode::NOSUPPORT), vec![]));
    assert_eq!(u.configure(&mut pm, Parameters { hw_flow_control: true, ..ok }), (Err(ErrorCode::NOSUPPORT), vec![]));
    // A UARTE that is off cannot be configured.
    assert_eq!(u.configure(&mut pm, ok), (Err(ErrorCode::INVAL), vec![]));
    assert_eq!(stored(&mut pm), Ok(Nrf52UarteStore::Off));
}

#[test]
fn configure_writes_the_baud_rate_of_an_active_uarte() {
    let mut pm = Nrf52840PowerManager::new();
    let u: U = Uarte::new();
    set(&mut pm, Nrf52UarteStore::ActiveTx);
    let params = Parameters {
        baud_rate: 9600,
        width: Width::Eight,
        parity: Parity::NoParity,
        stop_bits: StopBits::One,
        hw_flow_control: false,
    };
    assert_eq!(u.configure(&mut pm, params), (Ok(()), vec![UarteCommand::SetBaudRate(0x00275000)]));
    assert_eq!(stored(&mut pm), Ok(Nrf52UarteStore::ActiveTx));
}

#[test]
fn receive_buffer_truncates_to_the_buffer() {
    let mut pm = Nrf52840PowerManager::new();
    let mut u: U = Uarte::new();
    let (r, cmds) = u.receive_buffer(&mut pm, vec![0u8; 4], 4, 10);
    assert_eq!(r, Ok(()));
    assert!(cmds.is_empty());
    assert_eq!(u.rx_remaining_bytes(), 4);
    let (r, _) = u.receive_buffer(&mut pm, vec![0u8; 2], 2, 1);
    assert_eq!(r, Err((ErrorCode::BUSY, vec![0u8; 2])));
}

#[test]
fn receive_buffer_starts_an_idle_receiver() {
    let mut pm = Nrf52840PowerManager::new();
    let mut u: U = Uarte::new();
    set(&mut pm, Nrf52UarteStore::ActiveTx);
    let (r, cmds) = u.receive_buffer(&mut pm, vec![0u8; 600], 600, 1000);
    assert_eq!(r, Ok(()));
    assert_eq!(
        cmds,
        vec![
            UarteCommand::PointRxdAtBuffer(0),
            UarteCommand::SetRxdMaxCount(255),
            UarteCommand::StopRx,
            UarteCommand::StartRx,
            UarteCommand::SetInterrupts(INTERRUPT_ENDRX),
        ]
    );
    assert_eq!(u.rx_remaining_bytes(), 600);
    assert_eq!(stored(&mut pm), Ok(Nrf52UarteStore::ActiveRxTx));
}

#[test]
fn receive_abort_without_receive_is_ok() {
    let mut pm = Nrf52840PowerManager::new();
    let mut u: U = Uarte::new();
    let (r, cmds) = u.receive_abort(&mut pm);
    assert_eq!(r, Ok(()));
    assert!(cmds.is_empty());
}

#[test]
fn receive_abort_stops_a_receive_in_progress() {
    let mut pm = Nrf52840PowerManager::new();
    let mut u: U = Uarte::new();
    assert_eq!(u.receive_buffer(&mut pm, vec![0u8; 4], 4, 4).0, Ok(()));
    set(&mut pm, Nrf52UarteStore::ActiveRxTx);
    let (r, cmds) = u.receive_abort(&mut pm);
    assert_eq!(r, Err(ErrorCode::BUSY));
    assert_eq!(cmds, vec![UarteCommand::StopRx]);
    assert_eq!(stored(&mut pm), Ok(Nrf52UarteStore::ActiveTx));
    // In a state without a receive running, only the flag changes.
    let (r, cmds) = u.receive_abort(&mut pm);
    assert_eq!(r, Err(ErrorCode::BUSY));
    assert!(cmds.is_empty());
    assert_eq!(stored(&mut pm), Ok(Nrf52UarteStore::ActiveTx));
}

#[test]
fn interrupt_restarts_a_partial_transmission() {
    let mut pm = Nrf52840PowerManager::new();
    let mut u: U = Uarte::new();
    assert_eq!(u.transmit_buffer(&mut pm, vec![0u8; 600], 600, 600).0, Ok(()));
    set(&mut pm, Nrf52UarteStore::ActiveRx);
    let out = u.handle_interrupt(&mut pm, events_with(true, 255, false, 0));
    assert_eq!(
        out.commands,
        vec![
            UarteCommand::ClearInterrupts(INTERRUPT_ENDTX),
            UarteCommand::ClearEndTx,
            UarteCommand::PointTxdAtBuffer(255),
            UarteCommand::SetTxdMaxCount(255),
            UarteCommand::StartTx,
            UarteCommand::SetInterrupts(INTERRUPT_ENDTX),
        ]
    );
    assert!(out.transmitted.is_none() && out.received.is_none());
    assert_eq!(u.offset(), 255);
    assert_eq!(u.tx_remaining_bytes(), 345);
    assert_eq!(stored(&mut pm), Ok(Nrf52UarteStore::ActiveRxTx));
}

#[test]
fn interrupt_reports_a_finished_transmission_and_powers_off_an_idle_uarte() {
    let mut pm = Nrf52840PowerManager::new();
    let mut u: U = Uarte::new();
    u.set_transmit_client(7);
    assert_eq!(u.transmit_buffer(&mut pm, vec![1u8, 2, 3], 3, 3).0, Ok(()));
    set(&mut pm, Nrf52UarteStore::ActiveIdle);
    let out = u.handle_interrupt(&mut pm, events_with(true, 3, false, 0));
    assert_eq!(
        out.commands,
        vec![
            UarteCommand::ClearInterrupts(INTERRUPT_ENDTX),
            UarteCommand::ClearEndTx,
            UarteCommand::ReportTransmitted,
            UarteCommand::WriteEnable(0),
        ]
    );
    match out.transmitted {
        Some(t) => {
            assert_eq!(t.client, 7);
            assert_eq!(t.buffer, vec![1u8, 2, 3]);
            assert_eq!(t.len, 3);
        },
        None => panic!("expected a transmit report"),
    }
    assert!(out.received.is_none());
    assert!(u.tx_buffer().is_none());
    assert_eq!(stored(&mut pm), Ok(Nrf52UarteStore::Off));
}

#[test]
fn finished_transmission_without_client_keeps_the_buffer_while_receiving() {
    let mut pm = Nrf52840PowerManager::new();
    let mut u: U = Uarte::new();
    assert_eq!(u.transmit_buffer(&mut pm, vec![1u8, 2], 2, 2).0, Ok(()));
    set(&mut pm, Nrf52UarteStore::ActiveRx);
    let out = u.handle_interrupt(&mut pm, events_with(true, 2, false, 0));
    assert_eq!(out.commands, vec![UarteCommand::ClearInterrupts(INTERRUPT_ENDTX), UarteCommand::ClearEndTx]);
    assert!(out.transmitted.is_none());
    assert_eq!(u.tx_buffer(), Some(&vec![1u8, 2]));
    assert_eq!(stored(&mut pm), Ok(Nrf52UarteStore::ActiveRx));
}

#[test]
fn interrupt_without_events_powers_off_an_idle_uarte() {
    let mut pm = Nrf52840PowerManager::new();
    let mut u: U = Uarte::new();
    set(&mut pm, Nrf52UarteStore::ActiveIdle);
    let out = u.handle_interrupt(&mut pm, events_with(false, 0, false, 0));
    assert_eq!(out.commands, vec![UarteCommand::WriteEnable(0)]);
    assert_eq!(stored(&mut pm), Ok(Nrf52UarteStore::Off));
    // Transmitting and receiving, nothing happens.
    set(&mut pm, Nrf52UarteStore::ActiveRxTx);
    assert!(u.handle_interrupt(&mut pm, events_with(true, 1, true, 1)).commands.is_empty());
    assert_eq!(stored(&mut pm), Ok(Nrf52UarteStore::ActiveRxTx));
    // Off, nothing happens.
    set(&mut pm, Nrf52UarteStore::Off);
    assert!(u.handle_interrupt(&mut pm, events_with(true, 1, true, 1)).commands.is_empty());
}

#[test]
fn interrupt_reports_a_finished_receive() {
    let mut pm = Nrf52840PowerManager::new();
    let mut u: U = Uarte::new();
    u.set_receive_client(9);
    assert_eq!(u.receive_buffer(&mut pm, vec![0u8; 4], 4, 4).0, Ok(()));
    set(&mut pm, Nrf52UarteStore::ActiveTx);
    let out = u.handle_interrupt(&mut pm, events_with(false, 0, true, 4));
    assert_eq!(
        out.commands,
        vec![
            UarteCommand::ClearInterrupts(INTERRUPT_ENDRX),
            UarteCommand::ClearEndRx,
            UarteCommand::ReportReceived,
        ]
    );
    match out.received {
        Some(r) => {
            assert_eq!(r.client, 9);
            assert_eq!(r.len, 4);
            assert_eq!(r.result, Ok(()));
        },
        None => panic!("expected a receive report"),
    }
    assert!(u.rx_buffer().is_none());
    assert_eq!(stored(&mut pm), Ok(Nrf52UarteStore::ActiveTx));
}

#[test]
fn interrupt_restarts_a_partial_receive() {
    let mut pm = Nrf52840PowerManager::new();
    let mut u: U = Uarte::new();
    u.set_receive_client(9);
    assert_eq!(u.receive_buffer(&mut pm, vec![0u8; 600], 600, 600).0, Ok(()));
    set(&mut pm, Nrf52UarteStore::ActiveTx);
    let out = u.handle_interrupt(&mut pm, events_with(false, 0, true, 100));
    assert_eq!(
        out.commands,
        vec![
            UarteCommand::ClearInterrupts(INTERRUPT_ENDRX),
            UarteCommand::ClearEndRx,
            UarteCommand::SetRxdMaxCount(255),
            UarteCommand::PointRxdAtBuffer(100),
            UarteCommand::StartRx,
            UarteCommand::SetInterrupts(INTERRUPT_ENDRX),
        ]
    );
    assert!(out.received.is_none());
    assert_eq!(u.rx_remaining_bytes(), 500);
    assert_eq!(u.offset(), 100);
    assert_eq!(stored(&mut pm), Ok(Nrf52UarteStore::ActiveRxTx));
}

#[test]
fn interrupt_ends_an_aborted_receive_with_cancel() {
    let mut pm = Nrf52840PowerManager::new();
    let mut u: U = Uarte::new();
    u.set_receive_client(9);
    assert_eq!(u.receive_buffer(&mut pm, vec![0u8; 8], 8, 8).0, Ok(()));
    assert_eq!(u.receive_abort(&mut pm).0, Err(ErrorCode::BUSY));
    assert!(u.rx_abort_in_progress());
    set(&mut pm, Nrf52UarteStore::ActiveTx);
    let out = u.handle_interrupt(&mut pm, events_with(false, 0, true, 2));
    assert_eq!(
        out.commands,
        vec![
            UarteCommand::ClearInterrupts(INTERRUPT_ENDRX),
            UarteCommand::ClearEndRx,
            UarteCommand::ReportReceived,
        ]
    );
    match out.received {
        Some(r) => {
            assert_eq!(r.len, 2);
            assert_eq!(r.result, Err(ErrorCode::CANCEL));
        },
        None => panic!("expected a receive report"),
    }
    assert!(!u.rx_abort_in_progress());
    assert_eq!(stored(&mut pm), Ok(Nrf52UarteStore::ActiveTx));
}

#[test]
fn send_byte_outside_active_tx_idle_does_nothing() {
    let mut pm = Nrf52840PowerManager::new();
    let mut u: U = Uarte::new();
    assert!(u.send_byte(&mut pm, 0x41).is_empty());
    assert_eq!(stored(&mut pm), Ok(Nrf52UarteStore::Off));
}

#[test]
fn send_byte_starts_a_one_byte_transmission() {
    let mut pm = Nrf52840PowerManager::new();
    let mut u: U = Uarte::new();
    set(&mut pm, Nrf52UarteStore::ActiveRx);
    let cmds = u.send_byte(&mut pm, 0x41);
    assert_eq!(
        cmds,
        vec![
            UarteCommand::ClearEndTx,
            UarteCommand::PointTxdAtByte(0x41),
            UarteCommand::SetTxdMaxCount(1),
            UarteCommand::StartTx,
        ]
    );
    assert_eq!(u.tx_remaining_bytes(), 1);
    assert_eq!(stored(&mut pm), Ok(Nrf52UarteStore::ActiveRxTx));
}

#[test]
fn ready_flags_follow_the_end_events() {
    let u: U = Uarte::new();
    let regs = UarteRegisters { event_endtx: true, event_endrx: false, txd_amount: 0, rxd_amount: 0 };
    assert!(u.tx_ready(&regs));
    assert!(!u.rx_ready(&regs));
    let regs = UarteRegisters { event_endtx: false, event_endrx: true, ..regs };
    assert!(!u.tx_ready(&regs));
    assert!(u.rx_ready(&regs));
}

#[test]
fn merging_keeps_a_stored_state_of_the_same_state() {
    let any = UarteState::Active(Expect::Any, Expect::Any);
    assert_eq!(any.merge(Nrf52UarteStore::ActiveRx), Ok(Nrf52UarteStore::ActiveRx));
    assert_eq!(any.merge(Nrf52UarteStore::Off), Err(Nrf52UarteStore::Off));
    assert_eq!(UarteState::Off.merge(Nrf52UarteStore::Off), Ok(Nrf52UarteStore::Off));
    assert_eq!(UarteState::Off.merge(Nrf52UarteStore::ActiveTx), Err(Nrf52UarteStore::ActiveTx));
}
