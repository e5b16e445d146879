use power_states::nrf52840_power_manager::Nrf52840PowerManager;
use power_states::power_manager::{PowerError, PowerManager, StateEnum};
use power_states::temperature::{Nrf5xTempPeripheral, Nrf5xTempStore};
use power_states::uart::{Expect, Nrf52UartePeripheral, Nrf52UarteStore, RxState, TxState, UarteState};
use power_states::ErrorCode;

fn temp_retrieve(pm: &mut Nrf52840PowerManager) -> Result<Nrf5xTempStore, ErrorCode> {
    PowerManager::<Nrf5xTempPeripheral>::retrieve_power(pm)
}

fn uarte_retrieve(pm: &mut Nrf52840PowerManager) -> Result<Nrf52UarteStore, ErrorCode> {
    PowerManager::<Nrf52UartePeripheral>::retrieve_power(pm)
}

#[test]
fn new_power_manager_has_every_peripheral_off() {
    let mut pm = Nrf52840PowerManager::new();
    assert_eq!(temp_retrieve(&mut pm), Ok(Nrf5xTempStore::Off));
    assert_eq!(uarte_retrieve(&mut pm), Ok(Nrf52UarteStore::Off));
    assert_eq!(PowerManager::<Nrf5xTempPeripheral>::retrieve_power_copy(&mut pm), None);
    assert_eq!(PowerManager::<Nrf52UartePeripheral>::retrieve_power_copy(&mut pm), None);
}

#[test]
fn retrieve_takes_the_state_out() {
    let mut pm = Nrf52840PowerManager::new();
    assert_eq!(temp_retrieve(&mut pm), Ok(Nrf5xTempStore::Off));
    assert_eq!(temp_retrieve(&mut pm), Err(ErrorCode::INVAL));
    // The other peripheral is untouched.
    assert_eq!(uarte_retrieve(&mut pm), Ok(Nrf52UarteStore::Off));
}

#[test]
fn store_then_retrieve_gives_back_the_state() {
    let mut pm = Nrf52840PowerManager::new();
    PowerManager::<Nrf5xTempPeripheral>::store_power(&mut pm, Nrf5xTempStore::Reading);
    assert_eq!(temp_retrieve(&mut pm), Ok(Nrf5xTempStore::Reading));
    PowerManager::<Nrf52UartePeripheral>::store_power(&mut pm, Nrf52UarteStore::ActiveRxTx);
    assert_eq!(uarte_retrieve(&mut pm), Ok(Nrf52UarteStore::ActiveRxTx));
}

#[test]
fn copies_are_kept_apart_from_the_state() {
    let mut pm = Nrf52840PowerManager::new();
    PowerManager::<Nrf5xTempPeripheral>::store_power_copy(&mut pm, Nrf5xTempStore::Reading);
    assert_eq!(temp_retrieve(&mut pm), Ok(Nrf5xTempStore::Off));
    assert_eq!(
        PowerManager::<Nrf5xTempPeripheral>::retrieve_power_copy(&mut pm),
        Some(Nrf5xTempStore::Reading)
    );
    assert_eq!(PowerManager::<Nrf5xTempPeripheral>::retrieve_power_copy(&mut pm), None);
}

#[test]
fn copy_store_copies() {
    assert_eq!(Nrf52UarteStore::ActiveTx.copy_store(), Nrf52UarteStore::ActiveTx);
    assert_eq!(Nrf5xTempStore::Reading.copy_store(), Nrf5xTempStore::Reading);
}

#[test]
fn use_power_runs_the_operation_in_the_expected_state() {
    let mut pm = Nrf52840PowerManager::new();
    let r = PowerManager::<Nrf5xTempPeripheral>::use_power_expecting(
        &mut pm,
        &Nrf5xTempStore::Off,
        |s: Nrf5xTempStore| {
            assert_eq!(s, Nrf5xTempStore::Off);
            Ok(Nrf5xTempStore::Reading)
        },
    );
    assert_eq!(r, Ok(()));
    assert_eq!(temp_retrieve(&mut pm), Ok(Nrf5xTempStore::Reading));
}

#[test]
fn use_power_refuses_another_state_and_keeps_it() {
    let mut pm = Nrf52840PowerManager::new();
    let r = PowerManager::<Nrf5xTempPeripheral>::use_power_expecting(
        &mut pm,
        &Nrf5xTempStore::Reading,
        |_s: Nrf5xTempStore| -> Result<Nrf5xTempStore, PowerError<Nrf5xTempStore>> {
            panic!("the operation must not run")
        },
    );
    assert_eq!(r, Err(ErrorCode::INVAL));
    assert_eq!(temp_retrieve(&mut pm), Ok(Nrf5xTempStore::Off));
}

#[test]
fn use_power_stores_the_state_a_failed_operation_hands_back() {
    let mut pm = Nrf52840PowerManager::new();
    let r = PowerManager::<Nrf5xTempPeripheral>::use_power_expecting(
        &mut pm,
        &Nrf5xTempStore::Off,
        |s: Nrf5xTempStore| Err(PowerError(s, ErrorCode::BUSY)),
    );
    assert_eq!(r, Err(ErrorCode::BUSY));
    assert_eq!(temp_retrieve(&mut pm), Ok(Nrf5xTempStore::Off));
}

#[test]
fn use_power_without_stored_state_is_refused() {
    let mut pm = Nrf52840PowerManager::new();
    let _ = temp_retrieve(&mut pm);
    let r = PowerManager::<Nrf5xTempPeripheral>::use_power_expecting(
        &mut pm,
        &Nrf5xTempStore::Off,
        |s: Nrf5xTempStore| Ok(s),
    );
    assert_eq!(r, Err(ErrorCode::INVAL));
    assert_eq!(temp_retrieve(&mut pm), Err(ErrorCode::INVAL));
}

#[test]
fn use_power_with_any_substate_matches_every_active_state() {
    let mut pm = Nrf52840PowerManager::new();
    PowerManager::<Nrf52UartePeripheral>::store_power(&mut pm, Nrf52UarteStore::ActiveRx);
    let expected = UarteState::Active(Expect::Any, Expect::Exactly(TxState::TxIdle));
    let r = PowerManager::<Nrf52UartePeripheral>::use_power_expecting(&mut pm, &expected, |s: Nrf52UarteStore| {
        assert_eq!(s, Nrf52UarteStore::ActiveRx);
        Ok(Nrf52UarteStore::ActiveRxTx)
    });
    assert_eq!(r, Ok(()));
    assert_eq!(uarte_retrieve(&mut pm), Ok(Nrf52UarteStore::ActiveRxTx));

    PowerManager::<Nrf52UartePeripheral>::store_power(&mut pm, Nrf52UarteStore::ActiveTx);
    let r = PowerManager::<Nrf52UartePeripheral>::use_power_expecting(&mut pm, &expected, |s: Nrf52UarteStore| Ok(s));
    assert_eq!(r, Err(ErrorCode::INVAL));
    assert_eq!(uarte_retrieve(&mut pm), Ok(Nrf52UarteStore::ActiveTx));
}

#[test]
fn expected_states_admit_exactly_their_stored_states() {
    let exact = UarteState::Active(Expect::Exactly(RxState::Rx), Expect::Exactly(TxState::Tx));
    assert!(exact.admits_store(&Nrf52UarteStore::ActiveRxTx));
    assert!(!exact.admits_store(&Nrf52UarteStore::ActiveRx));
    assert!(!UarteState::Off.admits_store(&Nrf52UarteStore::ActiveIdle));
    assert!(UarteState::Off.admits_store(&Nrf52UarteStore::Off));
    let any = UarteState::Active(Expect::Any, Expect::Any);
    assert!(!any.admits_store(&Nrf52UarteStore::Off));
    assert!(any.admits_store(&Nrf52UarteStore::ActiveIdle));
}

#[test]
fn error_codes_have_the_kernel_numbers() {
    assert_eq!(ErrorCode::FAIL.number(), 1);
    assert_eq!(ErrorCode::INVAL.number(), 6);
    assert_eq!(ErrorCode::NOACK.number(), 13);
}
