use vstd::prelude::*;
use crate::error_code::ErrorCode;
use crate::power_manager::{PowerManager, Store};
use crate::temperature::{Nrf5xTempPeripheral, Nrf5xTempStore};
use crate::uart::{Nrf52UartePeripheral, Nrf52UarteStore};

verus! {

/// The two slots kept for one peripheral: its stored state and a spare copy.
struct StoreType<S: Store> {
    standard_store: Option<S>,
    copy_store: Option<S>,
}

/// The nRF52840's power manager: it keeps the power state of the temperature
/// sensor and of the UARTE.
pub struct Nrf52840PowerManager {
    nrf5x_temperature_store: StoreType<Nrf5xTempStore>,
    nrf52_uarte_store: StoreType<Nrf52UarteStore>,
}

impl Nrf52840PowerManager {
    /// The temperature sensor's stored state.
    pub closed spec fn temp_stored(&self) -> Option<Nrf5xTempStore> {
        self.nrf5x_temperature_store.standard_store
    }

    /// The spare copy of the temperature sensor's state.
    pub closed spec fn temp_copy(&self) -> Option<Nrf5xTempStore> {
        self.nrf5x_temperature_store.copy_store
    }

    /// The UARTE's stored state.
    pub closed spec fn uarte_stored(&self) -> Option<Nrf52UarteStore> {
        self.nrf52_uarte_store.standard_store
    }

    /// The spare copy of the UARTE's state.
    pub closed spec fn uarte_copy(&self) -> Option<Nrf52UarteStore> {
        self.nrf52_uarte_store.copy_store
    }

    /// A power manager with every peripheral off and no spare copies.
    pub fn new() -> (pm: Nrf52840PowerManager)
        ensures
            pm.temp_stored() == Some(Nrf5xTempStore::Off),
            pm.temp_copy() == None::<Nrf5xTempStore>,
            pm.uarte_stored() == Some(Nrf52UarteStore::Off),
            pm.uarte_copy() == None::<Nrf52UarteStore>,
    {
        Nrf52840PowerManager {
            nrf5x_temperature_store: StoreType {
                standard_store: Some(Nrf5xTempStore::Off),
                copy_store: None,
            },
            nrf52_uarte_store: StoreType {
                standard_store: Some(Nrf52UarteStore::Off),
                copy_store: None,
            },
        }
    }
}

impl PowerManager<Nrf5xTempPeripheral> for Nrf52840PowerManager {
    open spec fn stored(&self) -> Option<Nrf5xTempStore> {
        self.temp_stored()
    }

    open spec fn stored_copy(&self) -> Option<Nrf5xTempStore> {
        self.temp_copy()
    }

    open spec fn keeps_others(&self, before: &Self) -> bool {
        self.uarte_stored() == before.uarte_stored() && self.uarte_copy() == before.uarte_copy()
    }

    proof fn lemma_keeps_others(a: &Self, b: &Self, c: &Self) {
    }

    fn store_power(&mut self, val: Nrf5xTempStore)
    {
        self.nrf5x_temperature_store.standard_store = Some(val);
    }

    fn retrieve_power(&mut self) -> Result<Nrf5xTempStore, ErrorCode>
    {
        match self.nrf5x_temperature_store.standard_store.take() {
            None => Err(ErrorCode::INVAL),
            Some(store) => Ok(store),
        }
    }

    fn store_power_copy(&mut self, val: Nrf5xTempStore)
    {
        self.nrf5x_temperature_store.copy_store = Some(val);
    }

    fn retrieve_power_copy(&mut self) -> Option<Nrf5xTempStore>
    {
        self.nrf5x_temperature_store.copy_store.take()
    }
}

impl PowerManager<Nrf52UartePeripheral> for Nrf52840PowerManager {
    open spec fn stored(&self) -> Option<Nrf52UarteStore> {
        self.uarte_stored()
    }

    open spec fn stored_copy(&self) -> Option<Nrf52UarteStore> {
        self.uarte_copy()
    }

    open spec fn keeps_others(&self, before: &Self) -> bool {
        self.temp_stored() == before.temp_stored() && self.temp_copy() == before.temp_copy()
    }

    proof fn lemma_keeps_others(a: &Self, b: &Self, c: &Self) {
    }

    fn store_power(&mut self, val: Nrf52UarteStore)
    {
        self.nrf52_uarte_store.standard_store = Some(val);
    }

    fn retrieve_power(&mut self) -> Result<Nrf52UarteStore, ErrorCode>
    {
        match self.nrf52_uarte_store.standard_store.take() {
            None => Err(ErrorCode::INVAL),
            Some(store) => Ok(store),
        }
    }

    fn store_power_copy(&mut self, val: Nrf52UarteStore)
    {
        self.nrf52_uarte_store.copy_store = Some(val);
    }

    fn retrieve_power_copy(&mut self) -> Option<Nrf52UarteStore>
    {
        self.nrf52_uarte_store.copy_store.take()
    }
}

} // verus!
