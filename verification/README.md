# power_states

Power-state tracking for embedded peripherals, verified with Verus.

A peripheral's register block is always in one power state (the nRF5x
temperature sensor is `Off` or `Reading`; the nRF52 UARTE is `Off` or
`Active(rx, tx)` with receive and transmit substates). A power manager keeps
the current state of each peripheral, and drivers run their operations only
when the stored state is the one the operation expects. A code generator turns
a declaration of the states and of the registers' attributes into the state
types and the register bindings the drivers use.

## Layout

- `src/` — the verified library.
  - `power_manager.rs`: the traits of the power manager, peripherals and
    states; `use_power_expecting` and the laws about what it answers and
    stores.
  - `nrf52840_power_manager.rs`: the chip's power manager.
  - `temperature.rs`, `uart.rs`: the temperature sensor and UARTE drivers as
    state machines that answer requests and list the register steps to carry
    out.
  - `parse.rs`, `path.rs`, `states.rs`, `generate.rs`, `disjunctive.rs`, `bindings.rs`,
    `block.rs`: the code generator's logic, from tokens to a plan of the code
    to emit.
  - `seqs.rs`, `text.rs`, `error_code.rs`: shared helpers.
- `app/` — ordinary Rust around the library: token streams in and out of the
  generator (`syn`, `quote`, `proc-macro2`), and the drivers' memory-mapped
  registers (`tock-registers`).
- `tests/` — tests of the library.
