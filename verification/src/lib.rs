//! Power-state tracking for peripherals: a value-level model of the states a
//! peripheral's register block can be in, the power manager that keeps the
//! current state of each peripheral, the drivers that move peripherals between
//! states, and the logic of the register-block code generator.
mod error_code;
pub mod seqs;
pub mod text;
pub mod power_manager;

pub use error_code::ErrorCode;
pub mod temperature;
pub mod uart;
pub mod nrf52840_power_manager;
pub mod states;
pub mod generate;
pub mod disjunctive;
pub mod bindings;
pub mod parse;
pub mod path;
pub mod block;
