//! Daily announcer of the Tempo electricity tariff colour.
//!
//! The library holds the decisions of the announcer: what a feed response
//! means, how a day is rendered for each channel, when a publish session has
//! round-tripped, and what one polling cycle does next. Reading the clock,
//! the ledger file and the network is left to the program around it.

pub mod calendar;
pub mod json;
pub mod mqtt;
pub mod orchestrator;
pub mod state;
pub mod store;
pub mod telegram;
pub mod tempo;
pub mod text;
