//! Register map of a node.
//!
//! Only the configuration registers are modelled.
pub mod laws;
pub mod name_laws;
pub mod preset;
pub mod register;
pub mod unit;
pub mod value_laws;
