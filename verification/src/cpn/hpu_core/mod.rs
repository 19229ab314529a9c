//! Computation core of a node: register file, arithmetic over ciphertexts, and the
//! bridge with the scheduling model.
pub mod bootstrap_laws;
pub mod bsk;
pub mod channels;
pub mod event;
pub mod exec_laws;
pub mod key_laws;
pub mod keys;
pub mod ksk;
pub mod laws;
pub mod lwe;
pub mod memory_laws;
pub mod model;
pub mod order;
pub mod pbs;
pub mod regfile;
pub mod report;
pub mod run;
pub mod sim;
pub mod trace;
pub mod unit;
