//! Simulation model of a cluster of homomorphic processing units (HPU).
//!
//! A cluster is a set of nodes. Each node holds memories, a register map, a
//! micro-core that translates the operations received from the host, and a
//! computation core that runs the translated instructions.
pub mod cpn;
pub mod elaborate;
pub mod params;
