//! Micro-core: translation of operations and synchronisation between nodes.
//!
//! Three kinds of events are tracked.
//! * Explicit transfers are written in the instruction stream. Their events may
//!   come from an operation that this node has not started yet.
//! * Source operands stored by another node are fetched while the operation is
//!   translated, once the operation that produces them is done.
//! * Destination operands owned by this node may be produced by another one,
//!   which signals each block. These events may also come from the future.
pub mod guard;
pub mod store;
pub mod pool;
pub mod model;
pub mod machine;
pub mod laws;
pub mod translation_laws;
pub mod unit;
pub mod flow;
