//! Components of an HPU node.
pub mod bytes;
pub mod encoding;
pub mod hpu_cluster;
pub mod hpu_core;
pub mod hpu_node;
pub mod insn;
pub mod iop;
pub mod isc_trace;
pub mod layout;
pub mod payload;
pub mod regmap;
pub mod topology;
pub mod ucore;

pub use hpu_cluster::{HpuCluster, HpuClusterParams};
pub use hpu_core::event::IscCommand;
pub use hpu_core::model::HpuCoreParams;
pub use hpu_core::unit::HpuCore;
pub use hpu_node::{HpuNode, HpuNodeParams};
pub use isc_trace::{IscPoolFlags, IscPoolState, IscTrace, TraceParsingError};
pub use payload::{DOpPayload, IOpPayload};
pub use regmap::unit::{Regmap, RegmapParams, HBM_BSK_PC_MAX, HBM_KSK_PC_MAX, MEM_CT_PC_MAX};
pub use ucore::unit::{UCore, UCoreParams};
