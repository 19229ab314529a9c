//! Elaboration of a cluster from its configuration: the parameters of the nodes, and
//! the connections between them.
use vstd::prelude::*;
use vstd::string::StringExecFns;

use crate::cpn::hpu_cluster::node_name;
use crate::cpn::hpu_core::model::HpuCoreParams;
use crate::cpn::hpu_node::{
    H2sBridgeParams, HpuNodeParams, NDmaParams, NpRamParams, XBarParams,
};
use crate::cpn::insn::CtId;
use crate::cpn::layout::{ct_chunk_b, MemKind};
use crate::cpn::regmap::unit::RegmapParams;
use crate::cpn::topology::{
    at, decimal, numbered, numbered_is_unique, push_decimal, with_number, Component, Endpoint,
    EndpointView, Netlist, NetlistView,
};
use crate::cpn::ucore::unit::{QueueConfig, UCoreParams};
use crate::params::hpu::HpuParameters;

verus! {

/// Position of the HBM in the memory of a node.
pub const HBM_GLOBAL_OFST: u64 = 0x40_0000_0000;

/// Distance between two channels of the HBM.
pub const HBM_PC_OFST: u64 = 0x2000_0000;

/// Interface with the hardware.
#[derive(Debug)]
pub enum FfiMode {
    /// The hardware is simulated.
    Sim { ipc_name: String, iopq: QueueConfig, ackq: QueueConfig },
    /// Any other interface.
    Hardware,
}

/// Memories of a board.
#[derive(Debug)]
pub struct BoardConfig {
    pub lut_pc: MemKind,
    pub ct_pc: Vec<MemKind>,
    pub ksk_pc: Vec<MemKind>,
    pub bsk_pc: Vec<MemKind>,
    pub trace_pc: MemKind,
    pub trace_depth: usize,
    pub fw_pc: MemKind,
    /// Ciphertext slots of the user, of the pool and of the heap.
    pub user_size: usize,
    pub b2b_size: usize,
    pub heap_size: usize,
}

/// Configuration of a cluster.
#[derive(Debug)]
pub struct ClusterConfig {
    pub ffi: FfiMode,
    pub node_id: Vec<u8>,
    pub polling_us: u64,
    pub regmap: Vec<String>,
    pub board: BoardConfig,
}

/// Options of a simulation.
#[derive(Clone, Copy, Debug)]
pub struct SimOptions {
    pub trivial: bool,
    pub noops: bool,
    pub dump_reg: bool,
}

/// Reason why a cluster cannot be elaborated.
#[derive(Clone, Copy, Debug, PartialEq, Eq, Structural)]
pub enum ElaborateError {
    /// The configuration is not that of a simulation.
    NotSimulated,
}

impl ElaborateError {
    /// Text of the error.
    pub fn message(&self) -> (r: &'static str)
        ensures
            r@ == "HpuSim only work with FFIMode::Sim. Check used configuration"@,
    {
        match self {
            ElaborateError::NotSimulated =>
                "HpuSim only work with FFIMode::Sim. Check used configuration",
        }
    }
}

/// What tells a node from the others.
#[derive(Debug)]
pub struct NodePlan {
    pub id: u8,
    pub name: String,
    /// Path of the channel to the host.
    pub ipc_path: String,
    /// Port of the node on the networks between nodes.
    pub port: usize,
}

/// Parameters of a network between nodes. Latencies are in cycles, bandwidths in
/// bytes per second.
#[derive(Clone, Copy, Debug)]
pub struct SwitchParams {
    pub inflight_req: usize,
    pub switch_latency: usize,
    pub bandwidth: u64,
    pub port_cap: Option<usize>,
}

/// Elaborated cluster.
#[derive(Debug)]
pub struct Elaboration {
    /// Parameters of the two networks between nodes.
    pub switch: SwitchParams,
    /// Parameters of every node, but for the identifier and the path to the host.
    pub node: HpuNodeParams,
    pub nodes: Vec<NodePlan>,
    pub root: Netlist,
}

/// Path of the channel from the host to a node.
pub open spec fn ipc_path(ipc_name: Seq<char>, id: int) -> Seq<char> {
    ipc_name + "_"@ + decimal(id)
}

/// Components of a cluster: the two networks between nodes, and the nodes.
pub open spec fn root_instances(ids: Seq<u8>) -> Seq<(Seq<char>, Component)> {
    seq![
        ("b2b_switch"@, Component::Switch),
        ("ctrl_xbar"@, Component::SplitSwitch),
    ] + Seq::new(ids.len(), |i: int| (node_name(ids[i] as int), Component::HpuNode))
}

/// Connections of a cluster: three for each node.
pub open spec fn root_binds(ids: Seq<u8>) -> Seq<(EndpointView, EndpointView)> {
    Seq::new(
        3 * ids.len(),
        |i: int|
            {
                let module = node_name(ids[i / 3] as int);
                if i % 3 == 0 {
                    (
                        at("b2b_switch", "ingress"),
                        EndpointView { module, port: "net_outbound"@ },
                    )
                } else if i % 3 == 1 {
                    (
                        at("b2b_switch", "egress"),
                        EndpointView { module, port: "net_inbound"@ },
                    )
                } else {
                    (at("ctrl_xbar", "port"), EndpointView { module, port: "ctrl"@ })
                }
            },
    )
}

/// Connections of a cluster.
pub open spec fn root_netlist(ids: Seq<u8>) -> NetlistView {
    NetlistView {
        instances: root_instances(ids),
        binds: root_binds(ids),
        exposed: Seq::empty(),
    }
}

/// Parameters of the computation core of a node.
pub open spec fn core_params(
    p: HpuCoreParams,
    config: ClusterConfig,
    hpu: HpuParameters,
    options: SimOptions,
) -> bool {
    &&& p.compute_params.same(hpu)
    &&& p.trivial == options.trivial
    &&& p.noops == options.noops
    &&& p.dump_reg == options.dump_reg
    &&& p.lut_pc == config.board.lut_pc
    &&& p.ct_pc@ == config.board.ct_pc@
    &&& p.ksk_pc@ == config.board.ksk_pc@
    &&& p.bsk_pc@ == config.board.bsk_pc@
    &&& p.trace_pc == config.board.trace_pc
    &&& p.trace_depth == config.board.trace_depth
    &&& p.hbm_global_ofst == HBM_GLOBAL_OFST as usize
    &&& p.hbm_pc_ofst == HBM_PC_OFST as usize
}

/// Parameters of the micro-core of a node.
pub open spec fn ucore_params(p: UCoreParams, config: ClusterConfig, hpu: HpuParameters) -> bool {
    &&& p.cluster_nodes@ == config.node_id@
    &&& p.fw_pc == config.board.fw_pc
    &&& p.ct_pc@ == config.board.ct_pc@
    &&& p.ct_user == config.board.user_size
    &&& p.ct_b2b == config.board.b2b_size
    &&& p.ct_heap == config.board.heap_size
    &&& p.axis_depth == 256
    &&& p.polling_us == config.polling_us
    &&& config.ffi matches FfiMode::Sim { iopq, ackq, .. }
    &&& p.iopq == iopq
    &&& p.ackq == ackq
    &&& p.rtl_params.same(hpu)
    &&& p.hbm_global_ofst == HBM_GLOBAL_OFST as usize
    &&& p.hbm_pc_ofst == HBM_PC_OFST as usize
}

/// Parameters of the register map of a node.
pub open spec fn regmap_params(p: RegmapParams, config: ClusterConfig, hpu: HpuParameters) -> bool {
    &&& p.regmap_files@.len() == config.regmap@.len()
    &&& forall|i: int|
        0 <= i < config.regmap@.len() ==> (#[trigger] p.regmap_files@[i])@ == config.regmap@[i]@
    &&& p.rtl.same(hpu)
    &&& p.latency == 1
}

/// Parameters of a node, but for its identifier and its path to the host.
pub open spec fn node_params(
    p: HpuNodeParams,
    config: ClusterConfig,
    hpu: HpuParameters,
    options: SimOptions,
) -> bool {
    &&& core_params(p.hpu_core, config, hpu, options)
    &&& ucore_params(p.ucore, config, hpu)
    &&& regmap_params(p.regmap, config, hpu)
    &&& p.xbar == (XBarParams {
        inflight_req: 10,
        frontend_latency: 2,
        forward_latency: 1,
        bandwidth: 1_125_899_906_842_624,
        inbound_cap: None,
        outbound_cap: None,
    })
    &&& p.ddr == (NpRamParams {
        ports: 1,
        size: 4_294_967_296,
        base_addr: Some(0x2000_0000),
        latency: 1,
        bandwidth: 25_600_000_000,
    })
    &&& p.hbm == (NpRamParams {
        ports: 2,
        size: 34_359_738_368,
        base_addr: Some(HBM_GLOBAL_OFST),
        latency: 1,
        bandwidth: 6_400_000_000_000,
    })
    &&& p.dma == (NDmaParams {
        node_id: 0,
        inflight_req: config.board.ct_pc@.len() as usize,
        frontend_latency: 1,
        forward_latency: 1,
        bandwidth: 25_000_000_000,
    })
    &&& p.ipc.ipc_path@.len() == 0
    &&& p.ipc.addr_range == (0u64, 412_316_860_416u64)
    &&& p.ipc.inflight_req == 10
    &&& p.ipc.polling_us == config.polling_us
    &&& p.ipc.keep_alive_ms == Some(250u64)
}

fn copy_mems(mems: &Vec<MemKind>) -> (r: Vec<MemKind>)
    ensures
        r@ == mems@,
{
    let r = mems.clone();
    assert(r@ =~= mems@);
    r
}

fn core_of(config: &ClusterConfig, hpu: &HpuParameters, options: SimOptions) -> (r: HpuCoreParams)
    ensures
        core_params(r, *config, *hpu, options),
{
    HpuCoreParams {
        compute_params: hpu.clone(),
        trivial: options.trivial,
        noops: options.noops,
        dump_reg: options.dump_reg,
        lut_pc: config.board.lut_pc,
        ct_pc: copy_mems(&config.board.ct_pc),
        ksk_pc: copy_mems(&config.board.ksk_pc),
        bsk_pc: copy_mems(&config.board.bsk_pc),
        trace_pc: config.board.trace_pc,
        trace_depth: config.board.trace_depth,
        hbm_global_ofst: HBM_GLOBAL_OFST as usize,
        hbm_pc_ofst: HBM_PC_OFST as usize,
    }
}

fn ucore_of(
    config: &ClusterConfig,
    hpu: &HpuParameters,
    iopq: QueueConfig,
    ackq: QueueConfig,
) -> (r: UCoreParams)
    requires
        config.ffi matches FfiMode::Sim { iopq: i, ackq: a, .. } && i == iopq && a == ackq,
    ensures
        ucore_params(r, *config, *hpu),
{
    let cluster_nodes = config.node_id.clone();
    assert(cluster_nodes@ =~= config.node_id@);
    UCoreParams {
        cluster_nodes,
        fw_pc: config.board.fw_pc,
        ct_pc: copy_mems(&config.board.ct_pc),
        ct_user: config.board.user_size,
        ct_b2b: config.board.b2b_size,
        ct_heap: config.board.heap_size,
        axis_depth: 256,
        polling_us: config.polling_us,
        iopq,
        ackq,
        rtl_params: hpu.clone(),
        hbm_global_ofst: HBM_GLOBAL_OFST as usize,
        hbm_pc_ofst: HBM_PC_OFST as usize,
    }
}

fn regmap_of(config: &ClusterConfig, hpu: &HpuParameters) -> (r: RegmapParams)
    ensures
        regmap_params(r, *config, *hpu),
{
    let mut regmap_files: Vec<String> = Vec::new();
    for i in 0..config.regmap.len()
        invariant
            regmap_files@.len() == i,
            forall|j: int|
                0 <= j < i ==> (#[trigger] regmap_files@[j])@ == config.regmap@[j]@,
    {
        regmap_files.push(config.regmap[i].clone());
    }
    RegmapParams { regmap_files, rtl: hpu.clone(), latency: 1 }
}

/// Elaborates a cluster.
pub fn elaborate(config: &ClusterConfig, hpu: &HpuParameters, options: SimOptions) -> (r: Result<
    Elaboration,
    ElaborateError,
>)
    ensures
        match r {
            Ok(e) => {
                &&& config.ffi matches FfiMode::Sim { ipc_name, .. }
                &&& e.switch == (SwitchParams {
                    inflight_req: 10,
                    switch_latency: 2,
                    bandwidth: 25_000_000_000,
                    port_cap: None,
                })
                &&& node_params(e.node, *config, *hpu, options)
                &&& e.root@ == root_netlist(config.node_id@)
                &&& e.nodes@.len() == config.node_id@.len()
                &&& forall|i: int|
                    0 <= i < e.nodes@.len() ==> {
                        let id = config.node_id@[i];
                        &&& (#[trigger] e.nodes@[i]).id == id
                        &&& e.nodes@[i].name@ == node_name(id as int)
                        &&& e.nodes@[i].ipc_path@ == ipc_path(ipc_name@, id as int)
                        &&& e.nodes@[i].port == id
                    }
            },
            Err(err) => config.ffi is Hardware && err == ElaborateError::NotSimulated,
        },
{
    let (ipc_name, iopq, ackq) = match &config.ffi {
        FfiMode::Sim { ipc_name, iopq, ackq } => (ipc_name, *iopq, *ackq),
        FfiMode::Hardware => {
            return Err(ElaborateError::NotSimulated);
        },
    };
    let mut root = Netlist::new();
    root.insert_module("b2b_switch", Component::Switch);
    root.insert_module("ctrl_xbar", Component::SplitSwitch);
    let node = HpuNodeParams {
        hpu_core: core_of(config, hpu, options),
        ucore: ucore_of(config, hpu, iopq, ackq),
        regmap: regmap_of(config, hpu),
        xbar: XBarParams {
            inflight_req: 10,
            frontend_latency: 2,
            forward_latency: 1,
            bandwidth: 1_125_899_906_842_624,
            inbound_cap: None,
            outbound_cap: None,
        },
        ddr: NpRamParams {
            ports: 1,
            size: 4_294_967_296,
            base_addr: Some(0x2000_0000),
            latency: 1,
            bandwidth: 25_600_000_000,
        },
        hbm: NpRamParams {
            ports: 2,
            size: 34_359_738_368,
            base_addr: Some(HBM_GLOBAL_OFST),
            latency: 1,
            bandwidth: 6_400_000_000_000,
        },
        dma: NDmaParams {
            node_id: 0,
            inflight_req: config.board.ct_pc.len(),
            frontend_latency: 1,
            forward_latency: 1,
            bandwidth: 25_000_000_000,
        },
        ipc: H2sBridgeParams {
            ipc_path: String::new(),
            addr_range: (0, 412_316_860_416),
            inflight_req: 10,
            polling_us: config.polling_us,
            keep_alive_ms: Some(250),
        },
    };
    let mut nodes: Vec<NodePlan> = Vec::new();
    let ghost ids = config.node_id@;
    assert(root@.instances =~= root_instances(ids.take(0)));
    assert(root@.binds =~= root_binds(ids.take(0)));
    for i in 0..config.node_id.len()
        invariant
            ids == config.node_id@,
            root@.instances == root_instances(ids.take(i as int)),
            root@.binds == root_binds(ids.take(i as int)),
            root@.exposed.len() == 0,
            nodes@.len() == i,
            forall|j: int|
                0 <= j < i ==> {
                    &&& (#[trigger] nodes@[j]).id == ids[j]
                    &&& nodes@[j].name@ == node_name(ids[j] as int)
                    &&& nodes@[j].ipc_path@ == ipc_path(ipc_name@, ids[j] as int)
                    &&& nodes@[j].port == ids[j]
                },
    {
        let id: u8 = config.node_id[i];
        let name = with_number("node_", id as usize);
        let mut path = ipc_name.clone();
        path.append("_");
        push_decimal(&mut path, id as usize);
        root.insert_module(name.as_str(), Component::HpuNode);
        root.inner_bind(
            Endpoint::new("b2b_switch", "ingress"),
            Endpoint::new(name.as_str(), "net_outbound"),
        );
        root.inner_bind(
            Endpoint::new("b2b_switch", "egress"),
            Endpoint::new(name.as_str(), "net_inbound"),
        );
        root.inner_bind(
            Endpoint::new("ctrl_xbar", "port"),
            Endpoint::new(name.as_str(), "ctrl"),
        );
        nodes.push(NodePlan { id, name, ipc_path: path, port: id as usize });
        assert(root@.instances =~= root_instances(ids.take(i + 1)));
        assert(root@.binds =~= root_binds(ids.take(i + 1)));
    }
    assert(ids.take(ids.len() as int) =~= ids);
    let switch = SwitchParams {
        inflight_req: 10,
        switch_latency: 2,
        bandwidth: 25_000_000_000,
        port_cap: None,
    };
    Ok(Elaboration { switch, node, nodes, root })
}

/// Each connection of a cluster is that of one of its components.
pub proof fn root_is_closed(ids: Seq<u8>)
    ensures
        root_netlist(ids).closed(),
{
    let n = root_netlist(ids);
    assert(n.instances[0].0 == "b2b_switch"@);
    assert(n.instances[1].0 == "ctrl_xbar"@);
    assert forall|i: int| 0 <= i < n.binds.len() implies n.has((#[trigger] n.binds[i]).0.module)
        && n.has(n.binds[i].1.module) by {
        assert(n.instances[2 + i / 3].0 == node_name(ids[i / 3] as int));
    }
}

/// Nodes with different identifiers have different names.
pub proof fn node_names_differ(a: u8, b: u8)
    requires
        a != b,
    ensures
        node_name(a as int) != node_name(b as int),
{
    if node_name(a as int) == node_name(b as int) {
        crate::cpn::topology::numbered_is_unique("node_"@, a as int, b as int);
    }
}

/// The micro-core and the computation core of a node agree on the memory: a ciphertext slot has
/// the same addresses for both, and takes the same bytes.
pub proof fn units_agree_on_the_memory(
    p: HpuNodeParams,
    config: ClusterConfig,
    hpu: HpuParameters,
    options: SimOptions,
    cid: CtId,
)
    requires
        node_params(p, config, hpu, options),
    ensures
        p.ucore.addrs(cid) == p.hpu_core.addrs(cid),
        p.ucore.addrs(cid).len() == config.board.ct_pc@.len(),
        ct_chunk_b(p.ucore.rtl_params) == ct_chunk_b(p.hpu_core.compute_params),
        p.ucore.rtl_params.same(p.hpu_core.compute_params),
        p.regmap.rtl.same(p.hpu_core.compute_params),
        p.dma.inflight_req == p.hpu_core.ct_pc@.len() as usize,
{
    assert(p.ucore.addrs(cid) =~= p.hpu_core.addrs(cid));
}

/// The memories of a node are apart and inside what the host can address. The HBM has room for
/// its sixty-four channels, which follow each other from its first byte on.
pub proof fn memories_are_apart(
    p: HpuNodeParams,
    config: ClusterConfig,
    hpu: HpuParameters,
    options: SimOptions,
)
    requires
        node_params(p, config, hpu, options),
    ensures
        ({
            let (first, last) = p.ipc.addr_range;
            &&& p.ddr.base_addr matches Some(ddr)
            &&& p.hbm.base_addr matches Some(hbm)
            &&& first <= ddr && ddr + p.ddr.size <= hbm && hbm + p.hbm.size <= last
            &&& hbm == HBM_GLOBAL_OFST && p.hbm.size == 64 * HBM_PC_OFST
            &&& p.hpu_core.hbm_global_ofst == hbm as usize
            &&& p.ucore.hbm_global_ofst == hbm as usize
            &&& p.hpu_core.hbm_pc_ofst == HBM_PC_OFST as usize
            &&& p.ucore.hbm_pc_ofst == HBM_PC_OFST as usize
            &&& p.ddr.size == 0x1_0000_0000
        }),
{
}

/// What the configuration says of the board reaches the unit that it is about.
pub proof fn configuration_reaches_the_units(
    p: HpuNodeParams,
    config: ClusterConfig,
    hpu: HpuParameters,
    options: SimOptions,
)
    requires
        node_params(p, config, hpu, options),
    ensures
        p.hpu_core.lut_pc == config.board.lut_pc,
        p.hpu_core.ct_pc@ == config.board.ct_pc@ && p.ucore.ct_pc@ == config.board.ct_pc@,
        p.hpu_core.bsk_pc@ == config.board.bsk_pc@,
        p.hpu_core.ksk_pc@ == config.board.ksk_pc@,
        p.hpu_core.trace_pc == config.board.trace_pc,
        p.hpu_core.trace_depth == config.board.trace_depth,
        p.hpu_core.trivial == options.trivial,
        p.hpu_core.noops == options.noops,
        p.hpu_core.dump_reg == options.dump_reg,
        p.ucore.fw_pc == config.board.fw_pc,
        p.ucore.ct_user == config.board.user_size,
        p.ucore.ct_b2b == config.board.b2b_size,
        p.ucore.ct_heap == config.board.heap_size,
        p.ucore.cluster_nodes@ == config.node_id@,
        config.ffi matches FfiMode::Sim { iopq, ackq, .. } ==> p.ucore.iopq == iopq && p.ucore.ackq
            == ackq,
        p.ucore.polling_us == config.polling_us && p.ipc.polling_us == config.polling_us,
{
}

/// Every node is on the network between nodes, in both directions, and on the network of the
/// messages: what it sends enters the switch, and what leaves the switch reaches it.
pub proof fn every_node_is_on_the_networks(ids: Seq<u8>, i: int)
    requires
        0 <= i < ids.len(),
    ensures
        ({
            let net = root_netlist(ids);
            let port = |name: &str| EndpointView { module: node_name(ids[i] as int), port: name@ };
            &&& net.binds.len() == 3 * ids.len()
            &&& net.binds.contains((at("b2b_switch", "ingress"), port("net_outbound")))
            &&& net.binds.contains((at("b2b_switch", "egress"), port("net_inbound")))
            &&& net.binds.contains((at("ctrl_xbar", "port"), port("ctrl")))
            &&& net.instances.contains((node_name(ids[i] as int), Component::HpuNode))
        }),
{
    let net = root_netlist(ids);
    let port = |name: &str| EndpointView { module: node_name(ids[i] as int), port: name@ };
    assert(net.binds[3 * i] == (at("b2b_switch", "ingress"), port("net_outbound")));
    assert(net.binds[3 * i + 1] == (at("b2b_switch", "egress"), port("net_inbound")));
    assert(net.binds[3 * i + 2] == (at("ctrl_xbar", "port"), port("ctrl")));
    assert(net.instances[2 + i] == (node_name(ids[i] as int), Component::HpuNode));
}

/// Two nodes have two channels to the host, each named after its node.
pub proof fn host_channels_differ(ipc_name: Seq<char>, a: u8, b: u8)
    ensures
        ipc_path(ipc_name, a as int) == ipc_path(ipc_name, b as int) <==> a == b,
        ipc_path(ipc_name, a as int) == numbered(ipc_name + "_"@, a as int),
{
    if ipc_path(ipc_name, a as int) == ipc_path(ipc_name, b as int) {
        numbered_is_unique(ipc_name + "_"@, a as int, b as int);
    }
}

} // verus!
