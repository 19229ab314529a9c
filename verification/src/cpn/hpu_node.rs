//! Node of a cluster: memories, register map, micro-core, computation core, and the
//! interfaces with the other nodes and with the host.
use vstd::prelude::*;

use super::hpu_core::model::HpuCoreParams;
use super::regmap::unit::RegmapParams;
use super::topology::{at, Component, Endpoint, Netlist, NetlistView};
use super::ucore::unit::UCoreParams;

verus! {

/// Parameters of a crossbar. Latencies are in cycles, bandwidths in bytes per second.
#[derive(Clone, Copy, Debug)]
pub struct XBarParams {
    pub inflight_req: usize,
    pub frontend_latency: usize,
    pub forward_latency: usize,
    pub bandwidth: u64,
    pub inbound_cap: Option<usize>,
    pub outbound_cap: Option<usize>,
}

/// Parameters of a memory. Sizes are in bytes.
#[derive(Clone, Copy, Debug)]
pub struct NpRamParams {
    pub ports: usize,
    pub size: u64,
    pub base_addr: Option<u64>,
    pub latency: usize,
    pub bandwidth: u64,
}

/// Parameters of the transfers between nodes.
#[derive(Clone, Copy, Debug)]
pub struct NDmaParams {
    pub node_id: u8,
    pub inflight_req: usize,
    pub frontend_latency: usize,
    pub forward_latency: usize,
    pub bandwidth: u64,
}

/// Parameters of the access of the host to a node.
#[derive(Debug)]
pub struct H2sBridgeParams {
    pub ipc_path: String,
    pub addr_range: (u64, u64),
    pub inflight_req: usize,
    pub polling_us: u64,
    pub keep_alive_ms: Option<u64>,
}

impl Clone for H2sBridgeParams {
    fn clone(&self) -> (r: H2sBridgeParams)
        ensures
            r.ipc_path@ == self.ipc_path@,
            r.addr_range == self.addr_range,
            r.inflight_req == self.inflight_req,
            r.polling_us == self.polling_us,
            r.keep_alive_ms == self.keep_alive_ms,
    {
        H2sBridgeParams {
            ipc_path: self.ipc_path.clone(),
            addr_range: self.addr_range,
            inflight_req: self.inflight_req,
            polling_us: self.polling_us,
            keep_alive_ms: self.keep_alive_ms,
        }
    }
}

/// Parameters of a node.
#[derive(Clone, Debug)]
pub struct HpuNodeParams {
    pub hpu_core: HpuCoreParams,
    pub ucore: UCoreParams,
    pub regmap: RegmapParams,
    pub xbar: XBarParams,
    pub ddr: NpRamParams,
    pub hbm: NpRamParams,
    pub dma: NDmaParams,
    pub ipc: H2sBridgeParams,
}

/// Node of a cluster.
pub struct HpuNode {
    pub params: HpuNodeParams,
    pub inner: Netlist,
}

/// Components of a node, with their connections.
pub open spec fn node_netlist() -> NetlistView {
    NetlistView {
        instances: seq![
            ("ddr"@, Component::Ddr),
            ("hbm"@, Component::Hbm),
            ("regmap"@, Component::Regmap),
            ("xbar"@, Component::XBar),
            ("ucore"@, Component::UCore),
            ("hpu_core"@, Component::HpuCore),
            ("ndma"@, Component::NDma),
            ("H2sBridge"@, Component::H2sBridge),
        ],
        binds: seq![
            (at("xbar", "outbound"), at("ddr", "resp_port")),
            (at("xbar", "outbound"), at("hbm", "resp_port")),
            (at("xbar", "outbound"), at("regmap", "port")),
            (at("ucore", "mem"), at("xbar", "inbound")),
            (at("hpu_core", "mem"), at("xbar", "inbound")),
            (at("ucore", "hpu_req"), at("hpu_core", "req")),
            (at("ucore", "hpu_ack"), at("hpu_core", "ack")),
            (at("ucore", "dma"), at("ndma", "inbound")),
            (at("ndma", "mem"), at("xbar", "inbound")),
            (at("H2sBridge", "port"), at("xbar", "inbound")),
        ],
        exposed: seq![
            ("net_inbound"@, at("ndma", "net_inbound")),
            ("net_outbound"@, at("ndma", "net_outbound")),
            ("ctrl"@, at("ucore", "ctrl")),
        ],
    }
}

impl HpuNode {
    /// Node with its components and their connections.
    pub fn new(params: HpuNodeParams) -> (r: HpuNode)
        ensures
            r.params == params,
            r.inner@ == node_netlist(),
    {
        let mut inner = Netlist::new();
        inner.insert_module("ddr", Component::Ddr);
        inner.insert_module("hbm", Component::Hbm);
        inner.insert_module("regmap", Component::Regmap);
        inner.insert_module("xbar", Component::XBar);
        inner.inner_bind(Endpoint::new("xbar", "outbound"), Endpoint::new("ddr", "resp_port"));
        inner.inner_bind(Endpoint::new("xbar", "outbound"), Endpoint::new("hbm", "resp_port"));
        inner.inner_bind(Endpoint::new("xbar", "outbound"), Endpoint::new("regmap", "port"));
        inner.insert_module("ucore", Component::UCore);
        inner.inner_bind(Endpoint::new("ucore", "mem"), Endpoint::new("xbar", "inbound"));
        inner.insert_module("hpu_core", Component::HpuCore);
        inner.inner_bind(Endpoint::new("hpu_core", "mem"), Endpoint::new("xbar", "inbound"));
        inner.inner_bind(Endpoint::new("ucore", "hpu_req"), Endpoint::new("hpu_core", "req"));
        inner.inner_bind(Endpoint::new("ucore", "hpu_ack"), Endpoint::new("hpu_core", "ack"));
        inner.insert_module("ndma", Component::NDma);
        inner.inner_bind(Endpoint::new("ucore", "dma"), Endpoint::new("ndma", "inbound"));
        inner.inner_bind(Endpoint::new("ndma", "mem"), Endpoint::new("xbar", "inbound"));
        inner.expose_port("net_inbound", Endpoint::new("ndma", "net_inbound"));
        inner.expose_port("net_outbound", Endpoint::new("ndma", "net_outbound"));
        inner.expose_port("ctrl", Endpoint::new("ucore", "ctrl"));
        inner.insert_module("H2sBridge", Component::H2sBridge);
        inner.inner_bind(Endpoint::new("H2sBridge", "port"), Endpoint::new("xbar", "inbound"));
        assert(inner@.instances =~= node_netlist().instances);
        assert(inner@.binds =~= node_netlist().binds);
        assert(inner@.exposed =~= node_netlist().exposed);
        HpuNode { params, inner }
    }
}

/// Each connection of a node, and each of its visible ports, is that of one of its
/// components.
pub proof fn node_is_closed()
    ensures
        node_netlist().closed(),
{
    let n = node_netlist();
    assert(n.instances[0].0 == "ddr"@);
    assert(n.instances[1].0 == "hbm"@);
    assert(n.instances[2].0 == "regmap"@);
    assert(n.instances[3].0 == "xbar"@);
    assert(n.instances[4].0 == "ucore"@);
    assert(n.instances[5].0 == "hpu_core"@);
    assert(n.instances[6].0 == "ndma"@);
    assert(n.instances[7].0 == "H2sBridge"@);
}

/// What is in a node: every unit that reads or writes the memory does it through the crossbar,
/// which reaches the memories and the registers. The micro-core and the computation core exchange
/// requests for requests and acknowledgements for acknowledgements.
pub proof fn units_are_connected()
    ensures
        ({
            let n = node_netlist();
            &&& n.binds.contains((at("ucore", "mem"), at("xbar", "inbound")))
            &&& n.binds.contains((at("hpu_core", "mem"), at("xbar", "inbound")))
            &&& n.binds.contains((at("ndma", "mem"), at("xbar", "inbound")))
            &&& n.binds.contains((at("H2sBridge", "port"), at("xbar", "inbound")))
            &&& n.binds.contains((at("xbar", "outbound"), at("ddr", "resp_port")))
            &&& n.binds.contains((at("xbar", "outbound"), at("hbm", "resp_port")))
            &&& n.binds.contains((at("xbar", "outbound"), at("regmap", "port")))
            &&& n.binds.contains((at("ucore", "hpu_req"), at("hpu_core", "req")))
            &&& n.binds.contains((at("ucore", "hpu_ack"), at("hpu_core", "ack")))
            &&& n.binds.contains((at("ucore", "dma"), at("ndma", "inbound")))
            &&& n.binds.len() == 10
        }),
{
    let n = node_netlist();
    assert(n.binds[0] == (at("xbar", "outbound"), at("ddr", "resp_port")));
    assert(n.binds[1] == (at("xbar", "outbound"), at("hbm", "resp_port")));
    assert(n.binds[2] == (at("xbar", "outbound"), at("regmap", "port")));
    assert(n.binds[3] == (at("ucore", "mem"), at("xbar", "inbound")));
    assert(n.binds[4] == (at("hpu_core", "mem"), at("xbar", "inbound")));
    assert(n.binds[5] == (at("ucore", "hpu_req"), at("hpu_core", "req")));
    assert(n.binds[6] == (at("ucore", "hpu_ack"), at("hpu_core", "ack")));
    assert(n.binds[7] == (at("ucore", "dma"), at("ndma", "inbound")));
    assert(n.binds[8] == (at("ndma", "mem"), at("xbar", "inbound")));
    assert(n.binds[9] == (at("H2sBridge", "port"), at("xbar", "inbound")));
}

/// What is seen of a node from the outside: the network side of its transfer engine, each port
/// under its own name, and the control port of its micro-core. Each component is of its kind.
pub proof fn node_shows_its_network()
    ensures
        ({
            let n = node_netlist();
            &&& n.exposed.contains(("net_inbound"@, at("ndma", "net_inbound")))
            &&& n.exposed.contains(("net_outbound"@, at("ndma", "net_outbound")))
            &&& n.exposed.contains(("ctrl"@, at("ucore", "ctrl")))
            &&& n.exposed.len() == 3
            &&& n.instances.contains(("ddr"@, Component::Ddr))
            &&& n.instances.contains(("hbm"@, Component::Hbm))
            &&& n.instances.contains(("regmap"@, Component::Regmap))
            &&& n.instances.contains(("xbar"@, Component::XBar))
            &&& n.instances.contains(("ucore"@, Component::UCore))
            &&& n.instances.contains(("hpu_core"@, Component::HpuCore))
            &&& n.instances.contains(("ndma"@, Component::NDma))
            &&& n.instances.contains(("H2sBridge"@, Component::H2sBridge))
            &&& n.instances.len() == 8
        }),
{
    let n = node_netlist();
    assert(n.exposed[0] == ("net_inbound"@, at("ndma", "net_inbound")));
    assert(n.exposed[1] == ("net_outbound"@, at("ndma", "net_outbound")));
    assert(n.exposed[2] == ("ctrl"@, at("ucore", "ctrl")));
    assert(n.instances[0] == ("ddr"@, Component::Ddr));
    assert(n.instances[1] == ("hbm"@, Component::Hbm));
    assert(n.instances[2] == ("regmap"@, Component::Regmap));
    assert(n.instances[3] == ("xbar"@, Component::XBar));
    assert(n.instances[4] == ("ucore"@, Component::UCore));
    assert(n.instances[5] == ("hpu_core"@, Component::HpuCore));
    assert(n.instances[6] == ("ndma"@, Component::NDma));
    assert(n.instances[7] == ("H2sBridge"@, Component::H2sBridge));
}

} // verus!
