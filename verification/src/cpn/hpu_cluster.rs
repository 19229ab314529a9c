//! Cluster of nodes that share a crossbar.
use vstd::prelude::*;

use super::hpu_node::{HpuNodeParams, XBarParams};
use super::topology::{
    at, numbered, with_number, Component, Endpoint, EndpointView, Netlist, NetlistView,
};

verus! {

/// Parameters of a cluster.
#[derive(Clone, Debug)]
pub struct HpuClusterParams {
    pub hpu_node: Vec<HpuNodeParams>,
}

/// Cluster of nodes.
pub struct HpuCluster {
    pub params: HpuClusterParams,
    pub xbar: XBarParams,
    pub inner: Netlist,
}

/// Name of a node.
pub open spec fn node_name(id: int) -> Seq<char> {
    numbered("node_"@, id)
}

/// Connections of the first nodes of a cluster: the transfers and the memory of each
/// node are reached from the crossbar of the cluster.
pub open spec fn cluster_binds(nodes: int) -> Seq<(EndpointView, EndpointView)> {
    Seq::new(
        (2 * nodes) as nat,
        |i: int|
            (
                at("cluster_xbar", "outbound"),
                EndpointView {
                    module: node_name(i / 2),
                    port: if i % 2 == 0 {
                        "dma::resp_port"@
                    } else {
                        "hbm::resp_port"@
                    },
                },
            ),
    )
}

/// Components of a cluster.
pub open spec fn cluster_instances(nodes: int) -> Seq<(Seq<char>, Component)> {
    seq![("cluster_xbar"@, Component::XBar)] + Seq::new(
        nodes as nat,
        |i: int| (node_name(i), Component::HpuNode),
    )
}

/// Components of a cluster and their connections.
pub open spec fn cluster_netlist(nodes: int) -> NetlistView {
    NetlistView {
        instances: cluster_instances(nodes),
        binds: cluster_binds(nodes),
        exposed: Seq::empty(),
    }
}

impl HpuCluster {
    /// Cluster with its nodes and their connections.
    pub fn new(params: HpuClusterParams) -> (r: HpuCluster)
        ensures
            r.params == params,
            r.xbar == (XBarParams {
                inflight_req: 10,
                frontend_latency: 2,
                forward_latency: 1,
                bandwidth: 10_485_760,
                inbound_cap: None,
                outbound_cap: None,
            }),
            r.inner@ == cluster_netlist(params.hpu_node@.len() as int),
    {
        let mut inner = Netlist::new();
        inner.insert_module("cluster_xbar", Component::XBar);
        assert(inner@.instances =~= cluster_instances(0));
        assert(inner@.binds =~= cluster_binds(0));
        for i in 0..params.hpu_node.len()
            invariant
                inner@.instances == cluster_instances(i as int),
                inner@.binds == cluster_binds(i as int),
                inner@.exposed.len() == 0,
        {
            let name = with_number("node_", i);
            inner.insert_module(name.as_str(), Component::HpuNode);
            inner.inner_bind(
                Endpoint::new("cluster_xbar", "outbound"),
                Endpoint::new(name.as_str(), "dma::resp_port"),
            );
            inner.inner_bind(
                Endpoint::new("cluster_xbar", "outbound"),
                Endpoint::new(name.as_str(), "hbm::resp_port"),
            );
            assert(inner@.instances =~= cluster_instances(i + 1));
            assert(inner@.binds =~= cluster_binds(i + 1));
        }
        let xbar = XBarParams {
            inflight_req: 10,
            frontend_latency: 2,
            forward_latency: 1,
            bandwidth: 10_485_760,
            inbound_cap: None,
            outbound_cap: None,
        };
        HpuCluster { params, xbar, inner }
    }
}

/// Each connection of a cluster is that of two of its components, its crossbar and a node,
/// and each of its nodes is connected to its crossbar.
pub proof fn cluster_is_closed(nodes: int)
    requires
        0 <= nodes,
    ensures
        cluster_netlist(nodes).closed(),
        forall|i: int|
            0 <= i < 2 * nodes ==> {
                let bind = #[trigger] cluster_netlist(nodes).binds[i];
                &&& bind.0.module == "cluster_xbar"@
                &&& bind.1.module == node_name(i / 2)
            },
{
    let n = cluster_netlist(nodes);
    assert(n.instances[0].0 == "cluster_xbar"@);
    assert forall|i: int| 0 <= i < n.binds.len() implies n.has((#[trigger] n.binds[i]).0.module)
        && n.has(n.binds[i].1.module) by {
        assert(n.instances[i / 2 + 1].0 == node_name(i / 2));
    }
}

/// Every node of a cluster has its transfer engine and its memory on the crossbar.
pub proof fn every_node_is_on_the_crossbar(nodes: int, i: int)
    requires
        0 <= i < nodes,
    ensures
        ({
            let net = cluster_netlist(nodes);
            let port = |name: &str| EndpointView { module: node_name(i), port: name@ };
            &&& net.binds.len() == 2 * nodes
            &&& net.binds.contains((at("cluster_xbar", "outbound"), port("dma::resp_port")))
            &&& net.binds.contains((at("cluster_xbar", "outbound"), port("hbm::resp_port")))
            &&& net.instances.contains((node_name(i), Component::HpuNode))
        }),
{
    let net = cluster_netlist(nodes);
    let port = |name: &str| EndpointView { module: node_name(i), port: name@ };
    assert(net.binds[2 * i] == (at("cluster_xbar", "outbound"), port("dma::resp_port")));
    assert(net.binds[2 * i + 1] == (at("cluster_xbar", "outbound"), port("hbm::resp_port")));
    assert(net.instances[1 + i] == (node_name(i), Component::HpuNode));
}

} // verus!
