use std::collections::VecDeque;

use hpu_sim::cpn::hpu_core::event::{Event, HpuEventStore, Trigger};
use hpu_sim::cpn::insn::{CtId, DOp, IOpId, NodeId, UserFlag};
use hpu_sim::cpn::layout::{
    checked_page_align, checked_phys_addr, cid_to_addr, ct_chunk_size_b, is_addressable,
    lut_chunk_size_b, quotient_ceil, to_phys_addr, MemKind,
};
use hpu_sim::cpn::payload::{DOpMap, DOpPayload};
use hpu_sim::cpn::topology::{push_decimal, with_number, Component, Endpoint, Netlist};
use hpu_sim::cpn::ucore::unit::QueueConfig;
use hpu_sim::cpn::{
    HpuCluster, HpuClusterParams, HpuNode, IscPoolFlags, IscPoolState, IscTrace, TraceParsingError,
};
use hpu_sim::elaborate::{
    elaborate, BoardConfig, ClusterConfig, ElaborateError, FfiMode, SimOptions, HBM_GLOBAL_OFST,
    HBM_PC_OFST,
};
use hpu_sim::params::hpu::{
    HpuIscParameters, HpuKeyswitchParameters, HpuModulusSwitchType, HpuNoiseDistributionInputRaw,
    HpuNttCoreArch, HpuNttParameters, HpuNttPrime, HpuPBSParameters, HpuParameters,
    HpuPcParameters, HpuRegfileParameters,
};

fn parameters() -> HpuParameters {
    let noise = HpuNoiseDistributionInputRaw { mode: 2, raw_0: 3, raw_1: 0 };
    HpuParameters {
        pbs_params: HpuPBSParameters {
            lwe_dimension: 804,
            glwe_dimension: 1,
            polynomial_size: 2048,
            lwe_noise_distribution: noise,
            glwe_noise_distribution: noise,
            pbs_base_log: 23,
            pbs_level: 1,
            ks_base_log: 2,
            ks_level: 8,
            message_width: 2,
            carry_width: 2,
            ciphertext_width: 64,
            log2_p_fail: 0,
            modulus_switch_type: HpuModulusSwitchType::Standard,
        },
        ntt_params: HpuNttParameters {
            core_arch: HpuNttCoreArch::GF64(vec![5, 6]),
            min_pbs_nb: None,
            batch_pbs_nb: 8,
            total_pbs_nb: 32,
            ct_width: 64,
            radix: 2,
            stg_nb: 11,
            prime_modulus: HpuNttPrime::GF64,
            psi: 32,
            delta: 8,
        },
        ks_params: HpuKeyswitchParameters { width: 21, lbx: 2, lby: 64, lbz: 3 },
        pc_params: HpuPcParameters {
            ksk_pc: 8,
            ksk_bytes_w: 64,
            bsk_pc: 8,
            glwe_pc: 1,
            bsk_bytes_w: 64,
            pem_pc: 2,
            pem_bytes_w: 64,
            glwe_bytes_w: 64,
        },
        regf_params: HpuRegfileParameters { reg_nb: 64, coef_nb: 32 },
        isc_params: HpuIscParameters { depth: 64, min_iop_size: 45 },
    }
}

#[test]
fn sizes_are_rounded_up_to_pages() {
    assert_eq!(quotient_ceil(2049, 2), 1025);
    assert_eq!(quotient_ceil(2048, 2), 1024);
    assert_eq!(checked_page_align(0), Some(0));
    assert_eq!(checked_page_align(1), Some(4096));
    assert_eq!(checked_page_align(4096), Some(4096));
    assert_eq!(checked_page_align(4097), Some(8192));
    assert_eq!(checked_page_align(usize::MAX), None);
    let rtl = parameters();
    // 1025 words of 8 bytes in each of the two channels.
    assert_eq!(ct_chunk_size_b(&rtl), 12288);
    assert_eq!(lut_chunk_size_b(&rtl), 16384);
    assert!(ct_chunk_size_b(&rtl) * 2 >= 2049 * 8);
}

#[test]
fn addresses_depend_on_the_memory() {
    assert_eq!(to_phys_addr(MemKind::Ddr { offset: 0x100 }, 7, 9, 0x20), 0x120);
    assert_eq!(to_phys_addr(MemKind::Hbm { pc: 3 }, 0x1000, 0x10, 2), 0x1032);
    assert_eq!(checked_phys_addr(MemKind::Hbm { pc: 3 }, 0x1000, 0x10, 2), Some(0x1032));
    assert_eq!(checked_phys_addr(MemKind::Hbm { pc: 2 }, 0, usize::MAX, 0), None);
    assert_eq!(checked_phys_addr(MemKind::Ddr { offset: usize::MAX }, 0, 0, 1), None);
}

#[test]
fn slots_of_ciphertexts_are_apart() {
    let rtl = parameters();
    let mems = vec![MemKind::Hbm { pc: 10 }, MemKind::Ddr { offset: 64 }];
    let (global, pc) = (HBM_GLOBAL_OFST as usize, HBM_PC_OFST as usize);
    assert!(is_addressable(&rtl, &mems, global, pc, CtId(65535)));
    assert!(!is_addressable(&rtl, &mems, usize::MAX, pc, CtId(0)));
    let first = cid_to_addr(&rtl, &mems, global, pc, CtId(4));
    let second = cid_to_addr(&rtl, &mems, global, pc, CtId(5));
    assert_eq!(first, vec![0x40_0000_0000 + 10 * 0x2000_0000 + 4 * 12288, 64 + 4 * 12288]);
    for (a, b) in first.iter().zip(second.iter()) {
        assert_eq!(a + 12288, *b);
    }
    let mut no_channel = parameters();
    no_channel.pc_params.pem_pc = 0;
    assert!(!is_addressable(&no_channel, &mems, global, pc, CtId(0)));
}

#[test]
fn trace_entries_are_read_back() {
    let trace = IscTrace {
        state: IscPoolState {
            flags: IscPoolFlags(0b10_1101),
            wr_lock: 1,
            rd_lock: 2,
            issue_lock: 3,
            sync_id: 4,
        },
        insn: 5,
        timestamp: 6,
    };
    let words = trace.to_words();
    assert_eq!(words, vec![0b10_1101, 1, 2, 3, 4, 5, 6]);
    let mut stream: VecDeque<u32> = words.iter().copied().chain([99]).collect();
    assert_eq!(IscTrace::from_words(&mut stream), Ok(trace));
    assert_eq!(stream.len(), 8);
}

#[test]
fn short_traces_are_refused() {
    for n in 0..7 {
        let mut stream: VecDeque<u32> = vec![0; n].into();
        let error = IscTrace::from_words(&mut stream).unwrap_err();
        assert_eq!(error, TraceParsingError::EmptyStream);
        assert_eq!(error.message(), "Incomplete stream");
    }
}

#[test]
fn flags_are_fields_of_a_word() {
    let flags = IscPoolFlags::from_bits(0b10_1101);
    assert!(flags.pdg());
    assert!(!flags.rd_pdg());
    assert!(flags.vld());
    assert_eq!(flags.state(), 5);
    assert_eq!(flags.into_bits(), 0b10_1101);
}

#[test]
fn numbers_are_written_in_decimal() {
    assert_eq!(with_number("node_", 0), "node_0");
    assert_eq!(with_number("node_", 255), "node_255");
    let mut text = "a_".to_string();
    push_decimal(&mut text, 1020);
    assert_eq!(text, "a_1020");
}

#[test]
fn netlists_keep_what_is_put_in_them() {
    let mut net = Netlist::new();
    net.insert_module("a", Component::XBar);
    net.inner_bind(Endpoint::new("a", "p"), Endpoint::new("b", "q"));
    net.expose_port("out", Endpoint::new("a", "r"));
    assert_eq!(net.instances[0].0, "a");
    assert_eq!(net.binds[0].0.path(), "a::p");
    assert_eq!(net.binds[0].1.path(), "b::q");
    assert_eq!(net.exposed[0].name, "out");
    assert_eq!(net.exposed[0].inner.path(), "a::r");
}

fn config(ffi: FfiMode) -> ClusterConfig {
    ClusterConfig {
        ffi,
        node_id: vec![0, 3],
        polling_us: 77,
        regmap: vec!["a.toml".to_string(), "b.toml".to_string()],
        board: BoardConfig {
            lut_pc: MemKind::Hbm { pc: 34 },
            ct_pc: vec![MemKind::Hbm { pc: 32 }, MemKind::Hbm { pc: 33 }],
            ksk_pc: vec![MemKind::Hbm { pc: 0 }],
            bsk_pc: vec![MemKind::Hbm { pc: 8 }],
            trace_pc: MemKind::Hbm { pc: 35 },
            trace_depth: 32,
            fw_pc: MemKind::Ddr { offset: 0 },
            user_size: 1000,
            b2b_size: 24,
            heap_size: 1000,
        },
    }
}

fn queue(offset: usize) -> QueueConfig {
    QueueConfig {
        head_ofst: 0,
        tail_ofst: 4,
        data_ofst: 8,
        size_w: 64,
        mem: MemKind::Ddr { offset },
    }
}

fn simulated() -> FfiMode {
    FfiMode::Sim { ipc_name: "/tmp/hpu".to_string(), iopq: queue(0x100), ackq: queue(0x900) }
}

const OPTIONS: SimOptions = SimOptions { trivial: true, noops: false, dump_reg: true };

#[test]
fn a_cluster_is_elaborated_from_its_configuration() {
    let e = elaborate(&config(simulated()), &parameters(), OPTIONS).unwrap();
    assert_eq!(e.nodes.len(), 2);
    assert_eq!((e.nodes[0].id, e.nodes[1].id), (0, 3));
    assert_eq!(e.nodes[1].name, "node_3");
    assert_eq!(e.nodes[1].ipc_path, "/tmp/hpu_3");
    assert_eq!(e.nodes[1].port, 3);
    assert_eq!((e.switch.switch_latency, e.switch.bandwidth), (2, 25_000_000_000));
    let names: Vec<&str> = e.root.instances.iter().map(|i| i.0.as_str()).collect();
    assert_eq!(names, ["b2b_switch", "ctrl_xbar", "node_0", "node_3"]);
    let binds: Vec<(String, String)> =
        e.root.binds.iter().map(|b| (b.0.path(), b.1.path())).collect();
    assert_eq!(binds.len(), 6);
    assert_eq!(binds[0], ("b2b_switch::ingress".into(), "node_0::net_outbound".into()));
    assert_eq!(binds[4], ("b2b_switch::egress".into(), "node_3::net_inbound".into()));
    assert_eq!(binds[5], ("ctrl_xbar::port".into(), "node_3::ctrl".into()));
    // Each connection reaches a component of the cluster.
    for (from, to) in &e.root.binds {
        assert!(names.contains(&from.module.as_str()) && names.contains(&to.module.as_str()));
    }
}

#[test]
fn the_parameters_of_a_node_come_from_the_configuration() {
    let e = elaborate(&config(simulated()), &parameters(), OPTIONS).unwrap();
    let node = &e.node;
    assert!(node.hpu_core.trivial && !node.hpu_core.noops && node.hpu_core.dump_reg);
    assert_eq!(node.hpu_core.trace_depth, 32);
    assert_eq!(node.hpu_core.hbm_global_ofst, 0x40_0000_0000);
    assert_eq!(node.hpu_core.hbm_pc_ofst, 0x2000_0000);
    assert_eq!(node.ucore.cluster_nodes, [0, 3]);
    assert_eq!((node.ucore.ct_user, node.ucore.ct_b2b, node.ucore.ct_heap), (1000, 24, 1000));
    assert_eq!(node.ucore.axis_depth, 256);
    assert_eq!(node.ucore.polling_us, 77);
    assert_eq!(node.ucore.iopq.mem, MemKind::Ddr { offset: 0x100 });
    assert_eq!(node.ucore.ackq.mem, MemKind::Ddr { offset: 0x900 });
    assert_eq!(node.regmap.regmap_files, ["a.toml", "b.toml"]);
    assert_eq!(node.xbar.bandwidth, 1 << 50);
    assert_eq!((node.ddr.ports, node.ddr.size), (1, 4 << 30));
    assert_eq!((node.hbm.ports, node.hbm.size), (2, 32 << 30));
    assert_eq!(node.hbm.base_addr, Some(HBM_GLOBAL_OFST));
    assert_eq!(node.dma.inflight_req, 2);
    assert_eq!(node.ipc.keep_alive_ms, Some(250));
}

#[test]
fn only_simulated_hardware_is_elaborated() {
    let error = elaborate(&config(FfiMode::Hardware), &parameters(), OPTIONS).unwrap_err();
    assert_eq!(error, ElaborateError::NotSimulated);
    assert_eq!(error.message(), "HpuSim only work with FFIMode::Sim. Check used configuration");
}

#[test]
fn a_node_connects_its_components() {
    let params = elaborate(&config(simulated()), &parameters(), OPTIONS).unwrap().node;
    let node = HpuNode::new(params);
    let names: Vec<&str> = node.inner.instances.iter().map(|i| i.0.as_str()).collect();
    assert_eq!(
        names,
        ["ddr", "hbm", "regmap", "xbar", "ucore", "hpu_core", "ndma", "H2sBridge"]
    );
    assert_eq!(node.inner.binds.len(), 10);
    assert_eq!(node.inner.binds[9].0.path(), "H2sBridge::port");
    assert_eq!(node.inner.binds[9].1.path(), "xbar::inbound");
    for (from, to) in &node.inner.binds {
        assert!(names.contains(&from.module.as_str()) && names.contains(&to.module.as_str()));
    }
    let exposed: Vec<(&str, String)> =
        node.inner.exposed.iter().map(|e| (e.name.as_str(), e.inner.path())).collect();
    assert_eq!(exposed[0], ("net_inbound", "ndma::net_inbound".to_string()));
    assert_eq!(exposed[1], ("net_outbound", "ndma::net_outbound".to_string()));
    assert_eq!(exposed[2], ("ctrl", "ucore::ctrl".to_string()));
}

#[test]
fn an_empty_pool_entry_is_null() {
    assert_eq!(IscPoolFlags::default(), IscPoolFlags(0));
    let state = IscPoolState::default();
    assert_eq!(state.flags, IscPoolFlags(0));
    assert_eq!((state.wr_lock, state.rd_lock, state.issue_lock, state.sync_id), (0, 0, 0, 0));
}

#[test]
fn a_cluster_connects_its_nodes() {
    let node = elaborate(&config(simulated()), &parameters(), OPTIONS).unwrap().node;
    assert_eq!(format!("{:?}", node.clone()), format!("{node:?}"));
    let params = HpuClusterParams { hpu_node: vec![node.clone(), node] };
    let cluster = HpuCluster::new(params.clone());
    assert_eq!(format!("{:?}", cluster.params), format!("{params:?}"));
    let names: Vec<&str> = cluster.inner.instances.iter().map(|i| i.0.as_str()).collect();
    assert_eq!(names, ["cluster_xbar", "node_0", "node_1"]);
    assert_eq!(cluster.inner.binds.len(), 4);
    for (from, to) in &cluster.inner.binds {
        assert_eq!(from.path(), "cluster_xbar::outbound");
        assert!(names.contains(&to.module.as_str()));
    }
    assert_eq!(cluster.inner.binds[0].1.path(), "node_0::dma::resp_port");
    assert_eq!(cluster.inner.binds[2].1.path(), "node_1::dma::resp_port");
    assert_eq!(cluster.inner.binds[3].1.path(), "node_1::hbm::resp_port");
    assert_eq!(cluster.xbar.bandwidth, 10 * 1024 * 1024);
}

fn event(kind: u8, a: usize, b: usize) -> Event {
    Event { kind, a, b }
}

#[test]
fn events_are_handed_out_by_cycle_then_by_event() {
    let mut store = HpuEventStore::new();
    store.dispatch(event(5, 1, 0), 10, Some(3));
    store.dispatch(event(4, 9, 0), 10, Some(3));
    store.dispatch(event(7, 0, 0), 11, None);
    store.dispatch(event(4, 2, 0), 13, None);
    // Registered twice at the same cycle.
    store.dispatch(event(4, 2, 0), 12, Some(1));
    assert_eq!(store.triggers.len(), 4);
    assert!(store.contains_event(&event(4, 2, 0), None));
    assert!(store.contains_event(&event(4, 2, 0), Some(13)));
    assert!(!store.contains_event(&event(4, 2, 0), Some(12)));
    assert!(!store.contains_event(&event(4, 3, 0), None));

    let batch = store.pop_batch();
    assert_eq!(batch, [Trigger { at: 11, event: event(7, 0, 0) }]);
    assert_eq!(store.pop_delta(11), None);
    let first = store.pop_delta(13);
    assert_eq!(first, Some(Trigger { at: 13, event: event(4, 2, 0) }));
    let batch = store.pop_batch();
    assert_eq!(batch.len(), 2);
    assert_eq!(batch[0].event, event(4, 9, 0));
    assert_eq!(batch[1].event, event(5, 1, 0));
    assert!(store.pop_batch().is_empty());
}

#[test]
fn stores_with_the_same_events_agree() {
    let events = [(3, event(1, 0, 0)), (1, event(9, 0, 1)), (1, event(9, 0, 0))];
    let mut a = HpuEventStore::new();
    let mut b = HpuEventStore::new();
    for (at, e) in events {
        a.dispatch(e, at, None);
    }
    for (at, e) in events.iter().rev() {
        b.dispatch(*e, *at, None);
    }
    assert_eq!(a.triggers, b.triggers);
    assert_eq!(a.triggers[0].event, event(9, 0, 0));
}

#[test]
fn instructions_are_found_by_their_number() {
    let sync = DOp::SYNC { is_inner: false, flag: UserFlag(0), hid: NodeId(0), iid: IOpId(4) };
    let mut dops = DOpMap::new();
    dops.insert(3, DOpPayload::new(sync, "SYNC".to_string()));
    assert_eq!(dops.get(3), Some(sync));
    assert_eq!(dops.get(2), None);
    let taken = dops.remove(3).unwrap();
    assert_eq!(taken.asm_view, "SYNC");
    assert!(taken.trace.is_empty());
    assert!(dops.remove(3).is_none());
}
