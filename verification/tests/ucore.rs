use std::collections::VecDeque;

use hpu_sim::cpn::insn::{
    CtId, CtMem, CtReg, DOp, IOpId, NodeId, PtArg, UcoreFlag, UcorePayload, UcorePayloadMode,
    UserFlag,
};
use hpu_sim::cpn::iop::{IOp, Operand};
use hpu_sim::cpn::layout::MemKind;
use hpu_sim::cpn::ucore::flow::{Ending, Progress, TeardownAction, TeardownStage, Translation};
use hpu_sim::cpn::ucore::guard::can_start;
use hpu_sim::cpn::ucore::machine::{closing_sync, notify_done, resume_with};
use hpu_sim::cpn::ucore::model::{AckAction, CtrlPkt, DmaReq, Step, VarMode};
use hpu_sim::cpn::ucore::pool::B2bPool;
use hpu_sim::cpn::ucore::store::{
    DstArgStore, DstVarState, IOpState, SrcArgStore, SrcVarState, UserStore, UserVarState,
};
use hpu_sim::cpn::ucore::unit::{QueueConfig, QueueRead, QueueWrite};
use hpu_sim::cpn::{UCore, UCoreParams};
use hpu_sim::params::hpu::{
    HpuIscParameters, HpuKeyswitchParameters, HpuModulusSwitchType, HpuNoiseDistributionInputRaw,
    HpuNttCoreArch, HpuNttParameters, HpuNttPrime, HpuPBSParameters, HpuParameters,
    HpuPcParameters, HpuRegfileParameters,
};
use tfhe_hpu_backend::prelude::hpu_asm::dop::{DOpAdd, DOpLd, MemId, RegId, ToHex};

fn parameters() -> HpuParameters {
    let noise = HpuNoiseDistributionInputRaw { mode: 2, raw_0: 3, raw_1: 0 };
    HpuParameters {
        pbs_params: HpuPBSParameters {
            lwe_dimension: 804,
            glwe_dimension: 1,
            polynomial_size: 2048,
            lwe_noise_distribution: noise,
            glwe_noise_distribution: noise,
            pbs_base_log: 23,
            pbs_level: 1,
            ks_base_log: 2,
            ks_level: 8,
            message_width: 2,
            carry_width: 2,
            ciphertext_width: 64,
            log2_p_fail: 0,
            modulus_switch_type: HpuModulusSwitchType::Standard,
        },
        ntt_params: HpuNttParameters {
            core_arch: HpuNttCoreArch::GF64(vec![5, 6]),
            min_pbs_nb: None,
            batch_pbs_nb: 8,
            total_pbs_nb: 32,
            ct_width: 64,
            radix: 2,
            stg_nb: 11,
            prime_modulus: HpuNttPrime::GF64,
            psi: 32,
            delta: 8,
        },
        ks_params: HpuKeyswitchParameters { width: 21, lbx: 2, lby: 64, lbz: 3 },
        pc_params: HpuPcParameters {
            ksk_pc: 8,
            ksk_bytes_w: 64,
            bsk_pc: 8,
            glwe_pc: 1,
            bsk_bytes_w: 64,
            pem_pc: 2,
            pem_bytes_w: 64,
            glwe_bytes_w: 64,
        },
        regf_params: HpuRegfileParameters { reg_nb: 64, coef_nb: 32 },
        isc_params: HpuIscParameters { depth: 64, min_iop_size: 45 },
    }
}

fn queue() -> QueueConfig {
    QueueConfig {
        head_ofst: 0,
        tail_ofst: 4,
        data_ofst: 16,
        size_w: 10,
        mem: MemKind::Ddr { offset: 0x800 },
    }
}

/// A micro-core of node 1, with slots 100 to 103 in its pool and 200 slots in all.
fn ucore() -> UCore {
    let mut ucore = UCore::new(UCoreParams {
        cluster_nodes: vec![0, 1, 2],
        fw_pc: MemKind::Ddr { offset: 0x4000 },
        ct_pc: vec![MemKind::Hbm { pc: 1 }, MemKind::Ddr { offset: 0x100 }],
        ct_user: 100,
        ct_b2b: 4,
        ct_heap: 96,
        axis_depth: 256,
        polling_us: 10,
        iopq: queue(),
        ackq: queue(),
        rtl_params: parameters(),
        hbm_global_ofst: 0x1000_0000,
        hbm_pc_ofst: 0x100_0000,
    });
    let mut raw = vec![7; 260];
    raw[0] = 1;
    ucore.load_config(&raw);
    ucore
}

fn operand(cid: u16, iid: u8, pos: u8) -> Operand {
    Operand { block: 1, base_cid: CtId(cid), iid: IOpId(iid), pos: NodeId(pos) }
}

/// An operation on nodes 0, 1 and 2. Its first destination and its first source are on
/// node 1, the second ones on node 2.
fn operation(iid: u8) -> IOp {
    IOp {
        opcode: 3,
        blk_width: 1,
        dynamic: false,
        mapping: vec![NodeId(0), NodeId(1), NodeId(2)],
        dst: vec![operand(10, iid, 1), operand(20, iid, 2)],
        src: vec![operand(30, 4, 1), operand(40, 5, 2)],
        imm: vec![(0..256).map(|b| b as u16 + 1000).collect()],
        words: vec![iid as u32, 2, 3],
    }
}

fn started() -> UCore {
    let mut ucore = ucore();
    let iop = operation(9);
    assert!(can_start(&iop));
    ucore.inner.start_iop(&iop);
    ucore
}

fn exec(ucore: &mut UCore, dop: DOp) -> Step {
    assert!(ucore.inner.can_exec(200, dop));
    ucore.exec_or_deferred(dop)
}

fn reg(addr: u8) -> CtReg {
    CtReg::new(addr)
}

fn load(src: CtMem) -> DOp {
    DOp::LD { dst: reg(5), src }
}

fn store(dst: CtMem) -> DOp {
    DOp::ST { dst, src: reg(6) }
}

fn io(cid: u16) -> CtMem {
    CtMem::Io(CtId(cid))
}

fn done(iid: u8, from: u8, iop_nodes: u8) -> UcorePayload {
    UcorePayload {
        mode: UcorePayloadMode::IOpDone(iop_nodes),
        slot: None,
        from_hid: NodeId(from),
        iid: IOpId(iid),
    }
}

fn user(iid: u8, flag: u8, from: u8, slot: u16) -> UcorePayload {
    UcorePayload {
        mode: UcorePayloadMode::User(UserFlag(flag)),
        slot: Some(CtId(slot)),
        from_hid: NodeId(from),
        iid: IOpId(iid),
    }
}

fn notify(ucore: &mut UCore, pld: UcorePayload) -> Vec<DmaReq> {
    assert!(ucore.inner.can_notify(pld));
    ucore.irq_notify(pld)
}

#[test]
fn a_micro_core_owns_the_slots_after_those_of_the_user() {
    let ucore = ucore();
    assert_eq!(ucore.inner.node_id, 1);
    assert_eq!(ucore.inner.b2b_pool.free, [CtId(100), CtId(101), CtId(102), CtId(103)]);
    assert!(ucore.inner.iop_pdg.is_empty());
    assert!(!ucore.inner.can_exec(200, DOp::_START));
}

#[test]
fn memory_templates_are_resolved() {
    let mut ucore = started();
    assert_eq!(exec(&mut ucore, load(io(7))), Step::Defer(load(io(7))));
    // The heap is used downward from the last slot.
    assert_eq!(exec(&mut ucore, load(CtMem::Heap { bid: 3 })), Step::Defer(load(io(196))));
    assert_eq!(
        exec(&mut ucore, load(CtMem::Src { tid: 0, bid: 1 })),
        Step::Defer(load(io(31)))
    );
    assert_eq!(
        exec(&mut ucore, store(CtMem::Dst { tid: 0, bid: 1 })),
        Step::Defer(store(io(11)))
    );
    let local = VarMode::ArgDst { iid: IOpId(9), var: 0, blk: 1 };
    assert!(ucore.inner.wait_resolved(local));
    assert!(!ucore.inner.can_exec(200, load(CtMem::Heap { bid: 200 })));
    assert!(!ucore.inner.can_exec(200, load(CtMem::Src { tid: 2, bid: 0 })));
}

#[test]
fn immediates_are_resolved() {
    let mut ucore = started();
    let adds = |cst: PtArg| DOp::ADDS { dst: reg(1), src: reg(2), cst };
    assert_eq!(exec(&mut ucore, adds(PtArg::Const(3))), Step::Defer(adds(PtArg::Const(3))));
    assert_eq!(
        exec(&mut ucore, adds(PtArg::Var { tid: 0, bid: 7 })),
        Step::Defer(adds(PtArg::Const(1007)))
    );
    assert!(!ucore.inner.can_exec(200, adds(PtArg::Var { tid: 1, bid: 0 })));
    let add = DOp::ADD { dst: reg(1), src1: reg(2), src2: reg(3) };
    assert_eq!(exec(&mut ucore, add), Step::Defer(add));
}

#[test]
fn a_patched_immediate_is_not_patched_again() {
    let (iop, mut other) = (operation(9), operation(3));
    other.imm = vec![vec![5; 256]];
    let mut imm = PtArg::Var { tid: 0, bid: 255 };
    UCore::patch_imm(&iop, &mut imm);
    assert_eq!(imm, PtArg::Const(1255));
    UCore::patch_imm(&other, &mut imm);
    assert_eq!(imm, PtArg::Const(1255));
    let mut imm = PtArg::Var { tid: 0, bid: 255 };
    UCore::patch_imm(&other, &mut imm);
    assert_eq!(imm, PtArg::Const(5));
}

#[test]
fn remote_destinations_are_signalled_at_the_end() {
    let mut ucore = started();
    let remote = store(CtMem::Dst { tid: 1, bid: 1 });
    assert_eq!(exec(&mut ucore, remote), Step::Defer(store(io(103))));
    assert_eq!(ucore.inner.b2b_pool.free.len(), 3);
    let pkts = ucore.inner.flush_dst_notifyq(IOpId(9));
    let flag = UcoreFlag { tid: 1, bid: 1, trgt_cid: CtId(21) };
    assert_eq!(
        pkts,
        [CtrlPkt {
            from: NodeId(1),
            to: NodeId(2),
            payload: UcorePayload {
                mode: UcorePayloadMode::Ucore(flag),
                slot: Some(CtId(103)),
                from_hid: NodeId(1),
                iid: IOpId(9),
            },
        }]
    );
    assert!(ucore.inner.dst_notifyq.is_empty());
    let free = ucore.inner.b2b_pool.free.clone();
    ucore.inner.iop_teardown(IOpId(9), 3);
    assert_eq!(ucore.inner.b2b_pool.free.len(), free.len() + 1);
}

#[test]
fn remote_sources_are_fetched_once_they_are_done() {
    // The operation that produces the source is not done.
    let mut ucore = started();
    assert!(notify(&mut ucore, done(5, 0, 2)).is_empty());
    let remote = load(CtMem::Src { tid: 1, bid: 0 });
    let key = VarMode::ArgSrc { var: 1, blk: 0 };
    assert_eq!(
        exec(&mut ucore, remote),
        Step::FetchThenDefer { req: None, key, dop: remote }
    );
    let req = DmaReq { mode: key, from: (NodeId(2), CtId(40)), to: (NodeId(1), CtId(103)) };
    assert_eq!(notify(&mut ucore, done(5, 2, 2)), [req]);
    ucore.inner.register_dma(req);
    assert_eq!(ucore.inner.get_resolved(key), None);
    assert!(ucore.inner.can_end_dma());
    // One response for each channel.
    assert!(!ucore.inner.irq_dma());
    assert!(!ucore.inner.wait_resolved(key));
    assert!(ucore.inner.irq_dma());
    assert_eq!(ucore.inner.get_resolved(key), Some(CtId(103)));
    assert!(!ucore.inner.can_end_dma());
    assert_eq!(resume_with(remote, CtId(103)), load(io(103)));
}

#[test]
fn the_fetch_of_a_source_does_not_depend_on_the_order() {
    let key = VarMode::ArgSrc { var: 1, blk: 1 };
    // The source is on node 2, whatever node ends its operation last.
    for (one, last) in [(0, 2), (2, 0)] {
        let mut first = started();
        notify(&mut first, done(5, one, 2));
        assert!(first.inner.can_load(key, None));
        assert_eq!(first.ld_b2b(key, None), None);
        let late = notify(&mut first, done(5, last, 2));
        assert_eq!(late[0].from, (NodeId(2), CtId(41)));
        let mut second = started();
        notify(&mut second, done(5, one, 2));
        assert!(notify(&mut second, done(5, last, 2)).is_empty());
        let early = second.ld_b2b(key, None);
        assert_eq!(late, [early.unwrap()]);
        assert_eq!(first.inner.local_store.src(1, 1), second.inner.local_store.src(1, 1));
        assert_eq!(first.inner.local_store.src(1, 1), SrcVarState::DmaPending(2));
        assert_eq!(first.inner.b2b_pool.free, second.inner.b2b_pool.free);
    }
}

#[test]
fn events_have_six_bits() {
    let mut ucore = started();
    assert!(ucore.inner.can_notify(user(5, 63, 0, 1)));
    assert!(!ucore.inner.can_notify(user(5, 64, 0, 1)));
    notify(&mut ucore, user(5, 63, 0, 1));
    assert_eq!(ucore.inner.user_store.get(IOpId(6), UserFlag(0)), UserVarState::Idle);
}

#[test]
fn blocks_have_a_place_of_their_own() {
    let ucore = ucore();
    let block = |tid, bid| UcorePayload {
        mode: UcorePayloadMode::Ucore(UcoreFlag { tid, bid, trgt_cid: CtId(11) }),
        slot: Some(CtId(77)),
        from_hid: NodeId(2),
        iid: IOpId(3),
    };
    assert!(ucore.inner.can_notify(block(63, 63)));
    assert!(!ucore.inner.can_notify(block(64, 0)));
    assert!(!ucore.inner.can_notify(block(0, 64)));
}

#[test]
fn a_new_micro_core_is_idle() {
    let ucore = UCore::new(ucore().params);
    assert_eq!((ucore.inner.node_id, ucore.inner.cur_iid), (0, IOpId(0)));
    assert!((0..=255).all(|iid| ucore.inner.iop_state.is_done(IOpId(iid))));
    assert_eq!(ucore.inner.local_store.src(63, 63), SrcVarState::Idle);
    assert_eq!(ucore.inner.user_store.get(IOpId(255), UserFlag(63)), UserVarState::Idle);
    assert_eq!(ucore.inner.dst_store.get(IOpId(1), 0, 0), DstVarState::WaitNotify);
    assert!(ucore.inner.dst_store.get_owned(IOpId(1), NodeId(0)).is_empty());
    assert!(ucore.inner.dst_notifyq.is_empty());
}

#[test]
fn explicit_transfers_do_not_depend_on_the_order() {
    let slot = CtMem::Heap { bid: 0 };
    let dop = DOp::LD_B2B { hid: NodeId(2), flag: UserFlag(6), slot };
    let key = VarMode::User { iid: IOpId(9), flag: UserFlag(6) };
    let req = DmaReq { mode: key, from: (NodeId(2), CtId(55)), to: (NodeId(1), CtId(199)) };
    let mut first = started();
    assert_eq!(exec(&mut first, dop), Step::Fetch(None));
    assert_eq!(notify(&mut first, user(9, 6, 2, 55)), [req]);
    let mut second = started();
    assert!(notify(&mut second, user(9, 6, 2, 55)).is_empty());
    assert!(second.inner.wait_received(IOpId(9), UserFlag(6)));
    assert_eq!(exec(&mut second, dop), Step::Fetch(Some(req)));
    for ucore in [&first, &second] {
        let state = ucore.inner.user_store.get(IOpId(9), UserFlag(6));
        assert_eq!(state, UserVarState::DmaPending(2));
    }
    // A message is not accepted twice.
    assert!(!first.inner.can_notify(user(9, 6, 2, 55)));
    let wait = DOp::WAIT { hid: NodeId(2), flag: UserFlag(6), slot };
    assert_eq!(exec(&mut first, wait), Step::Wait(key));
    first.inner.register_dma(req);
    assert!(!first.inner.irq_dma());
    assert!(first.inner.irq_dma());
    assert!(first.inner.wait_resolved(key));
    assert_eq!(first.inner.get_resolved(key), Some(CtId(199)));
}

#[test]
fn blocks_of_destinations_are_fetched() {
    let mut ucore = started();
    let flag = UcoreFlag { tid: 0, bid: 1, trgt_cid: CtId(11) };
    let pld = UcorePayload {
        mode: UcorePayloadMode::Ucore(flag),
        slot: Some(CtId(77)),
        from_hid: NodeId(2),
        iid: IOpId(9),
    };
    let key = VarMode::ArgDst { iid: IOpId(9), var: 0, blk: 1 };
    let req = DmaReq { mode: key, from: (NodeId(2), CtId(77)), to: (NodeId(1), CtId(11)) };
    assert_eq!(notify(&mut ucore, pld), [req]);
    assert!(!ucore.inner.can_notify(pld));
    let owned = ucore.inner.wait_owned_dst(IOpId(9));
    assert_eq!(owned, [VarMode::ArgDst { iid: IOpId(9), var: 0, blk: 0 }, key]);
    ucore.inner.register_dma(req);
    assert!(!ucore.inner.irq_dma());
    assert!(!ucore.inner.wait_resolved(key));
    assert!(ucore.inner.irq_dma());
    assert!(ucore.inner.wait_resolved(key));
    assert!(!ucore.inner.wait_resolved(owned[0]));
}

#[test]
fn messages_wait_for_their_barrier() {
    let mut ucore = started();
    let dop = DOp::NOTIFY { hid: NodeId(2), flag: UserFlag(8), slot: io(60) };
    let barrier = DOp::SYNC {
        is_inner: true,
        flag: UserFlag(8),
        hid: NodeId(2),
        iid: IOpId(9),
    };
    assert_eq!(exec(&mut ucore, dop), Step::Defer(barrier));
    assert_eq!(ucore.inner.pdg_notify.len(), 1);
    let action = ucore.inner.irq_ack(true);
    let pkt = CtrlPkt { from: NodeId(1), to: NodeId(2), payload: user(9, 8, 1, 60) };
    assert_eq!(action, AckAction::Notify(pkt));
    assert!(ucore.inner.pdg_notify.is_empty());
}

#[test]
fn the_last_barrier_ends_the_oldest_operation() {
    let mut ucore = started();
    let end = DOp::SYNC { is_inner: false, flag: UserFlag(0), hid: NodeId(0), iid: IOpId(9) };
    assert_eq!(closing_sync(IOpId(9)), end);
    ucore.inner.start_iop(&operation(10));
    let action = ucore.inner.irq_ack(false);
    assert_eq!(
        action,
        AckAction::Teardown { hid: NodeId(1), iid: IOpId(9), iop_nodes: 3 }
    );
    assert_eq!(ucore.inner.pop_iop().words, [9, 2, 3]);
    assert_eq!(ucore.inner.iop_pdg.len(), 1);
}

#[test]
fn the_other_nodes_learn_of_the_end_of_an_operation() {
    let ucore = started();
    let pkts = ucore.notify_done(NodeId(1), IOpId(9), 3);
    assert_eq!(pkts.len(), 2);
    assert_eq!((pkts[0].to, pkts[1].to), (NodeId(0), NodeId(2)));
    assert_eq!(pkts[0].payload, done(9, 1, 3));
    assert_eq!(notify_done(&vec![1], NodeId(1), IOpId(9), 1), []);
}

#[test]
fn the_end_of_an_operation_forgets_its_destinations_only() {
    let mut ucore = started();
    ucore.inner.start_iop(&operation(10));
    assert_eq!(ucore.inner.wait_owned_dst(IOpId(9)).len(), 2);
    ucore.inner.iop_teardown(IOpId(9), 3);
    assert_eq!(ucore.inner.wait_owned_dst(IOpId(9)).len(), 0);
    assert_eq!(ucore.inner.wait_owned_dst(IOpId(10)).len(), 2);
    assert_eq!(ucore.inner.iop_state.0[9], 2);
}

#[test]
fn a_restart_takes_everything_back() {
    let mut ucore = started();
    exec(&mut ucore, store(CtMem::Dst { tid: 1, bid: 0 }));
    notify(&mut ucore, user(9, 3, 2, 5));
    assert_eq!(ucore.inner.b2b_pool.free.len(), 3);
    ucore.inner.start_iop(&operation(10));
    assert_eq!(ucore.inner.b2b_pool.free.len(), 3);
    assert!(ucore.inner.wait_received(IOpId(9), UserFlag(3)));
    // An identifier that does not grow.
    ucore.inner.start_iop(&operation(2));
    assert_eq!(ucore.inner.b2b_pool.free.len(), 4);
    assert!(!ucore.inner.wait_received(IOpId(9), UserFlag(3)));
    assert_eq!(ucore.inner.wait_owned_dst(IOpId(9)).len(), 0);
    assert_eq!(ucore.inner.cur_iid, IOpId(2));
}

#[test]
fn an_operation_is_done_when_all_its_nodes_have_finished() {
    let mut state = IOpState::new();
    assert!(state.is_done(IOpId(7)));
    state.node_ack(IOpId(7), 3);
    assert!(!state.is_done(IOpId(7)));
    state.node_ack(IOpId(7), 3);
    assert!(!state.is_done(IOpId(7)));
    state.node_ack(IOpId(7), 3);
    assert!(state.is_done(IOpId(7)));
    state.node_ack(IOpId(7), 2);
    assert!(!state.is_done(IOpId(7)));
    state.node_ack(IOpId(7), 2);
    assert!(state.is_done(IOpId(7)));
    assert!(!ucore().inner.can_notify(done(7, 0, 0)));
}

#[test]
fn the_pool_keeps_its_slots() {
    let mut pool = B2bPool::new();
    pool.add_slot(&vec![CtId(1), CtId(2), CtId(3)]);
    assert_eq!(pool.get_tagged(IOpId(4)), CtId(3));
    assert_eq!(pool.get_tagged(IOpId(5)), CtId(2));
    pool.release_tagged(IOpId(6));
    assert_eq!(pool.free, [CtId(1)]);
    pool.release_tagged(IOpId(4));
    assert_eq!(pool.free, [CtId(1), CtId(3)]);
    assert_eq!(pool.get_tagged(IOpId(4)), CtId(3));
    pool.release_all();
    let mut all: Vec<u16> = pool.free.iter().map(|cid| cid.0).collect();
    all.sort();
    assert_eq!(all, [1, 2, 3]);
}

#[test]
fn stores_are_indexed_by_operation_operand_and_block() {
    let mut users = UserStore::new();
    users.set(IOpId(2), UserFlag(3), UserVarState::Resolved(CtId(1)));
    assert_eq!(users.get(IOpId(2), UserFlag(3)), UserVarState::Resolved(CtId(1)));
    assert_eq!(users.get(IOpId(3), UserFlag(3)), UserVarState::Idle);
    let mut dsts = DstArgStore::new();
    assert_eq!(dsts.get(IOpId(2), 1, 5), DstVarState::WaitNotify);
    dsts.init_iop(&operation(2));
    assert_eq!(dsts.get(IOpId(2), 1, 1), DstVarState::WaitNotify);
    assert_eq!(dsts.get(IOpId(2), 1, 2), DstVarState::Unused);
    assert_eq!(dsts.get_owned(IOpId(2), NodeId(2)), [(1, 0), (1, 1)]);
    // Operand by operand, then block by block, on each node.
    let mut both = operation(2);
    both.dst = vec![operand(1, 2, 1), operand(2, 2, 0), operand(3, 2, 1)];
    both.dst[0].block = 2;
    both.dst[2].block = 70;
    dsts.reset_iop(IOpId(2));
    dsts.init_iop(&both);
    let mut owned: Vec<(u8, u8)> = vec![(0, 0), (0, 1), (0, 2)];
    owned.extend((0..64).map(|blk| (2, blk)));
    assert_eq!(dsts.get_owned(IOpId(2), NodeId(1)), owned);
    assert_eq!(dsts.get_owned(IOpId(2), NodeId(0)), [(1, 0), (1, 1)]);
    dsts.reset_iop(IOpId(2));
    assert_eq!(dsts.get(IOpId(2), 1, 2), DstVarState::WaitNotify);
    assert!(dsts.get_owned(IOpId(2), NodeId(2)).is_empty());
    let mut srcs = SrcArgStore::new();
    assert!(srcs.idx_of(IOpId(5)).is_empty());
    srcs.reset(operation(2));
    assert_eq!(srcs.idx_of(IOpId(5)), [(1, 0), (1, 1)]);
    assert_eq!((srcs.src_iid(1), srcs.src_hid(1)), (IOpId(5), NodeId(2)));
    assert_eq!(srcs.src_cid(1, 1), CtId(41));
    srcs.set_src(1, 1, SrcVarState::DmaPending(2));
    assert_eq!(srcs.src(1, 1), SrcVarState::DmaPending(2));
    assert_eq!(srcs.src(1, 0), SrcVarState::Idle);
}

#[test]
fn operations_with_too_many_destinations_are_refused() {
    let mut iop = operation(1);
    iop.dst = vec![operand(1, 1, 1); 64];
    assert!(can_start(&iop));
    iop.dst = vec![operand(1, 1, 1); 65];
    assert!(!can_start(&iop));
    let mut iop = operation(1);
    iop.dst[1].block = 255;
    assert!(!can_start(&iop));
}

#[test]
fn queues_are_polled() {
    let q = queue();
    assert!(q.usable());
    assert_eq!(q.pointers(), (0x800, 0x804));
    assert_eq!(q.poll(5, 5), None);
    let read = QueueRead { addr: 0x810 + 2 * 4, size_b: 12, tail_addr: 0x804, tail: 15 };
    assert_eq!(q.poll(15, 12), Some(read));
    let write = QueueWrite { addr: 0x810 + 7 * 4, head_addr: 0x800, head: 18 };
    assert_eq!(q.reserve(17, 9), Some(write));
    let write = QueueWrite { addr: 0x810 + 8 * 4, head_addr: 0x800, head: 19 };
    assert_eq!(q.reserve(18, 9), Some(write));
    // A full queue has no room until a word is read.
    assert_eq!(q.reserve(19, 9), None);
    assert!(q.reserve(19, 10).is_some());
    assert_eq!(q.reserve(10, 0), None);
    let mut hbm = queue();
    hbm.mem = MemKind::Hbm { pc: 0 };
    assert!(!hbm.usable());
    let mut empty = queue();
    empty.size_w = 0;
    assert!(!empty.usable());
}

#[test]
fn operations_are_extracted_from_the_words_of_the_host() {
    let mut ucore = ucore();
    let words: Vec<u32> = vec![
        0x21 << 16,
        0x1,
        (6 << 18) | (1 << 29) | (1 << 30),
        100,
        (1 << 29),
        40,
        99,
    ];
    let bytes: Vec<u8> = words.iter().flat_map(|w| w.to_ne_bytes()).collect();
    ucore.iopq_flush(&bytes);
    assert_eq!(ucore.inner.iop_stream, VecDeque::from(words.clone()));
    let iop = ucore.inner.next_iop().unwrap();
    assert_eq!((iop.opcode, iop.get_iid()), (0x21, IOpId(6)));
    assert_eq!(iop.words, words[0..6]);
    assert_eq!(ucore.inner.iop_stream, VecDeque::from(vec![99]));
    assert!(ucore.inner.next_iop().is_none());
    ucore.extend_stream(&vec![1, 2]);
    assert_eq!(ucore.inner.iop_stream, VecDeque::from(vec![99, 1, 2]));
}

#[test]
fn firmware_is_found_by_operation() {
    let ucore = started();
    let iop = operation(9);
    // Eight nodes for each operation code, and all the codes for each width.
    assert_eq!(ucore.fw_entry_addr(&iop), 0x4000 + 256 + (0x800 + 8 * 3 + 1) * 4);
    assert_eq!(ucore.fw_len_addr(0x40), 0x4140);
    assert_eq!(ucore.fw_stream(0x40, 3), (0x4144, 12));
}

#[test]
fn firmware_is_decoded() {
    let ucore = ucore();
    let add = DOpAdd::new(RegId(3), RegId(1), RegId(2)).to_hex();
    let ld = DOpLd::new(RegId(5), MemId::new_src(1, 4)).to_hex();
    let bytes = |words: &[u32]| -> Vec<u8> { words.iter().flat_map(|w| w.to_ne_bytes()).collect() };
    let dops = ucore.load_fw(&bytes(&[add, ld])).unwrap();
    assert_eq!(
        dops,
        [
            DOp::ADD { dst: reg(3), src1: reg(1), src2: reg(2) },
            load(CtMem::Src { tid: 1, bid: 4 }),
        ]
    );
    assert!(ucore.load_fw(&bytes(&[add, 0])).is_none());
}

#[test]
fn transfers_are_split_over_the_channels() {
    let ucore = ucore();
    let mode = VarMode::ArgSrc { var: 0, blk: 0 };
    let req = DmaReq { mode, from: (NodeId(2), CtId(3)), to: (NodeId(1), CtId(5)) };
    let xfers = ucore.start_dma(req);
    assert_eq!(xfers.len(), 2);
    assert_eq!((xfers[0].from_hid, xfers[0].to_hid), (2, 1));
    assert_eq!(xfers[0].from_addr, 0x1100_0000 + 3 * 12288);
    assert_eq!(xfers[0].to_addr, 0x1100_0000 + 5 * 12288);
    assert_eq!(xfers[1].from_addr, 0x100 + 3 * 12288);
    assert_eq!(xfers[1].size_b, 12288);
    assert_eq!(ucore.cid_to_addr(CtId(3)), [xfers[0].from_addr, xfers[1].from_addr]);
    assert_eq!(ucore.ct_pc_pattern(), 12288);
}

#[test]
fn an_empty_pool_lends_nothing() {
    let mut ucore = started();
    for bid in 0..2 {
        exec(&mut ucore, store(CtMem::Dst { tid: 1, bid }));
        exec(&mut ucore, load(CtMem::Src { tid: 1, bid }));
    }
    assert!(ucore.inner.b2b_pool.free.is_empty());
    assert!(!ucore.inner.can_exec(200, store(CtMem::Dst { tid: 1, bid: 0 })));
    // A source that was already asked for needs no slot.
    assert!(ucore.inner.can_exec(200, load(CtMem::Src { tid: 1, bid: 0 })));
}

fn step(ucore: &mut UCore, t: &mut Translation) -> Progress {
    assert!(ucore.can_translate(t));
    ucore.translate(t)
}

#[test]
fn an_operation_is_translated_step_by_step() {
    let mut ucore = started();
    notify(&mut ucore, done(5, 0, 2));
    let flag = UserFlag(6);
    let remote = load(CtMem::Src { tid: 1, bid: 0 });
    let mut t = Translation::new(vec![
        load(io(7)),
        DOp::LD_B2B { hid: NodeId(2), flag, slot: io(60) },
        DOp::WAIT { hid: NodeId(2), flag, slot: io(60) },
        remote,
        store(CtMem::Dst { tid: 0, bid: 0 }),
    ]);
    assert_eq!(step(&mut ucore, &mut t), Progress::Send(load(io(7))));
    assert_eq!(step(&mut ucore, &mut t), Progress::Continue);
    assert_eq!(step(&mut ucore, &mut t), Progress::Continue);
    // The translation waits for the explicit transfer.
    let user_key = VarMode::User { iid: IOpId(9), flag };
    assert_eq!(step(&mut ucore, &mut t), Progress::Hang(user_key));
    assert_eq!(step(&mut ucore, &mut t), Progress::Hang(user_key));
    for req in notify(&mut ucore, user(9, 6, 2, 55)) {
        ucore.inner.register_dma(req);
    }
    assert!(!ucore.inner.irq_dma() && ucore.inner.irq_dma());
    assert_eq!(step(&mut ucore, &mut t), Progress::Continue);
    // Then for the source operand.
    assert_eq!(step(&mut ucore, &mut t), Progress::Continue);
    let key = VarMode::ArgSrc { var: 1, blk: 0 };
    assert_eq!(step(&mut ucore, &mut t), Progress::Hang(key));
    for req in notify(&mut ucore, done(5, 2, 2)) {
        ucore.inner.register_dma(req);
    }
    assert!(!ucore.inner.irq_dma() && ucore.inner.irq_dma());
    assert_eq!(step(&mut ucore, &mut t), Progress::Send(load(io(103))));
    assert_eq!(step(&mut ucore, &mut t), Progress::Send(store(io(10))));
    assert_eq!(step(&mut ucore, &mut t), Progress::Send(closing_sync(IOpId(9))));
    assert_eq!(step(&mut ucore, &mut t), Progress::Over);
    assert_eq!(step(&mut ucore, &mut t), Progress::Over);
}

#[test]
fn a_source_that_is_done_is_fetched_at_once() {
    let mut ucore = started();
    let key = VarMode::ArgSrc { var: 1, blk: 0 };
    let req = DmaReq { mode: key, from: (NodeId(2), CtId(40)), to: (NodeId(1), CtId(103)) };
    let mut t = Translation::new(vec![load(CtMem::Src { tid: 1, bid: 0 })]);
    assert_eq!(step(&mut ucore, &mut t), Progress::Fetch(req));
    assert_eq!(step(&mut ucore, &mut t), Progress::Hang(key));
    let bad = Translation::new(vec![load(CtMem::Src { tid: 9, bid: 0 })]);
    assert!(!ucore.can_translate(&bad));
}

#[test]
fn an_operation_ends_once_its_blocks_are_in_place() {
    let mut ucore = started();
    exec(&mut ucore, store(CtMem::Dst { tid: 0, bid: 0 }));
    exec(&mut ucore, store(CtMem::Dst { tid: 1, bid: 0 }));
    let ending = Ending { hid: NodeId(1), iid: IOpId(9), iop_nodes: 3 };
    let mut stage = TeardownStage::Signal;
    match ucore.teardown(ending, &mut stage) {
        TeardownAction::Send(pkts) => {
            assert_eq!(pkts.len(), 1);
            assert_eq!(pkts[0].to, NodeId(2));
        },
        other => panic!("{other:?}"),
    }
    assert!(matches!(ucore.teardown(ending, &mut stage), TeardownAction::Continue));
    // The first block was produced here, the second one comes from another node.
    assert!(matches!(ucore.teardown(ending, &mut stage), TeardownAction::Continue));
    let key = VarMode::ArgDst { iid: IOpId(9), var: 0, blk: 1 };
    assert!(matches!(ucore.teardown(ending, &mut stage), TeardownAction::Hang(k) if k == key));
    let flag = UcoreFlag { tid: 0, bid: 1, trgt_cid: CtId(11) };
    let pld = UcorePayload {
        mode: UcorePayloadMode::Ucore(flag),
        slot: Some(CtId(77)),
        from_hid: NodeId(2),
        iid: IOpId(9),
    };
    for req in notify(&mut ucore, pld) {
        ucore.inner.register_dma(req);
    }
    assert!(matches!(ucore.teardown(ending, &mut stage), TeardownAction::Hang(k) if k == key));
    assert!(!ucore.inner.irq_dma() && ucore.inner.irq_dma());
    assert!(matches!(ucore.teardown(ending, &mut stage), TeardownAction::Continue));
    match ucore.teardown(ending, &mut stage) {
        TeardownAction::Send(pkts) => {
            let to: Vec<NodeId> = pkts.iter().map(|pkt| pkt.to).collect();
            assert_eq!(to, [NodeId(0), NodeId(2)]);
            assert_eq!(pkts[0].payload, done(9, 1, 3));
        },
        other => panic!("{other:?}"),
    }
    assert_eq!(ucore.inner.b2b_pool.free.len(), 3);
    match ucore.teardown(ending, &mut stage) {
        TeardownAction::Report(iop) => assert_eq!(iop.words, [9, 2, 3]),
        other => panic!("{other:?}"),
    }
    assert_eq!(ucore.inner.b2b_pool.free.len(), 4);
    assert_eq!(ucore.inner.iop_state.0[9], 2);
    assert!(ucore.inner.iop_pdg.is_empty());
    assert!(matches!(ucore.teardown(ending, &mut stage), TeardownAction::Over));
}

/// The micro-core of node 2, that has started the same operation.
fn owner() -> UCore {
    let mut ucore = ucore();
    let mut raw = vec![7; 260];
    raw[0] = 2;
    ucore.load_config(&raw);
    ucore.inner.start_iop(&operation(9));
    ucore
}

#[test]
fn a_remote_block_reaches_its_owner() {
    let mut a = started();
    let mut b = owner();
    let step = exec(&mut a, store(CtMem::Dst { tid: 1, bid: 1 }));
    assert_eq!(step, Step::Defer(store(io(103))));
    let pkts = a.inner.flush_dst_notifyq(IOpId(9));
    assert_eq!((pkts.len(), pkts[0].to), (1, NodeId(2)));
    let reqs = notify(&mut b, pkts[0].payload);
    let expected = DmaReq {
        mode: VarMode::ArgDst { iid: IOpId(9), var: 1, blk: 1 },
        from: (NodeId(1), CtId(103)),
        to: (NodeId(2), CtId(21)),
    };
    assert_eq!(reqs, [expected]);
}

#[test]
fn a_notified_slot_is_fetched() {
    let mut a = started();
    let mut b = owner();
    let flag = UserFlag(6);
    exec(&mut b, DOp::LD_B2B { hid: NodeId(1), flag, slot: io(77) });
    exec(&mut a, DOp::NOTIFY { hid: NodeId(2), flag, slot: CtMem::Heap { bid: 4 } });
    let pkt = match a.inner.irq_ack(true) {
        AckAction::Notify(pkt) => pkt,
        other => panic!("{other:?}"),
    };
    assert_eq!((pkt.from, pkt.to), (NodeId(1), NodeId(2)));
    let expected = DmaReq {
        mode: VarMode::User { iid: IOpId(9), flag },
        from: (NodeId(1), CtId(195)),
        to: (NodeId(2), CtId(77)),
    };
    assert_eq!(notify(&mut b, pkt.payload), [expected]);
}
