//! Executable micro-core.
use std::collections::VecDeque;

use vstd::prelude::*;

use super::model::{
    count_after, dma_ends, dma_ok, dma_state, done_pkts, dst_pkt, end_sync, exec_ok,
    exec_state, exec_step, imm_ok, imm_patched, is_resolved, ld_ok, ld_req, ld_state, mem_ok,
    mem_slot, mem_state, mode_ok, notify_ok, notify_reqs, notify_state, owned_keys, raw_ok,
    raw_slot, reads_served, resolved_in, src_served, start_state, teardown_state, with_slot,
    AckAction, CtrlPkt, DmaReq, Step, UCoreView, VarMode,
};
use super::pool::B2bPool;
use super::store::{
    blocks_from, dst_describable, src_index, src_key_ok, user_index, user_key_ok, ArgCache,
    DstArgStore, DstNotifyOrder, DstVarState, IOpState, SrcArgStore, SrcVarState, UserStore,
    UserVarState,
};
use super::unit::UCore;
use crate::cpn::insn::{
    CtId, CtMem, DOp, IOpId, NodeId, PtArg, UcoreFlag, UcorePayload, UcorePayloadMode, UserFlag,
    SW_IOP_ID,
};
use crate::cpn::iop::{iop_from_words, iop_of_words, mapping_ok, IOp, Operand};

verus! {

/// State of a micro-core.
pub struct UCoreInner {
    pub node_id: u8,
    pub iop_stream: VecDeque<u32>,
    pub iop_pdg: VecDeque<IOp>,
    pub b2b_pool: B2bPool,
    pub cur_iid: IOpId,
    pub iop_state: IOpState,
    pub local_store: SrcArgStore,
    pub arg_cache: ArgCache,
    pub dst_notifyq: VecDeque<Vec<DstNotifyOrder>>,
    pub dst_store: DstArgStore,
    pub user_store: UserStore,
    pub pdg_notify: VecDeque<(NodeId, UcorePayload)>,
    pub pdg_req: VecDeque<(VarMode, CtId)>,
}

impl View for UCoreInner {
    type V = UCoreView;

    open spec fn view(&self) -> UCoreView {
        UCoreView {
            node_id: self.node_id,
            iop_stream: self.iop_stream@,
            iop_pdg: Seq::new(self.iop_pdg@.len(), |i: int| self.iop_pdg@[i]@),
            free: self.b2b_pool.free@,
            lent: self.b2b_pool.lent(),
            cur_iid: self.cur_iid,
            iop_state: self.iop_state@,
            cur_iop: match self.local_store.cur_iop {
                Some(iop) => Some(iop@),
                None => None,
            },
            src: self.local_store.store@,
            dst_notifyq: Seq::new(self.dst_notifyq@.len(), |i: int| self.dst_notifyq@[i]@),
            owner: self.dst_store.owner@,
            dst: self.dst_store.store@,
            user: self.user_store@,
            pdg_notify: self.pdg_notify@,
            pdg_req: self.pdg_req@,
        }
    }
}

impl UCoreInner {
    /// An idle micro-core, without any slot.
    pub fn new() -> (r: UCoreInner)
        ensures
            r@.wf(),
            r@.node_id == 0,
            r@.iop_stream.len() == 0,
            r@.iop_pdg.len() == 0,
            r@.free.len() == 0,
            r@.lent == Seq::new(256, |i: int| Seq::<CtId>::empty()),
            r@.cur_iid == IOpId(SW_IOP_ID),
            forall|i: int| 0 <= i < 256 ==> #[trigger] r@.iop_state[i] == 0,
            r@.cur_iop is None,
            forall|i: int| 0 <= i < 4096 ==> #[trigger] r@.src[i] == SrcVarState::Idle,
            r@.dst_notifyq.len() == 0,
            r.dst_store.pristine(),
            forall|i: int| 0 <= i < 16384 ==> #[trigger] r@.user[i] == UserVarState::Idle,
            r@.pdg_notify.len() == 0,
            r@.pdg_req.len() == 0,
    {
        UCoreInner {
            node_id: 0,
            iop_stream: VecDeque::new(),
            iop_pdg: VecDeque::new(),
            b2b_pool: B2bPool::new(),
            cur_iid: IOpId(SW_IOP_ID),
            iop_state: IOpState::new(),
            local_store: SrcArgStore::new(),
            arg_cache: ArgCache {  },
            dst_notifyq: VecDeque::new(),
            dst_store: DstArgStore::new(),
            user_store: UserStore::new(),
            pdg_notify: VecDeque::new(),
            pdg_req: VecDeque::new(),
        }
    }

    /// Slot that receives data: the given one, or one lent to the current operation.
    fn receiver(&mut self, dst: Option<CtId>) -> (r: CtId)
        requires
            old(self)@.wf(),
            dst is Some || old(self)@.free.len() > 0,
        ensures
            final(self)@ == old(self)@.lend_unless(dst),
            r == old(self)@.receiver(dst),
    {
        match dst {
            Some(cid) => cid,
            None => {
                let cid = self.b2b_pool.get_tagged(self.cur_iid);
                assert(self@ =~= old(self)@.lend_unless(dst));
                cid
            },
        }
    }

    /// Registers a load from another node: the state of the block is updated and a
    /// transfer is started where the data is known to be ready.
    pub fn ld_b2b(&mut self, var_mode: VarMode, dst: Option<CtId>, pem_pc: usize) -> (r: Option<
        DmaReq,
    >)
        requires
            old(self)@.wf(),
            ld_ok(old(self)@, var_mode, dst),
        ensures
            final(self)@.wf(),
            final(self)@ == ld_state(old(self)@, pem_pc, var_mode, dst),
            r == ld_req(old(self)@, var_mode, dst),
    {
        match var_mode {
            VarMode::User { iid, flag } => {
                match self.user_store.get(iid, flag) {
                    UserVarState::Idle => {
                        let cid = self.receiver(dst);
                        self.user_store.set(iid, flag, UserVarState::ReadPending(cid));
                        None
                    },
                    UserVarState::Received(pld) => {
                        let cid = self.receiver(dst);
                        self.user_store.set(iid, flag, UserVarState::DmaPending(pem_pc));
                        match pld.slot {
                            Some(slot) => Some(
                                DmaReq {
                                    mode: var_mode,
                                    from: (pld.from_hid, slot),
                                    to: (NodeId(self.node_id), cid),
                                },
                            ),
                            None => None,
                        }
                    },
                    _ => None,
                }
            },
            VarMode::ArgSrc { var, blk } => {
                let var_iid = self.local_store.src_iid(var);
                let var_hid = self.local_store.src_hid(var);
                let var_cid = self.local_store.src_cid(var, blk);
                match self.local_store.src(var, blk) {
                    SrcVarState::Idle => {
                        if self.iop_state.is_done(var_iid) {
                            match self.arg_cache.try_hit(var_iid, var_hid, var_cid) {
                                Some(hit) => {
                                    self.local_store.set_src(var, blk, SrcVarState::Resolved(hit));
                                    None
                                },
                                None => {
                                    let cid = self.receiver(dst);
                                    self.local_store.set_src(
                                        var,
                                        blk,
                                        SrcVarState::DmaPending(pem_pc),
                                    );
                                    Some(
                                        DmaReq {
                                            mode: var_mode,
                                            from: (var_hid, var_cid),
                                            to: (NodeId(self.node_id), cid),
                                        },
                                    )
                                },
                            }
                        } else {
                            let cid = self.receiver(dst);
                            self.local_store.set_src(var, blk, SrcVarState::ReadPending(cid));
                            None
                        }
                    },
                    _ => None,
                }
            },
            VarMode::ArgDst { .. } => None,
        }
    }

    /// Starts the pending reads of a list of blocks of the source operands.
    fn serve_reads(&mut self, blocks: &Vec<(u8, u8)>, pem_pc: usize) -> (r: Vec<DmaReq>)
        requires
            old(self)@.wf(),
            forall|i: int|
                0 <= i < blocks@.len() ==> {
                    let (var, blk) = #[trigger] blocks@[i];
                    &&& src_key_ok(var, blk)
                    &&& var < old(self)@.operands().len()
                    &&& old(self)@.src[src_index(var, blk)] is ReadPending
                        ==> old(self)@.operands()[var as int].base_cid.0 + blk <= u16::MAX
                },
        ensures
            final(self)@.wf(),
            final(self)@ == (UCoreView {
                src: src_served(old(self)@.src, pem_pc, blocks@, blocks@.len() as int),
                ..old(self)@
            }),
            r@ == reads_served(old(self)@, blocks@, blocks@.len() as int),
    {
        let ghost s = self@;
        let mut reqs: Vec<DmaReq> = Vec::new();
        let mut pdg: Vec<(u8, u8)> = Vec::new();
        for i in 0..blocks.len()
            invariant
                self@ == s,
                s == old(self)@,
                s.wf(),
                forall|i: int|
                    0 <= i < blocks@.len() ==> {
                        let (var, blk) = #[trigger] blocks@[i];
                        &&& src_key_ok(var, blk)
                        &&& var < s.operands().len()
                        &&& s.src[src_index(var, blk)] is ReadPending
                            ==> s.operands()[var as int].base_cid.0 + blk <= u16::MAX
                    },
                reqs@ == reads_served(s, blocks@, i as int),
                forall|j: int| 0 <= j < pdg@.len() ==> src_key_ok((#[trigger] pdg@[j]).0, pdg@[j].1),
                src_served(s.src, pem_pc, blocks@, i as int) == all_pending(s.src, pem_pc, pdg@),
        {
            let (var, blk) = blocks[i];
            match self.local_store.src(var, blk) {
                SrcVarState::ReadPending(cid) => {
                    let from = (
                        self.local_store.src_hid(var),
                        self.local_store.src_cid(var, blk),
                    );
                    let to = (NodeId(self.node_id), cid);
                    reqs.push(DmaReq { mode: VarMode::ArgSrc { var, blk }, from, to });
                    let ghost before = pdg@;
                    pdg.push((var, blk));
                    assert(pdg@.drop_last() =~= before);
                },
                _ => {},
            }
        }
        for j in 0..pdg.len()
            invariant
                s.wf(),
                self@ == (UCoreView {
                    src: all_pending(s.src, pem_pc, pdg@.take(j as int)),
                    ..s
                }),
                forall|j: int| 0 <= j < pdg@.len() ==> src_key_ok((#[trigger] pdg@[j]).0, pdg@[j].1),
        {
            proof {
                lemma_all_pending_len(s.src, pem_pc, pdg@.take(j as int));
            }
            let (var, blk) = pdg[j];
            self.local_store.set_src(var, blk, SrcVarState::DmaPending(pem_pc));
            assert(pdg@.take(j + 1).drop_last() =~= pdg@.take(j as int));
        }
        assert(pdg@.take(pdg@.len() as int) =~= pdg@);
        proof {
            lemma_all_pending_len(s.src, pem_pc, pdg@);
        }
        reqs
    }

    /// Handles a message from another node: the state of the block is updated, and
    /// the transfers that waited for the event are started.
    pub fn irq_notify(&mut self, pld: UcorePayload, pem_pc: usize) -> (r: Vec<DmaReq>)
        requires
            old(self)@.wf(),
            notify_ok(old(self)@, pld),
        ensures
            final(self)@.wf(),
            final(self)@ == notify_state(old(self)@, pem_pc, pld),
            r@ == notify_reqs(old(self)@, pld),
    {
        let iid = pld.iid;
        let mut reqs: Vec<DmaReq> = Vec::new();
        match pld.mode {
            UcorePayloadMode::Ucore(flag) => {
                self.dst_store.set(iid, flag.tid, flag.bid, DstVarState::DmaPending(pem_pc));
                if let Some(slot) = pld.slot {
                    reqs.push(
                        DmaReq {
                            mode: VarMode::ArgDst { iid, var: flag.tid, blk: flag.bid },
                            from: (pld.from_hid, slot),
                            to: (NodeId(self.node_id), flag.trgt_cid),
                        },
                    );
                }
            },
            UcorePayloadMode::User(flag) => {
                match self.user_store.get(iid, flag) {
                    UserVarState::ReadPending(cid) => {
                        if let Some(slot) = pld.slot {
                            reqs.push(
                                DmaReq {
                                    mode: VarMode::User { iid, flag },
                                    from: (pld.from_hid, slot),
                                    to: (NodeId(self.node_id), cid),
                                },
                            );
                        }
                        self.user_store.set(iid, flag, UserVarState::DmaPending(pem_pc));
                    },
                    _ => {
                        self.user_store.set(iid, flag, UserVarState::Received(pld));
                    },
                }
            },
            UcorePayloadMode::IOpDone(iop_nodes) => {
                self.iop_state.node_ack(iid, iop_nodes);
                if self.iop_state.is_done(iid) {
                    let blocks = self.local_store.idx_of(iid);
                    proof {
                        lemma_blocks_from(
                            self@.operands(),
                            iid,
                            self@.operands().len() as int,
                        );
                    }
                    reqs = self.serve_reads(&blocks, pem_pc);
                    proof {
                        lemma_reads_served_state(
                            old(self)@,
                            iid,
                            pem_pc,
                            iop_nodes,
                            blocks@,
                            blocks@.len() as int,
                        );
                    }
                }
            },
        }
        reqs
    }

    /// Handles the response to a transfer. Returns whether the transfer is over.
    pub fn irq_dma(&mut self) -> (r: bool)
        requires
            old(self)@.wf(),
            dma_ok(old(self)@),
        ensures
            final(self)@.wf(),
            final(self)@ == dma_state(old(self)@),
            r == dma_ends(old(self)@),
    {
        let (mode, cid) = self.pdg_req[0];
        match mode {
            VarMode::User { iid, flag } => match self.user_store.get(iid, flag) {
                UserVarState::DmaPending(pdg_cnt) => if pdg_cnt == 1 {
                    let _ = self.pdg_req.pop_front();
                    self.user_store.set(iid, flag, UserVarState::Resolved(cid));
                    true
                } else {
                    self.user_store.set(iid, flag, UserVarState::DmaPending(pdg_cnt - 1));
                    false
                },
                _ => false,
            },
            VarMode::ArgSrc { var, blk } => match self.local_store.src(var, blk) {
                SrcVarState::DmaPending(pdg_cnt) => if pdg_cnt == 1 {
                    let _ = self.pdg_req.pop_front();
                    self.local_store.set_src(var, blk, SrcVarState::Resolved(cid));
                    true
                } else {
                    self.local_store.set_src(var, blk, SrcVarState::DmaPending(pdg_cnt - 1));
                    false
                },
                _ => false,
            },
            VarMode::ArgDst { iid, var, blk } => match self.dst_store.get(iid, var, blk) {
                DstVarState::DmaPending(pdg_cnt) => if pdg_cnt == 1 {
                    let _ = self.pdg_req.pop_front();
                    self.dst_store.set(iid, var, blk, DstVarState::Resolved);
                    true
                } else {
                    self.dst_store.set(iid, var, blk, DstVarState::DmaPending(pdg_cnt - 1));
                    false
                },
                _ => false,
            },
        }
    }

    /// Whether the event of an explicit transfer has been received and not handled.
    pub fn wait_received(&self, iid: IOpId, flag: UserFlag) -> (r: bool)
        requires
            self@.wf(),
            user_key_ok(flag),
        ensures
            r == (self@.user[user_index(iid, flag)] is Received),
    {
        match self.user_store.get(iid, flag) {
            UserVarState::Received(_) => true,
            _ => false,
        }
    }

    /// Slot of the data of a transfer, once it is resolved.
    pub fn get_resolved(&self, key: VarMode) -> (r: Option<CtId>)
        requires
            self@.wf(),
            mode_ok(key),
            !(key is ArgDst),
        ensures
            r == resolved_in(self@, key),
    {
        match key {
            VarMode::User { iid, flag } => match self.user_store.get(iid, flag) {
                UserVarState::Resolved(cid) => Some(cid),
                _ => None,
            },
            VarMode::ArgSrc { var, blk } => match self.local_store.src(var, blk) {
                SrcVarState::Resolved(cid) => Some(cid),
                _ => None,
            },
            VarMode::ArgDst { .. } => None,
        }
    }

    /// Whether a transfer is resolved.
    pub fn wait_resolved(&self, key: VarMode) -> (r: bool)
        requires
            self@.wf(),
            mode_ok(key),
        ensures
            r == is_resolved(self@, key),
    {
        match key {
            VarMode::ArgDst { iid, var, blk } => self.dst_store.get(iid, var, blk)
                == DstVarState::Resolved,
            _ => self.get_resolved(key).is_some(),
        }
    }

    /// Registers a transfer whose requests have been sent.
    pub fn register_dma(&mut self, req: DmaReq)
        ensures
            final(self)@ == (UCoreView {
                pdg_req: old(self)@.pdg_req.push((req.mode, req.to.1)),
                ..old(self)@
            }),
    {
        self.pdg_req.push_back((req.mode, req.to.1));
    }

    /// Handles the acknowledgement of a barrier by the computation core.
    pub fn irq_ack(&mut self, is_inner: bool) -> (r: AckAction)
        requires
            old(self)@.wf(),
            is_inner ==> old(self)@.pdg_notify.len() > 0,
            !is_inner ==> old(self)@.iop_pdg.len() > 0,
        ensures
            final(self)@.wf(),
            is_inner ==> {
                let (to, payload) = old(self)@.pdg_notify[0];
                &&& r == AckAction::Notify(CtrlPkt { from: payload.from_hid, to, payload })
                &&& final(self)@ == (UCoreView {
                    pdg_notify: old(self)@.pdg_notify.drop_first(),
                    ..old(self)@
                })
            },
            !is_inner ==> {
                let iop = old(self)@.iop_pdg[0];
                &&& r == AckAction::Teardown {
                    hid: NodeId(old(self)@.node_id),
                    iid: iop.iid(),
                    iop_nodes: iop.mapping.len() as u8,
                }
                &&& final(self)@ == old(self)@
            },
    {
        if is_inner {
            let (to, payload) = self.pdg_notify[0];
            let _ = self.pdg_notify.pop_front();
            assert(self.pdg_notify@ =~= old(self).pdg_notify@.drop_first());
            AckAction::Notify(CtrlPkt { from: payload.from_hid, to, payload })
        } else {
            assert(self@.iop_pdg[0].wf());
            let iop = &self.iop_pdg[0];
            AckAction::Teardown {
                hid: NodeId(self.node_id),
                iid: iop.get_iid(),
                iop_nodes: iop.mapping.len() as u8,
            }
        }
    }

    /// Messages that signal to their owners the blocks produced by the oldest
    /// operation.
    pub fn flush_dst_notifyq(&mut self, for_iid: IOpId) -> (r: Vec<CtrlPkt>)
        requires
            old(self)@.wf(),
            old(self)@.dst_notifyq.len() > 0,
        ensures
            final(self)@.wf(),
            final(self)@ == (UCoreView {
                dst_notifyq: old(self)@.dst_notifyq.drop_first(),
                ..old(self)@
            }),
            r@ == old(self)@.dst_notifyq[0].map_values(
                |order: DstNotifyOrder| dst_pkt(old(self)@.node_id, for_iid, order),
            ),
    {
        let ghost s = self@;
        let orders: Vec<DstNotifyOrder> = match self.dst_notifyq.pop_front() {
            Some(orders) => orders,
            None => Vec::new(),
        };
        assert(orders@ == s.dst_notifyq[0]);
        let mut pkts: Vec<CtrlPkt> = Vec::new();
        let hid = NodeId(self.node_id);
        for i in 0..orders.len()
            invariant
                hid == NodeId(s.node_id),
                pkts@.len() == i,
                forall|j: int|
                    0 <= j < i ==> #[trigger] pkts@[j] == dst_pkt(s.node_id, for_iid, orders@[j]),
        {
            let order = orders[i];
            pkts.push(
                CtrlPkt {
                    from: hid,
                    to: order.trgt_hid,
                    payload: UcorePayload {
                        mode: UcorePayloadMode::Ucore(
                            UcoreFlag {
                                tid: order.var,
                                bid: order.blk,
                                trgt_cid: order.trgt_cid,
                            },
                        ),
                        slot: Some(order.local_cid),
                        from_hid: hid,
                        iid: for_iid,
                    },
                },
            );
        }
        pkts
    }

    /// Blocks of an operation that this node owns and has to wait for.
    pub fn wait_owned_dst(&self, for_iid: IOpId) -> (r: Vec<VarMode>)
        requires
            self@.wf(),
        ensures
            r@ == owned_keys(self@, for_iid),
    {
        let owned = self.dst_store.get_owned(for_iid, NodeId(self.node_id));
        let mut keys: Vec<VarMode> = Vec::new();
        for i in 0..owned.len()
            invariant
                keys@.len() == i,
                forall|j: int|
                    0 <= j < i ==> #[trigger] keys@[j] == (VarMode::ArgDst {
                        iid: for_iid,
                        var: owned@[j].0,
                        blk: owned@[j].1,
                    }),
        {
            let (var, blk) = owned[i];
            keys.push(VarMode::ArgDst { iid: for_iid, var, blk });
        }
        assert(keys@ =~= owned_keys(self@, for_iid));
        keys
    }

    /// Updates the state at the end of an operation.
    pub fn iop_teardown(&mut self, iid: IOpId, iop_nodes: u8)
        requires
            old(self)@.wf(),
            old(self)@.iop_state[iid.0 as int] == 0 ==> iop_nodes >= 1,
        ensures
            final(self)@.wf(),
            final(self)@ == teardown_state(old(self)@, iid, iop_nodes),
    {
        self.iop_state.node_ack(iid, iop_nodes);
        self.b2b_pool.release_tagged(iid);
        self.dst_store.reset_iop(iid);
    }

    /// Removes the oldest operation.
    pub fn pop_iop(&mut self) -> (r: IOp)
        requires
            old(self)@.wf(),
            old(self)@.iop_pdg.len() > 0,
        ensures
            final(self)@.wf(),
            r@ == old(self)@.iop_pdg[0],
            final(self)@ == (UCoreView {
                iop_pdg: old(self)@.iop_pdg.drop_first(),
                ..old(self)@
            }),
    {
        let ghost s = self@;
        match self.iop_pdg.pop_front() {
            Some(iop) => {
                assert(self@.iop_pdg =~= s.iop_pdg.drop_first());
                iop
            },
            None => vstd::pervasive::unreached(),
        }
    }

    /// Extracts the next operation from the words received from the host.
    pub fn next_iop(&mut self) -> (r: Option<IOp>)
        requires
            old(self)@.wf(),
            old(self)@.iop_stream.len() >= 2 ==> mapping_ok(old(self)@.iop_stream[1]),
        ensures
            final(self)@.wf(),
            match iop_of_words(old(self)@.iop_stream) {
                Some((view, n)) => r matches Some(iop) && iop@ == view && view.wf() && final(self)@
                    == (UCoreView {
                    iop_stream: old(self)@.iop_stream.skip(n as int),
                    ..old(self)@
                }),
                None => r is None && final(self)@ == old(self)@,
            },
    {
        iop_from_words(&mut self.iop_stream)
    }

    /// Starts the translation of an operation.
    pub fn start_iop(&mut self, iop: &IOp)
        requires
            old(self)@.wf(),
            iop@.wf(),
            dst_describable(iop@.dst),
        ensures
            final(self)@.wf(),
            final(self)@ == start_state(old(self)@, iop@),
    {
        let ghost s = self@;
        let iid = iop.get_iid();
        if self.cur_iid.0 >= iid.0 {
            self.b2b_pool.release_all();
            self.user_store = UserStore::new();
            self.dst_store = DstArgStore::new();
            self.arg_cache = ArgCache {  };
            assert(self@.user =~= Seq::new(16384, |i: int| UserVarState::Idle));
            assert(self@.owner =~= Seq::new(16384, |i: int| NodeId(super::store::NO_OWNER)));
            assert(self@.dst =~= Seq::new(1048576, |i: int| DstVarState::WaitNotify));
        }
        self.local_store.reset(iop.clone());
        self.dst_notifyq.push_back(Vec::new());
        self.dst_store.init_iop(iop);
        self.cur_iid = iid;
        self.iop_pdg.push_back(iop.clone());
        proof {
            let t = start_state(s, iop@);
            assert(self@.dst_notifyq =~~= t.dst_notifyq);
            assert(self@.iop_pdg =~~= t.iop_pdg);
            assert(self@.src =~= t.src);
            assert(self@ =~= t);
        }
    }

    /// Resolves the memory operand of a load or a store. `None` is returned where the
    /// data has to be fetched from another node, with the transfer to start, if any.
    fn resolve_mem(&mut self, slot: CtMem, ct_total: usize, pem_pc: usize) -> (r: (
        Option<CtId>,
        Option<DmaReq>,
    ))
        requires
            old(self)@.wf(),
            old(self)@.cur_iop is Some,
            mem_ok(old(self)@, ct_total as int, slot),
        ensures
            final(self)@.wf(),
            final(self)@ == mem_state(old(self)@, pem_pc, slot),
            r.0 == mem_slot(old(self)@, ct_total as int, slot),
            r.0 is None ==> slot is Src && r.1 == ld_req(
                old(self)@,
                VarMode::ArgSrc { var: slot->Src_tid, blk: slot->Src_bid },
                None,
            ),
    {
        match slot {
            CtMem::Io(cid) => (Some(cid), None),
            CtMem::Heap { bid } => (Some(CtId((ct_total - 1) as u16 - bid)), None),
            CtMem::Src { tid, bid } => {
                if self.local_store.src_hid(tid).0 == self.node_id {
                    (Some(self.local_store.src_cid(tid, bid)), None)
                } else {
                    let req = self.ld_b2b(VarMode::ArgSrc { var: tid, blk: bid }, None, pem_pc);
                    (None, req)
                }
            },
            CtMem::Dst { tid, bid } => {
                let ghost s = self@;
                let (iid, operand) = self.cur_dst(tid);
                let cid = CtId(operand.base_cid.0 + bid as u16);
                if operand.pos.0 == self.node_id {
                    self.dst_store.set(iid, tid, bid, DstVarState::Resolved);
                    (Some(cid), None)
                } else {
                    let local_cid = self.b2b_pool.get_tagged(iid);
                    let order = DstNotifyOrder {
                        var: tid,
                        blk: bid,
                        trgt_cid: cid,
                        trgt_hid: operand.pos,
                        local_cid,
                    };
                    let ghost orders = self.dst_notifyq@.last()@;
                    match self.dst_notifyq.pop_back() {
                        Some(mut last) => {
                            last.push(order);
                            assert(last@ == orders.push(order));
                            self.dst_notifyq.push_back(last);
                        },
                        None => {},
                    }
                    assert(self@.dst_notifyq =~~= mem_state(s, pem_pc, slot).dst_notifyq);
                    (Some(local_cid), None)
                }
            },
        }
    }

    /// Destination operand of the operation under translation, with the identifier
    /// of the operation.
    fn cur_dst(&self, tid: u8) -> (r: (IOpId, Operand))
        requires
            self@.wf(),
            self@.cur_iop is Some,
            tid < self@.cur_iop->0.dst.len(),
        ensures
            r.0 == self@.cur_iop->0.iid(),
            r.1 == self@.cur_iop->0.dst[tid as int],
    {
        match &self.local_store.cur_iop {
            Some(iop) => (iop.get_iid(), iop.dst[tid as usize]),
            None => vstd::pervasive::unreached(),
        }
    }

    /// Immediate of an instruction of the operation under translation.
    fn resolve_imm(&self, imm: PtArg) -> (r: PtArg)
        requires
            self@.wf(),
            self@.cur_iop is Some,
            imm_ok(self@.cur_iop->0, imm),
        ensures
            r == imm_patched(self@.cur_iop->0, imm),
    {
        let mut r = imm;
        match &self.local_store.cur_iop {
            Some(iop) => UCore::patch_imm(iop, &mut r),
            None => vstd::pervasive::unreached(),
        }
        r
    }

    /// Translates an instruction. It is executed by the micro-core, or patched and
    /// deferred to the computation core.
    pub fn exec_or_deferred(&mut self, dop: DOp, ct_total: usize, pem_pc: usize) -> (r: Step)
        requires
            old(self)@.wf(),
            exec_ok(old(self)@, ct_total as int, dop),
        ensures
            final(self)@.wf(),
            final(self)@ == exec_state(old(self)@, ct_total as int, pem_pc, dop),
            r == exec_step(old(self)@, ct_total as int, dop),
    {
        let iid = match &self.local_store.cur_iop {
            Some(iop) => iop.get_iid(),
            None => vstd::pervasive::unreached(),
        };
        match dop {
            DOp::NOTIFY { hid, flag, slot } => {
                let payload = UcorePayload {
                    mode: UcorePayloadMode::User(flag),
                    slot: Some(raw_cid(slot, ct_total)),
                    from_hid: NodeId(self.node_id),
                    iid,
                };
                self.pdg_notify.push_back((hid, payload));
                Step::Defer(DOp::SYNC { is_inner: true, flag, hid, iid })
            },
            DOp::WAIT { flag, .. } => Step::Wait(VarMode::User { iid, flag }),
            DOp::LD_B2B { flag, slot, .. } => {
                let dst = raw_cid(slot, ct_total);
                Step::Fetch(self.ld_b2b(VarMode::User { iid, flag }, Some(dst), pem_pc))
            },
            DOp::LD { dst, src } => match self.resolve_mem(src, ct_total, pem_pc) {
                (Some(cid), _) => Step::Defer(DOp::LD { dst, src: CtMem::Io(cid) }),
                (None, req) => fetch_then_defer(src, req, dop),
            },
            DOp::ST { dst, src } => match self.resolve_mem(dst, ct_total, pem_pc) {
                (Some(cid), _) => Step::Defer(DOp::ST { dst: CtMem::Io(cid), src }),
                (None, req) => fetch_then_defer(dst, req, dop),
            },
            DOp::ADDS { dst, src, cst } => Step::Defer(
                DOp::ADDS { dst, src, cst: self.resolve_imm(cst) },
            ),
            DOp::SUBS { dst, src, cst } => Step::Defer(
                DOp::SUBS { dst, src, cst: self.resolve_imm(cst) },
            ),
            DOp::SSUB { dst, src, cst } => Step::Defer(
                DOp::SSUB { dst, src, cst: self.resolve_imm(cst) },
            ),
            DOp::MULS { dst, src, cst } => Step::Defer(
                DOp::MULS { dst, src, cst: self.resolve_imm(cst) },
            ),
            _ => Step::Defer(dop),
        }
    }
}

impl UCore {
    /// Replaces a template by the block of the immediate that it names. A constant is left
    /// as it is.
    pub fn patch_imm(iop: &IOp, imm: &mut PtArg)
        requires
            iop@.wf(),
            imm_ok(iop@, *old(imm)),
        ensures
            *final(imm) == imm_patched(iop@, *old(imm)),
    {
        if let PtArg::Var { tid, bid } = *imm {
            assert(iop@.imm[tid as int].len() == 256);
            *imm = PtArg::Const(iop.imm[tid as usize][bid as usize]);
        }
    }
}

/// Slot of a memory operand of an instruction of the micro-core.
fn raw_cid(slot: CtMem, ct_total: usize) -> (r: CtId)
    requires
        raw_ok(ct_total as int, slot),
    ensures
        r == raw_slot(ct_total as int, slot),
{
    match slot {
        CtMem::Io(cid) => cid,
        CtMem::Heap { bid } => CtId((ct_total - 1) as u16 - bid),
        _ => CtId(0),
    }
}

/// Step of an instruction whose source operand is fetched from another node.
fn fetch_then_defer(slot: CtMem, req: Option<DmaReq>, dop: DOp) -> (r: Step)
    requires
        slot is Src,
    ensures
        r == (Step::FetchThenDefer {
            req,
            key: VarMode::ArgSrc { var: slot->Src_tid, blk: slot->Src_bid },
            dop,
        }),
{
    match slot {
        CtMem::Src { tid, bid } => Step::FetchThenDefer {
            req,
            key: VarMode::ArgSrc { var: tid, blk: bid },
            dop,
        },
        _ => Step::Defer(dop),
    }
}

/// Instruction whose memory operand has been fetched in a slot.
pub fn resume_with(dop: DOp, cid: CtId) -> (r: DOp)
    ensures
        r == with_slot(dop, cid),
{
    match dop {
        DOp::LD { dst, .. } => DOp::LD { dst, src: CtMem::Io(cid) },
        DOp::ST { src, .. } => DOp::ST { dst: CtMem::Io(cid), src },
        _ => dop,
    }
}

/// Barrier sent to the computation core after the instructions of an operation.
pub fn closing_sync(iid: IOpId) -> (r: DOp)
    ensures
        r == end_sync(iid),
{
    DOp::SYNC { is_inner: false, flag: UserFlag(0), hid: NodeId(0), iid }
}

/// Messages that signal the end of an operation to the other nodes.
pub fn notify_done(nodes: &Vec<u8>, hid: NodeId, iid: IOpId, iop_nodes: u8) -> (r: Vec<CtrlPkt>)
    ensures
        r@ == done_pkts(nodes@, hid, iid, iop_nodes, nodes@.len() as int),
{
    let mut pkts: Vec<CtrlPkt> = Vec::new();
    for i in 0..nodes.len()
        invariant
            pkts@ == done_pkts(nodes@, hid, iid, iop_nodes, i as int),
    {
        if nodes[i] != hid.0 {
            pkts.push(
                CtrlPkt {
                    from: hid,
                    to: NodeId(nodes[i]),
                    payload: UcorePayload {
                        mode: UcorePayloadMode::IOpDone(iop_nodes),
                        slot: None,
                        from_hid: hid,
                        iid,
                    },
                },
            );
        }
    }
    pkts
}

/// Blocks marked as being transferred.
spec fn all_pending(src: Seq<SrcVarState>, pem_pc: usize, blocks: Seq<(u8, u8)>) -> Seq<SrcVarState>
    decreases blocks.len(),
{
    if blocks.len() == 0 {
        src
    } else {
        let (var, blk) = blocks.last();
        all_pending(src, pem_pc, blocks.drop_last()).update(
            src_index(var, blk),
            SrcVarState::DmaPending(pem_pc),
        )
    }
}

proof fn lemma_all_pending_len(src: Seq<SrcVarState>, pem_pc: usize, blocks: Seq<(u8, u8)>)
    requires
        src.len() == 4096,
        forall|i: int|
            0 <= i < blocks.len() ==> src_key_ok((#[trigger] blocks[i]).0, blocks[i].1),
    ensures
        all_pending(src, pem_pc, blocks).len() == src.len(),
    decreases blocks.len(),
{
    if blocks.len() > 0 {
        assert(src_key_ok(blocks.last().0, blocks.last().1));
        lemma_all_pending_len(src, pem_pc, blocks.drop_last());
    }
}

/// The blocks of the source operands produced by an operation are blocks of
/// operands that this operation produces.
proof fn lemma_blocks_from(src: Seq<Operand>, iid: IOpId, n: int)
    requires
        n <= src.len(),
        forall|i: int|
            0 <= i < src.len() ==> (#[trigger] src[i]).iid == iid ==> i < 64 && src[i].block < 64,
    ensures
        forall|k: int|
            0 <= k < blocks_from(src, iid, n).len() ==> {
                let (var, blk) = #[trigger] blocks_from(src, iid, n)[k];
                &&& var < n
                &&& src_key_ok(var, blk)
                &&& src[var as int].iid == iid
                &&& blk <= src[var as int].block
            },
    decreases n,
{
    if n > 0 {
        lemma_blocks_from(src, iid, n - 1);
        let before = blocks_from(src, iid, n - 1);
        let all = blocks_from(src, iid, n);
        assert forall|k: int| 0 <= k < all.len() implies {
            let (var, blk) = #[trigger] all[k];
            &&& var < n
            &&& src_key_ok(var, blk)
            &&& src[var as int].iid == iid
            &&& blk <= src[var as int].block
        } by {
            if k < before.len() {
                assert(all[k] == before[k]);
            } else {
                assert(src[n - 1].iid == iid);
            }
        }
    }
}

/// The transfers started depend on the source operands only.
proof fn lemma_reads_served_state(
    s: UCoreView,
    iid: IOpId,
    pem_pc: usize,
    iop_nodes: u8,
    blocks: Seq<(u8, u8)>,
    n: int,
)
    ensures
        reads_served(
            UCoreView {
                iop_state: s.iop_state.update(
                    iid.0 as int,
                    count_after(s, iid, iop_nodes) as u8,
                ),
                ..s
            },
            blocks,
            n,
        ) == reads_served(s, blocks, n),
    decreases n,
{
    if n > 0 {
        lemma_reads_served_state(s, iid, pem_pc, iop_nodes, blocks, n - 1);
    }
}

} // verus!
