//! Abstract state of a micro-core and the effect of its events.
use vstd::prelude::*;

use super::pool::concat;
use super::store::{
    acked, blocks_after_init, blocks_after_reset, blocks_from, dst_blk_index, dst_key_ok,
    owned_blocks, owners_after_init, owners_after_reset, src_index, src_key_ok, user_index,
    user_key_ok, DstNotifyOrder, DstVarState, SrcVarState, UserVarState,
};
use crate::cpn::insn::{
    CtId, CtMem, DOp, IOpId, NodeId, PtArg, UcoreFlag, UcorePayload, UcorePayloadMode, UserFlag,
};
use crate::cpn::iop::{IOpView, Operand};

verus! {

/// Origin of a transferred block.
#[derive(Clone, Copy, Debug, PartialEq, Eq, Structural)]
pub enum VarMode {
    /// Explicit transfer.
    User { iid: IOpId, flag: UserFlag },
    /// Source operand of the operation under translation.
    ArgSrc { var: u8, blk: u8 },
    /// Destination operand.
    ArgDst { iid: IOpId, var: u8, blk: u8 },
}

/// Request to transfer a ciphertext between two nodes.
#[derive(Clone, Copy, Debug, PartialEq, Eq)]
pub struct DmaReq {
    pub mode: VarMode,
    pub from: (NodeId, CtId),
    pub to: (NodeId, CtId),
}

/// Message to another micro-core.
#[derive(Clone, Copy, Debug, PartialEq, Eq)]
pub struct CtrlPkt {
    pub from: NodeId,
    pub to: NodeId,
    pub payload: UcorePayload,
}

/// What the translation of an instruction asks for.
#[derive(Clone, Copy, Debug, PartialEq, Eq)]
pub enum Step {
    /// Send the instruction to the computation core.
    Defer(DOp),
    /// Wait until the transfer is resolved.
    Wait(VarMode),
    /// Start the transfer, if any.
    Fetch(Option<DmaReq>),
    /// Start the transfer, if any, wait until it is resolved, then send the
    /// instruction with its memory operand replaced by the slot of the data.
    FetchThenDefer { req: Option<DmaReq>, key: VarMode, dop: DOp },
}

/// What the acknowledgement of a barrier asks for.
#[derive(Clone, Copy, Debug, PartialEq, Eq)]
pub enum AckAction {
    /// Send the message that waited for the barrier.
    Notify(CtrlPkt),
    /// End the oldest operation.
    Teardown { hid: NodeId, iid: IOpId, iop_nodes: u8 },
}

/// Abstract state of a micro-core.
#[verifier::ext_equal]
pub struct UCoreView {
    /// Node of the micro-core.
    pub node_id: u8,
    /// Words received from the host and not decoded yet.
    pub iop_stream: Seq<u32>,
    /// Operations in progress, the oldest first.
    pub iop_pdg: Seq<IOpView>,
    pub free: Seq<CtId>,
    pub lent: Seq<Seq<CtId>>,
    /// Last operation started.
    pub cur_iid: IOpId,
    pub iop_state: Seq<u8>,
    /// Operation under translation.
    pub cur_iop: Option<IOpView>,
    pub src: Seq<SrcVarState>,
    /// Blocks to be signalled at the end of each operation in progress.
    pub dst_notifyq: Seq<Seq<DstNotifyOrder>>,
    pub owner: Seq<NodeId>,
    pub dst: Seq<DstVarState>,
    pub user: Seq<UserVarState>,
    /// Messages that wait for an inner barrier.
    pub pdg_notify: Seq<(NodeId, UcorePayload)>,
    /// Transfers in progress, with the slot that they fill.
    pub pdg_req: Seq<(VarMode, CtId)>,
}

impl UCoreView {
    pub open spec fn wf(self) -> bool {
        &&& self.lent.len() == 256
        &&& self.iop_state.len() == 256
        &&& self.src.len() == 4096
        &&& self.owner.len() == 16384
        &&& self.dst.len() == 1048576
        &&& self.user.len() == 16384
        &&& self.cur_iop matches Some(iop) ==> iop.wf()
        &&& forall|i: int| 0 <= i < self.iop_pdg.len() ==> (#[trigger] self.iop_pdg[i]).wf()
    }

    /// Source operands of the operation under translation.
    pub open spec fn operands(self) -> Seq<Operand> {
        match self.cur_iop {
            Some(iop) => iop.src,
            None => Seq::empty(),
        }
    }

    /// The last free slot is lent to an operation.
    pub open spec fn lend(self, iid: IOpId) -> UCoreView {
        UCoreView {
            free: self.free.drop_last(),
            lent: self.lent.update(iid.0 as int, self.lent[iid.0 as int].push(self.free.last())),
            ..self
        }
    }

    /// A slot is lent where none is given.
    pub open spec fn lend_unless(self, dst: Option<CtId>) -> UCoreView {
        if dst is Some {
            self
        } else {
            self.lend(self.cur_iid)
        }
    }

    /// Slot that receives the data: the given one, or the one lent.
    pub open spec fn receiver(self, dst: Option<CtId>) -> CtId {
        match dst {
            Some(cid) => cid,
            None => self.free.last(),
        }
    }

    pub open spec fn set_user(self, iid: IOpId, flag: UserFlag, state: UserVarState) -> UCoreView {
        UCoreView { user: self.user.update(user_index(iid, flag), state), ..self }
    }

    pub open spec fn set_src(self, var: u8, blk: u8, state: SrcVarState) -> UCoreView {
        UCoreView { src: self.src.update(src_index(var, blk), state), ..self }
    }

    pub open spec fn set_dst(self, iid: IOpId, var: u8, blk: u8, state: DstVarState) -> UCoreView {
        UCoreView { dst: self.dst.update(dst_blk_index(iid, var, blk), state), ..self }
    }
}

// Loads from another node

/// A load can be registered.
pub open spec fn ld_ok(s: UCoreView, mode: VarMode, dst: Option<CtId>) -> bool {
    match mode {
        VarMode::User { iid, flag } => {
            &&& user_key_ok(flag)
            &&& match s.user[user_index(iid, flag)] {
                UserVarState::Idle => dst is Some || s.free.len() > 0,
                UserVarState::Received(pld) => pld.slot is Some && (dst is Some || s.free.len()
                    > 0),
                _ => true,
            }
        },
        VarMode::ArgSrc { var, blk } => {
            &&& src_key_ok(var, blk)
            &&& var < s.operands().len()
            &&& s.operands()[var as int].base_cid.0 + blk <= u16::MAX
            &&& s.src[src_index(var, blk)] == SrcVarState::Idle ==> dst is Some || s.free.len() > 0
        },
        VarMode::ArgDst { .. } => false,
    }
}

/// Slot of a block of a source operand on the node that stores it.
pub open spec fn src_slot(s: UCoreView, var: u8, blk: u8) -> CtId {
    CtId((s.operands()[var as int].base_cid.0 + blk) as u16)
}

/// State after a load is registered.
pub open spec fn ld_state(
    s: UCoreView,
    pem_pc: usize,
    mode: VarMode,
    dst: Option<CtId>,
) -> UCoreView {
    match mode {
        VarMode::User { iid, flag } => match s.user[user_index(iid, flag)] {
            UserVarState::Idle => s.lend_unless(dst).set_user(
                iid,
                flag,
                UserVarState::ReadPending(s.receiver(dst)),
            ),
            UserVarState::Received(_) => s.lend_unless(dst).set_user(
                iid,
                flag,
                UserVarState::DmaPending(pem_pc),
            ),
            _ => s,
        },
        VarMode::ArgSrc { var, blk } => if s.src[src_index(var, blk)] != SrcVarState::Idle {
            s
        } else if s.iop_state[s.operands()[var as int].iid.0 as int] == 0 {
            s.lend_unless(dst).set_src(var, blk, SrcVarState::DmaPending(pem_pc))
        } else {
            s.lend_unless(dst).set_src(var, blk, SrcVarState::ReadPending(s.receiver(dst)))
        },
        VarMode::ArgDst { .. } => s,
    }
}

/// Transfer started by a load.
pub open spec fn ld_req(s: UCoreView, mode: VarMode, dst: Option<CtId>) -> Option<DmaReq> {
    let to = (NodeId(s.node_id), s.receiver(dst));
    match mode {
        VarMode::User { iid, flag } => match s.user[user_index(iid, flag)] {
            UserVarState::Received(pld) => Some(
                DmaReq { mode, from: (pld.from_hid, pld.slot->0), to },
            ),
            _ => None,
        },
        VarMode::ArgSrc { var, blk } => {
            let op = s.operands()[var as int];
            if s.src[src_index(var, blk)] == SrcVarState::Idle && s.iop_state[op.iid.0 as int]
                == 0 {
                Some(DmaReq { mode, from: (op.pos, src_slot(s, var, blk)), to })
            } else {
                None
            }
        },
        VarMode::ArgDst { .. } => None,
    }
}

// Messages from other nodes

/// Blocks of the source operands that wait for an operation.
pub open spec fn waiting_blocks(s: UCoreView, iid: IOpId) -> Seq<(u8, u8)> {
    blocks_from(s.operands(), iid, s.operands().len() as int)
}

/// Transfers started for the first `n` blocks of a list: those with a read pending, each
/// from the node that stores its operand.
pub open spec fn reads_served(s: UCoreView, blocks: Seq<(u8, u8)>, n: int) -> Seq<DmaReq>
    decreases n,
{
    if n <= 0 {
        Seq::empty()
    } else {
        let (var, blk) = blocks[n - 1];
        let before = reads_served(s, blocks, n - 1);
        match s.src[src_index(var, blk)] {
            SrcVarState::ReadPending(cid) => before.push(
                DmaReq {
                    mode: VarMode::ArgSrc { var, blk },
                    from: (s.operands()[var as int].pos, src_slot(s, var, blk)),
                    to: (NodeId(s.node_id), cid),
                },
            ),
            _ => before,
        }
    }
}

/// State of the source operands once the pending reads of the first `n` blocks
/// of a list are started.
pub open spec fn src_served(
    src: Seq<SrcVarState>,
    pem_pc: usize,
    blocks: Seq<(u8, u8)>,
    n: int,
) -> Seq<SrcVarState>
    decreases n,
{
    if n <= 0 {
        src
    } else {
        let (var, blk) = blocks[n - 1];
        let before = src_served(src, pem_pc, blocks, n - 1);
        if src[src_index(var, blk)] is ReadPending {
            before.update(src_index(var, blk), SrcVarState::DmaPending(pem_pc))
        } else {
            before
        }
    }
}

/// Counter of an operation after an acknowledgement.
pub open spec fn count_after(s: UCoreView, iid: IOpId, iop_nodes: u8) -> int {
    acked(s.iop_state[iid.0 as int], iop_nodes)
}

/// The source operands produced by an operation have a position in the store,
/// and those with a read pending have a slot.
pub open spec fn sources_ok(s: UCoreView, iid: IOpId) -> bool {
    &&& forall|i: int|
        0 <= i < s.operands().len() ==> (#[trigger] s.operands()[i]).iid == iid ==> i < 64
            && s.operands()[i].block < 64
    &&& forall|var: u8, blk: u8|
        (var < s.operands().len() && s.operands()[var as int].iid == iid && blk
            <= s.operands()[var as int].block && (#[trigger] s.src[src_index(
            var,
            blk,
        )]) is ReadPending) ==> s.operands()[var as int].base_cid.0 + blk <= u16::MAX
}

/// A message can be handled: it is no duplicate and carries a slot where one is needed.
pub open spec fn notify_ok(s: UCoreView, pld: UcorePayload) -> bool {
    match pld.mode {
        UcorePayloadMode::Ucore(flag) => {
            &&& dst_key_ok(flag.tid, flag.bid)
            &&& s.dst[dst_blk_index(pld.iid, flag.tid, flag.bid)] == DstVarState::WaitNotify
            &&& pld.slot is Some
        },
        UcorePayloadMode::User(flag) => {
            &&& user_key_ok(flag)
            &&& match s.user[user_index(pld.iid, flag)] {
                UserVarState::Idle => true,
                UserVarState::ReadPending(_) => pld.slot is Some,
                _ => false,
            }
        },
        UcorePayloadMode::IOpDone(iop_nodes) => {
            &&& s.iop_state[pld.iid.0 as int] == 0 ==> iop_nodes >= 1
            &&& count_after(s, pld.iid, iop_nodes) == 0 ==> sources_ok(s, pld.iid)
        },
    }
}

/// State after a message is handled.
pub open spec fn notify_state(s: UCoreView, pem_pc: usize, pld: UcorePayload) -> UCoreView {
    match pld.mode {
        UcorePayloadMode::Ucore(flag) => s.set_dst(
            pld.iid,
            flag.tid,
            flag.bid,
            DstVarState::DmaPending(pem_pc),
        ),
        UcorePayloadMode::User(flag) => if s.user[user_index(pld.iid, flag)] is ReadPending {
            s.set_user(pld.iid, flag, UserVarState::DmaPending(pem_pc))
        } else {
            s.set_user(pld.iid, flag, UserVarState::Received(pld))
        },
        UcorePayloadMode::IOpDone(iop_nodes) => {
            let count = count_after(s, pld.iid, iop_nodes);
            let blocks = waiting_blocks(s, pld.iid);
            UCoreView {
                iop_state: s.iop_state.update(pld.iid.0 as int, count as u8),
                src: if count == 0 {
                    src_served(s.src, pem_pc, blocks, blocks.len() as int)
                } else {
                    s.src
                },
                ..s
            }
        },
    }
}

/// Transfers started by a message.
pub open spec fn notify_reqs(s: UCoreView, pld: UcorePayload) -> Seq<DmaReq> {
    match pld.mode {
        UcorePayloadMode::Ucore(flag) => seq![
            DmaReq {
                mode: VarMode::ArgDst { iid: pld.iid, var: flag.tid, blk: flag.bid },
                from: (pld.from_hid, pld.slot->0),
                to: (NodeId(s.node_id), flag.trgt_cid),
            },
        ],
        UcorePayloadMode::User(flag) => match s.user[user_index(pld.iid, flag)] {
            UserVarState::ReadPending(cid) => seq![
                DmaReq {
                    mode: VarMode::User { iid: pld.iid, flag },
                    from: (pld.from_hid, pld.slot->0),
                    to: (NodeId(s.node_id), cid),
                },
            ],
            _ => Seq::empty(),
        },
        UcorePayloadMode::IOpDone(iop_nodes) => {
            let blocks = waiting_blocks(s, pld.iid);
            if count_after(s, pld.iid, iop_nodes) == 0 {
                reads_served(s, blocks, blocks.len() as int)
            } else {
                Seq::empty()
            }
        },
    }
}

// End of transfers

/// Number of responses that a transfer still waits for.
pub open spec fn dma_count(s: UCoreView, mode: VarMode) -> Option<usize> {
    match mode {
        VarMode::User { iid, flag } => match s.user[user_index(iid, flag)] {
            UserVarState::DmaPending(n) => Some(n),
            _ => None,
        },
        VarMode::ArgSrc { var, blk } => match s.src[src_index(var, blk)] {
            SrcVarState::DmaPending(n) => Some(n),
            _ => None,
        },
        VarMode::ArgDst { iid, var, blk } => match s.dst[dst_blk_index(iid, var, blk)] {
            DstVarState::DmaPending(n) => Some(n),
            _ => None,
        },
    }
}

/// An origin has a position in its store.
pub open spec fn mode_ok(mode: VarMode) -> bool {
    match mode {
        VarMode::User { flag, .. } => user_key_ok(flag),
        VarMode::ArgSrc { var, blk } => src_key_ok(var, blk),
        VarMode::ArgDst { var, blk, .. } => dst_key_ok(var, blk),
    }
}

/// A transfer is in progress and the oldest one waits for a response.
pub open spec fn dma_ok(s: UCoreView) -> bool {
    &&& s.pdg_req.len() > 0
    &&& mode_ok(s.pdg_req[0].0)
    &&& dma_count(s, s.pdg_req[0].0) matches Some(n)
    &&& n >= 1
}

/// The response ends the oldest transfer.
pub open spec fn dma_ends(s: UCoreView) -> bool {
    dma_count(s, s.pdg_req[0].0) == Some(1usize)
}

/// State after the response to a transfer.
pub open spec fn dma_state(s: UCoreView) -> UCoreView {
    let (mode, cid) = s.pdg_req[0];
    if dma_ends(s) {
        let popped = UCoreView { pdg_req: s.pdg_req.drop_first(), ..s };
        match mode {
            VarMode::User { iid, flag } => popped.set_user(iid, flag, UserVarState::Resolved(cid)),
            VarMode::ArgSrc { var, blk } => popped.set_src(var, blk, SrcVarState::Resolved(cid)),
            VarMode::ArgDst { iid, var, blk } => popped.set_dst(
                iid,
                var,
                blk,
                DstVarState::Resolved,
            ),
        }
    } else {
        let left = (dma_count(s, mode)->0 - 1) as usize;
        match mode {
            VarMode::User { iid, flag } => s.set_user(iid, flag, UserVarState::DmaPending(left)),
            VarMode::ArgSrc { var, blk } => s.set_src(var, blk, SrcVarState::DmaPending(left)),
            VarMode::ArgDst { iid, var, blk } => s.set_dst(
                iid,
                var,
                blk,
                DstVarState::DmaPending(left),
            ),
        }
    }
}

/// Slot that holds the data of a transfer, once it is resolved.
pub open spec fn resolved_in(s: UCoreView, mode: VarMode) -> Option<CtId> {
    match mode {
        VarMode::User { iid, flag } => match s.user[user_index(iid, flag)] {
            UserVarState::Resolved(cid) => Some(cid),
            _ => None,
        },
        VarMode::ArgSrc { var, blk } => match s.src[src_index(var, blk)] {
            SrcVarState::Resolved(cid) => Some(cid),
            _ => None,
        },
        VarMode::ArgDst { .. } => None,
    }
}

/// A transfer is resolved.
pub open spec fn is_resolved(s: UCoreView, mode: VarMode) -> bool {
    match mode {
        VarMode::ArgDst { iid, var, blk } => s.dst[dst_blk_index(iid, var, blk)]
            == DstVarState::Resolved,
        _ => resolved_in(s, mode) is Some,
    }
}

// Translation

/// The heap is used downward from the last slot of the board.
pub open spec fn heap_ok(ct_total: int, bid: u16) -> bool {
    &&& 1 <= ct_total <= usize::MAX
    &&& bid <= (ct_total - 1) as u16
}

/// Slot of a block of the heap.
pub open spec fn heap_slot(ct_total: int, bid: u16) -> CtId {
    CtId((((ct_total - 1) as u16) - bid) as u16)
}

/// A memory operand of an instruction of the micro-core is a slot.
pub open spec fn raw_ok(ct_total: int, slot: CtMem) -> bool {
    match slot {
        CtMem::Io(_) => true,
        CtMem::Heap { bid } => heap_ok(ct_total, bid),
        _ => false,
    }
}

/// Slot of a memory operand of an instruction of the micro-core.
pub open spec fn raw_slot(ct_total: int, slot: CtMem) -> CtId {
    match slot {
        CtMem::Heap { bid } => heap_slot(ct_total, bid),
        CtMem::Io(cid) => cid,
        _ => CtId(0),
    }
}

/// A memory operand of a load or a store can be resolved.
pub open spec fn mem_ok(s: UCoreView, ct_total: int, slot: CtMem) -> bool {
    match slot {
        CtMem::Io(_) => true,
        CtMem::Heap { bid } => heap_ok(ct_total, bid),
        CtMem::Src { tid, bid } => {
            let op = s.cur_iop->0.src[tid as int];
            &&& s.cur_iop is Some
            &&& tid < s.cur_iop->0.src.len()
            &&& op.base_cid.0 + bid <= u16::MAX
            &&& op.pos.0 != s.node_id ==> ld_ok(s, VarMode::ArgSrc { var: tid, blk: bid }, None)
        },
        CtMem::Dst { tid, bid } => {
            let op = s.cur_iop->0.dst[tid as int];
            &&& s.cur_iop is Some
            &&& tid < s.cur_iop->0.dst.len()
            &&& op.base_cid.0 + bid <= u16::MAX
            &&& if op.pos.0 == s.node_id {
                dst_key_ok(tid, bid)
            } else {
                s.free.len() > 0 && s.dst_notifyq.len() > 0
            }
        },
    }
}

/// State after a memory operand is resolved, or its transfer registered.
pub open spec fn mem_state(s: UCoreView, pem_pc: usize, slot: CtMem) -> UCoreView {
    match slot {
        CtMem::Src { tid, bid } => if s.cur_iop->0.src[tid as int].pos.0 == s.node_id {
            s
        } else {
            ld_state(s, pem_pc, VarMode::ArgSrc { var: tid, blk: bid }, None)
        },
        CtMem::Dst { tid, bid } => {
            let iop = s.cur_iop->0;
            let op = iop.dst[tid as int];
            if op.pos.0 == s.node_id {
                s.set_dst(iop.iid(), tid, bid, DstVarState::Resolved)
            } else {
                let order = DstNotifyOrder {
                    var: tid,
                    blk: bid,
                    trgt_cid: CtId((op.base_cid.0 + bid) as u16),
                    trgt_hid: op.pos,
                    local_cid: s.free.last(),
                };
                let last = s.dst_notifyq.len() - 1;
                UCoreView {
                    dst_notifyq: s.dst_notifyq.update(last, s.dst_notifyq[last].push(order)),
                    ..s.lend(iop.iid())
                }
            }
        },
        _ => s,
    }
}

/// Slot of a memory operand, unless it has to be fetched from another node.
pub open spec fn mem_slot(s: UCoreView, ct_total: int, slot: CtMem) -> Option<CtId> {
    match slot {
        CtMem::Io(cid) => Some(cid),
        CtMem::Heap { bid } => Some(heap_slot(ct_total, bid)),
        CtMem::Src { tid, bid } => {
            let op = s.cur_iop->0.src[tid as int];
            if op.pos.0 == s.node_id {
                Some(CtId((op.base_cid.0 + bid) as u16))
            } else {
                None
            }
        },
        CtMem::Dst { tid, bid } => {
            let op = s.cur_iop->0.dst[tid as int];
            if op.pos.0 == s.node_id {
                Some(CtId((op.base_cid.0 + bid) as u16))
            } else {
                Some(s.free.last())
            }
        },
    }
}

/// An immediate can be resolved.
pub open spec fn imm_ok(iop: IOpView, cst: PtArg) -> bool {
    cst matches PtArg::Var { tid, .. } ==> tid < iop.imm.len()
}

/// Immediate with its template replaced by the block that it names.
pub open spec fn imm_patched(iop: IOpView, cst: PtArg) -> PtArg {
    match cst {
        PtArg::Const(val) => PtArg::Const(val),
        PtArg::Var { tid, bid } => PtArg::Const(iop.imm[tid as int][bid as int]),
    }
}

/// Load or store with its memory operand replaced by a slot.
pub open spec fn with_slot(dop: DOp, cid: CtId) -> DOp {
    match dop {
        DOp::LD { dst, .. } => DOp::LD { dst, src: CtMem::Io(cid) },
        DOp::ST { src, .. } => DOp::ST { dst: CtMem::Io(cid), src },
        _ => dop,
    }
}

/// Memory operand of a load or a store.
pub open spec fn mem_of(dop: DOp) -> Option<CtMem> {
    match dop {
        DOp::LD { src, .. } => Some(src),
        DOp::ST { dst, .. } => Some(dst),
        _ => None,
    }
}

/// Patched instruction, for those with an immediate.
pub open spec fn with_imm(iop: IOpView, dop: DOp) -> DOp {
    match dop {
        DOp::ADDS { dst, src, cst } => DOp::ADDS { dst, src, cst: imm_patched(iop, cst) },
        DOp::SUBS { dst, src, cst } => DOp::SUBS { dst, src, cst: imm_patched(iop, cst) },
        DOp::SSUB { dst, src, cst } => DOp::SSUB { dst, src, cst: imm_patched(iop, cst) },
        DOp::MULS { dst, src, cst } => DOp::MULS { dst, src, cst: imm_patched(iop, cst) },
        _ => dop,
    }
}

/// Immediate of an arithmetic instruction.
pub open spec fn imm_of(dop: DOp) -> Option<PtArg> {
    match dop {
        DOp::ADDS { cst, .. } => Some(cst),
        DOp::SUBS { cst, .. } => Some(cst),
        DOp::SSUB { cst, .. } => Some(cst),
        DOp::MULS { cst, .. } => Some(cst),
        _ => None,
    }
}

/// An instruction can be translated.
pub open spec fn exec_ok(s: UCoreView, ct_total: int, dop: DOp) -> bool {
    &&& s.cur_iop is Some
    &&& match dop {
        DOp::NOTIFY { slot, .. } => raw_ok(ct_total, slot),
        DOp::LD_B2B { slot, flag, .. } => raw_ok(ct_total, slot) && ld_ok(
            s,
            VarMode::User { iid: s.cur_iop->0.iid(), flag },
            Some(raw_slot(ct_total, slot)),
        ),
        _ => {
            &&& mem_of(dop) matches Some(slot) ==> mem_ok(s, ct_total, slot)
            &&& imm_of(dop) matches Some(cst) ==> imm_ok(s.cur_iop->0, cst)
        },
    }
}

/// Message registered by a NOTIFY.
pub open spec fn user_payload(s: UCoreView, ct_total: int, flag: UserFlag, slot: CtMem) -> UcorePayload {
    UcorePayload {
        mode: UcorePayloadMode::User(flag),
        slot: Some(raw_slot(ct_total, slot)),
        from_hid: NodeId(s.node_id),
        iid: s.cur_iop->0.iid(),
    }
}

/// State after the translation of an instruction.
pub open spec fn exec_state(s: UCoreView, ct_total: int, pem_pc: usize, dop: DOp) -> UCoreView {
    let iid = s.cur_iop->0.iid();
    match dop {
        DOp::NOTIFY { hid, flag, slot } => UCoreView {
            pdg_notify: s.pdg_notify.push((hid, user_payload(s, ct_total, flag, slot))),
            ..s
        },
        DOp::LD_B2B { flag, slot, .. } => ld_state(
            s,
            pem_pc,
            VarMode::User { iid, flag },
            Some(raw_slot(ct_total, slot)),
        ),
        _ => match mem_of(dop) {
            Some(slot) => mem_state(s, pem_pc, slot),
            None => s,
        },
    }
}

/// What the translation of an instruction asks for.
pub open spec fn exec_step(s: UCoreView, ct_total: int, dop: DOp) -> Step {
    let iid = s.cur_iop->0.iid();
    match dop {
        DOp::NOTIFY { hid, flag, .. } => Step::Defer(DOp::SYNC { is_inner: true, flag, hid, iid }),
        DOp::WAIT { flag, .. } => Step::Wait(VarMode::User { iid, flag }),
        DOp::LD_B2B { flag, slot, .. } => Step::Fetch(
            ld_req(s, VarMode::User { iid, flag }, Some(raw_slot(ct_total, slot))),
        ),
        _ => match mem_of(dop) {
            Some(slot) => match mem_slot(s, ct_total, slot) {
                Some(cid) => Step::Defer(with_slot(dop, cid)),
                None => {
                    let key = VarMode::ArgSrc { var: slot->Src_tid, blk: slot->Src_bid };
                    Step::FetchThenDefer { req: ld_req(s, key, None), key, dop }
                },
            },
            None => Step::Defer(with_imm(s.cur_iop->0, dop)),
        },
    }
}

/// Barrier that ends an operation.
pub open spec fn end_sync(iid: IOpId) -> DOp {
    DOp::SYNC { is_inner: false, flag: UserFlag(0), hid: NodeId(0), iid }
}

// Start and end of operations

/// State after an operation starts. An identifier that does not grow tells that
/// the host has restarted: what was known of the previous operations is dropped.
pub open spec fn start_state(s: UCoreView, iop: IOpView) -> UCoreView {
    let iid = iop.iid();
    let restarted = s.cur_iid.0 >= iid.0;
    let owner = if restarted {
        Seq::new(16384, |i: int| NodeId(super::store::NO_OWNER))
    } else {
        s.owner
    };
    let dst = if restarted {
        Seq::new(1048576, |i: int| DstVarState::WaitNotify)
    } else {
        s.dst
    };
    UCoreView {
        free: if restarted {
            s.free + concat(s.lent, 256)
        } else {
            s.free
        },
        lent: if restarted {
            Seq::new(256, |i: int| Seq::<CtId>::empty())
        } else {
            s.lent
        },
        user: if restarted {
            Seq::new(16384, |i: int| UserVarState::Idle)
        } else {
            s.user
        },
        owner: owners_after_init(owner, iid, iop.dst),
        dst: blocks_after_init(dst, iid, iop.dst),
        cur_iop: Some(iop),
        src: Seq::new(4096, |i: int| SrcVarState::Idle),
        dst_notifyq: s.dst_notifyq.push(Seq::empty()),
        cur_iid: iid,
        iop_pdg: s.iop_pdg.push(iop),
        ..s
    }
}

/// Message that signals a block of a destination to its owner.
pub open spec fn dst_pkt(node_id: u8, iid: IOpId, order: DstNotifyOrder) -> CtrlPkt {
    CtrlPkt {
        from: NodeId(node_id),
        to: order.trgt_hid,
        payload: UcorePayload {
            mode: UcorePayloadMode::Ucore(
                UcoreFlag { tid: order.var, bid: order.blk, trgt_cid: order.trgt_cid },
            ),
            slot: Some(order.local_cid),
            from_hid: NodeId(node_id),
            iid,
        },
    }
}

/// Messages that signal the end of an operation to the other nodes among the
/// first `n` of the cluster.
pub open spec fn done_pkts(nodes: Seq<u8>, hid: NodeId, iid: IOpId, iop_nodes: u8, n: int) -> Seq<
    CtrlPkt,
>
    decreases n,
{
    if n <= 0 {
        Seq::empty()
    } else {
        let before = done_pkts(nodes, hid, iid, iop_nodes, n - 1);
        if nodes[n - 1] == hid.0 {
            before
        } else {
            before.push(
                CtrlPkt {
                    from: hid,
                    to: NodeId(nodes[n - 1]),
                    payload: UcorePayload {
                        mode: UcorePayloadMode::IOpDone(iop_nodes),
                        slot: None,
                        from_hid: hid,
                        iid,
                    },
                },
            )
        }
    }
}

/// Blocks that this node owns among the destinations of an operation.
pub open spec fn owned_keys(s: UCoreView, iid: IOpId) -> Seq<VarMode> {
    owned_blocks(s.owner, s.dst, iid, NodeId(s.node_id), 64).map_values(
        |b: (u8, u8)| VarMode::ArgDst { iid, var: b.0, blk: b.1 },
    )
}

/// State after an operation ends: this node acknowledges it, its slots are free
/// again and its destinations are forgotten.
pub open spec fn teardown_state(s: UCoreView, iid: IOpId, iop_nodes: u8) -> UCoreView {
    UCoreView {
        iop_state: s.iop_state.update(iid.0 as int, count_after(s, iid, iop_nodes) as u8),
        free: s.free + s.lent[iid.0 as int],
        lent: s.lent.update(iid.0 as int, Seq::empty()),
        owner: owners_after_reset(s.owner, iid),
        dst: blocks_after_reset(s.dst, iid),
        ..s
    }
}

} // verus!
