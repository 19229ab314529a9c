//! Checks of the conditions under which a micro-core handles an event.
use vstd::prelude::*;

use super::machine::UCoreInner;
use super::model::{
    dma_ok, exec_ok, heap_ok, imm_ok, ld_ok, mem_ok, mode_ok, notify_ok, raw_ok, sources_ok,
    VarMode,
};
use super::store::{
    dst_describable, dst_key_ok, src_index, src_key_ok, user_key_ok, DstVarState, SrcVarState,
    UserVarState,
};
use crate::cpn::insn::{CtId, CtMem, DOp, IOpId, PtArg, UcorePayload, UcorePayloadMode, UserFlag};
use crate::cpn::iop::{IOp, Operand};

verus! {

fn has_user(flag: UserFlag) -> (r: bool)
    ensures
        r == user_key_ok(flag),
{
    flag.0 < 64
}

fn has_dst(var: u8, blk: u8) -> (r: bool)
    ensures
        r == dst_key_ok(var, blk),
{
    var < 64 && blk < 64
}

fn has_src(var: u8, blk: u8) -> (r: bool)
    ensures
        r == src_key_ok(var, blk),
{
    var < 64 && blk < 64
}

pub(crate) fn has_mode(mode: VarMode) -> (r: bool)
    ensures
        r == mode_ok(mode),
{
    match mode {
        VarMode::User { flag, .. } => has_user(flag),
        VarMode::ArgSrc { var, blk } => has_src(var, blk),
        VarMode::ArgDst { var, blk, .. } => has_dst(var, blk),
    }
}

fn has_heap(ct_total: usize, bid: u16) -> (r: bool)
    ensures
        r == heap_ok(ct_total as int, bid),
{
    ct_total >= 1 && bid <= (ct_total - 1) as u16
}

fn has_raw(ct_total: usize, slot: CtMem) -> (r: bool)
    ensures
        r == raw_ok(ct_total as int, slot),
{
    match slot {
        CtMem::Io(_) => true,
        CtMem::Heap { bid } => has_heap(ct_total, bid),
        _ => false,
    }
}

impl UCoreInner {
    fn sources(&self) -> (r: usize)
        ensures
            r == self@.operands().len(),
    {
        match &self.local_store.cur_iop {
            Some(iop) => iop.src.len(),
            None => 0,
        }
    }

    fn source(&self, var: usize) -> (r: Operand)
        requires
            var < self@.operands().len(),
        ensures
            r == self@.operands()[var as int],
    {
        match &self.local_store.cur_iop {
            Some(iop) => iop.src[var],
            None => vstd::pervasive::unreached(),
        }
    }

    /// Whether a load can be registered.
    pub fn can_load(&self, mode: VarMode, dst: Option<CtId>) -> (r: bool)
        requires
            self@.wf(),
        ensures
            r == ld_ok(self@, mode, dst),
    {
        let room = dst.is_some() || self.b2b_pool.free.len() > 0;
        match mode {
            VarMode::User { iid, flag } => {
                has_user(flag) && match self.user_store.get(iid, flag) {
                    UserVarState::Idle => room,
                    UserVarState::Received(pld) => pld.slot.is_some() && room,
                    _ => true,
                }
            },
            VarMode::ArgSrc { var, blk } => {
                if !has_src(var, blk) || (var as usize) >= self.sources() {
                    return false;
                }
                let base: u16 = self.source(var as usize).base_cid.0;
                let idle = matches!(self.local_store.src(var, blk), SrcVarState::Idle);
                base as u32 + blk as u32 <= 0xffff && (room || !idle)
            },
            VarMode::ArgDst { .. } => false,
        }
    }

    /// Whether the source operands produced by an operation can be fetched.
    fn sources_fit(&self, iid: IOpId) -> (r: bool)
        requires
            self@.wf(),
        ensures
            r == sources_ok(self@, iid),
    {
        let n: usize = self.sources();
        for i in 0..n
            invariant
                n == self@.operands().len(),
                forall|j: int|
                    0 <= j < i ==> (#[trigger] self@.operands()[j]).iid == iid ==> j < 64
                        && self@.operands()[j].block < 64,
        {
            let op = self.source(i);
            if op.iid == iid && (i >= 64 || op.block >= 64) {
                assert(self@.operands()[i as int].iid == iid);
                return false;
            }
        }
        for i in 0..n
            invariant
                self@.wf(),
                n == self@.operands().len(),
                forall|j: int|
                    0 <= j < n ==> (#[trigger] self@.operands()[j]).iid == iid ==> j < 64
                        && self@.operands()[j].block < 64,
                forall|var: u8, blk: u8|
                    (var < i && self@.operands()[var as int].iid == iid && blk
                        <= self@.operands()[var as int].block && (#[trigger] self@.src[src_index(
                        var,
                        blk,
                    )]) is ReadPending) ==> self@.operands()[var as int].base_cid.0 + blk
                        <= u16::MAX,
        {
            let op = self.source(i);
            if op.iid == iid {
                assert(self@.operands()[i as int].iid == iid);
                for b in 0..op.block as usize + 1
                    invariant
                        self@.wf(),
                        i < 64,
                        i < self@.operands().len(),
                        op == self@.operands()[i as int],
                        op.iid == iid,
                        op.block < 64,
                        forall|blk: u8|
                            (blk < b && (#[trigger] self@.src[src_index(i as u8, blk)])
                                is ReadPending) ==> op.base_cid.0 + blk <= u16::MAX,
                {
                    let blk: u8 = b as u8;
                    let pending = matches!(
                        self.local_store.src(i as u8, blk),
                        SrcVarState::ReadPending(_)
                    );
                    if pending && op.base_cid.0 as u32 + blk as u32 > 0xffff {
                        assert(self@.src[src_index(i as u8, blk)] is ReadPending);
                        return false;
                    }
                }
            }
        }
        true
    }

    /// Whether a message can be handled.
    pub fn can_notify(&self, pld: UcorePayload) -> (r: bool)
        requires
            self@.wf(),
        ensures
            r == notify_ok(self@, pld),
    {
        match pld.mode {
            UcorePayloadMode::Ucore(flag) => has_dst(flag.tid, flag.bid)
                && self.dst_store.get(pld.iid, flag.tid, flag.bid) == DstVarState::WaitNotify
                && pld.slot.is_some(),
            UcorePayloadMode::User(flag) => has_user(flag) && match self.user_store.get(
                pld.iid,
                flag,
            ) {
                UserVarState::Idle => true,
                UserVarState::ReadPending(_) => pld.slot.is_some(),
                _ => false,
            },
            UcorePayloadMode::IOpDone(iop_nodes) => {
                let count: u8 = self.iop_state.0[pld.iid.0 as usize];
                if count == 0 && iop_nodes < 1 {
                    return false;
                }
                let last = if count == 0 {
                    iop_nodes == 1
                } else {
                    count == 1
                };
                !last || self.sources_fit(pld.iid)
            },
        }
    }

    /// Whether the response to a transfer can be handled.
    pub fn can_end_dma(&self) -> (r: bool)
        requires
            self@.wf(),
        ensures
            r == dma_ok(self@),
    {
        if self.pdg_req.len() == 0 {
            return false;
        }
        let (mode, _) = self.pdg_req[0];
        if !has_mode(mode) {
            return false;
        }
        match mode {
            VarMode::User { iid, flag } => match self.user_store.get(iid, flag) {
                UserVarState::DmaPending(n) => n >= 1,
                _ => false,
            },
            VarMode::ArgSrc { var, blk } => match self.local_store.src(var, blk) {
                SrcVarState::DmaPending(n) => n >= 1,
                _ => false,
            },
            VarMode::ArgDst { iid, var, blk } => match self.dst_store.get(iid, var, blk) {
                DstVarState::DmaPending(n) => n >= 1,
                _ => false,
            },
        }
    }

    fn mem_fits(&self, ct_total: usize, slot: CtMem) -> (r: bool)
        requires
            self@.wf(),
            self@.cur_iop is Some,
        ensures
            r == mem_ok(self@, ct_total as int, slot),
    {
        match slot {
            CtMem::Io(_) => true,
            CtMem::Heap { bid } => has_heap(ct_total, bid),
            CtMem::Src { tid, bid } => {
                if (tid as usize) >= self.sources() {
                    return false;
                }
                let op = self.source(tid as usize);
                op.base_cid.0 as u32 + bid as u32 <= 0xffff && (op.pos.0 == self.node_id
                    || self.can_load(VarMode::ArgSrc { var: tid, blk: bid }, None))
            },
            CtMem::Dst { tid, bid } => {
                match &self.local_store.cur_iop {
                    Some(iop) => {
                        if (tid as usize) >= iop.dst.len() {
                            return false;
                        }
                        let op = iop.dst[tid as usize];
                        op.base_cid.0 as u32 + bid as u32 <= 0xffff && if op.pos.0
                            == self.node_id {
                            has_dst(tid, bid)
                        } else {
                            self.b2b_pool.free.len() > 0 && self.dst_notifyq.len() > 0
                        }
                    },
                    None => false,
                }
            },
        }
    }

    fn imm_fits(&self, cst: PtArg) -> (r: bool)
        requires
            self@.cur_iop is Some,
        ensures
            r == imm_ok(self@.cur_iop->0, cst),
    {
        match (cst, &self.local_store.cur_iop) {
            (PtArg::Var { tid, .. }, Some(iop)) => (tid as usize) < iop.imm.len(),
            _ => true,
        }
    }

    /// Whether an instruction can be translated.
    pub fn can_exec(&self, ct_total: usize, dop: DOp) -> (r: bool)
        requires
            self@.wf(),
        ensures
            r == exec_ok(self@, ct_total as int, dop),
    {
        let iid = match &self.local_store.cur_iop {
            Some(iop) => iop.get_iid(),
            None => {
                return false;
            },
        };
        match dop {
            DOp::NOTIFY { slot, .. } => has_raw(ct_total, slot),
            DOp::LD_B2B { slot, flag, .. } => has_raw(ct_total, slot) && self.can_load(
                VarMode::User { iid, flag },
                Some(CtId(0)),
            ),
            DOp::LD { src, .. } => self.mem_fits(ct_total, src),
            DOp::ST { dst, .. } => self.mem_fits(ct_total, dst),
            DOp::ADDS { cst, .. } => self.imm_fits(cst),
            DOp::SUBS { cst, .. } => self.imm_fits(cst),
            DOp::SSUB { cst, .. } => self.imm_fits(cst),
            DOp::MULS { cst, .. } => self.imm_fits(cst),
            _ => true,
        }
    }
}

/// Whether the destinations of an operation can be described.
pub fn can_start(iop: &IOp) -> (r: bool)
    requires
        iop@.wf(),
    ensures
        r == dst_describable(iop@.dst),
{
    let n: usize = iop.dst.len();
    if n > 64 {
        return false;
    }
    for i in 0..n
        invariant
            n == iop.dst@.len(),
            forall|j: int| 0 <= j < i ==> (#[trigger] iop.dst@[j]).block < 255,
    {
        if iop.dst[i].block >= 255 {
            assert(iop.dst@[i as int].block >= 255);
            return false;
        }
    }
    true
}

} // verus!
