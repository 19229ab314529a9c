//! Laws of the translation: what the computation core receives for each instruction of the
//! firmware, and where its operands are.
use vstd::arithmetic::div_mod::lemma_fundamental_div_mod_converse;
use vstd::prelude::*;

use super::flow::{
    teardown_asks, teardown_next, teardown_ok, teardown_step_state, translate_action,
    translate_next, translate_ok, Ending, Progress, TeardownAction, TeardownView, TranslationView,
};
use super::model::{
    done_pkts, dst_pkt, end_sync, exec_ok, exec_state, exec_step, ld_ok, notify_ok, notify_reqs,
    notify_state, start_state, DmaReq, Step, UCoreView, VarMode,
};
use super::store::{
    dst_blk_index, src_index, user_index, DstNotifyOrder, DstVarState, SrcVarState, UserVarState,
};
use super::unit::{decode_all, QueueConfig, UCoreParams, FW_RUNTIME_MAX_WORD};
use crate::cpn::insn::{
    decode, CtId, CtMem, CtReg, DOp, IOpId, NodeId, PtArg, UcoreFlag, UcorePayload,
    UcorePayloadMode, UserFlag,
};
use crate::cpn::iop::IOpView;
use crate::cpn::layout::MemKind;

verus! {

/// An immediate stands for a value: itself for a constant, and a block of an immediate of the
/// operation for a template.
pub open spec fn imm_stands_for(iop: IOpView, cst: PtArg, val: PtArg) -> bool {
    match cst {
        PtArg::Const(_) => val == cst,
        PtArg::Var { tid, bid } => val == PtArg::Const(iop.imm[tid as int][bid as int]),
    }
}

/// The core executes the operation that the firmware asks for: the same operation, on the same
/// registers and the same table. Only the immediate of an instruction may differ, where it is a
/// template, and only the memory operand of a load or a store.
pub proof fn translation_keeps_operation(s: UCoreView, ct_total: int, pem_pc: usize, dop: DOp)
    requires
        exec_ok(s, ct_total, dop),
    ensures
        ({
            let step = exec_step(s, ct_total, dop);
            let same_state = exec_state(s, ct_total, pem_pc, dop) == s;
            let iop = s.cur_iop->0;
            match dop {
                DOp::ADDS { dst, src, cst } => same_state && (step matches Step::Defer(
                    DOp::ADDS { dst: d, src: r, cst: c },
                ) && d == dst && r == src && imm_stands_for(iop, cst, c)),
                DOp::SUBS { dst, src, cst } => same_state && (step matches Step::Defer(
                    DOp::SUBS { dst: d, src: r, cst: c },
                ) && d == dst && r == src && imm_stands_for(iop, cst, c)),
                DOp::SSUB { dst, src, cst } => same_state && (step matches Step::Defer(
                    DOp::SSUB { dst: d, src: r, cst: c },
                ) && d == dst && r == src && imm_stands_for(iop, cst, c)),
                DOp::MULS { dst, src, cst } => same_state && (step matches Step::Defer(
                    DOp::MULS { dst: d, src: r, cst: c },
                ) && d == dst && r == src && imm_stands_for(iop, cst, c)),
                DOp::LD { dst, src } => match step {
                    Step::Defer(out) => out matches DOp::LD { dst: d, src: CtMem::Io(_) } && d
                        == dst,
                    Step::FetchThenDefer { dop: held, key, .. } => {
                        &&& held == dop
                        &&& src matches CtMem::Src { tid, bid }
                        &&& key == VarMode::ArgSrc { var: tid, blk: bid }
                    },
                    _ => false,
                },
                DOp::ST { dst, src } => match step {
                    Step::Defer(out) => out matches DOp::ST { dst: CtMem::Io(_), src: r } && r
                        == src,
                    Step::FetchThenDefer { dop: held, key, .. } => {
                        &&& held == dop
                        &&& dst matches CtMem::Src { tid, bid }
                        &&& key == VarMode::ArgSrc { var: tid, blk: bid }
                    },
                    _ => false,
                },
                DOp::WAIT { flag, .. } => same_state && step == Step::Wait(
                    VarMode::User { iid: iop.dst[0].iid, flag },
                ),
                DOp::NOTIFY { hid, flag, .. } => step == Step::Defer(
                    DOp::SYNC { is_inner: true, flag, hid, iid: iop.dst[0].iid },
                ),
                DOp::LD_B2B { .. } => step is Fetch,
                _ => same_state && step == Step::Defer(dop),
            }
        }),
{
}

/// What is sent for each instruction keeps the kinds apart: two instructions of different
/// kinds, none of them one of the micro-core, are deferred as instructions of different kinds.
pub open spec fn same_kind(a: DOp, b: DOp) -> bool {
    match a {
        DOp::_START => b is _START,
        DOp::_END => b is _END,
        DOp::ADD { .. } => b is ADD,
        DOp::SUB { .. } => b is SUB,
        DOp::MAC { .. } => b is MAC,
        DOp::ADDS { .. } => b is ADDS,
        DOp::SUBS { .. } => b is SUBS,
        DOp::SSUB { .. } => b is SSUB,
        DOp::MULS { .. } => b is MULS,
        DOp::LD { .. } => b is LD,
        DOp::ST { .. } => b is ST,
        DOp::PBS { .. } => b is PBS,
        DOp::PBS_ML2 { .. } => b is PBS_ML2,
        DOp::PBS_ML4 { .. } => b is PBS_ML4,
        DOp::PBS_ML8 { .. } => b is PBS_ML8,
        DOp::PBS_F { .. } => b is PBS_F,
        DOp::PBS_ML2_F { .. } => b is PBS_ML2_F,
        DOp::PBS_ML4_F { .. } => b is PBS_ML4_F,
        DOp::PBS_ML8_F { .. } => b is PBS_ML8_F,
        DOp::SYNC { .. } => b is SYNC,
        DOp::WAIT { .. } => b is WAIT,
        DOp::NOTIFY { .. } => b is NOTIFY,
        DOp::LD_B2B { .. } => b is LD_B2B,
    }
}

/// Each step of a translation sends an instruction of the firmware, in the order of the
/// firmware: the next one, or the load or store that has waited for its block, or the barrier
/// that ends the operation once there is none left.
pub proof fn firmware_is_sent_in_order(s: UCoreView, ct_total: int, t: TranslationView)
    requires
        translate_ok(s, ct_total, t),
    ensures
        ({
            let next = translate_next(s, ct_total, t);
            &&& next.dops == t.dops
            &&& next.pos == (if t.held is None && t.pos < t.dops.len() {
                t.pos + 1
            } else {
                t.pos
            })
            &&& next.held matches Some((key, dop)) ==> t.held == next.held || t.held is None && {
                &&& dop is Some ==> dop == Some(t.dops[t.pos])
                &&& dop is None ==> t.dops[t.pos] is WAIT
            }
            &&& translate_action(s, ct_total, t) matches Progress::Send(out) ==> match t.held {
                Some((_, dop)) => dop is Some && same_kind(dop->0, out),
                None => if t.pos < t.dops.len() {
                    same_kind(t.dops[t.pos], out) || t.dops[t.pos] is NOTIFY && out is SYNC
                } else {
                    out == DOp::SYNC {
                        is_inner: false,
                        flag: UserFlag(0),
                        hid: NodeId(0),
                        iid: s.cur_iop->0.dst[0].iid,
                    }
                },
            }
        }),
{
}

/// Slot that a memory operand names: the slot itself, a slot counted down from the last one of
/// the board for the heap, and a slot counted up from the first one of an operand for a block
/// of an operand that this node stores.
pub open spec fn names_slot(s: UCoreView, ct_total: int, mem: CtMem, cid: CtId) -> bool {
    match mem {
        CtMem::Io(slot) => cid == slot,
        CtMem::Heap { bid } => ct_total <= 0x1_0000 ==> cid.0 + bid + 1 == ct_total,
        CtMem::Src { tid, bid } => {
            let op = s.cur_iop->0.src[tid as int];
            &&& op.pos.0 == s.node_id
            &&& cid.0 == op.base_cid.0 + bid
        },
        CtMem::Dst { tid, bid } => {
            let op = s.cur_iop->0.dst[tid as int];
            if op.pos.0 == s.node_id {
                cid.0 == op.base_cid.0 + bid
            } else {
                s.free.len() > 0 && cid == s.free[s.free.len() - 1]
            }
        },
    }
}

/// A load reads the slot that its operand names, and a store writes it. A block of a source
/// that another node stores is fetched first.
pub proof fn loads_and_stores_use_the_named_slot(
    s: UCoreView,
    ct_total: int,
    reg: CtReg,
    mem: CtMem,
)
    requires
        exec_ok(s, ct_total, DOp::LD { dst: reg, src: mem }),
    ensures
        exec_ok(s, ct_total, DOp::ST { dst: mem, src: reg }),
        match exec_step(s, ct_total, DOp::LD { dst: reg, src: mem }) {
            Step::Defer(out) => exists|cid: CtId|
                {
                    &&& out == DOp::LD { dst: reg, src: CtMem::Io(cid) }
                    &&& exec_step(s, ct_total, DOp::ST { dst: mem, src: reg }) == Step::Defer(
                        DOp::ST { dst: CtMem::Io(cid), src: reg },
                    )
                    &&& #[trigger] names_slot(s, ct_total, mem, cid)
                },
            step => {
                &&& step is FetchThenDefer
                &&& mem matches CtMem::Src { tid, .. }
                &&& s.cur_iop->0.src[tid as int].pos.0 != s.node_id
            },
        },
{
    let dop = DOp::LD { dst: reg, src: mem };
    if let Step::Defer(out) = exec_step(s, ct_total, dop) {
        let cid = out->LD_src->Io_0;
        assert(names_slot(s, ct_total, mem, cid));
    }
}

/// A block of a destination that this node stores is in its place once its store is sent, and
/// one that another node stores takes a slot of the pool until its owner has fetched it.
pub proof fn stored_block_is_registered(
    s: UCoreView,
    ct_total: int,
    pem_pc: usize,
    src: CtReg,
    tid: u8,
    bid: u8,
)
    requires
        s.wf(),
        exec_ok(s, ct_total, DOp::ST { dst: CtMem::Dst { tid, bid }, src }),
    ensures
        ({
            let dop = DOp::ST { dst: CtMem::Dst { tid, bid }, src };
            let next = exec_state(s, ct_total, pem_pc, dop);
            let iop = s.cur_iop->0;
            let iid = iop.dst[0].iid;
            let op = iop.dst[tid as int];
            if op.pos.0 == s.node_id {
                &&& next.dst[dst_blk_index(iid, tid, bid)] == DstVarState::Resolved
                &&& next == (UCoreView { dst: next.dst, ..s })
                &&& forall|k: int|
                    0 <= k < s.dst.len() && k != dst_blk_index(iid, tid, bid) ==> next.dst[k]
                        == s.dst[k]
            } else {
                let cid = s.free[s.free.len() - 1];
                let last = s.dst_notifyq.len() - 1;
                &&& next.free.push(cid) == s.free
                &&& next.lent[iid.0 as int] == s.lent[iid.0 as int].push(cid)
                &&& next.dst_notifyq.len() == s.dst_notifyq.len()
                &&& next.dst_notifyq[last] == s.dst_notifyq[last].push(
                    DstNotifyOrder {
                        var: tid,
                        blk: bid,
                        trgt_cid: CtId((op.base_cid.0 + bid) as u16),
                        trgt_hid: op.pos,
                        local_cid: cid,
                    },
                )
            }
        }),
{
    let iid = s.cur_iop->0.dst[0].iid;
    assert(dst_blk_index(iid, tid, bid) == (iid.0 * 64 + tid) * 64 + bid);
    let op = s.cur_iop->0.dst[tid as int];
    if op.pos.0 != s.node_id {
        assert(s.free.drop_last().push(s.free.last()) =~= s.free);
    }
}

/// A block of a source that another node stores is fetched from its slot there, to a slot of
/// the pool, once the operation that produces it is done; the load waits for it.
pub proof fn remote_source_is_fetched(
    s: UCoreView,
    ct_total: int,
    pem_pc: usize,
    reg: CtReg,
    tid: u8,
    bid: u8,
)
    requires
        s.wf(),
        exec_ok(s, ct_total, DOp::LD { dst: reg, src: CtMem::Src { tid, bid } }),
        s.cur_iop->0.src[tid as int].pos.0 != s.node_id,
        s.src[src_index(tid, bid)] == SrcVarState::Idle,
    ensures
        ({
            let dop = DOp::LD { dst: reg, src: CtMem::Src { tid, bid } };
            let next = exec_state(s, ct_total, pem_pc, dop);
            let op = s.cur_iop->0.src[tid as int];
            let key = VarMode::ArgSrc { var: tid, blk: bid };
            let cid = s.free[s.free.len() - 1];
            &&& next.free.push(cid) == s.free
            &&& next.lent[s.cur_iid.0 as int] == s.lent[s.cur_iid.0 as int].push(cid)
            &&& forall|k: int|
                0 <= k < s.src.len() && k != src_index(tid, bid) ==> next.src[k] == s.src[k]
            &&& if s.iop_state[op.iid.0 as int] == 0 {
                &&& next.src[src_index(tid, bid)] == SrcVarState::DmaPending(pem_pc)
                &&& exec_step(s, ct_total, dop) == Step::FetchThenDefer {
                    req: Some(
                        DmaReq {
                            mode: key,
                            from: (op.pos, CtId((op.base_cid.0 + bid) as u16)),
                            to: (NodeId(s.node_id), cid),
                        },
                    ),
                    key,
                    dop,
                }
            } else {
                &&& next.src[src_index(tid, bid)] == SrcVarState::ReadPending(cid)
                &&& exec_step(s, ct_total, dop) == Step::FetchThenDefer { req: None, key, dop }
            }
        }),
{
    assert(s.free.drop_last().push(s.free.last()) =~= s.free);
}

/// A block that was asked for is not asked for again: a second load of it starts no transfer,
/// takes no slot, and waits for the same block.
pub proof fn block_is_fetched_once(
    s: UCoreView,
    ct_total: int,
    pem_pc: usize,
    reg: CtReg,
    tid: u8,
    bid: u8,
)
    requires
        exec_ok(s, ct_total, DOp::LD { dst: reg, src: CtMem::Src { tid, bid } }),
        s.cur_iop->0.src[tid as int].pos.0 != s.node_id,
        s.src[src_index(tid, bid)] != SrcVarState::Idle,
    ensures
        ({
            let dop = DOp::LD { dst: reg, src: CtMem::Src { tid, bid } };
            &&& exec_state(s, ct_total, pem_pc, dop) == s
            &&& exec_step(s, ct_total, dop) == Step::FetchThenDefer {
                req: None,
                key: VarMode::ArgSrc { var: tid, blk: bid },
                dop,
            }
        }),
{
}

/// A load that has waited for its block reads the slot in which the block is, in the register
/// that the firmware asks for.
pub proof fn fetched_load_reads_its_block(
    s: UCoreView,
    ct_total: int,
    t: TranslationView,
    dst: CtReg,
    mem: CtMem,
    tid: u8,
    bid: u8,
    cid: CtId,
)
    requires
        translate_ok(s, ct_total, t),
        t.held == Some(
            (VarMode::ArgSrc { var: tid, blk: bid }, Some(DOp::LD { dst, src: mem })),
        ),
        s.src[src_index(tid, bid)] == SrcVarState::Resolved(cid),
    ensures
        translate_action(s, ct_total, t) == Progress::Send(DOp::LD { dst, src: CtMem::Io(cid) }),
        translate_next(s, ct_total, t) == (TranslationView { held: None, ..t }),
{
}

/// An explicit synchronisation is awaited and fetched under the same flag as it is signalled,
/// and both sides name their slots in the same way as loads and stores do.
pub proof fn synchronisations_name_their_slots(
    s: UCoreView,
    ct_total: int,
    pem_pc: usize,
    hid: NodeId,
    flag: UserFlag,
    slot: CtMem,
)
    requires
        s.wf(),
        flag.0 < 64,
    ensures
        exec_ok(s, ct_total, DOp::NOTIFY { hid, flag, slot }) ==> {
            let next = exec_state(s, ct_total, pem_pc, DOp::NOTIFY { hid, flag, slot });
            &&& next == (UCoreView { pdg_notify: next.pdg_notify, ..s })
            &&& next.pdg_notify.len() == s.pdg_notify.len() + 1
            &&& next.pdg_notify.drop_last() == s.pdg_notify
            &&& next.pdg_notify.last().0 == hid
            &&& next.pdg_notify.last().1.mode == UcorePayloadMode::User(flag)
            &&& next.pdg_notify.last().1.from_hid == NodeId(s.node_id)
            &&& next.pdg_notify.last().1.iid == s.cur_iop->0.dst[0].iid
            &&& next.pdg_notify.last().1.slot matches Some(cid)
            &&& names_slot(s, ct_total, slot, cid)
        },
        exec_ok(s, ct_total, DOp::LD_B2B { hid, flag, slot }) ==> {
            let dop = DOp::LD_B2B { hid, flag, slot };
            let iid = s.cur_iop->0.dst[0].iid;
            let k = user_index(iid, flag);
            let next = exec_state(s, ct_total, pem_pc, dop);
            match s.user[k] {
                UserVarState::Idle => {
                    &&& exec_step(s, ct_total, dop) == Step::Fetch(None)
                    &&& next.user[k] matches UserVarState::ReadPending(cid)
                    &&& names_slot(s, ct_total, slot, cid)
                    &&& next == (UCoreView { user: next.user, ..s })
                },
                UserVarState::Received(pld) => {
                    &&& exec_step(s, ct_total, dop) matches Step::Fetch(Some(req))
                    &&& req.mode == VarMode::User { iid, flag }
                    &&& req.from == (pld.from_hid, pld.slot->0)
                    &&& req.to.0 == NodeId(s.node_id)
                    &&& names_slot(s, ct_total, slot, req.to.1)
                    &&& next.user[k] == UserVarState::DmaPending(pem_pc)
                    &&& next == (UCoreView { user: next.user, ..s })
                },
                _ => next == s && exec_step(s, ct_total, dop) == Step::Fetch(None),
            }
        },
{
    let iid = s.cur_iop->0.dst[0].iid;
    assert(user_index(iid, flag) == iid.0 * 64 + flag.0);
    let dop = DOp::NOTIFY { hid, flag, slot };
    if exec_ok(s, ct_total, dop) {
        let next = exec_state(s, ct_total, pem_pc, dop);
        assert(next.pdg_notify.drop_last() =~= s.pdg_notify);
    }
}

/// What can be translated: an instruction on registers always, and one with a template where
/// the operation has the operand that it names.
pub proof fn firmware_is_translatable(s: UCoreView, ct_total: int, dop: DOp)
    requires
        s.cur_iop is Some,
    ensures
        !(dop is LD || dop is ST || dop is ADDS || dop is SUBS || dop is SSUB || dop is MULS
            || dop is NOTIFY || dop is LD_B2B) ==> exec_ok(s, ct_total, dop),
        match dop {
            DOp::ADDS { cst, .. } => imm_known(s, cst) ==> exec_ok(s, ct_total, dop),
            DOp::SUBS { cst, .. } => imm_known(s, cst) ==> exec_ok(s, ct_total, dop),
            DOp::SSUB { cst, .. } => imm_known(s, cst) ==> exec_ok(s, ct_total, dop),
            DOp::MULS { cst, .. } => imm_known(s, cst) ==> exec_ok(s, ct_total, dop),
            DOp::LD { src, .. } => mem_known(s, ct_total, src) ==> exec_ok(s, ct_total, dop),
            DOp::ST { dst, .. } => mem_known(s, ct_total, dst) ==> exec_ok(s, ct_total, dop),
            DOp::NOTIFY { slot, .. } => (slot is Io || slot is Heap) && mem_known(
                s,
                ct_total,
                slot,
            ) ==> exec_ok(s, ct_total, dop),
            _ => true,
        },
{
}

/// A template immediate is one of the operation.
pub open spec fn imm_known(s: UCoreView, cst: PtArg) -> bool {
    cst matches PtArg::Var { tid, .. } ==> tid < s.cur_iop->0.imm.len()
}

/// A memory operand is on the board, and the operation has the operand that it names. A slot is
/// free where a block has to be received or sent.
pub open spec fn mem_known(s: UCoreView, ct_total: int, mem: CtMem) -> bool {
    match mem {
        CtMem::Io(_) => true,
        CtMem::Heap { bid } => bid < ct_total <= 0x1_0000,
        CtMem::Src { tid, bid } => {
            let ops = s.cur_iop->0.src;
            &&& tid < ops.len()
            &&& ops[tid as int].base_cid.0 + bid <= u16::MAX
            &&& ops[tid as int].pos.0 == s.node_id || tid < 64 && bid < 64 && s.free.len() > 0
        },
        CtMem::Dst { tid, bid } => {
            let ops = s.cur_iop->0.dst;
            &&& tid < ops.len() && tid < 64 && bid < 64
            &&& ops[tid as int].base_cid.0 + bid <= u16::MAX
            &&& s.free.len() > 0 && s.dst_notifyq.len() > 0
        },
    }
}

/// The slots of the user, those of the pool and those of the heap are apart: a block of the
/// heap is above the slots of the user and of the pool, and two blocks have two slots.
pub proof fn heap_is_apart(
    params: UCoreParams,
    s: UCoreView,
    reg: CtReg,
    a: u16,
    b: u16,
    x: CtId,
    y: CtId,
)
    requires
        params.ct_total() <= 0x1_0000,
        a < params.ct_heap,
        b < params.ct_heap,
        s.cur_iop is Some,
        exec_step(s, params.ct_total(), DOp::LD { dst: reg, src: CtMem::Heap { bid: a } })
            == Step::Defer(DOp::LD { dst: reg, src: CtMem::Io(x) }),
        exec_step(s, params.ct_total(), DOp::LD { dst: reg, src: CtMem::Heap { bid: b } })
            == Step::Defer(DOp::LD { dst: reg, src: CtMem::Io(y) }),
    ensures
        params.ct_user + params.ct_b2b <= x.0 < params.ct_user + params.ct_b2b + params.ct_heap,
        a != b ==> x != y,
        x.0 - y.0 == b - a,
{
}

/// Two blocks of sources share no place in the store, and every place is inside it.
pub proof fn places_of_sources(vars: (u8, u8), blks: (u8, u8))
    requires
        vars.0 < 64,
        vars.1 < 64,
        blks.0 < 64,
        blks.1 < 64,
    ensures
        0 <= src_index(vars.0, blks.0) < 4096,
        src_index(vars.0, blks.0) == src_index(vars.1, blks.1) ==> vars.0 == vars.1 && blks.0
            == blks.1,
{
}

/// Firmware is decoded word by word, in order, and as a whole: it is refused as soon as one of
/// its words is.
pub proof fn firmware_is_decoded_word_by_word(words: Seq<u32>, more: Seq<u32>)
    ensures
        decode_all(words) matches Some(dops) ==> dops.len() == words.len() && forall|i: int|
            0 <= i < words.len() ==> Some(#[trigger] dops[i]) == decode(words[i]),
        decode_all(words) is None ==> exists|i: int|
            0 <= i < words.len() && decode(#[trigger] words[i]) is None,
        match (decode_all(words), decode_all(more)) {
            (Some(a), Some(b)) => decode_all(words + more) == Some(a + b),
            _ => decode_all(words + more) is None,
        },
{
    let all = words + more;
    assert forall|i: int| 0 <= i < words.len() implies all[i] == words[i] by {}
    assert forall|i: int| 0 <= i < more.len() implies all[words.len() + i] == more[i] by {}
    if let (Some(a), Some(b)) = (decode_all(words), decode_all(more)) {
        assert forall|i: int| 0 <= i < all.len() implies decode(#[trigger] all[i]) is Some by {
            if i >= words.len() {
                assert(all[i] == more[i - words.len()]);
            }
        }
        assert(decode_all(all)->0 =~= a + b);
    } else if decode_all(words) is None {
        let i = choose|i: int| 0 <= i < words.len() && decode(#[trigger] words[i]) is None;
        assert(decode(all[i]) is None);
    } else {
        let i = choose|i: int| 0 <= i < more.len() && decode(#[trigger] more[i]) is None;
        assert(decode(all[words.len() + i]) is None);
    }
}

/// The firmware entry of an operation tells its width, its operation code and its node apart:
/// each is read back from it. Operations of dynamic width share the entries that follow the
/// first one.
pub proof fn firmware_entries_differ(iop: IOpView, hid: u8)
    requires
        hid < 8,
    ensures
        ({
            let entry = iop.fw_entry(hid);
            let first = if iop.dynamic {
                entry - 1
            } else {
                entry
            };
            &&& first % 8 == hid
            &&& (first / 8) % 256 == iop.opcode
            &&& !iop.dynamic ==> first / 0x800 == iop.blk_width
            &&& iop.dynamic ==> 0 <= first < 0x800
        }),
{
    let width = if iop.dynamic {
        0
    } else {
        iop.blk_width as int
    };
    let rest = width * 256 + iop.opcode;
    lemma_fundamental_div_mod_converse(width * 256 + iop.opcode, 256, width, iop.opcode as int);
    lemma_fundamental_div_mod_converse(rest * 8 + hid, 8, rest, hid as int);
    lemma_fundamental_div_mod_converse(
        width * 0x800 + (8 * iop.opcode + hid),
        0x800,
        width,
        8 * iop.opcode + hid,
    );
}

/// Consecutive words of a queue are four bytes apart, from the first byte of its data on, and
/// the first word follows the last one.
pub proof fn queue_words_follow_each_other(q: QueueConfig, offset: usize, pos: u32)
    requires
        q.ok(),
        q.size_w > 0,
        q.mem == (MemKind::Ddr { offset }),
        pos < u32::MAX,
    ensures
        q.word_addr(0) == offset + q.data_ofst,
        offset + q.data_ofst <= q.word_addr(pos),
        q.word_addr(pos) + 4 <= offset + q.data_ofst + q.size_w * 4,
        q.word_addr((pos + 1) as u32) == q.word_addr(pos) + 4 || q.word_addr((pos + 1) as u32)
            == q.word_addr(0) && q.word_addr(pos) + 4 == offset + q.data_ofst + q.size_w * 4,
        q.word_addr(pos) == q.word_addr(0) + 4 * (pos as int % q.size_w as int),
{
    let size = q.size_w as int;
    vstd::arithmetic::div_mod::lemma_mod_bound(pos as int, size);
    vstd::arithmetic::div_mod::lemma_small_mod(0, size as nat);
    vstd::arithmetic::div_mod::lemma_fundamental_div_mod(pos as int, size);
    let (d, r) = (pos as int / size, pos as int % size);
    if r + 1 < size {
        assert(d * size == size * d) by (nonlinear_arith);
        lemma_fundamental_div_mod_converse(pos + 1, size, d, r + 1);
    } else {
        assert((d + 1) * size == size * d + size) by (nonlinear_arith);
        lemma_fundamental_div_mod_converse(pos + 1, size, d + 1, 0);
    }
}

/// The start of an operation makes it the one under translation, with nothing fetched yet, the
/// last one in progress, and no block to signal. Its destinations belong to the nodes that its
/// operands name.
pub proof fn start_opens_the_operation(s: UCoreView, iop: IOpView, var: int)
    requires
        s.wf(),
        iop.wf(),
        0 <= var < 64,
    ensures
        ({
            let t = start_state(s, iop);
            let iid = iop.dst[0].iid;
            &&& t.cur_iop == Some(iop) && t.cur_iid == iid
            &&& t.iop_pdg == s.iop_pdg.push(iop)
            &&& t.dst_notifyq == s.dst_notifyq.push(Seq::empty())
            &&& forall|k: int| 0 <= k < 4096 ==> #[trigger] t.src[k] == SrcVarState::Idle
            &&& var < iop.dst.len() ==> t.owner[iid.0 * 64 + var] == iop.dst[var].pos
            &&& t.node_id == s.node_id && t.iop_state == s.iop_state
            &&& t.pdg_req == s.pdg_req && t.pdg_notify == s.pdg_notify
            &&& t.iop_stream == s.iop_stream
        }),
{
}

/// An identifier that grows keeps what is known of the other operations; one that does not
/// drops it all, as the host has restarted.
pub proof fn restart_drops_the_past(
    s: UCoreView,
    iop: IOpView,
    other: IOpId,
    var: int,
    blk: int,
    k: int,
)
    requires
        s.wf(),
        iop.wf(),
        0 <= var < 64,
        0 <= blk < 64,
        0 <= k < 16384,
        iop.dst.len() <= 64,
        other != iop.dst[0].iid,
    ensures
        ({
            let t = start_state(s, iop);
            let v = other.0 * 64 + var;
            if s.cur_iid.0 < iop.dst[0].iid.0 {
                &&& t.free == s.free && t.lent == s.lent && t.user == s.user
                &&& t.owner[v] == s.owner[v]
                &&& t.dst[v * 64 + blk] == s.dst[v * 64 + blk]
            } else {
                &&& t.user[k] == UserVarState::Idle
                &&& forall|i: int| 0 <= i < 256 ==> (#[trigger] t.lent[i]).len() == 0
                &&& t.owner[v] == NodeId(super::store::NO_OWNER)
                &&& t.dst[v * 64 + blk] == DstVarState::WaitNotify
            }
        }),
{
    let v = other.0 * 64 + var;
    let iid = iop.dst[0].iid;
    lemma_fundamental_div_mod_converse(v * 64 + blk, 64, v, blk);
    assert(0 <= v < 16384);
    assert(!(0 <= v - iid.0 * 64 < 64));
}

/// The barrier that ends an operation carries its identifier, and is no inner barrier: the
/// acknowledgement of one is told from that of the other.
pub proof fn closing_barrier_names_its_operation(iid: IOpId)
    ensures
        end_sync(iid) matches DOp::SYNC { is_inner, iid: id, .. } && !is_inner && id == iid,
{
}

/// The messages at the end of an operation say where they come from, and carry no slot.
pub proof fn done_messages_name_their_sender(
    nodes: Seq<u8>,
    hid: NodeId,
    iid: IOpId,
    iop_nodes: u8,
    n: int,
    i: int,
)
    requires
        0 <= n <= nodes.len(),
        0 <= i < done_pkts(nodes, hid, iid, iop_nodes, n).len(),
    ensures
        ({
            let pkt = done_pkts(nodes, hid, iid, iop_nodes, n)[i];
            &&& pkt.from == hid
            &&& pkt.to.0 != hid.0
            &&& pkt.payload == UcorePayload {
                mode: UcorePayloadMode::IOpDone(iop_nodes),
                slot: None,
                from_hid: hid,
                iid,
            }
        }),
    decreases n,
{
    if n > 0 {
        let before = done_pkts(nodes, hid, iid, iop_nodes, n - 1);
        if i < before.len() {
            done_messages_name_their_sender(nodes, hid, iid, iop_nodes, n - 1, i);
        }
    }
}

/// The message that signals a block goes to the owner of the block, names the block and the
/// slot that its owner wants it in, and carries the slot of this node that holds it.
pub proof fn block_message_names_its_block(node_id: u8, iid: IOpId, order: DstNotifyOrder)
    ensures
        ({
            let pkt = dst_pkt(node_id, iid, order);
            &&& pkt.from.0 == node_id && pkt.payload.from_hid.0 == node_id
            &&& pkt.to == order.trgt_hid
            &&& pkt.payload.iid == iid
            &&& pkt.payload.slot == Some(order.local_cid)
            &&& pkt.payload.mode matches UcorePayloadMode::Ucore(flag)
            &&& flag.tid == order.var && flag.bid == order.blk && flag.trgt_cid == order.trgt_cid
        }),
{
}

/// The table of the firmware follows the sixty-four words that precede it, of four bytes each.
pub proof fn firmware_table_follows_its_header(params: UCoreParams, offset: usize)
    requires
        params.fw_pc == (MemKind::Ddr { offset }),
    ensures
        params.fw_lut_base() == offset + FW_RUNTIME_MAX_WORD * 4,
        FW_RUNTIME_MAX_WORD == 64,
{
}

/// Stages of the end of an operation, in their order.
pub open spec fn stage(t: TeardownView) -> int {
    match t {
        TeardownView::Signal => 0,
        TeardownView::List => 1,
        TeardownView::Await { .. } => 2,
        TeardownView::Told => 3,
        TeardownView::Over => 4,
    }
}

/// The end of an operation goes through its stages one by one: its blocks are signalled, those
/// that this node owns are listed and awaited one after the other, the other nodes are told, and
/// the operation is removed, with its slots given back. Nothing else changes the state.
pub proof fn end_goes_through_its_stages(s: UCoreView, e: Ending, t: TeardownView)
    requires
        s.wf(),
        teardown_ok(s, e, t),
    ensures
        ({
            let next = teardown_next(s, e, t);
            let after = teardown_step_state(s, e, t);
            &&& stage(next) == stage(t) || stage(next) == stage(t) + 1
            &&& t is Signal || t is List || t is Told ==> stage(next) == stage(t) + 1
            &&& t matches TeardownView::Await { keys, pos } ==> after == s && match next {
                TeardownView::Await { keys: same, pos: p } => same == keys && pos <= p <= pos + 1
                    && pos < keys.len(),
                _ => pos == keys.len(),
            }
            &&& t is Signal ==> after == (UCoreView {
                dst_notifyq: s.dst_notifyq.drop_first(),
                ..s
            })
            &&& t is List ==> after == s && (next matches TeardownView::Await { pos, .. } && pos
                == 0)
            &&& t is Told ==> {
                &&& after.iop_pdg == s.iop_pdg.drop_first()
                &&& after.free == s.free + s.lent[e.iid.0 as int]
                &&& after.lent[e.iid.0 as int].len() == 0
                &&& after.iop_state[e.iid.0 as int] + 1 == (if s.iop_state[e.iid.0 as int] == 0 {
                    e.iop_nodes as int
                } else {
                    s.iop_state[e.iid.0 as int] as int
                })
                &&& after.cur_iop == s.cur_iop && after.src == s.src && after.user == s.user
                &&& after.pdg_req == s.pdg_req && after.pdg_notify == s.pdg_notify
                &&& after.dst_notifyq == s.dst_notifyq && after.iop_stream == s.iop_stream
            }
            &&& t is Over ==> after == s && next is Over
        }),
{
}

/// A step that waits for a synchronisation goes on once its data is here, and not before.
pub proof fn waits_end_with_their_data(
    s: UCoreView,
    ct_total: int,
    t: TranslationView,
    iid: IOpId,
    flag: UserFlag,
)
    requires
        translate_ok(s, ct_total, t),
        t.held == Some((VarMode::User { iid, flag }, None::<DOp>)),
    ensures
        ({
            let here = s.user[user_index(iid, flag)] is Resolved;
            &&& here ==> translate_action(s, ct_total, t) == Progress::Continue && translate_next(
                s,
                ct_total,
                t,
            ).held is None
            &&& !here ==> translate_action(s, ct_total, t) == Progress::Hang(
                VarMode::User { iid, flag },
            ) && translate_next(s, ct_total, t) == t
        }),
{
}

/// What a node can receive: a message of a synchronisation that is not known yet or that a load
/// waits for, the signal of a block that is still missing, and the end of an operation by one of
/// its nodes. A synchronisation or a block that was signalled is not signalled again.
pub proof fn what_can_be_received(s: UCoreView, pld: UcorePayload)
    requires
        s.wf(),
    ensures
        match pld.mode {
            UcorePayloadMode::User(flag) => {
                let state = s.user[user_index(pld.iid, flag)];
                &&& flag.0 < 64 && pld.slot is Some && (state == UserVarState::Idle
                    || state is ReadPending) ==> notify_ok(s, pld)
                &&& notify_ok(s, pld) ==> flag.0 < 64 && (state == UserVarState::Idle
                    || state is ReadPending)
            },
            UcorePayloadMode::Ucore(flag) => {
                let state = s.dst[dst_blk_index(pld.iid, flag.tid, flag.bid)];
                notify_ok(s, pld) <==> flag.tid < 64 && flag.bid < 64 && state
                    == DstVarState::WaitNotify && pld.slot is Some
            },
            UcorePayloadMode::IOpDone(iop_nodes) => {
                let count = s.iop_state[pld.iid.0 as int];
                &&& notify_ok(s, pld) ==> count > 0 || iop_nodes > 0
                &&& count > 1 || count == 0 && iop_nodes > 1 ==> notify_ok(s, pld)
                &&& (count > 0 || iop_nodes > 0) && s.operands().len() <= 64 && (forall|i: int|
                    0 <= i < s.operands().len() ==> (#[trigger] s.operands()[i]).block < 64
                        && s.operands()[i].base_cid.0 + s.operands()[i].block <= u16::MAX)
                    ==> notify_ok(s, pld)
            },
        },
{
}

/// The signal of a block has it fetched, and is remembered as such; no other block is touched.
pub proof fn signalled_block_is_fetched(
    s: UCoreView,
    pem_pc: usize,
    pld: UcorePayload,
    flag: UcoreFlag,
    k: int,
)
    requires
        s.wf(),
        pld.mode == UcorePayloadMode::Ucore(flag),
        notify_ok(s, pld),
        0 <= k < 1048576,
    ensures
        ({
            let at = dst_blk_index(pld.iid, flag.tid, flag.bid);
            let next = notify_state(s, pem_pc, pld);
            &&& next == (UCoreView { dst: next.dst, ..s })
            &&& next.dst[at] == DstVarState::DmaPending(pem_pc)
            &&& k != at ==> next.dst[k] == s.dst[k]
            &&& notify_reqs(s, pld) == seq![
                DmaReq {
                    mode: VarMode::ArgDst { iid: pld.iid, var: flag.tid, blk: flag.bid },
                    from: (pld.from_hid, pld.slot->0),
                    to: (NodeId(s.node_id), flag.trgt_cid),
                },
            ]
        }),
{
    assert(dst_blk_index(pld.iid, flag.tid, flag.bid) == (pld.iid.0 * 64 + flag.tid) * 64
        + flag.bid);
}

/// A load from another node can be registered where there is room for what it receives.
pub proof fn what_can_be_loaded(
    s: UCoreView,
    iid: IOpId,
    flag: UserFlag,
    var: u8,
    blk: u8,
    dst: Option<CtId>,
)
    requires
        s.wf(),
        dst is Some || s.free.len() > 0,
    ensures
        flag.0 < 64 && (s.user[user_index(iid, flag)] matches UserVarState::Received(pld)
            ==> pld.slot is Some) ==> ld_ok(s, VarMode::User { iid, flag }, dst),
        var < 64 && blk < 64 && var < s.operands().len() && s.operands()[var as int].base_cid.0 + blk
            <= u16::MAX ==> ld_ok(s, VarMode::ArgSrc { var, blk }, dst),
{
}

/// The end of an operation signals each block that it has produced for another node to this
/// node, with the slot that holds it, then tells the other nodes, then reports the oldest
/// operation.
pub proof fn end_sends_its_messages(
    s: UCoreView,
    nodes: Seq<u8>,
    e: Ending,
    t: TeardownView,
    action: TeardownAction,
    i: int,
)
    requires
        teardown_asks(s, nodes, e, t, action),
    ensures
        t is Signal ==> {
            &&& action matches TeardownAction::Send(pkts)
            &&& pkts@.len() == s.dst_notifyq[0].len()
            &&& 0 <= i < pkts@.len() ==> {
                let order = s.dst_notifyq[0][i];
                &&& pkts@[i].to == order.trgt_hid && pkts@[i].from == NodeId(s.node_id)
                &&& pkts@[i].payload.slot == Some(order.local_cid)
                &&& pkts@[i].payload.iid == e.iid
                &&& pkts@[i].payload.mode == UcorePayloadMode::Ucore(
                    UcoreFlag { tid: order.var, bid: order.blk, trgt_cid: order.trgt_cid },
                )
            }
        },
        t matches TeardownView::Await { keys, pos } ==> (pos >= keys.len() <==> action is Send),
        t is Told ==> (action matches TeardownAction::Report(iop) && iop@ == s.iop_pdg[0]),
        t is Over <==> action is Over,
{
}

} // verus!
