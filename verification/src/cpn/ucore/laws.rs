//! Laws of the micro-core: what holds across several events.
use vstd::prelude::*;

use super::flow::{
    teardown_next, teardown_ok, teardown_step_state, translate_action, translate_next,
    translate_ok, translate_state, Ending, Progress, TeardownView, TranslationView,
};
use super::model::{
    dma_count, dma_ends, dma_ok, dma_state, done_pkts, dst_pkt, end_sync, exec_ok, exec_state,
    exec_step, imm_patched, is_resolved, ld_ok, ld_req, ld_state, mem_of, mode_ok, notify_ok,
    notify_reqs, notify_state, owned_keys, raw_slot, reads_served, resolved_in, sources_ok, src_served,
    src_slot, start_state, teardown_state, waiting_blocks, with_imm, with_slot, DmaReq, Step,
    UCoreView, VarMode,
};
use super::pool::{all_slots, lend_keeps_slots, release_all_keeps_slots, release_keeps_slots};
use super::store::{
    blocks_after_init, blocks_after_reset, blocks_from, dst_blk_index, dst_describable, dst_key_ok,
    dst_var_index, owned_blocks, owners_after_init, owners_after_reset, src_index, src_key_ok,
    used_blocks, user_index, user_key_ok, DstVarState, SrcVarState, UserVarState, NO_OWNER,
};
use crate::cpn::insn::{
    CtId, CtMem, CtReg, DOp, IOpId, NodeId, PtArg, UcorePayload, UcorePayloadMode, UserFlag,
};
use crate::cpn::iop::{IOpView, Operand};

verus! {

/// An explicit transfer does not depend on which comes first, the load or the
/// message of the other node: the same transfer is started and the same state is
/// reached.
pub proof fn load_and_notify_commute(
    s: UCoreView,
    pem_pc: usize,
    pld: UcorePayload,
    flag: UserFlag,
    dst: Option<CtId>,
)
    requires
        s.wf(),
        user_key_ok(flag),
        pld.mode == UcorePayloadMode::User(flag),
        pld.slot is Some,
        s.user[user_index(pld.iid, flag)] == UserVarState::Idle,
        dst is Some || s.free.len() > 0,
    ensures
        ({
            let mode = VarMode::User { iid: pld.iid, flag };
            let loaded = ld_state(s, pem_pc, mode, dst);
            let notified = notify_state(s, pem_pc, pld);
            &&& ld_ok(s, mode, dst) && notify_ok(loaded, pld)
            &&& notify_ok(s, pld) && ld_ok(notified, mode, dst)
            &&& notify_state(loaded, pem_pc, pld) == ld_state(notified, pem_pc, mode, dst)
            &&& ld_req(s, mode, dst) is None && notify_reqs(s, pld).len() == 0
            &&& ld_req(notified, mode, dst) matches Some(req)
            &&& notify_reqs(loaded, pld) == seq![req]
        }),
{
    let mode = VarMode::User { iid: pld.iid, flag };
    let loaded = ld_state(s, pem_pc, mode, dst);
    let notified = notify_state(s, pem_pc, pld);
    assert(notify_state(loaded, pem_pc, pld) =~= ld_state(notified, pem_pc, mode, dst));
}

/// State after `k` responses of the transfer engine.
pub open spec fn after_responses(s: UCoreView, k: nat) -> UCoreView
    decreases k,
{
    if k == 0 {
        s
    } else {
        dma_state(after_responses(s, (k - 1) as nat))
    }
}

/// A transfer split in `n` parts is resolved by the `n`-th response and not
/// before, in the slot registered with it.
pub proof fn transfer_resolved_by_last_response(s: UCoreView, n: usize, k: nat)
    requires
        s.wf(),
        s.pdg_req.len() > 0,
        mode_ok(s.pdg_req[0].0),
        dma_count(s, s.pdg_req[0].0) == Some(n),
        1 <= n,
        k <= n,
    ensures
        ({
            let (mode, cid) = s.pdg_req[0];
            let t = after_responses(s, k);
            &&& t.wf()
            &&& k < n ==> {
                &&& dma_ok(t) && t.pdg_req == s.pdg_req
                &&& dma_count(t, mode) == Some((n - k) as usize)
                &&& dma_ends(t) <==> k + 1 == n
                &&& !is_resolved(t, mode)
            }
            &&& k == n ==> {
                &&& t.pdg_req == s.pdg_req.drop_first()
                &&& is_resolved(t, mode)
                &&& !(mode is ArgDst) ==> resolved_in(t, mode) == Some(cid)
            }
        }),
    decreases k,
{
    if k > 0 {
        transfer_resolved_by_last_response(s, n, (k - 1) as nat);
    }
}

/// An instruction left with no template: its memory operand is a slot, its immediate is a
/// constant, and it is not one of the micro-core.
pub open spec fn resolved(dop: DOp) -> bool {
    &&& !(dop is NOTIFY || dop is WAIT || dop is LD_B2B)
    &&& mem_of(dop) matches Some(slot) ==> slot is Io
    &&& match dop {
        DOp::MAC { cst, .. } => cst is Const,
        DOp::ADDS { cst, .. } => cst is Const,
        DOp::SUBS { cst, .. } => cst is Const,
        DOp::SSUB { cst, .. } => cst is Const,
        DOp::MULS { cst, .. } => cst is Const,
        _ => true,
    }
}

/// Every instruction deferred to the computation core is left with no template. The factor
/// of a MAC is the one operand that has none to start with. Its registers and its tables are
/// those of the firmware.
pub proof fn deferred_is_resolved(s: UCoreView, ct_total: int, dop: DOp)
    requires
        exec_ok(s, ct_total, dop),
        dop matches DOp::MAC { cst, .. } ==> cst is Const,
    ensures
        match exec_step(s, ct_total, dop) {
            Step::Defer(out) => resolved(out),
            Step::FetchThenDefer { dop: out, .. } => forall|cid: CtId|
                resolved(#[trigger] with_slot(out, cid)),
            Step::Wait(_) => dop is WAIT,
            Step::Fetch(_) => dop is LD_B2B,
        },
{
}

/// Slots of the pool, free or lent.
pub open spec fn pool_slots(s: UCoreView) -> vstd::multiset::Multiset<CtId> {
    all_slots(s.free, s.lent)
}

/// The translation of an instruction neither loses nor duplicates a slot of the pool.
pub proof fn translation_keeps_slots(s: UCoreView, ct_total: int, pem_pc: usize, dop: DOp)
    requires
        s.wf(),
        exec_ok(s, ct_total, dop),
    ensures
        pool_slots(exec_state(s, ct_total, pem_pc, dop)) == pool_slots(s),
{
    if s.free.len() > 0 {
        lend_keeps_slots(s.free, s.lent, s.cur_iid.0 as int);
        lend_keeps_slots(s.free, s.lent, s.cur_iop->0.iid().0 as int);
    }
}

/// The end of an operation gives back its slots, and the pool is otherwise unchanged.
pub proof fn teardown_keeps_slots(s: UCoreView, iid: IOpId, iop_nodes: u8)
    requires
        s.wf(),
    ensures
        pool_slots(teardown_state(s, iid, iop_nodes)) == pool_slots(s),
        teardown_state(s, iid, iop_nodes).lent[iid.0 as int].len() == 0,
{
    release_keeps_slots(s.free, s.lent, iid.0 as int);
}

/// The start of an operation keeps the slots of the pool, also where the host has
/// restarted and all of them are taken back.
pub proof fn start_keeps_slots(s: UCoreView, iop: IOpView)
    requires
        s.wf(),
    ensures
        pool_slots(start_state(s, iop)) == pool_slots(s),
{
    release_all_keeps_slots(s.free, s.lent);
}

/// Blocks of a destination that are in use once its operation is described: those
/// of the operand, as far as the store has room for them.
pub proof fn described_blocks(
    store: Seq<DstVarState>,
    iid: IOpId,
    dst: Seq<Operand>,
    var: int,
    b: int,
)
    requires
        store.len() == 1048576,
        dst_describable(dst),
        0 <= var < dst.len(),
        0 <= b <= 64,
        b <= dst[var].block + 1,
        forall|k: int|
            dst_var_index(iid, var) * 64 <= k < dst_var_index(iid, var) * 64 + 64 ==> store[k]
                != DstVarState::Unused,
    ensures
        used_blocks(blocks_after_init(store, iid, dst), dst_var_index(iid, var) * 64, b) == (if dst[var].block
            < 64 {
            dst[var].block + 1
        } else {
            64
        }),
    decreases 64 - b,
{
    let base = dst_var_index(iid, var) * 64;
    let new = blocks_after_init(store, iid, dst);
    if b < 64 {
        assert((base + b) / 64 == dst_var_index(iid, var));
        assert((base + b) % 64 == b);
        assert(new[base + b] == (if b > dst[var].block {
            DstVarState::Unused
        } else {
            store[base + b]
        }));
        if b <= dst[var].block {
            described_blocks(store, iid, dst, var, b + 1);
        }
    }
}

/// Blocks of the first `n` destinations of an operation that node `hid` holds, operand by
/// operand and each from its first block, as far as the store has room for them.
pub open spec fn held_blocks(dst: Seq<Operand>, hid: NodeId, n: int) -> Seq<(u8, u8)>
    decreases n,
{
    if n <= 0 {
        Seq::empty()
    } else {
        let var = n - 1;
        let len: nat = if dst[var].block < 64 {
            (dst[var].block + 1) as nat
        } else {
            64
        };
        let blocks = if dst[var].pos == hid {
            Seq::new(len, |b: int| (var as u8, b as u8))
        } else {
            Seq::empty()
        };
        held_blocks(dst, hid, n - 1) + blocks
    }
}

/// Once an operation has been forgotten and is described anew, the blocks of it that a node
/// owns are those of the operands placed on the node, in the order of the operands and of
/// their blocks.
pub proof fn described_is_owned(
    owner: Seq<NodeId>,
    store: Seq<DstVarState>,
    iid: IOpId,
    dst: Seq<Operand>,
    hid: NodeId,
)
    requires
        owner.len() == 16384,
        store.len() == 1048576,
        dst_describable(dst),
        hid != NodeId(NO_OWNER),
    ensures
        owned_blocks(
            owners_after_init(owners_after_reset(owner, iid), iid, dst),
            blocks_after_init(blocks_after_reset(store, iid), iid, dst),
            iid,
            hid,
            64,
        ) == held_blocks(dst, hid, dst.len() as int),
{
    lemma_described_is_owned(owner, store, iid, dst, hid, 64);
}

proof fn lemma_described_is_owned(
    owner: Seq<NodeId>,
    store: Seq<DstVarState>,
    iid: IOpId,
    dst: Seq<Operand>,
    hid: NodeId,
    n: int,
)
    requires
        owner.len() == 16384,
        store.len() == 1048576,
        dst_describable(dst),
        hid != NodeId(NO_OWNER),
        0 <= n <= 64,
    ensures
        owned_blocks(
            owners_after_init(owners_after_reset(owner, iid), iid, dst),
            blocks_after_init(blocks_after_reset(store, iid), iid, dst),
            iid,
            hid,
            n,
        ) == held_blocks(
            dst,
            hid,
            if n < dst.len() {
                n
            } else {
                dst.len() as int
            },
        ),
    decreases n,
{
    if n > 0 {
        let var = n - 1;
        let owners = owners_after_init(owners_after_reset(owner, iid), iid, dst);
        let cleared = blocks_after_reset(store, iid);
        lemma_described_is_owned(owner, store, iid, dst, hid, var);
        if var < dst.len() {
            described_blocks(cleared, iid, dst, var, 0);
            assert(owners[dst_var_index(iid, var)] == dst[var].pos);
        } else {
            assert(owners[dst_var_index(iid, var)] == NodeId(NO_OWNER));
            let all = owned_blocks(owners, blocks_after_init(cleared, iid, dst), iid, hid, n);
            let before = owned_blocks(owners, blocks_after_init(cleared, iid, dst), iid, hid, var);
            assert(all =~= before);
        }
    }
}

/// Two synchronisations share no place in the store, nor do two blocks of destinations.
pub proof fn places_are_distinct(
    iids: (IOpId, IOpId),
    flags: (UserFlag, UserFlag),
    vars: (u8, u8),
    blks: (u8, u8),
)
    requires
        user_key_ok(flags.0),
        user_key_ok(flags.1),
        dst_key_ok(vars.0, blks.0),
        dst_key_ok(vars.1, blks.1),
    ensures
        user_index(iids.0, flags.0) == user_index(iids.1, flags.1) ==> iids.0 == iids.1 && flags.0
            == flags.1,
        dst_blk_index(iids.0, vars.0, blks.0) == dst_blk_index(iids.1, vars.1, blks.1) ==> iids.0
            == iids.1 && vars.0 == vars.1 && blks.0 == blks.1,
{
}

/// A patched immediate is a constant, and a second patch changes nothing, neither of it nor
/// of the instruction, whatever operation it is made with.
pub proof fn patched_once(iop: IOpView, other: IOpView, cst: PtArg, dop: DOp)
    ensures
        imm_patched(iop, cst) is Const,
        cst is Const ==> imm_patched(iop, cst) == cst,
        imm_patched(other, imm_patched(iop, cst)) == imm_patched(iop, cst),
        with_imm(other, with_imm(iop, dop)) == with_imm(iop, dop),
{
}

/// After the end of an operation, no node owns one of its destinations.
pub proof fn teardown_forgets_owners(s: UCoreView, iid: IOpId, iop_nodes: u8, var: int)
    requires
        s.wf(),
        0 <= var < 64,
    ensures
        teardown_state(s, iid, iop_nodes).owner[dst_var_index(iid, var)] == NodeId(NO_OWNER),
{
}

/// What the micro-core knows of an operation is not touched by the end of another one.
pub proof fn teardown_is_local(
    s: UCoreView,
    iid: IOpId,
    iop_nodes: u8,
    other: IOpId,
    var: int,
    blk: int,
)
    requires
        s.wf(),
        other != iid,
        0 <= var < 64,
        0 <= blk < 64,
    ensures
        ({
            let t = teardown_state(s, iid, iop_nodes);
            let v = dst_var_index(other, var);
            &&& t.owner[v] == s.owner[v]
            &&& t.dst[v * 64 + blk] == s.dst[v * 64 + blk]
            &&& t.iop_state[other.0 as int] == s.iop_state[other.0 as int]
            &&& t.lent[other.0 as int] == s.lent[other.0 as int]
        }),
{
}

/// Transfer started for a block of a source operand with a read pending.
spec fn served_req(s: UCoreView, block: (u8, u8)) -> DmaReq {
    DmaReq {
        mode: VarMode::ArgSrc { var: block.0, blk: block.1 },
        from: (s.operands()[block.0 as int].pos, src_slot(s, block.0, block.1)),
        to: (NodeId(s.node_id), s.src[src_index(block.0, block.1)]->ReadPending_0),
    }
}

/// The pending reads of the blocks of a list are started, and nothing else changes.
proof fn lemma_src_served(
    src: Seq<SrcVarState>,
    pem_pc: usize,
    blocks: Seq<(u8, u8)>,
    n: int,
    k: int,
)
    requires
        src.len() == 4096,
        0 <= n <= blocks.len(),
        0 <= k < 4096,
        forall|j: int|
            0 <= j < blocks.len() ==> src_key_ok((#[trigger] blocks[j]).0, blocks[j].1),
    ensures
        src_served(src, pem_pc, blocks, n).len() == 4096,
        src_served(src, pem_pc, blocks, n)[k] == (if src[k] is ReadPending && exists|j: int|
            0 <= j < n && src_index((#[trigger] blocks[j]).0, blocks[j].1) == k {
            SrcVarState::DmaPending(pem_pc)
        } else {
            src[k]
        }),
    decreases n,
{
    if n > 0 {
        lemma_src_served(src, pem_pc, blocks, n - 1, k);
        let b = blocks[n - 1];
        assert(src_key_ok(b.0, b.1));
        if src_index(b.0, b.1) == k {
            assert(src_index(blocks[n - 1].0, blocks[n - 1].1) == k);
        }
    }
}

/// The transfers started are those of the blocks with a read pending.
proof fn lemma_reads_served(s: UCoreView, blocks: Seq<(u8, u8)>, n: int, req: DmaReq)
    requires
        0 <= n <= blocks.len(),
    ensures
        reads_served(s, blocks, n).contains(req) <==> exists|j: int|
            0 <= j < n && s.src[src_index((#[trigger] blocks[j]).0, blocks[j].1)] is ReadPending
                && req == served_req(s, blocks[j]),
    decreases n,
{
    if n > 0 {
        lemma_reads_served(s, blocks, n - 1, req);
        let before = reads_served(s, blocks, n - 1);
        let all = reads_served(s, blocks, n);
        let b = blocks[n - 1];
        if s.src[src_index(b.0, b.1)] is ReadPending {
            let last = served_req(s, b);
            assert(all == before.push(last));
            assert(all[before.len() as int] == last);
            if all.contains(req) {
                let i = choose|i: int| 0 <= i < all.len() && all[i] == req;
                if i < before.len() {
                    assert(before[i] == req);
                } else {
                    assert(req == served_req(s, blocks[n - 1]));
                }
            }
            if before.contains(req) {
                let i = choose|i: int| 0 <= i < before.len() && before[i] == req;
                assert(all[i] == req);
            }
        }
    }
}

/// A block of a source operand produced by an operation is in the list of its blocks,
/// and all the blocks of the list have a position in the store.
proof fn lemma_listed(src: Seq<Operand>, iid: IOpId, n: int, var: u8, blk: u8)
    requires
        0 <= n <= src.len(),
        forall|i: int|
            0 <= i < src.len() ==> (#[trigger] src[i]).iid == iid ==> i < 64 && src[i].block < 64,
    ensures
        forall|j: int|
            0 <= j < blocks_from(src, iid, n).len() ==> src_key_ok(
                (#[trigger] blocks_from(src, iid, n)[j]).0,
                blocks_from(src, iid, n)[j].1,
            ),
        var < n && src[var as int].iid == iid && blk <= src[var as int].block ==> exists|j: int|
            0 <= j < blocks_from(src, iid, n).len() && #[trigger] blocks_from(src, iid, n)[j] == (
                var,
                blk,
            ),
    decreases n,
{
    if n > 0 {
        lemma_listed(src, iid, n - 1, var, blk);
        let before = blocks_from(src, iid, n - 1);
        let all = blocks_from(src, iid, n);
        assert(src[n - 1].iid == iid ==> n - 1 < 64 && src[n - 1].block < 64);
        assert forall|j: int| 0 <= j < all.len() implies src_key_ok(
            (#[trigger] all[j]).0,
            all[j].1,
        ) by {
            if j < before.len() {
                assert(all[j] == before[j]);
                assert(src_key_ok(before[j].0, before[j].1));
            }
        }
        if var < n && src[var as int].iid == iid && blk <= src[var as int].block {
            if var == n - 1 {
                assert(all[before.len() + blk] == (var, blk));
            } else {
                let j = choose|j: int| 0 <= j < before.len() && #[trigger] before[j] == (var, blk);
                assert(all[j] == (var, blk));
            }
        }
    }
}

/// The fetch of a source operand does not depend on which comes first, the load or the
/// end of the operation that produces it, whatever node is the last one to end it: the same
/// transfers are started, and the same state is reached.
pub proof fn source_load_and_done_commute(
    s: UCoreView,
    pem_pc: usize,
    pld: UcorePayload,
    iop_nodes: u8,
    var: u8,
    blk: u8,
    dst: Option<CtId>,
)
    requires
        s.wf(),
        src_key_ok(var, blk),
        var < s.operands().len(),
        s.operands()[var as int].iid == pld.iid,
        blk <= s.operands()[var as int].block,
        s.operands()[var as int].base_cid.0 + blk <= u16::MAX,
        s.src[src_index(var, blk)] == SrcVarState::Idle,
        pld.mode == UcorePayloadMode::IOpDone(iop_nodes),
        s.iop_state[pld.iid.0 as int] == 1,
        sources_ok(s, pld.iid),
        dst is Some || s.free.len() > 0,
    ensures
        ({
            let mode = VarMode::ArgSrc { var, blk };
            let loaded = ld_state(s, pem_pc, mode, dst);
            let ended = notify_state(s, pem_pc, pld);
            &&& ld_ok(s, mode, dst) && notify_ok(loaded, pld)
            &&& notify_ok(s, pld) && ld_ok(ended, mode, dst)
            &&& notify_state(loaded, pem_pc, pld) == ld_state(ended, pem_pc, mode, dst)
            &&& ld_req(s, mode, dst) is None
            &&& ld_req(ended, mode, dst) matches Some(req)
            &&& forall|r: DmaReq|
                notify_reqs(loaded, pld).contains(r) <==> r == req || notify_reqs(s, pld).contains(r)
        }),
{
    let mode = VarMode::ArgSrc { var, blk };
    let iid = pld.iid;
    let loaded = ld_state(s, pem_pc, mode, dst);
    let ended = notify_state(s, pem_pc, pld);
    let ops = s.operands();
    let blocks = waiting_blocks(s, iid);
    let n = blocks.len() as int;
    let idx = src_index(var, blk);
    lemma_listed(ops, iid, ops.len() as int, var, blk);
    assert(loaded.operands() == ops);
    assert(ended.operands() == ops);
    assert(waiting_blocks(loaded, iid) == blocks);
    let here = choose|j: int| 0 <= j < n && #[trigger] blocks[j] == (var, blk);
    assert(src_index(blocks[here].0, blocks[here].1) == idx);
    let a = notify_state(loaded, pem_pc, pld);
    let b = ld_state(ended, pem_pc, mode, dst);
    lemma_src_served(s.src, pem_pc, blocks, n, idx);
    lemma_src_served(loaded.src, pem_pc, blocks, n, idx);
    assert(ended.src[idx] == SrcVarState::Idle);
    assert forall|k: int| 0 <= k < 4096 implies a.src[k] == b.src[k] by {
        lemma_src_served(s.src, pem_pc, blocks, n, k);
        lemma_src_served(loaded.src, pem_pc, blocks, n, k);
    }
    assert(a.src =~= b.src);
    assert(a =~= b);
    assert(sources_ok(loaded, iid)) by {
        assert forall|v: u8, c: u8|
            (v < ops.len() && ops[v as int].iid == iid && c <= ops[v as int].block && (
            #[trigger] loaded.src[src_index(v, c)]) is ReadPending) implies ops[v as int].base_cid.0
            + c <= u16::MAX by {
            assert(ops[v as int].iid == iid);
            if src_index(v, c) == idx {
                assert(v == var && c == blk);
            } else {
                assert(s.src[src_index(v, c)] is ReadPending);
            }
        }
    }
    let req = ld_req(ended, mode, dst)->0;
    assert forall|r: DmaReq|
        notify_reqs(loaded, pld).contains(r) <==> r == req || notify_reqs(s, pld).contains(r) by {
        lemma_reads_served(s, blocks, n, r);
        lemma_reads_served(loaded, blocks, n, r);
        assert(served_req(loaded, blocks[here]) == req);
        assert forall|j: int|
            0 <= j < n && src_index((#[trigger] blocks[j]).0, blocks[j].1) != idx implies served_req(
            loaded,
            blocks[j],
        ) == served_req(s, blocks[j]) by {
            assert(src_key_ok(blocks[j].0, blocks[j].1));
        }
        assert forall|j: int|
            0 <= j < n && src_index((#[trigger] blocks[j]).0, blocks[j].1) == idx implies blocks[j]
            == (var, blk) by {
            assert(src_key_ok(blocks[j].0, blocks[j].1));
        }
    }
}

/// Each message registered for another node goes with one inner barrier, in the same
/// order: an instruction that registers a message defers such a barrier, and no other
/// instruction of an operation does either.
pub proof fn one_barrier_per_notify(s: UCoreView, ct_total: int, pem_pc: usize, dop: DOp)
    requires
        s.wf(),
        exec_ok(s, ct_total, dop),
        !(dop is SYNC),
    ensures
        ({
            let next = exec_state(s, ct_total, pem_pc, dop);
            let deferred = exec_step(s, ct_total, dop);
            let barrier = deferred matches Step::Defer(DOp::SYNC { is_inner: true, .. });
            &&& barrier == (dop is NOTIFY)
            &&& next.pdg_notify.len() == s.pdg_notify.len() + (if barrier {
                1int
            } else {
                0int
            })
            &&& next.pdg_notify.take(s.pdg_notify.len() as int) == s.pdg_notify
        }),
{
    let next = exec_state(s, ct_total, pem_pc, dop);
    assert(next.pdg_notify.take(s.pdg_notify.len() as int) =~= s.pdg_notify);
}

/// What is left of a translation: two units for each instruction, one for a transfer that
/// it waits for, and one for the barrier that ends the operation.
pub open spec fn translation_left(t: TranslationView) -> int {
    2 * (t.dops.len() - t.pos) + (if t.held is Some {
        1int
    } else {
        0
    }) + (if t.closed {
        0int
    } else {
        1
    })
}

/// A translation comes to its end: a step that neither waits nor is the last one leaves
/// less to do, and a step that waits changes nothing.
pub proof fn translation_advances(
    s: UCoreView,
    ct_total: int,
    pem_pc: usize,
    t: TranslationView,
)
    requires
        translate_ok(s, ct_total, t),
    ensures
        ({
            let next = translate_next(s, ct_total, t);
            match translate_action(s, ct_total, t) {
                Progress::Hang(key) => {
                    &&& next == t
                    &&& translate_state(s, ct_total, pem_pc, t) == s
                    &&& t.held matches Some((held, _))
                    &&& held == key
                    &&& !is_resolved(s, key)
                },
                Progress::Over => next == t && translation_left(t) == 0,
                _ => 0 <= translation_left(next) < translation_left(t),
            }
        }),
{
}

/// The barrier that ends an operation is sent after all its instructions, and nothing is
/// sent after it.
pub proof fn closing_barrier_is_last(
    s: UCoreView,
    ct_total: int,
    t: TranslationView,
)
    requires
        translate_ok(s, ct_total, t),
    ensures
        ({
            let next = translate_next(s, ct_total, t);
            let action = translate_action(s, ct_total, t);
            &&& next.closed && !t.closed ==> {
                &&& action == Progress::Send(end_sync(s.cur_iop->0.iid()))
                &&& t.pos == t.dops.len()
                &&& t.held is None
            }
            &&& t.closed ==> action == Progress::Over
            &&& action == Progress::Over ==> t.closed
        }),
{
}

/// Block of a destination that is in its slot.
pub open spec fn in_place(s: UCoreView, key: VarMode) -> bool {
    key is ArgDst && mode_ok(key) && is_resolved(s, key)
}

/// A block of a destination that is in its slot stays there, whatever message, response
/// or instruction comes next.
pub proof fn resolved_block_stays(
    s: UCoreView,
    ct_total: int,
    pem_pc: usize,
    key: VarMode,
    pld: UcorePayload,
    dop: DOp,
)
    requires
        s.wf(),
        in_place(s, key),
    ensures
        notify_ok(s, pld) ==> in_place(notify_state(s, pem_pc, pld), key),
        dma_ok(s) ==> in_place(dma_state(s), key),
        exec_ok(s, ct_total, dop) ==> in_place(exec_state(s, ct_total, pem_pc, dop), key),
{
}

/// The blocks that the end of an operation has seen in their slots are there.
pub open spec fn seen_in_place(s: UCoreView, t: TeardownView) -> bool {
    t matches TeardownView::Await { keys, pos } ==> {
        &&& 0 <= pos <= keys.len()
        &&& forall|i: int| 0 <= i < pos ==> in_place(s, #[trigger] keys[i])
    }
}

/// The other nodes are told of the end of an operation once all the blocks that this node
/// waits for are in their slots, and not before.
pub proof fn told_once_blocks_are_in_place(s: UCoreView, e: Ending, t: TeardownView)
    requires
        s.wf(),
        teardown_ok(s, e, t),
        seen_in_place(s, t),
        t matches TeardownView::Await { keys, .. } ==> forall|i: int|
            0 <= i < keys.len() ==> #[trigger] keys[i] is ArgDst,
    ensures
        seen_in_place(teardown_step_state(s, e, t), teardown_next(s, e, t)),
        teardown_next(s, e, t) is Told ==> {
            &&& t matches TeardownView::Await { keys, .. }
            &&& forall|i: int| 0 <= i < keys.len() ==> in_place(s, #[trigger] keys[i])
        },
{
}

/// What the end of an operation has seen in place stays in place while other events
/// are handled.
pub proof fn seen_blocks_stay(
    s: UCoreView,
    ct_total: int,
    pem_pc: usize,
    t: TeardownView,
    pld: UcorePayload,
    dop: DOp,
)
    requires
        s.wf(),
        seen_in_place(s, t),
    ensures
        notify_ok(s, pld) ==> seen_in_place(notify_state(s, pem_pc, pld), t),
        dma_ok(s) ==> seen_in_place(dma_state(s), t),
        exec_ok(s, ct_total, dop) ==> seen_in_place(exec_state(s, ct_total, pem_pc, dop), t),
{
    if let TeardownView::Await { keys, pos } = t {
        assert forall|i: int| 0 <= i < pos && notify_ok(s, pld) implies in_place(
            notify_state(s, pem_pc, pld),
            #[trigger] keys[i],
        ) by {
            resolved_block_stays(s, ct_total, pem_pc, keys[i], pld, dop);
        }
        assert forall|i: int| 0 <= i < pos && dma_ok(s) implies in_place(
            dma_state(s),
            #[trigger] keys[i],
        ) by {
            resolved_block_stays(s, ct_total, pem_pc, keys[i], pld, dop);
        }
        assert forall|i: int| 0 <= i < pos && exec_ok(s, ct_total, dop) implies in_place(
            exec_state(s, ct_total, pem_pc, dop),
            #[trigger] keys[i],
        ) by {
            resolved_block_stays(s, ct_total, pem_pc, keys[i], pld, dop);
        }
    }
}

/// The end of an operation is told to every other node of the cluster, and to no one
/// else.
pub proof fn done_reaches_the_others(nodes: Seq<u8>, hid: NodeId, iid: IOpId, iop_nodes: u8, n: int)
    requires
        0 <= n <= nodes.len(),
    ensures
        ({
            let pkts = done_pkts(nodes, hid, iid, iop_nodes, n);
            &&& forall|i: int|
                0 <= i < pkts.len() ==> {
                    let pkt = #[trigger] pkts[i];
                    &&& pkt.to != hid && nodes.contains(pkt.to.0)
                    &&& pkt.payload.iid == iid && pkt.payload.mode == UcorePayloadMode::IOpDone(
                        iop_nodes,
                    )
                }
            &&& forall|k: int|
                0 <= k < n && #[trigger] nodes[k] != hid.0 ==> exists|i: int|
                    0 <= i < pkts.len() && (#[trigger] pkts[i]).to == NodeId(nodes[k])
        }),
    decreases n,
{
    if n > 0 {
        done_reaches_the_others(nodes, hid, iid, iop_nodes, n - 1);
        let before = done_pkts(nodes, hid, iid, iop_nodes, n - 1);
        let pkts = done_pkts(nodes, hid, iid, iop_nodes, n);
        assert forall|i: int| 0 <= i < pkts.len() implies {
            let pkt = #[trigger] pkts[i];
            &&& pkt.to != hid && nodes.contains(pkt.to.0)
            &&& pkt.payload.iid == iid && pkt.payload.mode == UcorePayloadMode::IOpDone(iop_nodes)
        } by {
            if i < before.len() {
                assert(pkts[i] == before[i]);
            } else {
                assert(nodes[n - 1] == pkts[i].to.0);
            }
        }
        assert forall|k: int| 0 <= k < n && #[trigger] nodes[k] != hid.0 implies exists|i: int|
            0 <= i < pkts.len() && (#[trigger] pkts[i]).to == NodeId(nodes[k]) by {
            if k < n - 1 {
                let i = choose|i: int|
                    0 <= i < before.len() && (#[trigger] before[i]).to == NodeId(nodes[k]);
                assert(pkts[i] == before[i]);
            } else {
                assert(pkts[before.len() as int].to == NodeId(nodes[k]));
            }
        }
    }
}

/// A block of a destination that another node owns is stored in a slot lent by the pool, and
/// the message that signals it makes its owner fetch it, from that slot to the one that the
/// operand names.
pub proof fn remote_block_reaches_its_owner(
    a: UCoreView,
    b: UCoreView,
    ct_total: int,
    pem_pc: usize,
    src: CtReg,
    tid: u8,
    bid: u8,
)
    requires
        a.wf(),
        exec_ok(a, ct_total, DOp::ST { dst: CtMem::Dst { tid, bid }, src }),
        a.cur_iop->0.dst[tid as int].pos.0 != a.node_id,
        a.cur_iop->0.dst[tid as int].pos.0 == b.node_id,
        dst_key_ok(tid, bid),
        b.dst[dst_blk_index(a.cur_iop->0.iid(), tid, bid)] == DstVarState::WaitNotify,
    ensures
        ({
            let iid = a.cur_iop->0.iid();
            let op = a.cur_iop->0.dst[tid as int];
            let dop = DOp::ST { dst: CtMem::Dst { tid, bid }, src };
            let stored = exec_state(a, ct_total, pem_pc, dop);
            let pkt = dst_pkt(a.node_id, iid, stored.dst_notifyq.last().last());
            let slot = a.free.last();
            &&& exec_step(a, ct_total, dop) == Step::Defer(DOp::ST { dst: CtMem::Io(slot), src })
            &&& stored.free == a.free.drop_last()
            &&& pkt.to == op.pos
            &&& notify_ok(b, pkt.payload)
            &&& notify_reqs(b, pkt.payload) == seq![
                DmaReq {
                    mode: VarMode::ArgDst { iid, var: tid, blk: bid },
                    from: (NodeId(a.node_id), slot),
                    to: (op.pos, CtId((op.base_cid.0 + bid) as u16)),
                },
            ]
        }),
{
}

/// The message of an explicit synchronisation makes the node that waits for it fetch the
/// slot that the instruction names.
pub proof fn notified_slot_is_fetched(
    a: UCoreView,
    b: UCoreView,
    ct_total: int,
    pem_pc: usize,
    hid: NodeId,
    flag: UserFlag,
    slot: CtMem,
    cid: CtId,
)
    requires
        exec_ok(a, ct_total, DOp::NOTIFY { hid, flag, slot }),
        user_key_ok(flag),
        b.user[user_index(a.cur_iop->0.iid(), flag)] == UserVarState::ReadPending(cid),
    ensures
        ({
            let iid = a.cur_iop->0.iid();
            let dop = DOp::NOTIFY { hid, flag, slot };
            let (to, pld) = exec_state(a, ct_total, pem_pc, dop).pdg_notify.last();
            &&& to == hid
            &&& notify_ok(b, pld)
            &&& notify_reqs(b, pld) == seq![
                DmaReq {
                    mode: VarMode::User { iid, flag },
                    from: (NodeId(a.node_id), raw_slot(ct_total, slot)),
                    to: (NodeId(b.node_id), cid),
                },
            ]
        }),
{
}

proof fn lemma_listed_only(src: Seq<Operand>, iid: IOpId, n: int, j: int)
    requires
        0 <= n <= src.len(),
        forall|i: int|
            0 <= i < src.len() ==> (#[trigger] src[i]).iid == iid ==> i < 64 && src[i].block < 64,
        0 <= j < blocks_from(src, iid, n).len(),
    ensures
        ({
            let (var, blk) = blocks_from(src, iid, n)[j];
            &&& var < n
            &&& src[var as int].iid == iid
            &&& blk <= src[var as int].block
        }),
    decreases n,
{
    if n > 0 {
        let before = blocks_from(src, iid, n - 1);
        assert(src[n - 1].iid == iid ==> n - 1 < 64 && src[n - 1].block < 64);
        if j < before.len() {
            lemma_listed_only(src, iid, n - 1, j);
        }
    }
}

/// The last node to end an operation has every block that waits for it fetched, from its slot
/// on the node that stores it, to the slot that waits for it.
pub proof fn done_serves_the_waiting_reads(
    s: UCoreView,
    pem_pc: usize,
    pld: UcorePayload,
    iop_nodes: u8,
    var: u8,
    blk: u8,
    cid: CtId,
)
    requires
        s.wf(),
        pld.mode == UcorePayloadMode::IOpDone(iop_nodes),
        notify_ok(s, pld),
        s.iop_state[pld.iid.0 as int] == 1 || s.iop_state[pld.iid.0 as int] == 0 && iop_nodes == 1,
        s.cur_iop is Some,
        var < s.cur_iop->0.src.len(),
        s.cur_iop->0.src[var as int].iid == pld.iid,
        blk <= s.cur_iop->0.src[var as int].block,
        s.src[src_index(var, blk)] == SrcVarState::ReadPending(cid),
    ensures
        ({
            let op = s.cur_iop->0.src[var as int];
            let next = notify_state(s, pem_pc, pld);
            &&& next.iop_state[pld.iid.0 as int] == 0
            &&& next.src[src_index(var, blk)] == SrcVarState::DmaPending(pem_pc)
            &&& notify_reqs(s, pld).contains(
                DmaReq {
                    mode: VarMode::ArgSrc { var, blk },
                    from: (op.pos, CtId((op.base_cid.0 + blk) as u16)),
                    to: (NodeId(s.node_id), cid),
                },
            )
        }),
{
    let ops = s.operands();
    let blocks = waiting_blocks(s, pld.iid);
    let n = blocks.len() as int;
    assert(ops[var as int].iid == pld.iid);
    lemma_listed(ops, pld.iid, ops.len() as int, var, blk);
    let j = choose|j: int| 0 <= j < n && #[trigger] blocks[j] == (var, blk);
    lemma_src_served(s.src, pem_pc, blocks, n, src_index(var, blk));
    lemma_reads_served(s, blocks, n, served_req(s, (var, blk)));
    assert(src_index(blocks[j].0, blocks[j].1) == src_index(var, blk));
}

/// The end of an operation fetches nothing but the blocks that wait for it, and nothing before
/// the last node has ended it.
pub proof fn done_serves_nothing_else(
    s: UCoreView,
    pem_pc: usize,
    pld: UcorePayload,
    iop_nodes: u8,
    req: DmaReq,
)
    requires
        s.wf(),
        pld.mode == UcorePayloadMode::IOpDone(iop_nodes),
        notify_ok(s, pld),
    ensures
        ({
            let count = s.iop_state[pld.iid.0 as int];
            let next = notify_state(s, pem_pc, pld);
            let last = count == 1 || count == 0 && iop_nodes == 1;
            &&& !last ==> notify_reqs(s, pld).len() == 0 && next.src == s.src
                && next.iop_state[pld.iid.0 as int] + 1 == (if count == 0 {
                iop_nodes as int
            } else {
                count as int
            })
            &&& notify_reqs(s, pld).contains(req) ==> {
                &&& req.mode matches VarMode::ArgSrc { var, blk }
                &&& var < s.operands().len()
                &&& s.operands()[var as int].iid == pld.iid
                &&& blk <= s.operands()[var as int].block
                &&& s.src[src_index(var, blk)] is ReadPending
            }
            &&& next == (UCoreView { iop_state: next.iop_state, src: next.src, ..s })
        }),
{
    let ops = s.operands();
    let blocks = waiting_blocks(s, pld.iid);
    let n = blocks.len() as int;
    let count = s.iop_state[pld.iid.0 as int];
    if (count == 1 || count == 0 && iop_nodes == 1) && notify_reqs(s, pld).contains(req) {
        lemma_reads_served(s, blocks, n, req);
        let j = choose|j: int|
            0 <= j < n && s.src[src_index((#[trigger] blocks[j]).0, blocks[j].1)] is ReadPending
                && req == served_req(s, blocks[j]);
        lemma_listed_only(ops, pld.iid, ops.len() as int, j);
    }
}

/// A message is kept until its load comes, and a load that came before it starts the transfer;
/// no other synchronisation is touched.
pub proof fn message_is_kept_or_served(
    s: UCoreView,
    pem_pc: usize,
    pld: UcorePayload,
    flag: UserFlag,
    k: int,
)
    requires
        s.wf(),
        pld.mode == UcorePayloadMode::User(flag),
        notify_ok(s, pld),
        0 <= k < 16384,
    ensures
        ({
            let at = user_index(pld.iid, flag);
            let next = notify_state(s, pem_pc, pld);
            &&& next == (UCoreView { user: next.user, ..s })
            &&& k != at ==> next.user[k] == s.user[k]
            &&& match s.user[at] {
                UserVarState::ReadPending(cid) => {
                    &&& next.user[at] == UserVarState::DmaPending(pem_pc)
                    &&& notify_reqs(s, pld) == seq![
                        DmaReq {
                            mode: VarMode::User { iid: pld.iid, flag },
                            from: (pld.from_hid, pld.slot->0),
                            to: (NodeId(s.node_id), cid),
                        },
                    ]
                },
                _ => {
                    &&& next.user[at] == UserVarState::Received(pld)
                    &&& notify_reqs(s, pld).len() == 0
                },
            }
        }),
{
}

/// The blocks that the end of an operation waits for are blocks of this operation, each under
/// its own name: those of the destinations that this node owns.
pub proof fn awaited_blocks_are_owned(s: UCoreView, iid: IOpId, i: int)
    requires
        0 <= i < owned_keys(s, iid).len(),
    ensures
        ({
            let blocks = owned_blocks(s.owner, s.dst, iid, NodeId(s.node_id), 64);
            &&& owned_keys(s, iid).len() == blocks.len()
            &&& owned_keys(s, iid)[i] == VarMode::ArgDst { iid, var: blocks[i].0, blk: blocks[i].1 }
        }),
{
}

} // verus!
