//! State of the synchronisations of a micro-core.
//!
//! There are 256 operation identifiers. Each operation has room for 64 explicit
//! synchronisations, and for 64 operands of each kind, of 64 blocks.
use vstd::prelude::*;

use crate::cpn::insn::{CtId, IOpId, NodeId, UcorePayload, UserFlag};
use crate::cpn::iop::{IOp, Operand};

verus! {

/// Progress of an explicit transfer.
#[derive(Clone, Copy, Debug, PartialEq, Eq)]
pub enum UserVarState {
    /// Neither the event nor a read has occurred.
    Idle,
    /// A read to this slot waits for the event.
    ReadPending(CtId),
    /// The event has been received and no read has been asked.
    Received(UcorePayload),
    /// This number of transfers is still in progress.
    DmaPending(usize),
    /// The data is in this slot.
    Resolved(CtId),
}

/// Position of an explicit synchronisation in the store.
pub open spec fn user_index(iid: IOpId, flag: UserFlag) -> int {
    iid.0 * 64 + flag.0
}

/// An explicit synchronisation has a position in the store.
pub open spec fn user_key_ok(flag: UserFlag) -> bool {
    flag.0 < 64
}

/// State of the explicit synchronisations of all operations.
pub struct UserStore(pub Vec<UserVarState>);

impl View for UserStore {
    type V = Seq<UserVarState>;

    open spec fn view(&self) -> Seq<UserVarState> {
        self.0@
    }
}

impl UserStore {
    pub open spec fn wf(self) -> bool {
        self@.len() == 16384
    }

    /// No synchronisation has occurred.
    pub fn new() -> (r: UserStore)
        ensures
            r.wf(),
            forall|i: int| 0 <= i < 16384 ==> #[trigger] r@[i] == UserVarState::Idle,
    {
        UserStore(vec![UserVarState::Idle; 16384])
    }

    /// Position of a synchronisation.
    pub fn index_from_tuple(iid: IOpId, flag: UserFlag) -> (r: usize)
        requires
            user_key_ok(flag),
        ensures
            r == user_index(iid, flag),
    {
        iid.0 as usize * 64 + flag.0 as usize
    }

    /// State of a synchronisation.
    pub fn get(&self, iid: IOpId, flag: UserFlag) -> (r: UserVarState)
        requires
            self.wf(),
            user_key_ok(flag),
        ensures
            r == self@[user_index(iid, flag)],
    {
        self.0[Self::index_from_tuple(iid, flag)]
    }

    /// Changes the state of a synchronisation.
    pub fn set(&mut self, iid: IOpId, flag: UserFlag, state: UserVarState)
        requires
            old(self).wf(),
            user_key_ok(flag),
        ensures
            final(self).wf(),
            final(self)@ == old(self)@.update(user_index(iid, flag), state),
    {
        let i: usize = Self::index_from_tuple(iid, flag);
        self.0.set(i, state);
    }
}

/// Progress of a block of a destination operand.
#[derive(Clone, Copy, Debug, PartialEq, Eq, Structural)]
pub enum DstVarState {
    /// The operand has no such block.
    Unused,
    /// The block has not been produced.
    WaitNotify,
    /// This number of transfers is still in progress.
    DmaPending(usize),
    /// The block is in its slot.
    Resolved,
}

/// Position of a destination operand in the store.
pub open spec fn dst_var_index(iid: IOpId, var: int) -> int {
    iid.0 * 64 + var
}

/// Position of a block of a destination operand in the store.
pub open spec fn dst_blk_index(iid: IOpId, var: u8, blk: u8) -> int {
    dst_var_index(iid, var as int) * 64 + blk
}

/// A block of a destination operand has a position in the store.
pub open spec fn dst_key_ok(var: u8, blk: u8) -> bool {
    var < 64 && blk < 64
}

/// Owner of a destination operand that no operation has described.
pub const NO_OWNER: u8 = 255;

/// State of the destination operands of all operations.
pub struct DstArgStore {
    pub owner: Vec<NodeId>,
    pub store: Vec<DstVarState>,
}

/// Number of blocks, from block `b`, before the first unused one.
pub open spec fn used_blocks(store: Seq<DstVarState>, base: int, b: int) -> int
    decreases 64 - b,
{
    if b >= 64 || store[base + b] == DstVarState::Unused {
        b
    } else {
        used_blocks(store, base, b + 1)
    }
}

/// Destinations of an operation forgotten: the owners.
pub open spec fn owners_after_reset(owner: Seq<NodeId>, iid: IOpId) -> Seq<NodeId> {
    Seq::new(
        owner.len(),
        |k: int|
            if iid.0 * 64 <= k < iid.0 * 64 + 64 {
                NodeId(NO_OWNER)
            } else {
                owner[k]
            },
    )
}

/// Destinations of an operation forgotten: the blocks.
pub open spec fn blocks_after_reset(store: Seq<DstVarState>, iid: IOpId) -> Seq<DstVarState> {
    Seq::new(
        store.len(),
        |k: int|
            if iid.0 * 4096 <= k < iid.0 * 4096 + 4096 {
                DstVarState::WaitNotify
            } else {
                store[k]
            },
    )
}

/// Destinations of an operation described by its operands: the owners.
pub open spec fn owners_after_init(owner: Seq<NodeId>, iid: IOpId, dst: Seq<Operand>) -> Seq<
    NodeId,
> {
    Seq::new(
        owner.len(),
        |k: int|
            {
                let v = k - iid.0 * 64;
                if 0 <= v < dst.len() {
                    dst[v].pos
                } else {
                    owner[k]
                }
            },
    )
}

/// Destinations of an operation described by its operands: the blocks beyond
/// the last one of each operand are unused.
pub open spec fn blocks_after_init(
    store: Seq<DstVarState>,
    iid: IOpId,
    dst: Seq<Operand>,
) -> Seq<DstVarState> {
    Seq::new(
        store.len(),
        |k: int|
            {
                let v = k / 64 - iid.0 * 64;
                if 0 <= v < dst.len() && k % 64 > dst[v].block {
                    DstVarState::Unused
                } else {
                    store[k]
                }
            },
    )
}

/// The destinations of an operation can be described in the store.
pub open spec fn dst_describable(dst: Seq<Operand>) -> bool {
    &&& dst.len() <= 64
    &&& forall|i: int| 0 <= i < dst.len() ==> (#[trigger] dst[i]).block < 255
}

/// Blocks owned by node `hid` among the first `n` destinations of an operation,
/// each operand up to its first unused block.
pub open spec fn owned_blocks(
    owner: Seq<NodeId>,
    store: Seq<DstVarState>,
    iid: IOpId,
    hid: NodeId,
    n: int,
) -> Seq<(u8, u8)>
    decreases n,
{
    if n <= 0 {
        Seq::empty()
    } else {
        let var = n - 1;
        let blocks = if owner[dst_var_index(iid, var)] == hid {
            Seq::new(
                used_blocks(store, dst_var_index(iid, var) * 64, 0) as nat,
                |b: int| (var as u8, b as u8),
            )
        } else {
            Seq::empty()
        };
        owned_blocks(owner, store, iid, hid, n - 1) + blocks
    }
}

impl DstArgStore {
    pub open spec fn wf(self) -> bool {
        &&& self.owner@.len() == 16384
        &&& self.store@.len() == 1048576
    }

    /// No operation is described and no block is produced.
    pub open spec fn pristine(self) -> bool {
        &&& self.wf()
        &&& forall|i: int| 0 <= i < 16384 ==> #[trigger] self.owner@[i] == NodeId(NO_OWNER)
        &&& forall|i: int|
            0 <= i < 1048576 ==> #[trigger] self.store@[i] == DstVarState::WaitNotify
    }

    /// No operation is described and no block is produced.
    pub fn new() -> (r: DstArgStore)
        ensures
            r.pristine(),
    {
        DstArgStore {
            owner: vec![NodeId(NO_OWNER); 16384],
            store: vec![DstVarState::WaitNotify; 1048576],
        }
    }

    /// Position of a destination operand.
    pub fn var_index_from_tuple(iid: IOpId, var: u8) -> (r: usize)
        requires
            var < 64,
        ensures
            r == dst_var_index(iid, var as int),
    {
        iid.0 as usize * 64 + var as usize
    }

    /// Position of a block of a destination operand.
    pub fn blk_index_from_tuple(iid: IOpId, var: u8, blk: u8) -> (r: usize)
        requires
            dst_key_ok(var, blk),
        ensures
            r == dst_blk_index(iid, var, blk),
    {
        Self::var_index_from_tuple(iid, var) * 64 + blk as usize
    }

    /// State of a block.
    pub fn get(&self, iid: IOpId, var: u8, blk: u8) -> (r: DstVarState)
        requires
            self.wf(),
            dst_key_ok(var, blk),
        ensures
            r == self.store@[dst_blk_index(iid, var, blk)],
    {
        self.store[Self::blk_index_from_tuple(iid, var, blk)]
    }

    /// Changes the state of a block.
    pub fn set(&mut self, iid: IOpId, var: u8, blk: u8, state: DstVarState)
        requires
            old(self).wf(),
            dst_key_ok(var, blk),
        ensures
            final(self).wf(),
            final(self).owner@ == old(self).owner@,
            final(self).store@ == old(self).store@.update(dst_blk_index(iid, var, blk), state),
    {
        let i: usize = Self::blk_index_from_tuple(iid, var, blk);
        self.store.set(i, state);
    }

    /// Forgets what is known of an operation.
    pub fn reset_iop(&mut self, iid: IOpId)
        requires
            old(self).wf(),
        ensures
            final(self).wf(),
            final(self).owner@ == owners_after_reset(old(self).owner@, iid),
            final(self).store@ == blocks_after_reset(old(self).store@, iid),
    {
        for v in 0..64u8
            invariant
                self.wf(),
                forall|k: int|
                    0 <= k < 16384 ==> #[trigger] self.owner@[k] == (if iid.0 * 64 <= k < iid.0 * 64
                        + v {
                        NodeId(NO_OWNER)
                    } else {
                        old(self).owner@[k]
                    }),
                forall|k: int|
                    0 <= k < 1048576 ==> #[trigger] self.store@[k] == (if iid.0 * 4096 <= k
                        < iid.0 * 4096 + v * 64 {
                        DstVarState::WaitNotify
                    } else {
                        old(self).store@[k]
                    }),
        {
            let idx: usize = Self::var_index_from_tuple(iid, v);
            self.owner.set(idx, NodeId(NO_OWNER));
            for b in 0..64u8
                invariant
                    self.wf(),
                    v < 64,
                    forall|k: int|
                        0 <= k < 16384 ==> #[trigger] self.owner@[k] == (if iid.0 * 64 <= k < iid.0
                            * 64 + v + 1 {
                            NodeId(NO_OWNER)
                        } else {
                            old(self).owner@[k]
                        }),
                    forall|k: int|
                        0 <= k < 1048576 ==> #[trigger] self.store@[k] == (if iid.0 * 4096 <= k
                            < iid.0 * 4096 + v * 64 + b {
                            DstVarState::WaitNotify
                        } else {
                            old(self).store@[k]
                        }),
            {
                let blk: usize = Self::blk_index_from_tuple(iid, v, b);
                self.store.set(blk, DstVarState::WaitNotify);
            }
        }
    }

    /// Describes the destinations of an operation: who owns each of them, and which
    /// blocks it has.
    pub fn init_iop(&mut self, iop: &IOp)
        requires
            old(self).wf(),
            iop@.wf(),
            dst_describable(iop.dst@),
        ensures
            final(self).wf(),
            final(self).owner@ == owners_after_init(old(self).owner@, iop@.iid(), iop.dst@),
            final(self).store@ == blocks_after_init(old(self).store@, iop@.iid(), iop.dst@),
    {
        let iid = iop.get_iid();
        for idx in 0..iop.dst.len()
            invariant
                self.wf(),
                iid == iop@.iid(),
                dst_describable(iop.dst@),
                forall|k: int|
                    0 <= k < 16384 ==> #[trigger] self.owner@[k] == ({
                        let v = k - iid.0 * 64;
                        if 0 <= v < idx {
                            iop.dst@[v].pos
                        } else {
                            old(self).owner@[k]
                        }
                    }),
                forall|k: int|
                    0 <= k < 1048576 ==> #[trigger] self.store@[k] == ({
                        let v = k / 64 - iid.0 * 64;
                        if 0 <= v < idx && k % 64 > iop.dst@[v].block {
                            DstVarState::Unused
                        } else {
                            old(self).store@[k]
                        }
                    }),
        {
            let var = iop.dst[idx];
            let var_idx: usize = Self::var_index_from_tuple(iid, idx as u8);
            self.owner.set(var_idx, var.pos);
            let mut b: u8 = var.block + 1;
            while b < 64
                invariant
                    self.wf(),
                    iid == iop@.iid(),
                    dst_describable(iop.dst@),
                    idx < iop.dst@.len(),
                    var == iop.dst@[idx as int],
                    b > var.block,
                    forall|k: int|
                        0 <= k < 16384 ==> #[trigger] self.owner@[k] == ({
                            let v = k - iid.0 * 64;
                            if 0 <= v < idx + 1 {
                                iop.dst@[v].pos
                            } else {
                                old(self).owner@[k]
                            }
                        }),
                    forall|k: int|
                        0 <= k < 1048576 ==> #[trigger] self.store@[k] == ({
                            let v = k / 64 - iid.0 * 64;
                            if 0 <= v < idx && k % 64 > iop.dst@[v].block {
                                DstVarState::Unused
                            } else if v == idx && var.block < k % 64 < b {
                                DstVarState::Unused
                            } else {
                                old(self).store@[k]
                            }
                        }),
                decreases 64 - b,
            {
                let blk_idx: usize = Self::blk_index_from_tuple(iid, idx as u8, b);
                self.store.set(blk_idx, DstVarState::Unused);
                b = b + 1;
            }
        }
        assert(self.owner@ =~= owners_after_init(old(self).owner@, iid, iop.dst@));
        assert(self.store@ =~= blocks_after_init(old(self).store@, iid, iop.dst@));
    }

    /// Blocks of an operation that node `hid` owns.
    pub fn get_owned(&self, iid: IOpId, hid: NodeId) -> (r: Vec<(u8, u8)>)
        requires
            self.wf(),
        ensures
            r@ == owned_blocks(self.owner@, self.store@, iid, hid, 64),
    {
        let mut owned: Vec<(u8, u8)> = Vec::new();
        for v in 0..64u8
            invariant
                self.wf(),
                owned@ == owned_blocks(self.owner@, self.store@, iid, hid, v as int),
        {
            let idx: usize = Self::var_index_from_tuple(iid, v);
            let ghost base = dst_var_index(iid, v as int) * 64;
            let ghost before = owned@;
            if self.owner[idx] == hid {
                let mut b: u8 = 0;
                while b < 64
                    invariant_except_break
                        self.wf(),
                        v < 64,
                        b <= 64,
                        base == dst_var_index(iid, v as int) * 64,
                        used_blocks(self.store@, base, 0) == used_blocks(self.store@, base, b as int),
                        owned@ == before + Seq::new(b as nat, |i: int| (v, i as u8)),
                    ensures
                        b <= 64,
                        used_blocks(self.store@, base, 0) == b,
                        owned@ == before + Seq::new(b as nat, |i: int| (v, i as u8)),
                    decreases 64 - b,
                {
                    let blk: usize = Self::blk_index_from_tuple(iid, v, b);
                    if self.store[blk] == DstVarState::Unused {
                        break;
                    }
                    owned.push((v, b));
                    assert(owned@ =~= before + Seq::new((b + 1) as nat, |i: int| (v, i as u8)));
                    b = b + 1;
                }
            }
            assert(owned@ =~= owned_blocks(self.owner@, self.store@, iid, hid, v + 1));
        }
        owned
    }
}

/// Block of a destination produced by this node for another one.
#[derive(Clone, Copy, Debug, PartialEq, Eq, Structural)]
pub struct DstNotifyOrder {
    pub var: u8,
    pub blk: u8,
    pub trgt_cid: CtId,
    pub trgt_hid: NodeId,
    /// Slot of this node that holds the block.
    pub local_cid: CtId,
}

/// Progress of a block of a source operand.
#[derive(Clone, Copy, Debug, PartialEq, Eq)]
pub enum SrcVarState {
    /// No read has been asked.
    Idle,
    /// A read to this slot waits for the operation that produces the operand.
    ReadPending(CtId),
    /// This number of transfers is still in progress.
    DmaPending(usize),
    /// The data is in this slot.
    Resolved(CtId),
}

/// Position of a block of a source operand in the store.
pub open spec fn src_index(var: u8, blk: u8) -> int {
    var * 64 + blk
}

/// A block of a source operand has a position in the store.
pub open spec fn src_key_ok(var: u8, blk: u8) -> bool {
    var < 64 && blk < 64
}

/// State of the source operands of the operation under translation.
pub struct SrcArgStore {
    pub cur_iop: Option<IOp>,
    pub store: Vec<SrcVarState>,
}

/// Blocks of the first `n` source operands that are produced by an operation.
pub open spec fn blocks_from(src: Seq<Operand>, iid: IOpId, n: int) -> Seq<(u8, u8)>
    decreases n,
{
    if n <= 0 {
        Seq::empty()
    } else {
        let blocks = if src[n - 1].iid == iid {
            Seq::new((src[n - 1].block + 1) as nat, |b: int| ((n - 1) as u8, b as u8))
        } else {
            Seq::empty()
        };
        blocks_from(src, iid, n - 1) + blocks
    }
}

impl SrcArgStore {
    pub open spec fn wf(self) -> bool {
        &&& self.store@.len() == 4096
        &&& self.cur_iop matches Some(iop) ==> iop@.wf()
    }

    /// Operand `var` of the current operation is known.
    pub open spec fn has_src(self, var: u8) -> bool {
        self.cur_iop is Some && var < self.cur_iop->0.src@.len()
    }

    /// Source operands of the current operation, none where there is no operation.
    pub open spec fn operands(self) -> Seq<Operand> {
        match self.cur_iop {
            Some(iop) => iop.src@,
            None => Seq::empty(),
        }
    }

    /// No operation is under translation.
    pub fn new() -> (r: SrcArgStore)
        ensures
            r.wf(),
            r.cur_iop is None,
            forall|i: int| 0 <= i < 4096 ==> #[trigger] r.store@[i] == SrcVarState::Idle,
    {
        SrcArgStore { cur_iop: None, store: vec![SrcVarState::Idle; 4096] }
    }

    /// Starts the translation of an operation.
    pub fn reset(&mut self, iop: IOp)
        requires
            iop@.wf(),
        ensures
            final(self).wf(),
            final(self).cur_iop == Some(iop),
            forall|i: int| 0 <= i < 4096 ==> #[trigger] final(self).store@[i] == SrcVarState::Idle,
    {
        self.store = vec![SrcVarState::Idle; 4096];
        self.cur_iop = Some(iop);
    }

    /// Source operand of the current operation.
    fn operand(&self, var: u8) -> (r: Operand)
        requires
            self.has_src(var),
        ensures
            r == self.operands()[var as int],
    {
        match &self.cur_iop {
            Some(iop) => iop.src[var as usize],
            None => Operand {
                block: 0,
                base_cid: CtId(0),
                iid: IOpId(0),
                pos: NodeId(0),
            },
        }
    }

    /// Operation that produces an operand.
    pub fn src_iid(&self, var: u8) -> (r: IOpId)
        requires
            self.has_src(var),
        ensures
            r == self.operands()[var as int].iid,
    {
        self.operand(var).iid
    }

    /// Node that stores an operand.
    pub fn src_hid(&self, var: u8) -> (r: NodeId)
        requires
            self.has_src(var),
        ensures
            r == self.operands()[var as int].pos,
    {
        self.operand(var).pos
    }

    /// Slot of a block of an operand.
    pub fn src_cid(&self, var: u8, blk: u8) -> (r: CtId)
        requires
            self.has_src(var),
            self.operands()[var as int].base_cid.0 + blk <= u16::MAX,
        ensures
            r.0 == self.operands()[var as int].base_cid.0 + blk,
    {
        CtId(self.operand(var).base_cid.0 + blk as u16)
    }

    /// State of a block.
    pub fn src(&self, var: u8, blk: u8) -> (r: SrcVarState)
        requires
            self.wf(),
            src_key_ok(var, blk),
        ensures
            r == self.store@[src_index(var, blk)],
    {
        self.store[64 * (var as usize) + blk as usize]
    }

    /// Changes the state of a block.
    pub fn set_src(&mut self, var: u8, blk: u8, state: SrcVarState)
        requires
            old(self).wf(),
            src_key_ok(var, blk),
        ensures
            final(self).wf(),
            final(self).cur_iop == old(self).cur_iop,
            final(self).store@ == old(self).store@.update(src_index(var, blk), state),
    {
        let i: usize = 64 * (var as usize) + blk as usize;
        self.store.set(i, state);
    }

    /// Blocks of the source operands that are produced by an operation.
    pub fn idx_of(&self, iid: IOpId) -> (r: Vec<(u8, u8)>)
        requires
            forall|i: int|
                0 <= i < self.operands().len() ==> (#[trigger] self.operands()[i]).iid == iid
                    ==> self.operands()[i].block < 255,
        ensures
            r@ == blocks_from(self.operands(), iid, self.operands().len() as int),
    {
        let mut r: Vec<(u8, u8)> = Vec::new();
        if let Some(iop) = &self.cur_iop {
            let ghost src = iop.src@;
            for i in 0..iop.src.len()
                invariant
                    src == iop.src@,
                    src == self.operands(),
                    r@ == blocks_from(src, iid, i as int),
                    forall|i: int|
                        0 <= i < self.operands().len() ==> (#[trigger] self.operands()[i]).iid
                            == iid ==> self.operands()[i].block < 255,
            {
                let op = iop.src[i];
                let ghost before = r@;
                if op.iid == iid {
                    assert(self.operands()[i as int].block < 255);
                    let len: u8 = op.block + 1;
                    for b in 0..len
                        invariant
                            r@ == before + Seq::new(b as nat, |k: int| (i as u8, k as u8)),
                    {
                        r.push((i as u8, b));
                        assert(r@ =~= before + Seq::new(
                            (b + 1) as nat,
                            |k: int| (i as u8, k as u8),
                        ));
                    }
                }
                assert(r@ =~= blocks_from(src, iid, i + 1));
            }
        }
        r
    }
}

/// Cache of the slots that hold remote operands. Nothing is kept yet.
pub struct ArgCache {}

impl ArgCache {
    /// Slot that holds a copy of a remote one.
    pub fn try_hit(&self, iid: IOpId, hid: NodeId, cid: CtId) -> (r: Option<CtId>)
        ensures
            r is None,
    {
        None
    }
}

/// Progress of the operations in the cluster: the number of nodes that have not
/// acknowledged each of them.
pub struct IOpState(pub Vec<u8>);

impl View for IOpState {
    type V = Seq<u8>;

    open spec fn view(&self) -> Seq<u8> {
        self.0@
    }
}

/// Counter of an operation after the acknowledgement of one of its nodes. The
/// first one arms the counter.
pub open spec fn acked(count: u8, iop_nodes: u8) -> int {
    if count == 0 {
        iop_nodes - 1
    } else {
        count - 1
    }
}

impl IOpState {
    pub open spec fn wf(self) -> bool {
        self@.len() == 256
    }

    /// All operations are done.
    pub fn new() -> (r: IOpState)
        ensures
            r.wf(),
            forall|i: int| 0 <= i < 256 ==> #[trigger] r@[i] == 0,
    {
        IOpState(vec![0u8; 256])
    }

    /// Whether all the nodes involved in an operation have finished.
    pub fn is_done(&self, iid: IOpId) -> (r: bool)
        requires
            self.wf(),
        ensures
            r == (self@[iid.0 as int] == 0),
    {
        self.0[iid.0 as usize] == 0
    }

    /// Registers the acknowledgement of a node for an operation that involves
    /// `iop_nodes` nodes.
    pub fn node_ack(&mut self, iid: IOpId, iop_nodes: u8)
        requires
            old(self).wf(),
            old(self)@[iid.0 as int] == 0 ==> iop_nodes >= 1,
        ensures
            final(self).wf(),
            final(self)@ == old(self)@.update(
                iid.0 as int,
                acked(old(self)@[iid.0 as int], iop_nodes) as u8,
            ),
    {
        let count: u8 = self.0[iid.0 as usize];
        if count == 0 {
            self.0.set(iid.0 as usize, iop_nodes - 1);
        } else {
            self.0.set(iid.0 as usize, count - 1);
        }
    }
}

/// Counter of an operation after `k` acknowledgements.
pub open spec fn acked_times(iop_nodes: u8, k: nat) -> int
    decreases k,
{
    if k == 0 {
        0
    } else {
        acked(acked_times(iop_nodes, (k - 1) as nat) as u8, iop_nodes)
    }
}

/// An operation that involves `n` nodes is done exactly when all of them, and
/// then again all of them, have acknowledged it.
pub proof fn iop_done_after_all_acks(iop_nodes: u8, k: nat)
    requires
        iop_nodes >= 1,
    ensures
        acked_times(iop_nodes, k) == (iop_nodes - k % (iop_nodes as nat)) % (iop_nodes as int),
        acked_times(iop_nodes, k) == 0 <==> k % (iop_nodes as nat) == 0,
    decreases k,
{
    let n = iop_nodes as nat;
    vstd::arithmetic::div_mod::lemma_mod_bound(k as int, n as int);
    if k == 0 {
        vstd::arithmetic::div_mod::lemma_small_mod(0, n);
        vstd::arithmetic::div_mod::lemma_mod_self_0(n as int);
    } else {
        let j = (k - 1) as nat;
        iop_done_after_all_acks(iop_nodes, j);
        vstd::arithmetic::div_mod::lemma_mod_bound(j as int, n as int);
        vstd::arithmetic::div_mod::lemma_mod_self_0(n as int);
        let m = j % n;
        vstd::arithmetic::div_mod::lemma_fundamental_div_mod(j as int, n as int);
        if m == 0 {
            assert((n - m) % n as int == 0);
        } else {
            vstd::arithmetic::div_mod::lemma_small_mod((n - m) as nat, n);
        }
        if m + 1 == n {
            assert(k as int == (j / n + 1) * n) by (nonlinear_arith)
                requires
                    j == n * (j / n) + m,
                    m + 1 == n,
                    k == j + 1,
            ;
            vstd::arithmetic::div_mod::lemma_mod_multiples_basic((j / n + 1) as int, n as int);
            assert(k % n == 0);
        } else {
            assert(k % n == m + 1) by {
                assert((j / n) * n == n * (j / n)) by (nonlinear_arith);
                vstd::arithmetic::div_mod::lemma_fundamental_div_mod_converse(
                    k as int,
                    n as int,
                    (j / n) as int,
                    (m + 1) as int,
                );
            }
            vstd::arithmetic::div_mod::lemma_small_mod((n - (m + 1)) as nat, n);
        }
    }
}

} // verus!
