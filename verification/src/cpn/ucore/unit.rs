//! Micro-core with its parameters: memory accesses and events.
use vstd::arithmetic::div_mod::{lemma_fundamental_div_mod, lemma_small_mod};
use vstd::prelude::*;

use super::machine::{notify_done, UCoreInner};
use super::model::{
    done_pkts, exec_ok, exec_state, exec_step, ld_ok, ld_req, ld_state, notify_ok, notify_reqs,
    notify_state, CtrlPkt, DmaReq, Step, UCoreView, VarMode,
};
use super::store::{SrcVarState, UserVarState};
use crate::cpn::bytes::{config_node_id, encodes_u32, words_u32, UCORE_CONFIG_SIZE_B};
use crate::cpn::insn::{decode, CtId, DOp, IOpId, NodeId, UcorePayload, SW_IOP_ID};
use crate::cpn::iop::IOp;
use crate::cpn::layout::{
    cid_to_addr, ct_addrs, ct_addressable, ct_chunk_b, ct_chunk_size_b, MemKind,
};
use crate::params::hpu::HpuParameters;

verus! {

/// Words reserved for the configuration at the start of the firmware memory.
pub const FW_RUNTIME_MAX_WORD: usize = 64;

/// Queue of words shared with the host. Sizes are in words, offsets in bytes.
#[derive(Clone, Copy, Debug)]
pub struct QueueConfig {
    pub head_ofst: usize,
    pub tail_ofst: usize,
    pub data_ofst: usize,
    pub size_w: usize,
    pub mem: MemKind,
}

/// Parameters of a micro-core.
#[derive(Clone, Debug)]
pub struct UCoreParams {
    pub cluster_nodes: Vec<u8>,
    pub fw_pc: MemKind,
    pub ct_pc: Vec<MemKind>,
    /// Ciphertext slots of the user, of the pool and of the heap.
    pub ct_user: usize,
    pub ct_b2b: usize,
    pub ct_heap: usize,
    pub axis_depth: usize,
    pub polling_us: u64,
    pub iopq: QueueConfig,
    pub ackq: QueueConfig,
    pub rtl_params: HpuParameters,
    pub hbm_global_ofst: usize,
    pub hbm_pc_ofst: usize,
}

/// Words to be read from a queue.
#[derive(Clone, Copy, Debug, PartialEq, Eq, Structural)]
pub struct QueueRead {
    pub addr: usize,
    pub size_b: usize,
    /// Address and value of the tail, to be written once the words are read.
    pub tail_addr: usize,
    pub tail: u32,
}

/// Word to be written in a queue.
#[derive(Clone, Copy, Debug, PartialEq, Eq, Structural)]
pub struct QueueWrite {
    pub addr: usize,
    /// Address and value of the head, to be written once the word is written.
    pub head_addr: usize,
    pub head: u32,
}

/// Part of a transfer, on one memory channel.
#[derive(Clone, Copy, Debug, PartialEq, Eq, Structural)]
pub struct DmaXfer {
    pub from_hid: u8,
    pub from_addr: usize,
    pub to_hid: u8,
    pub to_addr: usize,
    pub size_b: usize,
}

impl QueueConfig {
    /// Byte offset of the queue in the DDR.
    pub open spec fn base(self) -> int {
        match self.mem {
            MemKind::Ddr { offset } => offset as int,
            MemKind::Hbm { .. } => 0,
        }
    }

    /// The queue is in the DDR, is not empty and is addressable.
    pub open spec fn ok(self) -> bool {
        &&& self.mem is Ddr
        &&& self.size_w as u32 != 0
        &&& self.base() + self.head_ofst <= usize::MAX
        &&& self.base() + self.tail_ofst <= usize::MAX
        &&& self.base() + self.data_ofst + self.size_w * 4 <= usize::MAX
    }

    /// Number of words between the tail and the head, modulo the size of the queue.
    pub open spec fn filled(self, head: u32, tail: u32) -> int {
        (head - tail) % (self.size_w as u32 as int)
    }

    /// Address of the word at a position.
    pub open spec fn word_addr(self, pos: u32) -> int {
        self.base() + self.data_ofst + (pos as int % self.size_w as int) * 4
    }

    fn base_addr(&self) -> (r: usize)
        requires
            self.mem is Ddr,
        ensures
            r == self.base(),
    {
        match self.mem {
            MemKind::Ddr { offset } => offset,
            MemKind::Hbm { .. } => 0,
        }
    }

    /// Whether the queue can be used.
    pub fn usable(&self) -> (r: bool)
        ensures
            r == (self.ok() && self.size_w > 0),
    {
        let base: usize = match self.mem {
            MemKind::Ddr { offset } => offset,
            MemKind::Hbm { .. } => {
                return false;
            },
        };
        if self.size_w as u32 == 0 || self.size_w == 0 {
            return false;
        }
        let data: Option<usize> = base.checked_add(self.data_ofst);
        let size_b: Option<usize> = self.size_w.checked_mul(4);
        let room = match (data, size_b) {
            (Some(data), Some(size_b)) => data.checked_add(size_b).is_some(),
            _ => false,
        };
        room && base.checked_add(self.head_ofst).is_some() && base.checked_add(
            self.tail_ofst,
        ).is_some()
    }

    /// Addresses of the head and of the tail.
    pub fn pointers(&self) -> (r: (usize, usize))
        requires
            self.ok(),
        ensures
            r.0 == self.base() + self.head_ofst,
            r.1 == self.base() + self.tail_ofst,
    {
        (self.base_addr() + self.head_ofst, self.base_addr() + self.tail_ofst)
    }

    fn addr_of(&self, pos: u32) -> (r: usize)
        requires
            self.ok(),
            self.size_w > 0,
        ensures
            r == self.word_addr(pos),
    {
        let ofst: usize = pos as usize % self.size_w;
        self.base_addr() + self.data_ofst + ofst * 4
    }

    /// Words to read in the queue, if any. Their number is taken modulo the size of the queue.
    pub fn poll(&self, head: u32, tail: u32) -> (r: Option<QueueRead>)
        requires
            self.ok(),
            self.size_w > 0,
            head >= tail,
        ensures
            r is None <==> self.filled(head, tail) == 0,
            r matches Some(read) ==> {
                &&& read.addr == self.word_addr(tail)
                &&& read.size_b == self.filled(head, tail) * 4
                &&& read.tail_addr == self.base() + self.tail_ofst
                &&& read.tail == head
            },
    {
        let word_avail: u32 = (head - tail) % (self.size_w as u32);
        if word_avail == 0 {
            None
        } else {
            proof {
                self.filled_bound(head, tail);
            }
            Some(
                QueueRead {
                    addr: self.addr_of(tail),
                    size_b: word_avail as usize * 4,
                    tail_addr: self.base_addr() + self.tail_ofst,
                    tail: head,
                },
            )
        }
    }

    /// Position of the next word of the queue, unless the queue is full.
    pub fn reserve(&self, head: u32, tail: u32) -> (r: Option<QueueWrite>)
        requires
            self.ok(),
            self.size_w > 0,
            head >= tail,
            head < u32::MAX,
        ensures
            r is None <==> head - tail >= self.size_w,
            r matches Some(write) ==> {
                &&& write.addr == self.word_addr(head)
                &&& write.head_addr == self.base() + self.head_ofst
                &&& write.head == head + 1
            },
    {
        if (head - tail) as usize >= self.size_w {
            None
        } else {
            Some(
                QueueWrite {
                    addr: self.addr_of(head),
                    head_addr: self.base_addr() + self.head_ofst,
                    head: head + 1,
                },
            )
        }
    }

    proof fn filled_bound(self, head: u32, tail: u32)
        requires
            self.ok(),
            head >= tail,
        ensures
            0 <= self.filled(head, tail) < self.size_w as u32,
            self.filled(head, tail) * 4 <= usize::MAX,
            self.size_w as u32 <= self.size_w,
    {
        let w = self.size_w;
        assert(w as u32 <= w) by (bit_vector);
    }
}

/// Words to read never exceed the queue, and are all those between the tail and the head
/// unless the queue is full. A word that is not read yet is then never written over: the
/// position of the next word is that of none of them.
pub proof fn queue_counts(q: QueueConfig, head: u32, tail: u32)
    requires
        q.ok(),
        q.size_w > 0,
        tail <= head,
    ensures
        0 <= q.filled(head, tail) < q.size_w as u32,
        head - tail < q.size_w as u32 ==> q.filled(head, tail) == head - tail,
        head - tail < q.size_w ==> forall|pos: u32|
            tail <= pos < head ==> #[trigger] q.word_addr(pos) != q.word_addr(head),
{
    q.filled_bound(head, tail);
    if head - tail < q.size_w as u32 {
        lemma_small_mod((head - tail) as nat, q.size_w as u32 as nat);
    }
    let size = q.size_w as int;
    assert forall|pos: u32| head - tail < size && tail <= pos < head implies #[trigger] q.word_addr(
        pos,
    ) != q.word_addr(head) by {
        if head as int % size == pos as int % size {
            lemma_fundamental_div_mod(head as int, size);
            lemma_fundamental_div_mod(pos as int, size);
            let d = head as int / size - pos as int / size;
            assert(size * (head as int / size) - size * (pos as int / size) == size * d)
                by (nonlinear_arith)
                requires
                    d == head as int / size - pos as int / size,
            ;
            assert(size * d > 0 ==> size * d >= size) by (nonlinear_arith)
                requires
                    size > 0,
            ;
        }
    }
}

/// Micro-core of a node.
pub struct UCore {
    pub params: UCoreParams,
    pub inner: UCoreInner,
}

impl View for UCore {
    type V = UCoreView;

    open spec fn view(&self) -> UCoreView {
        self.inner@
    }
}

impl UCoreParams {
    /// Number of ciphertext slots of the board.
    pub open spec fn ct_total(self) -> int {
        self.ct_user + self.ct_b2b + self.ct_heap
    }

    /// The number of ciphertext slots is a machine integer.
    pub open spec fn ok(self) -> bool {
        self.ct_total() <= usize::MAX
    }

    /// Number of memory channels of a ciphertext.
    pub open spec fn pem_pc(self) -> usize {
        self.rtl_params.pc_params.pem_pc
    }

    /// A ciphertext slot is addressable.
    pub open spec fn addressable(self, cid: CtId) -> bool {
        ct_addressable(
            self.rtl_params,
            self.ct_pc@,
            self.hbm_global_ofst as int,
            self.hbm_pc_ofst as int,
            cid,
        )
    }

    /// Addresses of a ciphertext slot.
    pub open spec fn addrs(self, cid: CtId) -> Seq<int> {
        ct_addrs(
            self.rtl_params,
            self.ct_pc@,
            self.hbm_global_ofst as int,
            self.hbm_pc_ofst as int,
            cid,
        )
    }

    /// Byte offset of the firmware table in the DDR.
    pub open spec fn fw_lut_base(self) -> int {
        match self.fw_pc {
            MemKind::Ddr { offset } => offset + 256,
            MemKind::Hbm { .. } => 0,
        }
    }
}

/// Instructions of a stream of words, if all of them are known.
pub open spec fn decode_all(words: Seq<u32>) -> Option<Seq<DOp>> {
    if forall|i: int| 0 <= i < words.len() ==> decode(#[trigger] words[i]) is Some {
        Some(Seq::new(words.len(), |i: int| decode(words[i])->0))
    } else {
        None
    }
}

/// Decodes a stream of instructions. `None` is returned where one is unknown.
pub fn decode_stream(words: &Vec<u32>) -> (r: Option<Vec<DOp>>)
    ensures
        match r {
            Some(dops) => decode_all(words@) == Some(dops@),
            None => decode_all(words@) is None,
        },
{
    let mut dops: Vec<DOp> = Vec::new();
    for i in 0..words.len()
        invariant
            dops@.len() == i,
            forall|j: int| 0 <= j < i ==> decode(#[trigger] words@[j]) == Some(dops@[j]),
    {
        match DOp::from_hex(words[i]) {
            Some(dop) => {
                dops.push(dop);
            },
            None => {
                assert(decode(words@[i as int]) is None);
                return None;
            },
        }
    }
    assert(dops@ =~= decode_all(words@)->0);
    Some(dops)
}

/// Whether two operations have the same encoding.
pub fn same_words(a: &IOp, b: &IOp) -> (r: bool)
    ensures
        r == (a@.words == b@.words),
{
    if a.words.len() != b.words.len() {
        return false;
    }
    for i in 0..a.words.len()
        invariant
            a.words@.len() == b.words@.len(),
            forall|j: int| 0 <= j < i ==> a.words@[j] == b.words@[j],
    {
        if a.words[i] != b.words[i] {
            return false;
        }
    }
    assert(a.words@ =~= b.words@);
    true
}

impl UCore {
    /// An idle micro-core. The slots that follow those of the user form its pool.
    pub fn new(params: UCoreParams) -> (r: UCore)
        requires
            params.ct_user + params.ct_b2b <= usize::MAX,
        ensures
            r.params == params,
            r@.wf(),
            r@.free == Seq::new(
                params.ct_b2b as nat,
                |i: int| CtId((params.ct_user + i) as u16),
            ),
            r@.lent == Seq::new(256, |i: int| Seq::<CtId>::empty()),
            r@.iop_pdg.len() == 0,
            r@.iop_stream.len() == 0,
            r@.cur_iop is None,
            r@.pdg_notify.len() == 0,
            r@.pdg_req.len() == 0,
            r@.node_id == 0,
            r@.cur_iid == IOpId(SW_IOP_ID),
            forall|i: int| 0 <= i < 256 ==> #[trigger] r@.iop_state[i] == 0,
            forall|i: int| 0 <= i < 4096 ==> #[trigger] r@.src[i] == SrcVarState::Idle,
            forall|i: int| 0 <= i < 16384 ==> #[trigger] r@.user[i] == UserVarState::Idle,
            r.inner.dst_store.pristine(),
            r@.dst_notifyq.len() == 0,
    {
        let mut inner = UCoreInner::new();
        let ghost idle = inner;
        let mut slots: Vec<CtId> = Vec::new();
        for i in 0..params.ct_b2b
            invariant
                params.ct_user + params.ct_b2b <= usize::MAX,
                inner == idle,
                slots@.len() == i,
                forall|j: int|
                    0 <= j < i ==> #[trigger] slots@[j] == CtId((params.ct_user + j) as u16),
        {
            slots.push(CtId((params.ct_user + i) as u16));
        }
        inner.b2b_pool.add_slot(&slots);
        let r = UCore { params, inner };
        assert(r@.free =~= Seq::new(
            params.ct_b2b as nat,
            |i: int| CtId((params.ct_user + i) as u16),
        ));
        r
    }

    /// Number of ciphertext slots of the board.
    fn ct_total(&self) -> (r: usize)
        requires
            self.params.ok(),
        ensures
            r == self.params.ct_total(),
    {
        self.params.ct_user + self.params.ct_b2b + self.params.ct_heap
    }

    /// Appends to the stream the bytes read from the operation queue.
    pub fn iopq_flush(&mut self, data: &Vec<u8>)
        requires
            data@.len() % 4 == 0,
        ensures
            final(self).params == old(self).params,
            exists|big: bool, words: Seq<u32>|
                #[trigger] encodes_u32(big, data@, words) && final(self)@ == (UCoreView {
                    iop_stream: old(self)@.iop_stream + words,
                    ..old(self)@
                }),
    {
        let words = words_u32(data);
        let ghost big = choose|big: bool| encodes_u32(big, data@, words@);
        self.extend_stream(&words);
        assert(encodes_u32(big, data@, words@));
    }

    /// Appends words to the stream.
    pub fn extend_stream(&mut self, words: &Vec<u32>)
        ensures
            final(self).params == old(self).params,
            final(self)@ == (UCoreView {
                iop_stream: old(self)@.iop_stream + words@,
                ..old(self)@
            }),
    {
        let ghost start = self.inner.iop_stream@;
        let ghost s = self@;
        for i in 0..words.len()
            invariant
                self.params == old(self).params,
                s == old(self)@,
                start == s.iop_stream,
                self@ == (UCoreView { iop_stream: start + words@.take(i as int), ..s }),
        {
            self.inner.iop_stream.push_back(words[i]);
            assert(start + words@.take(i + 1) =~= (start + words@.take(i as int)).push(
                words@[i as int],
            ));
        }
        assert(words@.take(words@.len() as int) =~= words@);
    }

    /// Updates the configuration from its bytes in the firmware memory.
    pub fn load_config(&mut self, raw: &Vec<u8>)
        requires
            raw@.len() == UCORE_CONFIG_SIZE_B,
        ensures
            final(self).params == old(self).params,
            final(self)@ == (UCoreView { node_id: raw@[0], ..old(self)@ }),
    {
        self.inner.node_id = config_node_id(raw);
    }

    /// Address of the firmware entry of an operation.
    pub fn fw_entry_addr(&self, iop: &IOp) -> (r: usize)
        requires
            self.params.fw_pc is Ddr,
            iop@.wf(),
            self.params.fw_lut_base() + iop@.fw_entry(self@.node_id) * 4 <= usize::MAX,
        ensures
            r == self.params.fw_lut_base() + iop@.fw_entry(self@.node_id) * 4,
    {
        self.fw_lut_addr() + iop.fw_entry(self.inner.node_id) * 4
    }

    fn fw_lut_addr(&self) -> (r: usize)
        requires
            self.params.fw_pc is Ddr,
            self.params.fw_lut_base() <= usize::MAX,
        ensures
            r == self.params.fw_lut_base(),
    {
        match self.params.fw_pc {
            MemKind::Ddr { offset } => offset + FW_RUNTIME_MAX_WORD * 4,
            MemKind::Hbm { .. } => 0,
        }
    }

    /// Address of the length of an instruction stream, from its firmware entry.
    pub fn fw_len_addr(&self, dop_ofst: u32) -> (r: usize)
        requires
            self.params.fw_pc is Ddr,
            self.params.fw_lut_base() + dop_ofst <= usize::MAX,
        ensures
            r == self.params.fw_lut_base() + dop_ofst,
    {
        self.fw_lut_addr() + dop_ofst as usize
    }

    /// Address and number of bytes of an instruction stream.
    pub fn fw_stream(&self, dop_ofst: u32, len_w: u32) -> (r: (usize, usize))
        requires
            self.params.fw_pc is Ddr,
            self.params.fw_lut_base() + dop_ofst + 4 <= usize::MAX,
            len_w * 4 <= usize::MAX,
        ensures
            r.0 == self.params.fw_lut_base() + dop_ofst + 4,
            r.1 == len_w * 4,
    {
        (self.fw_lut_addr() + dop_ofst as usize + 4, len_w as usize * 4)
    }

    /// Decodes the bytes of an instruction stream.
    pub fn load_fw(&self, data: &Vec<u8>) -> (r: Option<Vec<DOp>>)
        requires
            data@.len() % 4 == 0,
        ensures
            exists|big: bool, words: Seq<u32>|
                #[trigger] encodes_u32(big, data@, words) && match r {
                    Some(dops) => decode_all(words) == Some(dops@),
                    None => decode_all(words) is None,
                },
    {
        let words = words_u32(data);
        let ghost big = choose|big: bool| encodes_u32(big, data@, words@);
        assert(encodes_u32(big, data@, words@));
        decode_stream(&words)
    }

    /// Addresses of a ciphertext slot.
    pub fn cid_to_addr(&self, cid: CtId) -> (r: Vec<usize>)
        requires
            self.params.addressable(cid),
        ensures
            r@.map_values(|a: usize| a as int) == self.params.addrs(cid),
    {
        cid_to_addr(
            &self.params.rtl_params,
            &self.params.ct_pc,
            self.params.hbm_global_ofst,
            self.params.hbm_pc_ofst,
            cid,
        )
    }

    /// Number of bytes of a ciphertext on one memory channel.
    pub fn ct_pc_pattern(&self) -> (r: usize)
        requires
            self.params.addressable(CtId(0)),
        ensures
            r == ct_chunk_b(self.params.rtl_params),
    {
        ct_chunk_size_b(&self.params.rtl_params)
    }

    /// Requests of a transfer, one for each memory channel.
    pub fn start_dma(&self, req: DmaReq) -> (r: Vec<DmaXfer>)
        requires
            self.params.addressable(req.from.1),
            self.params.addressable(req.to.1),
        ensures
            r@.len() == self.params.ct_pc@.len(),
            forall|i: int|
                0 <= i < r@.len() ==> {
                    let x = #[trigger] r@[i];
                    &&& x.from_hid == req.from.0.0
                    &&& x.from_addr == self.params.addrs(req.from.1)[i]
                    &&& x.to_hid == req.to.0.0
                    &&& x.to_addr == self.params.addrs(req.to.1)[i]
                    &&& x.size_b == ct_chunk_b(self.params.rtl_params)
                },
    {
        let src_addr = self.cid_to_addr(req.from.1);
        let dst_addr = self.cid_to_addr(req.to.1);
        let ghost src = src_addr@.map_values(|a: usize| a as int);
        let ghost dst = dst_addr@.map_values(|a: usize| a as int);
        let size_b: usize = ct_chunk_size_b(&self.params.rtl_params);
        assert(src.len() == self.params.ct_pc@.len());
        assert(dst.len() == self.params.ct_pc@.len());
        let mut r: Vec<DmaXfer> = Vec::new();
        for i in 0..self.params.ct_pc.len()
            invariant
                src_addr@.len() == self.params.ct_pc@.len(),
                dst_addr@.len() == self.params.ct_pc@.len(),
                src == src_addr@.map_values(|a: usize| a as int),
                dst == dst_addr@.map_values(|a: usize| a as int),
                src == self.params.addrs(req.from.1),
                dst == self.params.addrs(req.to.1),
                size_b == ct_chunk_b(self.params.rtl_params),
                r@.len() == i,
                forall|i: int|
                    0 <= i < r@.len() ==> {
                        let x = #[trigger] r@[i];
                        &&& x.from_hid == req.from.0.0
                        &&& x.from_addr == self.params.addrs(req.from.1)[i]
                        &&& x.to_hid == req.to.0.0
                        &&& x.to_addr == self.params.addrs(req.to.1)[i]
                        &&& x.size_b == ct_chunk_b(self.params.rtl_params)
                    },
        {
            assert(src[i as int] == src_addr@[i as int]);
            assert(dst[i as int] == dst_addr@[i as int]);
            r.push(
                DmaXfer {
                    from_hid: req.from.0.0,
                    from_addr: src_addr[i],
                    to_hid: req.to.0.0,
                    to_addr: dst_addr[i],
                    size_b,
                },
            );
        }
        r
    }

    /// Handles a message from another node.
    pub fn irq_notify(&mut self, pld: UcorePayload) -> (r: Vec<DmaReq>)
        requires
            old(self)@.wf(),
            notify_ok(old(self)@, pld),
        ensures
            final(self).params == old(self).params,
            final(self)@.wf(),
            final(self)@ == notify_state(old(self)@, old(self).params.pem_pc(), pld),
            r@ == notify_reqs(old(self)@, pld),
    {
        let pem_pc: usize = self.params.rtl_params.pc_params.pem_pc;
        self.inner.irq_notify(pld, pem_pc)
    }

    /// Registers a load from another node.
    pub fn ld_b2b(&mut self, var_mode: VarMode, dst: Option<CtId>) -> (r: Option<DmaReq>)
        requires
            old(self)@.wf(),
            ld_ok(old(self)@, var_mode, dst),
        ensures
            final(self).params == old(self).params,
            final(self)@.wf(),
            final(self)@ == ld_state(old(self)@, old(self).params.pem_pc(), var_mode, dst),
            r == ld_req(old(self)@, var_mode, dst),
    {
        let pem_pc: usize = self.params.rtl_params.pc_params.pem_pc;
        self.inner.ld_b2b(var_mode, dst, pem_pc)
    }

    /// Translates an instruction of the current operation.
    pub fn exec_or_deferred(&mut self, dop: DOp) -> (r: Step)
        requires
            old(self).params.ok(),
            old(self)@.wf(),
            exec_ok(old(self)@, old(self).params.ct_total(), dop),
        ensures
            final(self).params == old(self).params,
            final(self)@.wf(),
            final(self)@ == exec_state(
                old(self)@,
                old(self).params.ct_total(),
                old(self).params.pem_pc(),
                dop,
            ),
            r == exec_step(old(self)@, old(self).params.ct_total(), dop),
    {
        let pem_pc: usize = self.params.rtl_params.pc_params.pem_pc;
        let ct_total: usize = self.ct_total();
        self.inner.exec_or_deferred(dop, ct_total, pem_pc)
    }

    /// Messages that signal the end of an operation to the rest of the cluster.
    pub fn notify_done(&self, hid: NodeId, iid: IOpId, iop_nodes: u8) -> (r: Vec<CtrlPkt>)
        ensures
            r@ == done_pkts(
                self.params.cluster_nodes@,
                hid,
                iid,
                iop_nodes,
                self.params.cluster_nodes@.len() as int,
            ),
    {
        notify_done(&self.params.cluster_nodes, hid, iid, iop_nodes)
    }
}

} // verus!
