//! Abstract state of the computation core and its transitions.
use vstd::prelude::*;

use super::event::{Event, IscCommand, Trigger, NOTIFY_ISC, NOTIFY_START_ON_TIMEOUT};
use super::lwe::{lwe_add, lwe_add_plain, lwe_mul, lwe_neg, lwe_sample, lwe_sub, lwe_sub_plain};
use super::pbs::{bootstrapped, pbs_ok};
use super::regfile::{reg_ok, reg_read, reg_write, shape_ok};
use super::trace::{trace_bytes, SlotProperties};
use crate::cpn::insn::{CtId, CtMem, CtReg, DOp, LutRef, PtArg};
use crate::cpn::layout::{ct_addrs, ct_addressable, lut_chunk_b, phys_addr, MemKind};
use crate::cpn::payload::{DOpPayloadView, IOpPayloadView};
use crate::params::hpu::{HpuPBSParameters, HpuParameters};

verus! {

/// Parameters of a computation core.
#[derive(Clone, Debug)]
pub struct HpuCoreParams {
    pub compute_params: HpuParameters,
    /// Whether the ciphertexts are not encrypted.
    pub trivial: bool,
    /// Whether the instructions are timed only, and not executed.
    pub noops: bool,
    /// Whether the registers are dumped.
    pub dump_reg: bool,
    pub lut_pc: MemKind,
    pub ct_pc: Vec<MemKind>,
    pub bsk_pc: Vec<MemKind>,
    pub ksk_pc: Vec<MemKind>,
    pub trace_pc: MemKind,
    /// Size of the trace memory, in MiB.
    pub trace_depth: usize,
    pub hbm_global_ofst: usize,
    pub hbm_pc_ofst: usize,
}

impl HpuCoreParams {
    /// Address of a byte offset in a memory.
    pub open spec fn addr(self, mem: MemKind, ofst: int) -> int {
        phys_addr(mem, self.hbm_global_ofst as int, self.hbm_pc_ofst as int, ofst)
    }

    /// A ciphertext slot is addressable.
    pub open spec fn addressable(self, cid: CtId) -> bool {
        ct_addressable(
            self.compute_params,
            self.ct_pc@,
            self.hbm_global_ofst as int,
            self.hbm_pc_ofst as int,
            cid,
        )
    }

    /// Addresses of a ciphertext slot.
    pub open spec fn addrs(self, cid: CtId) -> Seq<int> {
        ct_addrs(
            self.compute_params,
            self.ct_pc@,
            self.hbm_global_ofst as int,
            self.hbm_pc_ofst as int,
            cid,
        )
    }

    /// Address of a lookup table.
    pub open spec fn lut_addr(self, lut: LutRef) -> int {
        self.addr(self.lut_pc, lut.id * lut_chunk_b(self.compute_params))
    }

    /// The address of a lookup table can be computed on machine integers.
    pub open spec fn lut_addressable(self, lut: LutRef) -> bool {
        &&& lut_chunk_b(self.compute_params) <= usize::MAX
        &&& lut.id * lut_chunk_b(self.compute_params) <= usize::MAX
        &&& self.lut_addr(lut) <= usize::MAX
    }

    /// Address of the trace memory.
    pub open spec fn trace_base(self) -> int {
        self.addr(self.trace_pc, 0)
    }

    /// Number of bytes of the trace memory.
    pub open spec fn trace_size(self) -> int {
        self.trace_depth * 0x10_0000
    }

    /// The trace memory is addressable.
    pub open spec fn trace_fits(self) -> bool {
        self.trace_base() + self.trace_size() <= usize::MAX
    }

    /// An address is that of a byte of the trace memory, or its base where it is empty.
    pub open spec fn in_trace(self, addr: int) -> bool {
        &&& self.trace_base() <= addr
        &&& addr < self.trace_base() + self.trace_size() || (self.trace_size() == 0 && addr
            == self.trace_base())
    }
}

/// Writes of `len` bytes from an address of a memory area on, in order: when the area is
/// full, the next byte is the first one of the area. Each write is an address and a length.
pub open spec fn trace_pieces(base: int, size: int, addr: int, len: int) -> Seq<(int, int)>
    decreases len,
{
    if len <= 0 || !(base <= addr < base + size) {
        Seq::empty()
    } else {
        let room = base + size - addr;
        if len < room {
            seq![(addr, len)]
        } else {
            seq![(addr, room)] + trace_pieces(base, size, base, len - room)
        }
    }
}

/// Address of the byte that follows `len` bytes written from an address on.
pub open spec fn trace_next(base: int, size: int, addr: int, len: int) -> int
    decreases len,
{
    if len <= 0 || !(base <= addr < base + size) {
        addr
    } else {
        let room = base + size - addr;
        if len < room {
            addr + len
        } else {
            trace_next(base, size, base, len - room)
        }
    }
}

/// State of a computation core.
#[verifier::ext_equal]
pub struct HpuCoreView {
    pub regfile: Seq<Seq<Seq<u64>>>,
    pub refilled_pc: int,
    pub issued_pc: int,
    pub retired_pc: int,
    pub iop_ctx: Seq<IOpPayloadView>,
    pub sim_event: Seq<Trigger>,
    pub dop_map: Map<usize, DOpPayloadView>,
    pub trace_offset: int,
    pub sks: Option<(Seq<u32>, Seq<u64>)>,
}

impl HpuCoreView {
    /// What every state of a core satisfies.
    pub open spec fn wf(self, rtl: HpuParameters) -> bool {
        &&& shape_ok(rtl)
        &&& self.regfile.len() == rtl.regf_params.reg_nb
        &&& forall|i: int|
            0 <= i < self.regfile.len() ==> reg_ok(rtl, #[trigger] self.regfile[i])
        &&& super::event::ordered(self.sim_event)
        &&& forall|id: usize| #[trigger] self.dop_map.contains_key(id) ==> id < self.refilled_pc
        &&& self.dop_map.dom().finite()
        &&& (self.sks matches Some(keys) ==> pbs_ok(rtl, keys.0, keys.1))
    }
}

/// Instruction that only the micro-core can handle.
pub open spec fn is_ucore(dop: DOp) -> bool {
    dop is WAIT || dop is NOTIFY || dop is LD_B2B
}

/// Value of an immediate.
pub open spec fn const_of(cst: PtArg) -> u64 {
    match cst {
        PtArg::Const(val) => val as u64,
        PtArg::Var { .. } => 0,
    }
}

/// Weight of the least significant bit of a message.
pub open spec fn delta(p: HpuPBSParameters) -> u64 {
    1u64 << (p.ciphertext_width - p.cleartext_width())
}

/// Encoding of an immediate.
pub open spec fn encoded(p: HpuPBSParameters, cst: PtArg) -> int {
    const_of(cst) * delta(p)
}

/// An immediate can be encoded.
pub open spec fn encodable(p: HpuPBSParameters, cst: PtArg) -> bool {
    &&& cst is Const
    &&& p.cleartext_width() <= p.ciphertext_width
    &&& 1 <= p.ciphertext_width <= 64
    &&& encoded(p, cst) <= u64::MAX
}

/// Ciphertext in a register.
pub open spec fn rd(rtl: HpuParameters, regs: Seq<Seq<Seq<u64>>>, reg: CtReg) -> Seq<u64> {
    reg_read(rtl, regs[reg.addr as int])
}

/// Register and result of an arithmetic instruction.
pub open spec fn alu(rtl: HpuParameters, regs: Seq<Seq<Seq<u64>>>, dop: DOp) -> Option<
    (CtReg, Seq<u64>),
> {
    let p = rtl.pbs_params;
    let width = p.ciphertext_width as int;
    match dop {
        DOp::ADD { dst, src1, src2 } => Some(
            (dst, lwe_add(rd(rtl, regs, src1), rd(rtl, regs, src2))),
        ),
        DOp::SUB { dst, src1, src2 } => Some(
            (dst, lwe_sub(rd(rtl, regs, src1), rd(rtl, regs, src2))),
        ),
        DOp::MAC { dst, src1, src2, cst } => Some(
            (
                dst,
                lwe_add(lwe_mul(rd(rtl, regs, src1), const_of(cst)), rd(rtl, regs, src2)),
            ),
        ),
        DOp::ADDS { dst, src, cst } => Some(
            (dst, lwe_add_plain(rd(rtl, regs, src), encoded(p, cst) as u64, width)),
        ),
        DOp::SUBS { dst, src, cst } => Some(
            (dst, lwe_sub_plain(rd(rtl, regs, src), encoded(p, cst) as u64, width)),
        ),
        DOp::SSUB { dst, src, cst } => Some(
            (dst, lwe_add_plain(lwe_neg(rd(rtl, regs, src)), encoded(p, cst) as u64, width)),
        ),
        DOp::MULS { dst, src, cst } => Some(
            (dst, lwe_mul(rd(rtl, regs, src), const_of(cst))),
        ),
        _ => None,
    }
}

/// Registers after an instruction, before any access to the memory.
pub open spec fn exec_regs(rtl: HpuParameters, regs: Seq<Seq<Seq<u64>>>, dop: DOp) -> Seq<
    Seq<Seq<u64>>,
> {
    match alu(rtl, regs, dop) {
        Some((dst, cpu)) => regs.update(dst.addr as int, reg_write(rtl, cpu)),
        None => regs,
    }
}

/// State after an instruction, before any access to the memory.
pub open spec fn exec_state(rtl: HpuParameters, s: HpuCoreView, dop: DOp) -> HpuCoreView {
    let ctx = s.iop_ctx[0];
    let ctx = IOpPayloadView { exec_order: ctx.exec_order.push(dop), ..ctx };
    HpuCoreView {
        regfile: exec_regs(rtl, s.regfile, dop),
        iop_ctx: s.iop_ctx.update(0, ctx),
        ..s
    }
}

/// Number of outputs, destination, source and lookup table of a bootstrapping.
pub open spec fn pbs_args(dop: DOp) -> Option<(int, CtReg, CtReg, LutRef)> {
    match dop {
        DOp::PBS { dst, src, lut } => Some((1, dst, src, lut)),
        DOp::PBS_F { dst, src, lut } => Some((1, dst, src, lut)),
        DOp::PBS_ML2 { dst, src, lut } => Some((2, dst, src, lut)),
        DOp::PBS_ML2_F { dst, src, lut } => Some((2, dst, src, lut)),
        DOp::PBS_ML4 { dst, src, lut } => Some((4, dst, src, lut)),
        DOp::PBS_ML4_F { dst, src, lut } => Some((4, dst, src, lut)),
        DOp::PBS_ML8 { dst, src, lut } => Some((8, dst, src, lut)),
        DOp::PBS_ML8_F { dst, src, lut } => Some((8, dst, src, lut)),
        _ => None,
    }
}

/// Masks of a destination that is aligned with the outputs of a bootstrapping: the address
/// bits that number the outputs are not significant, or one address bit less for each
/// output beyond the first one.
pub open spec fn pbs_aligned(lut_nb: int, mask: u8) -> bool {
    ||| lut_nb == 1 && mask == 0xff
    ||| lut_nb == 2 && mask == 0xfe
    ||| lut_nb == 4 && (mask == 0xfc || mask == 0xf8)
    ||| lut_nb == 8 && (mask == 0xf8 || mask == 0x80)
}

/// Instructions that a core can execute: their registers exist, their operands are
/// resolved, and the destination of a bootstrapping is aligned.
pub open spec fn dop_ok(params: HpuCoreParams, dop: DOp) -> bool {
    let rtl = params.compute_params;
    let n = rtl.regf_params.reg_nb;
    match dop {
        DOp::_START => true,
        DOp::_END => true,
        DOp::SYNC { .. } => true,
        DOp::ADD { dst, src1, src2 } => dst.addr < n && src1.addr < n && src2.addr < n,
        DOp::SUB { dst, src1, src2 } => dst.addr < n && src1.addr < n && src2.addr < n,
        DOp::MAC { dst, src1, src2, cst } => dst.addr < n && src1.addr < n && src2.addr < n
            && cst is Const,
        DOp::ADDS { dst, src, cst } => dst.addr < n && src.addr < n && encodable(
            rtl.pbs_params,
            cst,
        ),
        DOp::SUBS { dst, src, cst } => dst.addr < n && src.addr < n && encodable(
            rtl.pbs_params,
            cst,
        ),
        DOp::SSUB { dst, src, cst } => dst.addr < n && src.addr < n && encodable(
            rtl.pbs_params,
            cst,
        ),
        DOp::MULS { dst, src, cst } => dst.addr < n && src.addr < n && cst is Const,
        DOp::LD { dst, src } => {
            &&& dst.addr < n
            &&& src matches CtMem::Io(cid)
            &&& params.addressable(cid)
        },
        DOp::ST { dst, src } => {
            &&& src.addr < n
            &&& dst matches CtMem::Io(cid)
            &&& params.addressable(cid)
        },
        _ => {
            &&& pbs_args(dop) matches Some((lut_nb, dst, src, lut))
            &&& src.addr < n
            &&& pbs_aligned(lut_nb, dst.mask)
            &&& params.lut_addressable(lut)
            &&& pbs_fits(rtl, lut_nb, dst)
        },
    }
}

/// The registers that receive the outputs of a bootstrapping exist, and the number of
/// messages is a machine integer.
pub open spec fn pbs_fits(rtl: HpuParameters, lut_nb: int, dst: CtReg) -> bool {
    &&& dst.addr + lut_nb <= rtl.regf_params.reg_nb
    &&& dst.addr + lut_nb <= 0x100
    &&& rtl.pbs_params.message_width + rtl.pbs_params.carry_width < usize::BITS
}

/// Distance between two functions packed in a lookup table.
pub open spec fn fn_stride(p: HpuPBSParameters, lut_nb: int) -> int {
    let modulus_sup = (1usize << (p.message_width + p.carry_width)) as int;
    (modulus_sup / lut_nb) * (p.polynomial_size as int / modulus_sup)
}

/// Register of which some parts are replaced.
pub open spec fn overlay(reg: Seq<Seq<u64>>, parts: Seq<Seq<u64>>) -> Seq<Seq<u64>> {
    Seq::new(
        reg.len(),
        |i: int|
            if i < parts.len() {
                parts[i]
            } else {
                reg[i]
            },
    )
}

/// Registers after a bootstrapping: consecutive registers receive the functions
/// packed in the table.
pub open spec fn pbs_regs(
    rtl: HpuParameters,
    regs: Seq<Seq<Seq<u64>>>,
    keys: (Seq<u32>, Seq<u64>),
    lut_nb: int,
    dst: CtReg,
    src: CtReg,
    lut: Seq<u64>,
) -> Seq<Seq<Seq<u64>>> {
    let p = rtl.pbs_params;
    let acc = bootstrapped(rtl, keys.0, keys.1, rd(rtl, regs, src), lut);
    Seq::new(
        regs.len(),
        |i: int|
            if dst.addr <= i < dst.addr + lut_nb {
                reg_write(
                    rtl,
                    lwe_sample(
                        acc,
                        p.glwe_dimension as int,
                        p.polynomial_size as int,
                        (i - dst.addr) * fn_stride(p, lut_nb),
                    ),
                )
            } else {
                regs[i]
            },
    )
}

/// Register that an instruction reads from or writes to the outside of the core.
pub open spec fn dumped_reg(dop: DOp) -> Option<u8> {
    match dop {
        DOp::LD { dst, .. } => Some(dst.addr),
        DOp::ST { src, .. } => Some(src.addr),
        DOp::ADDS { dst, .. } => Some(dst.addr),
        DOp::SUBS { dst, .. } => Some(dst.addr),
        DOp::SSUB { dst, .. } => Some(dst.addr),
        DOp::MULS { dst, .. } => Some(dst.addr),
        DOp::ADD { dst, .. } => Some(dst.addr),
        DOp::SUB { dst, .. } => Some(dst.addr),
        DOp::MAC { dst, .. } => Some(dst.addr),
        _ => match pbs_args(dop) {
            Some((_, dst, _, _)) => Some(dst.addr),
            None => None,
        },
    }
}

/// Action that a number stands for.
pub open spec fn command_of(code: usize) -> IscCommand {
    if code == 1 {
        IscCommand::RdUnlock
    } else if code == 2 {
        IscCommand::Retire
    } else if code == 3 {
        IscCommand::Refill
    } else if code == 4 {
        IscCommand::Issue
    } else {
        IscCommand::Idle
    }
}

/// Work that the events of a cycle put off to its end.
#[verifier::ext_equal]
pub struct DeferredView {
    /// Instructions to execute.
    pub run: Seq<usize>,
    /// Instructions to retire.
    pub retire: Seq<DOpPayloadView>,
    /// Bytes to append to the trace.
    pub trace: Seq<u8>,
    /// Last instruction of each batch started by a timeout.
    pub timeout: Seq<usize>,
}

/// Instructions in flight, and the work put off.
#[verifier::ext_equal]
pub struct HookView {
    pub dops: Map<usize, DOpPayloadView>,
    pub deferred: DeferredView,
}

/// The instruction of an event is known.
pub open spec fn hook_ok(h: HookView, event: Event) -> bool {
    event.kind == NOTIFY_ISC ==> h.dops.contains_key(event.a)
}

/// Effect of an event of the scheduling model.
pub open spec fn hook_one(
    h: HookView,
    event: Event,
    slot: Option<SlotProperties>,
    timestamp: u32,
) -> HookView {
    let d = h.deferred;
    if event.kind == NOTIFY_ISC {
        let cmd = command_of(event.b);
        let dop = h.dops[event.a];
        let dop = DOpPayloadView { trace: dop.trace.push(cmd), ..dop };
        let slot = match slot {
            Some(slot) => slot,
            None => SlotProperties::idle(),
        };
        let d = DeferredView { trace: d.trace + trace_bytes(slot, cmd, timestamp), ..d };
        match cmd {
            IscCommand::RdUnlock => HookView {
                dops: h.dops.insert(event.a, dop),
                deferred: DeferredView { run: d.run.push(event.a), ..d },
            },
            IscCommand::Retire => HookView {
                dops: h.dops.remove(event.a),
                deferred: DeferredView { retire: d.retire.push(dop), ..d },
            },
            _ => HookView { dops: h.dops.insert(event.a, dop), deferred: d },
        }
    } else if event.kind == NOTIFY_START_ON_TIMEOUT {
        HookView { deferred: DeferredView { timeout: d.timeout.push(event.a), ..d }, ..h }
    } else {
        h
    }
}

/// The instructions of a batch of events, handled from the last one, are known.
pub open spec fn hooks_ok(
    h: HookView,
    batch: Seq<Trigger>,
    slots: Seq<Option<SlotProperties>>,
    timestamp: u32,
) -> bool
    decreases batch.len(),
{
    if batch.len() == 0 {
        true
    } else {
        &&& hook_ok(h, batch.last().event)
        &&& hooks_ok(
            hook_one(h, batch.last().event, slots.last(), timestamp),
            batch.drop_last(),
            slots.drop_last(),
            timestamp,
        )
    }
}

/// Effect of a batch of events, handled from the last one.
pub open spec fn hooks(
    h: HookView,
    batch: Seq<Trigger>,
    slots: Seq<Option<SlotProperties>>,
    timestamp: u32,
) -> HookView
    decreases batch.len(),
{
    if batch.len() == 0 {
        h
    } else {
        hooks(
            hook_one(h, batch.last().event, slots.last(), timestamp),
            batch.drop_last(),
            slots.drop_last(),
            timestamp,
        )
    }
}

/// Message with its carry and its padding bit, from the body of a ciphertext that is
/// not encrypted.
pub open spec fn decoded(p: HpuPBSParameters, body: u64) -> u64 {
    (body >> (64 - p.cleartext_width())) & ((1u64 << p.cleartext_width()) - 1) as u64
}

/// Body of a ciphertext that is not encrypted.
pub open spec fn trivial(p: HpuPBSParameters, clear: u64) -> u64 {
    clear << (64 - p.cleartext_width())
}

/// Accesses that read a key of some words split equally over memory channels.
pub open spec fn channel_reads(params: HpuCoreParams, len: int, pc_nb: int, mems: Seq<MemKind>) -> Seq<
    (int, int),
> {
    Seq::new(
        if pc_nb < mems.len() {
            pc_nb as nat
        } else {
            mems.len()
        },
        |i: int| (params.addr(mems[i], 0), (len / pc_nb) * 8),
    )
}

/// The accesses that read a key can be computed on machine integers.
pub open spec fn channels_ok(params: HpuCoreParams, len: int, pc_nb: int, mems: Seq<MemKind>) -> bool {
    &&& pc_nb > 0
    &&& len * 8 <= usize::MAX
    &&& forall|i: int| 0 <= i < mems.len() ==> params.addr(#[trigger] mems[i], 0) <= usize::MAX
}

} // verus!
