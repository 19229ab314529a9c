//! Laws of the execution: what each instruction leaves in its registers.
use vstd::arithmetic::power2::{
    lemma2_to64, lemma_pow2_adds, lemma_pow2_pos, lemma_pow2_strictly_increases, pow2,
};
use vstd::bits::{lemma_u64_pow2_no_overflow, lemma_u64_shl_is_mul};
use vstd::prelude::*;

use super::event::{due, Event, IscCommand, NOTIFY_ISC, NOTIFY_START_ON_TIMEOUT};
use super::laws::immediate_is_trivial;
use super::memory_laws::bootstrapping;
use super::model::{
    alu, command_of, dop_ok, dumped_reg, encodable, exec_regs, exec_state, fn_stride, hook_ok, hook_one,
    pbs_aligned, pbs_args, pbs_regs, rd, HookView, HpuCoreParams, HpuCoreView,
};
use super::regfile::{reg_write, shape_ok, stored_then_loaded};
use super::trace::{command_code, trace_bytes, SlotProperties};
use crate::cpn::insn::{decode, CtMem, CtReg, DOp, PtArg};
use crate::params::hpu::{HpuPBSParameters, HpuParameters};

verus! {

/// A coefficient as a register keeps it: the bits below the modulus are left out.
pub open spec fn kept(rtl: HpuParameters, x: int) -> u64 {
    let coef = (x % 0x1_0000_0000_0000_0000) as u64;
    (coef >> (64 - rtl.ntt_params.ct_width)) << (64 - rtl.ntt_params.ct_width)
}

/// Constant added to the body of a ciphertext: a message is above the bits of the noise, with
/// its carry and its padding bit in the most significant bits.
pub open spec fn in_body(p: HpuPBSParameters, val: u16) -> u64 {
    (val as u64) << (64 - (p.message_width + p.carry_width + 1))
}

/// Registers of an arithmetic instruction: its destination and its sources.
pub open spec fn arithmetic(dop: DOp) -> Option<(CtReg, CtReg, CtReg)> {
    match dop {
        DOp::ADD { dst, src1, src2 } => Some((dst, src1, src2)),
        DOp::SUB { dst, src1, src2 } => Some((dst, src1, src2)),
        DOp::MAC { dst, src1, src2, .. } => Some((dst, src1, src2)),
        DOp::ADDS { dst, src, .. } => Some((dst, src, src)),
        DOp::SUBS { dst, src, .. } => Some((dst, src, src)),
        DOp::SSUB { dst, src, .. } => Some((dst, src, src)),
        DOp::MULS { dst, src, .. } => Some((dst, src, src)),
        _ => None,
    }
}

/// Each coefficient of the result of an instruction is computed from those of its sources,
/// modulo the modulus of the coefficients. A constant is added to the body only.
pub proof fn arithmetic_is_exact(
    rtl: HpuParameters,
    regs: Seq<Seq<Seq<u64>>>,
    dop: DOp,
    i: int,
)
    requires
        shape_ok(rtl),
        arithmetic(dop) matches Some((dst, src1, src2)) && dst.addr < regs.len() && src1.addr
            < regs.len() && src2.addr < regs.len(),
        match dop {
            DOp::MAC { cst, .. } => cst is Const,
            DOp::MULS { cst, .. } => cst is Const,
            DOp::ADDS { cst, .. } => encodable(rtl.pbs_params, cst),
            DOp::SUBS { cst, .. } => encodable(rtl.pbs_params, cst),
            DOp::SSUB { cst, .. } => encodable(rtl.pbs_params, cst),
            _ => true,
        },
        0 <= i < rtl.pbs_params.big_lwe_size(),
    ensures
        ({
            let p = rtl.pbs_params;
            let (dst, src1, src2) = arithmetic(dop)->0;
            let x = rd(rtl, regs, src1)[i];
            let y = rd(rtl, regs, src2)[i];
            let is_body = i == p.glwe_dimension * p.polynomial_size;
            let result = rd(rtl, exec_regs(rtl, regs, dop), dst)[i];
            match dop {
                DOp::ADD { .. } => result == kept(rtl, x + y),
                DOp::SUB { .. } => result == kept(rtl, x - y),
                DOp::MAC { cst, .. } => result == kept(rtl, x * cst->Const_0 + y),
                DOp::MULS { cst, .. } => result == kept(rtl, x * cst->Const_0),
                DOp::ADDS { cst, .. } => result == kept(rtl, if is_body {
                    x + in_body(p, cst->Const_0)
                } else {
                    x as int
                }),
                DOp::SUBS { cst, .. } => result == kept(rtl, if is_body {
                    x - in_body(p, cst->Const_0)
                } else {
                    x as int
                }),
                DOp::SSUB { cst, .. } => result == kept(rtl, if is_body {
                    in_body(p, cst->Const_0) - x
                } else {
                    -x
                }),
                _ => false,
            }
        }),
{
    let p = rtl.pbs_params;
    let (dst, src1, src2) = arithmetic(dop)->0;
    let x = rd(rtl, regs, src1);
    let y = rd(rtl, regs, src2);
    let m = 0x1_0000_0000_0000_0000int;
    let (_, cpu) = alu(rtl, regs, dop)->0;
    stored_then_loaded(rtl, cpu, i);
    match dop {
        DOp::MAC { cst, .. } => {
            vstd::arithmetic::div_mod::lemma_add_mod_noop(
                x[i] * cst->Const_0,
                y[i] as int,
                m,
            );
            vstd::arithmetic::div_mod::lemma_small_mod(y[i] as nat, m as nat);
        },
        DOp::ADDS { cst, .. } => {
            immediate_is_trivial(p, cst);
            vstd::arithmetic::div_mod::lemma_small_mod(x[i] as nat, m as nat);
        },
        DOp::SUBS { cst, .. } => {
            immediate_is_trivial(p, cst);
            vstd::arithmetic::div_mod::lemma_small_mod(x[i] as nat, m as nat);
        },
        DOp::SSUB { cst, .. } => {
            immediate_is_trivial(p, cst);
            let plain = in_body(p, cst->Const_0);
            vstd::arithmetic::div_mod::lemma_add_mod_noop(0 - x[i], plain as int, m);
            vstd::arithmetic::div_mod::lemma_small_mod(plain as nat, m as nat);
        },
        _ => {},
    }
}

/// An instruction that is not arithmetic changes no register before its accesses to the
/// memory, and an arithmetic one its destination only. The operation records it last.
pub proof fn execution_is_recorded(rtl: HpuParameters, s: HpuCoreView, dop: DOp, i: int)
    requires
        s.iop_ctx.len() > 0,
        0 <= i < s.regfile.len(),
        arithmetic(dop) matches Some((dst, _, _)) ==> dst.addr < s.regfile.len(),
    ensures
        ({
            let t = exec_state(rtl, s, dop);
            &&& t.regfile.len() == s.regfile.len()
            &&& t.regfile[i] == s.regfile[i] || (arithmetic(dop) matches Some((dst, _, _))
                && dst.addr == i)
            &&& t.iop_ctx.len() == s.iop_ctx.len()
            &&& t.iop_ctx[0].exec_order == s.iop_ctx[0].exec_order.push(dop)
            &&& t.iop_ctx[0].inner == s.iop_ctx[0].inner
            &&& t.dop_map == s.dop_map && t.sks == s.sks && t.sim_event == s.sim_event
            &&& t.issued_pc == s.issued_pc && t.retired_pc == s.retired_pc
            &&& t.refilled_pc == s.refilled_pc && t.trace_offset == s.trace_offset
        }),
{
}

/// The core can execute an instruction whose registers exist, whose operands are resolved and
/// whose constant can be encoded, and no other one.
pub proof fn what_can_be_executed(params: HpuCoreParams, dop: DOp)
    ensures
        ({
            let n = params.compute_params.regf_params.reg_nb;
            let p = params.compute_params.pbs_params;
            let imm = |cst: PtArg| cst is Const;
            &&& arithmetic(dop) matches Some((dst, src1, src2)) ==> {
                let known = dst.addr < n && src1.addr < n && src2.addr < n;
                match dop {
                    DOp::ADD { .. } => dop_ok(params, dop) == known,
                    DOp::SUB { .. } => dop_ok(params, dop) == known,
                    DOp::MAC { cst, .. } => dop_ok(params, dop) == (known && imm(cst)),
                    DOp::MULS { cst, .. } => dop_ok(params, dop) == (known && imm(cst)),
                    DOp::ADDS { cst, .. } => dop_ok(params, dop) == (known && encodable(p, cst)),
                    DOp::SUBS { cst, .. } => dop_ok(params, dop) == (known && encodable(p, cst)),
                    DOp::SSUB { cst, .. } => dop_ok(params, dop) == (known && encodable(p, cst)),
                    _ => true,
                }
            }
            &&& dop is _START || dop is _END || dop is SYNC ==> dop_ok(params, dop)
            &&& dop is WAIT || dop is NOTIFY || dop is LD_B2B ==> !dop_ok(params, dop)
            &&& dop matches DOp::LD { dst, src } ==> dop_ok(params, dop) == (dst.addr < n && (src
                matches CtMem::Io(cid) && params.addressable(cid)))
            &&& dop matches DOp::ST { dst, src } ==> dop_ok(params, dop) == (src.addr < n && (dst
                matches CtMem::Io(cid) && params.addressable(cid)))
            &&& bootstrapping(dop) matches Some((lut, dst, src, outputs)) ==> {
                &&& dop_ok(params, dop) ==> src.addr < n && dst.addr + outputs <= n
                &&& src.addr < n && dst.addr + outputs <= n && n <= 0x100 && dst.mask + outputs
                    == 0x100 && params.lut_addressable(lut) && p.message_width + p.carry_width < 32
                    ==> dop_ok(params, dop)
            }
        }),
{
}

/// A message, with its carry and its padding bit, can be encoded in a ciphertext that has room
/// for them.
pub proof fn messages_can_be_encoded(p: HpuPBSParameters, val: u16)
    requires
        p.message_width + p.carry_width + 1 <= p.ciphertext_width <= 64,
        val < pow2((p.message_width + p.carry_width + 1) as nat),
    ensures
        encodable(p, PtArg::Const(val)),
{
    let w = (p.message_width + p.carry_width + 1) as nat;
    let k = (p.ciphertext_width - w) as nat;
    lemma_u64_pow2_no_overflow(k);
    lemma_u64_shl_is_mul(1, k as u64);
    lemma_pow2_adds(w, k);
    lemma_pow2_pos(k);
    lemma2_to64();
    if p.ciphertext_width < 64 {
        lemma_pow2_strictly_increases((w + k) as nat, 64);
    }
    let (x, y) = (pow2(w) as int, pow2(k) as int);
    assert(val * y < x * y) by (nonlinear_arith)
        requires
            val < x,
            y > 0,
    ;
    assert(pow2(64) == 0x1_0000_0000_0000_0000);
}

/// The destination of a bootstrapping of the firmware is aligned as the core asks for.
pub proof fn firmware_is_aligned(word: u32)
    ensures
        decode(word) matches Some(dop) ==> (pbs_args(dop) matches Some((outputs, dst, _, _))
            ==> pbs_aligned(outputs, dst.mask)),
{
}

/// The functions packed in a lookup table share it out: the first one starts with the table,
/// and they follow each other at equal distances that fill it.
pub proof fn packed_functions_fill_the_table(p: HpuPBSParameters, outputs: int, size: int)
    requires
        p.message_width + p.carry_width < usize::BITS,
        size == (1usize << (p.message_width + p.carry_width)),
        size > 0,
        outputs > 0,
        size % outputs == 0,
        p.polynomial_size as int % size == 0,
    ensures
        fn_stride(p, outputs) * outputs == p.polynomial_size,
{
    let poly = p.polynomial_size as int;
    vstd::arithmetic::div_mod::lemma_fundamental_div_mod(size, outputs);
    vstd::arithmetic::div_mod::lemma_fundamental_div_mod(poly, size);
    let (a, b) = (size / outputs, poly / size);
    assert((a * b) * outputs == poly) by (nonlinear_arith)
        requires
            size == outputs * a,
            poly == size * b,
    ;
}

/// The first output of a bootstrapping does not depend on how many there are, and a function
/// keeps its place where the table is packed with twice as many: it has twice its number.
pub proof fn outputs_are_consistent(
    rtl: HpuParameters,
    regs: Seq<Seq<Seq<u64>>>,
    keys: (Seq<u32>, Seq<u64>),
    n: int,
    k: int,
    dst: CtReg,
    src: CtReg,
    lut: Seq<u64>,
)
    requires
        1 <= n,
        0 <= k < n,
        dst.addr + 2 * n <= regs.len(),
        rtl.pbs_params.message_width + rtl.pbs_params.carry_width < usize::BITS,
        (1usize << (rtl.pbs_params.message_width + rtl.pbs_params.carry_width)) as int % (2 * n)
            == 0,
    ensures
        pbs_regs(rtl, regs, keys, n, dst, src, lut)[dst.addr as int] == pbs_regs(
            rtl,
            regs,
            keys,
            1,
            dst,
            src,
            lut,
        )[dst.addr as int],
        pbs_regs(rtl, regs, keys, n, dst, src, lut)[dst.addr + k] == pbs_regs(
            rtl,
            regs,
            keys,
            2 * n,
            dst,
            src,
            lut,
        )[dst.addr + 2 * k],
{
    let p = rtl.pbs_params;
    let size = (1usize << (p.message_width + p.carry_width)) as int;
    let c = p.polynomial_size as int / size;
    vstd::arithmetic::div_mod::lemma_fundamental_div_mod(size, 2 * n);
    let q = size / (2 * n);
    assert(size == (2 * q) * n + 0) by (nonlinear_arith)
        requires
            size == (2 * n) * q,
    ;
    vstd::arithmetic::div_mod::lemma_fundamental_div_mod_converse(size, n, 2 * q, 0);
    assert(k * ((2 * q) * c) == (2 * k) * (q * c)) by (nonlinear_arith);
    assert(0 * fn_stride(p, n) == 0 && 0 * fn_stride(p, 1) == 0) by (nonlinear_arith);
}

/// The kinds of bootstrappings: those that end a batch do as the others, and each kind has twice
/// the outputs of the one before it.
pub proof fn kinds_of_bootstrappings(dst: CtReg, src: CtReg, lut: crate::cpn::insn::LutRef)
    ensures
        pbs_args(DOp::PBS { dst, src, lut }) == Some((1int, dst, src, lut)),
        pbs_args(DOp::PBS_ML2 { dst, src, lut }) == Some((2int, dst, src, lut)),
        pbs_args(DOp::PBS_ML4 { dst, src, lut }) == Some((4int, dst, src, lut)),
        pbs_args(DOp::PBS_ML8 { dst, src, lut }) == Some((8int, dst, src, lut)),
        pbs_args(DOp::PBS_F { dst, src, lut }) == pbs_args(DOp::PBS { dst, src, lut }),
        pbs_args(DOp::PBS_ML2_F { dst, src, lut }) == pbs_args(DOp::PBS_ML2 { dst, src, lut }),
        pbs_args(DOp::PBS_ML4_F { dst, src, lut }) == pbs_args(DOp::PBS_ML4 { dst, src, lut }),
        pbs_args(DOp::PBS_ML8_F { dst, src, lut }) == pbs_args(DOp::PBS_ML8 { dst, src, lut }),
{
}

/// The register that is dumped after an instruction is the one that receives its result, or the
/// one that a store sends out; other instructions have none.
pub proof fn dumped_register_is_the_result(dop: DOp)
    ensures
        arithmetic(dop) matches Some((dst, _, _)) ==> dumped_reg(dop) == Some(dst.addr),
        bootstrapping(dop) matches Some((_, dst, _, _)) ==> dumped_reg(dop) == Some(dst.addr),
        dop matches DOp::LD { dst, .. } ==> dumped_reg(dop) == Some(dst.addr),
        dop matches DOp::ST { src, .. } ==> dumped_reg(dop) == Some(src.addr),
        arithmetic(dop) is None && bootstrapping(dop) is None && !(dop is LD || dop is ST)
            ==> dumped_reg(dop) is None,
{
}

/// An action of the scheduler is recorded in the trace by the number that stands for it.
pub proof fn actions_have_their_numbers(cmd: IscCommand, code: usize)
    ensures
        command_of(command_code(cmd) as usize) == cmd,
        command_of(0) == IscCommand::Idle,
        command_of(1) == IscCommand::RdUnlock,
        command_of(2) == IscCommand::Retire,
        command_of(3) == IscCommand::Refill,
        command_of(4) == IscCommand::Issue,
        code > 4 ==> command_of(code) == IscCommand::Idle,
{
}

/// What an action of the scheduler does to an instruction in flight: it is added to its history,
/// it is executed once its sources are unlocked, and it leaves when it is retired. An event on
/// one instruction leaves the others as they are, and other events leave them all.
pub proof fn actions_do_what_they_say(
    h: HookView,
    event: Event,
    slot: Option<SlotProperties>,
    timestamp: u32,
    id: usize,
)
    requires
        hook_ok(h, event),
    ensures
        ({
            let t = hook_one(h, event, slot, timestamp);
            let cmd = command_of(event.b);
            let hit = event.kind == NOTIFY_ISC && event.a == id;
            &&& t.dops.contains_key(id) == (h.dops.contains_key(id) && !(hit && cmd
                == IscCommand::Retire))
            &&& !hit && h.dops.contains_key(id) ==> t.dops[id] == h.dops[id]
            &&& hit && cmd != IscCommand::Retire ==> t.dops[id].trace == h.dops[id].trace.push(cmd)
                && t.dops[id].inner == h.dops[id].inner
            &&& t.deferred.run == (if event.kind == NOTIFY_ISC && cmd == IscCommand::RdUnlock {
                h.deferred.run.push(event.a)
            } else {
                h.deferred.run
            })
            &&& t.deferred.timeout == (if event.kind == NOTIFY_START_ON_TIMEOUT {
                h.deferred.timeout.push(event.a)
            } else {
                h.deferred.timeout
            })
            &&& t.deferred.retire.len() == h.deferred.retire.len() + (if event.kind == NOTIFY_ISC
                && cmd == IscCommand::Retire {
                1int
            } else {
                0int
            })
            &&& hit && cmd == IscCommand::Retire ==> {
                let gone = t.deferred.retire.last();
                &&& gone.inner == h.dops[id].inner
                &&& gone.asm_view == h.dops[id].asm_view
                &&& gone.trace == h.dops[id].trace.push(cmd)
            }
            &&& event.kind != NOTIFY_ISC ==> t.deferred.trace == h.deferred.trace
            &&& event.kind == NOTIFY_ISC ==> {
                let (before, after) = (h.deferred.trace, t.deferred.trace);
                let n = before.len() as int;
                &&& after.len() == n + 16
                &&& after.take(n) == before
                &&& command_of(after[n + 3] as usize) == cmd
                &&& after[n + 2] == (match slot {
                    Some(slot) => (if slot.pdg {
                        1int
                    } else {
                        0int
                    }) + (if slot.rd_pdg {
                        2int
                    } else {
                        0int
                    }) + (if slot.vld {
                        4int
                    } else {
                        0int
                    }),
                    None => 0int,
                })
                &&& after[n + 12] == timestamp % 0x100
            }
        }),
{
}

/// An entry of the trace has sixteen bytes, from which the action, the flags, the locks and the
/// time are read back.
pub proof fn trace_entry_reads_back(slot: SlotProperties, cmd: IscCommand, timestamp: u32)
    ensures
        ({
            let b = trace_bytes(slot, cmd, timestamp);
            &&& b.len() == 16
            &&& command_of(b[3] as usize) == cmd
            &&& b[2] % 2 == (if slot.pdg {
                1int
            } else {
                0int
            })
            &&& b[2] / 2 % 2 == (if slot.rd_pdg {
                1int
            } else {
                0int
            })
            &&& b[2] / 4 == (if slot.vld {
                1int
            } else {
                0int
            })
            &&& b[4] == slot.wr_lock % 0x100 && b[5] == slot.rd_lock % 0x100 && b[6]
                == slot.issue_lock % 0x100
            &&& b[12] + 0x100 * b[13] + 0x1_0000 * b[14] + 0x100_0000 * b[15] == timestamp
            &&& b[0] == 0 && b[1] == 0 && b[7] == 0
            &&& b[8] == 0 && b[9] == 0 && b[10] == 0 && b[11] == 0
        }),
{
}

/// An event is due after its delay, and at once where it has none.
pub proof fn events_wait_for_their_delay(event: Event, now: usize, delay: Option<usize>)
    requires
        delay matches Some(d) ==> now + d <= usize::MAX,
    ensures
        due(event, now, delay).event == event,
        due(event, now, delay).at - now == (match delay {
            Some(d) => d as int,
            None => 0int,
        }),
{
}

} // verus!
