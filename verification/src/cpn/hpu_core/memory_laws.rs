//! Laws of the memory accesses of the core: where ciphertexts, lookup tables, keys and the
//! trace are.
use vstd::arithmetic::div_mod::{
    lemma_div_pos_is_pos, lemma_fundamental_div_mod, lemma_fundamental_div_mod_converse,
    lemma_mod_bound,
};
use vstd::prelude::*;

use super::model::{channel_reads, HpuCoreParams};
use super::regfile::{coef_ofst, coef_pc, pc_len, shape_ok, stripe};
use super::run::{step_of, ExecStep};
use crate::cpn::bytes::holds_u64;
use crate::cpn::insn::{CtId, CtMem, CtReg, DOp, LutRef};
use crate::cpn::layout::{ct_chunk_b, lut_chunk_b, MemKind};
use crate::params::hpu::HpuParameters;

verus! {

/// Address of the first byte of a memory.
pub open spec fn first_byte(params: HpuCoreParams, mem: MemKind) -> int {
    match mem {
        MemKind::Ddr { offset } => offset as int,
        MemKind::Hbm { pc } => params.hbm_global_ofst + pc * params.hbm_pc_ofst,
    }
}

/// Table, destination, source and number of outputs of a bootstrapping.
pub open spec fn bootstrapping(dop: DOp) -> Option<(LutRef, CtReg, CtReg, int)> {
    match dop {
        DOp::PBS { dst, src, lut } => Some((lut, dst, src, 1)),
        DOp::PBS_F { dst, src, lut } => Some((lut, dst, src, 1)),
        DOp::PBS_ML2 { dst, src, lut } => Some((lut, dst, src, 2)),
        DOp::PBS_ML2_F { dst, src, lut } => Some((lut, dst, src, 2)),
        DOp::PBS_ML4 { dst, src, lut } => Some((lut, dst, src, 4)),
        DOp::PBS_ML4_F { dst, src, lut } => Some((lut, dst, src, 4)),
        DOp::PBS_ML8 { dst, src, lut } => Some((lut, dst, src, 8)),
        DOp::PBS_ML8_F { dst, src, lut } => Some((lut, dst, src, 8)),
        _ => None,
    }
}

/// The bytes reserved for a lookup table are the least whole pages that hold it. Tables follow
/// each other at that distance, from the first byte of their memory on, so that the bytes read
/// for two tables never overlap.
pub proof fn tables_are_apart(params: HpuCoreParams, a: LutRef, b: LutRef)
    requires
        a.id < b.id,
    ensures
        ({
            let size = lut_chunk_b(params.compute_params);
            let table_b = params.compute_params.pbs_params.polynomial_size * 8;
            &&& size % 4096 == 0
            &&& table_b <= size < table_b + 4096
            &&& params.lut_addr(a) + size <= params.lut_addr(b)
            &&& params.lut_addr(b) - params.lut_addr(a) == (b.id - a.id) * size
            &&& b.id == a.id + 1 ==> params.lut_addr(a) + size == params.lut_addr(b)
            &&& a.id == 0 ==> params.lut_addr(a) == first_byte(params, params.lut_pc)
        }),
{
    let size = lut_chunk_b(params.compute_params);
    assert(b.id * size - a.id * size == (b.id - a.id) * size) by (nonlinear_arith);
    assert((b.id - a.id) * size >= size) by (nonlinear_arith)
        requires
            b.id - a.id >= 1,
            size >= 0,
    ;
    assert(0 * size == 0) by (nonlinear_arith);
    assert(1 * size == size) by (nonlinear_arith);
}

/// A bootstrapping reads the table that it names, and is done with its registers and its number
/// of outputs: two bootstrappings read the same bytes where they name the same table, and bytes
/// that do not overlap where they do not.
pub proof fn bootstrappings_read_their_tables(
    params: HpuCoreParams,
    regs: Seq<Seq<Seq<u64>>>,
    x: DOp,
    y: DOp,
    step_x: ExecStep,
    step_y: ExecStep,
)
    requires
        bootstrapping(x) is Some,
        bootstrapping(y) is Some,
        step_of(params, regs, x, step_x),
        step_of(params, regs, y, step_y),
    ensures
        ({
            let (lut_x, dst_x, src_x, n_x) = bootstrapping(x)->0;
            let (lut_y, _, _, _) = bootstrapping(y)->0;
            let table_b = params.compute_params.pbs_params.polynomial_size * 8;
            &&& step_x matches ExecStep::Pbs { lut_nb, dst, src, lut_addr: at_x, lut_size_b: size }
            &&& step_y matches ExecStep::Pbs { lut_addr: at_y, lut_size_b: size_y, .. }
            &&& lut_nb == n_x && dst == dst_x && src == src_x
            &&& size == size_y
            &&& size % 4096 == 0 && table_b <= size < table_b + 4096
            &&& at_x == first_byte(params, params.lut_pc) + lut_x.id * size
            &&& lut_x == lut_y ==> at_x == at_y
            &&& lut_x.id < lut_y.id ==> at_x + size <= at_y
        }),
{
    let (lut_x, _, _, _) = bootstrapping(x)->0;
    let (lut_y, _, _, _) = bootstrapping(y)->0;
    let size = lut_chunk_b(params.compute_params);
    if lut_x.id < lut_y.id {
        tables_are_apart(params, lut_x, lut_y);
    }
}

/// A load reads a slot where a store of this slot has written: the same channels, at the same
/// addresses, each of them as wide as the bytes reserved for the slot. What a store writes is
/// the content of its register.
pub proof fn loads_read_where_stores_write(
    params: HpuCoreParams,
    regs: Seq<Seq<Seq<u64>>>,
    dst: CtReg,
    src: CtReg,
    cid: CtId,
    load: ExecStep,
    store: ExecStep,
    i: int,
)
    requires
        step_of(params, regs, DOp::LD { dst, src: CtMem::Io(cid) }, load),
        step_of(params, regs, DOp::ST { dst: CtMem::Io(cid), src }, store),
        src.addr < regs.len(),
        0 <= i < params.ct_pc@.len(),
        i < regs[src.addr as int].len(),
    ensures
        ({
            let size = ct_chunk_b(params.compute_params);
            &&& load matches ExecStep::Load { dst: reg, addrs, size_b }
            &&& store matches ExecStep::Store { writes }
            &&& reg == dst && size_b == size
            &&& addrs@.len() == params.ct_pc@.len()
            &&& i < writes@.len() && writes@[i].0 == addrs@[i]
            &&& holds_u64(writes@[i].1@, regs[src.addr as int][i])
            &&& addrs@[i] == first_byte(params, params.ct_pc@[i]) + cid.0 * size
        }),
{
    if let ExecStep::Load { addrs, .. } = load {
        let view = addrs@.map_values(|a: usize| a as int);
        assert(view == params.addrs(cid));
        assert(view.len() == addrs@.len());
        assert(params.addrs(cid).len() == params.ct_pc@.len());
        assert(view[i] == addrs@[i] as int);
    }
    if let ExecStep::Store { writes } = store {
        assert(writes@[i].0 == params.addrs(cid)[i]);
    }
}

/// An instruction that is neither a load, a store nor a bootstrapping asks for no access to the
/// memory.
pub proof fn other_instructions_leave_the_memory(
    params: HpuCoreParams,
    regs: Seq<Seq<Seq<u64>>>,
    dop: DOp,
    step: ExecStep,
)
    requires
        step_of(params, regs, dop, step),
        bootstrapping(dop) is None,
        !(dop is LD || dop is ST),
    ensures
        step is Done,
{
}

/// The part of a register in each channel fits in the bytes reserved for a ciphertext there.
pub proof fn parts_fit_in_their_slots(rtl: HpuParameters, pc: int)
    requires
        shape_ok(rtl),
        0 <= pc < rtl.pc_params.pem_pc,
    ensures
        0 <= pc_len(rtl, pc) * 8 <= ct_chunk_b(rtl),
{
    let n = rtl.pbs_params.big_lwe_size();
    let k = rtl.pc_params.pem_pc as int;
    lemma_fundamental_div_mod(n, k);
    lemma_mod_bound(n, k);
    assert(n >= 1) by {
        assert(rtl.pbs_params.glwe_dimension * rtl.pbs_params.polynomial_size >= 0)
            by (nonlinear_arith);
    }
    lemma_div_pos_is_pos(n, k);
    let q = n / k;
    assert(k > 1 ==> n % k != 0) by (nonlinear_arith)
        requires
            n == q * k + (if k == 1 {
                0int
            } else {
                1int
            }),
            n == k * q + n % k,
            k > 0,
    ;
}

/// Coefficients are spread over the channels in stripes: the first one is the first of the first
/// channel, the next ones of a stripe follow it, and each stripe is in the channel after that of
/// the stripe before it.
pub proof fn stripes_take_turns(rtl: HpuParameters, i: int)
    requires
        rtl.pc_params.pem_pc > 0,
        stripe(rtl) > 0,
        i >= 0,
    ensures
        coef_pc(rtl, 0) == 0 && coef_ofst(rtl, 0) == 0,
        stripe(rtl) * rtl.pc_params.pem_pc <= rtl.regf_params.coef_nb < (stripe(rtl) + 1)
            * rtl.pc_params.pem_pc,
        ({
            let next = i + stripe(rtl);
            if coef_pc(rtl, i) + 1 < rtl.pc_params.pem_pc {
                coef_pc(rtl, next) == coef_pc(rtl, i) + 1 && coef_ofst(rtl, next) == coef_ofst(
                    rtl,
                    i,
                )
            } else {
                coef_pc(rtl, next) == 0 && coef_ofst(rtl, next) == coef_ofst(rtl, i) + stripe(rtl)
            }
        }),
        (i + 1) % stripe(rtl) != 0 ==> coef_pc(rtl, i + 1) == coef_pc(rtl, i) && coef_ofst(
            rtl,
            i + 1,
        ) == coef_ofst(rtl, i) + 1,
{
    let (w, k) = (stripe(rtl), rtl.pc_params.pem_pc as int);
    let c = rtl.regf_params.coef_nb as int;
    lemma_fundamental_div_mod(c, k);
    lemma_mod_bound(c, k);
    assert(w * k <= c < (w + 1) * k) by (nonlinear_arith)
        requires
            c == k * w + c % k,
            0 <= c % k < k,
    ;
    let (q, r) = (i / w, i % w);
    lemma_fundamental_div_mod(i, w);
    lemma_mod_bound(i, w);
    assert(w * q == q * w && (q + 1) * w == q * w + w) by (nonlinear_arith);
    lemma_fundamental_div_mod_converse(i + w, w, q + 1, r);
    let (t, m) = (q / k, q % k);
    lemma_fundamental_div_mod(q, k);
    lemma_mod_bound(q, k);
    assert(k * t == t * k && (t + 1) * k == t * k + k && (t + 1) * w == t * w + w)
        by (nonlinear_arith);
    if m + 1 < k {
        lemma_fundamental_div_mod_converse(q + 1, k, t, m + 1);
    } else {
        lemma_fundamental_div_mod_converse(q + 1, k, t + 1, 0);
    }
    if r + 1 < w {
        lemma_fundamental_div_mod_converse(i + 1, w, q, r + 1);
    } else {
        lemma_fundamental_div_mod_converse(i + 1, w, q + 1, 0);
    }
    lemma_fundamental_div_mod_converse(0, w, 0, 0);
    lemma_fundamental_div_mod_converse(0, k, 0, 0);
    assert(0 * w == 0) by (nonlinear_arith);
}

/// A key is read from the first byte of each of its channels, in the order of the channels. The
/// channels have equal shares, which together are the whole key where it is shared out evenly.
pub proof fn keys_are_read_from_their_channels(
    params: HpuCoreParams,
    len: int,
    pc_nb: int,
    mems: Seq<MemKind>,
    i: int,
)
    requires
        pc_nb > 0,
        len >= 0,
        0 <= i < pc_nb,
        i < mems.len(),
    ensures
        ({
            let reads = channel_reads(params, len, pc_nb, mems);
            &&& i < reads.len() && reads.len() <= pc_nb && reads.len() <= mems.len()
            &&& reads[i].0 == first_byte(params, mems[i])
            &&& reads[i].1 % 8 == 0
            &&& reads[i].1 * pc_nb <= len * 8 < (reads[i].1 + 8) * pc_nb
            &&& len % pc_nb == 0 ==> reads[i].1 * pc_nb == len * 8
        }),
{
    lemma_fundamental_div_mod(len, pc_nb);
    lemma_mod_bound(len, pc_nb);
    let q = len / pc_nb;
    assert((q * 8) * pc_nb <= len * 8 < (q * 8 + 8) * pc_nb && (len % pc_nb == 0 ==> (q * 8) * pc_nb
        == len * 8)) by (nonlinear_arith)
        requires
            len == pc_nb * q + len % pc_nb,
            0 <= len % pc_nb < pc_nb,
    ;
}

/// The trace starts at the first byte of its memory, and has one mebibyte for each unit of its
/// depth.
pub proof fn trace_is_in_its_memory(params: HpuCoreParams)
    ensures
        params.trace_base() == first_byte(params, params.trace_pc),
        params.trace_size() % 0x10_0000 == 0,
        params.trace_size() / 0x10_0000 == params.trace_depth,
{
}

/// A slot whose bytes have machine addresses in each channel can be addressed, and so can a
/// table whose bytes have machine addresses.
pub proof fn what_is_in_memory_is_addressable(params: HpuCoreParams, cid: CtId, lut: LutRef)
    ensures
        ({
            let size = ct_chunk_b(params.compute_params);
            &&& params.compute_params.pc_params.pem_pc > 0
                && params.compute_params.pbs_params.big_lwe_size() <= usize::MAX
                && params.ct_pc@.len() > 0 && (forall|i: int|
                0 <= i < params.ct_pc@.len() ==> first_byte(params, #[trigger] params.ct_pc@[i])
                    + cid.0 * size + size <= usize::MAX) ==> params.addressable(cid)
            &&& params.addressable(cid) ==> forall|i: int|
                0 <= i < params.ct_pc@.len() ==> first_byte(params, #[trigger] params.ct_pc@[i])
                    + cid.0 * size <= usize::MAX
        }),
        ({
            let size = lut_chunk_b(params.compute_params);
            &&& first_byte(params, params.lut_pc) + lut.id * size + size <= usize::MAX
                ==> params.lut_addressable(lut)
            &&& params.lut_addressable(lut) ==> first_byte(params, params.lut_pc) + lut.id * size
                <= usize::MAX
        }),
{
    let size = ct_chunk_b(params.compute_params);
    let lut_size = lut_chunk_b(params.compute_params);
    assert(lut.id * lut_size >= 0) by (nonlinear_arith)
        requires
            lut_size >= 0,
    ;
    lemma_first_byte(params, params.lut_pc);
    if params.compute_params.pc_params.pem_pc > 0 {
        let n = params.compute_params.pbs_params.big_lwe_size();
        assert(n >= 1) by {
            assert(params.compute_params.pbs_params.glwe_dimension
                * params.compute_params.pbs_params.polynomial_size >= 0) by (nonlinear_arith);
        }
        lemma_div_pos_is_pos(n, params.compute_params.pc_params.pem_pc as int);
        assert(size >= 0);
        assert(cid.0 * size >= 0) by (nonlinear_arith)
            requires
                size >= 0,
        ;
        if params.ct_pc@.len() > 0 {
            lemma_first_byte(params, params.ct_pc@[0]);
        }
    }
    let addrs = params.addrs(cid);
    assert forall|i: int| 0 <= i < params.ct_pc@.len() implies #[trigger] addrs[i] == first_byte(
        params,
        params.ct_pc@[i],
    ) + cid.0 * size by {}
    if params.addressable(cid) {
        assert forall|i: int| 0 <= i < params.ct_pc@.len() implies first_byte(
            params,
            #[trigger] params.ct_pc@[i],
        ) + cid.0 * size <= usize::MAX by {
            assert(addrs[i] <= usize::MAX);
        }
    }
}

proof fn lemma_first_byte(params: HpuCoreParams, mem: MemKind)
    ensures
        first_byte(params, mem) >= 0,
{
    if let MemKind::Hbm { pc } = mem {
        assert(pc * params.hbm_pc_ofst >= 0) by (nonlinear_arith);
    }
}

} // verus!
