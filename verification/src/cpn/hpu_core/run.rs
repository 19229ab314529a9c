//! Execution of the instructions by the computation core.
use vstd::prelude::*;

use super::lwe::{
    add_assign, extract_sample, lwe_sample, mul_assign, opposite_assign, plaintext_add_assign,
    plaintext_sub_assign, sub_assign,
};
use super::model::{
    alu, channel_reads, channels_ok, const_of, delta, dop_ok, encodable, encoded, exec_state,
    fn_stride, overlay, pbs_aligned, pbs_args, pbs_fits, pbs_regs, rd, HpuCoreParams, HpuCoreView,
};
use super::pbs::{
    bootstrapped, bsk_len, bsk_size, ksk_hw_fits, ksk_hw_len, ksk_hw_ok, ksk_hw_size, pbs_ok,
    ServerKey,
};
use super::regfile::{pc_len, reg_ok, reg_write, HpuLweCiphertext};
use super::unit::HpuCore;
use crate::cpn::bytes::{bytes_of_u64, first_bytes, holds_u64, words_u64};
use crate::cpn::insn::{CtId, CtMem, CtReg, DOp, LutRef, PtArg};
use crate::cpn::layout::{
    checked_page_align, checked_phys_addr, cid_to_addr, ct_chunk_b, ct_chunk_size_b, is_addressable,
    lut_chunk_b, lut_chunk_size_b, to_phys_addr, MemKind,
};
use crate::params::hpu::HpuParameters;

verus! {

/// Accesses to the memory that read the keys: an address and a number of bytes for
/// each channel.
#[derive(Debug)]
pub struct KeyReads {
    pub bsk: Vec<(usize, usize)>,
    pub ksk: Vec<(usize, usize)>,
}

/// What is left to do for an instruction.
#[derive(Debug)]
pub enum ExecStep {
    /// Instructions are not executed.
    Skipped,
    /// Nothing.
    Done,
    /// Read each channel of a ciphertext, then load it in a register.
    Load { dst: CtReg, addrs: Vec<usize>, size_b: usize },
    /// Write some bytes in each channel of a ciphertext.
    Store { writes: Vec<(usize, Vec<u8>)> },
    /// Read a lookup table, then apply it.
    Pbs { lut_nb: usize, dst: CtReg, src: CtReg, lut_addr: usize, lut_size_b: usize },
}

impl HpuCore {
    /// Weight of the least significant bit of a message.
    fn delta(&self) -> (r: u64)
        requires
            self.params.compute_params.pbs_params.cleartext_width()
                <= self.params.compute_params.pbs_params.ciphertext_width,
            self.params.compute_params.pbs_params.ciphertext_width <= 64,
        ensures
            r == delta(self.params.compute_params.pbs_params),
    {
        let p = self.params.compute_params.pbs_params;
        1u64 << ((p.ciphertext_width - (p.message_width + p.carry_width + 1)) as u64)
    }

    /// Value of an immediate.
    fn const_val(cst: PtArg) -> (r: u64)
        ensures
            r == const_of(cst),
    {
        match cst {
            PtArg::Const(val) => val as u64,
            PtArg::Var { .. } => 0,
        }
    }

    /// Encoding of an immediate.
    fn msg_encoded(&self, cst: PtArg) -> (r: u64)
        requires
            encodable(self.params.compute_params.pbs_params, cst),
        ensures
            r == encoded(self.params.compute_params.pbs_params, cst),
    {
        Self::const_val(cst) * self.delta()
    }

    /// Register and result of an arithmetic instruction.
    fn arith(&self, dop: DOp) -> (r: Option<(CtReg, Vec<u64>)>)
        requires
            self.wf(),
            dop_ok(self.params, dop),
        ensures
            match r {
                Some((dst, cpu)) => alu(self.params.compute_params, self@.regfile, dop) == Some(
                    (dst, cpu@),
                ) && cpu@.len() == self.params.compute_params.pbs_params.big_lwe_size() && dst.addr
                    < self@.regfile.len(),
                None => alu(self.params.compute_params, self@.regfile, dop) is None,
            },
    {
        let rtl = &self.params.compute_params;
        let width: usize = rtl.pbs_params.ciphertext_width;
        match dop {
            DOp::ADD { dst, src1, src2 } => {
                let cpu_s0 = self.inner.reg2cpu(rtl, src1);
                let cpu_s1 = self.inner.reg2cpu(rtl, src2);
                Some((dst, add_assign(cpu_s0, &cpu_s1)))
            },
            DOp::SUB { dst, src1, src2 } => {
                let cpu_s0 = self.inner.reg2cpu(rtl, src1);
                let cpu_s1 = self.inner.reg2cpu(rtl, src2);
                Some((dst, sub_assign(cpu_s0, &cpu_s1)))
            },
            DOp::MAC { dst, src1, src2, cst } => {
                let cpu_s0 = self.inner.reg2cpu(rtl, src1);
                let cpu_s1 = self.inner.reg2cpu(rtl, src2);
                Some((dst, add_assign(mul_assign(cpu_s0, Self::const_val(cst)), &cpu_s1)))
            },
            DOp::ADDS { dst, src, cst } => {
                let cpu_s0 = self.inner.reg2cpu(rtl, src);
                Some((dst, plaintext_add_assign(cpu_s0, self.msg_encoded(cst), width)))
            },
            DOp::SUBS { dst, src, cst } => {
                let cpu_s0 = self.inner.reg2cpu(rtl, src);
                Some((dst, plaintext_sub_assign(cpu_s0, self.msg_encoded(cst), width)))
            },
            DOp::SSUB { dst, src, cst } => {
                let cpu_s0 = opposite_assign(self.inner.reg2cpu(rtl, src));
                Some((dst, plaintext_add_assign(cpu_s0, self.msg_encoded(cst), width)))
            },
            DOp::MULS { dst, src, cst } => {
                let cpu_s0 = self.inner.reg2cpu(rtl, src);
                Some((dst, mul_assign(cpu_s0, Self::const_val(cst))))
            },
            _ => None,
        }
    }

    /// Addresses of a ciphertext slot.
    pub fn cid_to_addr(&self, cid: CtId) -> (r: Vec<usize>)
        requires
            self.params.addressable(cid),
        ensures
            r@.map_values(|a: usize| a as int) == self.params.addrs(cid),
    {
        cid_to_addr(
            &self.params.compute_params,
            &self.params.ct_pc,
            self.params.hbm_global_ofst,
            self.params.hbm_pc_ofst,
            cid,
        )
    }

    /// Number of bytes of a ciphertext on one memory channel.
    pub fn ct_pc_pattern(&self) -> (r: usize)
        requires
            self.params.addressable(CtId(0)),
        ensures
            r == ct_chunk_b(self.params.compute_params),
    {
        ct_chunk_size_b(&self.params.compute_params)
    }

    /// Address and number of bytes of a lookup table.
    pub fn lut_read(&self, lut: LutRef) -> (r: (usize, usize))
        requires
            self.params.lut_addressable(lut),
        ensures
            r.0 == self.params.lut_addr(lut),
            r.1 == lut_chunk_b(self.params.compute_params),
    {
        let size_b: usize = lut_chunk_size_b(&self.params.compute_params);
        proof {
            assert(lut.id * size_b >= 0) by (nonlinear_arith);
        }
        let addr: usize = to_phys_addr(
            self.params.lut_pc,
            self.params.hbm_global_ofst,
            self.params.hbm_pc_ofst,
            lut.id as usize * size_b,
        );
        (addr, size_b)
    }
}

/// The writes put each part of a register in the channel of its own.
pub open spec fn stores(
    params: HpuCoreParams,
    reg: Seq<Seq<u64>>,
    cid: CtId,
    writes: Seq<(usize, Vec<u8>)>,
) -> bool {
    &&& writes.len() == if reg.len() < params.ct_pc@.len() {
        reg.len()
    } else {
        params.ct_pc@.len()
    }
    &&& forall|i: int|
        0 <= i < writes.len() ==> {
            &&& (#[trigger] writes[i]).0 == params.addrs(cid)[i]
            &&& holds_u64(writes[i].1@, reg[i])
        }
}

/// What is left to do for an instruction, before its result is in the registers or
/// in the memory.
pub open spec fn step_of(
    params: HpuCoreParams,
    regs: Seq<Seq<Seq<u64>>>,
    dop: DOp,
    step: ExecStep,
) -> bool {
    match dop {
        DOp::LD { dst, src } => {
            &&& step matches ExecStep::Load { dst: reg, addrs, size_b }
            &&& reg == dst
            &&& addrs@.map_values(|a: usize| a as int) == params.addrs(src->Io_0)
            &&& size_b == ct_chunk_b(params.compute_params)
        },
        DOp::ST { dst, src } => {
            &&& step matches ExecStep::Store { writes }
            &&& stores(params, regs[src.addr as int], dst->Io_0, writes@)
        },
        _ => match pbs_args(dop) {
            Some((lut_nb, dst, src, lut)) => {
                &&& step matches ExecStep::Pbs {
                    lut_nb: n,
                    dst: to,
                    src: from,
                    lut_addr,
                    lut_size_b,
                }
                &&& n == lut_nb
                &&& to == dst
                &&& from == src
                &&& lut_addr == params.lut_addr(lut)
                &&& lut_size_b == lut_chunk_b(params.compute_params)
            },
            None => step is Done,
        },
    }
}

impl HpuCore {
    /// Bytes to write in the memory to store a register.
    fn store_writes(&self, src: CtReg, cid: CtId) -> (r: Vec<(usize, Vec<u8>)>)
        requires
            src.addr < self@.regfile.len(),
            self.params.addressable(cid),
        ensures
            stores(self.params, self@.regfile[src.addr as int], cid, r@),
    {
        let addrs = self.cid_to_addr(cid);
        let ghost spec_addrs = addrs@.map_values(|a: usize| a as int);
        assert(spec_addrs.len() == self.params.ct_pc@.len());
        let reg = &self.inner.regfile[src.addr as usize];
        let ghost view = self@.regfile[src.addr as int];
        let mut r: Vec<(usize, Vec<u8>)> = Vec::new();
        let mut i: usize = 0;
        while i < reg.pc_data.len() && i < addrs.len()
            invariant
                i <= reg.pc_data@.len(),
                i <= addrs@.len(),
                view == reg@,
                addrs@.len() == self.params.ct_pc@.len(),
                spec_addrs == self.params.addrs(cid),
                spec_addrs == addrs@.map_values(|a: usize| a as int),
                r@.len() == i,
                forall|j: int|
                    0 <= j < i ==> {
                        &&& (#[trigger] r@[j]).0 == self.params.addrs(cid)[j]
                        &&& holds_u64(r@[j].1@, view[j])
                    },
            decreases reg.pc_data@.len() - i,
        {
            let data = bytes_of_u64(&reg.pc_data[i]);
            assert(spec_addrs[i as int] == addrs@[i as int]);
            assert(view[i as int] == reg.pc_data@[i as int]@);
            r.push((addrs[i], data));
            i = i + 1;
        }
        r
    }

    /// Executes an instruction, up to its accesses to the memory.
    pub fn execute(&mut self, dop_id: usize) -> (r: ExecStep)
        requires
            old(self).wf(),
            !old(self).params.noops ==> {
                &&& old(self)@.dop_map.contains_key(dop_id)
                &&& old(self)@.iop_ctx.len() > 0
                &&& dop_ok(old(self).params, old(self)@.dop_map[dop_id].inner)
            },
        ensures
            final(self).params == old(self).params,
            final(self).wf(),
            old(self).params.noops ==> r is Skipped && final(self)@ == old(self)@,
            !old(self).params.noops ==> ({
                let dop = old(self)@.dop_map[dop_id].inner;
                &&& final(self)@ == exec_state(old(self).params.compute_params, old(self)@, dop)
                &&& step_of(old(self).params, old(self)@.regfile, dop, r)
            }),
    {
        if self.params.noops {
            return ExecStep::Skipped;
        }
        let dop = match self.inner.dop_map.get(dop_id) {
            Some(dop) => dop,
            None => {
                return ExecStep::Done;
            },
        };
        let result = self.arith(dop);
        self.inner.note_exec(dop);
        if let Some((dst, cpu)) = result {
            self.inner.cpu2reg(&self.params.compute_params, dst.addr, &cpu);
            return ExecStep::Done;
        }
        match dop {
            DOp::LD { dst, src: CtMem::Io(cid) } => ExecStep::Load {
                dst,
                addrs: self.cid_to_addr(cid),
                size_b: ct_chunk_size_b(&self.params.compute_params),
            },
            DOp::ST { dst: CtMem::Io(cid), src } => ExecStep::Store {
                writes: self.store_writes(src, cid),
            },
            DOp::PBS { dst, src, lut } => self.pbs_step(1, dst, src, lut),
            DOp::PBS_F { dst, src, lut } => self.pbs_step(1, dst, src, lut),
            DOp::PBS_ML2 { dst, src, lut } => self.pbs_step(2, dst, src, lut),
            DOp::PBS_ML2_F { dst, src, lut } => self.pbs_step(2, dst, src, lut),
            DOp::PBS_ML4 { dst, src, lut } => self.pbs_step(4, dst, src, lut),
            DOp::PBS_ML4_F { dst, src, lut } => self.pbs_step(4, dst, src, lut),
            DOp::PBS_ML8 { dst, src, lut } => self.pbs_step(8, dst, src, lut),
            DOp::PBS_ML8_F { dst, src, lut } => self.pbs_step(8, dst, src, lut),
            _ => ExecStep::Done,
        }
    }

    fn pbs_step(&self, lut_nb: usize, dst: CtReg, src: CtReg, lut: LutRef) -> (r: ExecStep)
        requires
            self.params.lut_addressable(lut),
        ensures
            r == (ExecStep::Pbs {
                lut_nb,
                dst,
                src,
                lut_addr: self.params.lut_addr(lut) as usize,
                lut_size_b: lut_chunk_b(self.params.compute_params) as usize,
            }),
            self.params.lut_addr(lut) <= usize::MAX,
            self.params.lut_addr(lut) >= 0,
            0 <= lut_chunk_b(self.params.compute_params) <= usize::MAX,
    {
        let (lut_addr, lut_size_b) = self.lut_read(lut);
        ExecStep::Pbs { lut_nb, dst, src, lut_addr, lut_size_b }
    }

    /// Counts an executed instruction.
    pub fn issued(&mut self)
        requires
            old(self).wf(),
            old(self)@.issued_pc < usize::MAX,
        ensures
            final(self).params == old(self).params,
            final(self).wf(),
            final(self)@ == (HpuCoreView { issued_pc: old(self)@.issued_pc + 1, ..old(self)@ }),
    {
        self.inner.issued_pc = self.inner.issued_pc + 1;
    }
}

impl HpuCore {
    /// Loads a ciphertext in a register, from what was read in each of its memory
    /// channels. Bytes that only fill the last page of a channel are left out.
    pub fn load(&mut self, dst: CtReg, chunks: &Vec<Vec<u8>>)
        requires
            old(self).wf(),
            dst.addr < old(self)@.regfile.len(),
            forall|i: int|
                0 <= i < chunks@.len() && i < old(self).params.compute_params.pc_params.pem_pc
                    ==> pc_len(old(self).params.compute_params, i) * 8 <= (
                #[trigger] chunks@[i])@.len(),
        ensures
            final(self).params == old(self).params,
            final(self).wf(),
            exists|parts: Seq<Seq<u64>>|
                {
                    &&& #[trigger] parts_of(old(self).params.compute_params, chunks@, parts)
                    &&& final(self)@ == (HpuCoreView {
                        regfile: old(self)@.regfile.update(
                            dst.addr as int,
                            overlay(old(self)@.regfile[dst.addr as int], parts),
                        ),
                        ..old(self)@
                    })
                },
    {
        let ghost rtl = self.params.compute_params;
        let ghost reg = self@.regfile[dst.addr as int];
        let mut parts: Vec<Vec<u64>> = Vec::new();
        let pem_pc: usize = self.params.compute_params.pc_params.pem_pc;
        assert(reg_ok(rtl, reg));
        let mut i: usize = 0;
        while i < pem_pc && i < chunks.len()
            invariant
                self.wf(),
                self@ == old(self)@,
                self.params == old(self).params,
                rtl == self.params.compute_params,
                dst.addr < self@.regfile.len(),
                reg == self@.regfile[dst.addr as int],
                reg_ok(rtl, reg),
                pem_pc == rtl.pc_params.pem_pc,
                forall|i: int|
                    0 <= i < chunks@.len() && i < pem_pc ==> pc_len(rtl, i) * 8 <= (
                    #[trigger] chunks@[i])@.len(),
                i <= pem_pc,
                i <= chunks@.len(),
                parts@.len() == i,
                forall|j: int|
                    0 <= j < i ==> (#[trigger] parts@[j])@.len() == pc_len(rtl, j) && holds_u64(
                        chunks@[j]@.take(pc_len(rtl, j) * 8),
                        parts@[j]@,
                    ),
            decreases pem_pc - i,
        {
            assert(reg[i as int].len() == pc_len(rtl, i as int));
            let chunk: &Vec<u8> = &chunks[i];
            assert(chunks@[i as int]@.len() <= usize::MAX) by {
                assert(chunk.len() == chunks@[i as int]@.len());
            }
            let len: usize = self.inner.regfile[dst.addr as usize].pc_data[i].len();
            let data = first_bytes(chunk, len * 8);
            let words = words_u64(&data);
            parts.push(words);
            i = i + 1;
        }
        let ghost views = Seq::new(parts@.len(), |i: int| parts@[i]@);
        self.load_parts(dst, parts);
        assert(parts_of(rtl, chunks@, views));
    }

    /// Replaces the parts of a register.
    pub fn load_parts(&mut self, dst: CtReg, parts: Vec<Vec<u64>>)
        requires
            old(self).wf(),
            dst.addr < old(self)@.regfile.len(),
            parts@.len() <= old(self).params.compute_params.pc_params.pem_pc,
            forall|i: int|
                0 <= i < parts@.len() ==> (#[trigger] parts@[i])@.len() == pc_len(
                    old(self).params.compute_params,
                    i,
                ),
        ensures
            final(self).params == old(self).params,
            final(self).wf(),
            final(self)@ == (HpuCoreView {
                regfile: old(self)@.regfile.update(
                    dst.addr as int,
                    overlay(
                        old(self)@.regfile[dst.addr as int],
                        Seq::new(parts@.len(), |i: int| parts@[i]@),
                    ),
                ),
                ..old(self)@
            }),
    {
        let ghost rtl = self.params.compute_params;
        let ghost reg = self@.regfile[dst.addr as int];
        let ghost views = Seq::new(parts@.len(), |i: int| parts@[i]@);
        assert(reg_ok(rtl, reg));
        let mut pc_data: Vec<Vec<u64>> = parts;
        let ghost start = pc_data@.len();
        let pem_pc: usize = self.params.compute_params.pc_params.pem_pc;
        while pc_data.len() < pem_pc
            invariant
                self@ == old(self)@,
                self.params == old(self).params,
                dst.addr < self@.regfile.len(),
                reg == self@.regfile[dst.addr as int],
                reg_ok(rtl, reg),
                rtl == self.params.compute_params,
                pem_pc == rtl.pc_params.pem_pc,
                start == views.len(),
                start <= pc_data@.len() <= pem_pc,
                forall|i: int| 0 <= i < start ==> (#[trigger] pc_data@[i])@ == views[i],
                forall|i: int|
                    start <= i < pc_data@.len() ==> (#[trigger] pc_data@[i])@ == reg[i],
            decreases pem_pc - pc_data@.len(),
        {
            let i: usize = pc_data.len();
            let line = self.inner.regfile[dst.addr as usize].pc_data[i].clone();
            assert(line@ =~= reg[i as int]);
            pc_data.push(line);
        }
        self.inner.regfile.set(dst.addr as usize, HpuLweCiphertext { pc_data });
        let ghost new_reg = overlay(reg, views);
        proof {
            let r = self@.regfile[dst.addr as int];
            assert forall|i: int| 0 <= i < r.len() implies r[i] == new_reg[i] by {
                assert(r[i] == pc_data@[i]@);
            }
            assert(r =~= new_reg);
            assert(self@.regfile =~= old(self)@.regfile.update(dst.addr as int, new_reg));
            assert forall|i: int| 0 <= i < self@.regfile.len() implies reg_ok(
                rtl,
                #[trigger] self@.regfile[i],
            ) by {
                assert(reg_ok(rtl, old(self)@.regfile[i]));
                if i == dst.addr {
                    assert forall|pc: int| 0 <= pc < new_reg.len() implies (
                    #[trigger] new_reg[pc]).len() == pc_len(rtl, pc) by {
                        if pc < views.len() {
                            assert(views[pc] == parts@[pc]@);
                        } else {
                            assert(reg[pc].len() == pc_len(rtl, pc));
                        }
                    }
                }
            }
        }
    }

    /// Sets the keys of the server.
    pub fn set_server_key(&mut self, keys: ServerKey)
        requires
            old(self).wf(),
            pbs_ok(old(self).params.compute_params, keys.ksk@, keys.bsk@),
        ensures
            final(self).params == old(self).params,
            final(self).wf(),
            final(self)@ == (HpuCoreView { sks: Some((keys.ksk@, keys.bsk@)), ..old(self)@ }),
    {
        self.inner.sks = Some(keys);
    }

    /// Applies a lookup table to a register, from what was read in the memory of the
    /// tables.
    pub fn apply_pbs2reg(&mut self, lut_nb: usize, dst: CtReg, src: CtReg, data: &Vec<u8>)
        requires
            old(self).wf(),
            old(self)@.sks is Some,
            pbs_aligned(lut_nb as int, dst.mask),
            pbs_fits(old(self).params.compute_params, lut_nb as int, dst),
            src.addr < old(self)@.regfile.len(),
            old(self).params.compute_params.pbs_params.polynomial_size * 8 <= data@.len(),
        ensures
            final(self).params == old(self).params,
            final(self).wf(),
            exists|lut: Seq<u64>|
                {
                    &&& #[trigger] holds_u64(
                        data@.take(
                            old(self).params.compute_params.pbs_params.polynomial_size * 8,
                        ),
                        lut,
                    )
                    &&& final(self)@ == (HpuCoreView {
                        regfile: pbs_regs(
                            old(self).params.compute_params,
                            old(self)@.regfile,
                            old(self)@.sks->0,
                            lut_nb as int,
                            dst,
                            src,
                            lut,
                        ),
                        ..old(self)@
                    })
                },
    {
        let poly: usize = self.params.compute_params.pbs_params.polynomial_size;
        assert(data@.len() <= usize::MAX) by {
            assert(data.len() == data@.len());
        }
        let raw = first_bytes(data, poly * 8);
        let lut = words_u64(&raw);
        self.apply_table(lut_nb, dst, src, &lut);
        assert(holds_u64(data@.take(poly * 8), lut@));
    }

    /// Applies a lookup table to a register: consecutive registers receive the
    /// functions packed in the table.
    pub fn apply_table(&mut self, lut_nb: usize, dst: CtReg, src: CtReg, lut: &Vec<u64>)
        requires
            old(self).wf(),
            old(self)@.sks is Some,
            pbs_aligned(lut_nb as int, dst.mask),
            pbs_fits(old(self).params.compute_params, lut_nb as int, dst),
            src.addr < old(self)@.regfile.len(),
            lut@.len() == old(self).params.compute_params.pbs_params.polynomial_size,
        ensures
            final(self).params == old(self).params,
            final(self).wf(),
            final(self)@ == (HpuCoreView {
                regfile: pbs_regs(
                    old(self).params.compute_params,
                    old(self)@.regfile,
                    old(self)@.sks->0,
                    lut_nb as int,
                    dst,
                    src,
                    lut@,
                ),
                ..old(self)@
            }),
    {
        let ghost rtl = self.params.compute_params;
        let ghost regs = self@.regfile;
        let ghost keys = self@.sks->0;
        let p = self.params.compute_params.pbs_params;
        let cpu = self.inner.reg2cpu(&self.params.compute_params, src);
        let acc = match &self.inner.sks {
            Some(keys) => keys.bootstrap(&self.params.compute_params, &cpu, lut),
            None => Vec::new(),
        };
        let width: usize = p.message_width + p.carry_width;
        proof {
            assert(width < usize::BITS ==> (1usize << width) != 0) by (bit_vector);
        }
        let modulus_sup: usize = 1usize << width;
        let max_degree: usize = modulus_sup / lut_nb;
        let box_size: usize = p.polynomial_size / modulus_sup;
        proof {
            lemma_stride(
                modulus_sup as int,
                p.polynomial_size as int,
                lut_nb as int,
                max_degree as int,
                box_size as int,
            );
        }
        let stride: usize = max_degree * box_size;
        let ghost target = pbs_regs(rtl, regs, keys, lut_nb as int, dst, src, lut@);
        for fn_idx in 0..lut_nb
            invariant
                self.params == old(self).params,
                rtl == self.params.compute_params,
                p == rtl.pbs_params,
                self.wf(),
                regs == old(self)@.regfile,
                keys == old(self)@.sks->0,
                pbs_fits(rtl, lut_nb as int, dst),
                p.polynomial_size > 0,
                (lut_nb - 1) * stride < p.polynomial_size,
                stride == fn_stride(p, lut_nb as int),
                acc@ == bootstrapped(rtl, keys.0, keys.1, rd(rtl, regs, src), lut@),
                acc@.len() == (p.glwe_dimension + 1) * p.polynomial_size,
                target == pbs_regs(rtl, regs, keys, lut_nb as int, dst, src, lut@),
                self@ == (HpuCoreView { regfile: self@.regfile, ..old(self)@ }),
                self@.regfile.len() == regs.len(),
                forall|i: int|
                    0 <= i < regs.len() ==> #[trigger] self@.regfile[i] == (if dst.addr <= i
                        < dst.addr + fn_idx {
                        target[i]
                    } else {
                        regs[i]
                    }),
        {
            proof {
                assert(fn_idx * stride <= (lut_nb - 1) * stride) by (nonlinear_arith)
                    requires
                        fn_idx <= lut_nb - 1,
                        stride >= 0,
                ;
                assert(fn_idx * stride >= 0) by (nonlinear_arith);
                assert(target[dst.addr + fn_idx] == reg_write(
                    rtl,
                    lwe_sample(
                        acc@,
                        p.glwe_dimension as int,
                        p.polynomial_size as int,
                        fn_idx * stride,
                    ),
                ));
            }
            let sample = extract_sample(
                &acc,
                p.glwe_dimension,
                p.polynomial_size,
                fn_idx * stride,
            );
            self.inner.cpu2reg(&self.params.compute_params, dst.addr + fn_idx as u8, &sample);
        }
        assert(self@.regfile =~= target);
    }
}

/// Parts of a register read in each memory channel.
pub open spec fn parts_of(rtl: HpuParameters, chunks: Seq<Vec<u8>>, parts: Seq<Seq<u64>>) -> bool {
    &&& parts.len() == if chunks.len() < rtl.pc_params.pem_pc {
        chunks.len() as int
    } else {
        rtl.pc_params.pem_pc as int
    }
    &&& forall|i: int|
        0 <= i < parts.len() ==> (#[trigger] parts[i]).len() == pc_len(rtl, i) && holds_u64(
            chunks[i]@.take(pc_len(rtl, i) * 8),
            parts[i],
        )
}

/// The functions packed in a table start inside the table.
proof fn lemma_stride(modulus_sup: int, poly: int, lut_nb: int, max_degree: int, box_size: int)
    requires
        modulus_sup > 0,
        poly > 0,
        lut_nb > 0,
        max_degree == modulus_sup / lut_nb,
        box_size == poly / modulus_sup,
    ensures
        0 <= max_degree * box_size <= poly,
        (lut_nb - 1) * (max_degree * box_size) < poly,
{
    let stride = max_degree * box_size;
    vstd::arithmetic::div_mod::lemma_fundamental_div_mod(modulus_sup, lut_nb);
    vstd::arithmetic::div_mod::lemma_fundamental_div_mod(poly, modulus_sup);
    vstd::arithmetic::div_mod::lemma_mod_bound(modulus_sup, lut_nb);
    vstd::arithmetic::div_mod::lemma_mod_bound(poly, modulus_sup);
    vstd::arithmetic::div_mod::lemma_div_pos_is_pos(modulus_sup, lut_nb);
    vstd::arithmetic::div_mod::lemma_div_pos_is_pos(poly, modulus_sup);
    assert(lut_nb * max_degree <= modulus_sup);
    assert(stride >= 0) by (nonlinear_arith)
        requires
            stride == max_degree * box_size,
            max_degree >= 0,
            box_size >= 0,
    ;
    assert(lut_nb * stride <= poly) by (nonlinear_arith)
        requires
            stride == max_degree * box_size,
            lut_nb * max_degree <= modulus_sup,
            modulus_sup * box_size <= poly,
            box_size >= 0,
    ;
    assert(lut_nb * stride == (lut_nb - 1) * stride + stride) by (nonlinear_arith);
    assert(stride == 0 ==> (lut_nb - 1) * stride == 0) by (nonlinear_arith);
    assert(stride <= lut_nb * stride) by (nonlinear_arith)
        requires
            lut_nb >= 1,
            stride >= 0,
    ;
}

/// Pairs of machine integers, as mathematical ones.
pub open spec fn pairs(reads: Seq<(usize, usize)>) -> Seq<(int, int)> {
    reads.map_values(|r: (usize, usize)| (r.0 as int, r.1 as int))
}

impl HpuCore {
    /// Accesses to the memory that read a key.
    fn reads(&self, len: usize, pc_nb: usize, mems: &Vec<MemKind>) -> (r: Vec<(usize, usize)>)
        requires
            channels_ok(self.params, len as int, pc_nb as int, mems@),
        ensures
            pairs(r@) == channel_reads(self.params, len as int, pc_nb as int, mems@),
    {
        let ghost all = channel_reads(self.params, len as int, pc_nb as int, mems@);
        proof {
            assert((len / pc_nb) * 8 <= usize::MAX) by (nonlinear_arith)
                requires
                    len * 8 <= usize::MAX,
                    pc_nb > 0,
            ;
        }
        let size_b: usize = (len / pc_nb) * 8;
        let mut r: Vec<(usize, usize)> = Vec::new();
        let mut i: usize = 0;
        while i < pc_nb && i < mems.len()
            invariant
                channels_ok(self.params, len as int, pc_nb as int, mems@),
                all == channel_reads(self.params, len as int, pc_nb as int, mems@),
                size_b == (len as int / pc_nb as int) * 8,
                i <= pc_nb,
                i <= mems@.len(),
                r@.len() == i,
                forall|j: int|
                    0 <= j < i ==> (#[trigger] r@[j]).0 == all[j].0 && r@[j].1 == all[j].1,
            decreases pc_nb - i,
        {
            assert(self.params.addr(mems@[i as int], 0) <= usize::MAX);
            let addr: usize = to_phys_addr(
                mems[i],
                self.params.hbm_global_ofst,
                self.params.hbm_pc_ofst,
                0,
            );
            r.push((addr, size_b));
            i = i + 1;
        }
        assert(pairs(r@) =~= all);
        r
    }

    /// Accesses to the memory that read the keys, where a bootstrapping needs them.
    pub fn key_reads(&self) -> (r: Option<KeyReads>)
        requires
            self@.iop_ctx.len() > 0,
            self.params.compute_params.pbs_params.glwe_dimension < usize::MAX,
            ksk_hw_ok(self.params.compute_params),
            channels_ok(
                self.params,
                bsk_len(self.params.compute_params),
                self.params.compute_params.pc_params.bsk_pc as int,
                self.params.bsk_pc@,
            ),
            channels_ok(
                self.params,
                ksk_hw_len(self.params.compute_params),
                self.params.compute_params.pc_params.ksk_pc as int,
                self.params.ksk_pc@,
            ),
        ensures
            r is Some <==> self@.iop_ctx[0].fresh_start || self@.sks is None,
            r matches Some(keys) ==> {
                &&& pairs(keys.bsk@) == channel_reads(
                    self.params,
                    bsk_len(self.params.compute_params),
                    self.params.compute_params.pc_params.bsk_pc as int,
                    self.params.bsk_pc@,
                )
                &&& pairs(keys.ksk@) == channel_reads(
                    self.params,
                    ksk_hw_len(self.params.compute_params),
                    self.params.compute_params.pc_params.ksk_pc as int,
                    self.params.ksk_pc@,
                )
            },
    {
        let fresh = self.inner.iop_ctx[0].fresh_start;
        assert(fresh == self@.iop_ctx[0].fresh_start);
        if !fresh && self.inner.sks.is_some() {
            return None;
        }
        let rtl = &self.params.compute_params;
        let bsk_size: usize = match bsk_size(rtl) {
            Some(v) => v,
            None => 0,
        };
        let bsk = self.reads(bsk_size, rtl.pc_params.bsk_pc, &self.params.bsk_pc);
        let ksk = self.reads(ksk_hw_size(rtl), rtl.pc_params.ksk_pc, &self.params.ksk_pc);
        Some(KeyReads { bsk, ksk })
    }
}

impl HpuCore {
    /// Whether the memory of the keys can be addressed.
    pub fn keys_readable(&self) -> (r: bool)
        ensures
            r == ({
                &&& self.params.compute_params.pbs_params.glwe_dimension < usize::MAX
                &&& ksk_hw_ok(self.params.compute_params)
                &&& channels_ok(
                    self.params,
                    bsk_len(self.params.compute_params),
                    self.params.compute_params.pc_params.bsk_pc as int,
                    self.params.bsk_pc@,
                )
                &&& channels_ok(
                    self.params,
                    ksk_hw_len(self.params.compute_params),
                    self.params.compute_params.pc_params.ksk_pc as int,
                    self.params.ksk_pc@,
                )
            }),
    {
        let rtl = &self.params.compute_params;
        if rtl.pbs_params.glwe_dimension == usize::MAX || !ksk_hw_fits(rtl) {
            return false;
        }
        match bsk_size(rtl) {
            Some(len) => {
                self.has_channels(len, rtl.pc_params.bsk_pc, &self.params.bsk_pc)
                    && self.has_channels(
                    ksk_hw_size(rtl),
                    rtl.pc_params.ksk_pc,
                    &self.params.ksk_pc,
                )
            },
            None => false,
        }
    }

    fn has_channels(&self, len: usize, pc_nb: usize, mems: &Vec<MemKind>) -> (r: bool)
        ensures
            r == channels_ok(self.params, len as int, pc_nb as int, mems@),
    {
        if pc_nb == 0 || len.checked_mul(8).is_none() {
            return false;
        }
        for i in 0..mems.len()
            invariant
                forall|j: int|
                    0 <= j < i ==> self.params.addr(#[trigger] mems@[j], 0) <= usize::MAX,
        {
            let addr: Option<usize> = checked_phys_addr(
                mems[i],
                self.params.hbm_global_ofst,
                self.params.hbm_pc_ofst,
                0,
            );
            if addr.is_none() {
                assert(self.params.addr(mems@[i as int], 0) > usize::MAX);
                return false;
            }
        }
        true
    }

    /// Whether an instruction can be executed.
    pub fn executable(&self, dop_id: usize) -> (r: bool)
        requires
            self.wf(),
        ensures
            r == ({
                &&& self@.dop_map.contains_key(dop_id)
                &&& self@.iop_ctx.len() > 0
                &&& dop_ok(self.params, self@.dop_map[dop_id].inner)
            }),
    {
        match self.inner.dop_map.get(dop_id) {
            Some(dop) => self.inner.iop_ctx.len() > 0 && self.is_ok(dop),
            None => false,
        }
    }

    fn exists_reg(&self, reg: CtReg) -> (r: bool)
        ensures
            r == (reg.addr < self.params.compute_params.regf_params.reg_nb),
    {
        (reg.addr as usize) < self.params.compute_params.regf_params.reg_nb
    }

    fn is_resolved(&self, mem: CtMem) -> (r: bool)
        ensures
            r == (mem is Io && self.params.addressable(mem->Io_0)),
    {
        match mem {
            CtMem::Io(cid) => is_addressable(
                &self.params.compute_params,
                &self.params.ct_pc,
                self.params.hbm_global_ofst,
                self.params.hbm_pc_ofst,
                cid,
            ),
            _ => false,
        }
    }

    fn is_encodable(&self, cst: PtArg) -> (r: bool)
        ensures
            r == encodable(self.params.compute_params.pbs_params, cst),
    {
        let p = self.params.compute_params.pbs_params;
        let is_const = matches!(cst, PtArg::Const(_));
        if !is_const || p.ciphertext_width < 1 || p.ciphertext_width > 64 || p.message_width > 64
            || p.carry_width > 64 {
            return false;
        }
        if p.message_width + p.carry_width + 1 > p.ciphertext_width {
            return false;
        }
        let val: u64 = Self::const_val(cst);
        val.checked_mul(self.delta()).is_some()
    }

    fn is_pbs_ok(&self, lut_nb: usize, dst: CtReg, src: CtReg, lut: LutRef) -> (r: bool)
        requires
            lut_nb <= 8,
        ensures
            r == ({
                &&& src.addr < self.params.compute_params.regf_params.reg_nb
                &&& pbs_aligned(lut_nb as int, dst.mask)
                &&& self.params.lut_addressable(lut)
                &&& pbs_fits(self.params.compute_params, lut_nb as int, dst)
            }),
    {
        let rtl = &self.params.compute_params;
        let p = rtl.pbs_params;
        let aligned = match lut_nb {
            1 => dst.mask == 0xff,
            2 => dst.mask == 0xfe,
            4 => dst.mask == 0xfc || dst.mask == 0xf8,
            8 => dst.mask == 0xf8 || dst.mask == 0x80,
            _ => false,
        };
        let end: usize = dst.addr as usize + lut_nb;
        if !self.exists_reg(src) || !aligned || end > rtl.regf_params.reg_nb || end > 0x100
            || p.message_width >= usize::BITS as usize || p.carry_width >= usize::BITS as usize
            || p.message_width + p.carry_width >= usize::BITS as usize {
            return false;
        }
        match p.polynomial_size.checked_mul(8) {
            Some(size_b) => match checked_page_align(size_b) {
                Some(chunk_b) => {
                    assert(chunk_b * lut.id == lut.id * chunk_b) by (nonlinear_arith);
                    match chunk_b.checked_mul(lut.id as usize) {
                        Some(ofst) => checked_phys_addr(
                            self.params.lut_pc,
                            self.params.hbm_global_ofst,
                            self.params.hbm_pc_ofst,
                            ofst,
                        ).is_some(),
                        None => false,
                    }
                },
                None => false,
            },
            None => false,
        }
    }

    fn is_ok(&self, dop: DOp) -> (r: bool)
        ensures
            r == dop_ok(self.params, dop),
    {
        match dop {
            DOp::_START => true,
            DOp::_END => true,
            DOp::SYNC { .. } => true,
            DOp::ADD { dst, src1, src2 } => self.exists_reg(dst) && self.exists_reg(src1)
                && self.exists_reg(src2),
            DOp::SUB { dst, src1, src2 } => self.exists_reg(dst) && self.exists_reg(src1)
                && self.exists_reg(src2),
            DOp::MAC { dst, src1, src2, cst } => self.exists_reg(dst) && self.exists_reg(src1)
                && self.exists_reg(src2) && matches!(cst, PtArg::Const(_)),
            DOp::ADDS { dst, src, cst } => self.exists_reg(dst) && self.exists_reg(src)
                && self.is_encodable(cst),
            DOp::SUBS { dst, src, cst } => self.exists_reg(dst) && self.exists_reg(src)
                && self.is_encodable(cst),
            DOp::SSUB { dst, src, cst } => self.exists_reg(dst) && self.exists_reg(src)
                && self.is_encodable(cst),
            DOp::MULS { dst, src, cst } => self.exists_reg(dst) && self.exists_reg(src) && matches!(
                cst,
                PtArg::Const(_)
            ),
            DOp::LD { dst, src } => self.exists_reg(dst) && self.is_resolved(src),
            DOp::ST { dst, src } => self.exists_reg(src) && self.is_resolved(dst),
            DOp::PBS { dst, src, lut } => self.is_pbs_ok(1, dst, src, lut),
            DOp::PBS_F { dst, src, lut } => self.is_pbs_ok(1, dst, src, lut),
            DOp::PBS_ML2 { dst, src, lut } => self.is_pbs_ok(2, dst, src, lut),
            DOp::PBS_ML2_F { dst, src, lut } => self.is_pbs_ok(2, dst, src, lut),
            DOp::PBS_ML4 { dst, src, lut } => self.is_pbs_ok(4, dst, src, lut),
            DOp::PBS_ML4_F { dst, src, lut } => self.is_pbs_ok(4, dst, src, lut),
            DOp::PBS_ML8 { dst, src, lut } => self.is_pbs_ok(8, dst, src, lut),
            DOp::PBS_ML8_F { dst, src, lut } => self.is_pbs_ok(8, dst, src, lut),
            _ => false,
        }
    }
}

} // verus!
