//! Content of the registers, for the reports.
use vstd::prelude::*;

use super::model::{decoded, dumped_reg, trivial};
use super::regfile::{coefs, reg_ok};
use super::unit::HpuCore;
use crate::cpn::insn::{CtReg, DOp};

verus! {

/// Content of a register, one line for each memory channel.
#[derive(Debug)]
pub enum RegDump {
    /// Coefficients that fit in half a word.
    Compact(Vec<Vec<u32>>),
    Wide(Vec<Vec<u64>>),
}

impl HpuCore {
    /// Register to dump after an instruction.
    pub fn dump_op_reg(&self, dop: DOp) -> (r: Option<u8>)
        ensures
            r == (if self.params.dump_reg {
                dumped_reg(dop)
            } else {
                None
            }),
    {
        if !self.params.dump_reg {
            return None;
        }
        match dop {
            DOp::LD { dst, .. } => Some(dst.addr),
            DOp::ST { src, .. } => Some(src.addr),
            DOp::ADDS { dst, .. } => Some(dst.addr),
            DOp::SUBS { dst, .. } => Some(dst.addr),
            DOp::SSUB { dst, .. } => Some(dst.addr),
            DOp::MULS { dst, .. } => Some(dst.addr),
            DOp::ADD { dst, .. } => Some(dst.addr),
            DOp::SUB { dst, .. } => Some(dst.addr),
            DOp::MAC { dst, .. } => Some(dst.addr),
            DOp::PBS { dst, .. } => Some(dst.addr),
            DOp::PBS_ML2 { dst, .. } => Some(dst.addr),
            DOp::PBS_ML4 { dst, .. } => Some(dst.addr),
            DOp::PBS_ML8 { dst, .. } => Some(dst.addr),
            DOp::PBS_F { dst, .. } => Some(dst.addr),
            DOp::PBS_ML2_F { dst, .. } => Some(dst.addr),
            DOp::PBS_ML4_F { dst, .. } => Some(dst.addr),
            DOp::PBS_ML8_F { dst, .. } => Some(dst.addr),
            _ => None,
        }
    }

    /// Content of a register. Coefficients are cut to half a word where the modulus
    /// fits in it.
    pub fn dump_regf(&self, reg: u8) -> (r: RegDump)
        requires
            self.wf(),
            reg < self@.regfile.len(),
        ensures
            match r {
                RegDump::Compact(lines) => {
                    &&& self.params.compute_params.ntt_params.ct_width <= 32
                    &&& lines@.len() == self@.regfile[reg as int].len()
                    &&& forall|pc: int|
                        0 <= pc < lines@.len() ==> (#[trigger] lines@[pc])@
                            == self@.regfile[reg as int][pc].map_values(|x: u64| x as u32)
                },
                RegDump::Wide(lines) => {
                    &&& self.params.compute_params.ntt_params.ct_width > 32
                    &&& lines@.len() == self@.regfile[reg as int].len()
                    &&& forall|pc: int|
                        0 <= pc < lines@.len() ==> (#[trigger] lines@[pc])@
                            == self@.regfile[reg as int][pc]
                },
            },
    {
        let source = &self.inner.regfile[reg as usize].pc_data;
        let ghost view = self@.regfile[reg as int];
        assert(view.len() == source@.len());
        if self.params.compute_params.ntt_params.ct_width <= 32 {
            let mut lines: Vec<Vec<u32>> = Vec::new();
            for pc in 0..source.len()
                invariant
                    view.len() == source@.len(),
                    forall|pc: int| 0 <= pc < view.len() ==> #[trigger] view[pc] == source@[pc]@,
                    lines@.len() == pc,
                    forall|j: int|
                        0 <= j < pc ==> (#[trigger] lines@[j])@ == view[j].map_values(
                            |x: u64| x as u32,
                        ),
            {
                let mut line: Vec<u32> = Vec::new();
                let len: usize = source[pc].len();
                for k in 0..len
                    invariant
                        pc < source@.len(),
                        len == source@[pc as int]@.len(),
                        line@.len() == k,
                        forall|j: int| 0 <= j < k ==> #[trigger] line@[j] == source@[pc as int]@[j] as u32,
                {
                    line.push(source[pc][k] as u32);
                }
                assert(view[pc as int] == source@[pc as int]@);
                assert(line@ =~= view[pc as int].map_values(|x: u64| x as u32));
                lines.push(line);
            }
            RegDump::Compact(lines)
        } else {
            let mut lines: Vec<Vec<u64>> = Vec::new();
            for pc in 0..source.len()
                invariant
                    view.len() == source@.len(),
                    forall|pc: int| 0 <= pc < view.len() ==> #[trigger] view[pc] == source@[pc]@,
                    lines@.len() == pc,
                    forall|j: int| 0 <= j < pc ==> (#[trigger] lines@[j])@ == view[j],
            {
                let line = source[pc].clone();
                assert(view[pc as int] == source@[pc as int]@);
                assert(line@ =~= view[pc as int]);
                lines.push(line);
            }
            RegDump::Wide(lines)
        }
    }

    /// Message with its carry and its padding bit, from the body of a ciphertext that
    /// is not encrypted.
    pub fn trivial_decode(&self, body: u64) -> (r: u64)
        requires
            self.params.compute_params.pbs_params.cleartext_width() < 64,
        ensures
            r == decoded(self.params.compute_params.pbs_params, body),
    {
        let p = self.params.compute_params.pbs_params;
        let width: u64 = (p.message_width + p.carry_width + 1) as u64;
        proof {
            assert(width < 64 ==> (1u64 << width) >= 1) by (bit_vector);
        }
        (body >> (64 - width)) & ((1u64 << width) - 1)
    }

    /// Body of a ciphertext that is not encrypted.
    pub fn trivial_encode(&self, clear: u64) -> (r: u64)
        requires
            self.params.compute_params.pbs_params.cleartext_width() <= 64,
        ensures
            r == trivial(self.params.compute_params.pbs_params, clear),
    {
        let p = self.params.compute_params.pbs_params;
        clear << ((64 - (p.message_width + p.carry_width + 1)) as u64)
    }

    /// Message in a register whose ciphertext is not encrypted.
    pub fn as_trivial(&self, reg: CtReg) -> (r: u64)
        requires
            self.wf(),
            reg.addr < self@.regfile.len(),
            self.params.compute_params.pbs_params.cleartext_width() < 64,
        ensures
            r == decoded(
                self.params.compute_params.pbs_params,
                coefs(self.params.compute_params, self@.regfile[reg.addr as int]).last(),
            ),
    {
        let rtl = &self.params.compute_params;
        assert(reg_ok(*rtl, self@.regfile[reg.addr as int]));
        assert(rtl.pbs_params.glwe_dimension * rtl.pbs_params.polynomial_size >= 0)
            by (nonlinear_arith);
        let last: usize = rtl.pbs_params.glwe_dimension * rtl.pbs_params.polynomial_size;
        let body: u64 = self.inner.regfile[reg.addr as usize].get(rtl, last);
        self.trivial_decode(body)
    }
}

} // verus!
