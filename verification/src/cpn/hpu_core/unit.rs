//! Computation core with its parameters.
use std::collections::VecDeque;

use vstd::prelude::*;

use super::event::{due, Event, HpuEventStore, ISC_PUSH_DOP};
use super::model::{is_ucore, rd, HpuCoreParams, HpuCoreView};
use super::pbs::ServerKey;
use super::regfile::{reg_ok, reg_write, shape_ok, HpuLweCiphertext};
use crate::cpn::insn::{CtReg, DOp};
use crate::cpn::layout::{checked_phys_addr, phys_addr, to_phys_addr, MemKind};
use crate::cpn::payload::{DOpMap, DOpPayload, DOpPayloadView, IOpPayload, IOpPayloadView};
use crate::params::hpu::HpuParameters;

verus! {

/// State of a computation core.
pub struct HpuCoreInner {
    pub regfile: Vec<HpuLweCiphertext>,
    /// Number of instructions received, executed and retired.
    pub refilled_pc: usize,
    pub issued_pc: usize,
    pub retired_pc: usize,
    /// Operations in flight.
    pub iop_ctx: VecDeque<IOpPayload>,
    /// Events of the scheduling model.
    pub sim_event: HpuEventStore,
    /// Instructions in flight.
    pub dop_map: DOpMap,
    /// Address of the next byte of the trace.
    pub trace_offset: usize,
    /// Keys of the server, once they are read.
    pub sks: Option<ServerKey>,
}

impl View for HpuCoreInner {
    type V = HpuCoreView;

    open spec fn view(&self) -> HpuCoreView {
        HpuCoreView {
            regfile: Seq::new(self.regfile@.len(), |i: int| self.regfile@[i]@),
            refilled_pc: self.refilled_pc as int,
            issued_pc: self.issued_pc as int,
            retired_pc: self.retired_pc as int,
            iop_ctx: Seq::new(self.iop_ctx@.len(), |i: int| self.iop_ctx@[i]@),
            sim_event: self.sim_event@,
            dop_map: self.dop_map@,
            trace_offset: self.trace_offset as int,
            sks: match self.sks {
                Some(keys) => Some((keys.ksk@, keys.bsk@)),
                None => None,
            },
        }
    }
}

impl HpuCoreInner {
    /// State of a core that has not received anything: its registers are null.
    pub fn new(params: &HpuCoreParams) -> (r: HpuCoreInner)
        requires
            shape_ok(params.compute_params),
            params.trace_fits(),
        ensures
            r@.wf(params.compute_params),
            forall|i: int, pc: int, k: int|
                0 <= i < r@.regfile.len() && 0 <= pc < r@.regfile[i].len() && 0 <= k
                    < r@.regfile[i][pc].len() ==> #[trigger] r@.regfile[i][pc][k] == 0,
            r@.refilled_pc == 0,
            r@.issued_pc == 0,
            r@.retired_pc == 0,
            r@.iop_ctx.len() == 0,
            r@.sim_event.len() == 0,
            r@.dop_map == Map::<usize, DOpPayloadView>::empty(),
            r@.trace_offset == params.trace_base(),
            r@.sks is None,
    {
        let mut regfile: Vec<HpuLweCiphertext> = Vec::new();
        for n in 0..params.compute_params.regf_params.reg_nb
            invariant
                shape_ok(params.compute_params),
                regfile@.len() == n,
                forall|i: int|
                    0 <= i < n ==> reg_ok(params.compute_params, (#[trigger] regfile@[i])@),
                forall|i: int, pc: int, k: int|
                    0 <= i < n && 0 <= pc < regfile@[i]@.len() && 0 <= k < regfile@[i]@[pc].len()
                        ==> #[trigger] regfile@[i]@[pc][k] == 0,
        {
            regfile.push(HpuLweCiphertext::new(&params.compute_params));
        }
        proof {
            assert(params.trace_size() >= 0);
        }
        let trace_offset: usize = to_phys_addr(
            params.trace_pc,
            params.hbm_global_ofst,
            params.hbm_pc_ofst,
            0,
        );
        let r = HpuCoreInner {
            regfile,
            refilled_pc: 0,
            issued_pc: 0,
            retired_pc: 0,
            iop_ctx: VecDeque::new(),
            sim_event: HpuEventStore::new(),
            dop_map: DOpMap::new(),
            trace_offset,
            sks: None,
        };
        assert forall|i: int| 0 <= i < r@.regfile.len() implies reg_ok(
            params.compute_params,
            #[trigger] r@.regfile[i],
        ) by {
            assert(reg_ok(params.compute_params, r.regfile@[i]@));
        }
        r
    }

    /// Ciphertext in a register.
    pub(crate) fn reg2cpu(&self, rtl: &HpuParameters, reg: CtReg) -> (r: Vec<u64>)
        requires
            self@.wf(*rtl),
            reg.addr < self@.regfile.len(),
        ensures
            r@ == rd(*rtl, self@.regfile, reg),
            r@.len() == rtl.pbs_params.big_lwe_size(),
            r@.len() > 0,
    {
        assert(reg_ok(*rtl, self@.regfile[reg.addr as int]));
        assert(rtl.pbs_params.glwe_dimension * rtl.pbs_params.polynomial_size >= 0)
            by (nonlinear_arith);
        self.regfile[reg.addr as usize].reg2cpu(rtl)
    }

    /// Writes a ciphertext in a register.
    pub(crate) fn cpu2reg(&mut self, rtl: &HpuParameters, addr: u8, cpu: &Vec<u64>)
        requires
            old(self)@.wf(*rtl),
            addr < old(self)@.regfile.len(),
            cpu@.len() == rtl.pbs_params.big_lwe_size(),
        ensures
            final(self)@.wf(*rtl),
            final(self)@ == (HpuCoreView {
                regfile: old(self)@.regfile.update(addr as int, reg_write(*rtl, cpu@)),
                ..old(self)@
            }),
    {
        let reg = HpuLweCiphertext::cpu2reg(cpu, rtl);
        self.regfile.set(addr as usize, reg);
        assert(self@.regfile =~= old(self)@.regfile.update(addr as int, reg_write(*rtl, cpu@)));
        assert forall|i: int| 0 <= i < self@.regfile.len() implies reg_ok(
            *rtl,
            #[trigger] self@.regfile[i],
        ) by {
            assert(reg_ok(*rtl, old(self)@.regfile[i]));
        }
    }

    /// Appends an instruction to the execution order of the current operation.
    pub(crate) fn note_exec(&mut self, dop: DOp)
        requires
            old(self)@.iop_ctx.len() > 0,
        ensures
            final(self)@ == (HpuCoreView {
                iop_ctx: old(self)@.iop_ctx.update(
                    0,
                    (IOpPayloadView {
                        exec_order: old(self)@.iop_ctx[0].exec_order.push(dop),
                        ..old(self)@.iop_ctx[0]
                    }),
                ),
                ..old(self)@
            }),
    {
        let ghost ctx = self@.iop_ctx;
        let ghost noted = IOpPayloadView {
            exec_order: ctx[0].exec_order.push(dop),
            ..ctx[0]
        };
        match self.iop_ctx.pop_front() {
            Some(mut iop) => {
                iop.exec_order.push(dop);
                assert(iop@ =~= noted);
                self.iop_ctx.push_front(iop);
                assert(self@.iop_ctx =~= ctx.update(0, noted));
            },
            None => {},
        }
    }

    /// Appends the batches started by a timeout to the report of the current
    /// operation.
    pub fn note_timeout(&mut self, last_in: &Vec<usize>)
        requires
            last_in@.len() > 0 ==> old(self)@.iop_ctx.len() > 0,
        ensures
            final(self)@ == (if last_in@.len() == 0 {
                old(self)@
            } else {
                HpuCoreView {
                    iop_ctx: old(self)@.iop_ctx.update(
                        0,
                        (IOpPayloadView {
                            batch_timeout: old(self)@.iop_ctx[0].batch_timeout + last_in@,
                            ..old(self)@.iop_ctx[0]
                        }),
                    ),
                    ..old(self)@
                }
            }),
    {
        if last_in.len() == 0 {
            return;
        }
        let ghost ctx = self@.iop_ctx;
        let ghost noted = IOpPayloadView {
            batch_timeout: ctx[0].batch_timeout + last_in@,
            ..ctx[0]
        };
        match self.iop_ctx.pop_front() {
            Some(mut iop) => {
                let mut more = last_in.clone();
                iop.batch_timeout.append(&mut more);
                assert(iop@ =~= noted);
                self.iop_ctx.push_front(iop);
                assert(self@.iop_ctx =~= ctx.update(0, noted));
            },
            None => {},
        }
    }
}

impl HpuCoreParams {
    /// Whether the trace memory is addressable.
    pub fn has_trace(&self) -> (r: bool)
        ensures
            r == self.trace_fits(),
    {
        match (
            checked_phys_addr(self.trace_pc, self.hbm_global_ofst, self.hbm_pc_ofst, 0),
            self.trace_depth.checked_mul(0x10_0000),
        ) {
            (Some(base), Some(size)) => base.checked_add(size).is_some(),
            _ => {
                proof {
                    lemma_phys_addr_positive(
                        self.trace_pc,
                        self.hbm_global_ofst,
                        self.hbm_pc_ofst,
                    );
                }
                false
            },
        }
    }
}

proof fn lemma_phys_addr_positive(mem: MemKind, hbm_global_ofst: usize, hbm_pc_ofst: usize)
    ensures
        phys_addr(mem, hbm_global_ofst as int, hbm_pc_ofst as int, 0) >= 0,
{
    if let MemKind::Hbm { pc } = mem {
        assert(pc * hbm_pc_ofst >= 0) by (nonlinear_arith);
    }
}

/// Computation core of a node.
pub struct HpuCore {
    pub params: HpuCoreParams,
    pub inner: HpuCoreInner,
}

impl View for HpuCore {
    type V = HpuCoreView;

    open spec fn view(&self) -> HpuCoreView {
        self.inner@
    }
}

impl HpuCore {
    /// What every core satisfies.
    pub open spec fn wf(self) -> bool {
        &&& self@.wf(self.params.compute_params)
        &&& self.params.trace_fits()
        &&& self.params.in_trace(self@.trace_offset)
    }

    /// A core that has not received anything.
    pub fn new(params: HpuCoreParams) -> (r: HpuCore)
        requires
            shape_ok(params.compute_params),
            params.trace_fits(),
        ensures
            r.params == params,
            r.wf(),
            forall|i: int, pc: int, k: int|
                0 <= i < r@.regfile.len() && 0 <= pc < r@.regfile[i].len() && 0 <= k
                    < r@.regfile[i][pc].len() ==> #[trigger] r@.regfile[i][pc][k] == 0,
            r@.refilled_pc == 0,
            r@.issued_pc == 0,
            r@.retired_pc == 0,
            r@.iop_ctx.len() == 0,
            r@.sim_event.len() == 0,
            r@.dop_map == Map::<usize, DOpPayloadView>::empty(),
            r@.trace_offset == params.trace_base(),
            r@.sks is None,
    {
        let inner = HpuCoreInner::new(&params);
        HpuCore { params, inner }
    }

    /// Receives an operation.
    pub fn ctx_feed(&mut self, iop: IOpPayload)
        requires
            old(self).wf(),
        ensures
            final(self).params == old(self).params,
            final(self).wf(),
            final(self)@ == (HpuCoreView {
                iop_ctx: old(self)@.iop_ctx.push(iop@),
                ..old(self)@
            }),
    {
        self.inner.iop_ctx.push_back(iop);
        assert(self@.iop_ctx =~= old(self)@.iop_ctx.push(iop@));
    }

    /// Receives an instruction at cycle `now`: it gets the next number, and an event
    /// hands it to the scheduling model in the same cycle.
    pub fn inner_feed(&mut self, dop: DOpPayload, now: usize) -> (r: usize)
        requires
            old(self).wf(),
            !is_ucore(dop@.inner),
            old(self)@.refilled_pc < usize::MAX,
        ensures
            final(self).params == old(self).params,
            final(self).wf(),
            r == old(self)@.refilled_pc,
            !old(self)@.dop_map.contains_key(r),
            ({
                let t = due(Event { kind: ISC_PUSH_DOP, a: r, b: 0 }, now, None);
                &&& old(self)@.sim_event.contains(t) ==> final(self)@.sim_event
                    == old(self)@.sim_event
                &&& !old(self)@.sim_event.contains(t) ==> exists|k: int|
                    0 <= k <= old(self)@.sim_event.len() && final(self)@.sim_event
                        == #[trigger] old(self)@.sim_event.insert(k, t)
            }),
            final(self)@ == (HpuCoreView {
                refilled_pc: old(self)@.refilled_pc + 1,
                dop_map: old(self)@.dop_map.insert(r, dop@),
                sim_event: final(self)@.sim_event,
                ..old(self)@
            }),
    {
        let id: usize = self.inner.refilled_pc;
        self.inner.dop_map.insert(id, dop);
        self.inner.sim_event.dispatch(Event { kind: ISC_PUSH_DOP, a: id, b: 0 }, now, None);
        self.inner.refilled_pc = id + 1;
        assert forall|k: usize| #[trigger] self@.dop_map.contains_key(k) implies k
            < self@.refilled_pc by {
            if k != id {
                assert(old(self)@.dop_map.contains_key(k));
            }
        }
        id
    }
}

} // verus!
