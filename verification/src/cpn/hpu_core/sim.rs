//! Events of the scheduling model, and what they do to the instructions in flight.
use vstd::prelude::*;

use super::event::{Event, IscCommand, Trigger, NOTIFY_ISC, NOTIFY_START_ON_TIMEOUT};
use super::model::{
    command_of, hook_ok, hook_one, hooks, hooks_ok, trace_next, trace_pieces, DeferredView,
    HookView, HpuCoreView,
};
use super::run::pairs;
use super::trace::{record, SlotProperties};
use super::unit::HpuCore;
use crate::cpn::insn::DOp;
use crate::cpn::layout::to_phys_addr;
use crate::cpn::payload::{DOpPayload, DOpPayloadView, IOpPayload};

verus! {

/// What is left to do for a retired instruction.
#[derive(Debug)]
pub enum RetireStep {
    /// Nothing.
    Done,
    /// Acknowledge a barrier inside an operation.
    Ack { dop: DOpPayload },
    /// Report the end of an operation, then acknowledge its barrier.
    EndOfIOp { iop: IOpPayload, dop: DOpPayload },
}

/// Work that the events of a cycle put off to its end.
#[derive(Debug)]
pub struct Deferred {
    pub run: Vec<usize>,
    pub retire: Vec<DOpPayload>,
    pub trace: Vec<u8>,
    pub timeout: Vec<usize>,
}

impl View for Deferred {
    type V = DeferredView;

    open spec fn view(&self) -> DeferredView {
        DeferredView {
            run: self.run@,
            retire: Seq::new(self.retire@.len(), |i: int| self.retire@[i]@),
            trace: self.trace@,
            timeout: self.timeout@,
        }
    }
}

/// Events of a cycle that are not handled yet, and the work put off by the others.
#[derive(Debug)]
pub struct DeltaCycle {
    pub at: usize,
    pub batch: Vec<Trigger>,
    pub deferred: Deferred,
}

fn has_id(ids: &Vec<usize>, id: usize) -> (r: bool)
    ensures
        r == ids@.contains(id),
{
    for i in 0..ids.len()
        invariant
            forall|j: int| 0 <= j < i ==> ids@[j] != id,
    {
        if ids[i] == id {
            return true;
        }
    }
    false
}

impl HpuCore {
    /// Instructions in flight, and the work put off in a cycle.
    pub open spec fn hook_view(self, cycle: DeltaCycle) -> HookView {
        HookView { dops: self@.dop_map, deferred: cycle.deferred@ }
    }

    /// Retires an instruction.
    pub fn retire(&mut self, dop: DOpPayload) -> (r: RetireStep)
        requires
            old(self).wf(),
            old(self)@.retired_pc < usize::MAX,
            dop@.inner matches DOp::SYNC { is_inner, .. } ==> is_inner || old(self)@.iop_ctx.len()
                > 0,
        ensures
            final(self).params == old(self).params,
            final(self).wf(),
            match dop@.inner {
                DOp::SYNC { is_inner, .. } => if is_inner {
                    &&& r matches RetireStep::Ack { dop: ack }
                    &&& ack@ == dop@
                    &&& final(self)@ == (HpuCoreView {
                        retired_pc: old(self)@.retired_pc + 1,
                        ..old(self)@
                    })
                } else {
                    &&& r matches RetireStep::EndOfIOp { iop, dop: ack }
                    &&& iop@ == old(self)@.iop_ctx[0]
                    &&& ack@ == dop@
                    &&& final(self)@ == (HpuCoreView {
                        retired_pc: old(self)@.retired_pc + 1,
                        iop_ctx: old(self)@.iop_ctx.drop_first(),
                        ..old(self)@
                    })
                },
                _ => r is Done && final(self)@ == (HpuCoreView {
                    retired_pc: old(self)@.retired_pc + 1,
                    ..old(self)@
                }),
            },
    {
        self.inner.retired_pc = self.inner.retired_pc + 1;
        match dop.inner {
            DOp::SYNC { is_inner, .. } => {
                if is_inner {
                    return RetireStep::Ack { dop };
                }
                match self.inner.iop_ctx.pop_front() {
                    Some(iop) => {
                        assert(self@.iop_ctx =~= old(self)@.iop_ctx.drop_first());
                        RetireStep::EndOfIOp { iop, dop }
                    },
                    None => RetireStep::Ack { dop },
                }
            },
            _ => RetireStep::Done,
        }
    }

    /// Writes of some bytes of trace, in order: the address and the length of each. The
    /// trace memory is written in a wrapping manner: when it is full, its first bytes are
    /// written again. Nothing is written in an empty memory.
    pub fn trace_write(&mut self, len: usize) -> (r: Vec<(usize, usize)>)
        requires
            old(self).wf(),
        ensures
            final(self).params == old(self).params,
            final(self).wf(),
            final(self)@ == (HpuCoreView {
                trace_offset: trace_next(
                    old(self).params.trace_base(),
                    old(self).params.trace_size(),
                    old(self)@.trace_offset,
                    len as int,
                ),
                ..old(self)@
            }),
            pairs(r@) == trace_pieces(
                old(self).params.trace_base(),
                old(self).params.trace_size(),
                old(self)@.trace_offset,
                len as int,
            ),
    {
        let ghost base = self.params.trace_base();
        let ghost size = self.params.trace_size();
        let ghost start = self@.trace_offset;
        let mut r: Vec<(usize, usize)> = Vec::new();
        let size_b: usize = self.params.trace_depth * 0x10_0000;
        assert(pairs(r@) =~= Seq::<(int, int)>::empty());
        if size_b == 0 {
            return r;
        }
        let base_addr: usize = to_phys_addr(
            self.params.trace_pc,
            self.params.hbm_global_ofst,
            self.params.hbm_pc_ofst,
            0,
        );
        let mut addr: usize = self.inner.trace_offset;
        let mut left: usize = len;
        while left > 0
            invariant
                base == base_addr,
                size == size_b,
                base + size <= usize::MAX,
                base <= addr < base + size,
                trace_next(base, size, start, len as int) == trace_next(
                    base,
                    size,
                    addr as int,
                    left as int,
                ),
                trace_pieces(base, size, start, len as int) == pairs(r@) + trace_pieces(
                    base,
                    size,
                    addr as int,
                    left as int,
                ),
            decreases left,
        {
            let room: usize = base_addr + size_b - addr;
            let ghost before = pairs(r@);
            if left < room {
                r.push((addr, left));
                assert(pairs(r@) =~= before.push((addr as int, left as int)));
                assert(trace_pieces(base, size, addr as int, left as int) == seq![
                    (addr as int, left as int),
                ]);
                assert(pairs(r@) =~= trace_pieces(base, size, start, len as int));
                addr = addr + left;
                left = 0;
                assert(trace_pieces(base, size, addr as int, 0) =~= Seq::<(int, int)>::empty());
                assert(pairs(r@) + trace_pieces(base, size, addr as int, 0) =~= pairs(r@));
            } else {
                r.push((addr, room));
                assert(pairs(r@) =~= before.push((addr as int, room as int)));
                let ghost rest = trace_pieces(base, size, base, left - room);
                assert(before + (seq![(addr as int, room as int)] + rest) =~= pairs(r@) + rest);
                addr = base_addr;
                left = left - room;
            }
        }
        assert(pairs(r@) + Seq::<(int, int)>::empty() =~= pairs(r@));
        self.inner.trace_offset = addr;
        r
    }

    /// Takes the events of the next cycle. `None` is returned where there is no event.
    pub fn next_cycle(&mut self) -> (r: Option<DeltaCycle>)
        requires
            old(self).wf(),
        ensures
            final(self).params == old(self).params,
            final(self).wf(),
            final(self)@ == (HpuCoreView { sim_event: final(self)@.sim_event, ..old(self)@ }),
            match r {
                Some(cycle) => {
                    &&& old(self)@.sim_event.len() > 0
                    &&& cycle.at == old(self)@.sim_event[0].at
                    &&& cycle.batch@.len() > 0
                    &&& cycle.batch@ + final(self)@.sim_event == old(self)@.sim_event
                    &&& forall|i: int|
                        0 <= i < cycle.batch@.len() ==> (#[trigger] cycle.batch@[i]).at == cycle.at
                    &&& forall|i: int|
                        0 <= i < final(self)@.sim_event.len() ==> cycle.at < (
                        #[trigger] final(self)@.sim_event[i]).at
                    &&& cycle.deferred@ == (DeferredView {
                        run: Seq::empty(),
                        retire: Seq::empty(),
                        trace: Seq::empty(),
                        timeout: Seq::empty(),
                    })
                },
                None => old(self)@.sim_event.len() == 0 && final(self)@ == old(self)@,
            },
    {
        let batch = self.inner.sim_event.pop_batch();
        if batch.len() == 0 {
            assert(self@.sim_event =~= old(self)@.sim_event);
            return None;
        }
        let at: usize = batch[0].at;
        let deferred = Deferred {
            run: Vec::new(),
            retire: Vec::new(),
            trace: Vec::new(),
            timeout: Vec::new(),
        };
        assert(deferred@.retire =~= Seq::<DOpPayloadView>::empty());
        assert(batch@[0] == old(self)@.sim_event[0]);
        Some(DeltaCycle { at, batch, deferred })
    }

    /// Action that a number stands for.
    fn command(code: usize) -> (r: IscCommand)
        ensures
            r == command_of(code),
    {
        if code == 1 {
            IscCommand::RdUnlock
        } else if code == 2 {
            IscCommand::Retire
        } else if code == 3 {
            IscCommand::Refill
        } else if code == 4 {
            IscCommand::Issue
        } else {
            IscCommand::Idle
        }
    }

    /// Effect of an event on the instructions in flight.
    fn hook(
        &mut self,
        event: Event,
        slot: Option<SlotProperties>,
        timestamp: u32,
        cycle: &mut DeltaCycle,
    )
        requires
            old(self).wf(),
            hook_ok(old(self).hook_view(*old(cycle)), event),
        ensures
            final(self).params == old(self).params,
            final(self).wf(),
            final(self).hook_view(*final(cycle)) == hook_one(
                old(self).hook_view(*old(cycle)),
                event,
                slot,
                timestamp,
            ),
            final(self)@ == (HpuCoreView { dop_map: final(self)@.dop_map, ..old(self)@ }),
            final(cycle).at == old(cycle).at,
            final(cycle).batch@ == old(cycle).batch@,
    {
        let ghost h = self.hook_view(*cycle);
        if event.kind == NOTIFY_ISC {
            let cmd = Self::command(event.b);
            let slot = match slot {
                Some(slot) => slot,
                None => SlotProperties::default(),
            };
            match self.inner.dop_map.remove(event.a) {
                Some(mut dop) => {
                    dop.trace.push(cmd);
                    assert(dop@ =~= (DOpPayloadView {
                        trace: h.dops[event.a].trace.push(cmd),
                        ..h.dops[event.a]
                    }));
                    let mut entry = record(slot, cmd, timestamp);
                    cycle.deferred.trace.append(&mut entry);
                    let ghost retired = cycle.deferred@.retire;
                    if let IscCommand::Retire = cmd {
                        cycle.deferred.retire.push(dop);
                        assert(cycle.deferred@.retire =~= retired.push(dop@));
                    } else {
                        self.inner.dop_map.insert(event.a, dop);
                        assert(self@.dop_map =~= h.dops.insert(event.a, dop@));
                        if let IscCommand::RdUnlock = cmd {
                            cycle.deferred.run.push(event.a);
                        }
                    }
                },
                None => {},
            }
        } else if event.kind == NOTIFY_START_ON_TIMEOUT {
            cycle.deferred.timeout.push(event.a);
        }
        assert(self.hook_view(*cycle) =~= hook_one(h, event, slot, timestamp));
    }

    /// Whether the events of a cycle bear on instructions in flight.
    pub fn can_resolve(
        &self,
        cycle: &DeltaCycle,
        slots: &Vec<Option<SlotProperties>>,
        timestamp: u32,
    ) -> (r: bool)
        requires
            slots@.len() == cycle.batch@.len(),
        ensures
            r == hooks_ok(self.hook_view(*cycle), cycle.batch@, slots@, timestamp),
    {
        let ghost goal = hooks_ok(self.hook_view(*cycle), cycle.batch@, slots@, timestamp);
        let ghost mut h = self.hook_view(*cycle);
        let mut retired: Vec<usize> = Vec::new();
        let mut n: usize = cycle.batch.len();
        assert(cycle.batch@.take(n as int) =~= cycle.batch@);
        assert(slots@.take(n as int) =~= slots@);
        while n > 0
            invariant
                n <= cycle.batch@.len(),
                slots@.len() == cycle.batch@.len(),
                goal == hooks_ok(self.hook_view(*cycle), cycle.batch@, slots@, timestamp),
                goal == hooks_ok(h, cycle.batch@.take(n as int), slots@.take(n as int), timestamp),
                forall|id: usize| #[trigger]
                    h.dops.contains_key(id) <==> self@.dop_map.contains_key(id)
                        && !retired@.contains(id),
            decreases n,
        {
            let event = cycle.batch[n - 1].event;
            proof {
                assert(cycle.batch@.take(n as int).drop_last() =~= cycle.batch@.take(n - 1));
                assert(slots@.take(n as int).drop_last() =~= slots@.take(n - 1));
                assert(cycle.batch@.take(n as int).last() == cycle.batch@[n - 1]);
                assert(slots@.take(n as int).last() == slots@[n - 1]);
            }
            if event.kind == NOTIFY_ISC {
                if self.inner.dop_map.get(event.a).is_none() || has_id(&retired, event.a) {
                    return false;
                }
                if let IscCommand::Retire = Self::command(event.b) {
                    let ghost before = retired@;
                    retired.push(event.a);
                    assert(forall|id: usize| #[trigger] retired@.contains(id) <==> before.contains(id)
                        || id == event.a) by {
                        assert forall|id: usize| before.contains(id) implies retired@.contains(
                            id,
                        ) by {
                            let k = choose|k: int| 0 <= k < before.len() && before[k] == id;
                            assert(retired@[k] == id);
                        }
                        assert(retired@[before.len() as int] == event.a);
                    }
                }
            }
            proof {
                h = hook_one(h, event, slots@[n - 1], timestamp);
            }
            n = n - 1;
        }
        true
    }

    /// Hooks the events of a cycle, from the last one, once the scheduling model has
    /// handled them, then takes the next event of the same cycle. `slots` tells what
    /// the model knows of the instruction of each event.
    ///
    /// The result tells whether there is such an event.
    pub fn resolve(
        &mut self,
        cycle: &mut DeltaCycle,
        slots: &Vec<Option<SlotProperties>>,
        timestamp: u32,
    ) -> (r: bool)
        requires
            old(self).wf(),
            slots@.len() == old(cycle).batch@.len(),
            hooks_ok(old(self).hook_view(*old(cycle)), old(cycle).batch@, slots@, timestamp),
        ensures
            final(self).params == old(self).params,
            final(self).wf(),
            final(self).hook_view(*final(cycle)) == hooks(
                old(self).hook_view(*old(cycle)),
                old(cycle).batch@,
                slots@,
                timestamp,
            ),
            final(self)@ == (HpuCoreView {
                dop_map: final(self)@.dop_map,
                sim_event: final(self)@.sim_event,
                ..old(self)@
            }),
            final(cycle).at == old(cycle).at,
            ({
                let pending = old(self)@.sim_event;
                let more = pending.len() > 0 && pending[0].at == old(cycle).at;
                &&& r == more
                &&& final(cycle).batch@ == (if more {
                    seq![pending[0]]
                } else {
                    Seq::empty()
                })
                &&& final(self)@.sim_event == (if more {
                    pending.drop_first()
                } else {
                    pending
                })
            }),
    {
        let ghost h = self.hook_view(*cycle);
        let ghost batch = cycle.batch@;
        let ghost goal = hooks(h, batch, slots@, timestamp);
        let ghost pending = self@.sim_event;
        let ghost mut n: int = batch.len() as int;
        assert(batch.take(n) =~= batch);
        assert(slots@.take(n) =~= slots@);
        while cycle.batch.len() > 0
            invariant
                self.params == old(self).params,
                self.wf(),
                n == cycle.batch@.len(),
                0 <= n <= batch.len(),
                batch.len() == slots@.len(),
                cycle.batch@ == batch.take(n),
                cycle.at == old(cycle).at,
                hooks_ok(self.hook_view(*cycle), batch.take(n), slots@.take(n), timestamp),
                hooks(self.hook_view(*cycle), batch.take(n), slots@.take(n), timestamp) == goal,
                self@ == (HpuCoreView { dop_map: self@.dop_map, ..old(self)@ }),
            decreases cycle.batch@.len(),
        {
            let last: usize = cycle.batch.len() - 1;
            let slot = slots[last];
            proof {
                assert(batch.take(n).drop_last() =~= batch.take(n - 1));
                assert(slots@.take(n).drop_last() =~= slots@.take(n - 1));
                assert(batch.take(n).last() == batch[n - 1]);
                assert(slots@.take(n).last() == slots@[n - 1]);
            }
            let ghost before = self.hook_view(*cycle);
            match cycle.batch.pop() {
                Some(trigger) => {
                    assert(self.hook_view(*cycle) == before);
                    self.hook(trigger.event, slot, timestamp, cycle);
                },
                None => {},
            }
            proof {
                n = n - 1;
            }
        }
        match self.inner.sim_event.pop_delta(cycle.at) {
            Some(trigger) => {
                cycle.batch.push(trigger);
                assert(cycle.batch@ =~= seq![pending[0]]);
                true
            },
            None => {
                assert(cycle.batch@ =~= Seq::<Trigger>::empty());
                false
            },
        }
    }
}

} // verus!
