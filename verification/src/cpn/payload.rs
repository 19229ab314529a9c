//! Operations and instructions on their way through a node.
use std::collections::HashMap;

use vstd::prelude::*;

use super::hpu_core::event::IscCommand;
use super::insn::DOp;
use super::iop::{IOp, IOpView};

verus! {

/// Instruction handed to the computation core.
#[derive(Debug)]
pub struct DOpPayload {
    pub inner: DOp,
    /// Readable form of the instruction, for traces only.
    pub asm_view: String,
    /// Actions of the scheduler on the instruction, in order.
    pub trace: Vec<IscCommand>,
}

/// Abstract value of a `DOpPayload`.
#[verifier::ext_equal]
pub struct DOpPayloadView {
    pub inner: DOp,
    pub asm_view: Seq<char>,
    pub trace: Seq<IscCommand>,
}

impl View for DOpPayload {
    type V = DOpPayloadView;

    open spec fn view(&self) -> DOpPayloadView {
        DOpPayloadView { inner: self.inner, asm_view: self.asm_view@, trace: self.trace@ }
    }
}

impl DOpPayload {
    /// Instruction that no one has acted on.
    pub fn new(dop: DOp, asm_view: String) -> (r: DOpPayload)
        ensures
            r@ == (DOpPayloadView { inner: dop, asm_view: asm_view@, trace: Seq::empty() }),
    {
        DOpPayload { inner: dop, asm_view, trace: Vec::new() }
    }
}

/// Operation handed to the computation core, with what is reported of its execution.
#[derive(Debug)]
pub struct IOpPayload {
    pub inner: IOp,
    /// Instructions, in the order of their execution.
    pub exec_order: Vec<DOp>,
    /// Last instruction of each batch that was started by a timeout.
    pub batch_timeout: Vec<usize>,
    /// Whether the keys have to be read again.
    pub fresh_start: bool,
}

/// Abstract value of an `IOpPayload`.
#[verifier::ext_equal]
pub struct IOpPayloadView {
    pub inner: IOpView,
    pub exec_order: Seq<DOp>,
    pub batch_timeout: Seq<usize>,
    pub fresh_start: bool,
}

impl View for IOpPayload {
    type V = IOpPayloadView;

    open spec fn view(&self) -> IOpPayloadView {
        IOpPayloadView {
            inner: self.inner@,
            exec_order: self.exec_order@,
            batch_timeout: self.batch_timeout@,
            fresh_start: self.fresh_start,
        }
    }
}

impl IOpPayload {
    /// Operation of which nothing was executed.
    pub fn new(iop: IOp) -> (r: IOpPayload)
        ensures
            r@ == (IOpPayloadView {
                inner: iop@,
                exec_order: Seq::empty(),
                batch_timeout: Seq::empty(),
                fresh_start: false,
            }),
    {
        IOpPayload {
            inner: iop,
            exec_order: Vec::new(),
            batch_timeout: Vec::new(),
            fresh_start: false,
        }
    }
}

/// Instructions that are not retired yet, by their number.
pub struct DOpMap {
    pub dops: HashMap<usize, DOpPayload>,
}

impl View for DOpMap {
    type V = Map<usize, DOpPayloadView>;

    open spec fn view(&self) -> Map<usize, DOpPayloadView> {
        self.dops@.map_values(|dop: DOpPayload| dop@)
    }
}

impl DOpMap {
    /// No instruction.
    pub fn new() -> (r: DOpMap)
        ensures
            r@ == Map::<usize, DOpPayloadView>::empty(),
    {
        let r = DOpMap { dops: HashMap::new() };
        assert(r@ =~= Map::<usize, DOpPayloadView>::empty());
        r
    }

    /// Registers an instruction.
    pub fn insert(&mut self, id: usize, dop: DOpPayload)
        ensures
            final(self)@ == old(self)@.insert(id, dop@),
    {
        broadcast use vstd::std_specs::hash::group_hash_axioms;

        self.dops.insert(id, dop);
        assert(self@ =~= old(self)@.insert(id, dop@));
    }

    /// Instruction with a number.
    pub fn get(&self, id: usize) -> (r: Option<DOp>)
        ensures
            match r {
                Some(dop) => self@.contains_key(id) && dop == self@[id].inner,
                None => !self@.contains_key(id),
            },
    {
        broadcast use vstd::std_specs::hash::group_hash_axioms;

        match self.dops.get(&id) {
            Some(dop) => Some(dop.inner),
            None => None,
        }
    }

    /// Takes an instruction out.
    pub fn remove(&mut self, id: usize) -> (r: Option<DOpPayload>)
        ensures
            match r {
                Some(dop) => old(self)@.contains_key(id) && dop@ == old(self)@[id] && final(self)@
                    == old(self)@.remove(id),
                None => !old(self)@.contains_key(id) && final(self)@ == old(self)@,
            },
    {
        broadcast use vstd::std_specs::hash::group_hash_axioms;

        let r = self.dops.remove(&id);
        if r.is_some() {
            assert(self@ =~= old(self)@.remove(id));
        } else {
            assert(self@ =~= old(self)@);
        }
        r
    }
}

} // verus!
