//! Progress of the translation of an operation and of its end.
//!
//! Both alternate decisions and work that is done elsewhere: messages, transfers, and
//! waits. Each step tells what has to be done before the next one.
use vstd::prelude::*;

use super::machine::{closing_sync, resume_with};
use super::model::{
    done_pkts, dst_pkt, end_sync, exec_ok, exec_state, exec_step, is_resolved, mode_ok, owned_keys,
    resolved_in, teardown_state, with_slot, CtrlPkt, DmaReq, Step, UCoreView, VarMode,
};
use super::store::{dst_var_index, owned_blocks, used_blocks, DstNotifyOrder, DstVarState};
use super::unit::UCore;
use crate::cpn::insn::{DOp, IOpId, NodeId};
use crate::cpn::iop::{IOp, IOpView};

verus! {

/// Instruction stream of the current operation, and how much of it is translated.
#[derive(Debug)]
pub struct Translation {
    pub dops: Vec<DOp>,
    /// Number of instructions translated.
    pub pos: usize,
    /// Transfer that has to be resolved before the translation goes on, and the
    /// instruction that needs its data, if any.
    pub held: Option<(VarMode, Option<DOp>)>,
    /// Whether the barrier that ends the operation was sent.
    pub closed: bool,
}

/// Abstract value of a `Translation`.
#[verifier::ext_equal]
pub struct TranslationView {
    pub dops: Seq<DOp>,
    pub pos: int,
    pub held: Option<(VarMode, Option<DOp>)>,
    pub closed: bool,
}

impl View for Translation {
    type V = TranslationView;

    open spec fn view(&self) -> TranslationView {
        TranslationView {
            dops: self.dops@,
            pos: self.pos as int,
            held: self.held,
            closed: self.closed,
        }
    }
}

impl TranslationView {
    pub open spec fn wf(self) -> bool {
        &&& 0 <= self.pos <= self.dops.len()
        &&& self.held matches Some((key, _)) ==> mode_ok(key) && !(key is ArgDst)
        &&& self.closed ==> self.pos == self.dops.len() && self.held is None
    }
}

/// What a step of a translation asks for.
#[derive(Clone, Copy, Debug, PartialEq, Eq)]
pub enum Progress {
    /// Take the next step.
    Continue,
    /// Send an instruction to the computation core.
    Send(DOp),
    /// Start a transfer.
    Fetch(DmaReq),
    /// Wait for a transfer to be resolved.
    Hang(VarMode),
    /// The operation is translated.
    Over,
}

/// A step of a translation can be taken.
pub open spec fn translate_ok(s: UCoreView, ct_total: int, t: TranslationView) -> bool {
    &&& t.wf()
    &&& s.cur_iop is Some
    &&& t.held is None && t.pos < t.dops.len() ==> {
        &&& exec_ok(s, ct_total, t.dops[t.pos])
        &&& exec_step(s, ct_total, t.dops[t.pos]) matches Step::Wait(key) ==> mode_ok(key)
    }
}

/// State after a step of a translation.
pub open spec fn translate_state(
    s: UCoreView,
    ct_total: int,
    pem_pc: usize,
    t: TranslationView,
) -> UCoreView {
    if t.held is None && t.pos < t.dops.len() {
        exec_state(s, ct_total, pem_pc, t.dops[t.pos])
    } else {
        s
    }
}

/// Translation after a step.
pub open spec fn translate_next(s: UCoreView, ct_total: int, t: TranslationView) -> TranslationView {
    match t.held {
        Some((key, _)) => if is_resolved(s, key) {
            TranslationView { held: None, ..t }
        } else {
            t
        },
        None => if t.pos < t.dops.len() {
            let held = match exec_step(s, ct_total, t.dops[t.pos]) {
                Step::Wait(key) => Some((key, None)),
                Step::FetchThenDefer { key, dop, .. } => Some((key, Some(dop))),
                _ => None,
            };
            TranslationView { pos: t.pos + 1, held, ..t }
        } else {
            TranslationView { closed: true, ..t }
        },
    }
}

/// What a step of a translation asks for.
pub open spec fn translate_action(s: UCoreView, ct_total: int, t: TranslationView) -> Progress {
    match t.held {
        Some((key, dop)) => if is_resolved(s, key) {
            match dop {
                Some(dop) => Progress::Send(with_slot(dop, resolved_in(s, key)->0)),
                None => Progress::Continue,
            }
        } else {
            Progress::Hang(key)
        },
        None => if t.pos < t.dops.len() {
            match exec_step(s, ct_total, t.dops[t.pos]) {
                Step::Defer(dop) => Progress::Send(dop),
                Step::Wait(_) => Progress::Continue,
                Step::Fetch(Some(req)) => Progress::Fetch(req),
                Step::Fetch(None) => Progress::Continue,
                Step::FetchThenDefer { req: Some(req), .. } => Progress::Fetch(req),
                Step::FetchThenDefer { req: None, .. } => Progress::Continue,
            }
        } else if !t.closed {
            Progress::Send(end_sync(s.cur_iop->0.iid()))
        } else {
            Progress::Over
        },
    }
}

impl Translation {
    /// Translation of an instruction stream, before its first step.
    pub fn new(dops: Vec<DOp>) -> (r: Translation)
        ensures
            r@ == (TranslationView { dops: dops@, pos: 0, held: None, closed: false }),
            r@.wf(),
    {
        Translation { dops, pos: 0, held: None, closed: false }
    }
}

impl UCore {
    /// Takes a step of the translation of the current operation.
    pub fn translate(&mut self, t: &mut Translation) -> (r: Progress)
        requires
            old(self).params.ok(),
            old(self)@.wf(),
            translate_ok(old(self)@, old(self).params.ct_total(), old(t)@),
        ensures
            final(self).params == old(self).params,
            final(self)@.wf(),
            final(self)@ == translate_state(
                old(self)@,
                old(self).params.ct_total(),
                old(self).params.pem_pc(),
                old(t)@,
            ),
            final(t)@ == translate_next(old(self)@, old(self).params.ct_total(), old(t)@),
            final(t)@.wf(),
            r == translate_action(old(self)@, old(self).params.ct_total(), old(t)@),
    {
        if let Some((key, dop)) = t.held {
            return match self.inner.get_resolved(key) {
                Some(cid) => {
                    t.held = None;
                    match dop {
                        Some(dop) => Progress::Send(resume_with(dop, cid)),
                        None => Progress::Continue,
                    }
                },
                None => Progress::Hang(key),
            };
        }
        if t.pos < t.dops.len() {
            let dop = t.dops[t.pos];
            t.pos = t.pos + 1;
            return match self.exec_or_deferred(dop) {
                Step::Defer(dop) => Progress::Send(dop),
                Step::Wait(key) => {
                    t.held = Some((key, None));
                    Progress::Continue
                },
                Step::Fetch(Some(req)) => Progress::Fetch(req),
                Step::Fetch(None) => Progress::Continue,
                Step::FetchThenDefer { req, key, dop } => {
                    t.held = Some((key, Some(dop)));
                    match req {
                        Some(req) => Progress::Fetch(req),
                        None => Progress::Continue,
                    }
                },
            };
        }
        if t.closed {
            return Progress::Over;
        }
        t.closed = true;
        match &self.inner.local_store.cur_iop {
            Some(iop) => Progress::Send(closing_sync(iop.get_iid())),
            None => Progress::Over,
        }
    }

    /// Whether a step of a translation can be taken.
    pub fn can_translate(&self, t: &Translation) -> (r: bool)
        requires
            self.params.ok(),
            self@.wf(),
            t@.wf(),
        ensures
            r == translate_ok(self@, self.params.ct_total(), t@),
    {
        let iid = match &self.inner.local_store.cur_iop {
            Some(iop) => iop.get_iid(),
            None => {
                return false;
            },
        };
        if t.held.is_some() || t.pos >= t.dops.len() {
            return true;
        }
        let dop = t.dops[t.pos];
        let ct_total: usize = self.params.ct_user + self.params.ct_b2b + self.params.ct_heap;
        self.inner.can_exec(ct_total, dop) && match dop {
            DOp::WAIT { flag, .. } => super::guard::has_mode(VarMode::User { iid, flag }),
            _ => true,
        }
    }
}

/// Progress of the end of an operation.
#[derive(Debug)]
pub enum TeardownStage {
    /// The blocks produced for other nodes are not signalled yet.
    Signal,
    /// The blocks that this node owns are not listed yet.
    List,
    /// The blocks from a position of the list on are not known to be resolved.
    Await { keys: Vec<VarMode>, pos: usize },
    /// The other nodes know that this one is done.
    Told,
    /// The operation is forgotten.
    Over,
}

/// Abstract value of a `TeardownStage`.
#[verifier::ext_equal]
pub enum TeardownView {
    Signal,
    List,
    Await { keys: Seq<VarMode>, pos: int },
    Told,
    Over,
}

impl View for TeardownStage {
    type V = TeardownView;

    open spec fn view(&self) -> TeardownView {
        match self {
            TeardownStage::Signal => TeardownView::Signal,
            TeardownStage::List => TeardownView::List,
            TeardownStage::Await { keys, pos } => TeardownView::Await {
                keys: keys@,
                pos: *pos as int,
            },
            TeardownStage::Told => TeardownView::Told,
            TeardownStage::Over => TeardownView::Over,
        }
    }
}

/// What a step of the end of an operation asks for.
#[derive(Debug)]
pub enum TeardownAction {
    /// Take the next step.
    Continue,
    /// Send some messages.
    Send(Vec<CtrlPkt>),
    /// Wait for a block to be resolved.
    Hang(VarMode),
    /// Report the end of an operation to the host.
    Report(IOp),
    /// Nothing is left to do.
    Over,
}

/// Operation that ends, with the node that ends it and the number of nodes involved.
#[derive(Clone, Copy, Debug, PartialEq, Eq, Structural)]
pub struct Ending {
    pub hid: NodeId,
    pub iid: IOpId,
    pub iop_nodes: u8,
}

/// A step of the end of an operation can be taken.
pub open spec fn teardown_ok(s: UCoreView, e: Ending, t: TeardownView) -> bool {
    match t {
        TeardownView::Signal => s.dst_notifyq.len() > 0,
        TeardownView::Await { keys, pos } => {
            &&& 0 <= pos <= keys.len()
            &&& forall|i: int| 0 <= i < keys.len() ==> mode_ok(#[trigger] keys[i])
        },
        TeardownView::Told => {
            &&& s.iop_state[e.iid.0 as int] == 0 ==> e.iop_nodes >= 1
            &&& s.iop_pdg.len() > 0
        },
        _ => true,
    }
}

/// State after a step of the end of an operation.
pub open spec fn teardown_step_state(s: UCoreView, e: Ending, t: TeardownView) -> UCoreView {
    match t {
        TeardownView::Signal => UCoreView { dst_notifyq: s.dst_notifyq.drop_first(), ..s },
        TeardownView::Told => {
            let ended = teardown_state(s, e.iid, e.iop_nodes);
            UCoreView { iop_pdg: ended.iop_pdg.drop_first(), ..ended }
        },
        _ => s,
    }
}

/// Stage after a step of the end of an operation.
pub open spec fn teardown_next(s: UCoreView, e: Ending, t: TeardownView) -> TeardownView {
    match t {
        TeardownView::Signal => TeardownView::List,
        TeardownView::List => TeardownView::Await { keys: owned_keys(s, e.iid), pos: 0 },
        TeardownView::Await { keys, pos } => if pos >= keys.len() {
            TeardownView::Told
        } else if is_resolved(s, keys[pos]) {
            TeardownView::Await { keys, pos: pos + 1 }
        } else {
            t
        },
        _ => TeardownView::Over,
    }
}

/// The action is the one that a step of the end of an operation asks for.
pub open spec fn teardown_asks(
    s: UCoreView,
    nodes: Seq<u8>,
    e: Ending,
    t: TeardownView,
    action: TeardownAction,
) -> bool {
    match t {
        TeardownView::Signal => {
            &&& action matches TeardownAction::Send(pkts)
            &&& pkts@ == s.dst_notifyq[0].map_values(
                |order: DstNotifyOrder| dst_pkt(s.node_id, e.iid, order),
            )
        },
        TeardownView::List => action is Continue,
        TeardownView::Await { keys, pos } => if pos >= keys.len() {
            &&& action matches TeardownAction::Send(pkts)
            &&& pkts@ == done_pkts(nodes, e.hid, e.iid, e.iop_nodes, nodes.len() as int)
        } else if is_resolved(s, keys[pos]) {
            action is Continue
        } else {
            action matches TeardownAction::Hang(key) && key == keys[pos]
        },
        TeardownView::Told => action matches TeardownAction::Report(iop) && iop@ == s.iop_pdg[0],
        TeardownView::Over => action is Over,
    }
}

/// The blocks that a node owns have a position in the store.
proof fn lemma_owned_blocks(
    owner: Seq<NodeId>,
    store: Seq<DstVarState>,
    iid: IOpId,
    hid: NodeId,
    n: int,
)
    requires
        n <= 64,
    ensures
        forall|i: int|
            0 <= i < owned_blocks(owner, store, iid, hid, n).len() ==> {
                let b = #[trigger] owned_blocks(owner, store, iid, hid, n)[i];
                b.0 < 64 && b.1 < 64
            },
    decreases n,
{
    if n > 0 {
        lemma_owned_blocks(owner, store, iid, hid, n - 1);
        lemma_used_blocks(store, dst_var_index(iid, n - 1) * 64, 0);
        let before = owned_blocks(owner, store, iid, hid, n - 1);
        let blocks = owned_blocks(owner, store, iid, hid, n);
        assert forall|i: int| 0 <= i < blocks.len() implies {
            let b = #[trigger] blocks[i];
            b.0 < 64 && b.1 < 64
        } by {
            if i < before.len() {
                assert(blocks[i] == before[i]);
            } else {
                assert(blocks[i] == ((n - 1) as u8, (i - before.len()) as u8));
            }
        }
    }
}

proof fn lemma_used_blocks(store: Seq<DstVarState>, base: int, b: int)
    requires
        0 <= b <= 64,
    ensures
        b <= used_blocks(store, base, b) <= 64,
    decreases 64 - b,
{
    if b < 64 {
        lemma_used_blocks(store, base, b + 1);
    }
}

proof fn lemma_owned_keys(s: UCoreView, iid: IOpId)
    ensures
        forall|i: int|
            0 <= i < owned_keys(s, iid).len() ==> mode_ok(#[trigger] owned_keys(s, iid)[i]),
{
    lemma_owned_blocks(s.owner, s.dst, iid, NodeId(s.node_id), 64);
    let blocks = owned_blocks(s.owner, s.dst, iid, NodeId(s.node_id), 64);
    assert forall|i: int| 0 <= i < owned_keys(s, iid).len() implies mode_ok(
        #[trigger] owned_keys(s, iid)[i],
    ) by {
        assert(blocks[i].0 < 64 && blocks[i].1 < 64);
    }
}

impl UCore {
    /// Takes a step of the end of an operation.
    pub fn teardown(&mut self, e: Ending, stage: &mut TeardownStage) -> (r: TeardownAction)
        requires
            old(self)@.wf(),
            teardown_ok(old(self)@, e, old(stage)@),
        ensures
            final(self).params == old(self).params,
            final(self)@.wf(),
            final(self)@ == teardown_step_state(old(self)@, e, old(stage)@),
            final(stage)@ == teardown_next(old(self)@, e, old(stage)@),
            !(final(stage)@ is Told) ==> teardown_ok(final(self)@, e, final(stage)@),
            teardown_asks(
                old(self)@,
                old(self).params.cluster_nodes@,
                e,
                old(stage)@,
                r,
            ),
    {
        let ghost s = self@;
        match stage {
            TeardownStage::Signal => {
                let pkts = self.inner.flush_dst_notifyq(e.iid);
                *stage = TeardownStage::List;
                TeardownAction::Send(pkts)
            },
            TeardownStage::List => {
                let keys = self.inner.wait_owned_dst(e.iid);
                proof {
                    lemma_owned_keys(s, e.iid);
                }
                *stage = TeardownStage::Await { keys, pos: 0 };
                TeardownAction::Continue
            },
            TeardownStage::Await { keys, pos } => {
                if *pos >= keys.len() {
                    *stage = TeardownStage::Told;
                    return TeardownAction::Send(self.notify_done(e.hid, e.iid, e.iop_nodes));
                }
                let key = keys[*pos];
                if self.inner.wait_resolved(key) {
                    *pos = *pos + 1;
                    TeardownAction::Continue
                } else {
                    TeardownAction::Hang(key)
                }
            },
            TeardownStage::Told => {
                *stage = TeardownStage::Over;
                self.inner.iop_teardown(e.iid, e.iop_nodes);
                TeardownAction::Report(self.inner.pop_iop())
            },
            TeardownStage::Over => {
                *stage = TeardownStage::Over;
                TeardownAction::Over
            },
        }
    }
}

} // verus!
