//! Events of the scheduling model of the computation core.
//!
//! The scheduling model raises events at given cycles. They are kept in the order
//! in which they have to be handled: by cycle, then by event.
use vstd::prelude::*;

verus! {

/// Position of the events that report an action of the instruction scheduler.
pub const NOTIFY_ISC: u8 = 26;

/// Position of the events that report a batch started by a timeout.
pub const NOTIFY_START_ON_TIMEOUT: u8 = 27;

/// Position of the events that hand an instruction to the scheduler.
pub const ISC_PUSH_DOP: u8 = 0;

/// Action of the instruction scheduler on an instruction.
#[derive(Clone, Copy, Debug, PartialEq, Eq, Structural)]
pub enum IscCommand {
    Idle,
    RdUnlock,
    Retire,
    Refill,
    Issue,
}

/// Event of the scheduling model: the position of its kind among the kinds of
/// events, and the numbers that it carries.
#[derive(Clone, Copy, Debug, PartialEq, Eq, Structural)]
pub struct Event {
    pub kind: u8,
    pub a: usize,
    pub b: usize,
}

/// Event that has to be handled at a cycle.
#[derive(Clone, Copy, Debug, PartialEq, Eq, Structural)]
pub struct Trigger {
    pub at: usize,
    pub event: Event,
}

/// Order of the events of a cycle.
pub open spec fn event_before(x: Event, y: Event) -> bool {
    x.kind < y.kind || x.kind == y.kind && (x.a < y.a || x.a == y.a && x.b < y.b)
}

/// Order of the triggers.
pub open spec fn before(x: Trigger, y: Trigger) -> bool {
    x.at < y.at || x.at == y.at && event_before(x.event, y.event)
}

/// Strictly increasing order: nothing occurs twice.
pub open spec fn ordered(s: Seq<Trigger>) -> bool {
    forall|i: int, j: int| 0 <= i < j < s.len() ==> before(#[trigger] s[i], #[trigger] s[j])
}

/// Trigger of an event that is raised after a delay.
pub open spec fn due(event: Event, now: usize, delay: Option<usize>) -> Trigger {
    Trigger {
        at: match delay {
            Some(d) => (now + d) as usize,
            None => now,
        },
        event,
    }
}

/// Triggers, in the order in which they have to be handled.
pub struct HpuEventStore {
    pub triggers: Vec<Trigger>,
}

impl View for HpuEventStore {
    type V = Seq<Trigger>;

    open spec fn view(&self) -> Seq<Trigger> {
        self.triggers@
    }
}

fn precedes(x: &Trigger, y: &Trigger) -> (r: bool)
    ensures
        r == before(*x, *y),
{
    x.at < y.at || (x.at == y.at && (x.event.kind < y.event.kind || (x.event.kind == y.event.kind
        && (x.event.a < y.event.a || (x.event.a == y.event.a && x.event.b < y.event.b)))))
}

impl HpuEventStore {
    pub open spec fn wf(self) -> bool {
        ordered(self@)
    }

    /// A store without any trigger.
    pub fn new() -> (r: HpuEventStore)
        ensures
            r.wf(),
            r@.len() == 0,
    {
        HpuEventStore { triggers: Vec::new() }
    }

    /// Removes all the triggers of the earliest cycle, in order.
    pub fn pop_batch(&mut self) -> (r: Vec<Trigger>)
        requires
            old(self).wf(),
        ensures
            final(self).wf(),
            r@ + final(self)@ == old(self)@,
            old(self)@.len() > 0 ==> r@.len() > 0,
            forall|i: int| 0 <= i < r@.len() ==> (#[trigger] r@[i]).at == old(self)@[0].at,
            forall|i: int|
                0 <= i < final(self)@.len() ==> old(self)@[0].at < (#[trigger] final(self)@[i]).at,
    {
        let mut batch: Vec<Trigger> = Vec::new();
        if self.triggers.len() == 0 {
            assert(batch@ + self@ =~= old(self)@);
            return batch;
        }
        let pop_at: usize = self.triggers[0].at;
        let mut n: usize = 0;
        while n < self.triggers.len() && self.triggers[n].at == pop_at
            invariant
                self@ == old(self)@,
                self.wf(),
                n <= self@.len(),
                self@.len() > 0,
                pop_at == self@[0].at,
                batch@ == self@.take(n as int),
                forall|i: int| 0 <= i < n ==> (#[trigger] self@[i]).at == pop_at,
            ensures
                self@ == old(self)@,
                0 < n <= self@.len(),
                batch@ == self@.take(n as int),
                forall|i: int| 0 <= i < n ==> (#[trigger] self@[i]).at == pop_at,
                n < self@.len() ==> self@[n as int].at != pop_at,
            decreases self@.len() - n,
        {
            batch.push(self.triggers[n]);
            n = n + 1;
            assert(batch@ =~= self@.take(n as int));
        }
        let rest = self.triggers.split_off(n);
        self.triggers = rest;
        proof {
            assert(self@ =~= old(self)@.skip(n as int));
            assert(batch@ + self@ =~= old(self)@);
            assert forall|i: int| 0 <= i < self@.len() implies pop_at < (#[trigger] self@[i]).at by {
                assert(self@[i] == old(self)@[n + i]);
                assert(before(old(self)@[0], old(self)@[n as int]));
                if i > 0 {
                    assert(before(old(self)@[n as int], old(self)@[n + i]));
                }
            }
        }
        batch
    }

    /// Removes the first trigger, where it is at the given cycle.
    pub fn pop_delta(&mut self, delta: usize) -> (r: Option<Trigger>)
        requires
            old(self).wf(),
        ensures
            final(self).wf(),
            if old(self)@.len() > 0 && old(self)@[0].at == delta {
                r == Some(old(self)@[0]) && final(self)@ == old(self)@.drop_first()
            } else {
                r is None && final(self)@ == old(self)@
            },
    {
        if self.triggers.len() > 0 && self.triggers[0].at == delta {
            let t = self.triggers.remove(0);
            assert(self@ =~= old(self)@.drop_first());
            Some(t)
        } else {
            None
        }
    }

    /// Whether an event is registered, at a given cycle or at any one.
    pub fn contains_event(&self, event: &Event, filter: Option<usize>) -> (r: bool)
        ensures
            r == exists|i: int|
                0 <= i < self@.len() && (#[trigger] self@[i]).event == *event && match filter {
                    Some(at) => self@[i].at == at,
                    None => true,
                },
    {
        for i in 0..self.triggers.len()
            invariant
                forall|j: int|
                    0 <= j < i ==> !((#[trigger] self@[j]).event == *event && match filter {
                        Some(at) => self@[j].at == at,
                        None => true,
                    }),
        {
            let t = self.triggers[i];
            let same_cycle = match filter {
                Some(at) => t.at == at,
                None => true,
            };
            if t.event == *event && same_cycle {
                assert(self@[i as int].event == *event);
                return true;
            }
        }
        false
    }

    /// Registers an event after a delay. An event that is already registered at the
    /// same cycle is not registered twice.
    pub fn dispatch(&mut self, event: Event, now: usize, delay: Option<usize>)
        requires
            old(self).wf(),
            delay matches Some(d) ==> now + d <= usize::MAX,
        ensures
            final(self).wf(),
            old(self)@.contains(due(event, now, delay)) ==> final(self)@ == old(self)@,
            !old(self)@.contains(due(event, now, delay)) ==> exists|k: int|
                0 <= k <= old(self)@.len() && final(self)@ == #[trigger] old(self)@.insert(
                    k,
                    due(event, now, delay),
                ),
    {
        let at: usize = match delay {
            Some(d) => now + d,
            None => now,
        };
        let t = Trigger { at, event };
        assert(t == due(event, now, delay));
        let mut k: usize = 0;
        while k < self.triggers.len() && precedes(&self.triggers[k], &t)
            invariant
                self@ == old(self)@,
                k <= self@.len(),
                forall|i: int| 0 <= i < k ==> before(#[trigger] self@[i], t),
            ensures
                self@ == old(self)@,
                k <= self@.len(),
                forall|i: int| 0 <= i < k ==> before(#[trigger] self@[i], t),
                k < self@.len() ==> !before(self@[k as int], t),
            decreases self@.len() - k,
        {
            k = k + 1;
        }
        if k < self.triggers.len() && self.triggers[k] == t {
            assert(self@[k as int] == t);
            return;
        }
        let ghost s = self@;
        proof {
            assert forall|i: int| k <= i < s.len() implies before(t, #[trigger] s[i]) by {
                assert(before(t, s[k as int]));
                if i > k {
                    assert(before(s[k as int], s[i]));
                }
            }
            assert(!s.contains(t));
        }
        self.triggers.insert(k, t);
        proof {
            assert(self@ == old(self)@.insert(k as int, due(event, now, delay)));
            assert forall|i: int, j: int| 0 <= i < j < self@.len() implies before(
                #[trigger] self@[i],
                #[trigger] self@[j],
            ) by {
                let x = if i < k {
                    s[i]
                } else if i == k {
                    t
                } else {
                    s[i - 1]
                };
                let y = if j < k {
                    s[j]
                } else if j == k {
                    t
                } else {
                    s[j - 1]
                };
                assert(self@[i] == x);
                assert(self@[j] == y);
            }
        }
    }
}

/// A sequence in order is determined by its triggers: two stores that hold the same
/// triggers hand them out in the same order.
pub proof fn order_is_determined(a: Seq<Trigger>, b: Seq<Trigger>)
    requires
        ordered(a),
        ordered(b),
        forall|t: Trigger| a.contains(t) <==> b.contains(t),
    ensures
        a == b,
    decreases a.len(),
{
    if a.len() == 0 {
        if b.len() > 0 {
            assert(b.contains(b[0]));
        }
        assert(a =~= b);
    } else {
        assert(a.contains(a[0]));
        assert(b.contains(a[0]));
        assert(b.contains(b[0]));
        assert(a.contains(b[0]));
        let i = choose|i: int| 0 <= i < b.len() && b[i] == a[0];
        let j = choose|j: int| 0 <= j < a.len() && a[j] == b[0];
        assert(a[0] == b[0]) by {
            if i > 0 && j > 0 {
                assert(before(b[0], b[i]));
                assert(before(a[0], a[j]));
            }
        }
        let (x, y) = (a.drop_first(), b.drop_first());
        assert forall|t: Trigger| x.contains(t) <==> y.contains(t) by {
            if x.contains(t) {
                let k = choose|k: int| 0 <= k < x.len() && x[k] == t;
                assert(a[k + 1] == t);
                assert(before(a[0], a[k + 1]));
                assert(b.contains(t));
                let l = choose|l: int| 0 <= l < b.len() && b[l] == t;
                assert(y[l - 1] == t);
            }
            if y.contains(t) {
                let k = choose|k: int| 0 <= k < y.len() && y[k] == t;
                assert(b[k + 1] == t);
                assert(before(b[0], b[k + 1]));
                assert(a.contains(t));
                let l = choose|l: int| 0 <= l < a.len() && a[l] == t;
                assert(x[l - 1] == t);
            }
        }
        order_is_determined(x, y);
        assert(a =~= seq![a[0]] + x);
        assert(b =~= seq![b[0]] + y);
    }
}

/// Events are handed out by time, and in the same cycle by their kind, then by their operands:
/// of two different triggers one comes first, and only one.
pub proof fn events_have_one_order(x: Trigger, y: Trigger)
    ensures
        x.at < y.at ==> before(x, y),
        x.at == y.at && x.event.kind < y.event.kind ==> before(x, y),
        x.at == y.at && x.event.kind == y.event.kind && x.event.a < y.event.a ==> before(x, y),
        x.at == y.at && x.event.kind == y.event.kind && x.event.a == y.event.a && x.event.b
            < y.event.b ==> before(x, y),
        x != y ==> before(x, y) != before(y, x),
        !before(x, x),
{
}

} // verus!
