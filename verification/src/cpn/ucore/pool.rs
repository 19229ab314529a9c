//! Ciphertext slots lent to the operations in progress.
use vstd::multiset::Multiset;
use vstd::prelude::*;
use vstd::seq_lib::lemma_multiset_commutative;

use crate::cpn::insn::{CtId, IOpId};

verus! {

/// Pool of ciphertext slots. A slot is free, or lent to an operation.
pub struct B2bPool {
    pub free: Vec<CtId>,
    /// Slots lent to each operation.
    pub used: Vec<Vec<CtId>>,
}

/// Multiset of the items of the first `n` lists.
pub open spec fn gather(lists: Seq<Seq<CtId>>, n: int) -> Multiset<CtId>
    decreases n,
{
    if n <= 0 {
        Multiset::empty()
    } else {
        gather(lists, n - 1).add(lists[n - 1].to_multiset())
    }
}

/// Items of the first `n` lists, one list after the other.
pub open spec fn concat(lists: Seq<Seq<CtId>>, n: int) -> Seq<CtId>
    decreases n,
{
    if n <= 0 {
        Seq::empty()
    } else {
        concat(lists, n - 1) + lists[n - 1]
    }
}

/// Replacing a list replaces its items.
proof fn lemma_gather_update(lists: Seq<Seq<CtId>>, n: int, i: int, list: Seq<CtId>)
    requires
        0 <= i < n <= lists.len(),
    ensures
        gather(lists.update(i, list), n).add(lists[i].to_multiset()) == gather(lists, n).add(
            list.to_multiset(),
        ),
    decreases n,
{
    let new = lists.update(i, list);
    if i == n - 1 {
        lemma_gather_same(lists, new, n - 1);
        assert(gather(new, n).add(lists[i].to_multiset()) =~= gather(lists, n).add(
            list.to_multiset(),
        ));
    } else {
        lemma_gather_update(lists, n - 1, i, list);
        assert(new[n - 1] == lists[n - 1]);
        let sub_new = gather(new, n - 1);
        let sub_old = gather(lists, n - 1);
        let last = lists[n - 1].to_multiset();
        assert(sub_new.add(last).add(lists[i].to_multiset()) =~= sub_new.add(
            lists[i].to_multiset(),
        ).add(last));
        assert(sub_old.add(last).add(list.to_multiset()) =~= sub_old.add(list.to_multiset()).add(
            last,
        ));
    }
}

proof fn lemma_gather_same(a: Seq<Seq<CtId>>, b: Seq<Seq<CtId>>, n: int)
    requires
        n <= a.len(),
        n <= b.len(),
        forall|i: int| 0 <= i < n ==> a[i] == b[i],
    ensures
        gather(a, n) == gather(b, n),
    decreases n,
{
    if n > 0 {
        lemma_gather_same(a, b, n - 1);
    }
}

proof fn lemma_gather_counts(lists: Seq<Seq<CtId>>, n: int, i: int, c: CtId)
    requires
        0 <= i < n <= lists.len(),
    ensures
        gather(lists, n).count(c) >= lists[i].to_multiset().count(c),
    decreases n,
{
    if i < n - 1 {
        lemma_gather_counts(lists, n - 1, i, c);
    }
}

proof fn lemma_gather_counts_two(lists: Seq<Seq<CtId>>, n: int, i: int, j: int, c: CtId)
    requires
        0 <= i < j < n <= lists.len(),
    ensures
        gather(lists, n).count(c) >= lists[i].to_multiset().count(c) + lists[j].to_multiset().count(
            c,
        ),
    decreases n,
{
    if j < n - 1 {
        lemma_gather_counts_two(lists, n - 1, i, j, c);
    } else {
        lemma_gather_counts(lists, n - 1, i, c);
    }
}

impl B2bPool {
    pub open spec fn wf(self) -> bool {
        self.used@.len() == 256
    }

    /// Slots lent to each operation.
    pub open spec fn lent(self) -> Seq<Seq<CtId>> {
        Seq::new(self.used@.len(), |i: int| self.used@[i]@)
    }

    /// All the slots of the pool, free or lent.
    pub open spec fn slots(self) -> Multiset<CtId> {
        all_slots(self.free@, self.lent())
    }

    /// A pool without any slot.
    pub fn new() -> (r: B2bPool)
        ensures
            r.wf(),
            r.free@.len() == 0,
            r.lent() == Seq::new(256, |i: int| Seq::<CtId>::empty()),
    {
        let mut used: Vec<Vec<CtId>> = Vec::new();
        for i in 0..256usize
            invariant
                used@.len() == i,
                forall|j: int| 0 <= j < i ==> (#[trigger] used@[j])@.len() == 0,
        {
            used.push(Vec::new());
        }
        let r = B2bPool { free: Vec::new(), used };
        assert forall|i: int| 0 <= i < 256 implies #[trigger] r.lent()[i] == Seq::<CtId>::empty() by {
            assert(used@[i]@.len() == 0);
            assert(r.lent()[i] =~= Seq::<CtId>::empty());
        }
        assert(r.lent() =~= Seq::new(256, |i: int| Seq::<CtId>::empty()));
        r
    }

    /// Adds free slots.
    pub fn add_slot(&mut self, slots: &Vec<CtId>)
        requires
            old(self).wf(),
        ensures
            final(self).wf(),
            final(self).free@ == old(self).free@ + slots@,
            final(self).lent() == old(self).lent(),
            final(self).slots() == old(self).slots().add(slots@.to_multiset()),
    {
        self.free.extend_from_slice(slots.as_slice());
        proof {
            assert(self.free@ =~= old(self).free@ + slots@);
            assert(self.lent() =~= old(self).lent());
            lemma_multiset_commutative(old(self).free@, slots@);
            assert(self.slots() =~= old(self).slots().add(slots@.to_multiset()));
        }
    }

    /// Lends the last free slot to an operation.
    pub fn get_tagged(&mut self, iid: IOpId) -> (r: CtId)
        requires
            old(self).wf(),
            old(self).free@.len() > 0,
        ensures
            final(self).wf(),
            r == old(self).free@.last(),
            final(self).free@ == old(self).free@.drop_last(),
            final(self).lent() == old(self).lent().update(
                iid.0 as int,
                old(self).lent()[iid.0 as int].push(r),
            ),
            final(self).slots() == old(self).slots(),
    {
        let cid = match self.free.pop() {
            Some(cid) => cid,
            None => CtId(0),
        };
        let mut list: Vec<CtId> = Vec::new();
        let i: usize = iid.0 as usize;
        let ghost before = self.used@[i as int]@;
        list.append(&mut self.used[i]);
        list.push(cid);
        self.used.set(i, list);
        proof {
            assert(self.lent() =~= old(self).lent().update(i as int, before.push(cid)));
            lend_keeps_slots(old(self).free@, old(self).lent(), i as int);
        }
        cid
    }

    /// Takes back the slots lent to an operation.
    pub fn release_tagged(&mut self, iid: IOpId)
        requires
            old(self).wf(),
        ensures
            final(self).wf(),
            final(self).free@ == old(self).free@ + old(self).lent()[iid.0 as int],
            final(self).lent() == old(self).lent().update(iid.0 as int, Seq::empty()),
            final(self).slots() == old(self).slots(),
    {
        let i: usize = iid.0 as usize;
        let ghost list = self.used@[i as int]@;
        self.free.append(&mut self.used[i]);
        proof {
            assert(self.free@ =~= old(self).free@ + list);
            assert(self.lent() =~= old(self).lent().update(i as int, Seq::empty()));
            release_keeps_slots(old(self).free@, old(self).lent(), i as int);
        }
    }

    /// Takes back all the slots that are lent, operation by operation.
    pub fn release_all(&mut self)
        requires
            old(self).wf(),
        ensures
            final(self).wf(),
            final(self).free@ == old(self).free@ + concat(old(self).lent(), 256),
            final(self).lent() == Seq::new(256, |i: int| Seq::<CtId>::empty()),
            final(self).slots() == old(self).slots(),
    {
        let ghost lent = self.lent();
        for i in 0..256usize
            invariant
                self.wf(),
                lent == old(self).lent(),
                self.free@ == old(self).free@ + concat(lent, i as int),
                forall|j: int| 0 <= j < i ==> #[trigger] self.lent()[j] == Seq::<CtId>::empty(),
                forall|j: int| i <= j < 256 ==> #[trigger] self.lent()[j] == lent[j],
                self.slots() == old(self).slots(),
        {
            self.release_tagged(IOpId(i as u8));
            assert(self.free@ =~= old(self).free@ + concat(lent, i + 1));
        }
        assert(self.lent() =~= Seq::new(256, |i: int| Seq::<CtId>::empty()));
    }
}

/// Free slots and lent slots together.
pub open spec fn all_slots(free: Seq<CtId>, lent: Seq<Seq<CtId>>) -> Multiset<CtId> {
    free.to_multiset().add(gather(lent, 256))
}

/// Lending a slot neither loses nor duplicates a slot.
pub proof fn lend_keeps_slots(free: Seq<CtId>, lent: Seq<Seq<CtId>>, i: int)
    requires
        free.len() > 0,
        lent.len() == 256,
        0 <= i < 256,
    ensures
        all_slots(free.drop_last(), lent.update(i, lent[i].push(free.last()))) == all_slots(
            free,
            lent,
        ),
{
    let cid = free.last();
    let list = lent[i].push(cid);
    lemma_gather_update(lent, 256, i, list);
    lemma_multiset_commutative(lent[i], seq![cid]);
    assert(lent[i] + seq![cid] =~= list);
    lemma_multiset_commutative(free.drop_last(), seq![cid]);
    assert(free.drop_last() + seq![cid] =~= free);
    let new_lent = lent.update(i, list);
    assert forall|c: CtId|
        all_slots(free.drop_last(), new_lent).count(c) == all_slots(free, lent).count(c) by {
        let g = gather(new_lent, 256).add(lent[i].to_multiset());
        let h = gather(lent, 256).add(list.to_multiset());
        assert(g.count(c) == h.count(c));
    }
    assert(all_slots(free.drop_last(), new_lent) =~= all_slots(free, lent));
}

/// Taking back the slots of an operation neither loses nor duplicates a slot.
pub proof fn release_keeps_slots(free: Seq<CtId>, lent: Seq<Seq<CtId>>, i: int)
    requires
        lent.len() == 256,
        0 <= i < 256,
    ensures
        all_slots(free + lent[i], lent.update(i, Seq::empty())) == all_slots(free, lent),
{
    broadcast use vstd::seq_lib::group_to_multiset_ensures;

    lemma_gather_update(lent, 256, i, Seq::empty());
    lemma_multiset_commutative(free, lent[i]);
    let new_lent = lent.update(i, Seq::empty());
    assert forall|c: CtId|
        all_slots(free + lent[i], new_lent).count(c) == all_slots(free, lent).count(c) by {
        let g = gather(new_lent, 256).add(lent[i].to_multiset());
        let h = gather(lent, 256).add(Seq::<CtId>::empty().to_multiset());
        assert(g.count(c) == h.count(c));
    }
    assert(all_slots(free + lent[i], new_lent) =~= all_slots(free, lent));
}

proof fn lemma_gather_concat(lists: Seq<Seq<CtId>>, n: int)
    requires
        n <= lists.len(),
    ensures
        concat(lists, n).to_multiset() == gather(lists, n),
    decreases n,
{
    broadcast use vstd::seq_lib::group_to_multiset_ensures;

    if n > 0 {
        lemma_gather_concat(lists, n - 1);
        lemma_multiset_commutative(concat(lists, n - 1), lists[n - 1]);
    } else {
        assert(Seq::<CtId>::empty().to_multiset() =~= Multiset::empty());
    }
}

proof fn lemma_gather_empty(lists: Seq<Seq<CtId>>, n: int)
    requires
        n <= lists.len(),
        forall|i: int| 0 <= i < n ==> #[trigger] lists[i] == Seq::<CtId>::empty(),
    ensures
        gather(lists, n) == Multiset::<CtId>::empty(),
    decreases n,
{
    broadcast use vstd::seq_lib::group_to_multiset_ensures;

    if n > 0 {
        lemma_gather_empty(lists, n - 1);
        assert(gather(lists, n) =~= Multiset::empty());
    }
}

/// Taking back all the slots neither loses nor duplicates a slot.
pub proof fn release_all_keeps_slots(free: Seq<CtId>, lent: Seq<Seq<CtId>>)
    requires
        lent.len() == 256,
    ensures
        all_slots(free + concat(lent, 256), Seq::new(256, |i: int| Seq::<CtId>::empty()))
            == all_slots(free, lent),
{
    let none = Seq::new(256, |i: int| Seq::<CtId>::empty());
    lemma_gather_concat(lent, 256);
    lemma_gather_empty(none, 256);
    lemma_multiset_commutative(free, concat(lent, 256));
    assert(all_slots(free + concat(lent, 256), none) =~= all_slots(free, lent));
}

/// In a pool without duplicates, a slot lent to an operation is neither free nor
/// lent to another operation.
pub proof fn lent_slot_is_exclusive(pool: B2bPool, cid: CtId, i: int)
    requires
        pool.wf(),
        pool.slots().count(cid) <= 1,
        0 <= i < 256,
        pool.lent()[i].contains(cid),
    ensures
        !pool.free@.contains(cid),
        forall|j: int| 0 <= j < 256 && j != i ==> !(#[trigger] pool.lent()[j]).contains(cid),
{
    broadcast use vstd::seq_lib::group_to_multiset_ensures;

    let lent = pool.lent();
    assert(lent[i].to_multiset().count(cid) >= 1);
    lemma_gather_counts(lent, 256, i, cid);
    assert forall|j: int| 0 <= j < 256 && j != i implies !(#[trigger] lent[j]).contains(cid) by {
        if lent[j].contains(cid) {
            assert(lent[j].to_multiset().count(cid) >= 1);
            if i < j {
                lemma_gather_counts_two(lent, 256, i, j, cid);
            } else {
                lemma_gather_counts_two(lent, 256, j, i, cid);
            }
        }
    }
}

} // verus!
