//! Walking the instances of one replica in storage, one step at a time: the caller reads
//! the next record after the cursor and hands it to the iterator, which decides whether
//! the walk goes on.
use crate::qpaxos::ids::{iid_lt, InstanceId};
use crate::qpaxos::instance::Instance;
use vstd::prelude::*;
use vstd::slice::slice_to_vec;

verus! {

/// BaseIter walks raw records: where it stands, whether the record there is still to be
/// returned, and in which direction it goes.
#[derive(Clone, Debug, PartialEq, Eq)]
pub struct BaseIter {
    pub cursor: Vec<u8>,
    pub inclusive: bool,
    pub reverse: bool,
}

impl BaseIter {
    /// advance takes the record storage holds next from the cursor, if any: the cursor
    /// moves onto it, and the record there is no longer to be returned.
    pub fn advance(&mut self, next: Option<(Vec<u8>, Vec<u8>)>) -> (r: Option<(Vec<u8>, Vec<u8>)>)
        ensures
            !final(self).inclusive,
            final(self).reverse == old(self).reverse,
            match next {
                Some(kv) => final(self).cursor@ == kv.0@ && match r {
                    Some(x) => x.0@ == kv.0@ && x.1@ == kv.1@,
                    None => false,
                },
                None => final(self).cursor@ == old(self).cursor@ && r is None,
            },
    {
        self.inclusive = false;
        match next {
            Some(kv) => {
                self.cursor = slice_to_vec(kv.0.as_slice());
                Some(kv)
            },
            None => None,
        }
    }
}

/// What one step of an instance walk does, given the record storage holds next from
/// the cursor: a record of the same replica is yielded and becomes the cursor, no longer
/// to be yielded; anything else ends the walk and changes nothing.
pub open spec fn inst_step(it: InstanceIter, next: Option<(InstanceId, Instance)>) -> (Option<Instance>, InstanceIter) {
    match next {
        Some((iid, inst)) => if iid.replica_id == it.curr_inst_id.replica_id {
            (Some(inst), InstanceIter { curr_inst_id: iid, inclusive: false, reverse: it.reverse })
        } else {
            (None, it)
        },
        None => (None, it),
    }
}

/// Record id `a` comes after `b` in the direction of the walk: higher going forward,
/// lower going in reverse.
pub open spec fn walks_after(a: InstanceId, b: InstanceId, reverse: bool) -> bool {
    if reverse {
        iid_lt(a, b)
    } else {
        iid_lt(b, a)
    }
}

/// The records `w` are in the order of a walk: each comes after the ones before it.
pub open spec fn walk_ordered(w: Seq<(InstanceId, Instance)>, reverse: bool) -> bool {
    forall|i: int, j: int| 0 <= i < j < w.len() ==> walks_after(#[trigger] w[j].0, #[trigger] w[i].0, reverse)
}

/// A record lies at or past the cursor of a walk: past it, or on it when the cursor is
/// still to be yielded.
pub open spec fn reached(id: InstanceId, it: InstanceIter) -> bool {
    walks_after(id, it.curr_inst_id, it.reverse) || (it.inclusive && id == it.curr_inst_id)
}

/// A record the walk is still to yield: of the cursor's replica, at or past the cursor.
pub open spec fn to_yield(id: InstanceId, it: InstanceIter) -> bool {
    id.replica_id == it.curr_inst_id.replica_id && reached(id, it)
}

/// The position, from the `k`-th on, of the first record at or past the cursor: the
/// record storage holds next from it.
pub open spec fn next_pos(w: Seq<(InstanceId, Instance)>, it: InstanceIter, k: int) -> Option<int>
    decreases w.len() - k,
{
    if k < 0 || k >= w.len() {
        None
    } else if reached(w[k].0, it) {
        Some(k)
    } else {
        next_pos(w, it, k + 1)
    }
}

/// The record storage holds next from the cursor of `it`, with the records `w` in the
/// order of the walk.
pub open spec fn next_record(w: Seq<(InstanceId, Instance)>, it: InstanceIter) -> Option<(InstanceId, Instance)> {
    match next_pos(w, it, 0) {
        Some(p) => Some(w[p]),
        None => None,
    }
}

/// The records from the `k`-th on that the walk is still to yield, in order.
pub open spec fn remaining(w: Seq<(InstanceId, Instance)>, it: InstanceIter, k: int) -> Seq<(InstanceId, Instance)>
    decreases w.len() - k,
{
    if k < 0 || k >= w.len() {
        Seq::empty()
    } else if to_yield(w[k].0, it) {
        seq![w[k]] + remaining(w, it, k + 1)
    } else {
        remaining(w, it, k + 1)
    }
}

/// The instances yielded by `n` steps of a walk over the records `w`, the walk after
/// them, and whether it has ended.
pub open spec fn walk(w: Seq<(InstanceId, Instance)>, it: InstanceIter, n: nat) -> (Seq<Instance>, InstanceIter, bool)
    decreases n,
{
    if n == 0 {
        (Seq::empty(), it, false)
    } else {
        let (ys, it2, done) = walk(w, it, (n - 1) as nat);
        if done {
            (ys, it2, true)
        } else {
            match inst_step(it2, next_record(w, it2)).0 {
                Some(x) => (ys.push(x), inst_step(it2, next_record(w, it2)).1, false),
                None => (ys, it2, true),
            }
        }
    }
}

/// Records no one of which from the `k`-th on is to be yielded leave nothing to yield.
proof fn lemma_remaining_none(w: Seq<(InstanceId, Instance)>, it: InstanceIter, k: int)
    requires
        0 <= k,
        forall|i: int| k <= i < w.len() ==> !to_yield(#[trigger] w[i].0, it),
    ensures
        remaining(w, it, k) == Seq::<(InstanceId, Instance)>::empty(),
    decreases w.len() - k,
{
    if k < w.len() {
        lemma_remaining_none(w, it, k + 1);
    }
}

/// Two walks that yield the same records from the `k`-th on have the same records to
/// yield from there.
proof fn lemma_remaining_same(w: Seq<(InstanceId, Instance)>, a: InstanceIter, b: InstanceIter, k: int)
    requires
        0 <= k,
        forall|i: int| k <= i < w.len() ==> (to_yield(#[trigger] w[i].0, a) <==> to_yield(w[i].0, b)),
    ensures
        remaining(w, a, k) == remaining(w, b, k),
    decreases w.len() - k,
{
    if k < w.len() {
        lemma_remaining_same(w, a, b, k + 1);
    }
}

/// Records before the `k`-th that are not reached change nothing of what is to yield.
proof fn lemma_remaining_skip(w: Seq<(InstanceId, Instance)>, it: InstanceIter, k: int, p: int)
    requires
        0 <= k <= p <= w.len(),
        forall|i: int| k <= i < p ==> !reached(#[trigger] w[i].0, it),
    ensures
        remaining(w, it, k) == remaining(w, it, p),
    decreases p - k,
{
    if k < p {
        lemma_remaining_skip(w, it, k + 1, p);
    }
}

/// The first record at or past the cursor from the `k`-th on is at `next_pos`, and
/// none before it is reached.
proof fn lemma_next_pos(w: Seq<(InstanceId, Instance)>, it: InstanceIter, k: int)
    requires
        0 <= k,
    ensures
        next_pos(w, it, k) matches Some(p) ==> k <= p < w.len() && reached(w[p].0, it) && forall|i: int|
            k <= i < p ==> !reached(#[trigger] w[i].0, it),
        next_pos(w, it, k) is None ==> forall|i: int| k <= i < w.len() ==> !reached(#[trigger] w[i].0, it),
    decreases w.len() - k,
{
    if k < w.len() && !reached(w[k].0, it) {
        lemma_next_pos(w, it, k + 1);
    }
}

/// One step of a walk over records in its order, each fed the record storage holds
/// next, yields the first record still to yield and leaves the others to yield; with
/// none left, it yields nothing and changes nothing.
pub proof fn lemma_walk_step(w: Seq<(InstanceId, Instance)>, it: InstanceIter)
    requires
        walk_ordered(w, it.reverse),
    ensures
        ({
            let (r, it2) = inst_step(it, next_record(w, it));
            let rem = remaining(w, it, 0);
            &&& it2.reverse == it.reverse
            &&& rem.len() == 0 ==> r is None && it2 == it
            &&& rem.len() > 0 ==> r == Some(rem[0].1) && remaining(w, it2, 0) == rem.drop_first()
        }),
{
    lemma_next_pos(w, it, 0);
    match next_pos(w, it, 0) {
        None => {
            lemma_remaining_none(w, it, 0);
        },
        Some(p) => {
            lemma_remaining_skip(w, it, 0, p);
            let x = w[p];
            if x.0.replica_id == it.curr_inst_id.replica_id {
                let it2 = InstanceIter { curr_inst_id: x.0, inclusive: false, reverse: it.reverse };
                assert(remaining(w, it, p) == seq![x] + remaining(w, it, p + 1));
                assert(remaining(w, it, 0)[0] == x);
                assert((seq![x] + remaining(w, it, p + 1)).drop_first() =~= remaining(w, it, p + 1));
                assert forall|i: int| p + 1 <= i < w.len() implies (to_yield(#[trigger] w[i].0, it) <==> to_yield(w[i].0, it2)) by {
                    assert(walks_after(w[i].0, w[p].0, it.reverse));
                }
                lemma_remaining_same(w, it, it2, p + 1);
                assert forall|i: int| 0 <= i < p + 1 implies !reached(#[trigger] w[i].0, it2) by {
                    if i < p {
                        assert(walks_after(w[p].0, w[i].0, it.reverse));
                    }
                }
                lemma_remaining_skip(w, it2, 0, p + 1);
            } else {
                assert forall|i: int| p <= i < w.len() implies !to_yield(#[trigger] w[i].0, it) by {
                    if i > p {
                        assert(walks_after(w[i].0, w[p].0, it.reverse));
                    }
                }
                lemma_remaining_none(w, it, p);
            }
        },
    }
}

/// A walk over records in its order, each step fed the record storage holds next,
/// yields the records still to yield, in order, one per step, and ends on the step
/// after the last: going forward, those of the cursor's replica with a higher index
/// (or the same, while the cursor is to be yielded) in ascending order; in reverse,
/// those with a lower one in descending order.
pub proof fn lemma_walk(w: Seq<(InstanceId, Instance)>, it: InstanceIter, n: nat)
    requires
        walk_ordered(w, it.reverse),
    ensures
        ({
            let rem = remaining(w, it, 0);
            let (ys, it2, done) = walk(w, it, n);
            &&& n <= rem.len() ==> !done && ys == rem.take(n as int).map_values(|r: (InstanceId, Instance)| r.1)
                && remaining(w, it2, 0) == rem.skip(n as int) && it2.reverse == it.reverse
            &&& n > rem.len() ==> done && ys == rem.map_values(|r: (InstanceId, Instance)| r.1)
        }),
    decreases n,
{
    let rem = remaining(w, it, 0);
    if n > 0 {
        lemma_walk(w, it, (n - 1) as nat);
        let (ys, it2, done) = walk(w, it, (n - 1) as nat);
        if n - 1 <= rem.len() {
            lemma_walk_step(w, it2);
            let rem2 = remaining(w, it2, 0);
            assert(rem2 == rem.skip(n - 1));
            if n - 1 < rem.len() {
                assert(rem2[0] == rem[n - 1]);
                assert(rem2.drop_first() =~= rem.skip(n as int));
                assert(rem.take(n as int).map_values(|r: (InstanceId, Instance)| r.1) =~= rem.take(n - 1).map_values(
                    |r: (InstanceId, Instance)| r.1,
                ).push(rem[n - 1].1));
            } else {
                assert(rem2.len() == 0);
                assert(rem.take(n - 1) =~= rem);
            }
        }
    } else {
        assert(rem.take(0).map_values(|r: (InstanceId, Instance)| r.1) =~= Seq::<Instance>::empty());
        assert(rem.skip(0) =~= rem);
    }
}

/// InstanceIter walks the instances of the replica of `curr_inst_id`.
#[derive(Clone, Copy, Debug, PartialEq, Eq)]
pub struct InstanceIter {
    pub curr_inst_id: InstanceId,
    pub inclusive: bool,
    pub reverse: bool,
}

impl InstanceIter {
    /// advance takes the instance storage holds next from the cursor, with its id, if
    /// any: one of another replica ends the walk; otherwise the cursor moves onto it, it
    /// is no longer to be returned, and it is returned.
    pub fn advance(&mut self, next: Option<(InstanceId, Instance)>) -> (r: Option<Instance>)
        ensures
            (r, *final(self)) == inst_step(*old(self), next),
            final(self).reverse == old(self).reverse,
            match next {
                Some((iid, inst)) => if iid.replica_id == old(self).curr_inst_id.replica_id {
                    &&& r == Some(inst)
                    &&& final(self).curr_inst_id == iid
                    &&& !final(self).inclusive
                } else {
                    r is None && *final(self) == *old(self)
                },
                None => r is None && *final(self) == *old(self),
            },
    {
        let (iid, inst) = match next {
            None => {
                return None;
            },
            Some((a, b)) => (a, b),
        };
        if iid.replica_id != self.curr_inst_id.replica_id {
            return None;
        }
        self.curr_inst_id = iid;
        self.inclusive = false;
        Some(inst)
    }
}

} // verus!
