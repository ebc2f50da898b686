//! Comparing dependency lists and instance maps with a single instance id: the entry of
//! that instance's replica is compared with it, and a missing entry is always lower.
use crate::qpaxos::deps::{lookup, Deps, InstanceIds};
use crate::qpaxos::ids::{Dep, InstanceId};
use core::cmp::Ordering;
use vstd::prelude::*;
use vstd::std_specs::cmp::{PartialEqSpecImpl, PartialOrdSpecImpl};

verus! {

/// How two integers compare.
pub open spec fn int_order(a: i64, b: i64) -> Ordering {
    if a < b {
        Ordering::Less
    } else if a == b {
        Ordering::Equal
    } else {
        Ordering::Greater
    }
}

/// How two dependencies compare in their derived order: replica, index, sequence.
pub open spec fn dep_order(a: Dep, b: Dep) -> Ordering {
    if a.replica_id != b.replica_id {
        int_order(a.replica_id, b.replica_id)
    } else if a.idx != b.idx {
        int_order(a.idx, b.idx)
    } else {
        int_order(a.seq, b.seq)
    }
}

/// order_i64 compares two integers.
pub fn order_i64(a: i64, b: i64) -> (r: Ordering)
    ensures
        r == int_order(a, b),
{
    if a < b {
        Ordering::Less
    } else if a == b {
        Ordering::Equal
    } else {
        Ordering::Greater
    }
}

/// order_dep compares two dependencies by replica, index, then sequence number.
pub fn order_dep(a: &Dep, b: &Dep) -> (r: Ordering)
    ensures
        r == dep_order(*a, *b),
{
    if a.replica_id != b.replica_id {
        order_i64(a.replica_id, b.replica_id)
    } else if a.idx != b.idx {
        order_i64(a.idx, b.idx)
    } else {
        order_i64(a.seq, b.seq)
    }
}

/// How a dependency list compares with an instance id: by the index of the entry of
/// its replica, a missing entry being lower.
pub open spec fn deps_vs_iid(s: Seq<Dep>, iid: InstanceId) -> Option<Ordering> {
    match lookup(s, iid.replica_id) {
        Some(d) => Some(int_order(d.idx, iid.idx)),
        None => Some(Ordering::Less),
    }
}

/// Whether a dependency list holds, for the replica of an instance id, exactly it.
pub open spec fn deps_eq_iid(s: Seq<Dep>, iid: InstanceId) -> bool {
    match lookup(s, iid.replica_id) {
        Some(d) => d.replica_id == iid.replica_id && d.idx == iid.idx,
        None => false,
    }
}

/// How a dependency list compares with a dependency: by the entry of its replica, a
/// missing entry being lower.
pub open spec fn deps_vs_dep(s: Seq<Dep>, dep: Dep) -> Option<Ordering> {
    match lookup(s, dep.replica_id) {
        Some(d) => Some(dep_order(d, dep)),
        None => Some(Ordering::Less),
    }
}

/// How an instance map compares with an instance id: by the index of its replica, a
/// missing replica being lower.
pub open spec fn ids_vs_iid(m: Map<i64, i64>, iid: InstanceId) -> Option<Ordering> {
    if m.contains_key(iid.replica_id) {
        Some(int_order(m[iid.replica_id], iid.idx))
    } else {
        Some(Ordering::Less)
    }
}

/// Whether an instance map maps the replica of an instance id to exactly its index.
pub open spec fn ids_eq_iid(m: Map<i64, i64>, iid: InstanceId) -> bool {
    m.contains_key(iid.replica_id) && m[iid.replica_id] == iid.idx
}

/// Comparing with an instance id or a dependency agrees with testing equality: a list, or
/// a map, equals one exactly when it compares equal to it.
pub proof fn lemma_eq_iff_compares_equal(s: Seq<Dep>, m: Map<i64, i64>, iid: InstanceId, dep: Dep)
    ensures
        deps_eq_iid(s, iid) <==> deps_vs_iid(s, iid) == Some(Ordering::Equal),
        (lookup(s, dep.replica_id) == Some(dep)) <==> deps_vs_dep(s, dep) == Some(Ordering::Equal),
        ids_eq_iid(m, iid) <==> ids_vs_iid(m, iid) == Some(Ordering::Equal),
{
    crate::qpaxos::deps::lemma_first_pos(s, iid.replica_id);
    crate::qpaxos::deps::lemma_first_pos(s, dep.replica_id);
}

impl PartialEq<InstanceId> for Deps {
    fn eq(&self, other: &InstanceId) -> (r: bool) {
        match self.get(other.replica_id) {
            Some(d) => d.replica_id == other.replica_id && d.idx == other.idx,
            None => false,
        }
    }
}

impl PartialEqSpecImpl<InstanceId> for Deps {
    open spec fn obeys_eq_spec() -> bool {
        true
    }

    open spec fn eq_spec(&self, other: &InstanceId) -> bool {
        deps_eq_iid(self@, *other)
    }
}

impl PartialOrd<InstanceId> for Deps {
    fn partial_cmp(&self, other: &InstanceId) -> (r: Option<Ordering>) {
        match self.get(other.replica_id) {
            Some(d) => Some(order_i64(d.idx, other.idx)),
            None => Some(Ordering::Less),
        }
    }
}

impl PartialOrdSpecImpl<InstanceId> for Deps {
    open spec fn obeys_partial_cmp_spec() -> bool {
        true
    }

    open spec fn partial_cmp_spec(&self, other: &InstanceId) -> Option<Ordering> {
        deps_vs_iid(self@, *other)
    }
}

impl PartialEq<Dep> for Deps {
    fn eq(&self, other: &Dep) -> (r: bool) {
        match self.get(other.replica_id) {
            Some(d) => d == *other,
            None => false,
        }
    }
}

impl PartialEqSpecImpl<Dep> for Deps {
    open spec fn obeys_eq_spec() -> bool {
        true
    }

    open spec fn eq_spec(&self, other: &Dep) -> bool {
        lookup(self@, other.replica_id) == Some(*other)
    }
}

impl PartialOrd<Dep> for Deps {
    fn partial_cmp(&self, other: &Dep) -> (r: Option<Ordering>) {
        match self.get(other.replica_id) {
            Some(d) => Some(order_dep(&d, other)),
            None => Some(Ordering::Less),
        }
    }
}

impl PartialOrdSpecImpl<Dep> for Deps {
    open spec fn obeys_partial_cmp_spec() -> bool {
        true
    }

    open spec fn partial_cmp_spec(&self, other: &Dep) -> Option<Ordering> {
        deps_vs_dep(self@, *other)
    }
}

impl PartialEq<InstanceId> for InstanceIds {
    fn eq(&self, other: &InstanceId) -> (r: bool) {
        match self.get_idx(other.replica_id) {
            Some(i) => i == other.idx,
            None => false,
        }
    }
}

impl PartialEqSpecImpl<InstanceId> for InstanceIds {
    open spec fn obeys_eq_spec() -> bool {
        true
    }

    open spec fn eq_spec(&self, other: &InstanceId) -> bool {
        ids_eq_iid(self@, *other)
    }
}

impl PartialOrd<InstanceId> for InstanceIds {
    fn partial_cmp(&self, other: &InstanceId) -> (r: Option<Ordering>) {
        match self.get_idx(other.replica_id) {
            Some(i) => Some(order_i64(i, other.idx)),
            None => Some(Ordering::Less),
        }
    }
}

impl PartialOrdSpecImpl<InstanceId> for InstanceIds {
    open spec fn obeys_partial_cmp_spec() -> bool {
        true
    }

    open spec fn partial_cmp_spec(&self, other: &InstanceId) -> Option<Ordering> {
        ids_vs_iid(self@, *other)
    }
}

} // verus!
