//! Vectors of dependencies and of instance ids, looked up and updated by replica id, and
//! the map from replica id to instance index.
use crate::qpaxos::ids::{dep_of, Dep, IdInt, InstanceId, ReplicaId};
use std::collections::HashMap;
use vstd::prelude::*;

verus! {

/// HasReplica is an item that belongs to a replica.
pub trait HasReplica: Copy {
    spec fn rid_of(self) -> i64;

    fn replica(&self) -> (r: i64)
        ensures
            r == self.rid_of(),
    ;
}

impl HasReplica for Dep {
    open spec fn rid_of(self) -> i64 {
        self.replica_id
    }

    fn replica(&self) -> (r: i64) {
        self.replica_id
    }
}

impl HasReplica for InstanceId {
    open spec fn rid_of(self) -> i64 {
        self.replica_id
    }

    fn replica(&self) -> (r: i64) {
        self.replica_id
    }
}

/// The position of the first item of replica `rid` in `s`, if any.
pub open spec fn first_pos<T: HasReplica>(s: Seq<T>, rid: i64) -> Option<int>
    decreases s.len(),
{
    if s.len() == 0 {
        None
    } else {
        match first_pos(s.drop_last(), rid) {
            Some(p) => Some(p),
            None => if s.last().rid_of() == rid {
                Some(s.len() - 1)
            } else {
                None
            },
        }
    }
}

/// The first item of replica `rid` in `s`, if any.
pub open spec fn lookup<T: HasReplica>(s: Seq<T>, rid: i64) -> Option<T> {
    match first_pos(s, rid) {
        Some(p) => Some(s[p]),
        None => None,
    }
}

/// `s` after `set(x)`: the first item of the replica of `x` replaced by `x`, or `x`
/// appended when the replica has none.
pub open spec fn set_item<T: HasReplica>(s: Seq<T>, x: T) -> Seq<T> {
    match first_pos(s, x.rid_of()) {
        Some(p) => s.update(p, x),
        None => s.push(x),
    }
}

/// What `set(x)` returns: where `x` now stands, and the item it replaced.
pub open spec fn set_result<T: HasReplica>(s: Seq<T>, x: T) -> (usize, Option<T>) {
    match first_pos(s, x.rid_of()) {
        Some(p) => (p as usize, Some(s[p])),
        None => (s.len() as usize, None),
    }
}

/// The first position of a replica holds an item of that replica, and none before it
/// does; without a first position no item belongs to the replica.
pub proof fn lemma_first_pos<T: HasReplica>(s: Seq<T>, rid: i64)
    ensures
        first_pos(s, rid) matches Some(p) ==> 0 <= p < s.len() && s[p].rid_of() == rid && (forall|
            j: int,
        |
            0 <= j < p ==> s[j].rid_of() != rid),
        first_pos(s, rid) is None ==> (forall|j: int| 0 <= j < s.len() ==> s[j].rid_of() != rid),
    decreases s.len(),
{
    if s.len() > 0 {
        lemma_first_pos(s.drop_last(), rid);
        assert forall|j: int| 0 <= j < s.len() - 1 implies s[j] == s.drop_last()[j] by {}
    }
}

/// A position that holds an item of the replica, with none before it, is the first one.
pub proof fn lemma_first_pos_unique<T: HasReplica>(s: Seq<T>, rid: i64, p: int)
    requires
        0 <= p < s.len(),
        s[p].rid_of() == rid,
        forall|j: int| 0 <= j < p ==> s[j].rid_of() != rid,
    ensures
        first_pos(s, rid) == Some(p),
{
    lemma_first_pos(s, rid);
    match first_pos(s, rid) {
        Some(q) => {
            if q < p {
                assert(s[q].rid_of() != rid);
            }
            if q > p {
                assert(s[p].rid_of() != rid);
            }
        },
        None => {
            assert(s[p].rid_of() != rid);
        },
    }
}

/// After `set(x)`, looking up the replica of `x` finds `x`, and every other replica finds
/// what it found before.
pub proof fn lemma_set_then_lookup<T: HasReplica>(s: Seq<T>, x: T, rid: i64)
    ensures
        lookup(set_item(s, x), x.rid_of()) == Some(x),
        rid != x.rid_of() ==> lookup(set_item(s, x), rid) == lookup(s, rid),
{
    let t = set_item(s, x);
    lemma_first_pos(s, x.rid_of());
    lemma_first_pos(s, rid);
    match first_pos(s, x.rid_of()) {
        Some(p) => {
            lemma_first_pos_unique(t, x.rid_of(), p);
            if rid != x.rid_of() {
                match first_pos(s, rid) {
                    Some(q) => {
                        assert(t[q] == s[q]);
                        lemma_first_pos_unique(t, rid, q);
                    },
                    None => {
                        lemma_first_pos(t, rid);
                        if first_pos(t, rid) is Some {
                            let q = first_pos(t, rid)->0;
                            if q != p {
                                assert(t[q] == s[q]);
                            }
                        }
                    },
                }
            }
        },
        None => {
            lemma_first_pos_unique(t, x.rid_of(), s.len() as int);
            if rid != x.rid_of() {
                match first_pos(s, rid) {
                    Some(q) => {
                        assert(t[q] == s[q]);
                        lemma_first_pos_unique(t, rid, q);
                    },
                    None => {
                        lemma_first_pos(t, rid);
                        if first_pos(t, rid) is Some {
                            let q = first_pos(t, rid)->0;
                            if q < s.len() {
                                assert(t[q] == s[q]);
                            }
                        }
                    },
                }
            }
        },
    }
}

/// find_first returns the position of the first item of replica `rid`.
pub fn find_first<T: HasReplica>(v: &Vec<T>, rid: i64) -> (r: Option<usize>)
    ensures
        r matches Some(p) ==> first_pos(v@, rid) == Some(p as int),
        r is None ==> first_pos(v@, rid) is None,
{
    let mut i: usize = 0;
    assert(v@.take(0) =~= Seq::<T>::empty());
    while i < v.len()
        invariant
            i <= v@.len(),
            first_pos(v@.take(i as int), rid) is None,
        decreases v@.len() - i,
    {
        assert(v@.take(i + 1).drop_last() =~= v@.take(i as int));
        if v[i].replica() == rid {
            proof {
                lemma_first_pos(v@.take(i as int), rid);
                assert forall|j: int| 0 <= j < i implies v@[j].rid_of() != rid by {
                    assert(v@.take(i as int)[j] == v@[j]);
                }
                lemma_first_pos_unique(v@, rid, i as int);
            }
            return Some(i);
        }
        i = i + 1;
    }
    assert(v@.take(i as int) =~= v@);
    None
}

/// get_item returns the first item of replica `rid`.
pub fn get_item<T: HasReplica>(v: &Vec<T>, rid: i64) -> (r: Option<T>)
    ensures
        r == lookup(v@, rid),
{
    proof {
        lemma_first_pos(v@, rid);
    }
    match find_first(v, rid) {
        Some(p) => Some(v[p]),
        None => None,
    }
}

/// index_item returns the first item of replica `rid`, which must be there.
pub fn index_item<T: HasReplica>(v: &Vec<T>, rid: i64) -> (r: &T)
    requires
        lookup(v@, rid) is Some,
    ensures
        lookup(v@, rid) == Some(*r),
{
    proof {
        lemma_first_pos(v@, rid);
    }
    let p = find_first(v, rid).unwrap();
    &v[p]
}

/// set_in replaces the first item of the replica of `x` by `x`, or appends `x`.
pub fn set_in<T: HasReplica>(v: &mut Vec<T>, x: T) -> (r: (usize, Option<T>))
    ensures
        final(v)@ == set_item(old(v)@, x),
        r == set_result(old(v)@, x),
{
    let rid = x.replica();
    proof {
        lemma_first_pos(old(v)@, rid);
    }
    match find_first(v, rid) {
        Some(p) => {
            let prev = v[p];
            v.set(p, x);
            (p, Some(prev))
        },
        None => {
            let l = v.len();
            v.push(x);
            (l, None)
        },
    }
}

/// Deps is the dependency list of an instance, at most one entry per replica in use.
#[derive(Clone, Debug, Default, PartialEq, Eq, Hash)]
pub struct Deps {
    pub dep_vec: Vec<Dep>,
}

/// DepVec is a list of dependencies looked up by replica id.
#[derive(Clone, Debug, Default, PartialEq, Eq, Hash)]
pub struct DepVec {
    pub ids: Vec<Dep>,
}

/// InstanceIdVec is a list of instance ids looked up by replica id.
#[derive(Clone, Debug, Default, PartialEq, Eq, Hash)]
pub struct InstanceIdVec {
    pub ids: Vec<InstanceId>,
}

impl View for Deps {
    type V = Seq<Dep>;

    open spec fn view(&self) -> Seq<Dep> {
        self.dep_vec@
    }
}

impl View for DepVec {
    type V = Seq<Dep>;

    open spec fn view(&self) -> Seq<Dep> {
        self.ids@
    }
}

impl View for InstanceIdVec {
    type V = Seq<InstanceId>;

    open spec fn view(&self) -> Seq<InstanceId> {
        self.ids@
    }
}

impl Deps {
    /// index returns the first dependency on replica `rid`; the replica must have one.
    pub fn index(&self, rid: ReplicaId) -> (r: &Dep)
        requires
            lookup(self@, rid) is Some,
        ensures
            lookup(self@, rid) == Some(*r),
    {
        index_item(&self.dep_vec, rid)
    }

    /// get returns the first dependency on replica `rid`.
    pub fn get(&self, rid: ReplicaId) -> (r: Option<Dep>)
        ensures
            r == lookup(self@, rid),
    {
        get_item(&self.dep_vec, rid)
    }

    /// set stores `dep` in place of the first dependency on its replica, or appends it.
    /// It returns where `dep` now stands and the dependency it replaced.
    pub fn set(&mut self, dep: Dep) -> (r: (usize, Option<Dep>))
        ensures
            final(self)@ == set_item(old(self)@, dep),
            r == set_result(old(self)@, dep),
    {
        set_in(&mut self.dep_vec, dep)
    }

    /// len returns the number of dependencies.
    pub fn len(&self) -> (n: usize)
        ensures
            n == self@.len(),
    {
        self.dep_vec.len()
    }

    /// copy returns a list with the same dependencies.
    pub fn copy(&self) -> (r: Deps)
        ensures
            r@ == self@,
    {
        Deps { dep_vec: self.dep_vec.clone() }
    }
}

impl DepVec {
    /// index returns the first dependency on replica `rid`; the replica must have one.
    pub fn index(&self, rid: ReplicaId) -> (r: &Dep)
        requires
            lookup(self@, rid) is Some,
        ensures
            lookup(self@, rid) == Some(*r),
    {
        index_item(&self.ids, rid)
    }

    /// get returns the first dependency on replica `rid`.
    pub fn get(&self, rid: ReplicaId) -> (r: Option<Dep>)
        ensures
            r == lookup(self@, rid),
    {
        get_item(&self.ids, rid)
    }

    /// set stores `dep` in place of the first dependency on its replica, or appends it.
    /// It returns where `dep` now stands and the dependency it replaced.
    pub fn set(&mut self, dep: Dep) -> (r: (usize, Option<Dep>))
        ensures
            final(self)@ == set_item(old(self)@, dep),
            r == set_result(old(self)@, dep),
    {
        set_in(&mut self.ids, dep)
    }
}

impl InstanceIdVec {
    /// index returns the first instance id of replica `rid`; the replica must have one.
    pub fn index(&self, rid: ReplicaId) -> (r: &InstanceId)
        requires
            lookup(self@, rid) is Some,
        ensures
            lookup(self@, rid) == Some(*r),
    {
        index_item(&self.ids, rid)
    }

    /// get returns the first instance id of replica `rid`.
    pub fn get(&self, rid: ReplicaId) -> (r: Option<InstanceId>)
        ensures
            r == lookup(self@, rid),
    {
        get_item(&self.ids, rid)
    }

    /// set stores `iid` in place of the first instance id of its replica, or appends it.
    /// It returns where `iid` now stands and the id it replaced.
    pub fn set(&mut self, iid: InstanceId) -> (r: (usize, Option<InstanceId>))
        ensures
            final(self)@ == set_item(old(self)@, iid),
            r == set_result(old(self)@, iid),
    {
        set_in(&mut self.ids, iid)
    }

    /// push appends `iid`.
    pub fn push(&mut self, iid: InstanceId)
        ensures
            final(self)@ == old(self)@.push(iid),
    {
        self.ids.push(iid);
    }

    /// len returns the number of instance ids.
    pub fn len(&self) -> (n: usize)
        ensures
            n == self@.len(),
    {
        self.ids.len()
    }
}

/// The dependencies on the given instances, in order.
pub open spec fn deps_of_iids(s: Seq<InstanceId>) -> Seq<Dep> {
    s.map_values(|iid: InstanceId| dep_of(iid))
}

/// deps_from_iids returns the dependencies on the given instances.
pub fn deps_from_iids(v: &[InstanceId]) -> (r: Vec<Dep>)
    ensures
        r@ == deps_of_iids(v@),
{
    let mut r: Vec<Dep> = Vec::with_capacity(v.len());
    let mut i: usize = 0;
    while i < v.len()
        invariant
            i <= v@.len(),
            r@ =~= deps_of_iids(v@.take(i as int)),
        decreases v@.len() - i,
    {
        r.push(Dep { replica_id: v[i].replica_id, idx: v[i].idx, seq: 0 });
        i = i + 1;
    }
    assert(v@.take(i as int) =~= v@);
    r
}

// `Deps` and the lists below hold vectors, whose equality a spec function cannot
// construct: the conversions state what they build in their own `ensures`.
impl<'a> From<&'a [Dep]> for Deps {
    fn from(v: &'a [Dep]) -> (r: Deps)
        ensures
            r@ == v@,
    {
        Deps { dep_vec: vstd::slice::slice_to_vec(v) }
    }
}

impl<'a> vstd::std_specs::convert::FromSpecImpl<&'a [Dep]> for Deps {
    open spec fn obeys_from_spec() -> bool {
        false
    }

    open spec fn from_spec(v: &'a [Dep]) -> Deps {
        arbitrary()
    }
}

impl From<Vec<Dep>> for Deps {
    fn from(v: Vec<Dep>) -> (r: Deps)
        ensures
            r@ == v@,
    {
        Deps { dep_vec: v }
    }
}

impl vstd::std_specs::convert::FromSpecImpl<Vec<Dep>> for Deps {
    open spec fn obeys_from_spec() -> bool {
        true
    }

    open spec fn from_spec(v: Vec<Dep>) -> Deps {
        Deps { dep_vec: v }
    }
}

impl<'a> From<&'a [InstanceId]> for Deps {
    fn from(v: &'a [InstanceId]) -> (r: Deps)
        ensures
            r@ == deps_of_iids(v@),
    {
        Deps { dep_vec: deps_from_iids(v) }
    }
}

impl<'a> vstd::std_specs::convert::FromSpecImpl<&'a [InstanceId]> for Deps {
    open spec fn obeys_from_spec() -> bool {
        false
    }

    open spec fn from_spec(v: &'a [InstanceId]) -> Deps {
        arbitrary()
    }
}

impl From<Vec<InstanceId>> for Deps {
    fn from(v: Vec<InstanceId>) -> (r: Deps)
        ensures
            r@ == deps_of_iids(v@),
    {
        Deps { dep_vec: deps_from_iids(v.as_slice()) }
    }
}

impl vstd::std_specs::convert::FromSpecImpl<Vec<InstanceId>> for Deps {
    open spec fn obeys_from_spec() -> bool {
        false
    }

    open spec fn from_spec(v: Vec<InstanceId>) -> Deps {
        arbitrary()
    }
}

impl From<Vec<InstanceId>> for InstanceIdVec {
    fn from(v: Vec<InstanceId>) -> (r: InstanceIdVec)
        ensures
            r@ == v@,
    {
        InstanceIdVec { ids: v }
    }
}

impl vstd::std_specs::convert::FromSpecImpl<Vec<InstanceId>> for InstanceIdVec {
    open spec fn obeys_from_spec() -> bool {
        true
    }

    open spec fn from_spec(v: Vec<InstanceId>) -> InstanceIdVec {
        InstanceIdVec { ids: v }
    }
}

impl<'a> From<&'a [InstanceId]> for InstanceIdVec {
    fn from(v: &'a [InstanceId]) -> (r: InstanceIdVec)
        ensures
            r@ == v@,
    {
        InstanceIdVec { ids: vstd::slice::slice_to_vec(v) }
    }
}

impl<'a> vstd::std_specs::convert::FromSpecImpl<&'a [InstanceId]> for InstanceIdVec {
    open spec fn obeys_from_spec() -> bool {
        false
    }

    open spec fn from_spec(v: &'a [InstanceId]) -> InstanceIdVec {
        arbitrary()
    }
}

impl From<Vec<Dep>> for DepVec {
    fn from(v: Vec<Dep>) -> (r: DepVec)
        ensures
            r@ == v@,
    {
        DepVec { ids: v }
    }
}

impl vstd::std_specs::convert::FromSpecImpl<Vec<Dep>> for DepVec {
    open spec fn obeys_from_spec() -> bool {
        true
    }

    open spec fn from_spec(v: Vec<Dep>) -> DepVec {
        DepVec { ids: v }
    }
}

/// InstanceIds maps a replica id to an instance index of that replica.
#[derive(Clone, Debug, Default, PartialEq, Eq)]
pub struct InstanceIds {
    pub ids: HashMap<ReplicaId, i64>,
}

impl View for InstanceIds {
    type V = Map<i64, i64>;

    open spec fn view(&self) -> Map<i64, i64> {
        self.ids@
    }
}

/// The map that inserting the given pairs in order builds.
pub open spec fn pairs_map(s: Seq<(i64, i64)>) -> Map<i64, i64>
    decreases s.len(),
{
    if s.len() == 0 {
        Map::empty()
    } else {
        pairs_map(s.drop_last()).insert(s.last().0, s.last().1)
    }
}

/// The pairs of the given instance ids.
pub open spec fn iid_pairs(s: Seq<InstanceId>) -> Seq<(i64, i64)> {
    s.map_values(|iid: InstanceId| (iid.replica_id, iid.idx))
}

impl InstanceIds {
    /// new returns an empty map.
    pub fn new() -> (r: InstanceIds)
        ensures
            r@ == Map::<i64, i64>::empty(),
    {
        InstanceIds { ids: HashMap::new() }
    }

    /// insert maps replica `rid` to `idx`; it returns what the replica mapped to before.
    pub fn insert(&mut self, rid: ReplicaId, idx: i64) -> (r: Option<i64>)
        ensures
            final(self)@ == old(self)@.insert(rid, idx),
            r == (if old(self)@.contains_key(rid) {
                Some(old(self)@[rid])
            } else {
                None
            }),
    {
        broadcast use vstd::std_specs::hash::group_hash_axioms;

        self.ids.insert(rid, idx)
    }

    /// get_idx returns the index replica `rid` maps to.
    pub fn get_idx(&self, rid: ReplicaId) -> (r: Option<i64>)
        ensures
            r == (if self@.contains_key(rid) {
                Some(self@[rid])
            } else {
                None
            }),
    {
        broadcast use vstd::std_specs::hash::group_hash_axioms;

        match self.ids.get(&rid) {
            Some(v) => Some(*v),
            None => None,
        }
    }

    /// len returns the number of replicas mapped.
    pub fn len(&self) -> (n: usize)
        ensures
            n == self@.len(),
    {
        broadcast use vstd::std_specs::hash::group_hash_axioms;

        self.ids.len()
    }

    /// from_pairs maps each replica to its index, a later pair winning over an earlier one.
    pub fn from_pairs(v: &[(i64, i64)]) -> (r: InstanceIds)
        ensures
            r@ == pairs_map(v@),
    {
        let mut r = InstanceIds::new();
        let mut i: usize = 0;
        while i < v.len()
            invariant
                i <= v@.len(),
                r@ == pairs_map(v@.take(i as int)),
            decreases v@.len() - i,
        {
            assert(v@.take(i + 1).drop_last() =~= v@.take(i as int));
            r.insert(v[i].0, v[i].1);
            i = i + 1;
        }
        assert(v@.take(i as int) =~= v@);
        r
    }

    /// from_iids maps the replica of each instance id to its index.
    pub fn from_iids(v: &[InstanceId]) -> (r: InstanceIds)
        ensures
            r@ == pairs_map(iid_pairs(v@)),
    {
        let mut r = InstanceIds::new();
        let mut i: usize = 0;
        while i < v.len()
            invariant
                i <= v@.len(),
                r@ == pairs_map(iid_pairs(v@.take(i as int))),
            decreases v@.len() - i,
        {
            assert(iid_pairs(v@.take(i + 1)).drop_last() =~= iid_pairs(v@.take(i as int)));
            r.insert(v[i].replica_id, v[i].idx);
            i = i + 1;
        }
        assert(v@.take(i as int) =~= v@);
        r
    }
}

} // verus!

verus! {

/// Every item of `s` is lower than the ones after it.
pub open spec fn ascending(s: Seq<i64>) -> bool {
    forall|i: int, j: int| 0 <= i < j < s.len() ==> s[i] < s[j]
}

/// The replicas of an instance map, lowest first.
pub open spec fn sorted_replicas(m: Map<i64, i64>) -> Seq<i64> {
    choose|s: Seq<i64>| ascending(s) && s.to_set() == m.dom()
}

/// Two ascending sequences of the same items are equal.
pub proof fn lemma_ascending_unique(a: Seq<i64>, b: Seq<i64>)
    requires
        ascending(a),
        ascending(b),
        a.to_set() == b.to_set(),
    ensures
        a == b,
    decreases a.len(),
{
    if a.len() == 0 {
        if b.len() > 0 {
            assert(b.to_set().contains(b[0]));
        }
        assert(a =~= b);
    } else {
        assert(a.to_set().contains(a[0]));
        assert(b.to_set().contains(a[0]));
        assert(b.len() > 0);
        assert(b.to_set().contains(b[0]));
        assert(a.to_set().contains(b[0]));
        let i = choose|i: int| 0 <= i < a.len() && a[i] == b[0];
        let j = choose|j: int| 0 <= j < b.len() && b[j] == a[0];
        assert(a[0] <= a[i]);
        assert(b[0] <= b[j]);
        assert(a[0] == b[0]);
        let ra = a.drop_first();
        let rb = b.drop_first();
        assert forall|x: i64| ra.to_set().contains(x) implies rb.to_set().contains(x) by {
            let p = choose|p: int| 0 <= p < ra.len() && ra[p] == x;
            assert(a[p + 1] == x);
            assert(a.to_set().contains(x));
            assert(b.to_set().contains(x));
            let q = choose|q: int| 0 <= q < b.len() && b[q] == x;
            if q == 0 {
                assert(a[0] < a[p + 1]);
            }
            assert(rb[q - 1] == x);
        }
        assert forall|x: i64| rb.to_set().contains(x) implies ra.to_set().contains(x) by {
            let p = choose|p: int| 0 <= p < rb.len() && rb[p] == x;
            assert(b[p + 1] == x);
            assert(b.to_set().contains(x));
            assert(a.to_set().contains(x));
            let q = choose|q: int| 0 <= q < a.len() && a[q] == x;
            if q == 0 {
                assert(b[0] < b[p + 1]);
            }
            assert(ra[q - 1] == x);
        }
        assert(ra.to_set() =~= rb.to_set());
        lemma_ascending_unique(ra, rb);
        assert(a.len() == b.len());
        assert forall|i: int| 0 <= i < a.len() implies a[i] == b[i] by {
            if i > 0 {
                assert(a[i] == ra[i - 1]);
                assert(b[i] == rb[i - 1]);
            }
        }
        assert(a =~= b);
    }
}

/// insert_ascending puts `k` into the ascending `v` where it belongs.
fn insert_ascending(v: &mut Vec<i64>, k: i64)
    requires
        ascending(old(v)@),
        !old(v)@.contains(k),
    ensures
        ascending(final(v)@),
        final(v)@.to_set() == old(v)@.to_set().insert(k),
{
    let mut i: usize = 0;
    while i < v.len() && v[i] < k
        invariant
            i <= v@.len(),
            forall|j: int| 0 <= j < i ==> v@[j] < k,
        decreases v@.len() - i,
    {
        i = i + 1;
    }
    let ghost before = v@;
    assert(i < before.len() ==> before[i as int] > k) by {
        if i < before.len() {
            assert(before[i as int] != k);
        }
    }
    v.insert(i, k);
    assert(v@ =~= before.take(i as int).push(k) + before.skip(i as int));
    assert forall|x: i64| v@.to_set().contains(x) <==> before.to_set().insert(k).contains(x) by {
        if v@.to_set().contains(x) {
            let p = choose|p: int| 0 <= p < v@.len() && v@[p] == x;
            if p < i {
                assert(before[p] == x);
            } else if p > i {
                assert(before[p - 1] == x);
            }
        }
        if before.to_set().contains(x) {
            let p = choose|p: int| 0 <= p < before.len() && before[p] == x;
            if p < i {
                assert(v@[p] == x);
            } else {
                assert(v@[p + 1] == x);
            }
        }
        if x == k {
            assert(v@[i as int] == k);
        }
    }
    assert(v@.to_set() =~= before.to_set().insert(k));
    assert forall|a: int, b: int| 0 <= a < b < v@.len() implies v@[a] < v@[b] by {
        if b < i {
        } else if b == i {
        } else if a < i {
            assert(before[a] < k);
            if i < before.len() {
                assert(before[i as int] <= before[b - 1]);
            }
        } else if a == i {
            assert(before[i as int] <= before[b - 1]);
        } else {
        }
    }
}

impl InstanceIds {
    /// replica_ids returns the replicas of the map, lowest first.
    pub fn replica_ids(&self) -> (r: Vec<i64>)
        ensures
            r@ == sorted_replicas(self@),
            ascending(r@),
            r@.to_set() == self@.dom(),
    {
        broadcast use vstd::std_specs::hash::group_hash_axioms;

        let mut r: Vec<i64> = Vec::new();
        let ghost ks: Seq<i64> = vstd::std_specs::iter::IteratorSpec::remaining(&self.ids.keys()).unref();
        let ghost mut n: int = 0;
        for k in it: self.ids.keys()
            invariant
                n == it.index(),
                it.seq().unref() == ks,
                ascending(r@),
                r@.to_set() == ks.take(n).to_set(),
                ks.to_set() == self@.dom(),
                ks.no_duplicates(),
                ks.len() == it.seq().len(),
        {
            assert(ks[n] == *k);
            assert(ks.take(n + 1) =~= ks.take(n).push(*k));
            assert(!r@.contains(*k)) by {
                if r@.contains(*k) {
                    assert(r@.to_set().contains(*k));
                    assert(ks.take(n).to_set().contains(*k));
                    let p = choose|p: int| 0 <= p < n && ks.take(n)[p] == *k;
                    assert(ks[p] == ks[n]);
                }
            }
            insert_ascending(&mut r, *k);
            proof {
                ks.take(n).lemma_push_to_set_commute(*k);
                n = n + 1;
            }
        }
        assert(ks.take(n) =~= ks);
        proof {
            lemma_ascending_unique(r@, sorted_replicas(self@));
        }
        r
    }
}

} // verus!

verus! {

/// The pairs of integers a list of pairs stands for.
pub open spec fn int_pairs<A: IdInt, B: IdInt>(s: Seq<(A, B)>) -> Seq<(i64, i64)> {
    s.map_values(|p: (A, B)| (p.0.int_value() as i64, p.1.int_value() as i64))
}

impl InstanceIds {
    /// from_id_pairs maps each replica to its index, a later pair winning over an earlier
    /// one.
    pub fn from_id_pairs<A: IdInt, B: IdInt>(v: &[(A, B)]) -> (r: InstanceIds)
        ensures
            r@ == pairs_map(int_pairs(v@)),
    {
        let mut r = InstanceIds::new();
        let mut i: usize = 0;
        while i < v.len()
            invariant
                i <= v@.len(),
                r@ == pairs_map(int_pairs(v@.take(i as int))),
            decreases v@.len() - i,
        {
            assert(int_pairs(v@.take(i + 1)).drop_last() =~= int_pairs(v@.take(i as int)));
            let a = v[i].0.to_i64();
            let b = v[i].1.to_i64();
            r.insert(a, b);
            i = i + 1;
        }
        assert(v@.take(i as int) =~= v@);
        r
    }
}

impl<'a> From<&'a [InstanceId]> for InstanceIds {
    fn from(v: &'a [InstanceId]) -> (r: InstanceIds)
        ensures
            r@ == pairs_map(iid_pairs(v@)),
    {
        InstanceIds::from_iids(v)
    }
}

impl<'a> vstd::std_specs::convert::FromSpecImpl<&'a [InstanceId]> for InstanceIds {
    open spec fn obeys_from_spec() -> bool {
        false
    }

    open spec fn from_spec(v: &'a [InstanceId]) -> InstanceIds {
        arbitrary()
    }
}

impl From<Vec<InstanceId>> for InstanceIds {
    fn from(v: Vec<InstanceId>) -> (r: InstanceIds)
        ensures
            r@ == pairs_map(iid_pairs(v@)),
    {
        InstanceIds::from_iids(v.as_slice())
    }
}

impl vstd::std_specs::convert::FromSpecImpl<Vec<InstanceId>> for InstanceIds {
    open spec fn obeys_from_spec() -> bool {
        false
    }

    open spec fn from_spec(v: Vec<InstanceId>) -> InstanceIds {
        arbitrary()
    }
}

impl<'a, A: IdInt, B: IdInt> From<&'a [(A, B)]> for InstanceIds {
    fn from(v: &'a [(A, B)]) -> (r: InstanceIds)
        ensures
            r@ == pairs_map(int_pairs(v@)),
    {
        InstanceIds::from_id_pairs(v)
    }
}

impl<'a, A: IdInt, B: IdInt> vstd::std_specs::convert::FromSpecImpl<&'a [(A, B)]> for InstanceIds {
    open spec fn obeys_from_spec() -> bool {
        false
    }

    open spec fn from_spec(v: &'a [(A, B)]) -> InstanceIds {
        arbitrary()
    }
}

impl<A> From<[A; 0]> for InstanceIds {
    fn from(v: [A; 0]) -> (r: InstanceIds)
        ensures
            r@ == Map::<i64, i64>::empty(),
    {
        InstanceIds::new()
    }
}

impl<A> vstd::std_specs::convert::FromSpecImpl<[A; 0]> for InstanceIds {
    open spec fn obeys_from_spec() -> bool {
        false
    }

    open spec fn from_spec(v: [A; 0]) -> InstanceIds {
        arbitrary()
    }
}

impl<'a, A> From<&'a [A; 0]> for InstanceIds {
    fn from(v: &'a [A; 0]) -> (r: InstanceIds)
        ensures
            r@ == Map::<i64, i64>::empty(),
    {
        InstanceIds::new()
    }
}

impl<'a, A> vstd::std_specs::convert::FromSpecImpl<&'a [A; 0]> for InstanceIds {
    open spec fn obeys_from_spec() -> bool {
        false
    }

    open spec fn from_spec(v: &'a [A; 0]) -> InstanceIds {
        arbitrary()
    }
}

impl<A: IdInt, B: IdInt> From<[(A, B); 1]> for InstanceIds {
    fn from(v: [(A, B); 1]) -> (r: InstanceIds)
        ensures
            r@ == pairs_map(int_pairs(v@)),
    {
        InstanceIds::from_id_pairs(v.as_slice())
    }
}

impl<A: IdInt, B: IdInt> vstd::std_specs::convert::FromSpecImpl<[(A, B); 1]> for InstanceIds {
    open spec fn obeys_from_spec() -> bool {
        false
    }

    open spec fn from_spec(v: [(A, B); 1]) -> InstanceIds {
        arbitrary()
    }
}

impl<'a, A: IdInt, B: IdInt> From<&'a [(A, B); 1]> for InstanceIds {
    fn from(v: &'a [(A, B); 1]) -> (r: InstanceIds)
        ensures
            r@ == pairs_map(int_pairs(v@)),
    {
        InstanceIds::from_id_pairs(v.as_slice())
    }
}

impl<'a, A: IdInt, B: IdInt> vstd::std_specs::convert::FromSpecImpl<&'a [(A, B); 1]> for InstanceIds {
    open spec fn obeys_from_spec() -> bool {
        false
    }

    open spec fn from_spec(v: &'a [(A, B); 1]) -> InstanceIds {
        arbitrary()
    }
}

impl<A: IdInt, B: IdInt> From<[(A, B); 2]> for InstanceIds {
    fn from(v: [(A, B); 2]) -> (r: InstanceIds)
        ensures
            r@ == pairs_map(int_pairs(v@)),
    {
        InstanceIds::from_id_pairs(v.as_slice())
    }
}

impl<A: IdInt, B: IdInt> vstd::std_specs::convert::FromSpecImpl<[(A, B); 2]> for InstanceIds {
    open spec fn obeys_from_spec() -> bool {
        false
    }

    open spec fn from_spec(v: [(A, B); 2]) -> InstanceIds {
        arbitrary()
    }
}

impl<'a, A: IdInt, B: IdInt> From<&'a [(A, B); 2]> for InstanceIds {
    fn from(v: &'a [(A, B); 2]) -> (r: InstanceIds)
        ensures
            r@ == pairs_map(int_pairs(v@)),
    {
        InstanceIds::from_id_pairs(v.as_slice())
    }
}

impl<'a, A: IdInt, B: IdInt> vstd::std_specs::convert::FromSpecImpl<&'a [(A, B); 2]> for InstanceIds {
    open spec fn obeys_from_spec() -> bool {
        false
    }

    open spec fn from_spec(v: &'a [(A, B); 2]) -> InstanceIds {
        arbitrary()
    }
}

impl<A: IdInt, B: IdInt> From<[(A, B); 3]> for InstanceIds {
    fn from(v: [(A, B); 3]) -> (r: InstanceIds)
        ensures
            r@ == pairs_map(int_pairs(v@)),
    {
        InstanceIds::from_id_pairs(v.as_slice())
    }
}

impl<A: IdInt, B: IdInt> vstd::std_specs::convert::FromSpecImpl<[(A, B); 3]> for InstanceIds {
    open spec fn obeys_from_spec() -> bool {
        false
    }

    open spec fn from_spec(v: [(A, B); 3]) -> InstanceIds {
        arbitrary()
    }
}

impl<'a, A: IdInt, B: IdInt> From<&'a [(A, B); 3]> for InstanceIds {
    fn from(v: &'a [(A, B); 3]) -> (r: InstanceIds)
        ensures
            r@ == pairs_map(int_pairs(v@)),
    {
        InstanceIds::from_id_pairs(v.as_slice())
    }
}

impl<'a, A: IdInt, B: IdInt> vstd::std_specs::convert::FromSpecImpl<&'a [(A, B); 3]> for InstanceIds {
    open spec fn obeys_from_spec() -> bool {
        false
    }

    open spec fn from_spec(v: &'a [(A, B); 3]) -> InstanceIds {
        arbitrary()
    }
}

impl<A: IdInt, B: IdInt> From<[(A, B); 4]> for InstanceIds {
    fn from(v: [(A, B); 4]) -> (r: InstanceIds)
        ensures
            r@ == pairs_map(int_pairs(v@)),
    {
        InstanceIds::from_id_pairs(v.as_slice())
    }
}

impl<A: IdInt, B: IdInt> vstd::std_specs::convert::FromSpecImpl<[(A, B); 4]> for InstanceIds {
    open spec fn obeys_from_spec() -> bool {
        false
    }

    open spec fn from_spec(v: [(A, B); 4]) -> InstanceIds {
        arbitrary()
    }
}

impl<'a, A: IdInt, B: IdInt> From<&'a [(A, B); 4]> for InstanceIds {
    fn from(v: &'a [(A, B); 4]) -> (r: InstanceIds)
        ensures
            r@ == pairs_map(int_pairs(v@)),
    {
        InstanceIds::from_id_pairs(v.as_slice())
    }
}

impl<'a, A: IdInt, B: IdInt> vstd::std_specs::convert::FromSpecImpl<&'a [(A, B); 4]> for InstanceIds {
    open spec fn obeys_from_spec() -> bool {
        false
    }

    open spec fn from_spec(v: &'a [(A, B); 4]) -> InstanceIds {
        arbitrary()
    }
}

impl<A: IdInt, B: IdInt> From<[(A, B); 5]> for InstanceIds {
    fn from(v: [(A, B); 5]) -> (r: InstanceIds)
        ensures
            r@ == pairs_map(int_pairs(v@)),
    {
        InstanceIds::from_id_pairs(v.as_slice())
    }
}

impl<A: IdInt, B: IdInt> vstd::std_specs::convert::FromSpecImpl<[(A, B); 5]> for InstanceIds {
    open spec fn obeys_from_spec() -> bool {
        false
    }

    open spec fn from_spec(v: [(A, B); 5]) -> InstanceIds {
        arbitrary()
    }
}

impl<'a, A: IdInt, B: IdInt> From<&'a [(A, B); 5]> for InstanceIds {
    fn from(v: &'a [(A, B); 5]) -> (r: InstanceIds)
        ensures
            r@ == pairs_map(int_pairs(v@)),
    {
        InstanceIds::from_id_pairs(v.as_slice())
    }
}

impl<'a, A: IdInt, B: IdInt> vstd::std_specs::convert::FromSpecImpl<&'a [(A, B); 5]> for InstanceIds {
    open spec fn obeys_from_spec() -> bool {
        false
    }

    open spec fn from_spec(v: &'a [(A, B); 5]) -> InstanceIds {
        arbitrary()
    }
}

impl<A: IdInt, B: IdInt> From<[(A, B); 6]> for InstanceIds {
    fn from(v: [(A, B); 6]) -> (r: InstanceIds)
        ensures
            r@ == pairs_map(int_pairs(v@)),
    {
        InstanceIds::from_id_pairs(v.as_slice())
    }
}

impl<A: IdInt, B: IdInt> vstd::std_specs::convert::FromSpecImpl<[(A, B); 6]> for InstanceIds {
    open spec fn obeys_from_spec() -> bool {
        false
    }

    open spec fn from_spec(v: [(A, B); 6]) -> InstanceIds {
        arbitrary()
    }
}

impl<'a, A: IdInt, B: IdInt> From<&'a [(A, B); 6]> for InstanceIds {
    fn from(v: &'a [(A, B); 6]) -> (r: InstanceIds)
        ensures
            r@ == pairs_map(int_pairs(v@)),
    {
        InstanceIds::from_id_pairs(v.as_slice())
    }
}

impl<'a, A: IdInt, B: IdInt> vstd::std_specs::convert::FromSpecImpl<&'a [(A, B); 6]> for InstanceIds {
    open spec fn obeys_from_spec() -> bool {
        false
    }

    open spec fn from_spec(v: &'a [(A, B); 6]) -> InstanceIds {
        arbitrary()
    }
}

impl<A: IdInt, B: IdInt> From<[(A, B); 7]> for InstanceIds {
    fn from(v: [(A, B); 7]) -> (r: InstanceIds)
        ensures
            r@ == pairs_map(int_pairs(v@)),
    {
        InstanceIds::from_id_pairs(v.as_slice())
    }
}

impl<A: IdInt, B: IdInt> vstd::std_specs::convert::FromSpecImpl<[(A, B); 7]> for InstanceIds {
    open spec fn obeys_from_spec() -> bool {
        false
    }

    open spec fn from_spec(v: [(A, B); 7]) -> InstanceIds {
        arbitrary()
    }
}

impl<'a, A: IdInt, B: IdInt> From<&'a [(A, B); 7]> for InstanceIds {
    fn from(v: &'a [(A, B); 7]) -> (r: InstanceIds)
        ensures
            r@ == pairs_map(int_pairs(v@)),
    {
        InstanceIds::from_id_pairs(v.as_slice())
    }
}

impl<'a, A: IdInt, B: IdInt> vstd::std_specs::convert::FromSpecImpl<&'a [(A, B); 7]> for InstanceIds {
    open spec fn obeys_from_spec() -> bool {
        false
    }

    open spec fn from_spec(v: &'a [(A, B); 7]) -> InstanceIds {
        arbitrary()
    }
}

impl<A: IdInt, B: IdInt> From<[(A, B); 8]> for InstanceIds {
    fn from(v: [(A, B); 8]) -> (r: InstanceIds)
        ensures
            r@ == pairs_map(int_pairs(v@)),
    {
        InstanceIds::from_id_pairs(v.as_slice())
    }
}

impl<A: IdInt, B: IdInt> vstd::std_specs::convert::FromSpecImpl<[(A, B); 8]> for InstanceIds {
    open spec fn obeys_from_spec() -> bool {
        false
    }

    open spec fn from_spec(v: [(A, B); 8]) -> InstanceIds {
        arbitrary()
    }
}

impl<'a, A: IdInt, B: IdInt> From<&'a [(A, B); 8]> for InstanceIds {
    fn from(v: &'a [(A, B); 8]) -> (r: InstanceIds)
        ensures
            r@ == pairs_map(int_pairs(v@)),
    {
        InstanceIds::from_id_pairs(v.as_slice())
    }
}

impl<'a, A: IdInt, B: IdInt> vstd::std_specs::convert::FromSpecImpl<&'a [(A, B); 8]> for InstanceIds {
    open spec fn obeys_from_spec() -> bool {
        false
    }

    open spec fn from_spec(v: &'a [(A, B); 8]) -> InstanceIds {
        arbitrary()
    }
}

} // verus!
