//! The layout of a cluster: its nodes, its replication groups with the key range each
//! serves, and which node each replica runs on.
use crate::qpaxos::errors::copy_string;
use crate::qpaxos::deps::{ascending, lemma_ascending_unique};
use crate::qpaxos::ReplicaId;
use std::collections::BTreeMap;
use vstd::prelude::*;
use vstd::std_specs::cmp::OrdSpec;
use vstd::string::StringSliceAdditionalSpecFns;
use vstd::utf8::encode_utf8;

verus! {

/// NodeId names a node of the cluster; it is the address replicas of other nodes reach
/// it at.
pub type NodeId = String;

/// Node is a server of the cluster; its addresses are written `ip:port`.
#[derive(Debug, PartialEq, Eq, Clone)]
pub struct Node {
    pub node_id: NodeId,
    pub api_addr: String,
    pub api_uaddr: Option<String>,
    pub replication: String,
}

/// ReplicaInfo tells the group a replica belongs to and the node it runs on.
#[derive(Debug, PartialEq, Eq, Clone)]
pub struct ReplicaInfo {
    pub group_idx: usize,
    pub node_id: NodeId,
}

/// GroupInfo is a replication group: the keys it serves, from `range.0` included to
/// `range.1` excluded, and the node of each of its replicas.
#[derive(Debug, PartialEq, Eq)]
pub struct GroupInfo {
    pub range: (String, String),
    pub replicas: BTreeMap<ReplicaId, NodeId>,
}

/// ClusterInfo is the whole cluster: its nodes, each with a distinct id, its groups in
/// key order, and every replica of every group.
#[derive(Debug, PartialEq, Eq)]
pub struct ClusterInfo {
    pub nodes: Vec<Node>,
    pub groups: Vec<GroupInfo>,
    pub replicas: BTreeMap<ReplicaId, ReplicaInfo>,
}

/// ConfError is what is wrong with a cluster layout: a replica on a node that is not in
/// the cluster, a replica in two groups, or key ranges out of order.
#[derive(Debug, PartialEq, Eq, Clone)]
pub enum ConfError {
    OrphanReplica(ReplicaId, NodeId),
    DupReplica(ReplicaId),
    GroupOutOfOrder(String, String),
}

/// What a layout error holds, as plain values.
pub enum ConfErrorView {
    OrphanReplica(i64, Seq<char>),
    DupReplica(i64),
    GroupOutOfOrder(Seq<char>, Seq<char>),
}

impl View for ConfError {
    type V = ConfErrorView;

    open spec fn view(&self) -> ConfErrorView {
        match self {
            ConfError::OrphanReplica(r, n) => ConfErrorView::OrphanReplica(*r, n@),
            ConfError::DupReplica(r) => ConfErrorView::DupReplica(*r),
            ConfError::GroupOutOfOrder(a, b) => ConfErrorView::GroupOutOfOrder(a@, b@),
        }
    }
}

// ---------------------------------------------------------------------------
// Text order
// ---------------------------------------------------------------------------

/// Byte strings in lexicographic order: a proper prefix comes first.
pub open spec fn bytes_lt(a: Seq<u8>, b: Seq<u8>) -> bool
    decreases a.len(),
{
    if a.len() == 0 {
        b.len() > 0
    } else if b.len() == 0 {
        false
    } else if a[0] != b[0] {
        a[0] < b[0]
    } else {
        bytes_lt(a.drop_first(), b.drop_first())
    }
}

/// Texts in the order of their UTF-8 bytes, which is the order of `String`.
pub open spec fn text_lt(a: Seq<char>, b: Seq<char>) -> bool {
    bytes_lt(encode_utf8(a), encode_utf8(b))
}

/// bytes_less tells whether `a` comes strictly before `b` in lexicographic order.
fn bytes_less(a: &[u8], b: &[u8]) -> (r: bool)
    ensures
        r == bytes_lt(a@, b@),
{
    let mut i: usize = 0;
    assert(a@.skip(0) =~= a@);
    assert(b@.skip(0) =~= b@);
    while i < a.len() && i < b.len() && a[i] == b[i]
        invariant
            i <= a@.len(),
            i <= b@.len(),
            bytes_lt(a@, b@) == bytes_lt(a@.skip(i as int), b@.skip(i as int)),
        decreases a@.len() - i,
    {
        assert(a@.skip(i as int).drop_first() =~= a@.skip(i + 1));
        assert(b@.skip(i as int).drop_first() =~= b@.skip(i + 1));
        i = i + 1;
    }
    if i == a.len() {
        i < b.len()
    } else if i == b.len() {
        false
    } else {
        a[i] < b[i]
    }
}

/// text_less tells whether `a` comes strictly before `b`, as strings are ordered.
pub fn text_less(a: &str, b: &str) -> (r: bool)
    ensures
        r == text_lt(a@, b@),
{
    bytes_less(a.as_bytes(), b.as_bytes())
}

/// same_text tells whether two texts are equal.
pub fn same_text(a: &str, b: &str) -> (r: bool)
    ensures
        r == (a@ == b@),
{
    let cs = crate::text::str_chars(a);
    crate::command::chars_eq(cs.as_slice(), b)
}

// ---------------------------------------------------------------------------
// Checks
// ---------------------------------------------------------------------------

/// A group whose range does not start before it ends.
pub open spec fn bad_range(g: GroupInfo) -> bool {
    !text_lt(g.range.0@, g.range.1@)
}

/// Two neighbouring groups whose ranges overlap.
pub open spec fn overlaps(a: GroupInfo, b: GroupInfo) -> bool {
    text_lt(b.range.0@, a.range.1@)
}

/// The first group from the `k`-th on whose range is empty or reversed.
pub open spec fn first_bad_range(gs: Seq<GroupInfo>, k: int) -> Option<int>
    decreases gs.len() - k,
{
    if k < 0 || k >= gs.len() {
        None
    } else if bad_range(gs[k]) {
        Some(k)
    } else {
        first_bad_range(gs, k + 1)
    }
}

/// The first group from the `k`-th on whose range overlaps the next one.
pub open spec fn first_overlap(gs: Seq<GroupInfo>, k: int) -> Option<int>
    decreases gs.len() - k,
{
    if k < 0 || k + 1 >= gs.len() {
        None
    } else if overlaps(gs[k], gs[k + 1]) {
        Some(k)
    } else {
        first_overlap(gs, k + 1)
    }
}

/// What `check_group` returns: the first empty or reversed range, else the first end of
/// a range beyond the start of the next, else success.
pub open spec fn group_check(gs: Seq<GroupInfo>) -> Result<(), ConfErrorView> {
    match first_bad_range(gs, 0) {
        Some(i) => Err(ConfErrorView::GroupOutOfOrder(gs[i].range.0@, gs[i].range.1@)),
        None => match first_overlap(gs, 0) {
            Some(i) => Err(ConfErrorView::GroupOutOfOrder(gs[i].range.1@, gs[i + 1].range.0@)),
            None => Ok(()),
        },
    }
}

/// The view of a result of a check.
pub open spec fn check_view(r: Result<(), ConfError>) -> Result<(), ConfErrorView> {
    match r {
        Ok(_) => Ok(()),
        Err(e) => Err(e@),
    }
}

/// The replicas of the first `n` groups, with their group and node; no replica is in
/// two of them.
#[verifier::opaque]
pub open spec fn replicas_upto(gs: Seq<GroupInfo>, n: int) -> Map<i64, (usize, Seq<char>)>
    decreases n,
{
    if n <= 0 {
        Map::empty()
    } else {
        let prev = replicas_upto(gs, n - 1);
        let g = gs[n - 1];
        Map::new(
            |rid: i64| prev.contains_key(rid) || g.replicas@.contains_key(rid),
            |rid: i64|
                if g.replicas@.contains_key(rid) {
                    ((n - 1) as usize, g.replicas@[rid]@)
                } else {
                    prev[rid]
                },
        )
    }
}

/// The lowest replica of group `g` already in an earlier group, if any.
pub open spec fn dup_in(gs: Seq<GroupInfo>, g: int) -> Option<i64> {
    let prev = replicas_upto(gs, g);
    let keys = gs[g].replicas@.dom();
    if exists|r: i64| keys.contains(r) && #[trigger] prev.contains_key(r) {
        Some(choose|r: i64| keys.contains(r) && prev.contains_key(r) && forall|q: i64| #![trigger prev.contains_key(q)] keys.contains(q) && prev.contains_key(q) ==> r <= q)
    } else {
        None
    }
}

/// The first group from the `k`-th on holding a replica of an earlier group.
pub open spec fn first_dup_group(gs: Seq<GroupInfo>, k: int) -> Option<int>
    decreases gs.len() - k,
{
    if k < 0 || k >= gs.len() {
        None
    } else if dup_in(gs, k) is Some {
        Some(k)
    } else {
        first_dup_group(gs, k + 1)
    }
}

/// What `populate_replicas` ends with: the error on the lowest replica of the first
/// group that repeats one, with the replicas of the groups before it; or success with
/// the replicas of all groups.
pub open spec fn populate_outcome(gs: Seq<GroupInfo>) -> (Result<(), ConfErrorView>, Map<i64, (usize, Seq<char>)>) {
    match first_dup_group(gs, 0) {
        Some(g) => (Err(ConfErrorView::DupReplica(dup_in(gs, g)->0)), replicas_upto(gs, g)),
        None => (Ok(()), replicas_upto(gs, gs.len() as int)),
    }
}

/// What the replicas of a cluster hold, as plain values.
pub open spec fn replicas_view(m: Map<i64, ReplicaInfo>) -> Map<i64, (usize, Seq<char>)> {
    m.map_values(|ri: ReplicaInfo| (ri.group_idx, ri.node_id@))
}

/// The position of the first node from the `k`-th on with id `nid`.
pub open spec fn node_index(nodes: Seq<Node>, nid: Seq<char>, k: int) -> Option<int>
    decreases nodes.len() - k,
{
    if k < 0 || k >= nodes.len() {
        None
    } else if nodes[k].node_id@ == nid {
        Some(k)
    } else {
        node_index(nodes, nid, k + 1)
    }
}

/// The node replica `rid` runs on: the first node with the id the replica names.
pub open spec fn replica_node(c: ClusterInfo, rid: i64) -> Option<Node> {
    if c.replicas@.contains_key(rid) {
        match node_index(c.nodes@, c.replicas@[rid].node_id@, 0) {
            Some(i) => Some(c.nodes@[i]),
            None => None,
        }
    } else {
        None
    }
}

/// Some node of the cluster has id `nid`.
/// No two nodes share an id, as when nodes are kept by id.
pub open spec fn nodes_unique(nodes: Seq<Node>) -> bool {
    forall|i: int, j: int|
        0 <= i < j < nodes.len() ==> (#[trigger] nodes[i]).node_id@ != (#[trigger] nodes[j]).node_id@
}

/// With distinct ids, the node found for an id is the one node with that id.
pub proof fn lemma_unique_node(nodes: Seq<Node>, nid: Seq<char>, i: int)
    requires
        nodes_unique(nodes),
        0 <= i < nodes.len(),
        nodes[i].node_id@ == nid,
    ensures
        node_index(nodes, nid, 0) == Some(i),
{
    lemma_node_index_from(nodes, nid, 0, i);
}

/// From the `k`-th node on, the first with id `nid` is the only one, at `i`, when ids
/// are distinct.
proof fn lemma_node_index_from(nodes: Seq<Node>, nid: Seq<char>, k: int, i: int)
    requires
        nodes_unique(nodes),
        0 <= k <= i < nodes.len(),
        nodes[i].node_id@ == nid,
    ensures
        node_index(nodes, nid, k) == Some(i),
    decreases i - k,
{
    if k < i {
        assert(nodes[k].node_id@ != nodes[i].node_id@);
        lemma_node_index_from(nodes, nid, k + 1, i);
    }
}

pub open spec fn has_node(nodes: Seq<Node>, nid: Seq<char>) -> bool {
    exists|i: int| 0 <= i < nodes.len() && (#[trigger] nodes[i]).node_id@ == nid
}

/// The lowest replica whose node is not in the cluster.
pub open spec fn first_orphan(nodes: Seq<Node>, reps: Map<i64, (usize, Seq<char>)>) -> Option<i64> {
    if exists|r: i64| #[trigger] reps.contains_key(r) && !has_node(nodes, reps[r].1) {
        Some(choose|r: i64| reps.contains_key(r) && !has_node(nodes, reps[r].1) && forall|q: i64| #[trigger] reps.contains_key(q) && !has_node(nodes, reps[q].1) ==> r <= q)
    } else {
        None
    }
}

/// Every replica names a group of the cluster.
pub open spec fn replicas_in_groups(c: ClusterInfo) -> bool {
    forall|rid: i64| #[trigger] c.replicas@.contains_key(rid) ==> c.replicas@[rid].group_idx < c.groups@.len()
}

/// Replica `rid`, if the cluster has it, belongs to one of its groups.
pub open spec fn group_known(c: ClusterInfo, rid: i64) -> bool {
    c.replicas@.contains_key(rid) ==> c.replicas@[rid].group_idx < c.groups@.len()
}

/// The first group from the `k`-th on whose range holds `key`.
pub open spec fn group_for_key(gs: Seq<GroupInfo>, key: Seq<char>, k: int) -> Option<int>
    decreases gs.len() - k,
{
    if k < 0 || k >= gs.len() {
        None
    } else if holds_key(gs[k], key) {
        Some(k)
    } else {
        group_for_key(gs, key, k + 1)
    }
}

/// The group found for a key is a group of the list, from the `k`-th on, whose range
/// holds the key.
pub proof fn lemma_group_for_key(gs: Seq<GroupInfo>, key: Seq<char>, k: int)
    ensures
        group_for_key(gs, key, k) matches Some(i) ==> k <= i < gs.len() && holds_key(gs[i], key),
    decreases gs.len() - k,
{
    if 0 <= k < gs.len() && !holds_key(gs[k], key) {
        lemma_group_for_key(gs, key, k + 1);
    }
}

/// The range of a group holds `key`.
pub open spec fn holds_key(g: GroupInfo, key: Seq<char>) -> bool {
    !text_lt(key, g.range.0@) && text_lt(key, g.range.1@)
}

impl ClusterInfo {
    /// check_group checks that every group's range starts before it ends, and that each
    /// range ends no later than the next one starts.
    pub fn check_group(&self) -> (r: Result<(), ConfError>)
        ensures
            check_view(r) == group_check(self.groups@),
    {
        let gs = &self.groups;
        if gs.len() == 0 {
            return Ok(());
        }
        let mut i: usize = 0;
        while i < gs.len()
            invariant
                gs@ == self.groups@,
                i <= gs@.len(),
                first_bad_range(gs@, 0) == first_bad_range(gs@, i as int),
            decreases gs@.len() - i,
        {
            let a = &gs[i].range.0;
            let b = &gs[i].range.1;
            if !text_less(a.as_str(), b.as_str()) {
                assert(bad_range(gs@[i as int]));
                assert(first_bad_range(gs@, i as int) == Some(i as int));
                return Err(ConfError::GroupOutOfOrder(copy_string(a), copy_string(b)));
            }
            i = i + 1;
        }
        let mut i: usize = 0;
        while i < gs.len() - 1
            invariant
                gs@ == self.groups@,
                gs@.len() > 0,
                i <= gs@.len() - 1,
                first_bad_range(gs@, 0) is None,
                first_overlap(gs@, 0) == first_overlap(gs@, i as int),
            decreases gs@.len() - 1 - i,
        {
            let a = &gs[i].range.1;
            let b = &gs[i + 1].range.0;
            if text_less(b.as_str(), a.as_str()) {
                assert(overlaps(gs@[i as int], gs@[i + 1]));
                assert(first_overlap(gs@, i as int) == Some(i as int));
                return Err(ConfError::GroupOutOfOrder(copy_string(a), copy_string(b)));
            }
            i = i + 1;
        }
        Ok(())
    }

    /// get_replica returns what is known of replica `rid`.
    pub fn get_replica(&self, rid: ReplicaId) -> (r: Option<&ReplicaInfo>)
        ensures
            r == (if self.replicas@.contains_key(rid) {
                Some(&self.replicas@[rid])
            } else {
                None
            }),
    {
        broadcast use vstd::std_specs::btree::group_btree_axioms;

        proof {
            lemma_ids_ordered();
        }
        self.replicas.get(&rid)
    }

    /// get_node returns the first node with id `nid`.
    pub fn get_node(&self, nid: &str) -> (r: Option<&Node>)
        ensures
            r == (match node_index(self.nodes@, nid@, 0) {
                Some(i) => Some(&self.nodes@[i]),
                None => None,
            }),
            r is None <==> !has_node(self.nodes@, nid@),
    {
        let mut i: usize = 0;
        while i < self.nodes.len()
            invariant
                i <= self.nodes@.len(),
                node_index(self.nodes@, nid@, 0) == node_index(self.nodes@, nid@, i as int),
                forall|j: int| 0 <= j < i ==> self.nodes@[j].node_id@ != nid@,
            decreases self.nodes@.len() - i,
        {
            if same_text(self.nodes[i].node_id.as_str(), nid) {
                return Some(&self.nodes[i]);
            }
            i = i + 1;
        }
        None
    }

    /// get_replica_node returns the node replica `rid` runs on.
    pub fn get_replica_node(&self, rid: ReplicaId) -> (r: Option<&Node>)
        ensures
            r matches Some(n) ==> replica_node(*self, rid) == Some(*n),
            r is None ==> replica_node(*self, rid) is None,
    {
        broadcast use vstd::std_specs::btree::group_btree_axioms;

        proof {
            lemma_ids_ordered();
        }
        let rinfo = match self.replicas.get(&rid) {
            Some(ri) => ri,
            None => {
                return None;
            },
        };
        self.get_node(rinfo.node_id.as_str())
    }

    /// get_group_for_key returns the first group whose range holds `key`.
    pub fn get_group_for_key(&self, key: &str) -> (r: Option<&GroupInfo>)
        ensures
            r == (match group_for_key(self.groups@, key@, 0) {
                Some(i) => Some(&self.groups@[i]),
                None => None,
            }),
    {
        let mut i: usize = 0;
        while i < self.groups.len()
            invariant
                i <= self.groups@.len(),
                group_for_key(self.groups@, key@, 0) == group_for_key(self.groups@, key@, i as int),
            decreases self.groups@.len() - i,
        {
            let g = &self.groups[i];
            if !text_less(key, g.range.0.as_str()) && text_less(key, g.range.1.as_str()) {
                return Some(g);
            }
            i = i + 1;
        }
        None
    }

    /// get_group returns the group replica `rid` belongs to.
    pub fn get_group(&self, rid: ReplicaId) -> (r: Option<&GroupInfo>)
        requires
            group_known(*self, rid),
        ensures
            r == (if self.replicas@.contains_key(rid) {
                Some(&self.groups@[self.replicas@[rid].group_idx as int])
            } else {
                None
            }),
    {
        broadcast use vstd::std_specs::btree::group_btree_axioms;

        proof {
            lemma_ids_ordered();
        }
        match self.replicas.get(&rid) {
            Some(ri) => Some(&self.groups[ri.group_idx]),
            None => None,
        }
    }
}

/// Replica ids follow the laws of a total order, which maps keyed by them rely on.
pub open spec fn ids_ordered() -> bool {
    vstd::laws_cmp::obeys_cmp::<i64>()
}

/// Replica ids follow the laws of a total order.
pub proof fn lemma_ids_ordered()
    ensures
        ids_ordered(),
{
    broadcast use vstd::laws_cmp::group_laws_cmp;

}

/// The keys of a map keyed by replica, in the order its iterator gives them: ascending,
/// and exactly the keys of the map.
pub proof fn lemma_replica_keys<V>(m: &BTreeMap<ReplicaId, V>)
    ensures
        ({
            let ks = vstd::std_specs::iter::IteratorSpec::remaining(&m.keys()).unref();
            &&& ks.to_set() == m@.dom()
            &&& ks.len() == m@.dom().len()
            &&& forall|i: int, j: int| 0 <= i < j < ks.len() ==> ks[i] < ks[j]
        }),
{
    broadcast use {vstd::std_specs::btree::group_btree_axioms, vstd::laws_cmp::group_laws_cmp};

    let rs = vstd::std_specs::iter::IteratorSpec::remaining(&m.keys());
    let ks = rs.unref();
    assert(vstd::laws_cmp::obeys_cmp::<i64>());
    assert(vstd::laws_cmp::obeys_cmp::<&i64>());
    assert(vstd::std_specs::btree::increasing_seq(rs));
    vstd::std_specs::btree::axiom_increasing_seq_meaning(rs);
    assert(rs.len() == ks.len());
    assert forall|i: int, j: int| 0 <= i < j < ks.len() implies ks[i] < ks[j] by {
        assert(0 <= i < j < rs.len());
        assert((&rs[i]).cmp_spec(&rs[j]) is Less);
        assert(ks[i] == *rs[i]);
        assert(ks[j] == *rs[j]);
    }
}

/// The replica ids of a set, lowest first.
pub open spec fn ascending_of(s: Set<i64>) -> Seq<i64> {
    choose|q: Seq<i64>| ascending(q) && q.to_set() == s
}

/// ascending_keys returns the keys of `m`, lowest first.
pub fn ascending_keys<V>(m: &BTreeMap<ReplicaId, V>) -> (r: Vec<ReplicaId>)
    ensures
        r@ == ascending_of(m@.dom()),
        r@.to_set() == m@.dom(),
        r@.len() == m@.dom().len(),
        forall|i: int, j: int| 0 <= i < j < r@.len() ==> r@[i] < r@[j],
{
    broadcast use vstd::std_specs::btree::group_btree_axioms;

    proof {
        lemma_replica_keys(m);
    }
    let ghost ks: Seq<i64> = vstd::std_specs::iter::IteratorSpec::remaining(&m.keys()).unref();
    let mut r: Vec<ReplicaId> = Vec::new();
    let ghost mut n: int = 0;
    for k in it: m.keys()
        invariant
            n == it.index(),
            it.seq().unref() == ks,
            ks.len() == it.seq().len(),
            r@ == ks.take(n),
        {
        assert(ks[n] == *k);
        assert(ks.take(n + 1) =~= ks.take(n).push(*k));
        r.push(*k);
        proof {
            n = n + 1;
        }
    }
    assert(ks.take(n) =~= ks);
    proof {
        assert(ascending(r@));
        lemma_ascending_unique(r@, ascending_of(m@.dom()));
    }
    r
}

/// The lowest of the keys in `keys` that `prev` holds is `r`.
pub open spec fn lowest_in(keys: Set<i64>, prev: Map<i64, (usize, Seq<char>)>, r: i64) -> bool {
    &&& keys.contains(r)
    &&& prev.contains_key(r)
    &&& forall|q: i64| #![trigger prev.contains_key(q)] keys.contains(q) && prev.contains_key(q) ==> r <= q
}

/// `prev` with the replicas `ks` of group `g`, the `gi`-th, added.
pub open spec fn add_keys(prev: Map<i64, (usize, Seq<char>)>, ks: Seq<i64>, g: GroupInfo, gi: usize) -> Map<i64, (usize, Seq<char>)>
    decreases ks.len(),
{
    if ks.len() == 0 {
        prev
    } else {
        add_keys(prev, ks.drop_last(), g, gi).insert(ks.last(), (gi, g.replicas@[ks.last()]@))
    }
}

/// Adding replicas adds exactly them, each with its group and node.
pub proof fn lemma_add_keys(prev: Map<i64, (usize, Seq<char>)>, ks: Seq<i64>, g: GroupInfo, gi: usize)
    ensures
        forall|x: i64| #[trigger] add_keys(prev, ks, g, gi).contains_key(x) <==> prev.contains_key(x) || ks.contains(x),
        forall|x: i64| #[trigger] add_keys(prev, ks, g, gi).contains_key(x) ==> add_keys(prev, ks, g, gi)[x] == (if ks.contains(x) {
            (gi, g.replicas@[x]@)
        } else {
            prev[x]
        }),
    decreases ks.len(),
{
    if ks.len() > 0 {
        let inner = add_keys(prev, ks.drop_last(), g, gi);
        lemma_add_keys(prev, ks.drop_last(), g, gi);
        assert forall|x: i64| #[trigger] add_keys(prev, ks, g, gi).contains_key(x) <==> inner.contains_key(x) || x == ks.last() by {
            assert(inner.contains_key(x) <==> prev.contains_key(x) || ks.drop_last().contains(x));
        }
        assert forall|x: i64| ks.contains(x) <==> (ks.drop_last().contains(x) || x == ks.last()) by {
            if ks.contains(x) {
                let j = choose|j: int| 0 <= j < ks.len() && ks[j] == x;
                if j < ks.len() - 1 {
                    assert(ks.drop_last()[j] == x);
                }
            }
            if ks.drop_last().contains(x) {
                let j = choose|j: int| 0 <= j < ks.drop_last().len() && ks.drop_last()[j] == x;
                assert(ks[j] == x);
            }
            if x == ks.last() {
                assert(ks[ks.len() - 1] == x);
            }
        }
    }
}

/// In ascending `keys`, when none before the `k`-th is in `prev` and the `k`-th is, it is
/// the lowest of them in `prev`.
pub proof fn lemma_first_held(keys: Seq<i64>, prev: Map<i64, (usize, Seq<char>)>, k: int)
    requires
        0 <= k < keys.len(),
        forall|i: int, j: int| 0 <= i < j < keys.len() ==> keys[i] < keys[j],
        forall|j: int| 0 <= j < k ==> !prev.contains_key(#[trigger] keys[j]),
        prev.contains_key(keys[k]),
    ensures
        lowest_in(keys.to_set(), prev, keys[k]),
{
    assert(keys.to_set().contains(keys[k]));
    assert forall|q: i64| #![trigger prev.contains_key(q)] keys.to_set().contains(q) && prev.contains_key(q) implies keys[k] <= q by {
        let j = choose|j: int| 0 <= j < keys.len() && keys[j] == q;
        if j < k {
            assert(!prev.contains_key(keys[j]));
        }
    }
}

/// The lowest replica of a group that an earlier group holds is the first of its
/// ascending replicas that an earlier group holds.
pub proof fn lemma_dup_found(gs: Seq<GroupInfo>, g: int, keys: Seq<i64>, k: int)
    requires
        0 <= g < gs.len(),
        0 <= k < keys.len(),
        keys.to_set() == gs[g].replicas@.dom(),
        forall|i: int, j: int| 0 <= i < j < keys.len() ==> keys[i] < keys[j],
        forall|j: int| 0 <= j < k ==> !replicas_upto(gs, g).contains_key(#[trigger] keys[j]),
        replicas_upto(gs, g).contains_key(keys[k]),
    ensures
        dup_in(gs, g) == Some(keys[k]),
        first_dup_group(gs, g) == Some(g),
{
    let prev = replicas_upto(gs, g);
    let gkeys = gs[g].replicas@.dom();
    lemma_first_held(keys, prev, k);
    let c = choose|r: i64| gkeys.contains(r) && prev.contains_key(r) && forall|q: i64| #![trigger prev.contains_key(q)] gkeys.contains(q) && prev.contains_key(q) ==> r <= q;
    assert(lowest_in(gkeys, prev, c));
    assert(c == keys[k]);
}

impl ClusterInfo {
    /// populate_replicas fills `replicas` from the groups, refusing a replica found in
    /// two groups; the replicas of the groups before the refused one stay filled in.
    #[verifier::rlimit(60)]
    pub fn populate_replicas(&mut self) -> (r: Result<(), ConfError>)
        ensures
            final(self).nodes == old(self).nodes,
            final(self).groups == old(self).groups,
            check_view(r) == populate_outcome(old(self).groups@).0,
            replicas_view(final(self).replicas@) == populate_outcome(old(self).groups@).1,
    {
        broadcast use vstd::std_specs::btree::group_btree_axioms;

        proof {
            lemma_ids_ordered();
        }
        self.replicas = BTreeMap::new();
        let ghost gs = self.groups@;
        assert(replicas_view(self.replicas@) =~= replicas_upto(gs, 0)) by {
            reveal(replicas_upto);
        }
        let mut gidx: usize = 0;
        while gidx < self.groups.len()
            invariant
                ids_ordered(),
                self.groups@ == gs,
                self.nodes == old(self).nodes,
                self.groups == old(self).groups,
                gidx <= gs.len(),
                replicas_view(self.replicas@) == replicas_upto(gs, gidx as int),
                first_dup_group(gs, 0) == first_dup_group(gs, gidx as int),
            decreases gs.len() - gidx,
        {
            let ghost prev = replicas_upto(gs, gidx as int);
            let keys = ascending_keys(&self.groups[gidx].replicas);
            let ghost gkeys = gs[gidx as int].replicas@.dom();
            let mut k: usize = 0;
            while k < keys.len()
                invariant
                    ids_ordered(),
                    self.groups@ == gs,
                    self.nodes == old(self).nodes,
                    self.groups == old(self).groups,
                    gidx < gs.len(),
                    prev == replicas_upto(gs, gidx as int),
                    gkeys == gs[gidx as int].replicas@.dom(),
                    replicas_view(self.replicas@) == prev,
                    keys@.to_set() == gkeys,
                    forall|i: int, j: int| 0 <= i < j < keys@.len() ==> keys@[i] < keys@[j],
                    k <= keys@.len(),
                    forall|j: int| 0 <= j < k ==> !prev.contains_key(#[trigger] keys@[j]),
                    first_dup_group(gs, 0) == first_dup_group(gs, gidx as int),
                decreases keys@.len() - k,
            {
                let rid = keys[k];
                if self.replicas.contains_key(&rid) {
                    proof {
                        lemma_dup_found(gs, gidx as int, keys@, k as int);
                    }
                    return Err(ConfError::DupReplica(rid));
                }
                k = k + 1;
            }
            proof {
                assert forall|q: i64| gkeys.contains(q) implies !prev.contains_key(q) by {
                    let j = choose|j: int| 0 <= j < keys@.len() && keys@[j] == q;
                    assert(!prev.contains_key(keys@[j]));
                }
                assert(dup_in(gs, gidx as int) is None);
            }
            let mut k: usize = 0;
            while k < keys.len()
                invariant
                    ids_ordered(),
                    self.groups@ == gs,
                    self.nodes == old(self).nodes,
                    self.groups == old(self).groups,
                    gidx < gs.len(),
                    prev == replicas_upto(gs, gidx as int),
                    gkeys == gs[gidx as int].replicas@.dom(),
                    keys@.to_set() == gkeys,
                    k <= keys@.len(),
                    replicas_view(self.replicas@) == add_keys(prev, keys@.take(k as int), gs[gidx as int], gidx),
                    first_dup_group(gs, 0) == first_dup_group(gs, gidx as int),
                    dup_in(gs, gidx as int) is None,
                decreases keys@.len() - k,
            {
                let rid = keys[k];
                assert(keys@.to_set().contains(rid));
                let nid = self.groups[gidx].replicas.get(&rid).unwrap();
                let info = ReplicaInfo { group_idx: gidx, node_id: copy_string(nid) };
                self.replicas.insert(rid, info);
                assert(keys@.take(k + 1).drop_last() =~= keys@.take(k as int));
                assert(replicas_view(self.replicas@) =~= add_keys(prev, keys@.take(k + 1), gs[gidx as int], gidx));
                k = k + 1;
            }
            proof {
                assert(keys@.take(k as int) =~= keys@);
                lemma_add_keys(prev, keys@, gs[gidx as int], gidx);
                assert forall|x: i64| keys@.contains(x) <==> gkeys.contains(x) by {}
                assert(replicas_view(self.replicas@) =~= replicas_upto(gs, gidx + 1)) by {
                    reveal(replicas_upto);
                }
            }
            gidx = gidx + 1;
        }
        Ok(())
    }
}

/// A replica whose node is not in the cluster.
pub open spec fn orphan(nodes: Seq<Node>, reps: Map<i64, (usize, Seq<char>)>, r: i64) -> bool {
    reps.contains_key(r) && !has_node(nodes, reps[r].1)
}

/// What `check_replicas` returns: the lowest replica on a node that is not in the
/// cluster, with that node, or success.
pub open spec fn replicas_check(nodes: Seq<Node>, reps: Map<i64, (usize, Seq<char>)>) -> Result<(), ConfErrorView> {
    match first_orphan(nodes, reps) {
        Some(r) => Err(ConfErrorView::OrphanReplica(r, reps[r].1)),
        None => Ok(()),
    }
}

/// In the ascending replicas, when none before the `k`-th is an orphan and the `k`-th
/// is, it is the lowest orphan.
pub proof fn lemma_first_orphan(nodes: Seq<Node>, reps: Map<i64, (usize, Seq<char>)>, keys: Seq<i64>, k: int)
    requires
        0 <= k < keys.len(),
        keys.to_set() == reps.dom(),
        forall|i: int, j: int| 0 <= i < j < keys.len() ==> keys[i] < keys[j],
        forall|j: int| 0 <= j < k ==> !orphan(nodes, reps, #[trigger] keys[j]),
        orphan(nodes, reps, keys[k]),
    ensures
        first_orphan(nodes, reps) == Some(keys[k]),
{
    let r = keys[k];
    assert(keys.to_set().contains(r));
    assert forall|q: i64| #[trigger] reps.contains_key(q) && !has_node(nodes, reps[q].1) implies r <= q by {
        assert(keys.to_set().contains(q));
        let j = choose|j: int| 0 <= j < keys.len() && keys[j] == q;
        if j < k {
            assert(!orphan(nodes, reps, keys[j]));
        }
    }
    let c = choose|c: i64| reps.contains_key(c) && !has_node(nodes, reps[c].1) && forall|q: i64| #[trigger] reps.contains_key(q) && !has_node(nodes, reps[q].1) ==> c <= q;
    assert(c <= r);
    assert(r <= c);
}

impl ClusterInfo {
    /// check_replicas checks that every replica runs on a node of the cluster.
    pub fn check_replicas(&self) -> (r: Result<(), ConfError>)
        ensures
            check_view(r) == replicas_check(self.nodes@, replicas_view(self.replicas@)),
    {
        broadcast use vstd::std_specs::btree::group_btree_axioms;

        proof {
            lemma_ids_ordered();
        }
        let ghost reps = replicas_view(self.replicas@);
        let keys = ascending_keys(&self.replicas);
        let mut k: usize = 0;
        while k < keys.len()
            invariant
                ids_ordered(),
                reps == replicas_view(self.replicas@),
                keys@.to_set() == reps.dom(),
                forall|i: int, j: int| 0 <= i < j < keys@.len() ==> keys@[i] < keys@[j],
                k <= keys@.len(),
                forall|j: int| 0 <= j < k ==> !orphan(self.nodes@, reps, #[trigger] keys@[j]),
            decreases keys@.len() - k,
        {
            let rid = keys[k];
            assert(keys@.to_set().contains(rid));
            let ri = self.replicas.get(&rid).unwrap();
            if self.get_node(ri.node_id.as_str()).is_none() {
                proof {
                    lemma_first_orphan(self.nodes@, reps, keys@, k as int);
                }
                return Err(ConfError::OrphanReplica(rid, copy_string(&ri.node_id)));
            }
            k = k + 1;
        }
        proof {
            if first_orphan(self.nodes@, reps) is Some {
                let c = first_orphan(self.nodes@, reps)->0;
                assert(orphan(self.nodes@, reps, c));
                assert(keys@.to_set().contains(c));
                let j = choose|j: int| 0 <= j < keys@.len() && keys@[j] == c;
                assert(!orphan(self.nodes@, reps, keys@[j]));
            }
        }
        Ok(())
    }
}

/// What `validate` returns for a cluster of `nodes` and `groups`: the first failing of
/// the range check, the replica fill and the node check.
pub open spec fn validate_outcome(nodes: Seq<Node>, gs: Seq<GroupInfo>) -> Result<(), ConfErrorView> {
    match group_check(gs) {
        Err(e) => Err(e),
        Ok(_) => match populate_outcome(gs).0 {
            Err(e) => Err(e),
            Ok(_) => replicas_check(nodes, populate_outcome(gs).1),
        },
    }
}

impl ClusterInfo {
    /// validate checks the ranges of the groups, fills `replicas` from the groups, and
    /// checks that every replica runs on a node of the cluster, stopping at the first
    /// failure.
    pub fn validate(&mut self) -> (r: Result<(), ConfError>)
        ensures
            final(self).nodes == old(self).nodes,
            final(self).groups == old(self).groups,
            check_view(r) == validate_outcome(old(self).nodes@, old(self).groups@),
            group_check(old(self).groups@) is Ok ==> replicas_view(final(self).replicas@) == populate_outcome(old(self).groups@).1,
            r is Ok ==> replicas_in_groups(*final(self)),
    {
        match self.check_group() {
            Err(e) => {
                return Err(e);
            },
            Ok(_) => {},
        }
        match self.populate_replicas() {
            Err(e) => {
                return Err(e);
            },
            Ok(_) => {},
        }
        let n_groups = self.groups.len();
        proof {
            lemma_replicas_in_groups(self.groups@, n_groups as int);
            assert forall|rid: i64| #[trigger] self.replicas@.contains_key(rid) implies self.replicas@[rid].group_idx < self.groups@.len() by {
                assert(replicas_view(self.replicas@).contains_key(rid));
                assert(replicas_view(self.replicas@)[rid].0 == self.replicas@[rid].group_idx);
            }
        }
        self.check_replicas()
    }
}

/// Every replica of the first `n` groups names one of them.
pub proof fn lemma_replicas_in_groups(gs: Seq<GroupInfo>, n: int)
    requires
        0 <= n <= gs.len() <= usize::MAX,
    ensures
        forall|rid: i64| #[trigger] replicas_upto(gs, n).contains_key(rid) ==> replicas_upto(gs, n)[rid].0 < n,
    decreases n,
{
    reveal(replicas_upto);
    if n > 0 {
        lemma_replicas_in_groups(gs, n - 1);
        let prev = replicas_upto(gs, n - 1);
        assert forall|rid: i64| #[trigger] replicas_upto(gs, n).contains_key(rid) implies replicas_upto(gs, n)[rid].0 < n by {
            if gs[n - 1].replicas@.contains_key(rid) {
                assert(((n - 1) as usize) as int == n - 1);
            } else {
                assert(prev.contains_key(rid));
            }
        }
    }
}

} // verus!
