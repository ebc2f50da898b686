//! What a server holds: the cluster layout, the node it runs as, and the replicas of the
//! cluster that run on it.
use crate::conf::{
    ascending_keys, ascending_of, group_for_key, has_node, node_index, ClusterInfo,
    GroupInfo, Node, NodeId,
};
use crate::qpaxos::display::lossy_string;
use crate::qpaxos::errors::copy_string;
use crate::qpaxos::ReplicaId;
use crate::replica::replica::{first_unplaced, group_ids, Replica};
use std::collections::BTreeMap;
use vstd::prelude::*;
use vstd::utf8::{decode_utf8, valid_utf8};

verus! {

/// RangeLookupError is why no local replica serves a key: no group's range holds it,
/// or none of the replicas of that group runs here.
#[derive(Debug, PartialEq, Eq)]
pub enum RangeLookupError {
    NoGroupForKey(String),
    NoLocalReplicaForKey(String),
}

/// ServerData is what a server holds.
pub struct ServerData {
    pub cluster: ClusterInfo,
    pub node_id: NodeId,
    pub node: Node,
    pub local_replicas: BTreeMap<ReplicaId, Replica>,
}

/// Every replica that runs on node `nid` can be set up: it belongs to one of the groups,
/// and the cluster knows the node of every replica of that group.
pub open spec fn local_replicas_ready(c: ClusterInfo, nid: Seq<char>) -> bool {
    forall|rid: i64| #[trigger] c.replicas@.contains_key(rid) && c.replicas@[rid].node_id@ == nid
        ==> c.replicas@[rid].group_idx < c.groups@.len() && first_unplaced(c, group_ids(c, rid), 0) is None
}

/// The local replica of the first of `ks`, from the `k`-th on, that runs here.
pub open spec fn first_local(local: Map<i64, Replica>, ks: Seq<i64>, k: int) -> Option<i64>
    decreases ks.len() - k,
{
    if k < 0 || k >= ks.len() {
        None
    } else if local.contains_key(ks[k]) {
        Some(ks[k])
    } else {
        first_local(local, ks, k + 1)
    }
}

/// What a node holds, as plain values.
pub open spec fn node_view(n: Node) -> (Seq<char>, Seq<char>, Option<Seq<char>>, Seq<char>) {
    (
        n.node_id@,
        n.api_addr@,
        match n.api_uaddr {
            Some(u) => Some(u@),
            None => None,
        },
        n.replication@,
    )
}

/// copy_node returns a node with the same id and addresses.
fn copy_node(n: &Node) -> (r: Node)
    ensures
        node_view(r) == node_view(*n),
{
    Node {
        node_id: copy_string(&n.node_id),
        api_addr: copy_string(&n.api_addr),
        api_uaddr: match &n.api_uaddr {
            Some(u) => Some(copy_string(u)),
            None => None,
        },
        replication: copy_string(&n.replication),
    }
}

impl ServerData {
    /// new sets up the server that runs as node `node_id` of `cluster`, with every
    /// replica of the cluster on that node. The node must be in the cluster, and each of
    /// its replicas must be one that can be set up.
    pub fn new(cluster: ClusterInfo, node_id: NodeId) -> (sd: ServerData)
        requires
            has_node(cluster.nodes@, node_id@),
            local_replicas_ready(cluster, node_id@),
        ensures
            sd.cluster == cluster,
            sd.node_id@ == node_id@,
            node_index(cluster.nodes@, node_id@, 0) matches Some(i) && node_view(sd.node) == node_view(cluster.nodes@[i]),
            sd.local_replicas@.dom() == cluster.replicas@.dom().filter(|rid: i64| cluster.replicas@[rid].node_id@ == node_id@),
            forall|rid: i64| #[trigger] sd.local_replicas@.contains_key(rid) ==> sd.local_replicas@[rid].replica_id == rid
                && sd.local_replicas@[rid].group_replica_ids@ == group_ids(cluster, rid),
    {
        broadcast use vstd::std_specs::btree::group_btree_axioms;

        proof {
            crate::conf::lemma_ids_ordered();
        }
        let n = copy_node(cluster.get_node(node_id.as_str()).unwrap());
        let keys = ascending_keys(&cluster.replicas);
        let ghost want = cluster.replicas@.dom().filter(|rid: i64| cluster.replicas@[rid].node_id@ == node_id@);
        let mut rs: BTreeMap<ReplicaId, Replica> = BTreeMap::new();
        let mut k: usize = 0;
        while k < keys.len()
            invariant
                crate::conf::ids_ordered(),
                local_replicas_ready(cluster, node_id@),
                keys@.to_set() == cluster.replicas@.dom(),
                keys@.no_duplicates(),
                k <= keys@.len(),
                want == cluster.replicas@.dom().filter(|rid: i64| cluster.replicas@[rid].node_id@ == node_id@),
                rs@.dom() == keys@.take(k as int).to_set().filter(|rid: i64| cluster.replicas@[rid].node_id@ == node_id@),
                forall|rid: i64| #[trigger] rs@.contains_key(rid) ==> rs@[rid].replica_id == rid
                    && rs@[rid].group_replica_ids@ == group_ids(cluster, rid),
            decreases keys@.len() - k,
        {
            let rid = keys[k];
            assert(keys@.to_set().contains(rid));
            let rinfo = cluster.replicas.get(&rid).unwrap();
            let ghost before = rs@;
            if crate::conf::same_text(rinfo.node_id.as_str(), node_id.as_str()) {
                let rp = Replica::new(rid, &cluster).unwrap();
                rs.insert(rid, rp);
            }
            proof {
                keys@.take(k as int).lemma_push_to_set_commute(rid);
                assert(keys@.take(k + 1) =~= keys@.take(k as int).push(rid));
                assert(rs@.dom() =~= keys@.take(k + 1).to_set().filter(|r: i64| cluster.replicas@[r].node_id@ == node_id@));
            }
            k = k + 1;
        }
        assert(keys@.take(k as int) =~= keys@);
        assert(rs@.dom() =~= want);
        ServerData { cluster, node_id, node: n, local_replicas: rs }
    }

    /// get_local_replica_for_key returns the group whose range holds `key`, which must be
    /// valid UTF-8, and the first of its replicas, lowest first, that runs here.
    pub fn get_local_replica_for_key(&self, key: &[u8]) -> (r: Result<(&GroupInfo, &Replica), RangeLookupError>)
        requires
            valid_utf8(key@),
        ensures
            match group_for_key(self.cluster.groups@, decode_utf8(key@), 0) {
                None => r matches Err(RangeLookupError::NoGroupForKey(k)) && k@ == decode_utf8(key@),
                Some(i) => match first_local(self.local_replicas@, ascending_of(self.cluster.groups@[i].replicas@.dom()), 0) {
                    None => r matches Err(RangeLookupError::NoLocalReplicaForKey(k)) && k@ == decode_utf8(key@),
                    Some(rid) => r matches Ok((g, rp)) && *g == self.cluster.groups@[i] && *rp == self.local_replicas@[rid],
                },
            },
    {
        broadcast use vstd::std_specs::btree::group_btree_axioms;

        proof {
            crate::conf::lemma_ids_ordered();
        }
        let k = lossy_string(key);
        let g = match self.cluster.get_group_for_key(k.as_str()) {
            Some(g) => g,
            None => {
                return Err(RangeLookupError::NoGroupForKey(k));
            },
        };
        let ghost gi = group_for_key(self.cluster.groups@, k@, 0)->0;
        proof {
            crate::conf::lemma_group_for_key(self.cluster.groups@, k@, 0);
        }
        let keys = ascending_keys(&g.replicas);
        let mut j: usize = 0;
        while j < keys.len()
            invariant
                crate::conf::ids_ordered(),
                j <= keys@.len(),
                k@ == decode_utf8(key@),
                group_for_key(self.cluster.groups@, k@, 0) == Some(gi),
                0 <= gi < self.cluster.groups@.len(),
                *g == self.cluster.groups@[gi],
                keys@ == ascending_of(self.cluster.groups@[gi].replicas@.dom()),
                first_local(self.local_replicas@, keys@, 0) == first_local(self.local_replicas@, keys@, j as int),
            decreases keys@.len() - j,
        {
            match self.local_replicas.get(&keys[j]) {
                Some(v) => {
                    return Ok((g, v));
                },
                None => {},
            }
            j = j + 1;
        }
        Err(RangeLookupError::NoLocalReplicaForKey(k))
    }
}

} // verus!
