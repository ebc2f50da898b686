use epaxos::conf::{ClusterInfo, GroupInfo, Node};
use epaxos::serverdata::{RangeLookupError, ServerData};
use std::collections::BTreeMap;

fn node(nid: &str) -> Node {
    Node { node_id: nid.to_string(), api_addr: "127.0.0.1:3331".to_string(), api_uaddr: None, replication: nid.to_string() }
}

fn group(a: &str, b: &str, reps: &[(i64, &str)]) -> GroupInfo {
    let mut m = BTreeMap::new();
    for (r, n) in reps {
        m.insert(*r, n.to_string());
    }
    GroupInfo { range: (a.to_string(), b.to_string()), replicas: m }
}

fn cluster() -> ClusterInfo {
    let mut ci = ClusterInfo {
        nodes: vec![node("127.0.0.1:4441"), node("127.0.0.1:4442")],
        groups: vec![
            group("a", "m", &[(1, "127.0.0.1:4441"), (2, "127.0.0.1:4442")]),
            group("m", "z", &[(3, "127.0.0.1:4442"), (4, "127.0.0.1:4442")]),
        ],
        replicas: BTreeMap::new(),
    };
    ci.validate().unwrap();
    ci
}

#[test]
fn test_server_data_new() {
    let sd = ServerData::new(cluster(), "127.0.0.1:4441".to_string());
    assert_eq!(node("127.0.0.1:4441"), sd.node);
    assert_eq!(vec![1], sd.local_replicas.keys().cloned().collect::<Vec<_>>());
    assert_eq!(vec![1, 2], sd.local_replicas[&1].group_replica_ids);

    let sd = ServerData::new(cluster(), "127.0.0.1:4442".to_string());
    assert_eq!(vec![2, 3, 4], sd.local_replicas.keys().cloned().collect::<Vec<_>>());
}

#[test]
fn test_get_local_replica_for_key() {
    let sd = ServerData::new(cluster(), "127.0.0.1:4441".to_string());
    let (g, r) = sd.get_local_replica_for_key(b"foo").unwrap();
    assert_eq!("a", g.range.0);
    assert_eq!(1, r.replica_id);

    assert_eq!(
        Some(RangeLookupError::NoLocalReplicaForKey("x".to_string())),
        sd.get_local_replica_for_key(b"x").err()
    );
    assert_eq!(Some(RangeLookupError::NoGroupForKey("zz".to_string())), sd.get_local_replica_for_key(b"zz").err());

    let sd = ServerData::new(cluster(), "127.0.0.1:4442".to_string());
    let (_, r) = sd.get_local_replica_for_key(b"x").unwrap();
    assert_eq!(3, r.replica_id);
}
