use epaxos::conf::{text_less, ClusterInfo, ConfError, GroupInfo, Node, ReplicaInfo};
use std::collections::BTreeMap;

fn node(nid: &str, api: &str) -> Node {
    Node { node_id: nid.to_string(), api_addr: api.to_string(), api_uaddr: None, replication: nid.to_string() }
}

fn group(a: &str, b: &str, reps: &[(i64, &str)]) -> GroupInfo {
    let mut m = BTreeMap::new();
    for (r, n) in reps {
        m.insert(*r, n.to_string());
    }
    GroupInfo { range: (a.to_string(), b.to_string()), replicas: m }
}

fn cluster(groups: Vec<GroupInfo>) -> ClusterInfo {
    ClusterInfo {
        nodes: vec![node("127.0.0.1:4441", "127.0.0.1:3331"), node("192.168.0.1:4442", "192.168.0.1:3332")],
        groups,
        replicas: BTreeMap::new(),
    }
}

#[test]
fn test_layout_orphan_replica() {
    let mut ci = cluster(vec![group(
        "a",
        "b",
        &[(1, "192.168.0.1:4442"), (2, "192.168.0.1:4442"), (3, "192.168.0.1:9999")],
    )]);
    assert_eq!(Err(ConfError::OrphanReplica(3, "192.168.0.1:9999".into())), ci.validate());
}

#[test]
fn test_layout_replica() {
    let mut ci = cluster(vec![group("a", "b", &[(1, "192.168.0.1:4442"), (2, "192.168.0.1:4442")])]);
    assert_eq!(Ok(()), ci.validate());
    assert!(ci.get_replica_node(100).is_none());
    assert_eq!(ci.get_replica_node(2).unwrap(), &node("192.168.0.1:4442", "192.168.0.1:3332"));
    assert_eq!(Some(&ReplicaInfo { group_idx: 0, node_id: "192.168.0.1:4442".into() }), ci.get_replica(1));
}

#[test]
fn test_layout_dup_replica_keeps_first_groups() {
    let mut ci = cluster(vec![
        group("a", "b", &[(1, "192.168.0.1:4442"), (2, "192.168.0.1:4442")]),
        group("b", "c", &[(3, "192.168.0.1:4442"), (2, "127.0.0.1:4441"), (1, "127.0.0.1:4441")]),
    ]);
    assert_eq!(Err(ConfError::DupReplica(1)), ci.validate());
    // the replicas of the first group stay filled in
    assert_eq!(2, ci.replicas.len());
}

#[test]
fn test_layout_groups_by_key() {
    let mut ci = cluster(vec![
        group("a", "b", &[(1, "127.0.0.1:4441")]),
        group("b", "c", &[(2, "127.0.0.1:4441")]),
        group("d", "e", &[(3, "192.168.0.1:4442")]),
    ]);
    assert_eq!(Ok(()), ci.validate());

    assert_eq!("a", ci.get_group_for_key("a").unwrap().range.0);
    assert_eq!("a", ci.get_group_for_key("ab").unwrap().range.0);
    assert_eq!("b", ci.get_group_for_key("b").unwrap().range.0);
    assert!(ci.get_group_for_key("c").is_none());
    assert!(ci.get_group_for_key("cz").is_none());
    assert_eq!("d", ci.get_group_for_key("d1").unwrap().range.0);
    assert!(ci.get_group_for_key("e").is_none());
    assert!(ci.get_group_for_key("").is_none());

    assert_eq!("b", ci.get_group(2).unwrap().range.0);
    assert!(ci.get_group(9).is_none());
}

#[test]
fn test_layout_check_group() {
    let ci = cluster(vec![group("a", "b", &[]), group("a", "c", &[])]);
    assert_eq!(Err(ConfError::GroupOutOfOrder("b".into(), "a".into())), ci.check_group());

    let ci = cluster(vec![group("b", "a", &[])]);
    assert_eq!(Err(ConfError::GroupOutOfOrder("b".into(), "a".into())), ci.check_group());

    let ci = cluster(vec![group("a", "a", &[])]);
    assert_eq!(Err(ConfError::GroupOutOfOrder("a".into(), "a".into())), ci.check_group());

    let ci = cluster(vec![]);
    assert_eq!(Ok(()), ci.check_group());
}

#[test]
fn test_text_order_is_byte_order() {
    assert!(text_less("a", "b"));
    assert!(text_less("a", "ab"));
    assert!(!text_less("ab", "a"));
    assert!(!text_less("a", "a"));
    assert!(text_less("", "a"));
    assert!(text_less("Z", "a"));
    assert!(text_less("é", "ê"));
    assert_eq!("z" < "é", text_less("z", "é"));
}

fn cluster_of(nodes: Vec<Node>, groups: Vec<GroupInfo>) -> ClusterInfo {
    ClusterInfo { nodes, groups, replicas: BTreeMap::new() }
}

// The layouts below are written as values, each node named by its key, as loading a
// layout file names it.

#[test]
fn test_conf_orphan_replica() {
    let mut ci = cluster(vec![group(
        "a",
        "b",
        &[(1, "192.168.0.1:4442"), (2, "192.168.0.1:4442"), (3, "192.168.0.1:9999")],
    )]);
    let rst = ci.validate();
    assert_eq!(rst.err().unwrap(), ConfError::OrphanReplica(3, "192.168.0.1:9999".into()));
}

#[test]
fn test_conf_replica() {
    let mut ci = cluster(vec![group("a", "b", &[(1, "192.168.0.1:4442"), (2, "192.168.0.1:4442")])]);
    ci.validate().unwrap();
    assert!(ci.get_replica_node(100).is_none());
    assert_eq!(
        ci.get_replica_node(2).unwrap(),
        &Node {
            node_id: "192.168.0.1:4442".into(),
            api_addr: "192.168.0.1:3332".into(),
            api_uaddr: None,
            replication: "192.168.0.1:4442".into(),
        }
    );
}

#[test]
fn test_conf_dup_replica() {
    let mut ci = cluster(vec![
        group("a", "b", &[(1, "192.168.0.1:4442"), (2, "192.168.0.1:4442")]),
        group("b", "c", &[(1, "127.0.0.1:4441")]),
    ]);
    let r = ci.validate();
    assert_eq!(ConfError::DupReplica(1), r.err().unwrap());
}

#[test]
fn test_conf_groups() {
    let mut ci = cluster(vec![
        group("a", "b", &[(1, "192.168.0.1:4442"), (2, "192.168.0.1:4442")]),
        group("b", "c", &[(3, "127.0.0.1:4441")]),
        group("f", "g", &[(4, "192.168.0.1:4442")]),
    ]);
    ci.validate().unwrap();
    assert_eq!(ci.get_replica(1), Some(&ReplicaInfo { group_idx: 0, node_id: "192.168.0.1:4442".into() }));
    assert_eq!(ci.get_replica(2), Some(&ReplicaInfo { group_idx: 0, node_id: "192.168.0.1:4442".into() }));
    assert_eq!(ci.get_replica(3), Some(&ReplicaInfo { group_idx: 1, node_id: "127.0.0.1:4441".into() }));
    assert_eq!(ci.get_replica(4), Some(&ReplicaInfo { group_idx: 2, node_id: "192.168.0.1:4442".into() }));
}

#[test]
fn test_conf_groups_out_of_order() {
    let mut ci = cluster(vec![
        group("a", "d", &[(1, "192.168.0.1:4442")]),
        group("b", "c", &[(2, "127.0.0.1:4441")]),
    ]);
    let r = ci.validate();
    assert_eq!(ConfError::GroupOutOfOrder("d".into(), "b".into()), r.err().unwrap());
}

#[test]
fn test_conf_groups_range_start_gt_end() {
    let mut ci = cluster_of(
        vec![node("127.0.0.1:4441", "127.0.0.1:3331")],
        vec![group("b", "a", &[(1, "127.0.0.1:4441")])],
    );
    let r = ci.validate();
    assert_eq!(ConfError::GroupOutOfOrder("b".into(), "a".into()), r.err().unwrap());
}

#[test]
fn test_conf_groups_get_by_key_range() {
    let mut ci = cluster(vec![
        group("a", "d", &[(1, "192.168.0.1:4442")]),
        group("g", "h", &[(2, "127.0.0.1:4441")]),
    ]);
    ci.validate().unwrap();

    let g = ci.get_group_for_key("a");
    assert_eq!(&ci.groups[0], g.unwrap());

    let g = ci.get_group_for_key("d".into());
    assert!(g.is_none());

    let g = ci.get_group_for_key("g");
    assert_eq!(&ci.groups[1], g.unwrap());

    let g = ci.get_group_for_key("h");
    assert!(g.is_none());
}
