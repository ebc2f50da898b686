//! Replies collected while an instance is replicated, and the dependencies a leader may
//! commit on the fast path or propose on the slow path.
use crate::qpaxos::ids::{Dep, ReplicaId};
use crate::qpaxos::instance::Instance;
use crate::qpaxos::quorums::{fast_quorum, quorum, spec_fast_quorum, spec_quorum};
use std::collections::{HashMap, HashSet};
use vstd::prelude::*;
use vstd::relations::{sorted_by, total_ordering};

verus! {

broadcast use vstd::std_specs::hash::group_hash_axioms;

/// RepliedDep is a dependency on an instance of some replica, as one replica replied it.
#[derive(Clone, Copy, Debug, Default, PartialEq, Eq, Structural, PartialOrd, Ord, Hash)]
pub struct RepliedDep {
    pub idx: i64,
    pub seq: i64,
    pub committed: bool,
}

/// Replied dependencies in their derived order: by index, then sequence number, then
/// uncommitted before committed.
pub open spec fn rdep_le(a: RepliedDep, b: RepliedDep) -> bool {
    a.idx < b.idx || (a.idx == b.idx && (a.seq < b.seq || (a.seq == b.seq && (!a.committed
        || b.committed))))
}

/// The order of replied dependencies, as a relation.
pub open spec fn rdep_order() -> spec_fn(RepliedDep, RepliedDep) -> bool {
    |a: RepliedDep, b: RepliedDep| rdep_le(a, b)
}

/// The order of replied dependencies is total.
pub proof fn lemma_rdep_order_total()
    ensures
        total_ordering(rdep_order()),
{
    let leq = rdep_order();
    assert forall|a: RepliedDep, b: RepliedDep| #[trigger] leq(a, b) && #[trigger] leq(b, a) implies a
        == b by {}
}

/// rdep_leq tells whether `a` comes no later than `b`.
pub fn rdep_leq(a: &RepliedDep, b: &RepliedDep) -> (r: bool)
    ensures
        r == rdep_le(*a, *b),
{
    a.idx < b.idx || (a.idx == b.idx && (a.seq < b.seq || (a.seq == b.seq && (!a.committed
        || b.committed))))
}

/// sort_rdeps sorts replied dependencies in their order.
pub fn sort_rdeps(v: &mut Vec<RepliedDep>)
    ensures
        final(v)@ == old(v)@.sort_by(rdep_order()),
{
    broadcast use vstd::seq_lib::group_to_multiset_ensures;

    let leq = Ghost(rdep_order());
    proof {
        lemma_rdep_order_total();
    }
    let mut r: Vec<RepliedDep> = Vec::with_capacity(v.len());
    let mut i: usize = 0;
    assert(v@.take(0) =~= Seq::<RepliedDep>::empty());
    while i < v.len()
        invariant
            i <= v@.len(),
            leq@ == rdep_order(),
            total_ordering(leq@),
            sorted_by(r@, leq@),
            r@.to_multiset() == v@.take(i as int).to_multiset(),
        decreases v@.len() - i,
    {
        let x = v[i];
        let mut pos: usize = 0;
        while pos < r.len() && rdep_leq(&r[pos], &x)
            invariant
                pos <= r@.len(),
                forall|k: int| 0 <= k < pos ==> rdep_le(#[trigger] r@[k], x),
            decreases r@.len() - pos,
        {
            pos = pos + 1;
        }
        let ghost r0 = r@;
        r.insert(pos, x);
        proof {
            assert(r@ == r0.insert(pos as int, x));
            assert forall|a: int, b: int| 0 <= a < b < r@.len() implies #[trigger] leq@(
                r@[a],
                r@[b],
            ) by {
                if b < pos {
                    assert(r@[a] == r0[a] && r@[b] == r0[b]);
                    assert(leq@(r0[a], r0[b]));
                } else if b == pos {
                    assert(r@[a] == r0[a]);
                } else if a == pos {
                    assert(r@[b] == r0[b - 1]);
                    assert(!rdep_le(r0[pos as int], x));
                    if b - 1 > pos {
                        assert(leq@(r0[pos as int], r0[b - 1]));
                    }
                } else if a < pos {
                    assert(r@[a] == r0[a] && r@[b] == r0[b - 1]);
                    assert(leq@(r0[a], r0[b - 1]));
                } else {
                    assert(r@[a] == r0[a - 1] && r@[b] == r0[b - 1]);
                    assert(leq@(r0[a - 1], r0[b - 1]));
                }
            }
            assert(v@.take(i + 1) =~= v@.take(i as int).push(x));
            vstd::seq_lib::to_multiset_insert(r0, pos as int, x);
            vstd::seq_lib::to_multiset_build(v@.take(i as int), x);
        }
        i = i + 1;
    }
    proof {
        assert(v@.take(i as int) =~= v@);
        v@.lemma_sort_by_ensures(leq@);
        vstd::seq_lib::lemma_sorted_unique(r@, v@.sort_by(leq@), leq@);
    }
    *v = r;
}

/// A sequence sorted in the order of replied dependencies.
pub open spec fn rdeps_sorted(s: Seq<RepliedDep>) -> bool {
    sorted_by(s, rdep_order())
}

/// `s[i]` and `s[j]` witness a fast commit for a fast quorum `fq`: they are `fq - 1` or
/// more apart, agree on index and sequence number, and either `s[i]` is the first reply
/// or `s[j]` reports the dependency committed.
pub open spec fn fast_witness(s: Seq<RepliedDep>, fq: int, i: int, j: int) -> bool {
    &&& 0 <= i
    &&& i + fq - 1 <= j < s.len()
    &&& s[i].idx == s[j].idx
    &&& s[i].seq == s[j].seq
    &&& (i == 0 || s[j].committed)
}

/// Some `j` witnesses a fast commit together with `i`.
pub open spec fn fast_witnessed(s: Seq<RepliedDep>, fq: int, i: int) -> bool {
    exists|j: int| fast_witness(s, fq, i, j)
}

/// The dependency on replica `rid` that reply `s[i]` names.
pub open spec fn dep_at(rid: ReplicaId, s: Seq<RepliedDep>, i: int) -> Dep {
    Dep { replica_id: rid, idx: s[i].idx, seq: s[i].seq }
}

/// `i` is the first position that witnesses a fast commit.
pub open spec fn first_witness(s: Seq<RepliedDep>, fq: int, i: int) -> bool {
    fast_witnessed(s, fq, i) && forall|k: int| 0 <= k < i ==> !fast_witnessed(s, fq, k)
}

/// What `get_fast_commit_dep` returns: the dependency at the first position that
/// witnesses a fast commit, if any.
pub open spec fn spec_fast_commit_dep(rid: ReplicaId, s: Seq<RepliedDep>, fq: int) -> Option<Dep> {
    if exists|i: int| #[trigger] fast_witnessed(s, fq, i) {
        let i = choose|i: int| #[trigger] first_witness(s, fq, i);
        Some(dep_at(rid, s, i))
    } else {
        None
    }
}

/// get_fast_commit_dep finds the dependency on replica `rid` a leader may commit on the
/// fast path: at least `fast_quorum` of the sorted replies `rdeps` agree on it, and it is
/// the initial dependency or is reported committed. It returns None when there is none.
pub fn get_fast_commit_dep(rid: ReplicaId, rdeps: &Vec<RepliedDep>, fast_quorum: i32) -> (r:
    Option<Dep>)
    requires
        rdeps@.len() > 0,
        fast_quorum > 0,
        rdeps_sorted(rdeps@),
    ensures
        r == spec_fast_commit_dep(rid, rdeps@, fast_quorum as int),
{
    let fq = fast_quorum as usize;
    let n = rdeps.len();
    let ghost s = rdeps@;
    let ghost q = fast_quorum as int;
    if n < fq {
        assert forall|i: int| !#[trigger] fast_witnessed(s, q, i) by {
            if fast_witnessed(s, q, i) {
                let j = choose|j: int| fast_witness(s, q, i, j);
            }
        }
        proof {
            lemma_fast_commit_dep_spec(rid, s, q, None);
        }
        return None;
    }
    let mut i: usize = 0;
    while i <= n - fq
        invariant
            n == s.len(),
            s == rdeps@,
            q == fq,
            q == fast_quorum as int,
            1 <= fq <= n,
            i <= n - fq + 1,
            forall|k: int| 0 <= k < i ==> !#[trigger] fast_witnessed(s, q, k),
        decreases n - fq + 1 - i,
    {
        let left = rdeps[i];
        let mut j: usize = i + fq - 1;
        while j < n
            invariant
                n == s.len(),
                s == rdeps@,
                q == fq,
                q == fast_quorum as int,
                1 <= fq <= n,
                i <= n - fq,
                i + fq - 1 <= j <= n,
                left == s[i as int],
                forall|k: int| 0 <= k < i ==> !#[trigger] fast_witnessed(s, q, k),
                forall|m: int| i + fq - 1 <= m < j ==> !fast_witness(s, q, i as int, m),
            decreases n - j,
        {
            let right = rdeps[j];
            if left.idx == right.idx && left.seq == right.seq && (i == 0 || right.committed) {
                assert(fast_witness(s, q, i as int, j as int));
                assert(fast_witnessed(s, q, i as int));
                assert(first_witness(s, q, i as int));
                proof {
                    lemma_fast_commit_dep_spec(rid, s, q, Some(dep_at(rid, s, i as int)));
                }
                return Some(Dep { replica_id: rid, idx: left.idx, seq: left.seq });
            }
            j = j + 1;
        }
        assert(!fast_witnessed(s, q, i as int)) by {
            if fast_witnessed(s, q, i as int) {
                let m = choose|m: int| fast_witness(s, q, i as int, m);
                assert(!fast_witness(s, q, i as int, m));
            }
        }
        i = i + 1;
    }
    assert forall|k: int| !#[trigger] fast_witnessed(s, q, k) by {
        if fast_witnessed(s, q, k) {
            let m = choose|m: int| fast_witness(s, q, k, m);
            assert(k < i);
        }
    }
    proof {
        lemma_fast_commit_dep_spec(rid, s, q, None);
    }
    None
}

/// get_accept_dep returns the dependency on replica `rid` a leader proposes on the slow
/// path once a quorum replied: the `quorum`-th lowest of the sorted replies `rdeps`. It
/// returns None with fewer replies than a quorum.
pub fn get_accept_dep(rid: ReplicaId, rdeps: &Vec<RepliedDep>, quorum: i32) -> (r: Option<Dep>)
    requires
        rdeps@.len() > 0,
        quorum > 0,
        rdeps_sorted(rdeps@),
    ensures
        rdeps@.len() < quorum ==> r is None,
        rdeps@.len() >= quorum ==> r == Some(dep_at(rid, rdeps@, quorum - 1)),
{
    let q = quorum as usize;
    let n = rdeps.len();
    if n < q {
        return None;
    }
    let d = rdeps[q - 1];
    Some(Dep { replica_id: rid, idx: d.idx, seq: d.seq })
}

/// The `fq` consecutive sorted replies from position `i` on agree with `d` on index and
/// sequence number, and `i` is the first reply or a reply from `i` on reports `d`
/// committed.
pub open spec fn agreed_run(s: Seq<RepliedDep>, fq: int, i: int, d: Dep) -> bool {
    &&& 0 <= i
    &&& i + fq <= s.len()
    &&& forall|k: int| i <= k < i + fq ==> (#[trigger] s[k]).idx == d.idx && s[k].seq == d.seq
    &&& (i == 0 || exists|k: int|
        i <= k < s.len() && (#[trigger] s[k]).committed && s[k].idx == d.idx && s[k].seq == d.seq)
}

/// When some position witnesses a fast commit, a first one does.
pub proof fn lemma_first_witness_exists(s: Seq<RepliedDep>, fq: int, i: int)
    requires
        fast_witnessed(s, fq, i),
    ensures
        exists|m: int| #[trigger] first_witness(s, fq, m),
    decreases i,
{
    if exists|k: int| 0 <= k < i && #[trigger] fast_witnessed(s, fq, k) {
        let k = choose|k: int| 0 <= k < i && #[trigger] fast_witnessed(s, fq, k);
        lemma_first_witness_exists(s, fq, k);
    } else {
        assert(first_witness(s, fq, i));
    }
}

/// A fast-commit dependency is agreed on by a fast quorum of consecutive sorted replies,
/// and it is the initial dependency or one of those replies reports it committed.
pub proof fn lemma_fast_commit_agreed(rid: ReplicaId, s: Seq<RepliedDep>, fq: int)
    requires
        fq > 0,
        rdeps_sorted(s),
        spec_fast_commit_dep(rid, s, fq) is Some,
    ensures
        exists|i: int| #[trigger] agreed_run(s, fq, i, spec_fast_commit_dep(rid, s, fq)->0),
{
    let w = choose|w: int| #[trigger] fast_witnessed(s, fq, w);
    lemma_first_witness_exists(s, fq, w);
    let i = choose|i: int| #[trigger] first_witness(s, fq, i);
    let j = choose|j: int| fast_witness(s, fq, i, j);
    let d = spec_fast_commit_dep(rid, s, fq)->0;
    assert forall|k: int| i <= k < i + fq implies (#[trigger] s[k]).idx == d.idx && s[k].seq
        == d.seq by {
        assert(sorted_by(s, rdep_order()));
        if k > i {
            assert(rdep_order()(s[i], s[k]));
        }
        if k < j {
            assert(rdep_order()(s[k], s[j]));
        }
    }
    if i != 0 {
        assert(s[j].committed && s[j].idx == d.idx && s[j].seq == d.seq);
    }
    assert(agreed_run(s, fq, i, d));
}

/// `get_fast_commit_dep` returns the dependency its specification names.
pub proof fn lemma_fast_commit_dep_spec(rid: ReplicaId, s: Seq<RepliedDep>, fq: int, r: Option<Dep>)
    requires
        r is Some ==> exists|i: int| #[trigger] first_witness(s, fq, i) && r == Some(dep_at(rid, s, i)),
        r is None ==> forall|i: int| !#[trigger] fast_witnessed(s, fq, i),
    ensures
        r == spec_fast_commit_dep(rid, s, fq),
{
    if r is Some {
        let i = choose|i: int| #[trigger] first_witness(s, fq, i) && r == Some(dep_at(rid, s, i));
        let c = choose|c: int| #[trigger] first_witness(s, fq, c);
        if c < i {
            assert(!fast_witnessed(s, fq, c));
        }
        if i < c {
            assert(!fast_witnessed(s, fq, i));
        }
    }
}

/// The replies about the dependency on one replica: who replied, and what.
#[derive(Debug, Default)]
pub struct DepStatus {
    pub replied: HashSet<ReplicaId>,
    pub rdeps: Vec<RepliedDep>,
}

/// What the replies about one dependency hold, as plain values.
pub type DepStatusView = (Set<i64>, Seq<RepliedDep>);

/// The replies kept for each replica, as plain values.
pub open spec fn prepared_view(m: Map<i64, DepStatus>) -> Map<i64, DepStatusView> {
    m.map_values(|ds: DepStatus| (ds.replied@, ds.rdeps@))
}

/// Status tracks replication of an instance during its fast-accept, accept and commit
/// phases.
#[derive(Debug, Default)]
pub struct Status {
    pub fast_quorum: i32,
    pub quorum: i32,
    pub instance: Instance,
    /// For each replica `i`, the replies about the instance of `i` this one depends on.
    pub prepared: HashMap<ReplicaId, DepStatus>,
    /// The replicas that accepted the instance.
    pub accept_oks: HashSet<ReplicaId>,
}

/// The name the replication code gives to the status of an instance.
pub type ReplicationStatus = Status;

/// The replies the leader itself stands for: for each dependency of its instance, a
/// reply from the leader with that dependency, not committed; a later dependency on the
/// same replica wins.
pub open spec fn initial_prepared(m: Map<i64, DepStatusView>, deps: Seq<Dep>, leader: i64) -> Map<
    i64,
    DepStatusView,
>
    decreases deps.len(),
{
    if deps.len() == 0 {
        m
    } else {
        let d = deps.last();
        initial_prepared(m, deps.drop_last(), leader).insert(
            d.replica_id,
            (set![leader], seq![RepliedDep { idx: d.idx, seq: d.seq, committed: false }]),
        )
    }
}

/// The replies about each dependency sorted in their order.
pub open spec fn sorted_rdeps(s: Seq<RepliedDep>) -> Seq<RepliedDep> {
    s.sort_by(rdep_order())
}

/// Sorting keeps the replies, and sorting twice sorts once.
pub proof fn lemma_sorted_rdeps(s: Seq<RepliedDep>)
    ensures
        rdeps_sorted(sorted_rdeps(s)),
        sorted_rdeps(s).len() == s.len(),
        sorted_rdeps(sorted_rdeps(s)) == sorted_rdeps(s),
{
    broadcast use vstd::seq_lib::group_to_multiset_ensures;

    lemma_rdep_order_total();
    s.lemma_sort_by_ensures(rdep_order());
    sorted_rdeps(s).lemma_sort_by_ensures(rdep_order());
    vstd::seq_lib::lemma_sorted_unique(
        sorted_rdeps(s),
        sorted_rdeps(sorted_rdeps(s)),
        rdep_order(),
    );
    assert(s.to_multiset().len() == s.len());
    assert(sorted_rdeps(s).to_multiset().len() == sorted_rdeps(s).len());
}

/// `new` replies are `old` ones, some of them sorted: same replicas, same repliers, and
/// for each replica the replies as they were or sorted.
pub open spec fn same_but_sorted(old: Map<i64, DepStatusView>, new: Map<i64, DepStatusView>) -> bool {
    &&& new.dom() == old.dom()
    &&& forall|rid: i64|
        #[trigger] new.contains_key(rid) ==> new[rid].0 == old[rid].0 && (new[rid].1 == old[rid].1
            || new[rid].1 == sorted_rdeps(old[rid].1))
}

impl Status {
    /// The invariant of a status: positive quorums, and at least one reply about each
    /// dependency.
    pub open spec fn wf(&self) -> bool {
        &&& self.fast_quorum > 0
        &&& self.quorum > 0
        &&& forall|rid: i64| #[trigger]
            self.prepared@.contains_key(rid) ==> self.prepared@[rid].rdeps@.len() > 0
    }

    /// new creates the status of `instance` in a group of `n_replica` replicas, as if the
    /// instance had already fast-accepted itself. The instance must have an id and
    /// dependencies.
    pub fn new(n_replica: i32, instance: Instance) -> (st: Status)
        requires
            n_replica > i32::MIN,
            instance.instance_id is Some,
            instance.deps is Some,
        ensures
            st.quorum == spec_quorum(n_replica as int),
            st.fast_quorum == spec_fast_quorum(n_replica as int),
            st.instance == instance,
            prepared_view(st.prepared@) == initial_prepared(
                Map::empty(),
                instance.deps->0@,
                instance.instance_id->0.replica_id,
            ),
            st.accept_oks@ == Set::<i64>::empty(),
    {
        let mut st = Status {
            quorum: quorum(n_replica),
            fast_quorum: fast_quorum(n_replica),
            instance,
            prepared: HashMap::new(),
            accept_oks: HashSet::new(),
        };
        assert(prepared_view(st.prepared@) =~= Map::empty());
        st.start_fast_accept();
        st
    }

    /// start_fast_accept records, for each dependency of the instance, a reply from its
    /// leader with that dependency. The instance must have an id and dependencies.
    pub fn start_fast_accept(&mut self) -> (r: &mut Self)
        requires
            old(self).instance.instance_id is Some,
            old(self).instance.deps is Some,
        ensures
            r.instance == old(self).instance,
            r.fast_quorum == old(self).fast_quorum,
            r.quorum == old(self).quorum,
            r.accept_oks@ == old(self).accept_oks@,
            prepared_view(r.prepared@) == initial_prepared(
                prepared_view(old(self).prepared@),
                old(self).instance.deps->0@,
                old(self).instance.instance_id->0.replica_id,
            ),
            *final(self) == *final(r),
    {
        let leader = self.instance.instance_id.unwrap().replica_id;
        let n = self.instance.deps.as_ref().unwrap().dep_vec.len();
        let ghost deps = self.instance.deps->0@;
        let ghost m0 = prepared_view(self.prepared@);
        let mut i: usize = 0;
        assert(deps.take(0) =~= Seq::<Dep>::empty());
        while i < n
            invariant
                self.instance == old(self).instance,
                self.fast_quorum == old(self).fast_quorum,
                self.quorum == old(self).quorum,
                self.accept_oks@ == old(self).accept_oks@,
                self.instance.deps is Some,
                deps == self.instance.deps->0@,
                n == deps.len(),
                i <= n,
                leader == old(self).instance.instance_id->0.replica_id,
                m0 == prepared_view(old(self).prepared@),
                prepared_view(self.prepared@) == initial_prepared(m0, deps.take(i as int), leader),
            decreases n - i,
        {
            let d = self.instance.deps.as_ref().unwrap().dep_vec[i];
            let mut replied = HashSet::new();
            replied.insert(leader);
            let ds = DepStatus {
                replied,
                rdeps: vec![RepliedDep { idx: d.idx, seq: d.seq, committed: false }],
            };
            let ghost before = self.prepared@;
            self.prepared.insert(d.replica_id, ds);
            proof {
                assert(deps.take(i + 1).drop_last() =~= deps.take(i as int));
                assert(deps.take(i + 1).last() == d);
                assert(ds.rdeps@ =~= seq![RepliedDep { idx: d.idx, seq: d.seq, committed: false }]);
                assert(ds.replied@ =~= set![leader]);
                assert(prepared_view(self.prepared@) =~= prepared_view(before).insert(
                    d.replica_id,
                    (set![leader], seq![RepliedDep { idx: d.idx, seq: d.seq, committed: false }]),
                ));
            }
            i = i + 1;
        }
        assert(deps.take(n as int) =~= deps);
        self
    }

    /// start_accept records that the leader of the instance accepts it. The instance
    /// must have an id.
    pub fn start_accept(&mut self) -> (r: &mut Self)
        requires
            old(self).instance.instance_id is Some,
        ensures
            r.instance == old(self).instance,
            r.fast_quorum == old(self).fast_quorum,
            r.quorum == old(self).quorum,
            r.prepared@ == old(self).prepared@,
            r.accept_oks@ == old(self).accept_oks@.insert(
                old(self).instance.instance_id->0.replica_id,
            ),
            *final(self) == *final(r),
    {
        let rid = self.instance.instance_id.unwrap().replica_id;
        self.accept_oks.insert(rid);
        self
    }

    /// get_fast_commit_deps returns, for each replica of `cluster`, the dependency a
    /// fast commit may use, or None when one of them has none. It sorts the replies of
    /// each replica it looks at: those of `cluster` up to the first without replies or
    /// without such a dependency, that one included.
    pub fn get_fast_commit_deps(&mut self, cluster: &[ReplicaId]) -> (r: Option<Vec<Dep>>)
        requires
            choices_fit(
                prepared_view(old(self).prepared@),
                cluster@,
                old(self).fast_quorum as int,
                old(self).quorum as int,
                true,
            ),
        ensures
            old(self).wf() ==> final(self).wf(),
            final(self).instance == old(self).instance,
            final(self).fast_quorum == old(self).fast_quorum,
            final(self).quorum == old(self).quorum,
            final(self).accept_oks@ == old(self).accept_oks@,
            prepared_view(final(self).prepared@) == sorted_on(
                prepared_view(old(self).prepared@),
                visited_rids(
                    prepared_view(old(self).prepared@),
                    cluster@,
                    old(self).fast_quorum as int,
                    old(self).quorum as int,
                    true,
                ),
            ),
            same_but_sorted(prepared_view(old(self).prepared@), prepared_view(final(self).prepared@)),
            r is Some <==> forall|k: int|
                0 <= k < cluster@.len() ==> #[trigger] fast_dep_of(
                    prepared_view(old(self).prepared@),
                    cluster@[k],
                    old(self).fast_quorum as int,
                ) is Some,
            r matches Some(v) ==> v@.len() == cluster@.len() && forall|k: int|
                0 <= k < cluster@.len() ==> Some(#[trigger] v@[k]) == fast_dep_of(
                    prepared_view(old(self).prepared@),
                    cluster@[k],
                    old(self).fast_quorum as int,
                ),
    {
        let ghost m = prepared_view(self.prepared@);
        let ghost fq = self.fast_quorum as int;
        let ghost q = self.quorum as int;
        let r = self.choose_deps(cluster, true);
        assert forall|k: int| 0 <= k < cluster@.len() implies #[trigger] fast_dep_of(
            m,
            cluster@[k],
            fq,
        ) == chosen_dep_of(m, cluster@[k], fq, q, true) by {}
        r
    }

    /// get_accept_deps returns, for each replica of `cluster`, the dependency an accept
    /// request proposes, or None when one of them has fewer replies than a quorum. It
    /// sorts the replies of each replica it looks at: those of `cluster` up to the first
    /// without replies or with too few, that one included.
    pub fn get_accept_deps(&mut self, cluster: &[ReplicaId]) -> (r: Option<Vec<Dep>>)
        requires
            choices_fit(
                prepared_view(old(self).prepared@),
                cluster@,
                old(self).fast_quorum as int,
                old(self).quorum as int,
                false,
            ),
        ensures
            old(self).wf() ==> final(self).wf(),
            final(self).instance == old(self).instance,
            final(self).fast_quorum == old(self).fast_quorum,
            final(self).quorum == old(self).quorum,
            final(self).accept_oks@ == old(self).accept_oks@,
            prepared_view(final(self).prepared@) == sorted_on(
                prepared_view(old(self).prepared@),
                visited_rids(
                    prepared_view(old(self).prepared@),
                    cluster@,
                    old(self).fast_quorum as int,
                    old(self).quorum as int,
                    false,
                ),
            ),
            same_but_sorted(prepared_view(old(self).prepared@), prepared_view(final(self).prepared@)),
            r is Some <==> forall|k: int|
                0 <= k < cluster@.len() ==> #[trigger] accept_dep_of(
                    prepared_view(old(self).prepared@),
                    cluster@[k],
                    old(self).quorum as int,
                ) is Some,
            r matches Some(v) ==> v@.len() == cluster@.len() && forall|k: int|
                0 <= k < cluster@.len() ==> Some(#[trigger] v@[k]) == accept_dep_of(
                    prepared_view(old(self).prepared@),
                    cluster@[k],
                    old(self).quorum as int,
                ),
    {
        let ghost m = prepared_view(self.prepared@);
        let ghost fq = self.fast_quorum as int;
        let ghost q = self.quorum as int;
        let r = self.choose_deps(cluster, false);
        assert forall|k: int| 0 <= k < cluster@.len() implies #[trigger] accept_dep_of(
            m,
            cluster@[k],
            q,
        ) == chosen_dep_of(m, cluster@[k], fq, q, false) by {}
        r
    }

    /// choose_deps picks a dependency for each replica of `cluster`, for the fast path
    /// when `fast` holds and for the slow path otherwise, sorting the replies it looks at.
    fn choose_deps(&mut self, cluster: &[ReplicaId], fast: bool) -> (r: Option<Vec<Dep>>)
        requires
            choices_fit(
                prepared_view(old(self).prepared@),
                cluster@,
                old(self).fast_quorum as int,
                old(self).quorum as int,
                fast,
            ),
        ensures
            old(self).wf() ==> final(self).wf(),
            final(self).instance == old(self).instance,
            final(self).fast_quorum == old(self).fast_quorum,
            final(self).quorum == old(self).quorum,
            final(self).accept_oks@ == old(self).accept_oks@,
            prepared_view(final(self).prepared@) == sorted_on(
                prepared_view(old(self).prepared@),
                visited_rids(
                    prepared_view(old(self).prepared@),
                    cluster@,
                    old(self).fast_quorum as int,
                    old(self).quorum as int,
                    fast,
                ),
            ),
            same_but_sorted(prepared_view(old(self).prepared@), prepared_view(final(self).prepared@)),
            r is Some <==> forall|k: int|
                0 <= k < cluster@.len() ==> #[trigger] chosen_dep_of(
                    prepared_view(old(self).prepared@),
                    cluster@[k],
                    old(self).fast_quorum as int,
                    old(self).quorum as int,
                    fast,
                ) is Some,
            r matches Some(v) ==> v@.len() == cluster@.len() && forall|k: int|
                0 <= k < cluster@.len() ==> Some(#[trigger] v@[k]) == chosen_dep_of(
                    prepared_view(old(self).prepared@),
                    cluster@[k],
                    old(self).fast_quorum as int,
                    old(self).quorum as int,
                    fast,
                ),
    {
        let ghost m0 = prepared_view(self.prepared@);
        let ghost fq = self.fast_quorum as int;
        let ghost q = self.quorum as int;
        let ghost was_wf = self.wf();
        let mut rst: Vec<Dep> = Vec::with_capacity(cluster.len());
        let mut i: usize = 0;
        proof {
            assert(cluster@.take(0).to_set() =~= Set::<i64>::empty());
            assert(m0 =~= sorted_on(m0, Set::<i64>::empty()));
        }
        while i < cluster.len()
            invariant
                was_wf == old(self).wf(),
                was_wf ==> self.wf(),
                self.instance == old(self).instance,
                self.fast_quorum == old(self).fast_quorum,
                self.quorum == old(self).quorum,
                self.accept_oks@ == old(self).accept_oks@,
                m0 == prepared_view(old(self).prepared@),
                fq == old(self).fast_quorum as int,
                q == old(self).quorum as int,
                choices_fit(m0, cluster@, fq, q, fast),
                choice_stop(m0, cluster@, fq, q, fast, 0) == choice_stop(m0, cluster@, fq, q, fast, i as int),
                prepared_view(self.prepared@) == sorted_on(m0, cluster@.take(i as int).to_set()),
                i <= cluster@.len(),
                rst@.len() == i,
                forall|k: int|
                    0 <= k < i ==> Some(#[trigger] rst@[k]) == chosen_dep_of(
                        m0,
                        cluster@[k],
                        fq,
                        q,
                        fast,
                    ),
            decreases cluster@.len() - i,
        {
            let rid = cluster[i];
            let ghost before = self.prepared@;
            let ghost done = cluster@.take(i as int).to_set();
            let ghost next = cluster@.take(i + 1).to_set();
            proof {
                cluster@.take(i as int).lemma_push_to_set_commute(rid);
                assert(cluster@.take(i + 1) =~= cluster@.take(i as int).push(rid));
                assert(next == done.insert(rid));
                lemma_choice_stop_from(m0, cluster@, fq, q, fast, i as int);
                lemma_visited_contains(m0, cluster@, fq, q, fast, i as int);
            }
            let removed = self.prepared.remove(&rid);
            let mut ds = match removed {
                Some(ds) => ds,
                None => {
                    proof {
                        assert(self.prepared@ =~= before);
                        assert(!prepared_view(before).contains_key(rid));
                        assert(!sorted_on(m0, done).contains_key(rid));
                        assert(!m0.contains_key(rid));
                        assert(chosen_dep_of(m0, cluster@[i as int], fq, q, fast) is None);
                        lemma_visited_at_stop(m0, cluster@, fq, q, fast, i as int);
                        assert(sorted_on(m0, next) =~= sorted_on(m0, done));
                        lemma_sorted_on_same(m0, next);
                    }
                    return None;
                },
            };
            proof {
                assert(before.contains_key(rid) && before[rid] == ds);
                assert(prepared_view(before).contains_key(rid));
                assert(sorted_on(m0, done).contains_key(rid));
                assert(prepared_view(before)[rid] == sorted_on(m0, done)[rid]);
                lemma_sorted_rdeps(m0[rid].1);
                assert(prepared_view(before)[rid] == (ds.replied@, ds.rdeps@));
                assert(m0.contains_key(rid));
                if done.contains(rid) {
                    assert(ds.rdeps@ == sorted_rdeps(m0[rid].1));
                } else {
                    assert(ds.rdeps@ == m0[rid].1);
                }
                assert(ds.rdeps@.len() > 0);
                assert(ds.replied@ == m0[rid].0);
            }
            sort_rdeps(&mut ds.rdeps);
            proof {
                lemma_sorted_rdeps(m0[rid].1);
                assert(ds.rdeps@ == sorted_rdeps(m0[rid].1));
            }
            let fdep = if fast {
                get_fast_commit_dep(rid, &ds.rdeps, self.fast_quorum)
            } else {
                get_accept_dep(rid, &ds.rdeps, self.quorum)
            };
            let ghost sorted = ds.rdeps@;
            self.prepared.insert(rid, ds);
            proof {
                assert(self.prepared@ == before.remove(rid).insert(rid, ds));
                assert forall|x: i64| #[trigger] prepared_view(self.prepared@).contains_key(x) <==> sorted_on(m0, next).contains_key(x) by {
                    if x != rid {
                        assert(prepared_view(before).contains_key(x) == sorted_on(m0, done).contains_key(x));
                    }
                }
                assert forall|x: i64| #[trigger] prepared_view(self.prepared@).contains_key(x) implies prepared_view(self.prepared@)[x] == sorted_on(m0, next)[x] by {
                    if x != rid {
                        assert(self.prepared@[x] == before[x]);
                        assert(prepared_view(before)[x] == sorted_on(m0, done)[x]);
                        assert(next.contains(x) == done.contains(x));
                    } else {
                        assert(prepared_view(self.prepared@)[x] == (ds.replied@, ds.rdeps@));
                    }
                }
                assert(prepared_view(self.prepared@) =~= sorted_on(m0, next));
                if was_wf {
                    assert forall|x: i64| #[trigger] self.prepared@.contains_key(x) implies self.prepared@[x].rdeps@.len() > 0 by {
                        assert(prepared_view(self.prepared@).contains_key(x));
                        lemma_sorted_rdeps(m0[x].1);
                        assert(old(self).prepared@.contains_key(x));
                    }
                }
                assert(chosen_dep_of(m0, cluster@[i as int], fq, q, fast) == fdep);
            }
            match fdep {
                Some(d) => {
                    rst.push(d);
                },
                None => {
                    proof {
                        lemma_visited_at_stop(m0, cluster@, fq, q, fast, i as int);
                        lemma_sorted_on_same(m0, next);
                    }
                    return None;
                },
            }
            i = i + 1;
        }
        proof {
            assert(cluster@.take(i as int) =~= cluster@);
            lemma_visited_all(m0, cluster@, fq, q, fast);
            lemma_sorted_on_same(m0, cluster@.to_set());
        }
        assert forall|k: int| 0 <= k < cluster@.len() implies #[trigger] chosen_dep_of(
            m0,
            cluster@[k],
            fq,
            q,
            fast,
        ) is Some by {
            assert(Some(rst@[k]) == chosen_dep_of(m0, cluster@[k], fq, q, fast));
        }
        Some(rst)
    }
}

/// The position, from the `k`-th on, of the first replica of `cluster` without replies
/// kept or without a chosen dependency; the length of `cluster` when there is none.
pub open spec fn choice_stop(
    m: Map<i64, DepStatusView>,
    cluster: Seq<ReplicaId>,
    fq: int,
    q: int,
    fast: bool,
    k: int,
) -> int
    decreases cluster.len() - k,
{
    if k < 0 || k >= cluster.len() {
        cluster.len() as int
    } else if chosen_dep_of(m, cluster[k], fq, q, fast) is None {
        k
    } else {
        choice_stop(m, cluster, fq, q, fast, k + 1)
    }
}

/// The replicas whose replies a choice looks at: those of `cluster` up to the first
/// without replies kept or without a chosen dependency, that one included.
pub open spec fn visited_rids(
    m: Map<i64, DepStatusView>,
    cluster: Seq<ReplicaId>,
    fq: int,
    q: int,
    fast: bool,
) -> Set<i64> {
    let s = choice_stop(m, cluster, fq, q, fast, 0);
    cluster.take(if s < cluster.len() { s + 1 } else { s }).to_set()
}

/// The replies kept, with those about the replicas of `s` sorted.
pub open spec fn sorted_on(m: Map<i64, DepStatusView>, s: Set<i64>) -> Map<i64, DepStatusView> {
    Map::new(
        |rid: i64| m.contains_key(rid),
        |rid: i64|
            if s.contains(rid) {
                (m[rid].0, sorted_rdeps(m[rid].1))
            } else {
                m[rid]
            },
    )
}

/// Every replica a choice looks at that has replies kept has at least one, and the
/// quorum of the path chosen is positive.
pub open spec fn choices_fit(m: Map<i64, DepStatusView>, cluster: Seq<ReplicaId>, fq: int, q: int, fast: bool) -> bool {
    forall|rid: i64|
        #[trigger] visited_rids(m, cluster, fq, q, fast).contains(rid) && m.contains_key(rid) ==> m[rid].1.len() > 0
            && (if fast {
            fq > 0
        } else {
            q > 0
        })
}

/// The first position without a choice is at or after `k`, and before it every replica
/// from the `k`-th on has one.
pub proof fn lemma_choice_stop_from(
    m: Map<i64, DepStatusView>,
    cluster: Seq<ReplicaId>,
    fq: int,
    q: int,
    fast: bool,
    k: int,
)
    requires
        0 <= k <= cluster.len(),
    ensures
        k <= choice_stop(m, cluster, fq, q, fast, k) <= cluster.len(),
    decreases cluster.len() - k,
{
    if k < cluster.len() && chosen_dep_of(m, cluster[k], fq, q, fast) is Some {
        lemma_choice_stop_from(m, cluster, fq, q, fast, k + 1);
    }
}

/// While every replica before the `i`-th has a choice, the `i`-th one is looked at.
pub proof fn lemma_visited_contains(
    m: Map<i64, DepStatusView>,
    cluster: Seq<ReplicaId>,
    fq: int,
    q: int,
    fast: bool,
    i: int,
)
    requires
        0 <= i < cluster.len(),
        choice_stop(m, cluster, fq, q, fast, 0) == choice_stop(m, cluster, fq, q, fast, i),
    ensures
        visited_rids(m, cluster, fq, q, fast).contains(cluster[i]),
{
    lemma_choice_stop_from(m, cluster, fq, q, fast, i);
    let s = choice_stop(m, cluster, fq, q, fast, 0);
    let n = if s < cluster.len() { s + 1 } else { s };
    assert(cluster.take(n)[i] == cluster[i]);
    assert(cluster.take(n).contains(cluster[i]));
}

/// When the `i`-th replica has no choice, those looked at are the first `i + 1`.
pub proof fn lemma_visited_at_stop(
    m: Map<i64, DepStatusView>,
    cluster: Seq<ReplicaId>,
    fq: int,
    q: int,
    fast: bool,
    i: int,
)
    requires
        0 <= i < cluster.len(),
        choice_stop(m, cluster, fq, q, fast, 0) == choice_stop(m, cluster, fq, q, fast, i),
        chosen_dep_of(m, cluster[i], fq, q, fast) is None,
    ensures
        visited_rids(m, cluster, fq, q, fast) == cluster.take(i + 1).to_set(),
{
}

/// When every replica has a choice, all of them are looked at.
pub proof fn lemma_visited_all(m: Map<i64, DepStatusView>, cluster: Seq<ReplicaId>, fq: int, q: int, fast: bool)
    requires
        choice_stop(m, cluster, fq, q, fast, 0) == choice_stop(m, cluster, fq, q, fast, cluster.len() as int),
    ensures
        visited_rids(m, cluster, fq, q, fast) == cluster.to_set(),
{
    assert(cluster.take(cluster.len() as int) =~= cluster);
}

/// Sorting the replies about some replicas leaves the replies kept the same but sorted.
pub proof fn lemma_sorted_on_same(m: Map<i64, DepStatusView>, s: Set<i64>)
    ensures
        same_but_sorted(m, sorted_on(m, s)),
{
    assert(sorted_on(m, s).dom() =~= m.dom());
}

/// A status whose invariant holds fits every choice.
pub proof fn lemma_wf_choices_fit(st: Status, cluster: Seq<ReplicaId>, fast: bool)
    requires
        st.wf(),
    ensures
        choices_fit(prepared_view(st.prepared@), cluster, st.fast_quorum as int, st.quorum as int, fast),
{
    let m = prepared_view(st.prepared@);
    assert forall|rid: i64| #[trigger] visited_rids(m, cluster, st.fast_quorum as int, st.quorum as int, fast).contains(rid)
        && m.contains_key(rid) implies m[rid].1.len() > 0 by {
        assert(st.prepared@.contains_key(rid));
    }
}

/// The dependency on replica `rid` a fast commit may use, given the replies kept.
pub open spec fn fast_dep_of(m: Map<i64, DepStatusView>, rid: i64, fq: int) -> Option<Dep> {
    if m.contains_key(rid) {
        spec_fast_commit_dep(rid, sorted_rdeps(m[rid].1), fq)
    } else {
        None
    }
}

/// The dependency on replica `rid` an accept request proposes, given the replies kept.
pub open spec fn accept_dep_of(m: Map<i64, DepStatusView>, rid: i64, q: int) -> Option<Dep> {
    if m.contains_key(rid) && sorted_rdeps(m[rid].1).len() >= q {
        Some(dep_at(rid, sorted_rdeps(m[rid].1), q - 1))
    } else {
        None
    }
}

/// The dependency on replica `rid` chosen for the fast path or the slow path.
pub open spec fn chosen_dep_of(m: Map<i64, DepStatusView>, rid: i64, fq: int, q: int, fast: bool) -> Option<
    Dep,
> {
    if fast {
        fast_dep_of(m, rid, fq)
    } else {
        accept_dep_of(m, rid, q)
    }
}

} // verus!
