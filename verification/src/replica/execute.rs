//! Executing committed instances: what each command of a batch returns, which instances
//! to fetch next, when to recover a missing or stalled instance, and what to execute.
use crate::command::Command;
use crate::qpaxos::deps::{lookup, InstanceIdVec};
use crate::qpaxos::ids::{iid_lt, InstanceId, ReplicaId};
use crate::qpaxos::ids::instance_key;
use crate::qpaxos::instance::{inst_view, Instance, InstanceView};
use crate::qpaxos::record::{Record, RecordView};
use crate::replica::exec::{
    all_complete, all_deps, all_have_deps, exec_candidates, executable, find_missing_insts, id_is, iids_of,
    lemma_executable_from_insts, missing_iids, select_executable, sorted_by_iid,
};
use crate::replica::replica::Replica;
use vstd::prelude::*;
use vstd::slice::slice_to_vec;

verus! {

/// ExecuteResult is what executing a command returns: nothing, or the value a read saw.
#[derive(Clone, Debug, PartialEq, Eq)]
pub enum ExecuteResult {
    Success,
    SuccessWithVal(Option<Vec<u8>>),
}

/// What an execution result holds, as plain values.
pub open spec fn result_view(r: ExecuteResult) -> Option<Option<Seq<u8>>> {
    match r {
        ExecuteResult::Success => None,
        ExecuteResult::SuccessWithVal(v) => Some(
            match v {
                Some(b) => Some(b@),
                None => None,
            },
        ),
    }
}

/// A command that reads its key.
pub open spec fn is_read(c: Command) -> bool {
    c.op == 1
}

/// A command that changes its key: anything but a read or no operation. A delete leaves
/// no value; anything else sets its value.
pub open spec fn is_write(c: Command) -> bool {
    c.op != 0 && c.op != 1
}

/// What a write leaves under its key.
pub open spec fn written(c: Command) -> Option<Seq<u8>> {
    if c.op == 3 {
        None
    } else {
        Some(c.value@)
    }
}

/// What the last write to `key` among the first `n` commands left, if one of them
/// writes it.
pub open spec fn last_write(cs: Seq<Command>, n: int, key: Seq<u8>) -> Option<Option<Seq<u8>>>
    decreases n,
{
    if n <= 0 {
        None
    } else if is_write(cs[n - 1]) && cs[n - 1].key@ == key {
        Some(written(cs[n - 1]))
    } else {
        last_write(cs, n - 1, key)
    }
}

/// The value stored under `key` before the batch: the first entry of `stored` for it.
pub open spec fn stored_value(stored: Seq<(Vec<u8>, Option<Vec<u8>>)>, key: Seq<u8>) -> Option<Seq<u8>>
    decreases stored.len(),
{
    if stored.len() == 0 {
        None
    } else if stored[0].0@ == key {
        match stored[0].1 {
            Some(v) => Some(v@),
            None => None,
        }
    } else {
        stored_value(stored.drop_first(), key)
    }
}

/// `stored` has an entry for `key`.
pub open spec fn has_stored(stored: Seq<(Vec<u8>, Option<Vec<u8>>)>, key: Seq<u8>) -> bool {
    exists|i: int| 0 <= i < stored.len() && (#[trigger] stored[i]).0@ == key
}

/// What the `n`-th command of a batch returns: a read sees the last write to its key
/// before it in the batch, or else the value stored before the batch.
pub open spec fn command_result(cs: Seq<Command>, n: int, stored: Seq<(Vec<u8>, Option<Vec<u8>>)>) -> Option<Option<Seq<u8>>> {
    if is_read(cs[n]) {
        Some(
            match last_write(cs, n, cs[n].key@) {
                Some(v) => v,
                None => stored_value(stored, cs[n].key@),
            },
        )
    } else {
        None
    }
}

/// The commands of the first `n` instances, one instance after the other.
pub open spec fn batch_cmds(insts: Seq<Instance>, n: int) -> Seq<Command>
    decreases n,
{
    if n <= 0 {
        Seq::empty()
    } else {
        batch_cmds(insts, n - 1) + insts[n - 1].cmds@
    }
}

/// Every read of the batch has the value stored before the batch under its key.
pub open spec fn reads_stored(cs: Seq<Command>, stored: Seq<(Vec<u8>, Option<Vec<u8>>)>) -> bool {
    forall|j: int| 0 <= j < cs.len() && #[trigger] is_read(cs[j]) ==> has_stored(stored, cs[j].key@)
}

/// find_stored returns the first value stored under `key`, which `stored` must have.
fn find_stored(stored: &Vec<(Vec<u8>, Option<Vec<u8>>)>, key: &[u8]) -> (r: Option<Vec<u8>>)
    requires
        has_stored(stored@, key@),
    ensures
        match r {
            Some(v) => stored_value(stored@, key@) == Some(v@),
            None => stored_value(stored@, key@) is None,
        },
{
    let mut i: usize = 0;
    assert(stored@.skip(0) =~= stored@);
    while i < stored.len()
        invariant
            i <= stored@.len(),
            stored_value(stored@, key@) == stored_value(stored@.skip(i as int), key@),
            forall|j: int| 0 <= j < i ==> stored@[j].0@ != key@,
            has_stored(stored@, key@),
        decreases stored@.len() - i,
    {
        assert(stored@.skip(i as int).drop_first() =~= stored@.skip(i + 1));
        if crate::command::bytes_eq(stored[i].0.as_slice(), key) {
            return match &stored[i].1 {
                Some(v) => Some(slice_to_vec(v.as_slice())),
                None => None,
            };
        }
        i = i + 1;
    }
    proof {
        let j = choose|j: int| 0 <= j < stored@.len() && (#[trigger] stored@[j]).0@ == key@;
        assert(stored@[j].0@ != key@);
    }
    None
}

/// The value a batch leaves under each key it wrote so far, the latest first.
pub open spec fn writes_view(w: Seq<(Vec<u8>, Option<Vec<u8>>)>) -> Seq<(Seq<u8>, Option<Seq<u8>>)> {
    w.map_values(
        |e: (Vec<u8>, Option<Vec<u8>>)|
            (
                e.0@,
                match e.1 {
                    Some(v) => Some(v@),
                    None => None,
                },
            ),
    )
}

/// The first entry for `key` in a list of writes, latest first.
pub open spec fn latest_in(w: Seq<(Seq<u8>, Option<Seq<u8>>)>, key: Seq<u8>) -> Option<Option<Seq<u8>>>
    decreases w.len(),
{
    if w.len() == 0 {
        None
    } else if w[0].0 == key {
        Some(w[0].1)
    } else {
        latest_in(w.drop_first(), key)
    }
}

/// find_written returns what the batch left under `key`, looking at its writes latest
/// first.
fn find_written(w: &Vec<(Vec<u8>, Option<Vec<u8>>)>, key: &[u8]) -> (r: Option<Option<Vec<u8>>>)
    ensures
        match r {
            Some(Some(v)) => latest_in(writes_view(w@), key@) == Some(Some(v@)),
            Some(None) => latest_in(writes_view(w@), key@) == Some(None::<Seq<u8>>),
            None => latest_in(writes_view(w@), key@) is None,
        },
{
    let mut i: usize = 0;
    assert(writes_view(w@).skip(0) =~= writes_view(w@));
    while i < w.len()
        invariant
            i <= w@.len(),
            latest_in(writes_view(w@), key@) == latest_in(writes_view(w@).skip(i as int), key@),
        decreases w@.len() - i,
    {
        assert(writes_view(w@).skip(i as int).drop_first() =~= writes_view(w@).skip(i + 1));
        if crate::command::bytes_eq(w[i].0.as_slice(), key) {
            return match &w[i].1 {
                Some(v) => Some(Some(slice_to_vec(v.as_slice()))),
                None => Some(None),
            };
        }
        i = i + 1;
    }
    assert(writes_view(w@).skip(i as int) =~= Seq::empty());
    None
}

/// The writes of the first `n` commands of a batch, latest first.
pub open spec fn writes_of(cs: Seq<Command>, n: int) -> Seq<(Seq<u8>, Option<Seq<u8>>)>
    decreases n,
{
    if n <= 0 {
        Seq::empty()
    } else if is_write(cs[n - 1]) {
        seq![(cs[n - 1].key@, written(cs[n - 1]))] + writes_of(cs, n - 1)
    } else {
        writes_of(cs, n - 1)
    }
}

/// Looking a key up in the writes, latest first, finds the last write to it.
pub proof fn lemma_writes_of(cs: Seq<Command>, n: int, key: Seq<u8>)
    requires
        0 <= n <= cs.len(),
    ensures
        latest_in(writes_of(cs, n), key) == last_write(cs, n, key),
    decreases n,
{
    if n > 0 {
        lemma_writes_of(cs, n - 1, key);
        if is_write(cs[n - 1]) {
            let w = seq![(cs[n - 1].key@, written(cs[n - 1]))] + writes_of(cs, n - 1);
            assert(w.drop_first() =~= writes_of(cs, n - 1));
        }
    }
}

/// The commands of the first `i` instances are the start of those of the first `m`.
pub proof fn lemma_batch_prefix(insts: Seq<Instance>, i: int, m: int)
    requires
        0 <= i <= m <= insts.len(),
    ensures
        batch_cmds(insts, i).len() <= batch_cmds(insts, m).len(),
        forall|k: int| 0 <= k < batch_cmds(insts, i).len() ==> #[trigger] batch_cmds(insts, m)[k] == batch_cmds(insts, i)[k],
    decreases m - i,
{
    if i < m {
        lemma_batch_prefix(insts, i, m - 1);
    }
}

/// Each command of a batch is a command of one of its instances.
pub proof fn lemma_batch_cmd_from(insts: Seq<Instance>, n: int, j: int)
    requires
        0 <= n <= insts.len(),
        0 <= j < batch_cmds(insts, n).len(),
    ensures
        exists|i: int, k: int|
            0 <= i < n && 0 <= k < insts[i].cmds@.len() && #[trigger] insts[i].cmds@[k] == batch_cmds(insts, n)[j],
    decreases n,
{
    if n > 0 {
        let prev = batch_cmds(insts, n - 1);
        if j < prev.len() {
            lemma_batch_cmd_from(insts, n - 1, j);
            let (i, k) = choose|i: int, k: int|
                0 <= i < n - 1 && 0 <= k < insts[i].cmds@.len() && #[trigger] insts[i].cmds@[k] == prev[j];
            assert(batch_cmds(insts, n)[j] == prev[j]);
            assert(insts[i].cmds@[k] == batch_cmds(insts, n)[j]);
        } else {
            let k = j - prev.len();
            assert(insts[n - 1].cmds@[k] == batch_cmds(insts, n)[j]);
        }
    }
}

/// Each command of each instance stands in the batch.
pub proof fn lemma_cmd_in_batch(insts: Seq<Instance>, i: int, k: int)
    requires
        0 <= i < insts.len(),
        0 <= k < insts[i].cmds@.len(),
    ensures
        batch_cmds(insts, i).len() + k < batch_cmds(insts, insts.len() as int).len(),
        batch_cmds(insts, insts.len() as int)[batch_cmds(insts, i).len() + k] == insts[i].cmds@[k],
{
    lemma_batch_prefix(insts, i + 1, insts.len() as int);
    assert(batch_cmds(insts, i + 1) == batch_cmds(insts, i) + insts[i].cmds@);
}

/// Values stored for every read of a batch serve every batch made of some of its
/// instances.
pub proof fn lemma_reads_stored_sub(
    sel: Seq<Instance>,
    insts: Seq<Instance>,
    stored: Seq<(Vec<u8>, Option<Vec<u8>>)>,
)
    requires
        forall|i: int| 0 <= i < sel.len() ==> insts.contains(#[trigger] sel[i]),
        reads_stored(batch_cmds(insts, insts.len() as int), stored),
    ensures
        reads_stored(batch_cmds(sel, sel.len() as int), stored),
{
    let cs = batch_cmds(sel, sel.len() as int);
    let all = batch_cmds(insts, insts.len() as int);
    assert forall|j: int| 0 <= j < cs.len() && #[trigger] is_read(cs[j]) implies has_stored(stored, cs[j].key@) by {
        lemma_batch_cmd_from(sel, sel.len() as int, j);
        let (i, k) = choose|i: int, k: int|
            0 <= i < sel.len() && 0 <= k < sel[i].cmds@.len() && #[trigger] sel[i].cmds@[k] == cs[j];
        assert(insts.contains(sel[i]));
        let i2 = choose|i2: int| 0 <= i2 < insts.len() && insts[i2] == sel[i];
        lemma_cmd_in_batch(insts, i2, k);
        let j2 = batch_cmds(insts, i2).len() + k;
        assert(all[j2] == cs[j]);
        assert(is_read(all[j2]));
    }
}

/// Every instance has an id.
pub open spec fn all_have_ids(insts: Seq<Instance>) -> bool {
    forall|i: int| 0 <= i < insts.len() ==> (#[trigger] insts[i]).instance_id is Some
}

impl Replica {
    /// execute_commands runs the commands of `insts`, one instance after the other, given
    /// the value stored before the batch under each key the batch reads (`stored`, the
    /// first entry for a key winning). It returns the instance ids, in order, and for
    /// each instance what each of its commands returns: a read sees the last write to its
    /// key before it in the batch, else the stored value; anything else returns nothing.
    pub fn execute_commands(&self, insts: &Vec<Instance>, stored: &Vec<(Vec<u8>, Option<Vec<u8>>)>) -> (r: (
        Vec<InstanceId>,
        Vec<(InstanceId, Vec<ExecuteResult>)>,
    ))
        requires
            all_have_ids(insts@),
            reads_stored(batch_cmds(insts@, insts@.len() as int), stored@),
        ensures
            r.0@ == iids_of(insts@),
            r.1@.len() == insts@.len(),
            forall|i: int| 0 <= i < insts@.len() ==> (#[trigger] r.1@[i]).0 == insts@[i].instance_id->0
                && r.1@[i].1@.len() == insts@[i].cmds@.len()
                && forall|j: int| 0 <= j < insts@[i].cmds@.len() ==> result_view(#[trigger] r.1@[i].1@[j]) == command_result(
                    batch_cmds(insts@, insts@.len() as int),
                    batch_cmds(insts@, i).len() + j,
                    stored@,
                ),
    {
        let ghost n = insts@.len() as int;
        let ghost cs = batch_cmds(insts@, n);
        let mut ids: Vec<InstanceId> = Vec::new();
        let mut replies: Vec<(InstanceId, Vec<ExecuteResult>)> = Vec::new();
        let mut w: Vec<(Vec<u8>, Option<Vec<u8>>)> = Vec::new();
        let mut i: usize = 0;
        while i < insts.len()
            invariant
                n == insts@.len(),
                cs == batch_cmds(insts@, n),
                all_have_ids(insts@),
                reads_stored(cs, stored@),
                i <= n,
                ids@ == iids_of(insts@).take(i as int),
                replies@.len() == i,
                writes_view(w@) == writes_of(cs, batch_cmds(insts@, i as int).len() as int),
                forall|a: int| 0 <= a < i ==> (#[trigger] replies@[a]).0 == insts@[a].instance_id->0
                    && replies@[a].1@.len() == insts@[a].cmds@.len()
                    && forall|j: int| 0 <= j < insts@[a].cmds@.len() ==> result_view(#[trigger] replies@[a].1@[j]) == command_result(
                        cs,
                        batch_cmds(insts@, a).len() + j,
                        stored@,
                    ),
            decreases n - i,
        {
            let inst = &insts[i];
            let iid = inst.instance_id.unwrap();
            ids.push(iid);
            proof {
                lemma_batch_prefix(insts@, i + 1, n);
            }
            let ghost base = batch_cmds(insts@, i as int).len() as int;
            assert(batch_cmds(insts@, i + 1) == batch_cmds(insts@, i as int) + insts@[i as int].cmds@);
            let mut repl: Vec<ExecuteResult> = Vec::new();
            let mut j: usize = 0;
            while j < inst.cmds.len()
                invariant
                    n == insts@.len(),
                    i < n,
                    *inst == insts@[i as int],
                    cs == batch_cmds(insts@, n),
                    reads_stored(cs, stored@),
                    base == batch_cmds(insts@, i as int).len(),
                    base + inst.cmds@.len() <= cs.len(),
                    forall|k: int| 0 <= k < inst.cmds@.len() ==> #[trigger] cs[base + k] == inst.cmds@[k],
                    j <= inst.cmds@.len(),
                    repl@.len() == j,
                    writes_view(w@) == writes_of(cs, base + j),
                    forall|k: int| 0 <= k < j ==> result_view(#[trigger] repl@[k]) == command_result(cs, base + k, stored@),
                decreases inst.cmds@.len() - j,
            {
                let cmd = &inst.cmds[j];
                assert(cs[base + j] == *cmd);
                proof {
                    lemma_writes_of(cs, base + j, cmd.key@);
                }
                if cmd.op == 1 {
                    let v = match find_written(&w, cmd.key.as_slice()) {
                        Some(v) => v,
                        None => {
                            assert(is_read(cs[base + j]));
                            assert(has_stored(stored@, cs[base + j].key@));
                            find_stored(stored, cmd.key.as_slice())
                        },
                    };
                    repl.push(ExecuteResult::SuccessWithVal(v));
                } else {
                    if cmd.op != 0 {
                        let v = if cmd.op == 3 {
                            None
                        } else {
                            Some(slice_to_vec(cmd.value.as_slice()))
                        };
                        let ghost before = w@;
                        w.insert(0, (slice_to_vec(cmd.key.as_slice()), v));
                        assert(writes_view(w@) =~= seq![(cmd.key@, written(*cmd))] + writes_view(before));
                    }
                    repl.push(ExecuteResult::Success);
                }
                assert(writes_view(w@) == writes_of(cs, base + j + 1));
                j = j + 1;
            }
            replies.push((iid, repl));
            assert(iids_of(insts@).take(i + 1) =~= iids_of(insts@).take(i as int).push(iid));
            i = i + 1;
        }
        assert(iids_of(insts@).take(i as int) =~= iids_of(insts@));
        (ids, replies)
    }
}

/// The keys the first `n` commands of a batch read, in order, once per read.
pub open spec fn read_keys(cs: Seq<Command>, n: int) -> Seq<Seq<u8>>
    decreases n,
{
    if n <= 0 {
        Seq::empty()
    } else if is_read(cs[n - 1]) {
        read_keys(cs, n - 1).push(cs[n - 1].key@)
    } else {
        read_keys(cs, n - 1)
    }
}

/// The key of every read among the first `n` commands is among the keys they read.
pub proof fn lemma_read_keys_cover(cs: Seq<Command>, n: int, j: int)
    requires
        0 <= j < n <= cs.len(),
        is_read(cs[j]),
    ensures
        read_keys(cs, n).contains(cs[j].key@),
    decreases n,
{
    if j == n - 1 {
        assert(read_keys(cs, n).last() == cs[j].key@);
    } else {
        lemma_read_keys_cover(cs, n - 1, j);
        let k = choose|k: int| 0 <= k < read_keys(cs, n - 1).len() && #[trigger] read_keys(cs, n - 1)[k] == cs[j].key@;
        if is_read(cs[n - 1]) {
            assert(read_keys(cs, n)[k] == cs[j].key@);
        }
    }
}

/// The keys of a list of byte strings, as plain values.
pub open spec fn keys_view(ks: Seq<Vec<u8>>) -> Seq<Seq<u8>> {
    ks.map_values(|k: Vec<u8>| k@)
}

/// keys_to_read returns the keys the commands of `insts` read, one instance after the
/// other, once per read: what must be looked up in storage before the batch runs.
pub fn keys_to_read(insts: &Vec<Instance>) -> (r: Vec<Vec<u8>>)
    ensures
        keys_view(r@) == read_keys(batch_cmds(insts@, insts@.len() as int), batch_cmds(insts@, insts@.len() as int).len() as int),
        forall|j: int| 0 <= j < batch_cmds(insts@, insts@.len() as int).len() && #[trigger] is_read(batch_cmds(insts@, insts@.len() as int)[j])
            ==> keys_view(r@).contains(batch_cmds(insts@, insts@.len() as int)[j].key@),
{
    let ghost n = insts@.len() as int;
    let ghost cs = batch_cmds(insts@, n);
    let mut r: Vec<Vec<u8>> = Vec::new();
    let mut i: usize = 0;
    proof {
        lemma_batch_prefix(insts@, 0, n);
    }
    while i < insts.len()
        invariant
            n == insts@.len(),
            cs == batch_cmds(insts@, n),
            i <= n,
            batch_cmds(insts@, i as int).len() <= cs.len(),
            keys_view(r@) == read_keys(cs, batch_cmds(insts@, i as int).len() as int),
        decreases n - i,
    {
        let inst = &insts[i];
        proof {
            lemma_batch_prefix(insts@, i + 1, n);
        }
        let ghost base = batch_cmds(insts@, i as int).len() as int;
        assert(batch_cmds(insts@, i + 1) == batch_cmds(insts@, i as int) + insts@[i as int].cmds@);
        let mut j: usize = 0;
        while j < inst.cmds.len()
            invariant
                n == insts@.len(),
                i < n,
                *inst == insts@[i as int],
                cs == batch_cmds(insts@, n),
                base == batch_cmds(insts@, i as int).len(),
                base + inst.cmds@.len() <= cs.len(),
                forall|k: int| 0 <= k < inst.cmds@.len() ==> #[trigger] cs[base + k] == inst.cmds@[k],
                j <= inst.cmds@.len(),
                keys_view(r@) == read_keys(cs, base + j),
            decreases inst.cmds@.len() - j,
        {
            let cmd = &inst.cmds[j];
            assert(cs[base + j] == *cmd);
            if cmd.op == 1 {
                let ghost before = r@;
                r.push(slice_to_vec(cmd.key.as_slice()));
                assert(keys_view(r@) =~= keys_view(before).push(cmd.key@));
            }
            j = j + 1;
        }
        i = i + 1;
    }
    proof {
        assert forall|j: int| 0 <= j < cs.len() && #[trigger] is_read(cs[j]) implies keys_view(r@).contains(cs[j].key@) by {
            lemma_read_keys_cover(cs, cs.len() as int, j);
        }
    }
    r
}

impl Replica {
    /// execute_instances executes, in instance order, the instances of `insts` that go
    /// first (all of them when none does; instances with the same id in the order
    /// `exec_candidates` takes them), given the value stored before under each key
    /// the commands of `insts` read. It returns the instances executed, their ids, and
    /// what each of their commands returns. Every instance must have an id and
    /// dependencies. The write batch that records the execution is that of
    /// `execution_entries` on the instances executed.
    pub fn execute_instances(&self, insts: Vec<Instance>, stored: &Vec<(Vec<u8>, Option<Vec<u8>>)>) -> (r: (
        Vec<Instance>,
        Vec<InstanceId>,
        Vec<(InstanceId, Vec<ExecuteResult>)>,
    ))
        requires
            all_complete(insts@),
            reads_stored(batch_cmds(insts@, insts@.len() as int), stored@),
        ensures
            sorted_by_iid(r.0@),
            r.0@.to_multiset() == executable(insts@),
            forall|y: Option<InstanceId>|
                #[trigger] r.0@.filter(id_is(y)) == exec_candidates(insts@).filter(id_is(y)),
            r.1@ == iids_of(r.0@),
            r.2@.len() == r.0@.len(),
            forall|i: int| 0 <= i < r.0@.len() ==> (#[trigger] r.2@[i]).0 == r.0@[i].instance_id->0
                && r.2@[i].1@.len() == r.0@[i].cmds@.len()
                && forall|j: int| 0 <= j < r.0@[i].cmds@.len() ==> result_view(#[trigger] r.2@[i].1@[j]) == command_result(
                    batch_cmds(r.0@, r.0@.len() as int),
                    batch_cmds(r.0@, i).len() + j,
                    stored@,
                ),
    {
        broadcast use vstd::seq_lib::group_to_multiset_ensures;

        let ghost all = insts@;
        proof {
            assert forall|i: int| 0 <= i < insts@.len() implies (#[trigger] insts@[i]).deps is Some by {}
        }
        let sel = select_executable(insts);
        proof {
            assert forall|i: int| 0 <= i < sel@.len() implies all.contains(#[trigger] sel@[i]) by {
                assert(sel@.to_multiset().count(sel@[i]) > 0);
                lemma_executable_from_insts(all, sel@[i]);
            }
            assert forall|i: int| 0 <= i < sel@.len() implies (#[trigger] sel@[i]).instance_id is Some by {
                assert(all.contains(sel@[i]));
            }
            lemma_reads_stored_sub(sel@, all, stored@);
        }
        let (ids, replies) = self.execute_commands(&sel, stored);
        (sel, ids, replies)
    }
}

/// A read returns what the last write to its key before it in the batch wrote.
pub proof fn lemma_read_after_write(cs: Seq<Command>, p: int, q: int, stored: Seq<(Vec<u8>, Option<Vec<u8>>)>)
    requires
        0 <= p < q < cs.len(),
        is_write(cs[p]),
        is_read(cs[q]),
        cs[p].key@ == cs[q].key@,
        forall|k: int| p < k < q ==> !(is_write(#[trigger] cs[k]) && cs[k].key@ == cs[q].key@),
    ensures
        command_result(cs, q, stored) == Some(written(cs[p])),
{
    lemma_last_write_from(cs, p, q, cs[q].key@);
}

/// The last write to `key` among the first `n` commands is the one at `p` when none
/// after it writes the key.
pub proof fn lemma_last_write_from(cs: Seq<Command>, p: int, n: int, key: Seq<u8>)
    requires
        0 <= p < n <= cs.len(),
        is_write(cs[p]),
        cs[p].key@ == key,
        forall|k: int| p < k < n ==> !(is_write(#[trigger] cs[k]) && cs[k].key@ == key),
    ensures
        last_write(cs, n, key) == Some(written(cs[p])),
    decreases n - p,
{
    if n - 1 > p {
        assert(!(is_write(cs[n - 1]) && cs[n - 1].key@ == key));
        lemma_last_write_from(cs, p, n - 1, key);
    }
}

/// A read with no write to its key before it in the batch returns the stored value.
pub proof fn lemma_read_stored(cs: Seq<Command>, q: int, stored: Seq<(Vec<u8>, Option<Vec<u8>>)>)
    requires
        0 <= q < cs.len(),
        is_read(cs[q]),
        forall|k: int| 0 <= k < q ==> !(is_write(#[trigger] cs[k]) && cs[k].key@ == cs[q].key@),
    ensures
        command_result(cs, q, stored) == Some(stored_value(stored, cs[q].key@)),
{
    lemma_no_write(cs, q, cs[q].key@);
}

/// Without a write to `key` among the first `n` commands there is no last write.
pub proof fn lemma_no_write(cs: Seq<Command>, n: int, key: Seq<u8>)
    requires
        0 <= n <= cs.len(),
        forall|k: int| 0 <= k < n ==> !(is_write(#[trigger] cs[k]) && cs[k].key@ == key),
    ensures
        last_write(cs, n, key) is None,
    decreases n,
{
    if n > 0 {
        assert(!(is_write(cs[n - 1]) && cs[n - 1].key@ == key));
        lemma_no_write(cs, n - 1, key);
    }
}

/// Where execution resumes for each replica that has instances: what it executed up to
/// (`(rid, -1)` when nothing), and, when it has more, the next instance to execute.
pub open spec fn exec_targets(
    rids: Seq<ReplicaId>,
    exec_refs: Seq<Option<InstanceId>>,
    max_refs: Seq<Option<InstanceId>>,
    n: int,
) -> (Seq<InstanceId>, Seq<InstanceId>)
    decreases n,
{
    if n <= 0 {
        (Seq::empty(), Seq::empty())
    } else {
        let prev = exec_targets(rids, exec_refs, max_refs, n - 1);
        let rid = rids[n - 1];
        match max_refs[n - 1] {
            None => prev,
            Some(m) => {
                let e = match exec_refs[n - 1] {
                    Some(e) => e,
                    None => InstanceId { replica_id: rid, idx: -1i64 },
                };
                (
                    prev.0.push(e),
                    if iid_lt(e, m) {
                        prev.1.push(InstanceId { replica_id: rid, idx: (e.idx + 1) as i64 })
                    } else {
                        prev.1
                    },
                )
            },
        }
    }
}

/// The next instance to execute of a replica can be named.
pub open spec fn next_fits(exec_refs: Seq<Option<InstanceId>>, max_refs: Seq<Option<InstanceId>>) -> bool {
    forall|i: int| 0 <= i < exec_refs.len() ==> match (#[trigger] exec_refs[i], max_refs[i]) {
        (Some(e), Some(m)) => iid_lt(e, m) ==> e.idx < i64::MAX,
        _ => true,
    }
}

/// What to do after looking at the lowest unexecuted instance of each replica.
#[derive(Debug)]
pub enum ExecAction {
    /// Nothing is committed yet.
    Idle,
    /// Recover these instances first.
    Recover(InstanceIdVec),
    /// Execute these instances: the lowest committed one of each replica.
    Execute(Vec<Instance>),
}

impl Replica {
    /// exec_targets returns, for the replicas of the group that have instances (those
    /// with a highest instance in `max_refs`), what each executed up to (`exec_refs`,
    /// `(rid, -1)` when nothing), and the next instance to execute of each that has more.
    pub fn exec_targets(&self, exec_refs: &[Option<InstanceId>], max_refs: &[Option<InstanceId>]) -> (r: (
        InstanceIdVec,
        InstanceIdVec,
    ))
        requires
            exec_refs@.len() == self.group_replica_ids@.len(),
            max_refs@.len() == self.group_replica_ids@.len(),
            next_fits(exec_refs@, max_refs@),
        ensures
            (r.0@, r.1@) == exec_targets(self.group_replica_ids@, exec_refs@, max_refs@, self.group_replica_ids@.len() as int),
    {
        let rids = &self.group_replica_ids;
        let mut exec_up_to = InstanceIdVec { ids: Vec::new() };
        let mut smallest = InstanceIdVec { ids: Vec::new() };
        let mut i: usize = 0;
        while i < rids.len()
            invariant
                rids@ == self.group_replica_ids@,
                exec_refs@.len() == rids@.len(),
                max_refs@.len() == rids@.len(),
                next_fits(exec_refs@, max_refs@),
                i <= rids@.len(),
                (exec_up_to@, smallest@) == exec_targets(rids@, exec_refs@, max_refs@, i as int),
            decreases rids@.len() - i,
        {
            let rid = rids[i];
            match max_refs[i] {
                None => {},
                Some(m) => {
                    let e = match exec_refs[i] {
                        Some(e) => e,
                        None => InstanceId { replica_id: rid, idx: -1 },
                    };
                    exec_up_to.ids.push(e);
                    if e.precedes(&m) {
                        smallest.ids.push(InstanceId { replica_id: rid, idx: e.idx + 1 });
                    }
                },
            }
            i = i + 1;
        }
        (exec_up_to, smallest)
    }

    /// decide_execution decides what to do with the lowest unexecuted committed instance
    /// of some replicas (`insts`), given what each replica executed up to: nothing when
    /// there is none; when some replica of the group lacks one, recover the instances they
    /// depend on that this replica does not have, if any; else execute them (see
    /// `execute_instances`). Every instance must have an id and dependencies.
    pub fn decide_execution(&self, insts: Vec<Instance>, exec_up_to: &InstanceIdVec) -> (r: ExecAction)
        requires
            all_complete(insts@),
        ensures
            insts@.len() == 0 ==> r is Idle,
            insts@.len() > 0 && insts@.len() < self.group_replica_ids@.len()
                && missing_iids(iids_of(insts@), exec_up_to@, all_deps(insts@)).len() > 0
                ==> r is Recover && r->Recover_0@ == missing_iids(iids_of(insts@), exec_up_to@, all_deps(insts@)),
            insts@.len() > 0 && (insts@.len() >= self.group_replica_ids@.len()
                || missing_iids(iids_of(insts@), exec_up_to@, all_deps(insts@)).len() == 0)
                ==> r == ExecAction::Execute(insts),
    {
        if insts.len() == 0 {
            return ExecAction::Idle;
        }
        if insts.len() < self.group_replica_ids.len() {
            match find_missing_insts(&insts, exec_up_to) {
                Some(iids) => {
                    return ExecAction::Recover(iids);
                },
                None => {},
            }
        }
        ExecAction::Execute(insts)
    }
}

/// WriteEntry is one change to storage: a user record set under a key, a user key
/// deleted, an instance stored under its key, the instance a replica has executed up to
/// (its "exec" reference) set, or nothing.
#[derive(Debug)]
pub enum WriteEntry {
    Nil,
    SetRecord(Vec<u8>, Record),
    DeleteRecord(Vec<u8>),
    SetInstance(Vec<u8>, Instance),
    SetExecRef(InstanceId),
}

/// What a change to storage holds, as plain values.
pub enum EntryView {
    Nil,
    SetRecord(Seq<u8>, RecordView),
    DeleteRecord(Seq<u8>),
    SetInstance(Seq<u8>, InstanceView),
    SetExecRef(InstanceId),
}

/// What a change to storage holds, as plain values.
pub open spec fn entry_view(e: WriteEntry) -> EntryView {
    match e {
        WriteEntry::Nil => EntryView::Nil,
        WriteEntry::SetRecord(k, v) => EntryView::SetRecord(k@, v@),
        WriteEntry::DeleteRecord(k) => EntryView::DeleteRecord(k@),
        WriteEntry::SetInstance(k, i) => EntryView::SetInstance(k@, inst_view(i)),
        WriteEntry::SetExecRef(iid) => EntryView::SetExecRef(iid),
    }
}

/// The changes to storage, as plain values.
pub open spec fn entries_view(es: Seq<WriteEntry>) -> Seq<EntryView> {
    es.map_values(|e: WriteEntry| entry_view(e))
}

/// The change a command makes to the user records: a set stores its value under its
/// key, a delete removes its key, anything else changes nothing.
pub open spec fn cmd_entry(c: Command) -> EntryView {
    if c.op == 2 {
        EntryView::SetRecord(c.key@, RecordView::Bytes(c.value@))
    } else if c.op == 3 {
        EntryView::DeleteRecord(c.key@)
    } else {
        EntryView::Nil
    }
}

/// What an instance holds once executed: the same, marked executed.
pub open spec fn executed_view(i: Instance) -> InstanceView {
    let v = inst_view(i);
    (v.0, v.1, v.2, v.3, v.4, v.5, true)
}

/// The changes that running the first `n` instances makes, one instance after the
/// other: the change of each of its commands, then its replica's "exec" reference set
/// to it.
pub open spec fn run_entries(insts: Seq<Instance>, n: int) -> Seq<EntryView>
    decreases n,
{
    if n <= 0 {
        Seq::empty()
    } else {
        run_entries(insts, n - 1) + insts[n - 1].cmds@.map_values(|c: Command| cmd_entry(c))
            + seq![EntryView::SetExecRef(insts[n - 1].instance_id->0)]
    }
}

/// The changes that store each instance, marked executed, under its key, the last
/// instance first.
pub open spec fn executed_entries(insts: Seq<Instance>) -> Seq<EntryView> {
    Seq::new(
        insts.len(),
        |k: int|
            EntryView::SetInstance(
                instance_key(insts[insts.len() - 1 - k].instance_id->0),
                executed_view(insts[insts.len() - 1 - k]),
            ),
    )
}

/// The write batch that records the execution of `insts`.
pub open spec fn execution_batch(insts: Seq<Instance>) -> Seq<EntryView> {
    run_entries(insts, insts.len() as int) + executed_entries(insts)
}

/// The batch that records an execution sets the "exec" reference of each executed
/// instance's replica to it, and stores the instance marked executed under its key.
pub proof fn lemma_execution_records(insts: Seq<Instance>, i: int)
    requires
        0 <= i < insts.len(),
    ensures
        execution_batch(insts).contains(EntryView::SetExecRef(insts[i].instance_id->0)),
        execution_batch(insts).contains(
            EntryView::SetInstance(instance_key(insts[i].instance_id->0), executed_view(insts[i])),
        ),
        executed_view(insts[i]).6,
{
    lemma_run_entries_ref(insts, insts.len() as int, i);
    let run = run_entries(insts, insts.len() as int);
    let ex = executed_entries(insts);
    let k = choose|k: int| 0 <= k < run.len() && run[k] == EntryView::SetExecRef(insts[i].instance_id->0);
    assert((run + ex)[k] == run[k]);
    let m = insts.len() - 1 - i;
    assert(ex[m] == EntryView::SetInstance(instance_key(insts[i].instance_id->0), executed_view(insts[i])));
    assert((run + ex)[run.len() + m] == ex[m]);
}

/// Running the first `n` instances sets the "exec" reference to each of them.
proof fn lemma_run_entries_ref(insts: Seq<Instance>, n: int, i: int)
    requires
        0 <= i < n <= insts.len(),
    ensures
        exists|k: int|
            0 <= k < run_entries(insts, n).len() && run_entries(insts, n)[k] == EntryView::SetExecRef(
                insts[i].instance_id->0,
            ),
    decreases n,
{
    let prev = run_entries(insts, n - 1);
    let mid = prev + insts[n - 1].cmds@.map_values(|c: Command| cmd_entry(c));
    let e = EntryView::SetExecRef(insts[n - 1].instance_id->0);
    assert(run_entries(insts, n) == mid + seq![e]);
    if i == n - 1 {
        assert(run_entries(insts, n)[mid.len() as int] == e);
    } else {
        lemma_run_entries_ref(insts, n - 1, i);
        let k = choose|k: int| 0 <= k < prev.len() && prev[k] == EntryView::SetExecRef(insts[i].instance_id->0);
        assert(run_entries(insts, n)[k] == prev[k]);
    }
}

/// Every instance has an id, with an index that is not negative.
pub open spec fn all_keyed(insts: Seq<Instance>) -> bool {
    forall|i: int| 0 <= i < insts.len() ==> ((#[trigger] insts[i]).instance_id matches Some(iid) && iid.idx >= 0)
}

/// execution_entries returns the write batch that records the execution of `insts`:
/// for each instance in turn the changes its commands make and its replica's "exec"
/// reference set to it; then each instance, marked executed, stored under its key, the
/// last one first. Every instance must have an id with an index that is not negative.
pub fn execution_entries(insts: &Vec<Instance>) -> (r: Vec<WriteEntry>)
    requires
        all_keyed(insts@),
    ensures
        entries_view(r@) == execution_batch(insts@),
{
    let mut r: Vec<WriteEntry> = Vec::new();
    let mut i: usize = 0;
    while i < insts.len()
        invariant
            i <= insts@.len(),
            all_keyed(insts@),
            entries_view(r@) == run_entries(insts@, i as int),
        decreases insts@.len() - i,
    {
        let inst = &insts[i];
        let ghost base = entries_view(r@);
        let mut j: usize = 0;
        while j < inst.cmds.len()
            invariant
                j <= inst.cmds@.len(),
                i < insts@.len(),
                *inst == insts@[i as int],
                base == run_entries(insts@, i as int),
                entries_view(r@) == base + inst.cmds@.take(j as int).map_values(|c: Command| cmd_entry(c)),
            decreases inst.cmds@.len() - j,
        {
            let e = make_cmd_entry(&inst.cmds[j]);
            let ghost before = r@;
            r.push(e);
            proof {
                assert(entry_view(e) == cmd_entry(inst.cmds@[j as int]));
                assert(inst.cmds@.take(j + 1) =~= inst.cmds@.take(j as int).push(inst.cmds@[j as int]));
                assert(entries_view(r@) =~= entries_view(before).push(entry_view(e)));
                assert(inst.cmds@.take(j + 1).map_values(|c: Command| cmd_entry(c)) =~= inst.cmds@.take(
                    j as int,
                ).map_values(|c: Command| cmd_entry(c)).push(cmd_entry(inst.cmds@[j as int])));
            }
            j = j + 1;
        }
        let iid = inst.instance_id.unwrap();
        let ghost before = r@;
        r.push(WriteEntry::SetExecRef(iid));
        proof {
            assert(inst.cmds@.take(j as int) =~= inst.cmds@);
            assert(entries_view(r@) =~= entries_view(before).push(EntryView::SetExecRef(iid)));
            assert(entries_view(r@) =~= run_entries(insts@, i + 1));
        }
        i = i + 1;
    }
    let ghost ran = entries_view(r@);
    let n = insts.len();
    let mut k: usize = 0;
    while k < n
        invariant
            n == insts@.len(),
            k <= n,
            all_keyed(insts@),
            ran == run_entries(insts@, n as int),
            entries_view(r@) == ran + executed_entries(insts@).take(k as int),
        decreases n - k,
    {
        let inst = &insts[n - 1 - k];
        let done = Instance {
            instance_id: inst.instance_id,
            ballot: inst.ballot,
            cmds: crate::command::copy_cmds(inst.cmds.as_slice()),
            deps: crate::qpaxos::message::copy_opt_deps(&inst.deps),
            vballot: inst.vballot,
            committed: inst.committed,
            executed: true,
        };
        let e = make_inst_entry(done);
        let ghost before = r@;
        r.push(e);
        proof {
            assert(entry_view(e) == executed_entries(insts@)[k as int]);
            assert(executed_entries(insts@).take(k + 1) =~= executed_entries(insts@).take(k as int).push(
                executed_entries(insts@)[k as int],
            ));
            assert(entries_view(r@) =~= entries_view(before).push(entry_view(e)));
        }
        k = k + 1;
    }
    assert(executed_entries(insts@).take(n as int) =~= executed_entries(insts@));
    r
}

/// make_cmd_entry returns the change a command makes to the user records: a set stores
/// its value under its key, a delete removes its key, and anything else changes nothing.
pub fn make_cmd_entry(c: &Command) -> (e: WriteEntry)
    ensures
        match e {
            WriteEntry::SetRecord(k, v) => c.op == 2 && k@ == c.key@ && v@ == RecordView::Bytes(c.value@),
            WriteEntry::DeleteRecord(k) => c.op == 3 && k@ == c.key@,
            WriteEntry::Nil => c.op != 2 && c.op != 3,
            WriteEntry::SetInstance(_, _) => false,
            WriteEntry::SetExecRef(_) => false,
        },
{
    if c.op == 2 {
        let v = Record::from(slice_to_vec(c.value.as_slice()));
        WriteEntry::SetRecord(slice_to_vec(c.key.as_slice()), v)
    } else if c.op == 3 {
        WriteEntry::DeleteRecord(slice_to_vec(c.key.as_slice()))
    } else {
        WriteEntry::Nil
    }
}

/// make_inst_entry returns the change that stores an instance under its key; the
/// instance must have an id, with an index that is not negative.
pub fn make_inst_entry(inst: Instance) -> (e: WriteEntry)
    requires
        inst.instance_id matches Some(iid) && iid.idx >= 0,
    ensures
        e matches WriteEntry::SetInstance(k, i) && k@ == instance_key(inst.instance_id->0) && i == inst,
{
    let k = inst.to_key();
    WriteEntry::SetInstance(k, inst)
}

/// The position of the first stalled instance, from the `k`-th on, that is `iid`.
pub open spec fn stalled_at(p: Seq<(InstanceId, u64)>, iid: InstanceId, k: int) -> Option<int>
    decreases p.len() - k,
{
    if k < 0 || k >= p.len() {
        None
    } else if p[k].0 == iid {
        Some(k)
    } else {
        stalled_at(p, iid, k + 1)
    }
}

/// The position of the first stalled instance, from the `k`-th on, of replica `rid`.
pub open spec fn stalled_of(p: Seq<(InstanceId, u64)>, rid: ReplicaId, k: int) -> Option<int>
    decreases p.len() - k,
{
    if k < 0 || k >= p.len() {
        None
    } else if p[k].0.replica_id == rid {
        Some(k)
    } else {
        stalled_of(p, rid, k + 1)
    }
}

/// What looking at an uncommitted instance `iid` at time `now` does to the stalled
/// instances (at most one per replica) and whether it timed out: a known one times out
/// once `timeout` milliseconds have passed since it was first seen; an unknown one
/// replaces the one of its replica, or is added, seen now.
pub open spec fn timeout_step(p: Seq<(InstanceId, u64)>, iid: InstanceId, now: u64, timeout: i32) -> (bool, Seq<(InstanceId, u64)>) {
    match stalled_at(p, iid, 0) {
        Some(k) => (((now - p[k].1) as i32) >= timeout, p),
        None => match stalled_of(p, iid.replica_id, 0) {
            Some(k) => (false, p.update(k, (iid, now))),
            None => (false, p.push((iid, now))),
        },
    }
}

/// No two stalled instances belong to the same replica.
pub open spec fn one_per_replica(p: Seq<(InstanceId, u64)>) -> bool {
    forall|i: int, j: int| 0 <= i < j < p.len() ==> (#[trigger] p[i]).0.replica_id != (#[trigger] p[j]).0.replica_id
}

/// The first stalled instance of replica `rid` from the `k`-th on is one of that
/// replica; without one, none from the `k`-th on is.
pub proof fn lemma_stalled_of(p: Seq<(InstanceId, u64)>, rid: ReplicaId, k: int)
    requires
        0 <= k,
    ensures
        stalled_of(p, rid, k) matches Some(j) ==> k <= j < p.len() && p[j].0.replica_id == rid,
        stalled_of(p, rid, k) is None ==> forall|j: int| k <= j < p.len() ==> (#[trigger] p[j]).0.replica_id != rid,
    decreases p.len() - k,
{
    if k < p.len() && p[k].0.replica_id != rid {
        lemma_stalled_of(p, rid, k + 1);
    }
}

/// Looking at an uncommitted instance keeps at most one stalled instance per replica.
pub proof fn lemma_timeout_one_per_replica(p: Seq<(InstanceId, u64)>, iid: InstanceId, now: u64, timeout: i32)
    requires
        one_per_replica(p),
    ensures
        one_per_replica(timeout_step(p, iid, now, timeout).1),
{
    lemma_stalled_of(p, iid.replica_id, 0);
    let q = timeout_step(p, iid, now, timeout).1;
    if stalled_at(p, iid, 0) is None {
        match stalled_of(p, iid.replica_id, 0) {
            Some(k) => {
                assert forall|i: int, j: int| 0 <= i < j < q.len() implies (#[trigger] q[i]).0.replica_id != (#[trigger] q[j]).0.replica_id by {
                    assert(p[i].0.replica_id != p[j].0.replica_id);
                }
            },
            None => {
                assert forall|i: int, j: int| 0 <= i < j < q.len() implies (#[trigger] q[i]).0.replica_id != (#[trigger] q[j]).0.replica_id by {
                    if j < p.len() {
                        assert(p[i].0.replica_id != p[j].0.replica_id);
                    } else {
                        assert(p[i].0.replica_id != iid.replica_id);
                    }
                }
            },
        }
    }
}

/// Every stalled instance was first seen no later than `now`.
pub open spec fn seen_by(p: Seq<(InstanceId, u64)>, now: u64) -> bool {
    forall|k: int| 0 <= k < p.len() ==> (#[trigger] p[k]).1 <= now
}

/// If `iid` is stalled, it was first seen no later than `now`.
pub open spec fn seen_in_time(p: Seq<(InstanceId, u64)>, iid: InstanceId, now: u64) -> bool {
    stalled_at(p, iid, 0) matches Some(k) ==> p[k].1 <= now
}

/// find_stalled returns the position of the first entry of `p` for `iid` itself, or,
/// with `by_replica`, for any instance of its replica.
fn find_stalled(p: &Vec<(InstanceId, u64)>, iid: InstanceId, by_replica: bool) -> (r: Option<usize>)
    ensures
        !by_replica ==> (r matches Some(k) ==> stalled_at(p@, iid, 0) == Some(k as int)),
        !by_replica ==> (r is None ==> stalled_at(p@, iid, 0) is None),
        by_replica ==> (r matches Some(k) ==> stalled_of(p@, iid.replica_id, 0) == Some(k as int)),
        by_replica ==> (r is None ==> stalled_of(p@, iid.replica_id, 0) is None),
        r matches Some(k) ==> k < p@.len(),
{
    let mut k: usize = 0;
    while k < p.len()
        invariant
            k <= p@.len(),
            !by_replica ==> stalled_at(p@, iid, 0) == stalled_at(p@, iid, k as int),
            by_replica ==> stalled_of(p@, iid.replica_id, 0) == stalled_of(p@, iid.replica_id, k as int),
        decreases p@.len() - k,
    {
        let found = if by_replica {
            p[k].0.replica_id == iid.replica_id
        } else {
            p[k].0 == iid
        };
        if found {
            return Some(k);
        }
        k = k + 1;
    }
    None
}

impl Replica {
    /// timeout_to_committed looks at instance `iid`, not committed, at time `now` (in
    /// milliseconds): it tells whether the instance has stayed so for the replica's
    /// `committed_timeout` since first seen, and otherwise keeps it as the stalled
    /// instance of its replica in `problems`.
    pub fn timeout_to_committed(&self, problems: &mut Vec<(InstanceId, u64)>, iid: InstanceId, now: u64) -> (r: bool)
        requires
            seen_in_time(old(problems)@, iid, now),
        ensures
            (r, final(problems)@) == timeout_step(old(problems)@, iid, now, self.committed_timeout),
            seen_by(old(problems)@, now) ==> seen_by(final(problems)@, now),
    {
        match find_stalled(problems, iid, false) {
            Some(k) => {
                let dt = now - problems[k].1;
                (dt as i32) >= self.committed_timeout
            },
            None => {
                match find_stalled(problems, iid, true) {
                    Some(k) => {
                        problems.set(k, (iid, now));
                    },
                    None => {
                        problems.push((iid, now));
                    },
                }
                false
            },
        }
    }
}

/// What looking at the `n` first instances to execute gives: those committed, the ones
/// to recover (not found, or stalled past the timeout), and the stalled instances then.
pub open spec fn committed_step(
    iids: Seq<InstanceId>,
    found: Seq<Option<Instance>>,
    p: Seq<(InstanceId, u64)>,
    now: u64,
    timeout: i32,
    n: int,
) -> (Seq<Instance>, Seq<InstanceId>, Seq<(InstanceId, u64)>)
    decreases n,
{
    if n <= 0 {
        (Seq::empty(), Seq::empty(), p)
    } else {
        let (done, rec, q) = committed_step(iids, found, p, now, timeout, n - 1);
        let iid = iids[n - 1];
        match found[n - 1] {
            None => (done, rec.push(iid), q),
            Some(inst) => if inst.committed {
                (done.push(inst), rec, q)
            } else {
                let (late, q2) = timeout_step(q, iid, now, timeout);
                (done, if late {
                    rec.push(iid)
                } else {
                    rec
                }, q2)
            },
        }
    }
}

/// Looking at the next instances to execute keeps at most one stalled instance per
/// replica.
pub proof fn lemma_committed_one_per_replica(
    iids: Seq<InstanceId>,
    found: Seq<Option<Instance>>,
    p: Seq<(InstanceId, u64)>,
    now: u64,
    timeout: i32,
    n: int,
)
    requires
        one_per_replica(p),
    ensures
        one_per_replica(committed_step(iids, found, p, now, timeout, n).2),
    decreases n,
{
    if n > 0 {
        lemma_committed_one_per_replica(iids, found, p, now, timeout, n - 1);
        let q = committed_step(iids, found, p, now, timeout, n - 1).2;
        lemma_timeout_one_per_replica(q, iids[n - 1], now, timeout);
    }
}

/// Every uncommitted instance among the first `n` looked at, if stalled, was first seen
/// no later than `now`.
pub open spec fn times_fit(
    iids: Seq<InstanceId>,
    found: Seq<Option<Instance>>,
    p: Seq<(InstanceId, u64)>,
    now: u64,
    timeout: i32,
    n: int,
) -> bool
    decreases n,
{
    if n <= 0 {
        true
    } else {
        &&& times_fit(iids, found, p, now, timeout, n - 1)
        &&& match found[n - 1] {
            Some(inst) => !inst.committed ==> seen_in_time(
                committed_step(iids, found, p, now, timeout, n - 1).2,
                iids[n - 1],
                now,
            ),
            None => true,
        }
    }
}

/// Times that fit for the first `n` instances fit for the first `m`.
pub proof fn lemma_times_fit_prefix(
    iids: Seq<InstanceId>,
    found: Seq<Option<Instance>>,
    p: Seq<(InstanceId, u64)>,
    now: u64,
    timeout: i32,
    m: int,
    n: int,
)
    requires
        0 <= m <= n,
        times_fit(iids, found, p, now, timeout, n),
    ensures
        times_fit(iids, found, p, now, timeout, m),
    decreases n - m,
{
    if m < n {
        lemma_times_fit_prefix(iids, found, p, now, timeout, m, n - 1);
    }
}

impl Replica {
    /// get_insts_if_committed looks at the instances to execute next, `inst_ids`, as read
    /// from storage (`found[i]` for `inst_ids[i]`, `None` when absent), at time `now`: it
    /// returns the committed ones and the ids to recover, those absent or stalled past the
    /// timeout, keeping the stalled ones in `problems`.
    pub fn get_insts_if_committed(
        &self,
        inst_ids: &Vec<InstanceId>,
        found: Vec<Option<Instance>>,
        problems: &mut Vec<(InstanceId, u64)>,
        now: u64,
    ) -> (r: (Vec<Instance>, InstanceIdVec))
        requires
            found@.len() == inst_ids@.len(),
            times_fit(inst_ids@, found@, old(problems)@, now, self.committed_timeout, inst_ids@.len() as int),
        ensures
            ({
                let (done, rec, q) = committed_step(inst_ids@, found@, old(problems)@, now, self.committed_timeout, inst_ids@.len() as int);
                &&& r.0@ == done
                &&& r.1@ == rec
                &&& final(problems)@ == q
            }),
            seen_by(old(problems)@, now) ==> seen_by(final(problems)@, now),
    {
        let mut done: Vec<Instance> = Vec::new();
        let mut rec = InstanceIdVec { ids: Vec::new() };
        let ghost p0 = problems@;
        let mut found = found;
        let ghost fs = found@;
        let mut i: usize = 0;
        while i < inst_ids.len()
            invariant
                fs.len() == inst_ids@.len(),
                found@ == fs.skip(i as int),
                i <= inst_ids@.len(),
                p0 == old(problems)@,
                times_fit(inst_ids@, fs, p0, now, self.committed_timeout, inst_ids@.len() as int),
                seen_by(p0, now) ==> seen_by(problems@, now),
                (done@, rec@, problems@) == committed_step(inst_ids@, fs, p0, now, self.committed_timeout, i as int),
            decreases inst_ids@.len() - i,
        {
            let iid = inst_ids[i];
            proof {
                lemma_times_fit_prefix(inst_ids@, fs, p0, now, self.committed_timeout, i + 1, inst_ids@.len() as int);
            }
            let f = found.remove(0);
            assert(fs.skip(i as int).drop_first() =~= fs.skip(i + 1));
            assert(f == fs[i as int]);
            match f {
                None => {
                    rec.ids.push(iid);
                },
                Some(inst) => {
                    if inst.committed {
                        done.push(inst);
                    } else {
                        if self.timeout_to_committed(problems, iid, now) {
                            rec.ids.push(iid);
                        }
                    }
                },
            }
            i = i + 1;
        }
        (done, rec)
    }
}

} // verus!
