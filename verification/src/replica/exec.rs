//! Deciding what to execute next: which instances a replica still lacks, and which of the
//! lowest committed instances of each leader go first.
use crate::qpaxos::deps::{lookup, InstanceIdVec};
use crate::qpaxos::ids::{Dep, InstanceId};
use crate::qpaxos::instance::{deps_after, opt_deps_view, Instance};
use vstd::multiset::Multiset;
use vstd::prelude::*;

verus! {

/// The instance id of each instance.
pub open spec fn iids_of(insts: Seq<Instance>) -> Seq<InstanceId> {
    insts.map_values(|x: Instance| x.instance_id->0)
}

/// The dependencies of all instances, one instance after the other.
pub open spec fn all_deps(insts: Seq<Instance>) -> Seq<Dep>
    decreases insts.len(),
{
    if insts.len() == 0 {
        Seq::empty()
    } else {
        all_deps(insts.drop_last()) + opt_deps_view(insts.last().deps)->0
    }
}

/// The first instance to recover for each replica that the instances depend on but
/// that none of them is from: the one after the last executed, or the first one when
/// none was executed; dependencies already executed need none, and each replica is
/// named once, for the first dependency on it that needs one.
pub open spec fn missing_iids(iids: Seq<InstanceId>, exec_up_to: Seq<InstanceId>, deps: Seq<Dep>) -> Seq<
    InstanceId,
>
    decreases deps.len(),
{
    if deps.len() == 0 {
        Seq::empty()
    } else {
        let r = missing_iids(iids, exec_up_to, deps.drop_last());
        let d = deps.last();
        if lookup(iids, d.replica_id) is Some {
            r
        } else {
            let m = match lookup(exec_up_to, d.replica_id) {
                None => Some(InstanceId { replica_id: d.replica_id, idx: 0 }),
                Some(e) => if d.idx <= e.idx {
                    None
                } else {
                    Some(InstanceId { replica_id: d.replica_id, idx: (e.idx + 1) as i64 })
                },
            };
            match m {
                None => r,
                Some(x) => if lookup(r, d.replica_id) is Some {
                    r
                } else {
                    r.push(x)
                },
            }
        }
    }
}

/// Every instance has an id and dependencies.
pub open spec fn all_complete(insts: Seq<Instance>) -> bool {
    forall|i: int|
        0 <= i < insts.len() ==> (#[trigger] insts[i]).instance_id is Some && insts[i].deps is Some
}

/// find_missing_insts returns, for each replica the lowest instances `min_insts` depend
/// on without one of them being from it, the first instance a replica still has to
/// recover before executing, or None when there is none. Every instance must have an id
/// and dependencies.
pub fn find_missing_insts(min_insts: &Vec<Instance>, exec_up_to: &InstanceIdVec) -> (r: Option<
    InstanceIdVec,
>)
    requires
        all_complete(min_insts@),
    ensures
        ({
            let m = missing_iids(iids_of(min_insts@), exec_up_to@, all_deps(min_insts@));
            &&& r is Some <==> m.len() > 0
            &&& r matches Some(v) ==> v@ == m
        }),
{
    let mut iids = InstanceIdVec { ids: Vec::new() };
    let mut all_dep: Vec<Dep> = Vec::new();
    let mut i: usize = 0;
    assert(min_insts@.take(0) =~= Seq::<Instance>::empty());
    while i < min_insts.len()
        invariant
            all_complete(min_insts@),
            i <= min_insts@.len(),
            iids@ =~= iids_of(min_insts@.take(i as int)),
            all_dep@ == all_deps(min_insts@.take(i as int)),
        decreases min_insts@.len() - i,
    {
        let inst = &min_insts[i];
        assert(min_insts@[i as int].instance_id is Some);
        iids.push(inst.instance_id.unwrap());
        let d = inst.deps.as_ref().unwrap();
        let mut k: usize = 0;
        let ghost start = all_dep@;
        while k < d.dep_vec.len()
            invariant
                k <= d@.len(),
                all_dep@ == start + d@.take(k as int),
            decreases d@.len() - k,
        {
            all_dep.push(d.dep_vec[k]);
            assert(d@.take(k + 1) =~= d@.take(k as int).push(d@[k as int]));
            k = k + 1;
        }
        proof {
            assert(d@.take(k as int) =~= d@);
            assert(min_insts@.take(i + 1).drop_last() =~= min_insts@.take(i as int));
            assert(min_insts@.take(i + 1).last() == min_insts@[i as int]);
            assert(iids_of(min_insts@.take(i + 1)) =~= iids_of(min_insts@.take(i as int)).push(
                min_insts@[i as int].instance_id->0,
            ));
        }
        i = i + 1;
    }
    assert(min_insts@.take(i as int) =~= min_insts@);
    let ghost iseq = iids@;
    let ghost eseq = exec_up_to@;
    let mut rst = InstanceIdVec { ids: Vec::new() };
    let mut j: usize = 0;
    assert(all_dep@.take(0) =~= Seq::<Dep>::empty());
    while j < all_dep.len()
        invariant
            j <= all_dep@.len(),
            iids@ == iseq,
            exec_up_to@ == eseq,
            rst@ == missing_iids(iseq, eseq, all_dep@.take(j as int)),
        decreases all_dep@.len() - j,
    {
        let dep = all_dep[j];
        assert(all_dep@.take(j + 1).drop_last() =~= all_dep@.take(j as int));
        assert(all_dep@.take(j + 1).last() == dep);
        j = j + 1;
        if iids.get(dep.replica_id).is_some() {
            continue;
        }
        let missing = match exec_up_to.get(dep.replica_id) {
            None => InstanceId { replica_id: dep.replica_id, idx: 0 },
            Some(e) => {
                if dep.idx <= e.idx {
                    continue;
                }
                InstanceId { replica_id: dep.replica_id, idx: e.idx + 1 }
            },
        };
        if rst.get(dep.replica_id).is_some() {
            continue;
        }
        rst.push(missing);
    }
    assert(all_dep@.take(j as int) =~= all_dep@);
    if rst.len() > 0 {
        Some(rst)
    } else {
        None
    }
}

/// Instance ids as `Option` orders them: `None` first, then by replica and index.
pub open spec fn opt_iid_le(a: Option<InstanceId>, b: Option<InstanceId>) -> bool {
    match (a, b) {
        (None, _) => true,
        (Some(_), None) => false,
        (Some(x), Some(y)) => x.replica_id < y.replica_id || (x.replica_id == y.replica_id
            && x.idx <= y.idx),
    }
}

/// Instances ordered by their ids.
pub open spec fn sorted_by_iid(s: Seq<Instance>) -> bool {
    forall|a: int, b: int|
        0 <= a < b < s.len() ==> opt_iid_le(#[trigger] s[a].instance_id, #[trigger] s[b].instance_id)
}

/// Instance `a` comes after instance `b`, by their dependencies.
pub open spec fn inst_after(a: Instance, b: Instance) -> bool {
    deps_after(opt_deps_view(a.deps)->0, opt_deps_view(b.deps)->0)
}

/// Every instance has dependencies.
pub open spec fn all_have_deps(insts: Seq<Instance>) -> bool {
    forall|i: int| 0 <= i < insts.len() ==> (#[trigger] insts[i]).deps is Some
}

/// comes_after_some tells whether instance `i` comes after some instance of `insts`.
fn comes_after_some(insts: &Vec<Instance>, i: usize) -> (r: bool)
    requires
        all_have_deps(insts@),
        i < insts@.len(),
    ensures
        r == exists|j: int| 0 <= j < insts@.len() && #[trigger] inst_after(insts@[i as int], insts@[j]),
{
    let mut j: usize = 0;
    while j < insts.len()
        invariant
            all_have_deps(insts@),
            i < insts@.len(),
            j <= insts@.len(),
            forall|k: int| 0 <= k < j ==> !#[trigger] inst_after(insts@[i as int], insts@[k]),
        decreases insts@.len() - j,
    {
        assert(insts@[j as int].deps is Some);
        assert(insts@[i as int].deps is Some);
        if insts[i].after(&insts[j]) {
            assert(inst_after(insts@[i as int], insts@[j as int]));
            return true;
        }
        j = j + 1;
    }
    false
}

/// some_comes_after tells whether some instance of `insts` comes after instance `i`.
fn some_comes_after(insts: &Vec<Instance>, i: usize) -> (r: bool)
    requires
        all_have_deps(insts@),
        i < insts@.len(),
    ensures
        r == exists|k: int| 0 <= k < insts@.len() && #[trigger] inst_after(insts@[k], insts@[i as int]),
{
    let mut k: usize = 0;
    while k < insts.len()
        invariant
            all_have_deps(insts@),
            i < insts@.len(),
            k <= insts@.len(),
            forall|m: int| 0 <= m < k ==> !#[trigger] inst_after(insts@[m], insts@[i as int]),
        decreases insts@.len() - k,
    {
        assert(insts@[k as int].deps is Some);
        assert(insts@[i as int].deps is Some);
        if insts[k].after(&insts[i]) {
            assert(inst_after(insts@[k as int], insts@[i as int]));
            return true;
        }
        k = k + 1;
    }
    false
}

/// Instance `i` goes first: some instance comes after it, and it comes after none.
pub open spec fn first_at(insts: Seq<Instance>, i: int) -> bool {
    &&& exists|k: int| 0 <= k < insts.len() && #[trigger] inst_after(insts[k], insts[i])
    &&& !exists|j: int| 0 <= j < insts.len() && #[trigger] inst_after(insts[i], insts[j])
}

/// The instances from position `lo` on that go first.
pub open spec fn picked_from(insts: Seq<Instance>, lo: int) -> Multiset<Instance>
    decreases insts.len() - lo,
{
    if lo >= insts.len() || lo < 0 {
        Multiset::empty()
    } else if first_at(insts, lo) {
        picked_from(insts, lo + 1).insert(insts[lo])
    } else {
        picked_from(insts, lo + 1)
    }
}

/// The instances to execute first: those that go first, or all of them when none does.
pub open spec fn executable(insts: Seq<Instance>) -> Multiset<Instance> {
    if exists|i: int| 0 <= i < insts.len() && #[trigger] first_at(insts, i) {
        picked_from(insts, 0)
    } else {
        insts.to_multiset()
    }
}

/// Every instance picked from position `lo` on is one of `insts`.
pub proof fn lemma_picked_from_insts(insts: Seq<Instance>, lo: int, x: Instance)
    requires
        picked_from(insts, lo).count(x) > 0,
    ensures
        insts.contains(x),
    decreases insts.len() - lo,
{
    if lo < insts.len() && lo >= 0 {
        if first_at(insts, lo) && insts[lo] == x {
            assert(insts[lo] == x);
        } else {
            lemma_picked_from_insts(insts, lo + 1, x);
        }
    }
}

/// Every instance to execute first is one of `insts`.
pub proof fn lemma_executable_from_insts(insts: Seq<Instance>, x: Instance)
    requires
        executable(insts).count(x) > 0,
    ensures
        insts.contains(x),
{
    broadcast use vstd::seq_lib::group_to_multiset_ensures;

    if exists|i: int| 0 <= i < insts.len() && #[trigger] first_at(insts, i) {
        lemma_picked_from_insts(insts, 0, x);
    }
}

/// Some instance from position `lo` on goes first exactly when some is picked.
pub proof fn lemma_picked_nonempty(insts: Seq<Instance>, lo: int)
    requires
        0 <= lo <= insts.len(),
    ensures
        picked_from(insts, lo).len() > 0 <==> exists|i: int| lo <= i < insts.len() && #[trigger] first_at(insts, i),
    decreases insts.len() - lo,
{
    if lo < insts.len() {
        lemma_picked_nonempty(insts, lo + 1);
        if exists|i: int| lo <= i < insts.len() && #[trigger] first_at(insts, i) {
            let i = choose|i: int| lo <= i < insts.len() && #[trigger] first_at(insts, i);
            if i > lo {
                assert(lo + 1 <= i);
            }
        }
    }
}

/// Whether an instance has the id `y`.
pub open spec fn id_is(y: Option<InstanceId>) -> spec_fn(Instance) -> bool {
    |i: Instance| i.instance_id == y
}

/// The instances from position `lo` on that go first, the last one first.
pub open spec fn picked_rev(insts: Seq<Instance>, lo: int) -> Seq<Instance>
    decreases insts.len() - lo,
{
    if lo < 0 || lo >= insts.len() {
        Seq::empty()
    } else if first_at(insts, lo) {
        picked_rev(insts, lo + 1).push(insts[lo])
    } else {
        picked_rev(insts, lo + 1)
    }
}

/// The instances to execute first, in the order they are taken before being ordered by
/// id: those that go first, the last one first; or all of them, in order, when none
/// does. Instances with the same id keep this order.
pub open spec fn exec_candidates(insts: Seq<Instance>) -> Seq<Instance> {
    if exists|i: int| 0 <= i < insts.len() && #[trigger] first_at(insts, i) {
        picked_rev(insts, 0)
    } else {
        insts
    }
}

/// Filtering keeps nothing of a sequence none of whose items pass.
pub proof fn lemma_filter_none<A>(s: Seq<A>, p: spec_fn(A) -> bool)
    requires
        forall|i: int| 0 <= i < s.len() ==> !p(#[trigger] s[i]),
    ensures
        s.filter(p) == Seq::<A>::empty(),
    decreases s.len(),
{
    reveal(Seq::filter);
    if s.len() > 0 {
        lemma_filter_none(s.drop_last(), p);
    }
    assert(s.filter(p) =~= Seq::<A>::empty());
}

/// Filtering a single item keeps it exactly when it passes.
pub proof fn lemma_filter_single<A>(x: A, p: spec_fn(A) -> bool)
    ensures
        seq![x].filter(p) == (if p(x) {
            seq![x]
        } else {
            Seq::<A>::empty()
        }),
{
    lemma_filter_none(Seq::<A>::empty(), p);
    Seq::<A>::empty().lemma_filter_prepend(x, p);
    assert(seq![x] + Seq::<A>::empty() =~= seq![x]);
    if p(x) {
        assert(seq![x] + Seq::<A>::empty() =~= seq![x]);
    } else {
        assert(Seq::<A>::empty() + Seq::<A>::empty() =~= Seq::<A>::empty());
    }
}

/// insert_sorted puts `x` into `r`, kept ordered by instance id, after the instances
/// whose ids are no higher.
fn insert_sorted(r: &mut Vec<Instance>, x: Instance)
    requires
        sorted_by_iid(old(r)@),
    ensures
        sorted_by_iid(final(r)@),
        final(r)@.to_multiset() == old(r)@.to_multiset().insert(x),
        forall|y: Option<InstanceId>|
            #[trigger] final(r)@.filter(id_is(y)) == if x.instance_id == y {
                old(r)@.filter(id_is(y)).push(x)
            } else {
                old(r)@.filter(id_is(y))
            },
{
    broadcast use vstd::seq_lib::group_to_multiset_ensures;

    let mut pos: usize = 0;
    while pos < r.len() && opt_iid_leq(&r[pos].instance_id, &x.instance_id)
        invariant
            pos <= r@.len(),
            forall|k: int| 0 <= k < pos ==> opt_iid_le(#[trigger] r@[k].instance_id, x.instance_id),
        decreases r@.len() - pos,
    {
        pos = pos + 1;
    }
    let ghost r0 = r@;
    let ghost xid = x.instance_id;
    r.insert(pos, x);
    proof {
        assert(r@ == r0.insert(pos as int, x));
        assert forall|a: int, b: int| 0 <= a < b < r@.len() implies opt_iid_le(
            #[trigger] r@[a].instance_id,
            #[trigger] r@[b].instance_id,
        ) by {
            if b < pos {
                assert(r@[a] == r0[a] && r@[b] == r0[b]);
            } else if b == pos {
                assert(r@[a] == r0[a]);
            } else if a == pos {
                assert(r@[b] == r0[b - 1]);
                assert(!opt_iid_le(r0[pos as int].instance_id, xid));
                if b - 1 > pos {
                    assert(opt_iid_le(r0[pos as int].instance_id, r0[b - 1].instance_id));
                }
            } else if a < pos {
                assert(r@[a] == r0[a] && r@[b] == r0[b - 1]);
                assert(opt_iid_le(r0[a].instance_id, r0[b - 1].instance_id));
            } else {
                assert(r@[a] == r0[a - 1] && r@[b] == r0[b - 1]);
                assert(opt_iid_le(r0[a - 1].instance_id, r0[b - 1].instance_id));
            }
        }
        vstd::seq_lib::to_multiset_insert(r0, pos as int, x);
        assert forall|b: int| pos <= b < r0.len() implies #[trigger] r0[b].instance_id != xid by {
            if r0[b].instance_id == xid {
                if b > pos {
                    assert(opt_iid_le(r0[pos as int].instance_id, r0[b].instance_id));
                }
            }
        }
        let pre = r0.take(pos as int);
        let suf = r0.skip(pos as int);
        assert(r0 =~= pre + suf);
        assert(r@ =~= (pre + seq![x]) + suf);
        assert forall|y: Option<InstanceId>| #[trigger] r@.filter(id_is(y)) == if xid == y {
            r0.filter(id_is(y)).push(x)
        } else {
            r0.filter(id_is(y))
        } by {
            let p = id_is(y);
            Seq::filter_distributes_over_add(pre, suf, p);
            Seq::filter_distributes_over_add(pre + seq![x], suf, p);
            Seq::filter_distributes_over_add(pre, seq![x], p);
            lemma_filter_single(x, p);
            if xid == y {
                assert forall|i: int| 0 <= i < suf.len() implies !p(#[trigger] suf[i]) by {
                    assert(suf[i] == r0[pos + i]);
                }
                lemma_filter_none(suf, p);
                assert(r@.filter(p) =~= pre.filter(p) + seq![x]);
                assert(r0.filter(p) =~= pre.filter(p));
            } else {
                assert(r@.filter(p) =~= pre.filter(p) + suf.filter(p));
            }
        }
    }
}

/// opt_iid_leq tells whether instance id `a` comes no later than `b`.
fn opt_iid_leq(a: &Option<InstanceId>, b: &Option<InstanceId>) -> (r: bool)
    ensures
        r == opt_iid_le(*a, *b),
{
    match (a, b) {
        (None, _) => true,
        (Some(_), None) => false,
        (Some(x), Some(y)) => x.replica_id < y.replica_id || (x.replica_id == y.replica_id
            && x.idx <= y.idx),
    }
}

/// select_executable returns, ordered by instance id, the lowest committed instances of
/// the leaders that execute first: those some other instance comes after and that come
/// after none; or all of them when there are none such. Instances with the same id keep
/// the order they are taken in: those that go first, the last one first, or all of
/// them in order. Every instance must have dependencies.
pub fn select_executable(insts: Vec<Instance>) -> (r: Vec<Instance>)
    requires
        all_have_deps(insts@),
    ensures
        sorted_by_iid(r@),
        r@.to_multiset() == executable(insts@),
        forall|y: Option<InstanceId>|
            #[trigger] r@.filter(id_is(y)) == exec_candidates(insts@).filter(id_is(y)),
{
    broadcast use vstd::seq_lib::group_to_multiset_ensures;

    let n = insts.len();
    let ghost s = insts@;
    let mut go: Vec<bool> = Vec::with_capacity(n);
    let mut i: usize = 0;
    while i < n
        invariant
            n == s.len(),
            s == insts@,
            all_have_deps(s),
            i <= n,
            go@.len() == i,
            forall|k: int| 0 <= k < i ==> #[trigger] go@[k] == first_at(s, k),
        decreases n - i,
    {
        let g = some_comes_after(&insts, i) && !comes_after_some(&insts, i);
        go.push(g);
        i = i + 1;
    }
    let mut any_go = false;
    let mut k: usize = 0;
    while k < n
        invariant
            n == s.len(),
            go@.len() == n,
            forall|m: int| 0 <= m < n ==> #[trigger] go@[m] == first_at(s, m),
            k <= n,
            any_go <==> exists|m: int| 0 <= m < k && #[trigger] first_at(s, m),
        decreases n - k,
    {
        if go[k] {
            any_go = true;
        }
        k = k + 1;
    }
    let ghost cand0 = exec_candidates(s);
    let cand = if any_go {
        let mut insts = insts;
        let mut first: Vec<Instance> = Vec::new();
        while insts.len() > 0
            invariant
                n == s.len(),
                go@.len() == n,
                forall|m: int| 0 <= m < n ==> #[trigger] go@[m] == first_at(s, m),
                insts@.len() <= n,
                insts@ == s.subrange(0, insts@.len() as int),
                first@ == picked_rev(s, insts@.len() as int),
                first@.to_multiset() == picked_from(s, insts@.len() as int),
            decreases insts@.len(),
        {
            let k = insts.len() - 1;
            let x = insts.pop().unwrap();
            proof {
                assert(x == s[k as int]);
                assert(insts@ =~= s.subrange(0, k as int));
            }
            let ghost f0 = first@;
            if go[k] {
                first.push(x);
                proof {
                    vstd::seq_lib::to_multiset_build(f0, x);
                    assert(first@.to_multiset() =~= picked_from(s, k as int));
                }
            }
        }
        proof {
            assert(first@ == exec_candidates(s));
            assert(first@.to_multiset() == executable(s));
        }
        first
    } else {
        proof {
            assert(!exists|i: int| 0 <= i < s.len() && #[trigger] first_at(s, i));
            assert(insts@ == exec_candidates(s));
        }
        insts
    };
    proof {
        lemma_picked_nonempty(s, 0);
        assert(cand@ == cand0);
        assert(cand@.to_multiset() == executable(s));
    }
    let mut rem = cand;
    let mut r: Vec<Instance> = Vec::new();
    let ghost total = rem@.to_multiset();
    let ghost len0 = cand0.len();
    proof {
        assert(r@.to_multiset() =~= Multiset::<Instance>::empty());
        assert(cand0.skip(0) =~= cand0);
        assert forall|y: Option<InstanceId>| #[trigger] r@.filter(id_is(y)) == cand0.take(0).filter(id_is(y)) by {
            lemma_filter_none(r@, id_is(y));
            lemma_filter_none(cand0.take(0), id_is(y));
        }
    }
    while rem.len() > 0
        invariant
            len0 == cand0.len(),
            rem@.len() <= len0,
            rem@ == cand0.skip(len0 - rem@.len()),
            sorted_by_iid(r@),
            r@.to_multiset().add(rem@.to_multiset()) == total,
            forall|y: Option<InstanceId>|
                #[trigger] r@.filter(id_is(y)) == cand0.take(len0 - rem@.len()).filter(id_is(y)),
        decreases rem@.len(),
    {
        let ghost c = len0 - rem@.len();
        let ghost rem0 = rem@;
        let x = rem.remove(0);
        proof {
            assert(x == cand0[c]);
            assert(rem@ =~= cand0.skip(c + 1));
            assert(rem0 =~= rem@.insert(0, x));
            vstd::seq_lib::to_multiset_insert(rem@, 0, x);
            assert(cand0.take(c + 1) =~= cand0.take(c).push(x));
        }
        let ghost r0 = r@;
        insert_sorted(&mut r, x);
        proof {
            assert(r@.to_multiset().add(rem@.to_multiset()) =~= r0.to_multiset().add(rem0.to_multiset()));
            assert forall|y: Option<InstanceId>| #[trigger] r@.filter(id_is(y)) == cand0.take(c + 1).filter(id_is(y)) by {
                cand0.take(c).lemma_filter_push(x, id_is(y));
            }
        }
    }
    proof {
        assert(rem@.to_multiset() =~= Multiset::<Instance>::empty());
        assert(r@.to_multiset() =~= total);
        assert(cand0.take(len0 as int) =~= cand0);
    }
    r
}

} // verus!
