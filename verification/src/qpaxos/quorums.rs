use vstd::prelude::*;

verus! {

/// Integer division of Rust, rounding toward zero.
pub open spec fn div_trunc(a: int, b: int) -> int
    recommends
        b > 0,
{
    if a >= 0 {
        a / b
    } else {
        -((-a) / b)
    }
}

/// The size of a simple majority of `n` replicas.
pub open spec fn spec_quorum(n: int) -> int {
    div_trunc(n, 2) + 1
}

/// The size of a fast quorum of `n` replicas: `f + q/2` where `f` is the number of
/// tolerated failures, raised to the simple quorum when it falls below it.
pub open spec fn spec_fast_quorum(n: int) -> int {
    let q = div_trunc(n, 2) + 1;
    let f = div_trunc(n - 1, 2);
    let fq = f + div_trunc(q, 2);
    if fq < q {
        q
    } else {
        fq
    }
}

/// quorum returns the number of replies a majority needs in a group of `n` replicas.
pub fn quorum(n: i32) -> (q: i32)
    ensures
        q == spec_quorum(n as int),
{
    n / 2 + 1
}

/// fast_quorum returns the number of identical replies the fast path needs in a group
/// of `n` replicas.
pub fn fast_quorum(n: i32) -> (fq: i32)
    requires
        n > i32::MIN,
    ensures
        fq == spec_fast_quorum(n as int),
        n >= 1 ==> fq == (if (n - 1) / 2 + (n / 2 + 1) / 2 < n / 2 + 1 {
            n / 2 + 1
        } else {
            (n - 1) / 2 + (n / 2 + 1) / 2
        }),
{
    proof {
        if n >= 1 {
            lemma_fast_quorum_size(n as int);
        }
    }
    let q = n / 2 + 1;
    let f = (n - 1) / 2;
    let fq = f + q / 2;
    if fq < q {
        q
    } else {
        fq
    }
}

/// For a group of at least one replica, a quorum is a majority that fits in the group:
/// any two quorums share a replica.
pub proof fn lemma_quorums_intersect(n: int)
    requires
        n >= 1,
    ensures
        1 <= spec_quorum(n) <= n,
        2 * spec_quorum(n) > n,
{
}

/// For a group of at least one replica, a fast quorum is no smaller than a quorum,
/// fits in the group, and any two fast quorums share a replica.
pub proof fn lemma_fast_quorum_bounds(n: int)
    requires
        n >= 1,
    ensures
        spec_quorum(n) <= spec_fast_quorum(n) <= n,
        2 * spec_fast_quorum(n) > n,
{
}

/// For a group of `n >= 1` replicas, with `f = (n - 1) / 2` failures tolerated and a
/// simple quorum of `q = n / 2 + 1`, a fast quorum is `f + q / 2` replicas, or `q` when
/// that is fewer.
pub proof fn lemma_fast_quorum_size(n: int)
    requires
        n >= 1,
    ensures
        spec_fast_quorum(n) == (if (n - 1) / 2 + (n / 2 + 1) / 2 < n / 2 + 1 {
            n / 2 + 1
        } else {
            (n - 1) / 2 + (n / 2 + 1) / 2
        }),
{
}

/// In a group of an odd number `n = 2f + 1 >= 3` of replicas, a fast quorum is the
/// optimized EPaxos size `f + (f + 1) / 2`; in any group of three or more replicas it
/// leaves out at least one replica, so the fast path survives a failure.
pub proof fn lemma_fast_quorum_odd(f: int)
    requires
        f >= 1,
    ensures
        spec_fast_quorum(2 * f + 1) == f + (f + 1) / 2,
        spec_fast_quorum(2 * f + 1) < 2 * f + 1,
{
}

/// In a group of three or more replicas a fast quorum leaves out at least one replica.
pub proof fn lemma_fast_quorum_tolerates(n: int)
    requires
        n >= 3,
    ensures
        spec_fast_quorum(n) < n,
{
}

} // verus!
