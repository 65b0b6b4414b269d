//! Which worker a packet goes to.
use crate::net::IpAddr;
use std::collections::hash_map::DefaultHasher;
use std::hash::Hasher;
use vstd::prelude::*;
use vstd::std_specs::hash::*;

verus! {

/// The two addresses in their order, the same for both directions of a flow.
pub open spec fn ordered_pair(src: IpAddr, dst: IpAddr) -> (IpAddr, IpAddr) {
    if src.le_spec(dst) {
        (src, dst)
    } else {
        (dst, src)
    }
}

/// The worker for a host pair: the hash of the ordered pair's octets, reduced
/// to the count of workers.
pub open spec fn shard_index(src: IpAddr, dst: IpAddr, jobs: nat) -> nat {
    let (a, b) = ordered_pair(src, dst);
    if jobs <= 1 {
        0
    } else {
        DefaultHasher::spec_finish(seq![a.octets(), b.octets()]) as nat % jobs
    }
}

/// Worker index in `0..jobs` for a packet identified by its two endpoint
/// addresses. One worker, or none, is always worker 0.
pub fn shard_for(src: IpAddr, dst: IpAddr, jobs: usize) -> (r: usize)
    ensures
        r == shard_index(src, dst, jobs as nat),
        jobs > 0 ==> r < jobs,
{
    if jobs <= 1 {
        return 0;
    }
    let (a, b) = if src.le(&dst) {
        (src, dst)
    } else {
        (dst, src)
    };
    let mut h = DefaultHasher::new();
    h.write(&a.octet_vec());
    h.write(&b.octet_vec());
    assert(h@ =~= seq![a.octets(), b.octets()]);
    (h.finish() % jobs as u64) as usize
}

/// Sharding does not depend on the direction, so a bidirectional flow never
/// splits across workers.
pub proof fn sharding_is_direction_independent(a: IpAddr, b: IpAddr, jobs: nat)
    ensures
        shard_index(a, b, jobs) == shard_index(b, a, jobs),
{
}

/// Every packet has a worker, and it is one of the pool's.
pub proof fn a_shard_is_in_range(a: IpAddr, b: IpAddr, jobs: nat)
    requires
        jobs > 0,
    ensures
        shard_index(a, b, jobs) < jobs,
{
}

} // verus!
