//! Load balancing. The strategies form a closed set, so a balancer is a
//! tagged variant over the three of them; each owns an immutable state that
//! an update replaces as a whole.

pub mod ip_hash;
pub mod round_robin;
pub mod weighted_random;

use vstd::prelude::*;

use ip_hash::spec_assoc_map;
use ip_hash::spec_default_ip;
use ip_hash::spec_ip_select;
use ip_hash::spec_ring_map;
use ip_hash::IpHashBalancer;
use ip_hash::VIRTUAL_NODES;
use round_robin::RoundRobinBalancer;
use weighted_random::spec_pick_outcome;
use weighted_random::spec_prefix_sums_from;
use weighted_random::spec_weight_sum;
use weighted_random::WeightedRandomBalancer;
use weighted_random::WeightedUpstream;

verus! {

/// One balancer: the strategy tag picks the state and the pick rule.
pub enum Balancer {
    RoundRobin(RoundRobinBalancer),
    WeightedRandom(WeightedRandomBalancer),
    IpHash(IpHashBalancer),
}

/// The tag that picks weighted-random balancing.
pub open spec fn spec_strategy_weighted(s: Seq<char>) -> bool {
    s == "weighted_random"@
}

/// The tag that picks consistent hashing; every other tag falls back to
/// round robin.
pub open spec fn spec_strategy_ip_hash(s: Seq<char>) -> bool {
    s == "ip_hash"@
}

/// `b` is exactly the balancer freshly built for `strategy` over `ups`.
pub open spec fn spec_built_balancer(b: Balancer, strategy: Seq<char>, ups: Seq<Seq<char>>) -> bool {
    if spec_strategy_weighted(strategy) {
        match b {
            Balancer::WeightedRandom(w) => {
                let wu = w.spec_inner().spec_upstreams();
                &&& wu.len() == ups.len()
                &&& forall|i: int|
                    0 <= i < ups.len() ==> ((#[trigger] wu[i]).url@ == ups[i] && wu[i].weight == 1)
                &&& w.spec_inner().spec_total() == spec_weight_sum(wu)
                &&& w.spec_inner().spec_sums() == spec_prefix_sums_from(0, wu)
            },
            _ => false,
        }
    } else if spec_strategy_ip_hash(strategy) {
        match b {
            Balancer::IpHash(ih) => {
                &&& ih.spec_state().spec_upstreams() == ups
                &&& ih.spec_state().spec_virtual_nodes() == VIRTUAL_NODES as nat
                &&& spec_assoc_map(ih.spec_state().spec_ring()) == spec_ring_map(
                    ups,
                    VIRTUAL_NODES as nat,
                )
            },
            _ => false,
        }
    } else {
        match b {
            Balancer::RoundRobin(rr) => rr.spec_upstreams() == ups && rr.spec_current() == 0,
            _ => false,
        }
    }
}

/// How one pick relates the balancer before (`b0`) and after (`b1`), the
/// client address, and the returned upstream. Only round robin changes state
/// (its counter); the others pick from the state they hold.
pub open spec fn spec_select_rel(
    b0: Balancer,
    ip: Option<Seq<char>>,
    r: Option<String>,
    b1: Balancer,
) -> bool {
    match b0 {
        Balancer::RoundRobin(a0) => match b1 {
            Balancer::RoundRobin(a1) => {
                &&& (a0.spec_upstreams().len() == 0 ==> r is None && a1 == a0)
                &&& (a0.spec_upstreams().len() > 0 ==> {
                    &&& r is Some
                    &&& r.unwrap()@ == a0.spec_upstreams()[(a0.spec_current() as int) % (
                    a0.spec_upstreams().len() as int)]
                    &&& a1.spec_upstreams() == a0.spec_upstreams()
                    &&& a1.spec_current() == (if a0.spec_current() == usize::MAX as nat {
                        0nat
                    } else {
                        a0.spec_current() + 1
                    })
                })
            },
            _ => false,
        },
        Balancer::WeightedRandom(w) => b1 == b0 && spec_pick_outcome(w.spec_inner(), r),
        Balancer::IpHash(ih) => {
            let addr = match ip {
                Some(a) => a,
                None => spec_default_ip(),
            };
            &&& b1 == b0
            &&& (r is Some <==> spec_ip_select(ih.spec_state().spec_ring(), addr) is Some)
            &&& (r is Some ==> r.unwrap()@ == spec_ip_select(
                ih.spec_state().spec_ring(),
                addr,
            ).unwrap())
        },
    }
}

impl Balancer {
    /// Build the balancer for a strategy tag: weighted random (all weights
    /// one), consistent hashing, or round robin for every other tag.
    pub fn build(upstreams: &Vec<String>, strategy: &str) -> (r: Balancer)
        requires
            upstreams@.len() <= u32::MAX,
        ensures
            spec_built_balancer(r, strategy@, upstreams@.map_values(|s: String| s@)),
    {
        let ghost ups = upstreams@.map_values(|s: String| s@);
        let s_cs = crate::text::chars_of(strategy);
        let weighted = crate::text::chars_of("weighted_random");
        let hashed = crate::text::chars_of("ip_hash");
        if crate::text::slice_eq_chars(s_cs.as_slice(), weighted.as_slice()) {
            let mut weighted: Vec<WeightedUpstream> = Vec::new();
            let mut i: usize = 0;
            while i < upstreams.len()
                invariant
                    0 <= i <= upstreams@.len(),
                    ups == upstreams@.map_values(|s: String| s@),
                    weighted@.len() == i,
                    forall|t: int|
                        0 <= t < i ==> ((#[trigger] weighted@[t]).url@ == ups[t] && weighted@[
                        t].weight == 1),
                    spec_weight_sum(weighted@) == i,
                decreases upstreams.len() - i,
            {
                let entry = WeightedUpstream { url: upstreams[i].clone(), weight: 1 };
                proof {
                    lemma_weight_sum_push(weighted@, entry);
                }
                weighted.push(entry);
                i += 1;
            }
            Balancer::WeightedRandom(WeightedRandomBalancer::new(weighted))
        } else if crate::text::slice_eq_chars(s_cs.as_slice(), hashed.as_slice()) {
            let copy = copy_upstreams(upstreams);
            Balancer::IpHash(IpHashBalancer::new(copy))
        } else {
            let copy = copy_upstreams(upstreams);
            Balancer::RoundRobin(RoundRobinBalancer::new(copy))
        }
    }

    /// Pick an upstream under this balancer's strategy.
    pub fn select(&mut self, client_ip: Option<&str>) -> (r: Option<String>)
        ensures
            spec_select_rel(
                *old(self),
                match client_ip {
                    Some(s) => Some(s@),
                    None => None,
                },
                r,
                *final(self),
            ),
    {
        match self {
            Balancer::RoundRobin(rr) => rr.select(),
            Balancer::WeightedRandom(w) => w.select(client_ip),
            Balancer::IpHash(ih) => ih.select(client_ip),
        }
    }
}

proof fn lemma_weight_sum_push(ups: Seq<WeightedUpstream>, u: WeightedUpstream)
    ensures
        spec_weight_sum(ups.push(u)) == spec_weight_sum(ups) + u.weight,
    decreases ups.len(),
{
    if ups.len() == 0 {
        assert(ups.push(u)[0] == u);
        assert(ups.push(u).skip(1) =~= Seq::<WeightedUpstream>::empty());
        assert(spec_weight_sum(Seq::<WeightedUpstream>::empty()) == 0);
        assert(spec_weight_sum(ups.push(u)) == u.weight + spec_weight_sum(
            ups.push(u).skip(1),
        ));
    } else {
        assert(ups.push(u)[0] == ups[0]);
        assert(ups.push(u).skip(1) =~= ups.skip(1).push(u));
        lemma_weight_sum_push(ups.skip(1), u);
        assert(spec_weight_sum(ups.push(u)) == ups[0].weight + spec_weight_sum(
            ups.push(u).skip(1),
        ));
        assert(spec_weight_sum(ups) == ups[0].weight + spec_weight_sum(ups.skip(1)));
    }
}

fn copy_upstreams(upstreams: &Vec<String>) -> (r: Vec<String>)
    ensures
        r@.map_values(|s: String| s@) == upstreams@.map_values(|s: String| s@),
{
    let mut r: Vec<String> = Vec::new();
    let mut j: usize = 0;
    while j < upstreams.len()
        invariant
            0 <= j <= upstreams@.len(),
            r@.len() == j,
            forall|t: int| 0 <= t < j ==> r@[t]@ == upstreams@[t]@,
        decreases upstreams.len() - j,
    {
        r.push(upstreams[j].clone());
        j += 1;
    }
    proof {
        assert(r@.map_values(|s: String| s@) =~= upstreams@.map_values(|s: String| s@));
    }
    r
}

} // verus!
