//! Weighted-random balancing. The state keeps the given upstream list and,
//! over the entries with positive weight, a strictly increasing prefix-sum
//! array. A pick draws `r` uniformly from `[1, total]` and takes the first
//! entry whose prefix sum reaches `r`, so an entry of weight `w` owns exactly
//! `w` of the `total` possible draws.

use vstd::prelude::*;

verus! {

/// One upstream URL with its selection weight.
#[derive(Debug, Clone)]
pub struct WeightedUpstream {
    pub url: String,
    pub weight: u32,
}

/// The sum of all weights (entries of weight zero contribute nothing).
pub open spec fn spec_weight_sum(ups: Seq<WeightedUpstream>) -> int
    decreases ups.len(),
{
    if ups.len() == 0 {
        0
    } else {
        ups[0].weight + spec_weight_sum(ups.skip(1))
    }
}

/// The URLs of the entries with positive weight, in order.
pub open spec fn spec_positive_urls(ups: Seq<WeightedUpstream>) -> Seq<Seq<char>>
    decreases ups.len(),
{
    if ups.len() == 0 {
        Seq::empty()
    } else if ups[0].weight > 0 {
        seq![ups[0].url@] + spec_positive_urls(ups.skip(1))
    } else {
        spec_positive_urls(ups.skip(1))
    }
}

/// The weights of the entries with positive weight, in order.
pub open spec fn spec_positive_weights(ups: Seq<WeightedUpstream>) -> Seq<int>
    decreases ups.len(),
{
    if ups.len() == 0 {
        Seq::empty()
    } else if ups[0].weight > 0 {
        seq![ups[0].weight as int] + spec_positive_weights(ups.skip(1))
    } else {
        spec_positive_weights(ups.skip(1))
    }
}

/// The prefix sums over the entries with positive weight, starting from `acc`.
pub open spec fn spec_prefix_sums_from(acc: int, ups: Seq<WeightedUpstream>) -> Seq<int>
    decreases ups.len(),
{
    if ups.len() == 0 {
        Seq::empty()
    } else if ups[0].weight > 0 {
        seq![acc + ups[0].weight] + spec_prefix_sums_from(acc + ups[0].weight, ups.skip(1))
    } else {
        spec_prefix_sums_from(acc, ups.skip(1))
    }
}

/// Shape of the prefix-sum array: one entry per positive weight, strictly
/// increasing, bounded by `acc` and `acc` plus the weight sum, ending at the
/// weight sum, and each step is exactly the matching positive weight.
pub proof fn lemma_prefix_sums_props(acc: int, ups: Seq<WeightedUpstream>)
    ensures
        ({
            let s = spec_prefix_sums_from(acc, ups);
            &&& s.len() == spec_positive_urls(ups).len() == spec_positive_weights(ups).len()
            &&& forall|i: int| 0 <= i < s.len() ==> acc < #[trigger] s[i] <= acc + spec_weight_sum(ups)
            &&& forall|i: int, j: int| 0 <= i < j < s.len() ==> #[trigger] s[i] < #[trigger] s[j]
            &&& (s.len() > 0 ==> s[s.len() - 1] == acc + spec_weight_sum(ups))
            &&& (s.len() == 0 <==> spec_weight_sum(ups) == 0)
            &&& forall|i: int|
                0 <= i < s.len() ==> #[trigger] s[i] - (if i == 0 {
                    acc
                } else {
                    s[i - 1]
                }) == spec_positive_weights(ups)[i]
        }),
    decreases ups.len(),
{
    if ups.len() == 0 {
    } else {
        let w = ups[0].weight as int;
        let rest = ups.skip(1);
        if ups[0].weight > 0 {
            lemma_prefix_sums_props(acc + w, rest);
            let s = spec_prefix_sums_from(acc, ups);
            let sr = spec_prefix_sums_from(acc + w, rest);
            assert(s =~= seq![acc + w] + sr);
            assert(spec_positive_urls(ups) =~= seq![ups[0].url@] + spec_positive_urls(rest));
            assert(spec_positive_weights(ups) =~= seq![w] + spec_positive_weights(rest));
            assert(spec_weight_sum(rest) >= 0) by {
                lemma_weight_sum_nonneg(rest);
            }
        } else {
            lemma_prefix_sums_props(acc, rest);
        }
    }
}

pub proof fn lemma_weight_sum_nonneg(ups: Seq<WeightedUpstream>)
    ensures
        spec_weight_sum(ups) >= 0,
    decreases ups.len(),
{
    if ups.len() > 0 {
        lemma_weight_sum_nonneg(ups.skip(1));
    }
}

/// The least position whose prefix sum reaches `r` (the length if none does).
pub open spec fn spec_pick(sums: Seq<int>, r: int) -> int
    decreases sums.len(),
{
    if sums.len() == 0 {
        0
    } else if sums[0] >= r {
        0
    } else {
        1 + spec_pick(sums.skip(1), r)
    }
}

pub proof fn lemma_pick_props(sums: Seq<int>, r: int)
    requires
        sums.len() > 0,
        sums[sums.len() - 1] >= r,
    ensures
        0 <= spec_pick(sums, r) < sums.len(),
        sums[spec_pick(sums, r)] >= r,
        forall|j: int| 0 <= j < spec_pick(sums, r) ==> sums[j] < r,
    decreases sums.len(),
{
    if sums[0] >= r {
    } else {
        let rest = sums.skip(1);
        assert(rest[rest.len() - 1] == sums[sums.len() - 1]);
        lemma_pick_props(rest, r);
        assert(forall|j: int| 0 <= j < spec_pick(rest, r) ==> rest[j] < r);
        assert(forall|j: int| 0 < j < 1 + spec_pick(rest, r) ==> sums[j] == rest[j - 1]);
    }
}

/// With draws uniform over `[1, total]`, the entry at position `i` is chosen
/// for exactly the draws in `(sums[i-1], sums[i]]` — as many as its weight.
pub proof fn lemma_pick_interval(sums: Seq<int>, r: int, i: int)
    requires
        forall|a: int, b: int| 0 <= a < b < sums.len() ==> sums[a] < sums[b],
        0 <= i < sums.len(),
        sums[sums.len() - 1] >= r,
    ensures
        spec_pick(sums, r) == i <==> ((i == 0 || sums[i - 1] < r) && r <= sums[i]),
{
    lemma_pick_props(sums, r);
    let p = spec_pick(sums, r);
    if p == i {
    } else if p < i {
        assert(sums[p] < sums[i - 1] || p == i - 1);
    } else {
        assert(sums[i] < r);
    }
}

/// What a random pick from state `inner` may return: nothing exactly when
/// there is nothing to pick from, otherwise the entry owning some draw in
/// `[1, total]`.
pub open spec fn spec_pick_outcome(inner: WeightedRandomBalancerInner, r: Option<String>) -> bool {
    &&& (r is None <==> (inner.spec_upstreams().len() == 0 || inner.spec_total() == 0))
    &&& (r is Some ==> exists|draw: u32|
        1 <= draw <= inner.spec_total() && r.unwrap()@ == spec_positive_urls(
            inner.spec_upstreams(),
        )[spec_pick(inner.spec_sums(), draw as int)])
}

/// The immutable weighted-random state.
pub struct WeightedRandomBalancerInner {
    upstreams: Vec<WeightedUpstream>,
    positive_urls: Vec<String>,
    prefix_sums: Vec<u32>,
    total_weight: u32,
}

impl WeightedRandomBalancerInner {
    /// The full upstream list, as `(url, weight)` pairs.
    pub closed spec fn spec_upstreams(&self) -> Seq<WeightedUpstream> {
        self.upstreams@
    }

    /// The sum of the weights.
    pub closed spec fn spec_total(&self) -> int {
        self.total_weight as int
    }

    /// The prefix sums over the positive-weight entries.
    pub closed spec fn spec_sums(&self) -> Seq<int> {
        self.prefix_sums@.map_values(|x: u32| x as int)
    }

    #[verifier::type_invariant]
    spec fn wf(self) -> bool {
        &&& self.total_weight == spec_weight_sum(self.upstreams@)
        &&& self.prefix_sums@.map_values(|x: u32| x as int) == spec_prefix_sums_from(
            0,
            self.upstreams@,
        )
        &&& self.positive_urls@.map_values(|s: String| s@) == spec_positive_urls(self.upstreams@)
    }

    /// Build the state for `upstreams`: the prefix sums run over the entries
    /// with positive weight, and the total is the sum of all weights.
    pub fn new(upstreams: Vec<WeightedUpstream>) -> (r: WeightedRandomBalancerInner)
        requires
            spec_weight_sum(upstreams@) <= u32::MAX,
        ensures
            r.spec_upstreams() == upstreams@,
            r.spec_total() == spec_weight_sum(upstreams@),
            r.spec_sums() == spec_prefix_sums_from(0, upstreams@),
    {
        let ghost all = upstreams@;
        let mut positive_urls: Vec<String> = Vec::new();
        let mut prefix_sums: Vec<u32> = Vec::new();
        let mut total_weight: u32 = 0;
        let mut i: usize = 0;
        proof {
            assert(all.skip(0) == all);
            lemma_weight_sum_nonneg(all);
        }
        while i < upstreams.len()
            invariant
                0 <= i <= all.len(),
                all == upstreams@,
                spec_weight_sum(all) <= u32::MAX,
                total_weight + spec_weight_sum(all.skip(i as int)) == spec_weight_sum(all),
                spec_prefix_sums_from(0, all) =~= prefix_sums@.map_values(|x: u32| x as int)
                    + spec_prefix_sums_from(total_weight as int, all.skip(i as int)),
                spec_positive_urls(all) =~= positive_urls@.map_values(|s: String| s@)
                    + spec_positive_urls(all.skip(i as int)),
            decreases upstreams.len() - i,
        {
            let ghost tail = all.skip(i as int);
            proof {
                assert(tail.len() > 0);
                assert(tail[0] == all[i as int]);
                assert(tail.skip(1) =~= all.skip(i + 1 as int));
                lemma_weight_sum_nonneg(tail.skip(1));
            }
            let u = &upstreams[i];
            if u.weight > 0 {
                proof {
                    assert(spec_weight_sum(tail) == u.weight + spec_weight_sum(tail.skip(1)));
                }
                total_weight = total_weight + u.weight;
                prefix_sums.push(total_weight);
                positive_urls.push(u.url.clone());
                proof {
                    assert(prefix_sums@.map_values(|x: u32| x as int) =~= prefix_sums@.map_values(
                        |x: u32| x as int,
                    ));
                    assert(spec_prefix_sums_from(0, all) =~= prefix_sums@.map_values(
                        |x: u32| x as int,
                    ) + spec_prefix_sums_from(total_weight as int, all.skip(i + 1 as int)));
                    assert(spec_positive_urls(all) =~= positive_urls@.map_values(|s: String| s@)
                        + spec_positive_urls(all.skip(i + 1 as int)));
                }
            } else {
                proof {
                    assert(spec_weight_sum(tail) == spec_weight_sum(tail.skip(1)));
                    assert(spec_prefix_sums_from(total_weight as int, tail)
                        == spec_prefix_sums_from(total_weight as int, tail.skip(1)));
                    assert(spec_positive_urls(tail) == spec_positive_urls(tail.skip(1)));
                }
            }
            i += 1;
        }
        proof {
            assert(all.skip(all.len() as int) =~= Seq::<WeightedUpstream>::empty());
        }
        WeightedRandomBalancerInner { upstreams, positive_urls, prefix_sums, total_weight }
    }

    /// The deterministic core of a pick: for a draw `r` in `[1, total]`, the
    /// first positive-weight entry whose prefix sum reaches `r`.
    pub fn select_with(&self, r: u32) -> (picked: String)
        requires
            1 <= r,
            r as int <= self.spec_total(),
        ensures
            ({
                let idx = spec_pick(self.spec_sums(), r as int);
                &&& 0 <= idx < spec_positive_urls(self.spec_upstreams()).len()
                &&& picked@ == spec_positive_urls(self.spec_upstreams())[idx]
            }),
    {
        proof {
            use_type_invariant(self);
            lemma_prefix_sums_props(0, self.upstreams@);
            lemma_pick_props(self.spec_sums(), r as int);
        }
        let ghost sums = self.spec_sums();
        let ghost idx = spec_pick(sums, r as int);
        let mut lo: usize = 0;
        let mut hi: usize = self.prefix_sums.len();
        while lo < hi
            invariant
                0 <= lo <= hi <= sums.len(),
                sums == self.spec_sums(),
                sums.len() == self.prefix_sums@.len() == self.positive_urls@.len(),
                idx == spec_pick(sums, r as int),
                0 <= idx < sums.len(),
                sums[idx] >= r as int,
                forall|j: int| 0 <= j < idx ==> sums[j] < r as int,
                forall|a: int, b: int| 0 <= a < b < sums.len() ==> #[trigger] sums[a] < #[trigger] sums[b],
                lo <= idx <= hi,
            decreases hi - lo,
        {
            let mid = lo + (hi - lo) / 2;
            if self.prefix_sums[mid] < r {
                proof {
                    assert(sums[mid as int] < r as int);
                    if idx < mid {
                        assert(sums[idx] < sums[mid as int]);
                        assert(false);
                    }
                }
                lo = mid + 1;
            } else {
                proof {
                    assert(sums[mid as int] >= r as int);
                    if idx > mid {
                        assert(sums[mid as int] < sums[idx]);
                        assert(sums[mid as int] < r as int);
                        assert(false);
                    }
                }
                hi = mid;
            }
        }
        proof {
            assert(lo == idx);
            use_type_invariant(self);
        }
        self.positive_urls[lo].clone()
    }

    /// Pick an upstream at random, each positive-weight entry in proportion
    /// to its weight. `None` when there is nothing to pick from.
    pub fn select(&self) -> (r: Option<String>)
        ensures
            spec_pick_outcome(*self, r),
    {
        proof {
            use_type_invariant(self);
        }
        if self.upstreams.len() == 0 || self.total_weight == 0 {
            return None;
        }
        let draw = rand_in_range(1, self.total_weight);
        let picked = self.select_with(draw);
        proof {
            assert(1 <= draw <= self.spec_total() && picked@ == spec_positive_urls(
                self.spec_upstreams(),
            )[spec_pick(self.spec_sums(), draw as int)]);
        }
        Some(picked)
    }
}

/// Relies on rand::Rng::gen_range over rand::thread_rng: the draw lies in
/// the given inclusive range. Nothing else is assumed of the value.
#[verifier::external_body]
fn rand_in_range(lo: u32, hi: u32) -> (r: u32)
    requires
        lo <= hi,
    ensures
        lo <= r <= hi,
{
    rand::Rng::gen_range(&mut rand::thread_rng(), lo..=hi)
}

/// A weighted-random balancer whose state is replaced wholesale on update.
pub struct WeightedRandomBalancer {
    inner: WeightedRandomBalancerInner,
}

impl WeightedRandomBalancer {
    /// The state the balancer currently holds.
    pub closed spec fn spec_inner(&self) -> WeightedRandomBalancerInner {
        self.inner
    }

    pub fn new(upstreams: Vec<WeightedUpstream>) -> (r: WeightedRandomBalancer)
        requires
            spec_weight_sum(upstreams@) <= u32::MAX,
        ensures
            r.spec_inner().spec_upstreams() == upstreams@,
            r.spec_inner().spec_total() == spec_weight_sum(upstreams@),
            r.spec_inner().spec_sums() == spec_prefix_sums_from(0, upstreams@),
    {
        WeightedRandomBalancer { inner: WeightedRandomBalancerInner::new(upstreams) }
    }

    /// Pick from the current state.
    pub fn select_inner(&self) -> (r: Option<String>)
        ensures
            spec_pick_outcome(self.spec_inner(), r),
    {
        self.inner.select()
    }

    /// Replace the upstream list: the new state is published as a whole, and
    /// a pick in flight keeps working on the state it read.
    pub fn update(&mut self, new_upstreams: Vec<WeightedUpstream>)
        requires
            spec_weight_sum(new_upstreams@) <= u32::MAX,
        ensures
            final(self).spec_inner().spec_upstreams() == new_upstreams@,
            final(self).spec_inner().spec_total() == spec_weight_sum(new_upstreams@),
            final(self).spec_inner().spec_sums() == spec_prefix_sums_from(0, new_upstreams@),
    {
        self.inner = WeightedRandomBalancerInner::new(new_upstreams);
    }

    /// Pick an upstream; the client address plays no part in this strategy.
    pub fn select(&self, _client_ip: Option<&str>) -> (r: Option<String>)
        ensures
            spec_pick_outcome(self.spec_inner(), r),
    {
        self.select_inner()
    }
}

} // verus!
