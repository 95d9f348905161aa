//! Consistent hashing over client addresses. Each upstream contributes a
//! fixed number of virtual nodes, keyed `"<upstream>#<i>"`; the 64-bit key
//! hashes form a sorted ring, and a client address is served by the first
//! ring entry at or after its own hash, wrapping to the smallest entry. The
//! hash is FNV-1a over the characters: a process-local, non-cryptographic
//! choice, fully determined by its input, so a pick is a pure function of
//! the ring and the address.

use vstd::prelude::*;

use crate::text::chars_of;
use crate::text::push_decimal;
use crate::text::spec_decimal;

verus! {

pub const FNV_OFFSET: u64 = 0xcbf29ce484222325;

pub const FNV_PRIME: u64 = 0x100000001b3;

/// FNV-1a folded over `s`, starting from state `h`.
pub open spec fn spec_fnv64_from(h: u64, s: Seq<char>) -> u64
    decreases s.len(),
{
    if s.len() == 0 {
        h
    } else {
        spec_fnv64_from(
            vstd::wrapping::u64_specs::wrapping_mul(h ^ (s[0] as u64), FNV_PRIME),
            s.skip(1),
        )
    }
}

/// The 64-bit FNV-1a hash of a character sequence.
pub open spec fn spec_hash64(s: Seq<char>) -> u64 {
    spec_fnv64_from(FNV_OFFSET, s)
}

fn hash_chars(s: &[char]) -> (h: u64)
    ensures
        h == spec_hash64(s@),
{
    let mut h: u64 = FNV_OFFSET;
    let mut i: usize = 0;
    proof {
        assert(s@.skip(0) == s@);
    }
    while i < s.len()
        invariant
            0 <= i <= s@.len(),
            spec_hash64(s@) == spec_fnv64_from(h, s@.skip(i as int)),
        decreases s.len() - i,
    {
        proof {
            assert(s@.skip(i as int).len() > 0);
            assert(s@.skip(i as int)[0] == s@[i as int]);
            assert(s@.skip(i as int).skip(1) =~= s@.skip(i + 1 as int));
        }
        let c = s[i];
        h = (h ^ (c as u64)).wrapping_mul(FNV_PRIME);
        i += 1;
    }
    proof {
        assert(s@.skip(s@.len() as int) =~= Seq::<char>::empty());
    }
    h
}

/// The key string of virtual node `i` of `upstream`.
pub open spec fn spec_vnode_key(upstream: Seq<char>, i: nat) -> Seq<char> {
    upstream + seq!['#'] + spec_decimal(i)
}

/// The ring as a map after inserting virtual nodes `0 .. n` of `upstream`
/// into `m`, in ascending node order (a later insert wins a hash collision).
pub open spec fn spec_ring_map_up(m: Map<u64, Seq<char>>, upstream: Seq<char>, n: nat) -> Map<
    u64,
    Seq<char>,
>
    decreases n,
{
    if n == 0 {
        m
    } else {
        spec_ring_map_up(m, upstream, (n - 1) as nat).insert(
            spec_hash64(spec_vnode_key(upstream, (n - 1) as nat)),
            upstream,
        )
    }
}

/// The ring as a map for `upstreams`, each with `n` virtual nodes, inserted
/// in list order.
pub open spec fn spec_ring_map(upstreams: Seq<Seq<char>>, n: nat) -> Map<u64, Seq<char>>
    decreases upstreams.len(),
{
    if upstreams.len() == 0 {
        Map::empty()
    } else {
        spec_ring_map_up(spec_ring_map(upstreams.drop_last(), n), upstreams.last(), n)
    }
}

/// The ring entries as `(hash, upstream)` pairs.
pub open spec fn spec_ring_view(ring: Seq<(u64, String)>) -> Seq<(u64, Seq<char>)> {
    ring.map_values(|e: (u64, String)| (e.0, e.1@))
}

/// Ring keys strictly ascend.
pub open spec fn spec_ring_sorted(r: Seq<(u64, Seq<char>)>) -> bool {
    forall|a: int, b: int| 0 <= a < b < r.len() ==> (#[trigger] r[a]).0 < (#[trigger] r[b]).0
}

/// The association a sorted ring sequence holds.
pub open spec fn spec_assoc_map(r: Seq<(u64, Seq<char>)>) -> Map<u64, Seq<char>>
    decreases r.len(),
{
    if r.len() == 0 {
        Map::empty()
    } else {
        spec_assoc_map(r.drop_last()).insert(r.last().0, r.last().1)
    }
}

proof fn lemma_assoc_insert_at(r: Seq<(u64, Seq<char>)>, pos: int, h: u64, v: Seq<char>)
    requires
        spec_ring_sorted(r),
        0 <= pos <= r.len(),
        forall|j: int| 0 <= j < pos ==> (#[trigger] r[j]).0 < h,
        forall|j: int| pos <= j < r.len() ==> (#[trigger] r[j]).0 > h,
    ensures
        spec_ring_sorted(r.insert(pos, (h, v))),
        spec_assoc_map(r.insert(pos, (h, v))) == spec_assoc_map(r).insert(h, v),
    decreases r.len(),
{
    let r2 = r.insert(pos, (h, v));
    assert(spec_ring_sorted(r2)) by {
        assert(forall|a: int, b: int|
            0 <= a < b < r2.len() ==> (#[trigger] r2[a]).0 < (#[trigger] r2[b]).0) by {
            assert(forall|j: int| 0 <= j < pos ==> r2[j] == r[j]);
            assert(r2[pos] == (h, v));
            assert(forall|j: int| pos < j < r2.len() ==> r2[j] == r[j - 1]);
        }
    }
    if pos == r.len() {
        assert(r2.drop_last() =~= r);
        assert(r2.last() == (h, v));
    } else {
        let rl = r.drop_last();
        lemma_assoc_insert_at(rl, pos, h, v);
        assert(r2.drop_last() =~= rl.insert(pos, (h, v)));
        assert(r2.last() == r.last());
        assert(r.last().0 != h);
        assert(spec_assoc_map(r2) =~= spec_assoc_map(r).insert(h, v));
    }
}

proof fn lemma_assoc_update_at(r: Seq<(u64, Seq<char>)>, pos: int, h: u64, v: Seq<char>)
    requires
        spec_ring_sorted(r),
        0 <= pos < r.len(),
        r[pos].0 == h,
    ensures
        spec_ring_sorted(r.update(pos, (h, v))),
        spec_assoc_map(r.update(pos, (h, v))) == spec_assoc_map(r).insert(h, v),
    decreases r.len(),
{
    let r2 = r.update(pos, (h, v));
    assert(spec_ring_sorted(r2)) by {
        assert(forall|j: int| 0 <= j < r2.len() && j != pos ==> r2[j] == r[j]);
        assert(r2[pos].0 == r[pos].0);
    }
    if pos == r.len() - 1 {
        assert(r2.drop_last() =~= r.drop_last());
        assert(r2.last() == (h, v));
        assert(spec_assoc_map(r2) =~= spec_assoc_map(r).insert(h, v));
    } else {
        let rl = r.drop_last();
        lemma_assoc_update_at(rl, pos, h, v);
        assert(r2.drop_last() =~= rl.update(pos, (h, v)));
        assert(r2.last() == r.last());
        assert(r.last().0 != h);
        assert(spec_assoc_map(r2) =~= spec_assoc_map(r).insert(h, v));
    }
}

/// Insert `(h, v)` into a ring kept sorted by key; an equal key is replaced.
fn ring_insert(ring: &mut Vec<(u64, String)>, h: u64, v: String)
    requires
        spec_ring_sorted(spec_ring_view(old(ring)@)),
    ensures
        spec_ring_sorted(spec_ring_view(final(ring)@)),
        spec_assoc_map(spec_ring_view(final(ring)@)) == spec_assoc_map(
            spec_ring_view(old(ring)@),
        ).insert(h, v@),
        final(ring)@.len() >= 1,
{
    let ghost rv = spec_ring_view(ring@);
    let mut pos: usize = 0;
    while pos < ring.len() && ring[pos].0 < h
        invariant
            0 <= pos <= ring@.len(),
            rv == spec_ring_view(ring@),
            spec_ring_sorted(rv),
            forall|j: int| 0 <= j < pos ==> (#[trigger] rv[j]).0 < h,
        decreases ring.len() - pos,
    {
        pos += 1;
    }
    if pos < ring.len() && ring[pos].0 == h {
        proof {
            lemma_assoc_update_at(rv, pos as int, h, v@);
        }
        ring[pos] = (h, v);
        proof {
            assert(spec_ring_view(ring@) =~= rv.update(pos as int, (h, v@)));
        }
    } else {
        proof {
            assert(forall|j: int|
                pos <= j < rv.len() ==> (#[trigger] rv[j]).0 > h) by {
                assert(forall|j: int| pos < j < rv.len() ==> rv[pos as int].0 < (#[trigger] rv[j]).0);
            }
            lemma_assoc_insert_at(rv, pos as int, h, v@);
        }
        ring.insert(pos, (h, v));
        proof {
            assert(spec_ring_view(ring@) =~= rv.insert(pos as int, (h, v@)));
        }
    }
}

/// The least ring position whose key is at least `h` (the length if none).
pub open spec fn spec_ring_lower(r: Seq<(u64, Seq<char>)>, h: u64) -> int
    decreases r.len(),
{
    if r.len() == 0 {
        0
    } else if r[0].0 >= h {
        0
    } else {
        1 + spec_ring_lower(r.skip(1), h)
    }
}

pub proof fn lemma_ring_lower_props(r: Seq<(u64, Seq<char>)>, h: u64)
    ensures
        0 <= spec_ring_lower(r, h) <= r.len(),
        spec_ring_lower(r, h) < r.len() ==> r[spec_ring_lower(r, h)].0 >= h,
        forall|j: int| 0 <= j < spec_ring_lower(r, h) ==> (#[trigger] r[j]).0 < h,
    decreases r.len(),
{
    if r.len() > 0 && r[0].0 < h {
        lemma_ring_lower_props(r.skip(1), h);
        assert(forall|j: int| 0 < j < r.len() ==> r[j] == r.skip(1)[j - 1]);
    }
}

/// Where a hash is served: the first entry at or after it, wrapping to the
/// smallest entry; nothing on an empty ring.
pub open spec fn spec_find_upstream(r: Seq<(u64, Seq<char>)>, h: u64) -> Option<Seq<char>> {
    if r.len() == 0 {
        None
    } else if spec_ring_lower(r, h) < r.len() {
        Some(r[spec_ring_lower(r, h)].1)
    } else {
        Some(r[0].1)
    }
}

/// The upstream an address maps to on ring `r`.
pub open spec fn spec_ip_select(r: Seq<(u64, Seq<char>)>, ip: Seq<char>) -> Option<Seq<char>> {
    spec_find_upstream(r, spec_hash64(ip))
}

/// Law: the upstream an address maps to is a function of the ring and the
/// address alone, so within one process — where the state is immutable once
/// published — any two picks for the same address agree.
pub proof fn lemma_ip_select_deterministic(
    r: Seq<(u64, Seq<char>)>,
    ip: Seq<char>,
    r1: Option<Seq<char>>,
    r2: Option<Seq<char>>,
)
    requires
        r1 == spec_ip_select(r, ip),
        r2 == spec_ip_select(r, ip),
    ensures
        r1 == r2,
{
}

/// The balancer state: a sorted hash ring over the virtual nodes of the
/// upstream list. Immutable once built; updates build a fresh state.
pub struct BalancerState {
    hash_ring: Vec<(u64, String)>,
    upstreams: Vec<String>,
    virtual_nodes: usize,
}

impl BalancerState {
    /// The ring, as `(hash, upstream)` pairs in ascending hash order.
    pub closed spec fn spec_ring(&self) -> Seq<(u64, Seq<char>)> {
        spec_ring_view(self.hash_ring@)
    }

    /// The upstream URLs the ring was built from.
    pub closed spec fn spec_upstreams(&self) -> Seq<Seq<char>> {
        self.upstreams@.map_values(|s: String| s@)
    }

    /// The number of virtual nodes per upstream.
    pub closed spec fn spec_virtual_nodes(&self) -> nat {
        self.virtual_nodes as nat
    }

    #[verifier::type_invariant]
    spec fn wf(self) -> bool {
        &&& spec_ring_sorted(spec_ring_view(self.hash_ring@))
        &&& spec_assoc_map(spec_ring_view(self.hash_ring@)) == spec_ring_map(
            self.upstreams@.map_values(|s: String| s@),
            self.virtual_nodes as nat,
        )
    }

    /// The 64-bit hash of a key string.
    pub fn hash(key: &str) -> (h: u64)
        ensures
            h == spec_hash64(key@),
    {
        let cs = chars_of(key);
        hash_chars(cs.as_slice())
    }

    /// Build the ring: `virtual_nodes` nodes per upstream, inserted in list
    /// order, so the ring holds exactly the map of all virtual-node hashes.
    pub fn build(upstreams: Vec<String>, virtual_nodes: usize) -> (r: BalancerState)
        ensures
            r.spec_upstreams() == upstreams@.map_values(|s: String| s@),
            r.spec_virtual_nodes() == virtual_nodes as nat,
            spec_ring_sorted(r.spec_ring()),
            spec_assoc_map(r.spec_ring()) == spec_ring_map(
                upstreams@.map_values(|s: String| s@),
                virtual_nodes as nat,
            ),
            upstreams@.len() > 0 && virtual_nodes > 0 ==> r.spec_ring().len() > 0,
    {
        let ghost ups = upstreams@.map_values(|s: String| s@);
        let mut hash_ring: Vec<(u64, String)> = Vec::new();
        let mut k: usize = 0;
        while k < upstreams.len()
            invariant
                0 <= k <= upstreams@.len() == ups.len(),
                ups == upstreams@.map_values(|s: String| s@),
                spec_ring_sorted(spec_ring_view(hash_ring@)),
                spec_assoc_map(spec_ring_view(hash_ring@)) == spec_ring_map(
                    ups.take(k as int),
                    virtual_nodes as nat,
                ),
                k > 0 && virtual_nodes > 0 ==> hash_ring@.len() >= 1,
            decreases upstreams.len() - k,
        {
            let upstream = &upstreams[k];
            let ghost m0 = spec_assoc_map(spec_ring_view(hash_ring@));
            let mut i: usize = 0;
            while i < virtual_nodes
                invariant
                    0 <= i <= virtual_nodes,
                    0 <= k < upstreams@.len(),
                    ups == upstreams@.map_values(|s: String| s@),
                    upstream == upstreams@[k as int],
                    spec_ring_sorted(spec_ring_view(hash_ring@)),
                    spec_assoc_map(spec_ring_view(hash_ring@)) == spec_ring_map_up(
                        m0,
                        ups[k as int],
                        i as nat,
                    ),
                    i > 0 ==> hash_ring@.len() >= 1,
                decreases virtual_nodes - i,
            {
                let mut key = chars_of(upstream.as_str());
                key.push('#');
                push_decimal(&mut key, i as u64);
                proof {
                    assert(key@ =~= spec_vnode_key(ups[k as int], i as nat));
                }
                let h = hash_chars(key.as_slice());
                ring_insert(&mut hash_ring, h, upstream.clone());
                i += 1;
            }
            proof {
                assert(ups.take(k + 1 as int).drop_last() =~= ups.take(k as int));
                assert(ups.take(k + 1 as int).last() == ups[k as int]);
            }
            k += 1;
        }
        proof {
            assert(ups.take(ups.len() as int) =~= ups);
        }
        BalancerState { hash_ring, upstreams, virtual_nodes }
    }

    /// The upstream serving hash `h`: the first ring entry at or after it,
    /// wrapping to the smallest; nothing on an empty ring.
    pub fn find_upstream(&self, h: u64) -> (r: Option<String>)
        ensures
            r is Some <==> spec_find_upstream(self.spec_ring(), h) is Some,
            r is Some ==> r.unwrap()@ == spec_find_upstream(self.spec_ring(), h).unwrap(),
    {
        let ghost rv = self.spec_ring();
        if self.hash_ring.len() == 0 {
            return None;
        }
        proof {
            lemma_ring_lower_props(rv, h);
        }
        let ghost lower = spec_ring_lower(rv, h);
        let mut pos: usize = 0;
        while pos < self.hash_ring.len() && self.hash_ring[pos].0 < h
            invariant
                0 <= pos <= rv.len(),
                rv == self.spec_ring(),
                rv.len() == self.hash_ring@.len(),
                lower == spec_ring_lower(rv, h),
                0 <= lower <= rv.len(),
                lower < rv.len() ==> rv[lower].0 >= h,
                forall|j: int| 0 <= j < lower ==> (#[trigger] rv[j]).0 < h,
                forall|j: int| 0 <= j < pos ==> (#[trigger] rv[j]).0 < h,
                pos <= lower,
            decreases self.hash_ring.len() - pos,
        {
            proof {
                assert(rv[pos as int].0 < h);
                if lower == pos {
                    assert(false);
                }
            }
            pos += 1;
        }
        if pos < self.hash_ring.len() {
            proof {
                assert(rv[pos as int].0 >= h);
                assert(pos == lower) by {
                    if lower < pos {
                        assert(rv[lower].0 < h);
                    }
                    if lower > pos {
                        assert(rv[pos as int].0 < h);
                    }
                }
            }
            Some(self.hash_ring[pos].1.clone())
        } else {
            proof {
                assert(lower == rv.len());
            }
            Some(self.hash_ring[0].1.clone())
        }
    }
}

impl BalancerState {
    /// How many virtual nodes each upstream contributes.
    pub fn virtual_nodes_count(&self) -> (r: usize)
        ensures
            r as nat == self.spec_virtual_nodes(),
    {
        self.virtual_nodes
    }

    /// A copy of the upstream list the ring was built from.
    pub fn get_upstreams(&self) -> (r: Vec<String>)
        ensures
            r@.map_values(|s: String| s@) == self.spec_upstreams(),
    {
        let mut r: Vec<String> = Vec::new();
        let mut j: usize = 0;
        while j < self.upstreams.len()
            invariant
                0 <= j <= self.upstreams@.len(),
                r@.len() == j,
                forall|t: int| 0 <= t < j ==> r@[t]@ == self.upstreams@[t]@,
            decreases self.upstreams.len() - j,
        {
            r.push(self.upstreams[j].clone());
            j += 1;
        }
        proof {
            assert(r@.map_values(|s: String| s@) =~= self.spec_upstreams());
        }
        r
    }
}

/// The number of virtual nodes each upstream contributes to the ring.
pub const VIRTUAL_NODES: usize = 150;

/// The address a pick falls back to when the client address is unknown.
pub open spec fn spec_default_ip() -> Seq<char> {
    "127.0.0.1"@
}

/// Consistent-hash balancing over the client address.
pub struct IpHashBalancer {
    state: BalancerState,
}

impl IpHashBalancer {
    /// The state the balancer currently holds.
    pub closed spec fn spec_state(&self) -> BalancerState {
        self.state
    }

    pub fn new(upstreams: Vec<String>) -> (r: IpHashBalancer)
        ensures
            r.spec_state().spec_upstreams() == upstreams@.map_values(|s: String| s@),
            r.spec_state().spec_virtual_nodes() == VIRTUAL_NODES as nat,
            spec_ring_sorted(r.spec_state().spec_ring()),
            spec_assoc_map(r.spec_state().spec_ring()) == spec_ring_map(
                upstreams@.map_values(|s: String| s@),
                VIRTUAL_NODES as nat,
            ),
    {
        IpHashBalancer { state: BalancerState::build(upstreams, VIRTUAL_NODES) }
    }

    /// Pick the upstream serving `client_ip` (its loopback stand-in when
    /// unknown): a pure function of the ring and the address.
    pub fn select(&self, client_ip: Option<&str>) -> (r: Option<String>)
        ensures
            ({
                let ip = match client_ip {
                    Some(s) => s@,
                    None => spec_default_ip(),
                };
                &&& (r is Some <==> spec_ip_select(self.spec_state().spec_ring(), ip) is Some)
                &&& (r is Some ==> r.unwrap()@ == spec_ip_select(
                    self.spec_state().spec_ring(),
                    ip,
                ).unwrap())
            }),
    {
        let h = match client_ip {
            Some(s) => BalancerState::hash(s),
            None => BalancerState::hash("127.0.0.1"),
        };
        self.state.find_upstream(h)
    }

    /// Replace the upstream list: a fresh ring is built and published as a
    /// whole, so a pick in flight keeps working on the state it read.
    pub fn update_upstreams(&mut self, new_upstreams: Vec<String>)
        ensures
            final(self).spec_state().spec_upstreams() == new_upstreams@.map_values(|s: String| s@),
            final(self).spec_state().spec_virtual_nodes() == old(
                self,
            ).spec_state().spec_virtual_nodes(),
            spec_ring_sorted(final(self).spec_state().spec_ring()),
            spec_assoc_map(final(self).spec_state().spec_ring()) == spec_ring_map(
                new_upstreams@.map_values(|s: String| s@),
                old(self).spec_state().spec_virtual_nodes(),
            ),
    {
        let vn = self.state.virtual_nodes_count();
        self.state = BalancerState::build(new_upstreams, vn);
    }

    /// Add one upstream, unless it is already present.
    pub fn add_upstream(&mut self, upstream: String)
        ensures
            old(self).spec_state().spec_upstreams().contains(upstream@) ==> *final(self) == *old(
                self,
            ),
            !old(self).spec_state().spec_upstreams().contains(upstream@) ==> {
                let ups = old(self).spec_state().spec_upstreams().push(upstream@);
                &&& final(self).spec_state().spec_upstreams() == ups
                &&& final(self).spec_state().spec_virtual_nodes() == old(
                    self,
                ).spec_state().spec_virtual_nodes()
                &&& spec_ring_sorted(final(self).spec_state().spec_ring())
                &&& spec_assoc_map(final(self).spec_state().spec_ring()) == spec_ring_map(
                    ups,
                    old(self).spec_state().spec_virtual_nodes(),
                )
            },
    {
        let current = self.state.get_upstreams();
        let ghost old_ups = old(self).spec_state().spec_upstreams();
        let mut found = false;
        let mut j: usize = 0;
        while j < current.len()
            invariant
                0 <= j <= current@.len(),
                current@.map_values(|s: String| s@) == old_ups,
                found <==> exists|t: int| 0 <= t < j && old_ups[t] == upstream@,
            decreases current.len() - j,
        {
            if current[j] == upstream {
                proof {
                    assert(old_ups[j as int] == upstream@);
                }
                found = true;
            } else {
                proof {
                    assert(old_ups[j as int] != upstream@);
                }
            }
            j += 1;
        }
        if !found {
            assert(!old_ups.contains(upstream@));
            let mut new_list = current;
            new_list.push(upstream);
            proof {
                assert(new_list@.map_values(|s: String| s@) =~= old_ups.push(upstream@));
            }
            self.update_upstreams(new_list);
        } else {
            assert(old_ups.contains(upstream@));
        }
    }

    /// Remove every occurrence of one upstream and rebuild the ring.
    pub fn remove_upstream(&mut self, upstream: &str)
        ensures
            ({
                let kept = old(self).spec_state().spec_upstreams().filter(
                    |u: Seq<char>| u != upstream@,
                );
                &&& final(self).spec_state().spec_upstreams() == kept
                &&& final(self).spec_state().spec_virtual_nodes() == old(
                    self,
                ).spec_state().spec_virtual_nodes()
                &&& spec_ring_sorted(final(self).spec_state().spec_ring())
                &&& spec_assoc_map(final(self).spec_state().spec_ring()) == spec_ring_map(
                    kept,
                    old(self).spec_state().spec_virtual_nodes(),
                )
            }),
    {
        let current = self.state.get_upstreams();
        let ghost old_ups = old(self).spec_state().spec_upstreams();
        let up_cs = crate::text::chars_of(upstream);
        let mut kept: Vec<String> = Vec::new();
        let mut j: usize = 0;
        proof {
            assert(old_ups.take(0).filter(|u: Seq<char>| u != upstream@) =~= Seq::<
                Seq<char>,
            >::empty());
        }
        while j < current.len()
            invariant
                0 <= j <= current@.len(),
                current@.map_values(|s: String| s@) == old_ups,
                up_cs@ == upstream@,
                kept@.map_values(|s: String| s@) == old_ups.take(j as int).filter(
                    |u: Seq<char>| u != upstream@,
                ),
            decreases current.len() - j,
        {
            let cand_cs = crate::text::chars_of(current[j].as_str());
            let is_same = crate::text::slice_eq_chars(cand_cs.as_slice(), up_cs.as_slice());
            proof {
                assert(old_ups.take(j + 1 as int).drop_last() =~= old_ups.take(j as int));
                assert(old_ups.take(j + 1 as int).last() == old_ups[j as int]);
                reveal_with_fuel(Seq::filter, 2);
            }
            if !is_same {
                kept.push(current[j].clone());
                proof {
                    assert(kept@.map_values(|s: String| s@) =~= old_ups.take(j as int).filter(
                        |u: Seq<char>| u != upstream@,
                    ).push(old_ups[j as int]));
                    assert(old_ups.take(j + 1 as int).filter(|u: Seq<char>| u != upstream@)
                        =~= old_ups.take(j as int).filter(|u: Seq<char>| u != upstream@).push(
                        old_ups[j as int],
                    ));
                }
            } else {
                proof {
                    assert(old_ups.take(j + 1 as int).filter(|u: Seq<char>| u != upstream@)
                        =~= old_ups.take(j as int).filter(|u: Seq<char>| u != upstream@));
                }
            }
            j += 1;
        }
        proof {
            assert(old_ups.take(old_ups.len() as int) =~= old_ups);
        }
        self.update_upstreams(kept);
    }

    /// The current upstream list.
    pub fn get_upstreams(&self) -> (r: Vec<String>)
        ensures
            r@.map_values(|s: String| s@) == self.spec_state().spec_upstreams(),
    {
        self.state.get_upstreams()
    }
}

} // verus!
