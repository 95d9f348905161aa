//! Round-robin balancing: an upstream list and a monotonically increasing
//! counter; each pick takes the list entry at the counter modulo the list
//! length and then advances the counter. Wraparound of the counter is benign.

use vstd::prelude::*;

verus! {

pub struct RoundRobinBalancer {
    upstreams: Vec<String>,
    current: usize,
}

impl RoundRobinBalancer {
    /// The upstream URLs, as character sequences.
    pub closed spec fn spec_upstreams(&self) -> Seq<Seq<char>> {
        self.upstreams@.map_values(|s: String| s@)
    }

    /// The pick counter.
    pub closed spec fn spec_current(&self) -> nat {
        self.current as nat
    }

    pub fn new(upstreams: Vec<String>) -> (r: RoundRobinBalancer)
        ensures
            r.spec_upstreams() == upstreams@.map_values(|s: String| s@),
            r.spec_current() == 0,
    {
        RoundRobinBalancer { upstreams, current: 0 }
    }

    /// Replace the upstream list; the counter keeps its value.
    pub fn update_upstreams(&mut self, new_upstreams: Vec<String>)
        ensures
            final(self).spec_upstreams() == new_upstreams@.map_values(|s: String| s@),
            final(self).spec_current() == old(self).spec_current(),
    {
        self.upstreams = new_upstreams;
    }

    /// The current upstream list.
    pub fn get_upstreams(&self) -> (r: Vec<String>)
        ensures
            r@.map_values(|s: String| s@) == self.spec_upstreams(),
    {
        let r = self.upstreams.clone();
        proof {
            assert(r@.map_values(|s: String| s@) =~= self.spec_upstreams());
        }
        r
    }

    /// Pick the next upstream in turn; `None` on an empty list, which leaves
    /// the counter untouched.
    pub fn select(&mut self) -> (r: Option<String>)
        ensures
            old(self).spec_upstreams().len() == 0 ==> r is None && *final(self) == *old(self),
            old(self).spec_upstreams().len() > 0 ==> {
                &&& r is Some
                &&& r.unwrap()@ == old(self).spec_upstreams()[(old(self).spec_current() as int) % (
                old(self).spec_upstreams().len() as int)]
                &&& final(self).spec_upstreams() == old(self).spec_upstreams()
                &&& final(self).spec_current() == (if old(self).spec_current() == usize::MAX as nat {
                    0nat
                } else {
                    old(self).spec_current() + 1
                })
            },
    {
        if self.upstreams.len() == 0 {
            return None;
        }
        let index = self.current % self.upstreams.len();
        self.current = self.current.wrapping_add(1);
        let picked = self.upstreams[index].clone();
        proof {
            assert(picked@ == old(self).spec_upstreams()[(old(self).spec_current() as int) % (
            old(self).spec_upstreams().len() as int)]);
            assert(final(self).spec_upstreams() =~= old(self).spec_upstreams());
        }
        Some(picked)
    }
}

} // verus!
