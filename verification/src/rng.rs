//! The pseudorandom source shared by all phases of a tick.
//!
//! Every probabilistic decision of the engine consumes this source
//! sequentially, so a fixed seed reproduces a whole run.  Draws are
//! fixed-point: a uniform integer in `[0, SCALE)` stands for a uniform
//! fraction in `[0, 1)`.

use vstd::prelude::*;

verus! {

#[verifier::external_type_specification]
#[verifier::external_body]
pub struct ExStdRng(rand::rngs::StdRng);

/// A seedable pseudorandom generator handle.
pub struct SimRng {
    inner: rand::rngs::StdRng,
}

impl SimRng {
    /// Relies on `rand::SeedableRng::seed_from_u64`: builds a generator
    /// whose draw sequence is determined by the seed.
    #[verifier::external_body]
    pub(crate) fn from_seed(seed: u64) -> SimRng {
        SimRng { inner: rand::SeedableRng::seed_from_u64(seed) }
    }

    /// Relies on `rand::Rng::gen_range` on the range `0..bound`: a uniform
    /// integer below `bound`.  The call panics on an empty range, so the
    /// bound must be positive.
    #[verifier::external_body]
    pub(crate) fn draw_below(&mut self, bound: u64) -> (r: u64)
        requires
            1 <= bound,
        ensures
            r < bound,
    {
        rand::Rng::gen_range(&mut self.inner, 0..bound)
    }

    /// A uniform fixed-point fraction: an integer in `[0, SCALE)`.
    pub(crate) fn draw_unit(&mut self) -> (r: u64)
        ensures
            r < crate::SCALE,
    {
        self.draw_below(crate::SCALE)
    }

    /// Relies on `rand::seq::SliceRandom::shuffle`: permutes the entries in
    /// place, so afterwards they form the same multiset as before.
    #[verifier::external_body]
    pub(crate) fn shuffle(&mut self, v: &mut Vec<usize>)
        ensures
            final(v)@.len() == old(v)@.len(),
            final(v)@.to_multiset() == old(v)@.to_multiset(),
    {
        rand::seq::SliceRandom::shuffle(v.as_mut_slice(), &mut self.inner)
    }

    /// A uniformly random visiting order: the numbers `0 .. n` in shuffled
    /// order, each present exactly once.
    pub fn permutation(&mut self, n: usize) -> (v: Vec<usize>)
        ensures
            v@.len() == n,
            forall|i: int| 0 <= i < n ==> #[trigger] v@[i] < n,
            forall|val: usize| val < n ==> v@.contains(val),
            v@.to_multiset() == Seq::new(n as nat, |i: int| i as usize).to_multiset(),
    {
        let ghost iota = Seq::new(n as nat, |i: int| i as usize);
        let mut v: Vec<usize> = Vec::new();
        let mut i: usize = 0;
        while i < n
            invariant
                i <= n,
                v@.len() == i,
                forall|j: int| 0 <= j < i ==> #[trigger] v@[j] == j,
            decreases n - i,
        {
            v.push(i);
            i += 1;
        }
        proof {
            assert(v@ =~= iota);
        }
        self.shuffle(&mut v);
        proof {
            broadcast use vstd::seq_lib::group_to_multiset_ensures;

            assert forall|val: usize| val < n implies v@.contains(val) by {
                assert(iota[val as int] == val);
                assert(iota.contains(val));
                assert(v@.to_multiset().count(val) > 0);
            };
            assert forall|k: int| 0 <= k < n implies #[trigger] v@[k] < n by {
                assert(v@.contains(v@[k]));
                assert(iota.to_multiset().count(v@[k]) > 0);
                assert(iota.contains(v@[k]));
                let j = choose|j: int| 0 <= j < iota.len() && iota[j] == v@[k];
                assert(iota[j] == j as usize);
            };
        }
        v
    }
}

} // verus!
