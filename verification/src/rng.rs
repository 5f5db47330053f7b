//! Xorshift128 pseudo-random number generator.
//!
//! Every stochastic decision of a particle simulation is drawn from one of
//! these generators, so the whole ensemble is a deterministic function of
//! the seeds handed out: the contracts below pin each draw down to the bit.

use vstd::prelude::*;

verus! {

/// Xorshift128 pseudo-random number generator.
pub struct Rng {
    x: u32,
    y: u32,
    z: u32,
    w: u32,
}

/// The generator state produced by seeding: the seed replaces the first
/// word, the remaining three start from fixed constants.
pub open spec fn seed_state(seed: u32) -> (u32, u32, u32, u32) {
    (seed, 362436069u32, 521288629u32, 88675123u32)
}

/// One xorshift128 transition of the four-word state.
pub open spec fn next_state(s: (u32, u32, u32, u32)) -> (u32, u32, u32, u32) {
    let t = s.0 ^ (s.0 << 11u32);
    (s.1, s.2, s.3, (s.3 ^ (s.3 >> 19u32)) ^ (t ^ (t >> 8u32)))
}

/// The state reached after `k` transitions from `seed_state(seed)`.
pub open spec fn state_after(seed: u32, k: nat) -> (u32, u32, u32, u32)
    decreases k,
{
    if k == 0 {
        seed_state(seed)
    } else {
        next_state(state_after(seed, (k - 1) as nat))
    }
}

/// The `k`-th value (counting from 0) drawn from a generator seeded with
/// `seed`: the last word of the state after `k + 1` transitions.
pub open spec fn draw(seed: u32, k: nat) -> u32 {
    state_after(seed, k + 1).3
}

impl Rng {
    /// The four words of the current state.
    pub closed spec fn state(self) -> (u32, u32, u32, u32) {
        (self.x, self.y, self.z, self.w)
    }

    pub fn new(seed: u32) -> (r: Rng)
        ensures
            r.state() == seed_state(seed),
    {
        Rng { x: seed, y: 362_436_069, z: 521_288_629, w: 88_675_123 }
    }

    /// Advance the state by one transition and return its last word.
    pub fn rand(&mut self) -> (r: u32)
        ensures
            final(self).state() == next_state(old(self).state()),
            r == next_state(old(self).state()).3,
    {
        let t = self.x ^ (self.x << 11);
        self.x = self.y;
        self.y = self.z;
        self.z = self.w;
        self.w = (self.w ^ (self.w >> 19)) ^ (t ^ (t >> 8));
        self.w
    }
}

/// Seeding and then drawing `k + 1` times yields `draw(seed, k)`, whatever
/// else happened in between draws: the stream depends on the seed alone.
/// Stated here as the step identity that callers chain along a run of
/// `rand` calls.
pub proof fn lemma_draw_step(seed: u32, k: nat)
    ensures
        state_after(seed, k + 1) == next_state(state_after(seed, k)),
        draw(seed, k) == next_state(state_after(seed, k)).3,
{
}

} // verus!
