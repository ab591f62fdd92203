//! The source of the games' random choices: a xorshift generator that the
//! host seeds once. Every draw is a function of the seed and the number of
//! earlier draws, so a game can be replayed from its seed.
use vstd::prelude::*;

verus! {

/// The state a zero seed is replaced by (xorshift never leaves zero).
pub const NONZERO_SEED: u64 = 0x9E37_79B9_7F4A_7C15u64;

/// One xorshift64 step.
pub open spec fn next_state(s: u64) -> u64 {
    let a = s ^ (s << 13u64);
    let b = a ^ (a >> 7u64);
    b ^ (b << 17u64)
}

/// The state a generator seeded with `seed` starts in.
pub open spec fn seeded_state(seed: u64) -> u64 {
    if seed == 0 {
        NONZERO_SEED
    } else {
        seed
    }
}

#[derive(Clone, Copy)]
pub struct RandomSource {
    state: u64,
}

impl RandomSource {
    /// The generator's current state.
    pub closed spec fn state(&self) -> u64 {
        self.state
    }

    /// A generator started from `seed`.
    pub fn from_seed(seed: u64) -> (r: Self)
        ensures
            r.state() == seeded_state(seed),
    {
        let state = if seed == 0 {
            NONZERO_SEED
        } else {
            seed
        };
        RandomSource { state }
    }

    /// Advances the generator and returns its new state.
    pub fn next_u64(&mut self) -> (r: u64)
        ensures
            final(self).state() == next_state(old(self).state()),
            r == final(self).state(),
    {
        let s = self.state;
        let a = s ^ (s << 13u64);
        let b = a ^ (a >> 7u64);
        let c = b ^ (b << 17u64);
        self.state = c;
        c
    }

    /// A draw in `0..bound`: the next state taken modulo `bound`.
    pub fn next_below(&mut self, bound: u32) -> (r: u32)
        requires
            bound > 0,
        ensures
            final(self).state() == next_state(old(self).state()),
            r == final(self).state() % (bound as u64),
            r < bound,
    {
        let x = self.next_u64();
        (x % (bound as u64)) as u32
    }
}

} // verus!
