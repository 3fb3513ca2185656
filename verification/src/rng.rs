//! Deterministic pseudo-random number source.
//!
//! The engine takes its randomness as an injected capability: a host seeds
//! an [`Rng`] and every draw after that is a pure function of the seed, so
//! tests can replay any game. The generator is the splitmix64 recurrence.

use vstd::prelude::*;

verus! {

/// The word size the generator works in.
pub open spec fn word() -> int {
    0x1_0000_0000_0000_0000
}

/// The successor state of the generator.
pub open spec fn advanced(s: u64) -> u64 {
    (((s as int) + 0x9E3779B97F4A7C15) % word()) as u64
}

/// The output word mixed out of a state.
pub open spec fn mixed(s: u64) -> u64 {
    let z1 = s ^ (s >> 30);
    let z2 = (((z1 as int) * 0xBF58476D1CE4E5B9) % word()) as u64;
    let z3 = z2 ^ (z2 >> 27);
    let z4 = (((z3 as int) * 0x94D049BB133111EB) % word()) as u64;
    z4 ^ (z4 >> 31)
}

/// A seeded pseudo-random generator.
pub struct Rng {
    pub state: u64,
}

impl Rng {
    /// A generator starting from the given seed.
    pub fn new(seed: u64) -> (r: Rng)
        ensures
            r.state == seed,
    {
        Rng { state: seed }
    }

    /// The next raw word of the stream.
    pub fn next_u64(&mut self) -> (r: u64)
        ensures
            final(self).state == advanced(old(self).state),
            r == mixed(final(self).state),
    {
        let ns: u64 = (((self.state as u128) + 0x9E3779B97F4A7C15u128) % 0x1_0000_0000_0000_0000u128) as u64;
        self.state = ns;
        let z1: u64 = ns ^ (ns >> 30);
        let z2: u64 = (((z1 as u128) * 0xBF58476D1CE4E5B9u128) % 0x1_0000_0000_0000_0000u128) as u64;
        let z3: u64 = z2 ^ (z2 >> 27);
        let z4: u64 = (((z3 as u128) * 0x94D049BB133111EBu128) % 0x1_0000_0000_0000_0000u128) as u64;
        z4 ^ (z4 >> 31)
    }

    /// A draw uniform over `0..n`.
    pub fn next_below(&mut self, n: u64) -> (r: u64)
        requires
            n >= 1,
        ensures
            final(self).state == advanced(old(self).state),
            r == mixed(final(self).state) % n,
            r < n,
    {
        let w = self.next_u64();
        w % n
    }
}

} // verus!
