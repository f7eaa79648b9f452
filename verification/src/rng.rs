use vstd::prelude::*;

verus! {

/// The generator state that follows `s`.
pub open spec fn advance(s: u64) -> u64 {
    s.wrapping_add(0x9E37_79B9_7F4A_7C15u64)
}

/// The 64-bit output drawn from the generator state `z`.
pub open spec fn scramble(z: u64) -> u64 {
    let a = (z ^ (z >> 30u64)).wrapping_mul(0xBF58_476D_1CE4_E5B9u64);
    let b = (a ^ (a >> 27u64)).wrapping_mul(0x94D0_49BB_1331_11EBu64);
    b ^ (b >> 31u64)
}

/// The number in `[low, high]` that a generator in state `s` draws next.
pub open spec fn pick(s: u64, low: int, high: int) -> int {
    low + (scramble(advance(s)) as int) % (high - low + 1)
}

/// The coin that a generator in state `s` flips next.
pub open spec fn flip(s: u64) -> bool {
    scramble(advance(s)) % 2 == 1
}

/// A small seedable pseudo-random number generator (SplitMix64).
///
/// The sequence of draws is a function of the seed alone, so a dungeon can
/// be regenerated from its seed.
#[derive(Clone, Copy, Debug, PartialEq, Eq, Structural)]
pub struct Rng {
    state: u64,
}

impl View for Rng {
    type V = u64;

    /// The current generator state.
    closed spec fn view(&self) -> u64 {
        self.state
    }
}

impl Rng {
    /// A generator that starts from `seed`.
    pub fn new(seed: u64) -> (rng: Rng)
        ensures
            rng@ == seed,
    {
        Rng { state: seed }
    }

    /// Draws the next 64 bits.
    pub fn next_u64(&mut self) -> (r: u64)
        ensures
            final(self)@ == advance(old(self)@),
            r == scramble(advance(old(self)@)),
    {
        self.state = self.state.wrapping_add(0x9E37_79B9_7F4A_7C15u64);
        let z: u64 = self.state;
        let a: u64 = (z ^ (z >> 30u64)).wrapping_mul(0xBF58_476D_1CE4_E5B9u64);
        let b: u64 = (a ^ (a >> 27u64)).wrapping_mul(0x94D0_49BB_1331_11EBu64);
        b ^ (b >> 31u64)
    }

    /// Draws a number between `low` and `high`, both included.
    pub fn gen_range(&mut self, low: i32, high: i32) -> (r: i32)
        requires
            low <= high,
        ensures
            final(self)@ == advance(old(self)@),
            r == pick(old(self)@, low as int, high as int),
            low <= r <= high,
    {
        let span: u64 = (high as i64 - low as i64 + 1) as u64;
        let offset: u64 = self.next_u64() % span;
        (low as i64 + offset as i64) as i32
    }

    /// Flips a coin.
    pub fn gen_bool(&mut self) -> (b: bool)
        ensures
            final(self)@ == advance(old(self)@),
            b == flip(old(self)@),
    {
        self.next_u64() % 2 == 1
    }
}

} // verus!
