//! A small deterministic pseudo-random source for the chaos game.
//!
//! The generator reseeds an identical stream at the start of every pass,
//! so two passes over the same system and buffer length produce
//! element-for-element identical output. The stream is a 128-bit
//! xorshift: four 32-bit words stepped with shifts and xors, a pure
//! function of the seed, so the whole stream is pinned by the contracts
//! and reproducible on every machine.

use vstd::prelude::*;

verus! {

/// A 128-bit xorshift state. The four words are never all zero: two of
/// the words a fresh state starts from are fixed nonzero constants.
#[derive(Clone, Copy, PartialEq, Eq, Structural, Debug)]
pub struct XorShift128 {
    pub x: u32,
    pub y: u32,
    pub z: u32,
    pub w: u32,
}

/// The state a given 64-bit seed starts from: the seed's two halves and
/// two fixed nonzero words.
pub open spec fn seed_state(seed: u64) -> XorShift128 {
    XorShift128 {
        x: (seed & 0xFFFF_FFFF) as u32,
        y: (seed >> 32) as u32,
        z: 0x9E37_79B9u32,
        w: 0x243F_6A88u32,
    }
}

/// One xorshift step; the next draw is the `w` word of the new state.
pub open spec fn step_state(s: XorShift128) -> XorShift128 {
    let t = s.x ^ (s.x << 11);
    XorShift128 {
        x: s.y,
        y: s.z,
        z: s.w,
        w: s.w ^ (s.w >> 19) ^ (t ^ (t >> 8)),
    }
}

/// The state after `k` draws from a fresh state with the given seed.
pub open spec fn state_after(seed: u64, k: nat) -> XorShift128
    decreases k,
{
    if k == 0 {
        seed_state(seed)
    } else {
        step_state(state_after(seed, (k - 1) as nat))
    }
}

/// The `k`-th draw (0-indexed) of the stream with the given seed.
pub open spec fn draw_at(seed: u64, k: nat) -> u32 {
    state_after(seed, k + 1).w
}

impl XorShift128 {
    /// A fresh state for the given seed.
    pub fn new(seed: u64) -> (r: XorShift128)
        ensures
            r == seed_state(seed),
    {
        XorShift128 {
            x: (seed & 0xFFFF_FFFF) as u32,
            y: (seed >> 32) as u32,
            z: 0x9E37_79B9u32,
            w: 0x243F_6A88u32,
        }
    }

    /// Advance one step and hand out the new `w` word.
    pub fn next_u32(&mut self) -> (r: u32)
        ensures
            *final(self) == step_state(*old(self)),
            r == step_state(*old(self)).w,
    {
        let t: u32 = self.x ^ (self.x << 11u32);
        let nw: u32 = self.w ^ (self.w >> 19u32) ^ (t ^ (t >> 8u32));
        self.x = self.y;
        self.y = self.z;
        self.z = self.w;
        self.w = nw;
        nw
    }
}

} // verus!
