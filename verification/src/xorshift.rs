//! The xorshift generator with four words of state, which numbers the fresh
//! names of nested functions.

use vstd::prelude::*;

verus! {

/// The state of the generator: four words.
#[derive(Clone, Copy, Debug, PartialEq, Eq, Structural)]
pub struct XorShift {
    pub x: u32,
    pub y: u32,
    pub z: u32,
    pub w: u32,
}

impl XorShift {
    /// The state after one step: the words move up by one, and the new last
    /// word is made of the old first and last by shifts and exclusive or.
    pub open spec fn stepped(self) -> XorShift {
        let t = self.x ^ (self.x << 11);
        XorShift { x: self.y, y: self.z, z: self.w, w: self.w ^ (self.w >> 19) ^ (t ^ (t >> 8)) }
    }

    /// The number that the next step gives: the last word after it.
    pub open spec fn output(self) -> u32 {
        self.stepped().w
    }

    /// The generator in its fixed first state.
    pub open spec fn unseeded() -> XorShift {
        XorShift { x: 0x193a6754, y: 0xa8a7d469, z: 0x97830e05, w: 0x113ba7bb }
    }

    /// A generator in the fixed first state: every generator made here gives
    /// the same numbers.
    pub fn new_unseeded() -> (r: XorShift)
        ensures
            r == XorShift::unseeded(),
    {
        XorShift { x: 0x193a6754, y: 0xa8a7d469, z: 0x97830e05, w: 0x113ba7bb }
    }

    /// Makes one step and returns the number that it gives.
    pub fn next_u32(&mut self) -> (r: u32)
        ensures
            *final(self) == old(self).stepped(),
            r == old(self).output(),
    {
        let x = self.x;
        let t = x ^ (x << 11);
        self.x = self.y;
        self.y = self.z;
        self.z = self.w;
        let w = self.w;
        self.w = w ^ (w >> 19) ^ (t ^ (t >> 8));
        self.w
    }
}

} // verus!
