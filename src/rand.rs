//! A tiny xorshift pseudo-random generator.
use vstd::prelude::*;

verus! {

/// One xorshift step on 32 bits: shifts 13 left, 17 right, 5 left, each
/// folded back in with exclusive or.
pub open spec fn xorshift_spec(x: u32) -> u32 {
    let a = x ^ ((x << 13u32) as u32);
    let b = a ^ (a >> 17u32);
    b ^ ((b << 5u32) as u32)
}

/// Each xorshift step is injective, so a nonzero state never reaches zero.
pub proof fn lemma_xorshift_nonzero(x: u32)
    ensures
        x != 0 ==> xorshift_spec(x) != 0,
{
    let a = x ^ ((x << 13u32) as u32);
    let b = a ^ (a >> 17u32);
    let c = b ^ ((b << 5u32) as u32);
    assert(x != 0 ==> a != 0) by (bit_vector)
        requires
            a == x ^ ((x << 13u32) as u32),
    ;
    assert(a != 0 ==> b != 0) by (bit_vector)
        requires
            b == a ^ (a >> 17u32),
    ;
    assert(b != 0 ==> c != 0) by (bit_vector)
        requires
            c == b ^ ((b << 5u32) as u32),
    ;
}

/// Advances a 32-bit xorshift state.
pub fn xorshift(x: u32) -> (r: u32)
    ensures
        r == xorshift_spec(x),
        x != 0 ==> r != 0,
{
    let a = x ^ (x << 13u32);
    let b = a ^ (a >> 17u32);
    let c = b ^ (b << 5u32);
    proof {
        lemma_xorshift_nonzero(x);
    }
    c
}

/// A seeded xorshift noise source.
pub struct SimpleRng {
    pub seed: u32,
}

impl SimpleRng {
    /// A generator whose state is `seed`.
    pub fn new(seed: u32) -> (r: SimpleRng)
        ensures
            r.seed == seed,
    {
        SimpleRng { seed }
    }

    /// Advances the state by one xorshift step and returns the new state.
    /// Divided by `u32::MAX` it is a uniform-looking value in `[0, 1]`.
    pub fn next_state(&mut self) -> (r: u32)
        ensures
            r == xorshift_spec(old(self).seed),
            final(self).seed == r,
    {
        self.seed = xorshift(self.seed);
        self.seed
    }
}

} // verus!
