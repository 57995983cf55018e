//! The noise source of the synthesiser: a 32-bit xorshift generator.

use vstd::prelude::*;

verus! {

/// One step of Marsaglia's xorshift32 generator with shifts 13, 17, 5.
pub open spec fn xorshift_step(x: u32) -> u32 {
    let a = x ^ (x << 13u32);
    let b = a ^ (a >> 17u32);
    b ^ (b << 5u32)
}

/// A step of the generator maps a non-zero state to a non-zero state.
pub proof fn lemma_step_nonzero(x: u32)
    requires
        x != 0,
    ensures
        xorshift_step(x) != 0,
{
    let a = x ^ (x << 13u32);
    assert(a != 0) by (bit_vector)
        requires
            x != 0,
            a == x ^ (x << 13u32),
    ;
    let b = a ^ (a >> 17u32);
    assert(b != 0) by (bit_vector)
        requires
            a != 0,
            b == a ^ (a >> 17u32),
    ;
    let c = b ^ (b << 5u32);
    assert(c != 0) by (bit_vector)
        requires
            b != 0,
            c == b ^ (b << 5u32),
    ;
}

/// Pseudo-random generator used for the aspiration and frication noise.
pub struct Xorshift32 {
    state: u32,
}

impl View for Xorshift32 {
    type V = u32;

    closed spec fn view(&self) -> u32 {
        self.state
    }
}

impl Xorshift32 {
    #[verifier::type_invariant]
    spec fn state_nonzero(self) -> bool {
        self.state != 0
    }

    /// Seeds a generator; a zero seed is replaced by 1.
    pub fn new(seed: u32) -> (r: Self)
        ensures
            r@ == (if seed == 0 { 1 } else { seed }),
            r@ != 0,
    {
        let state = if seed < 1 { 1 } else { seed };
        Xorshift32 { state }
    }

    /// Advances the generator and returns the new state read as a signed
    /// 32-bit sample (two's complement).
    pub fn next_i32(&mut self) -> (r: i32)
        ensures
            old(self)@ != 0,
            final(self)@ == xorshift_step(old(self)@),
            final(self)@ != 0,
            r == final(self)@ as i32,
    {
        proof {
            use_type_invariant(&*self);
        }
        let mut x = self.state;
        x = x ^ (x << 13u32);
        x = x ^ (x >> 17u32);
        x = x ^ (x << 5u32);
        proof {
            lemma_step_nonzero(self.state);
        }
        self.state = x;
        x as i32
    }
}

} // verus!
