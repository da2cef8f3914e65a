//! A tiny, fast and predictable pseudo-random bit source.
//!
//! The generator keeps four 32-bit words and mixes them with rotations,
//! an exclusive or and wrapping sums. Equal seeds give equal sequences.

use crate::key::{lemma_one, magnitude, unit, ONE};
use vstd::arithmetic::power2::{lemma_pow2_pos, pow2};
use vstd::prelude::*;

verus! {

/// The four words of a generator, as a mathematical value.
pub struct Words {
    pub w0: u32,
    pub w1: u32,
    pub w2: u32,
    pub w3: u32,
}

/// The number of outputs that seeding discards so that the words mix.
pub const SEED_ROUNDS: u32 = 20;

/// The fixed first word of a freshly seeded generator.
pub const SEED_WORD: u32 = 0xf1ea5eed;

/// `x` rotated left by 27 bits.
pub open spec fn rot27(x: u32) -> u32 {
    (x << 27u32) | (x >> 5u32)
}

/// `x` rotated left by 17 bits.
pub open spec fn rot17(x: u32) -> u32 {
    (x << 17u32) | (x >> 15u32)
}

/// The sum of `x` and `y` modulo 2^32.
pub open spec fn sum32(x: u32, y: u32) -> u32 {
    ((x + y) % 0x1_0000_0000) as u32
}

/// The difference of `x` and `y` modulo 2^32.
pub open spec fn diff32(x: u32, y: u32) -> u32 {
    ((x - y) % 0x1_0000_0000) as u32
}

/// One round of the generator.
pub open spec fn step(s: Words) -> Words {
    let e = diff32(s.w0, rot27(s.w1));
    let w0 = s.w1 ^ rot17(s.w2);
    let w1 = sum32(s.w2, s.w3);
    let w2 = sum32(s.w3, e);
    let w3 = sum32(e, w0);
    Words { w0, w1, w2, w3 }
}

/// The words after `n` rounds from `s`.
pub open spec fn advance(s: Words, n: nat) -> Words
    decreases n,
{
    if n == 0 {
        s
    } else {
        step(advance(s, (n - 1) as nat))
    }
}

/// The `n`-th output drawn from a generator whose words are `s`, counting from zero.
pub open spec fn output(s: Words, n: nat) -> u32 {
    advance(s, n + 1).w3
}

/// The words from which seeding with `s` starts to mix.
pub open spec fn unmixed(s: u32) -> Words {
    Words { w0: SEED_WORD, w1: s, w2: s, w3: s }
}

/// The words of a generator seeded with `s`.
pub open spec fn seeded(s: u32) -> Words {
    advance(unmixed(s), SEED_ROUNDS as nat)
}

/// Returns uniformly distributed random bits.
pub struct PRNG {
    rng0: u32,
    rng1: u32,
    rng2: u32,
    rng3: u32,
}

impl View for PRNG {
    type V = Words;

    closed spec fn view(&self) -> Words {
        Words { w0: self.rng0, w1: self.rng1, w2: self.rng2, w3: self.rng3 }
    }
}

impl PRNG {
    /// Thoroughly but relatively slowly initialises the generator from a
    /// 32-bit value, running enough rounds to ensure good mixing.
    pub fn seed(s: u32) -> (n: Self)
        ensures
            n@ == seeded(s),
    {
        let mut n = PRNG { rng0: SEED_WORD, rng1: s, rng2: s, rng3: s };
        let mut i: u32 = 0;
        while i < SEED_ROUNDS
            invariant
                i <= SEED_ROUNDS,
                n@ == advance(unmixed(s), i as nat),
            decreases SEED_ROUNDS - i,
        {
            n.uniform_u32();
            i = i + 1;
        }
        n
    }

    /// Returns the next 32 random bits and moves the generator one round on.
    pub fn uniform_u32(&mut self) -> (r: u32)
        ensures
            final(self)@ == step(old(self)@),
            r == step(old(self)@).w3,
    {
        let rng4 = self.rng0.wrapping_sub((self.rng1 << 27) | (self.rng1 >> 5));
        self.rng0 = self.rng1 ^ ((self.rng2 << 17) | (self.rng2 >> 15));
        self.rng1 = self.rng2.wrapping_add(self.rng3);
        self.rng2 = self.rng3.wrapping_add(rng4);
        self.rng3 = rng4.wrapping_add(self.rng0);
        self.rng3
    }

    /// Returns the next value as a number from zero up to, but not
    /// including, one: the next 32 random bits divided by 2^32, as an
    /// order key.
    pub fn uniform_key(&mut self) -> (k: u64)
        ensures
            final(self)@ == step(old(self)@),
            magnitude(k) * pow2(32) == step(old(self)@).w3 * pow2(1074),
            k < ONE,
    {
        let bits = self.uniform_u32();
        unit(bits)
    }
}

/// Rounds follow one another: `n` rounds after `m` rounds are `m + n`
/// rounds. A generator that has been drawn from goes on as one that was
/// advanced by as many rounds.
pub proof fn lemma_advance_adds(s: Words, m: nat, n: nat)
    ensures
        advance(advance(s, m), n) == advance(s, m + n),
    decreases n,
{
    if n > 0 {
        lemma_advance_adds(s, m, (n - 1) as nat);
    }
}

/// The outputs depend on the seed alone: generators seeded alike draw
/// alike, however far the sequence is followed.
pub proof fn lemma_reproducible(s1: u32, s2: u32, n: nat)
    requires
        s1 == s2,
    ensures
        output(seeded(s1), n) == output(seeded(s2), n),
        advance(seeded(s1), n) == advance(seeded(s2), n),
{
}

/// A draw divided by 2^32 lies in the unit interval, one excluded: the
/// key that stands for it stands for less than `ONE` does.
pub proof fn lemma_unit_interval(k: u64, bits: u32)
    requires
        magnitude(k) * pow2(32) == bits * pow2(1074),
    ensures
        magnitude(k) < magnitude(ONE),
        k < ONE,
{
    lemma_one();
    lemma_pow2_pos(1074);
    vstd::arithmetic::power2::lemma2_to64();
    let p = pow2(1074);
    let q = pow2(32);
    let m = magnitude(k);
    assert(m < p) by (nonlinear_arith)
        requires
            m * q == bits * p,
            bits < q,
            p > 0,
            q > 0,
    ;
    crate::key::lemma_order(k, ONE);
}

} // verus!
