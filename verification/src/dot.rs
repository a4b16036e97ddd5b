//! Three counters and the rippling of bits into them.

use vstd::prelude::*;

verus! {

/// Three small counters.
#[derive(Debug, Clone, Copy, PartialEq, Eq)]
pub struct Dot(pub u8, pub u8, pub u8);

impl Default for Dot {
    fn default() -> (r: Dot)
        ensures
            r == Dot(0, 0, 0),
    {
        Dot(0, 0, 0)
    }
}

/// What is left of `n` and of `mask` when, as long as the two share a bit
/// and for at most `rounds` rounds, the bits of `mask` are flipped in `n`
/// and `mask` moves one place up.
pub open spec fn ripple(n: u8, mask: u8, rounds: nat) -> (u8, u8)
    decreases rounds,
{
    if rounds == 0 || n & mask == 0 {
        (n, mask)
    } else {
        ripple(n ^ mask, mask << 1, (rounds - 1) as nat)
    }
}

/// The counter at `idx`.
pub open spec fn counter(dot: Dot, idx: int) -> u8 {
    if idx == 0 {
        dot.0
    } else if idx == 1 {
        dot.1
    } else {
        dot.2
    }
}

proof fn lemma_low_bits_stay_clear(mask: u8, k: u16)
    by (bit_vector)
    requires
        k < 8,
        (mask as u16) & (((1u16 << k) - 1) as u16) == 0,
    ensures
        ((mask << 1) as u16) & (((1u16 << ((k + 1) as u16)) - 1) as u16) == 0,
{
}

proof fn lemma_all_bits_clear(mask: u8)
    by (bit_vector)
    requires
        (mask as u16) & (((1u16 << 8u16) - 1) as u16) == 0,
    ensures
        mask == 0,
{
}

proof fn lemma_no_bits_to_clear(mask: u8)
    by (bit_vector)
    ensures
        (mask as u16) & (((1u16 << 0u16) - 1) as u16) == 0,
{
}

fn ripple_up(n: u8, mask: u8) -> (r: (u8, u8))
    ensures
        r == ripple(n, mask, 8),
{
    let ghost start = (n, mask);
    let mut n = n;
    let mut mask = mask;
    let mut rounds: u16 = 0;
    proof {
        lemma_no_bits_to_clear(mask);
    }
    while n & mask != 0
        invariant
            rounds <= 8,
            (mask as u16) & (((1u16 << rounds) - 1) as u16) == 0,
            ripple(n, mask, (8 - rounds) as nat) == ripple(start.0, start.1, 8),
        decreases 8 - rounds,
    {
        proof {
            if rounds == 8 {
                lemma_all_bits_clear(mask);
                assert(n & 0 == 0) by (bit_vector);
            }
            lemma_low_bits_stay_clear(mask, rounds);
        }
        n = n ^ mask;
        mask = mask << 1;
        rounds = rounds + 1;
    }
    (n, mask)
}

impl Dot {
    /// A dot with the given counters.
    pub fn new(x: u8, y: u8, z: u8) -> (r: Dot)
        ensures
            r == Dot(x, y, z),
    {
        Dot(x, y, z)
    }

    /// The three counters.
    pub fn tup(&self) -> (r: (u8, u8, u8))
        ensures
            r == (self.0, self.1, self.2),
    {
        (self.0, self.1, self.2)
    }

    /// Ripples `n` into the counter at `idx`: the counter moves up as far as
    /// it shares a bit with what is left of `n`, and the result is what is
    /// left of `n` with the counter's bits flipped in.
    pub fn inc(&mut self, idx: usize, n: u8) -> (r: u8)
        requires
            idx < 3,
        ensures
            r == ripple(n, counter(*old(self), idx as int), 8).0 ^ ripple(
                n,
                counter(*old(self), idx as int),
                8,
            ).1,
            counter(*final(self), idx as int) == ripple(n, counter(*old(self), idx as int), 8).1,
            forall|other: int|
                0 <= other < 3 && other != idx ==> counter(*final(self), other) == counter(
                    *old(self),
                    other,
                ),
    {
        if idx == 0 {
            let (left, mask) = ripple_up(n, self.0);
            self.0 = mask;
            left ^ mask
        } else if idx == 1 {
            let (left, mask) = ripple_up(n, self.1);
            self.1 = mask;
            left ^ mask
        } else {
            let (left, mask) = ripple_up(n, self.2);
            self.2 = mask;
            left ^ mask
        }
    }
}

} // verus!
