//! The input bitmask: a compact change detector for the input vector.
use vstd::prelude::*;
use vstd::arithmetic::power2::{pow2, lemma2_to64, lemma2_to64_rest, lemma_pow2_adds, lemma_pow2_strictly_increases};

verus! {

/// The most inputs a session can be configured with: the bitmask of that many
/// decimal states still fits in 64 bits.
pub const MAX_INPUTS: usize = 60;

/// Every state is a decimal digit.
pub open spec fn all_digits(s: Seq<u32>) -> bool {
    forall|i: int| 0 <= i < s.len() ==> s[i] <= 9
}

/// The input bitmask: the sum over `i` of `s[i] << i`, so the first input is the
/// least significant bit.
pub open spec fn input_mask(s: Seq<u32>) -> int
    decreases s.len(),
{
    if s.len() == 0 {
        0
    } else {
        s[0] + 2 * input_mask(s.drop_first())
    }
}

/// Computes the input bitmask of `states`.
pub fn compute_mask(states: &Vec<u32>) -> (r: u64)
    requires
        states@.len() <= MAX_INPUTS,
        all_digits(states@),
    ensures
        r == input_mask(states@),
{
    let n = states.len();
    let mut m: u64 = 0;
    let mut i: usize = n;
    proof {
        lemma2_to64();
        lemma2_to64_rest();
        assert(states@.subrange(n as int, n as int) =~= Seq::<u32>::empty());
    }
    while i > 0
        invariant
            n == states@.len(),
            n <= MAX_INPUTS,
            all_digits(states@),
            i <= n,
            m == input_mask(states@.subrange(i as int, n as int)),
            m <= 9 * (pow2((n - i) as nat) - 1),
            pow2(1) == 2,
            pow2(60) == 0x1000000000000000,
        decreases i,
    {
        let ghost k = (n - i) as nat;
        proof {
            lemma_pow2_adds(k, 1);
            if k + 1 < 60 {
                lemma_pow2_strictly_increases(k + 1, 60);
            }
            assert(states@.subrange(i - 1, n as int).drop_first() =~= states@.subrange(
                i as int,
                n as int,
            ));
        }
        i = i - 1;
        m = 2 * m + states[i] as u64;
    }
    proof {
        assert(states@.subrange(0, n as int) =~= states@);
    }
    m
}

} // verus!
