use vstd::arithmetic::div_mod::lemma_add_mod_noop_right;
use vstd::prelude::*;

verus! {

/// One more than the largest `u64`: the modulus of wrap-around addition.
pub open spec fn word_modulus() -> int {
    0x1_0000_0000_0000_0000
}

/// The exact sum of a sequence, as an unbounded integer.
pub open spec fn sum_of(s: Seq<u64>) -> int
    decreases s.len(),
{
    if s.len() == 0 {
        0
    } else {
        s[0] + sum_of(s.drop_first())
    }
}

/// The sum of a sequence under 64-bit wrap-around addition.
pub open spec fn wrapped_sum(s: Seq<u64>) -> u64 {
    (sum_of(s) % word_modulus()) as u64
}

/// The exact sum of a sequence is never negative.
pub proof fn lemma_sum_of_nonnegative(s: Seq<u64>)
    ensures
        sum_of(s) >= 0,
    decreases s.len(),
{
    if s.len() > 0 {
        lemma_sum_of_nonnegative(s.drop_first());
    }
}

/// Adding the first element of `s` into the accumulator, with wrap-around,
/// keeps the total of accumulator and rest unchanged modulo 2^64.
pub proof fn lemma_wrapping_step(acc: u64, s: Seq<u64>)
    requires
        s.len() > 0,
    ensures
        (acc.wrapping_add(s[0]) + sum_of(s.drop_first())) % word_modulus()
            == (acc + sum_of(s)) % word_modulus(),
{
    let m = word_modulus();
    let t = acc + s[0];
    assert(acc.wrapping_add(s[0]) == t % m);
    lemma_add_mod_noop_right(sum_of(s.drop_first()), t, m);
    assert(sum_of(s) == s[0] + sum_of(s.drop_first()));
}

} // verus!
