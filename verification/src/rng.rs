//! A very fast non-cryptographic generator of 64-bit words.

use vstd::arithmetic::div_mod::lemma_fundamental_div_mod;
use vstd::arithmetic::div_mod::lemma_mod_multiples_basic;
use vstd::arithmetic::div_mod::lemma_mod_multiples_vanish;
use vstd::prelude::*;

verus! {

/// What the state grows by from one word to the next.
pub const GAMMA: u64 = 0x9e37_79b9_7f4a_7c15;

/// The first multiplier of the output function.
pub const MIX_1: u64 = 0xbf58_476d_1ce4_e5b9;

/// The second multiplier of the output function.
pub const MIX_2: u64 = 0x94d0_49bb_1331_11eb;

/// The number of states.
pub open spec fn modulus() -> int {
    0x1_0000_0000_0000_0000
}

/// The state that follows `state`.
pub open spec fn next_state(state: u64) -> u64 {
    ((state + GAMMA) % modulus()) as u64
}

/// The state `steps` words after `state`.
pub open spec fn state_after(state: u64, steps: nat) -> u64
    decreases steps,
{
    if steps == 0 {
        state
    } else {
        next_state(state_after(state, (steps - 1) as nat))
    }
}

/// The product of two words, without the bits that do not fit.
pub open spec fn low_product(a: u64, b: u64) -> u64 {
    ((a * b) % modulus()) as u64
}

/// The word that a state puts out.
pub open spec fn mix(state: u64) -> u64 {
    let a = low_product(state ^ (state >> 30u64), MIX_1);
    let b = low_product(a ^ (a >> 27u64), MIX_2);
    b ^ (b >> 31u64)
}

/// The word put out `index` words after the first one from `state`.
pub open spec fn word(state: u64, index: nat) -> u64 {
    mix(state_after(state, index + 1))
}

/// A very fast non-cryptographic PRNG.
///
/// Connection IDs drawn from it only have to miss an 80-bit tag, which anything
/// unpredictable to the target does; a cryptographic generator would cost more
/// than sending the packet.
pub struct SplitMix64(pub u64);

impl SplitMix64 {
    /// The next word.
    pub fn next(&mut self) -> (word: u64)
        ensures
            final(self).0 == next_state(old(self).0),
            word == mix(final(self).0),
    {
        self.0 = self.0.wrapping_add(GAMMA);
        let mut z: u64 = self.0;
        z = (z ^ (z >> 30u64)).wrapping_mul(MIX_1);
        z = (z ^ (z >> 27u64)).wrapping_mul(MIX_2);
        z ^ (z >> 31u64)
    }
}

/// A multiple of an invertible factor vanishes only where the other factor does.
proof fn invertible_factor_cancels(x: int, factor: int, inverse: int, carry: int)
    requires
        factor * inverse == carry * modulus() + 1,
        (x * factor) % modulus() == 0,
    ensures
        x % modulus() == 0,
{
    let m = modulus();
    let q = (x * factor) / m;
    lemma_fundamental_div_mod(x * factor, m);
    assert(x == m * (q * inverse - x * carry)) by (nonlinear_arith)
        requires
            x * factor == m * q,
            factor * inverse == carry * m + 1,
    ;
    assert(x == (q * inverse - x * carry) * m) by (nonlinear_arith)
        requires
            x == m * (q * inverse - x * carry),
    ;
    lemma_mod_multiples_basic(q * inverse - x * carry, m);
}

/// Two words with the same product by an invertible factor are equal.
proof fn low_product_injective(a: u64, b: u64, factor: u64, inverse: int, carry: int)
    requires
        factor * inverse == carry * modulus() + 1,
        low_product(a, factor) == low_product(b, factor),
    ensures
        a == b,
{
    let m = modulus();
    lemma_fundamental_div_mod(a * factor, m);
    lemma_fundamental_div_mod(b * factor, m);
    let q = (a * factor) / m - (b * factor) / m;
    assert((a - b) * factor == q * m) by (nonlinear_arith)
        requires
            a * factor == m * ((a * factor) / m) + (a * factor) % m,
            b * factor == m * ((b * factor) / m) + (b * factor) % m,
            (a * factor) % m == (b * factor) % m,
            q == (a * factor) / m - (b * factor) / m,
    ;
    lemma_mod_multiples_basic(q, m);
    invertible_factor_cancels(a - b, factor as int, inverse, carry);
}

/// No two states put out the same word.
pub proof fn mix_is_injective(a: u64, b: u64)
    requires
        mix(a) == mix(b),
    ensures
        a == b,
{
    let a1 = low_product(a ^ (a >> 30u64), MIX_1);
    let b1 = low_product(b ^ (b >> 30u64), MIX_1);
    let a2 = low_product(a1 ^ (a1 >> 27u64), MIX_2);
    let b2 = low_product(b1 ^ (b1 >> 27u64), MIX_2);
    assert(a2 ^ (a2 >> 31u64) == b2 ^ (b2 >> 31u64) ==> a2 == b2) by (bit_vector);
    low_product_injective(
        a1 ^ (a1 >> 27u64),
        b1 ^ (b1 >> 27u64),
        MIX_2,
        0x3196_42b2_d24d_8ec3,
        0x1cd3_36ed_a85f_1453,
    );
    assert(a1 ^ (a1 >> 27u64) == b1 ^ (b1 >> 27u64) ==> a1 == b1) by (bit_vector);
    low_product_injective(
        a ^ (a >> 30u64),
        b ^ (b >> 30u64),
        MIX_1,
        0x96de_1b17_3f11_9089,
        0x70c3_bca7_8f27_f46c,
    );
    assert(a ^ (a >> 30u64) == b ^ (b >> 30u64) ==> a == b) by (bit_vector);
}

/// The state after `steps` words, in one formula.
pub proof fn state_after_is_linear(state: u64, steps: nat)
    ensures
        state_after(state, steps) == (state + steps * GAMMA) % modulus(),
    decreases steps,
{
    let m = modulus();
    if steps == 0 {
        assert(0 * GAMMA == 0);
    } else {
        let prior = (steps - 1) as nat;
        state_after_is_linear(state, prior);
        let total = state + prior * GAMMA;
        assert(state + steps * GAMMA == total + GAMMA) by (nonlinear_arith)
            requires
                total == state + prior * GAMMA,
                prior == steps - 1,
        ;
        vstd::arithmetic::div_mod::lemma_add_mod_noop_right(GAMMA as int, total, m);
        assert((GAMMA + total % m) % m == (GAMMA + total) % m);
    }
}

/// Steps compose: going on from a later state is going on from the first one.
pub proof fn state_after_adds_up(state: u64, first: nat, second: nat)
    ensures
        state_after(state_after(state, first), second) == state_after(state, first + second),
    decreases second,
{
    if second > 0 {
        state_after_adds_up(state, first, (second - 1) as nat);
        assert((first + second - 1) as nat == first + (second - 1) as nat);
    }
}

/// The generator returns to a state only after whole periods, each of which
/// visits every state.
pub proof fn states_repeat_by_whole_periods(state: u64, i: nat, j: nat)
    requires
        i <= j,
    ensures
        state_after(state, i) == state_after(state, j) <==> (j - i) % modulus() == 0,
{
    let m = modulus();
    state_after_is_linear(state, i);
    state_after_is_linear(state, j);
    let a = state + i * GAMMA;
    let b = state + j * GAMMA;
    if state_after(state, i) == state_after(state, j) {
        lemma_fundamental_div_mod(a, m);
        lemma_fundamental_div_mod(b, m);
        let q = b / m - a / m;
        assert((j - i) * GAMMA == q * m) by (nonlinear_arith)
            requires
                a == state + i * GAMMA,
                b == state + j * GAMMA,
                a == m * (a / m) + a % m,
                b == m * (b / m) + b % m,
                a % m == b % m,
                q == b / m - a / m,
        ;
        lemma_mod_multiples_basic(q, m);
        invertible_factor_cancels(
            j - i,
            GAMMA as int,
            0xf1de_83e1_9937_733d,
            0x957b_bf35_006e_d677,
        );
    }
    if (j - i) % m == 0 {
        let periods = (j - i) / m;
        lemma_fundamental_div_mod(j - i, m);
        assert(b == m * (periods * GAMMA) + a) by (nonlinear_arith)
            requires
                a == state + i * GAMMA,
                b == state + j * GAMMA,
                j - i == m * periods,
        ;
        lemma_mod_multiples_vanish(periods * GAMMA, a, m);
    }
}

/// Three words are drawn at a time without shortening the period: draws less
/// than a full period apart start from different states.
pub proof fn triples_do_not_repeat(state: u64, i: nat, j: nat)
    requires
        i < j,
        j - i < modulus(),
    ensures
        state_after(state, 3 * i + 1) != state_after(state, 3 * j + 1),
{
    states_repeat_by_whole_periods(state, 3 * i + 1, 3 * j + 1);
    if ((3 * j + 1) - (3 * i + 1)) % modulus() == 0 {
        assert((j - i) * 3 == (3 * j + 1) - (3 * i + 1));
        invertible_factor_cancels(j - i, 3, 0xaaaa_aaaa_aaaa_aaab, 2);
    }
}

/// Words less than a full period apart differ.
pub proof fn words_do_not_repeat(state: u64, i: nat, j: nat)
    requires
        i < j,
        j - i < modulus(),
    ensures
        word(state, i) != word(state, j),
{
    states_repeat_by_whole_periods(state, i + 1, j + 1);
    if word(state, i) == word(state, j) {
        mix_is_injective(state_after(state, i + 1), state_after(state, j + 1));
    }
}

} // verus!
